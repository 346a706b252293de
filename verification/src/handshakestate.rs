//! The handshake engine: applies premessages, writes and reads handshake
//! messages according to the remaining pattern, tracks whose turn it is,
//! and produces two transport cipher states on completion.

use vstd::prelude::*;
use crate::error::{Error, InitStage, PatternProblem, Prerequisite, StateProblem};
use crate::params::{
    HandshakeChoice,
    Token,
    msgs_view,
    spec_pattern_name,
    spec_mods_name,
    spec_mods_valid,
    spec_msg_patterns,
    spec_premsg_i,
    spec_premsg_r,
    spec_choice_msg_patterns,
    pattern_name_bytes,
    push_mods_name,
    premsg_pattern_i,
    premsg_pattern_r,
    choice_msg_patterns,
};
use crate::crypto::{
    CipherChoice,
    DhChoice,
    HashChoice,
    base_point,
    s_x25519,
    spec_dh_name,
    spec_cipher_name,
    spec_hash_name,
    zeros,
    dh,
    dh_pubkey,
    dh_name_bytes,
    cipher_name_bytes,
    hash_name_bytes,
    random_vec,
    take_bytes,
    concat_bytes,
};
use crate::symmetricstate::{
    SymmetricState,
    SymView,
    sv_initialize,
    sv_mix_hash,
    sv_mix_key,
    sv_mix_key_and_hash,
    sv_encrypt_hash,
    sv_decrypt_hash,
    sv_split,
};
use crate::cipherstate::{CipherState, CipherStates};

verus! {

/// The mathematical value of a Diffie-Hellman keypair.
#[verifier::ext_equal]
pub ghost struct KpView {
    pub sk: Seq<u8>,
    pub pk: Seq<u8>,
}

/// A keypair is valid when its public key is derived from its 32-byte
/// private key.
pub open spec fn kp_valid(kp: KpView) -> bool {
    kp.sk.len() == 32 && kp.pk == s_x25519(kp.sk, base_point())
}

/// A local Diffie-Hellman keypair.
pub struct Keypair {
    sk: Vec<u8>,
    pk: Vec<u8>,
}

impl Keypair {
    /// The mathematical value of this keypair.
    pub closed spec fn view(self) -> KpView {
        KpView { sk: self.sk@, pk: self.pk@ }
    }

    /// The public key is derived from the private key and both are 32
    /// bytes.
    pub open spec fn wf(self) -> bool {
        kp_valid(self.view()) && self.view().pk.len() == 32
    }

    /// A copy of the public key.
    pub fn pk_bytes(&self) -> (r: Vec<u8>)
        ensures
            r@ == self.view().pk,
    {
        let r = take_bytes(self.pk.as_slice(), self.pk.len());
        proof {
            assert(self.pk@.take(self.pk@.len() as int) =~= self.pk@);
        }
        r
    }
}

/// A keypair whose public key is derived from the given private key.
fn keypair_from_priv(sk: &[u8]) -> (r: Keypair)
    requires
        sk@.len() == 32,
    ensures
        r.wf(),
        r.view() == (KpView { sk: sk@, pk: s_x25519(sk@, base_point()) }),
{
    let pk = dh_pubkey(DhChoice::Curve25519, sk);
    let sk_copy = take_bytes(sk, sk.len());
    proof {
        assert(sk@.take(sk@.len() as int) =~= sk@);
    }
    Keypair { sk: sk_copy, pk }
}

/// A fresh keypair with a random private key.
fn keypair_generate() -> (r: Keypair)
    ensures
        r.wf(),
{
    let sk = random_vec(32);
    keypair_from_priv(sk.as_slice())
}

/// The bytes of an optional byte vector.
pub open spec fn opt_bytes(o: Option<Vec<u8>>) -> Option<Seq<u8>> {
    match o {
        Some(v) => Some(v@),
        None => None,
    }
}

/// The views of an optional keypair.
pub open spec fn opt_kp(o: Option<Keypair>) -> Option<KpView> {
    match o {
        Some(kp) => Some(kp.view()),
        None => None,
    }
}

/// The public key of an optional keypair view.
pub open spec fn opt_pk(o: Option<KpView>) -> Option<Seq<u8>> {
    match o {
        Some(kp) => Some(kp.pk),
        None => None,
    }
}

/// The views of a pre-shared key array.
pub open spec fn psks_view(s: Seq<Option<Vec<u8>>>) -> Seq<Option<Seq<u8>>> {
    Seq::new(s.len(), |i: int| opt_bytes(s[i]))
}

/// A copy of an optional byte vector.
fn opt_copy(o: &Option<Vec<u8>>) -> (r: Option<Vec<u8>>)
    ensures
        opt_bytes(r) == opt_bytes(*o),
{
    match o {
        Some(v) => {
            let c = take_bytes(v.as_slice(), v.len());
            proof {
                assert(v@.take(v@.len() as int) =~= v@);
            }
            Some(c)
        },
        None => None,
    }
}

/// A copy of the public key of an optional keypair.
fn kp_pk_copy(o: &Option<Keypair>) -> (r: Option<Vec<u8>>)
    ensures
        opt_bytes(r) == opt_pk(opt_kp(*o)),
{
    match o {
        Some(kp) => {
            let c = kp.pk_bytes();
            Some(c)
        },
        None => None,
    }
}

/// Whether a token sequence transmits an ephemeral key.
fn tokens_have_e(tokens: &Vec<Token>) -> (r: bool)
    ensures
        r == tokens@.contains(Token::E),
{
    let mut i: usize = 0;
    let mut found = false;
    while i < tokens.len()
        invariant
            0 <= i <= tokens@.len(),
            found == exists|j: int| 0 <= j < i && tokens@[j] == Token::E,
        decreases tokens@.len() - i,
    {
        if tokens[i] == Token::E {
            found = true;
            proof {
                assert(tokens@[i as int] == Token::E);
            }
        }
        i = i + 1;
    }
    found
}

/// Mixes a premessage token sequence into the symmetric state, hashing
/// the given static or ephemeral public key per token.
fn apply_premsg(
    sym: &mut SymmetricState,
    tokens: &Vec<Token>,
    spk: &Option<Vec<u8>>,
    epk: &Option<Vec<u8>>,
    local: bool,
) -> (r: Result<(), Error>)
    requires
        old(sym).wf(),
    ensures
        final(sym).wf(),
        final(sym).view().cipher == old(sym).view().cipher,
        final(sym).view().hash == old(sym).view().hash,
        final(sym).view().key == old(sym).view().key,
        final(sym).view().n == old(sym).view().n,
        match premsg_run(old(sym).view(), tokens@, opt_bytes(*spk), opt_bytes(*epk), local) {
            Ok(sv) => r is Ok && final(sym).view() == sv,
            Err(e) => r == Err::<(), Error>(e),
        },
{
    let mut i: usize = 0;
    proof {
        assert(tokens@.skip(0) =~= tokens@);
    }
    while i < tokens.len()
        invariant
            0 <= i <= tokens@.len(),
            sym.wf(),
            sym.view().cipher == old(sym).view().cipher,
            sym.view().hash == old(sym).view().hash,
            sym.view().key == old(sym).view().key,
            sym.view().n == old(sym).view().n,
            match premsg_run(sym.view(), tokens@.skip(i as int), opt_bytes(*spk), opt_bytes(*epk), local) {
                Ok(sv) => premsg_run(
                    old(sym).view(),
                    tokens@,
                    opt_bytes(*spk),
                    opt_bytes(*epk),
                    local,
                ) == Ok::<SymView, Error>(sv),
                Err(e) => premsg_run(
                    old(sym).view(),
                    tokens@,
                    opt_bytes(*spk),
                    opt_bytes(*epk),
                    local,
                ) == Err::<SymView, Error>(e),
            },
        decreases tokens@.len() - i,
    {
        proof {
            assert(tokens@.skip(i as int)[0] == tokens@[i as int]);
            assert(tokens@.skip(i as int).drop_first() =~= tokens@.skip(i + 1));
        }
        let missing = if local {
            Error::Prereq(Prerequisite::LocalPrivateKey)
        } else {
            Error::Prereq(Prerequisite::RemotePublicKey)
        };
        match tokens[i] {
            Token::S => {
                match spk {
                    Some(v) => sym.mix_hash(v.as_slice()),
                    None => {
                        return Err(missing);
                    },
                }
            },
            Token::E => {
                match epk {
                    Some(v) => sym.mix_hash(v.as_slice()),
                    None => {
                        return Err(missing);
                    },
                }
            },
            _ => {
                return Err(Error::Pattern(PatternProblem::UnsupportedHandshakeType));
            },
        }
        i = i + 1;
    }
    proof {
        assert(tokens@.skip(tokens@.len() as int) =~= Seq::<Token>::empty());
    }
    Ok(())
}

/// The mathematical value of a handshake state: the symmetric state, the
/// four key slots, role and turn flags, pre-shared keys, the remaining
/// message patterns, and the two transport keys once split has run.
#[verifier::ext_equal]
pub ghost struct HsView {
    pub sym: SymView,
    pub s: Option<KpView>,
    pub e: Option<KpView>,
    pub rs: Option<Seq<u8>>,
    pub re: Option<Seq<u8>>,
    pub initiator: bool,
    pub my_turn: bool,
    pub fixed_ephemeral: bool,
    pub psk_mod: bool,
    pub psks: Seq<Option<Seq<u8>>>,
    pub patterns: Seq<Seq<Token>>,
    pub tc1: Option<Seq<u8>>,
    pub tc2: Option<Seq<u8>>,
}

/// A Diffie-Hellman token: mixes the shared secret of the selected local
/// keypair and remote public key, or fails when either is missing.
pub open spec fn hv_dh_step(v: HsView, local_s: bool, remote_s: bool) -> Result<HsView, Error> {
    let lkp = if local_s {
        v.s
    } else {
        v.e
    };
    let rpk = if remote_s {
        v.rs
    } else {
        v.re
    };
    if lkp is None || rpk is None {
        Err(Error::State(StateProblem::MissingKeyMaterial))
    } else {
        Ok(HsView { sym: sv_mix_key(v.sym, s_x25519(lkp.unwrap().sk, rpk.unwrap())), ..v })
    }
}

/// Which slots a Diffie-Hellman token pairs, by role: `Es` is always the
/// initiator's ephemeral with the responder's static, `Se` the converse.
pub open spec fn dh_args(v: HsView, t: Token) -> (bool, bool) {
    match t {
        Token::Ee => (false, false),
        Token::Es => if v.initiator {
            (false, true)
        } else {
            (true, false)
        },
        Token::Se => if v.initiator {
            (true, false)
        } else {
            (false, true)
        },
        _ => (true, true),
    }
}

/// A `Psk` token: mixes the selected pre-shared key, or fails when it is
/// absent.
pub open spec fn hv_psk_step(v: HsView, n: u8) -> Result<HsView, Error> {
    if n < v.psks.len() && v.psks[n as int] is Some {
        Ok(HsView { sym: sv_mix_key_and_hash(v.sym, v.psks[n as int].unwrap()), ..v })
    } else {
        Err(Error::State(StateProblem::MissingPsk))
    }
}

/// One token of a written message: the new state and the bytes the token
/// appends to the wire.
pub open spec fn hv_write_step(v: HsView, t: Token) -> Result<(HsView, Seq<u8>), Error> {
    match t {
        Token::E => {
            if v.e is None {
                Err(Error::State(StateProblem::MissingKeyMaterial))
            } else {
                let pk = v.e.unwrap().pk;
                let v1 = HsView { sym: sv_mix_hash(v.sym, pk), ..v };
                let v2 = if v.psk_mod {
                    HsView { sym: sv_mix_key(v1.sym, pk), ..v1 }
                } else {
                    v1
                };
                Ok((v2, pk))
            }
        },
        Token::S => {
            if v.s is None {
                Err(Error::State(StateProblem::MissingKeyMaterial))
            } else {
                match sv_encrypt_hash(v.sym, v.s.unwrap().pk) {
                    Ok(pair) => Ok((HsView { sym: pair.0, ..v }, pair.1)),
                    Err(e) => Err(e),
                }
            }
        },
        Token::Psk(n) => match hv_psk_step(v, n) {
            Ok(v1) => Ok((v1, Seq::empty())),
            Err(e) => Err(e),
        },
        _ => match hv_dh_step(v, dh_args(v, t).0, dh_args(v, t).1) {
            Ok(v1) => Ok((v1, Seq::empty())),
            Err(e) => Err(e),
        },
    }
}

/// A whole token sequence of a written message.
pub open spec fn hv_write_run(v: HsView, ts: Seq<Token>) -> Result<(HsView, Seq<u8>), Error>
    decreases ts.len(),
{
    if ts.len() == 0 {
        Ok((v, Seq::empty()))
    } else {
        match hv_write_step(v, ts[0]) {
            Err(e) => Err(e),
            Ok(pair) => match hv_write_run(pair.0, ts.drop_first()) {
                Err(e) => Err(e),
                Ok(pair2) => Ok((pair2.0, pair.1 + pair2.1)),
            },
        }
    }
}

/// `write_handshake_message` on the model: turn and queue checks, the
/// token sequence, the 65535-byte limit, the sealed payload, and the
/// split on the last message.
pub open spec fn hv_write_msg(v: HsView, payload: Seq<u8>) -> Result<(HsView, Seq<u8>), Error> {
    if !v.my_turn {
        Err(Error::State(StateProblem::NotTurnToWrite))
    } else if v.patterns.len() == 0 {
        Err(Error::State(StateProblem::HandshakeAlreadyFinished))
    } else {
        let ts = v.patterns[0];
        let v0 = HsView { patterns: v.patterns.drop_first(), ..v };
        match hv_write_run(v0, ts) {
            Err(e) => Err(e),
            Ok(pair) => {
                let taglen: int = if pair.0.sym.key is Some {
                    16
                } else {
                    0
                };
                if pair.1.len() + payload.len() + taglen > 65535 {
                    Err(Error::Input)
                } else {
                    match sv_encrypt_hash(pair.0.sym, payload) {
                        Err(e) => Err(e),
                        Ok(pp) => {
                            let v1 = HsView { sym: pp.0, my_turn: false, ..pair.0 };
                            let v2 = if v1.patterns.len() == 0 {
                                HsView {
                                    tc1: Some(sv_split(v1.sym).0),
                                    tc2: Some(sv_split(v1.sym).1),
                                    ..v1
                                }
                            } else {
                                v1
                            };
                            Ok((v2, pair.1 + pp.1))
                        },
                    }
                }
            },
        }
    }
}

/// The wire bytes the tokens of one message contribute, tracking how
/// the cipher key evolves along the way: an ephemeral is 32 raw bytes, a
/// static is 32 bytes plus a tag when the state is keyed at that point,
/// and `Psk` and Diffie-Hellman tokens key the state for what follows
/// (as does an ephemeral under a `psk` modifier).
pub open spec fn tokens_wire_len(keyed: bool, psk_mod: bool, ts: Seq<Token>) -> int
    decreases ts.len(),
{
    if ts.len() == 0 {
        0
    } else {
        match ts[0] {
            Token::E => 32 + tokens_wire_len(keyed || psk_mod, psk_mod, ts.drop_first()),
            Token::S => 32 + (if keyed {
                16int
            } else {
                0int
            }) + tokens_wire_len(keyed, psk_mod, ts.drop_first()),
            _ => tokens_wire_len(true, psk_mod, ts.drop_first()),
        }
    }
}

/// Whether the cipher state is keyed once the tokens of a message have
/// run, so whether the payload carries a 16-byte tag.
pub open spec fn keyed_after(keyed: bool, psk_mod: bool, ts: Seq<Token>) -> bool
    decreases ts.len(),
{
    if ts.len() == 0 {
        keyed
    } else {
        match ts[0] {
            Token::E => keyed_after(keyed || psk_mod, psk_mod, ts.drop_first()),
            Token::S => keyed_after(keyed, psk_mod, ts.drop_first()),
            _ => keyed_after(true, psk_mod, ts.drop_first()),
        }
    }
}

/// The state a write starts from: when ephemerals are not fixed and the
/// coming message transmits one, the ephemeral slot holds a fresh keypair.
pub open spec fn with_fresh_e(v: HsView, kp: KpView) -> HsView {
    if !v.fixed_ephemeral && v.patterns.len() > 0 && v.patterns[0].contains(Token::E) {
        HsView { e: Some(kp), ..v }
    } else {
        v
    }
}

/// One token of a read message: the new state and the new read cursor.
pub open spec fn hv_read_step(v: HsView, t: Token, msg: Seq<u8>, pos: int) -> Result<
    (HsView, int),
    Error,
> {
    match t {
        Token::E => {
            if pos + 32 <= msg.len() {
                let repk = msg.subrange(pos, pos + 32);
                let v1 = HsView { sym: sv_mix_hash(v.sym, repk), re: Some(repk), ..v };
                let v2 = if v.psk_mod {
                    HsView { sym: sv_mix_key(v1.sym, repk), ..v1 }
                } else {
                    v1
                };
                Ok((v2, pos + 32))
            } else {
                Err(Error::Input)
            }
        },
        Token::S => {
            let take: int = if v.sym.key is Some {
                48
            } else {
                32
            };
            if pos + take <= msg.len() {
                let data = msg.subrange(pos, pos + take);
                match sv_decrypt_hash(v.sym, data) {
                    Ok(pair) => Ok((HsView { sym: pair.0, rs: Some(pair.1), ..v }, pos + take)),
                    Err(e) => Err(e),
                }
            } else {
                Err(Error::Input)
            }
        },
        Token::Psk(n) => match hv_psk_step(v, n) {
            Ok(v1) => Ok((v1, pos)),
            Err(e) => Err(e),
        },
        _ => match hv_dh_step(v, dh_args(v, t).0, dh_args(v, t).1) {
            Ok(v1) => Ok((v1, pos)),
            Err(e) => Err(e),
        },
    }
}

/// A whole token sequence of a read message.
pub open spec fn hv_read_run(v: HsView, ts: Seq<Token>, msg: Seq<u8>, pos: int) -> Result<
    (HsView, int),
    Error,
>
    decreases ts.len(),
{
    if ts.len() == 0 {
        Ok((v, pos))
    } else {
        match hv_read_step(v, ts[0], msg, pos) {
            Err(e) => Err(e),
            Ok(pair) => hv_read_run(pair.0, ts.drop_first(), msg, pair.1),
        }
    }
}

/// `read_handshake_message` on the model: length, turn and queue checks,
/// the token sequence over the message bytes, the payload decryption, and
/// the split on the last message. Returns the new state and the payload.
pub open spec fn hv_read_msg(v: HsView, msg: Seq<u8>) -> Result<(HsView, Seq<u8>), Error> {
    if msg.len() > 65535 {
        Err(Error::Input)
    } else if v.my_turn {
        Err(Error::State(StateProblem::NotTurnToRead))
    } else if v.patterns.len() == 0 {
        Err(Error::State(StateProblem::HandshakeAlreadyFinished))
    } else {
        let ts = v.patterns[0];
        let v0 = HsView { patterns: v.patterns.drop_first(), ..v };
        match hv_read_run(v0, ts, msg, 0) {
            Err(e) => Err(e),
            Ok(pair) => {
                match sv_decrypt_hash(pair.0.sym, msg.subrange(pair.1, msg.len() as int)) {
                    Err(e) => Err(e),
                    Ok(pp) => {
                        let v1 = HsView { sym: pp.0, my_turn: true, ..pair.0 };
                        let v2 = if v1.patterns.len() == 0 {
                            HsView {
                                tc1: Some(sv_split(v1.sym).0),
                                tc2: Some(sv_split(v1.sym).1),
                                ..v1
                            }
                        } else {
                            v1
                        };
                        Ok((v2, pp.1))
                    },
                }
            },
        }
    }
}

/// A premessage token sequence mixed into the transcript: each token
/// hashes the named public key of the side the premessage belongs to.
pub open spec fn premsg_run(
    sv: SymView,
    ts: Seq<Token>,
    spk: Option<Seq<u8>>,
    epk: Option<Seq<u8>>,
    local: bool,
) -> Result<SymView, Error>
    decreases ts.len(),
{
    if ts.len() == 0 {
        Ok(sv)
    } else {
        let missing = if local {
            Error::Prereq(Prerequisite::LocalPrivateKey)
        } else {
            Error::Prereq(Prerequisite::RemotePublicKey)
        };
        match ts[0] {
            Token::S => if spk is Some {
                premsg_run(sv_mix_hash(sv, spk.unwrap()), ts.drop_first(), spk, epk, local)
            } else {
                Err(missing)
            },
            Token::E => if epk is Some {
                premsg_run(sv_mix_hash(sv, epk.unwrap()), ts.drop_first(), spk, epk, local)
            } else {
                Err(missing)
            },
            _ => Err(Error::Pattern(PatternProblem::UnsupportedHandshakeType)),
        }
    }
}

/// The full protocol name, e.g. `Noise_XXpsk0_25519_ChaChaPoly_BLAKE2s`.
pub open spec fn spec_protocol_name(
    c: HandshakeChoice,
    d: DhChoice,
    ci: CipherChoice,
    h: HashChoice,
) -> Seq<u8> {
    seq![78u8, 111u8, 105u8, 115u8, 101u8, 95u8] + spec_pattern_name(c.pattern) + spec_mods_name(
        c.modifiers@,
    ) + seq![95u8] + spec_dh_name(d) + seq![95u8] + spec_cipher_name(ci) + seq![95u8]
        + spec_hash_name(h)
}

/// `HandshakeState::new` on the model: key and pre-shared key validation,
/// the protocol name, the prologue, and both premessage sequences.
pub open spec fn spec_new(
    initiator: bool,
    choice: HandshakeChoice,
    d: DhChoice,
    cipher: CipherChoice,
    hash: HashChoice,
    s: Option<Seq<u8>>,
    e: Option<Seq<u8>>,
    fixed_ephemeral: bool,
    rs: Option<Seq<u8>>,
    re: Option<Seq<u8>>,
    psks: Seq<Option<Seq<u8>>>,
    prologue: Seq<u8>,
) -> Result<HsView, Error> {
    if (s is Some && s.unwrap().len() != 32) || (e is Some && e.unwrap().len() != 32) {
        Err(Error::Prereq(Prerequisite::LocalPrivateKey))
    } else if (rs is Some && rs.unwrap().len() != 32) || (re is Some && re.unwrap().len() != 32) {
        Err(Error::Prereq(Prerequisite::RemotePublicKey))
    } else if !(forall|i: int|
        0 <= i < psks.len() ==> ((#[trigger] psks[i]) is Some ==> psks[i].unwrap().len() == 32)) {
        Err(Error::Init(InitStage::ValidatePskLengths))
    } else if !spec_mods_valid(choice.modifiers@, spec_msg_patterns(choice.pattern).len() as int) {
        Err(Error::Pattern(PatternProblem::UnsupportedModifier))
    } else {
        let skp = if s is Some {
            Some(KpView { sk: s.unwrap(), pk: s_x25519(s.unwrap(), base_point()) })
        } else {
            None
        };
        let ekp = if e is Some {
            Some(KpView { sk: e.unwrap(), pk: s_x25519(e.unwrap(), base_point()) })
        } else {
            None
        };
        let name = spec_protocol_name(choice, d, cipher, hash);
        let sv0 = sv_mix_hash(sv_initialize(cipher, hash, name), prologue);
        let i_spk = if initiator {
            opt_pk(skp)
        } else {
            rs
        };
        let i_epk = if initiator {
            opt_pk(ekp)
        } else {
            re
        };
        match premsg_run(sv0, spec_premsg_i(choice.pattern), i_spk, i_epk, initiator) {
            Err(er) => Err(er),
            Ok(sv1) => {
                let r_spk = if initiator {
                    rs
                } else {
                    opt_pk(skp)
                };
                let r_epk = if initiator {
                    re
                } else {
                    opt_pk(ekp)
                };
                match premsg_run(sv1, spec_premsg_r(choice.pattern), r_spk, r_epk, !initiator) {
                    Err(er) => Err(er),
                    Ok(sv2) => Ok(
                        HsView {
                            sym: sv2,
                            s: skp,
                            e: ekp,
                            rs,
                            re,
                            initiator,
                            my_turn: initiator,
                            fixed_ephemeral,
                            psk_mod: choice.modifiers@.len() > 0,
                            psks,
                            patterns: spec_choice_msg_patterns(choice),
                            tc1: None,
                            tc2: None,
                        },
                    ),
                }
            },
        }
    }
}

/// The ASCII protocol name of a configuration, e.g.
/// `Noise_XXpsk0_25519_ChaChaPoly_BLAKE2s`. Both parties of a session
/// compute it from the pattern choice and algorithm capabilities alone.
pub fn protocol_name(
    choice: &HandshakeChoice,
    d: DhChoice,
    cipher: CipherChoice,
    hash: HashChoice,
) -> (r: Vec<u8>)
    requires
        forall|k: int| 0 <= k < choice.modifiers@.len() ==> (#[trigger] choice.modifiers@[k]) <= 9,
    ensures
        r@ == spec_protocol_name(*choice, d, cipher, hash),
{
    let mut name: Vec<u8> = Vec::new();
    name.push(78);
    name.push(111);
    name.push(105);
    name.push(115);
    name.push(101);
    name.push(95);
    let pn = pattern_name_bytes(choice.pattern);
    name = concat_bytes(name.as_slice(), pn.as_slice());
    push_mods_name(&mut name, &choice.modifiers);
    name.push(95);
    let dn = dh_name_bytes(d);
    name = concat_bytes(name.as_slice(), dn.as_slice());
    name.push(95);
    let cn = cipher_name_bytes(cipher);
    name = concat_bytes(name.as_slice(), cn.as_slice());
    name.push(95);
    let hn = hash_name_bytes(hash);
    name = concat_bytes(name.as_slice(), hn.as_slice());
    proof {
        assert(name@ =~= spec_protocol_name(*choice, d, cipher, hash));
    }
    name
}

/// A state machine encompassing the handshake phase of a Noise session.
pub struct HandshakeState {
    dh_choice: DhChoice,
    sym: SymmetricState,
    cipherstates: CipherStates,
    s: Option<Keypair>,
    e: Option<Keypair>,
    rs: Option<Vec<u8>>,
    re: Option<Vec<u8>>,
    initiator: bool,
    fixed_ephemeral: bool,
    my_turn: bool,
    psks: Vec<Option<Vec<u8>>>,
    message_patterns: Vec<Vec<Token>>,
    handshake: HandshakeChoice,
}

impl HandshakeState {
    /// The mathematical value of this handshake state.
    pub closed spec fn view(self) -> HsView {
        HsView {
            sym: self.sym.view(),
            s: opt_kp(self.s),
            e: opt_kp(self.e),
            rs: opt_bytes(self.rs),
            re: opt_bytes(self.re),
            initiator: self.initiator,
            my_turn: self.my_turn,
            fixed_ephemeral: self.fixed_ephemeral,
            psk_mod: self.handshake.modifiers@.len() > 0,
            psks: psks_view(self.psks@),
            patterns: msgs_view(self.message_patterns@),
            tc1: self.cipherstates.0.key_view(),
            tc2: self.cipherstates.1.key_view(),
        }
    }

    /// Internal well-formedness: key slots hold 32-byte material, local
    /// keypairs are derived, and the transport cipher states share the
    /// session cipher with their nonces still at zero.
    pub closed spec fn wf(self) -> bool {
        &&& self.sym.wf()
        &&& match self.s {
            Some(kp) => kp.wf(),
            None => true,
        }
        &&& match self.e {
            Some(kp) => kp.wf(),
            None => true,
        }
        &&& match self.rs {
            Some(v) => v@.len() == 32,
            None => true,
        }
        &&& match self.re {
            Some(v) => v@.len() == 32,
            None => true,
        }
        &&& self.cipherstates.0.alg() == self.sym.view().cipher
        &&& self.cipherstates.1.alg() == self.sym.view().cipher
        &&& self.cipherstates.0.wf()
        &&& self.cipherstates.1.wf()
        &&& (self.cipherstates.0.key_view() is Some ==> self.cipherstates.0.nonce() == 0)
        &&& (self.cipherstates.1.key_view() is Some ==> self.cipherstates.1.nonce() == 0)
    }

    /// Whether this side is the initiator.
    pub fn is_initiator(&self) -> (r: bool)
        ensures
            r == self.view().initiator,
    {
        self.initiator
    }

    /// Whether every message pattern has been consumed.
    pub fn is_finished(&self) -> (r: bool)
        ensures
            r == (self.view().patterns.len() == 0),
    {
        self.message_patterns.len() == 0
    }

    /// Whether the next written message will be encrypted.
    pub fn is_write_encrypted(&self) -> (r: bool)
        ensures
            r == (self.view().sym.key is Some),
    {
        self.sym.has_key()
    }

    /// A copy of the transcript hash `h`.
    pub fn handshake_hash(&self) -> (r: Vec<u8>)
        ensures
            r@ == self.view().sym.h,
    {
        self.sym.h_bytes()
    }

    /// A copy of the chaining key `ck`.
    pub fn chaining_key(&self) -> (r: Vec<u8>)
        ensures
            r@ == self.view().sym.ck,
    {
        self.sym.ck_bytes()
    }

    /// An `E` token while reading: consumes the peer's ephemeral public
    /// key from the message, hashes (and under a `psk` modifier also
    /// keys) it. Returns the new read cursor.
    fn e_token_read(&mut self, message: &[u8], pos: usize) -> (r: Result<usize, Error>)
        requires
            old(self).wf(),
            pos <= message@.len(),
        ensures
            final(self).wf(),
            match hv_read_step(old(self).view(), Token::E, message@, pos as int) {
                Ok(pair) => r is Ok && r.unwrap() as int == pair.1 && final(self).view() == pair.0
                    && pair.1 <= message@.len(),
                Err(e) => r == Err::<usize, Error>(e),
            },
    {
        if message.len() - pos < 32 {
            return Err(Error::Input);
        }
        let sl = crate::crypto::take_bytes(
            vstd::slice::slice_subrange(message, pos, pos + 32),
            32,
        );
        proof {
            assert(message@.subrange(pos as int, pos + 32).take(32) =~= message@.subrange(
                pos as int,
                pos + 32,
            ));
        }
        self.sym.mix_hash(sl.as_slice());
        if self.handshake.modifiers.len() > 0 {
            self.sym.mix_key(sl.as_slice());
        }
        self.re = Some(sl);
        proof {
            assert(final(self).view() =~~= hv_read_step(
                old(self).view(),
                Token::E,
                message@,
                pos as int,
            ).unwrap().0);
        }
        Ok(pos + 32)
    }

    /// An `S` token while reading: consumes the peer's (possibly sealed)
    /// static public key, decrypts it and mixes its wire form. Returns
    /// the new read cursor.
    fn s_token_read(&mut self, message: &[u8], pos: usize) -> (r: Result<usize, Error>)
        requires
            old(self).wf(),
            pos <= message@.len(),
        ensures
            final(self).wf(),
            match hv_read_step(old(self).view(), Token::S, message@, pos as int) {
                Ok(pair) => r is Ok && r.unwrap() as int == pair.1 && final(self).view() == pair.0
                    && pair.1 <= message@.len(),
                Err(e) => r == Err::<usize, Error>(e),
            },
    {
        let take_n: usize = if self.sym.has_key() {
            48
        } else {
            32
        };
        if message.len() - pos < take_n {
            return Err(Error::Input);
        }
        let data = vstd::slice::slice_subrange(message, pos, pos + take_n);
        let pt = match self.sym.decrypt_and_mix_hash(data) {
            Ok(pt) => pt,
            Err(e) => {
                return Err(e);
            },
        };
        self.rs = Some(pt);
        proof {
            assert(hv_read_step(old(self).view(), Token::S, message@, pos as int) is Ok);
            assert(final(self).view() =~~= hv_read_step(
                old(self).view(),
                Token::S,
                message@,
                pos as int,
            ).unwrap().0);
        }
        Ok(pos + take_n)
    }

    /// Reads a received handshake message, consuming per token the
    /// peer's ephemeral or (possibly sealed) static key, then decrypting
    /// the payload; takes the turn, and on the last message fills the
    /// transport cipher states. Fails with `Decrypt` on any tag that does
    /// not verify.
    #[verifier::rlimit(100)]
    pub fn read_handshake_message(&mut self, message: &[u8]) -> (r: Result<Vec<u8>, Error>)
        requires
            old(self).wf(),
        ensures
            final(self).wf(),
            match hv_read_msg(old(self).view(), message@) {
                Ok(pair) => r is Ok && r.unwrap()@ == pair.1 && final(self).view() == pair.0,
                Err(e) => r == Err::<Vec<u8>, Error>(e),
            },
            old(self).view().my_turn && message@.len() <= 65535 ==> r == Err::<Vec<u8>, Error>(
                Error::State(StateProblem::NotTurnToRead),
            ),
            r is Ok ==> final(self).view().my_turn && !old(self).view().my_turn,
            r is Ok ==> message@.len() == tokens_wire_len(
                old(self).view().sym.key is Some,
                old(self).view().psk_mod,
                old(self).view().patterns[0],
            ) + r.unwrap()@.len() + (if keyed_after(
                old(self).view().sym.key is Some,
                old(self).view().psk_mod,
                old(self).view().patterns[0],
            ) {
                16int
            } else {
                0int
            }),
    {
        if message.len() > 65535 {
            return Err(Error::Input);
        }
        if self.my_turn {
            return Err(Error::State(StateProblem::NotTurnToRead));
        }
        if self.message_patterns.len() == 0 {
            return Err(Error::State(StateProblem::HandshakeAlreadyFinished));
        }
        let tokens = self.message_patterns.remove(0);
        let ghost v0 = HsView {
            patterns: old(self).view().patterns.drop_first(),
            ..old(self).view()
        };
        proof {
            assert(old(self).view().patterns[0] == tokens@);
            assert(msgs_view(self.message_patterns@) =~= old(self).view().patterns.drop_first());
            assert(self.view() =~~= v0);
            assert(tokens@.skip(0) =~= tokens@);
        }
        let mut pos: usize = 0;
        let mut i: usize = 0;
        while i < tokens.len()
            invariant
                0 <= i <= tokens@.len(),
                self.wf(),
                pos <= message@.len(),
                message@.len() <= 65535,
                !old(self).view().my_turn,
                v0 == (HsView {
                    patterns: old(self).view().patterns.drop_first(),
                    ..old(self).view()
                }),
                old(self).view().patterns.len() > 0,
                old(self).view().patterns[0] == tokens@,
                self.view().psk_mod == old(self).view().psk_mod,
                pos as int + tokens_wire_len(
                    self.view().sym.key is Some,
                    old(self).view().psk_mod,
                    tokens@.skip(i as int),
                ) == tokens_wire_len(
                    old(self).view().sym.key is Some,
                    old(self).view().psk_mod,
                    tokens@,
                ),
                keyed_after(
                    self.view().sym.key is Some,
                    old(self).view().psk_mod,
                    tokens@.skip(i as int),
                ) == keyed_after(
                    old(self).view().sym.key is Some,
                    old(self).view().psk_mod,
                    tokens@,
                ),
                match hv_read_run(self.view(), tokens@.skip(i as int), message@, pos as int) {
                    Ok(p) => hv_read_run(v0, tokens@, message@, 0) == Ok::<(HsView, int), Error>(
                        p,
                    ),
                    Err(e) => hv_read_run(v0, tokens@, message@, 0) == Err::<
                        (HsView, int),
                        Error,
                    >(e),
                },
            decreases tokens@.len() - i,
        {
            proof {
                assert(tokens@.skip(i as int)[0] == tokens@[i as int]);
                assert(tokens@.skip(i as int).drop_first() =~= tokens@.skip(i + 1));
            }
            let ghost vpre = self.view();
            let ghost pos_pre = pos as int;
            let tok = tokens[i];
            match tok {
                Token::E => {
                    match self.e_token_read(message, pos) {
                        Ok(p2) => {
                            pos = p2;
                        },
                        Err(e) => {
                            return Err(e);
                        },
                    }
                },
                Token::S => {
                    match self.s_token_read(message, pos) {
                        Ok(p2) => {
                            pos = p2;
                        },
                        Err(e) => {
                            return Err(e);
                        },
                    }
                },
                Token::Psk(n) => {
                    match self.psk_token(n) {
                        Ok(_) => {},
                        Err(e) => {
                            return Err(e);
                        },
                    }
                },
                _ => {
                    match self.pair_token(tok) {
                        Ok(_) => {},
                        Err(e) => {
                            return Err(e);
                        },
                    }
                },
            }
            proof {
                assert(hv_read_step(vpre, tok, message@, pos_pre) is Ok);
                assert(self.view() == hv_read_step(vpre, tok, message@, pos_pre).unwrap().0);
                assert(pos as int == hv_read_step(vpre, tok, message@, pos_pre).unwrap().1);
            }
            i = i + 1;
        }
        proof {
            assert(tokens@.skip(tokens@.len() as int) =~= Seq::<Token>::empty());
            assert(hv_read_run(v0, tokens@, message@, 0) == Ok::<(HsView, int), Error>(
                (self.view(), pos as int),
            ));
        }
        let data = vstd::slice::slice_subrange(message, pos, message.len());
        let pt = match self.sym.decrypt_and_mix_hash(data) {
            Ok(pt) => pt,
            Err(e) => {
                return Err(e);
            },
        };
        self.my_turn = true;
        if self.message_patterns.len() == 0 {
            self.sym.split(&mut self.cipherstates.0, &mut self.cipherstates.1);
        }
        proof {
            assert(hv_read_msg(old(self).view(), message@) is Ok);
            assert(self.view() =~~= hv_read_msg(old(self).view(), message@).unwrap().0);
            assert(pt@ == hv_read_msg(old(self).view(), message@).unwrap().1);
        }
        Ok(pt)
    }

    /// Consumes the handshake: once every message pattern has run, yields
    /// the two transport cipher states and the pattern identity; before
    /// that it fails with `State`.
    pub fn finish(self) -> (r: Result<(CipherStates, HandshakeChoice), Error>)
        requires
            self.wf(),
        ensures
            r is Ok <==> self.view().patterns.len() == 0,
            r is Ok ==> {
                &&& r.unwrap().0.0.key_view() == self.view().tc1
                &&& r.unwrap().0.1.key_view() == self.view().tc2
                &&& r.unwrap().0.0.alg() == self.view().sym.cipher
                &&& r.unwrap().0.1.alg() == self.view().sym.cipher
                &&& (self.view().tc1 is Some ==> r.unwrap().0.0.nonce() == 0)
                &&& (self.view().tc2 is Some ==> r.unwrap().0.1.nonce() == 0)
                &&& r.unwrap().1 == self.handshake_choice()
            },
            r is Err ==> r == Err::<(CipherStates, HandshakeChoice), Error>(
                Error::State(StateProblem::HandshakeNotFinished),
            ),
    {
        if self.message_patterns.len() == 0 {
            Ok((self.cipherstates, self.handshake))
        } else {
            Err(Error::State(StateProblem::HandshakeNotFinished))
        }
    }

    /// The pattern identity this handshake was built from.
    pub closed spec fn handshake_choice(self) -> HandshakeChoice {
        self.handshake
    }

    /// Builds a handshake state with every input frozen up front: role,
    /// pattern choice, algorithm capabilities, key material, pre-shared
    /// keys and prologue. Mixes the protocol name, the prologue and both
    /// premessage sequences. Fails with `Prereq` on key material of the
    /// wrong length or missing premessage keys, `Init` on a bad
    /// pre-shared key length, and `Pattern` on an invalid modifier list.
    #[verifier::rlimit(100)]
    pub fn new(
        initiator: bool,
        handshake: HandshakeChoice,
        d: DhChoice,
        cipher: CipherChoice,
        hash: HashChoice,
        s: Option<Vec<u8>>,
        e: Option<Vec<u8>>,
        fixed_ephemeral: bool,
        rs: Option<Vec<u8>>,
        re: Option<Vec<u8>>,
        psks: Vec<Option<Vec<u8>>>,
        prologue: &[u8],
    ) -> (r: Result<HandshakeState, Error>)
        ensures
            match spec_new(
                initiator,
                handshake,
                d,
                cipher,
                hash,
                opt_bytes(s),
                opt_bytes(e),
                fixed_ephemeral,
                opt_bytes(rs),
                opt_bytes(re),
                psks_view(psks@),
                prologue@,
            ) {
                Ok(hv) => r is Ok && r.unwrap().view() == hv && r.unwrap().wf(),
                Err(er) => r is Err && r == Err::<HandshakeState, Error>(er),
            },
    {
        match &s {
            Some(v) => if v.len() != 32 {
                return Err(Error::Prereq(Prerequisite::LocalPrivateKey));
            },
            None => {},
        }
        match &e {
            Some(v) => if v.len() != 32 {
                return Err(Error::Prereq(Prerequisite::LocalPrivateKey));
            },
            None => {},
        }
        match &rs {
            Some(v) => if v.len() != 32 {
                return Err(Error::Prereq(Prerequisite::RemotePublicKey));
            },
            None => {},
        }
        match &re {
            Some(v) => if v.len() != 32 {
                return Err(Error::Prereq(Prerequisite::RemotePublicKey));
            },
            None => {},
        }
        let mut i: usize = 0;
        while i < psks.len()
            invariant
                0 <= i <= psks@.len(),
                opt_bytes(s) is Some ==> opt_bytes(s).unwrap().len() == 32,
                opt_bytes(e) is Some ==> opt_bytes(e).unwrap().len() == 32,
                opt_bytes(rs) is Some ==> opt_bytes(rs).unwrap().len() == 32,
                opt_bytes(re) is Some ==> opt_bytes(re).unwrap().len() == 32,
                forall|j: int|
                    0 <= j < i ==> ((#[trigger] psks_view(psks@)[j]) is Some ==> psks_view(
                        psks@,
                    )[j].unwrap().len() == 32),
            decreases psks@.len() - i,
        {
            match &psks[i] {
                Some(v) => if v.len() != 32 {
                    proof {
                        let jj = i as int;
                        assert(psks_view(psks@)[jj] == opt_bytes(psks@[jj]));
                        assert(psks_view(psks@)[jj] is Some && psks_view(psks@)[jj].unwrap().len()
                            != 32);
                        assert(!(forall|ii: int|
                            0 <= ii < psks_view(psks@).len() ==> ((#[trigger] psks_view(
                                psks@,
                            )[ii]) is Some ==> psks_view(psks@)[ii].unwrap().len() == 32)));
                    }
                    return Err(Error::Init(InitStage::ValidatePskLengths));
                },
                None => {},
            }
            i = i + 1;
        }
        let message_patterns = match choice_msg_patterns(&handshake) {
            Ok(m) => m,
            Err(er) => {
                return Err(er);
            },
        };
        let s_kp = match &s {
            Some(v) => Some(keypair_from_priv(v.as_slice())),
            None => None,
        };
        let e_kp = match &e {
            Some(v) => Some(keypair_from_priv(v.as_slice())),
            None => None,
        };
        let name = protocol_name(&handshake, d, cipher, hash);
        let mut sym = SymmetricState::new(cipher, hash, name.as_slice());
        sym.mix_hash(prologue);
        let pre_i = premsg_pattern_i(handshake.pattern);
        let pre_r = premsg_pattern_r(handshake.pattern);
        let i_spk = if initiator {
            kp_pk_copy(&s_kp)
        } else {
            opt_copy(&rs)
        };
        let i_epk = if initiator {
            kp_pk_copy(&e_kp)
        } else {
            opt_copy(&re)
        };
        match apply_premsg(&mut sym, &pre_i, &i_spk, &i_epk, initiator) {
            Ok(_) => {},
            Err(er) => {
                return Err(er);
            },
        }
        let r_spk = if initiator {
            opt_copy(&rs)
        } else {
            kp_pk_copy(&s_kp)
        };
        let r_epk = if initiator {
            opt_copy(&re)
        } else {
            kp_pk_copy(&e_kp)
        };
        match apply_premsg(&mut sym, &pre_r, &r_spk, &r_epk, !initiator) {
            Ok(_) => {},
            Err(er) => {
                return Err(er);
            },
        }
        let hs = HandshakeState {
            dh_choice: d,
            sym,
            cipherstates: CipherStates(CipherState::new(cipher), CipherState::new(cipher)),
            s: s_kp,
            e: e_kp,
            rs,
            re,
            initiator,
            fixed_ephemeral,
            my_turn: initiator,
            psks,
            message_patterns,
            handshake,
        };
        proof {
            let spec_r = spec_new(
                initiator,
                hs.handshake,
                d,
                cipher,
                hash,
                opt_bytes(s),
                opt_bytes(e),
                fixed_ephemeral,
                opt_bytes(hs.rs),
                opt_bytes(hs.re),
                psks_view(hs.psks@),
                prologue@,
            );
            assert(spec_r is Ok);
            assert(hs.view() =~~= spec_r.unwrap());
        }
        Ok(hs)
    }

    /// An `E` token while writing: hashes (and under a `psk` modifier
    /// also keys) the ephemeral public key, which goes on the wire.
    fn e_token_write(&mut self) -> (r: Result<Vec<u8>, Error>)
        requires
            old(self).wf(),
        ensures
            final(self).wf(),
            match hv_write_step(old(self).view(), Token::E) {
                Ok(pair) => r is Ok && r.unwrap()@ == pair.1 && final(self).view() == pair.0,
                Err(e) => r == Err::<Vec<u8>, Error>(e),
            },
            r is Ok ==> r.unwrap()@.len() == 32,
    {
        let pk = match &self.e {
            Some(kp) => kp.pk_bytes(),
            None => {
                return Err(Error::State(StateProblem::MissingKeyMaterial));
            },
        };
        self.sym.mix_hash(pk.as_slice());
        if self.handshake.modifiers.len() > 0 {
            self.sym.mix_key(pk.as_slice());
        }
        proof {
            assert(final(self).view() =~~= hv_write_step(old(self).view(), Token::E).unwrap().0);
        }
        Ok(pk)
    }

    /// An `S` token while writing: seals (or passes through) the static
    /// public key and mixes its wire form.
    fn s_token_write(&mut self) -> (r: Result<Vec<u8>, Error>)
        requires
            old(self).wf(),
        ensures
            final(self).wf(),
            match hv_write_step(old(self).view(), Token::S) {
                Ok(pair) => r is Ok && r.unwrap()@ == pair.1 && final(self).view() == pair.0,
                Err(e) => r == Err::<Vec<u8>, Error>(e),
            },
            r is Ok ==> r.unwrap()@.len() == 32 + (if old(self).view().sym.key is Some {
                16int
            } else {
                0int
            }),
    {
        let pk = match &self.s {
            Some(kp) => kp.pk_bytes(),
            None => {
                return Err(Error::State(StateProblem::MissingKeyMaterial));
            },
        };
        let ct = match self.sym.encrypt_and_mix_hash(pk.as_slice()) {
            Ok(ct) => ct,
            Err(e) => {
                return Err(e);
            },
        };
        proof {
            assert(hv_write_step(old(self).view(), Token::S) is Ok);
            assert(final(self).view() =~~= hv_write_step(old(self).view(), Token::S).unwrap().0);
        }
        Ok(ct)
    }

    /// A `Psk` token: mixes the selected pre-shared key into `ck` and `h`.
    fn psk_token(&mut self, n: u8) -> (r: Result<(), Error>)
        requires
            old(self).wf(),
        ensures
            final(self).wf(),
            match hv_psk_step(old(self).view(), n) {
                Ok(v) => r is Ok && final(self).view() == v,
                Err(e) => r == Err::<(), Error>(e),
            },
    {
        let n_us = n as usize;
        if n_us >= self.psks.len() {
            return Err(Error::State(StateProblem::MissingPsk));
        }
        let pc = match &self.psks[n_us] {
            Some(psk) => {
                let c = take_bytes(psk.as_slice(), psk.len());
                proof {
                    assert(psk@.take(psk@.len() as int) =~= psk@);
                }
                c
            },
            None => {
                return Err(Error::State(StateProblem::MissingPsk));
            },
        };
        self.sym.mix_key_and_hash(pc.as_slice());
        proof {
            assert(final(self).view() =~~= hv_psk_step(old(self).view(), n).unwrap());
        }
        Ok(())
    }

    /// A Diffie-Hellman pairing token (`Ee`, `Es`, `Se`, `Ss`), resolved
    /// by role.
    fn pair_token(&mut self, tok: Token) -> (r: Result<(), Error>)
        requires
            old(self).wf(),
            tok is Ee || tok is Es || tok is Se || tok is Ss,
        ensures
            final(self).wf(),
            match hv_dh_step(old(self).view(), dh_args(old(self).view(), tok).0, dh_args(old(self).view(), tok).1) {
                Ok(v) => r is Ok && final(self).view() == v,
                Err(e) => r == Err::<(), Error>(e),
            },
    {
        let local_s: bool;
        let remote_s: bool;
        match tok {
            Token::Ee => {
                local_s = false;
                remote_s = false;
            },
            Token::Es => {
                local_s = !self.initiator;
                remote_s = self.initiator;
            },
            Token::Se => {
                local_s = self.initiator;
                remote_s = !self.initiator;
            },
            _ => {
                local_s = true;
                remote_s = true;
            },
        }
        self.dh_token(local_s, remote_s)
    }

    /// Writes the next handshake message carrying `payload`, appending
    /// per token the ephemeral public key or the (possibly sealed) static
    /// key, then the sealed payload; caps the message at 65535 bytes,
    /// passes the turn, and on the last message fills the transport
    /// cipher states. When ephemerals are not fixed, a message with an
    /// `E` token draws a fresh keypair first.
    #[verifier::rlimit(100)]
    pub fn write_handshake_message(&mut self, payload: &[u8]) -> (r: Result<Vec<u8>, Error>)
        requires
            old(self).wf(),
        ensures
            final(self).wf(),
            exists|kp: KpView|
                #[trigger] kp_valid(kp) && (match hv_write_msg(
                    with_fresh_e(old(self).view(), kp),
                    payload@,
                ) {
                    Ok(pair) => r is Ok && r.unwrap()@ == pair.1 && final(self).view() == pair.0,
                    Err(e) => r == Err::<Vec<u8>, Error>(e),
                }),
            old(self).view().fixed_ephemeral ==> (match hv_write_msg(old(self).view(), payload@) {
                Ok(pair) => r is Ok && r.unwrap()@ == pair.1 && final(self).view() == pair.0,
                Err(e) => r == Err::<Vec<u8>, Error>(e),
            }),
            !old(self).view().my_turn ==> r == Err::<Vec<u8>, Error>(
                Error::State(StateProblem::NotTurnToWrite),
            ),
            r is Ok ==> !final(self).view().my_turn && old(self).view().my_turn,
            r is Ok ==> r.unwrap()@.len() == tokens_wire_len(
                old(self).view().sym.key is Some,
                old(self).view().psk_mod,
                old(self).view().patterns[0],
            ) + payload@.len() + (if keyed_after(
                old(self).view().sym.key is Some,
                old(self).view().psk_mod,
                old(self).view().patterns[0],
            ) {
                16int
            } else {
                0int
            }),
    {
        let ghost kp0 = KpView { sk: zeros(32), pk: s_x25519(zeros(32), base_point()) };
        if !self.my_turn {
            proof {
                assert(kp_valid(kp0));
                assert(with_fresh_e(old(self).view(), kp0).my_turn == false);
            }
            return Err(Error::State(StateProblem::NotTurnToWrite));
        }
        if self.message_patterns.len() == 0 {
            proof {
                assert(kp_valid(kp0));
                assert(with_fresh_e(old(self).view(), kp0) == old(self).view());
            }
            return Err(Error::State(StateProblem::HandshakeAlreadyFinished));
        }
        let tokens = self.message_patterns.remove(0);
        let uses_e = tokens_have_e(&tokens);
        if !self.fixed_ephemeral && uses_e {
            self.e = Some(keypair_generate());
        }
        let ghost gkp: KpView = if !old(self).fixed_ephemeral && uses_e {
            self.e.unwrap().view()
        } else {
            kp0
        };
        let ghost pre = with_fresh_e(old(self).view(), gkp);
        let ghost v0 = HsView { patterns: pre.patterns.drop_first(), ..pre };
        proof {
            assert(kp_valid(gkp));
            assert(old(self).view().patterns[0] == tokens@);
            assert(msgs_view(self.message_patterns@) =~= old(self).view().patterns.drop_first());
            assert(self.view() =~~= v0);
            assert(tokens@.skip(0) =~= tokens@);
        }
        let mut out: Vec<u8> = Vec::new();
        let mut i: usize = 0;
        while i < tokens.len()
            invariant
                0 <= i <= tokens@.len(),
                self.wf(),
                kp_valid(gkp),
                pre == with_fresh_e(old(self).view(), gkp),
                v0 == (HsView { patterns: pre.patterns.drop_first(), ..pre }),
                old(self).view().my_turn,
                pre.my_turn,
                pre.patterns.len() > 0,
                pre.patterns[0] == tokens@,
                old(self).view().fixed_ephemeral ==> pre == old(self).view(),
                self.view().psk_mod == pre.psk_mod,
                out@.len() + tokens_wire_len(
                    self.view().sym.key is Some,
                    pre.psk_mod,
                    tokens@.skip(i as int),
                ) == tokens_wire_len(pre.sym.key is Some, pre.psk_mod, tokens@),
                keyed_after(self.view().sym.key is Some, pre.psk_mod, tokens@.skip(i as int))
                    == keyed_after(pre.sym.key is Some, pre.psk_mod, tokens@),
                match hv_write_run(self.view(), tokens@.skip(i as int)) {
                    Ok(p) => hv_write_run(v0, tokens@) == Ok::<(HsView, Seq<u8>), Error>(
                        (p.0, out@ + p.1),
                    ),
                    Err(e) => hv_write_run(v0, tokens@) == Err::<(HsView, Seq<u8>), Error>(e),
                },
            decreases tokens@.len() - i,
        {
            proof {
                assert(tokens@.skip(i as int)[0] == tokens@[i as int]);
                assert(tokens@.skip(i as int).drop_first() =~= tokens@.skip(i + 1));
            }
            let ghost vpre = self.view();
            let ghost out_pre = out@;
            let tok = tokens[i];
            match tok {
                Token::E => {
                    match self.e_token_write() {
                        Ok(b) => {
                            out = concat_bytes(out.as_slice(), b.as_slice());
                        },
                        Err(e) => {
                            return Err(e);
                        },
                    }
                },
                Token::S => {
                    match self.s_token_write() {
                        Ok(b) => {
                            out = concat_bytes(out.as_slice(), b.as_slice());
                        },
                        Err(e) => {
                            return Err(e);
                        },
                    }
                },
                Token::Psk(n) => {
                    match self.psk_token(n) {
                        Ok(_) => {},
                        Err(e) => {
                            return Err(e);
                        },
                    }
                },
                _ => {
                    match self.pair_token(tok) {
                        Ok(_) => {},
                        Err(e) => {
                            return Err(e);
                        },
                    }
                },
            }
            proof {
                assert(hv_write_step(vpre, tok) is Ok);
                assert(self.view() == hv_write_step(vpre, tok).unwrap().0);
                assert(out@ =~= out_pre + hv_write_step(vpre, tok).unwrap().1);
            }
            proof {
                let b = hv_write_step(vpre, tok).unwrap().1;
                if hv_write_run(self.view(), tokens@.skip(i + 1)) is Ok {
                    let p = hv_write_run(self.view(), tokens@.skip(i + 1)).unwrap();
                    assert(hv_write_run(vpre, tokens@.skip(i as int)) == Ok::<
                        (HsView, Seq<u8>),
                        Error,
                    >((p.0, b + p.1)));
                    assert(out_pre + (b + p.1) =~= out@ + p.1);
                }
            }
            i = i + 1;
        }
        proof {
            assert(tokens@.skip(tokens@.len() as int) =~= Seq::<Token>::empty());
            assert(out@ + Seq::<u8>::empty() =~= out@);
            assert(hv_write_run(v0, tokens@) == Ok::<(HsView, Seq<u8>), Error>(
                (self.view(), out@),
            ));
        }
        let taglen: usize = if self.sym.has_key() {
            16
        } else {
            0
        };
        if payload.len() > 65535 {
            return Err(Error::Input);
        }
        if out.len() > 65535 {
            return Err(Error::Input);
        }
        if out.len() + payload.len() + taglen > 65535 {
            return Err(Error::Input);
        }
        let ct = match self.sym.encrypt_and_mix_hash(payload) {
            Ok(ct) => ct,
            Err(e) => {
                return Err(e);
            },
        };
        out = concat_bytes(out.as_slice(), ct.as_slice());
        self.my_turn = false;
        if self.message_patterns.len() == 0 {
            self.sym.split(&mut self.cipherstates.0, &mut self.cipherstates.1);
        }
        proof {
            assert(hv_write_msg(pre, payload@) is Ok);
            assert(self.view() =~~= hv_write_msg(pre, payload@).unwrap().0);
            assert(out@ == hv_write_msg(pre, payload@).unwrap().1);
            if old(self).view().fixed_ephemeral {
                assert(pre == old(self).view());
            }
        }
        Ok(out)
    }

    /// A Diffie-Hellman token: mixes the selected shared secret.
    fn dh_token(&mut self, local_s: bool, remote_s: bool) -> (r: Result<(), Error>)
        requires
            old(self).wf(),
        ensures
            final(self).wf(),
            match hv_dh_step(old(self).view(), local_s, remote_s) {
                Ok(v) => r is Ok && final(self).view() == v,
                Err(e) => r == Err::<(), Error>(e) && *final(self) == *old(self),
            },
    {
        let sk: Vec<u8>;
        match (local_s, &self.s, &self.e) {
            (true, Some(kp), _) => {
                sk = take_bytes(kp.sk.as_slice(), kp.sk.len());
                proof {
                    assert(kp.sk@.take(kp.sk@.len() as int) =~= kp.sk@);
                }
            },
            (false, _, Some(kp)) => {
                sk = take_bytes(kp.sk.as_slice(), kp.sk.len());
                proof {
                    assert(kp.sk@.take(kp.sk@.len() as int) =~= kp.sk@);
                }
            },
            _ => {
                return Err(Error::State(StateProblem::MissingKeyMaterial));
            },
        }
        let rpub: Vec<u8>;
        match (remote_s, &self.rs, &self.re) {
            (true, Some(v), _) => {
                rpub = take_bytes(v.as_slice(), v.len());
                proof {
                    assert(v@.take(v@.len() as int) =~= v@);
                }
            },
            (false, _, Some(v)) => {
                rpub = take_bytes(v.as_slice(), v.len());
                proof {
                    assert(v@.take(v@.len() as int) =~= v@);
                }
            },
            _ => {
                return Err(Error::State(StateProblem::MissingKeyMaterial));
            },
        }
        let secret = dh(self.dh_choice, sk.as_slice(), rpub.as_slice());
        self.sym.mix_key(secret.as_slice());
        proof {
            assert(final(self).view() =~~= hv_dh_step(
                old(self).view(),
                local_s,
                remote_s,
            ).unwrap());
        }
        Ok(())
    }
}

} // verus!
