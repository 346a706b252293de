//! Laws of the handshake core, stated over the models that the executable
//! contracts are written in.

use vstd::prelude::*;
use crate::crypto::{CipherChoice, DhChoice, HashChoice};
use crate::params::HandshakeChoice;
use crate::symmetricstate::{SymView, sv_encrypt_hash, sv_decrypt_hash, sv_split};
use crate::handshakestate::{HsView, hv_write_msg, hv_read_msg, spec_protocol_name};
use crate::error::{Error, StateProblem};

verus! {

/// Both parties compute the protocol name from the pattern choice and
/// the algorithm capabilities alone, so two sides configured alike
/// produce byte-identical names.
pub proof fn lemma_protocol_name_agreement(
    c1: HandshakeChoice,
    c2: HandshakeChoice,
    d: DhChoice,
    ci: CipherChoice,
    h: HashChoice,
)
    requires
        c1.pattern == c2.pattern,
        c1.modifiers@ == c2.modifiers@,
    ensures
        spec_protocol_name(c1, d, ci, h) == spec_protocol_name(c2, d, ci, h),
{
}

/// Writing is deterministic on the model: the wire bytes and the
/// resulting state are a function of the state (including any fixed
/// ephemeral) and the payload alone.
pub proof fn lemma_write_deterministic(v1: HsView, v2: HsView, payload: Seq<u8>)
    requires
        v1 == v2,
    ensures
        hv_write_msg(v1, payload) == hv_write_msg(v2, payload),
{
}

/// The turn alternates strictly: a successful write passes the turn to
/// the peer and a successful read takes it back, while an out-of-turn
/// operation always fails with `State`.
pub proof fn lemma_turn_alternation(v: HsView, payload: Seq<u8>, msg: Seq<u8>)
    ensures
        hv_write_msg(v, payload) is Ok ==> v.my_turn && !hv_write_msg(
            v,
            payload,
        ).unwrap().0.my_turn,
        !v.my_turn ==> hv_write_msg(v, payload) == Err::<(HsView, Seq<u8>), Error>(
            Error::State(StateProblem::NotTurnToWrite),
        ),
        hv_read_msg(v, msg) is Ok ==> !v.my_turn && hv_read_msg(v, msg).unwrap().0.my_turn,
        v.my_turn && msg.len() <= 65535 ==> hv_read_msg(v, msg) == Err::<
            (HsView, Seq<u8>),
            Error,
        >(Error::State(StateProblem::NotTurnToRead)),
{
}

/// Lockstep of the two transcripts: when both parties hold the same
/// symmetric state and one seals (or passes through) a payload, the
/// other's decryption of those exact wire bytes succeeds, and both end
/// in the same symmetric state — so the chaining keys, transcript hashes
/// and split keys of a completed handshake agree bitwise.
pub proof fn lemma_exchange_lockstep(a: SymView, b: SymView, payload: Seq<u8>)
    requires
        a == b,
        sv_encrypt_hash(a, payload) is Ok,
    ensures
        sv_decrypt_hash(b, sv_encrypt_hash(a, payload).unwrap().1) is Ok,
        sv_decrypt_hash(b, sv_encrypt_hash(a, payload).unwrap().1).unwrap().0 == sv_encrypt_hash(
            a,
            payload,
        ).unwrap().0,
        sv_split(sv_decrypt_hash(b, sv_encrypt_hash(a, payload).unwrap().1).unwrap().0)
            == sv_split(sv_encrypt_hash(a, payload).unwrap().0),
{
    let ct = sv_encrypt_hash(a, payload).unwrap().1;
    if a.key is None {
        assert(sv_decrypt_hash(b, ct) is Ok);
    } else {
        assert(a.n != u64::MAX);
        assert(ct == crate::crypto::s_seal(
            a.cipher,
            a.key.unwrap(),
            crate::crypto::spec_nonce(a.cipher, a.n),
            a.h,
            payload,
        ));
        assert(exists|p: Seq<u8>|
            ct == crate::crypto::s_seal(
                b.cipher,
                b.key.unwrap(),
                crate::crypto::spec_nonce(b.cipher, b.n),
                b.h,
                p,
            ));
        assert(sv_decrypt_hash(b, ct) is Ok);
        assert(sv_decrypt_hash(b, ct).unwrap().0 =~= sv_encrypt_hash(a, payload).unwrap().0);
    }
}

} // verus!
