//! Symmetric state: chaining key, transcript hash and an embedded cipher
//! state, with the Noise mixing operations.

use vstd::prelude::*;
use crate::crypto::{
    CipherChoice,
    HashChoice,
    s_hash,
    s_seal,
    s_hkdf1,
    s_hkdf2,
    s_hkdf3,
    spec_nonce,
    zeros,
    hash_bytes,
    hkdf2,
    hkdf3,
    take_bytes,
    concat_bytes,
};
use crate::cipherstate::CipherState;
use crate::error::Error;

verus! {

/// The mathematical value of a symmetric state: its algorithm choices,
/// chaining key, transcript hash, and cipher key with nonce.
#[verifier::ext_equal]
pub ghost struct SymView {
    pub cipher: CipherChoice,
    pub hash: HashChoice,
    pub ck: Seq<u8>,
    pub h: Seq<u8>,
    pub key: Option<Seq<u8>>,
    pub n: u64,
}

/// `initialize`: the protocol name, zero-padded to the hash length or
/// hashed down to it, becomes both `h` and `ck`; no cipher key.
pub open spec fn sv_initialize(cipher: CipherChoice, hash: HashChoice, name: Seq<u8>) -> SymView {
    let h = if name.len() <= 32 {
        name + zeros((32 - name.len()) as nat)
    } else {
        s_hash(hash, name)
    };
    SymView { cipher, hash, ck: h, h, key: None, n: 0 }
}

/// `mix_hash`: `h := HASH(h || data)`.
pub open spec fn sv_mix_hash(sv: SymView, data: Seq<u8>) -> SymView {
    SymView { h: s_hash(sv.hash, sv.h + data), ..sv }
}

/// `mix_key`: two-output HKDF; the first output replaces `ck`, the second
/// becomes the cipher key with the nonce reset.
pub open spec fn sv_mix_key(sv: SymView, ikm: Seq<u8>) -> SymView {
    SymView {
        ck: s_hkdf1(sv.hash, sv.ck, ikm),
        key: Some(s_hkdf2(sv.hash, sv.ck, ikm)),
        n: 0,
        ..sv
    }
}

/// `mix_key_and_hash`: three-output HKDF; `ck`, a mix into `h`, and a new
/// cipher key.
pub open spec fn sv_mix_key_and_hash(sv: SymView, ikm: Seq<u8>) -> SymView {
    SymView {
        ck: s_hkdf1(sv.hash, sv.ck, ikm),
        h: s_hash(sv.hash, sv.h + s_hkdf2(sv.hash, sv.ck, ikm)),
        key: Some(s_hkdf3(sv.hash, sv.ck, ikm)),
        n: 0,
        ..sv
    }
}

/// `encrypt_and_mix_hash`: with a key, seal the plaintext with `h` as
/// associated data and mix the ciphertext into `h`; without one, pass the
/// plaintext through and mix it. At the nonce limit, `Input`.
pub open spec fn sv_encrypt_hash(sv: SymView, pt: Seq<u8>) -> Result<(SymView, Seq<u8>), Error> {
    if sv.key is None {
        Ok((sv_mix_hash(sv, pt), pt))
    } else if sv.n == u64::MAX {
        Err(Error::Input)
    } else {
        let ct = s_seal(sv.cipher, sv.key.unwrap(), spec_nonce(sv.cipher, sv.n), sv.h, pt);
        Ok(
            (
                SymView {
                    h: s_hash(sv.hash, sv.h + ct),
                    n: (sv.n + 1) as u64,
                    ..sv
                },
                ct,
            ),
        )
    }
}

/// `decrypt_and_mix_hash`: with a key, succeed exactly when the input is
/// a valid seal at the current nonce (with `h` as associated data),
/// return its plaintext and mix the ciphertext form into `h`; without a
/// key, pass the input through and mix it.
pub open spec fn sv_decrypt_hash(sv: SymView, data: Seq<u8>) -> Result<(SymView, Seq<u8>), Error> {
    if sv.key is None {
        Ok((sv_mix_hash(sv, data), data))
    } else if sv.n == u64::MAX {
        Err(Error::Input)
    } else if exists|p: Seq<u8>|
        data == s_seal(sv.cipher, sv.key.unwrap(), spec_nonce(sv.cipher, sv.n), sv.h, p) {
        let p = choose|p: Seq<u8>|
            data == s_seal(sv.cipher, sv.key.unwrap(), spec_nonce(sv.cipher, sv.n), sv.h, p);
        Ok(
            (
                SymView {
                    h: s_hash(sv.hash, sv.h + data),
                    n: (sv.n + 1) as u64,
                    ..sv
                },
                p,
            ),
        )
    } else {
        Err(Error::Decrypt)
    }
}

/// `split`: the two transport keys, a two-output HKDF of `ck` with empty
/// input material.
pub open spec fn sv_split(sv: SymView) -> (Seq<u8>, Seq<u8>) {
    (s_hkdf1(sv.hash, sv.ck, Seq::<u8>::empty()), s_hkdf2(sv.hash, sv.ck, Seq::<u8>::empty()))
}

/// Chaining key, transcript hash and cipher state of a Noise session.
pub struct SymmetricState {
    hash: HashChoice,
    ck: Vec<u8>,
    h: Vec<u8>,
    cipherstate: CipherState,
}

impl SymmetricState {
    /// The mathematical value of this state.
    pub closed spec fn view(self) -> SymView {
        SymView {
            cipher: self.cipherstate.alg(),
            hash: self.hash,
            ck: self.ck@,
            h: self.h@,
            key: self.cipherstate.key_view(),
            n: self.cipherstate.nonce(),
        }
    }

    /// `ck` and `h` carry one hash output each; the cipher key, when
    /// present, is 32 bytes.
    pub closed spec fn wf(self) -> bool {
        self.ck@.len() == 32 && self.h@.len() == 32 && self.cipherstate.wf()
    }

    /// A symmetric state initialized from a protocol name.
    pub fn new(cipher: CipherChoice, hash: HashChoice, protocol_name: &[u8]) -> (r: SymmetricState)
        ensures
            r.view() == sv_initialize(cipher, hash, protocol_name@),
            r.wf(),
    {
        let mut h: Vec<u8>;
        if protocol_name.len() <= 32 {
            h = take_bytes(protocol_name, protocol_name.len());
            proof {
                assert(protocol_name@.take(protocol_name@.len() as int) =~= protocol_name@);
            }
            while h.len() < 32
                invariant
                    protocol_name@.len() <= h@.len() <= 32,
                    h@ == protocol_name@ + zeros((h@.len() - protocol_name@.len()) as nat),
                decreases 32 - h@.len(),
            {
                h.push(0);
                proof {
                    assert(h@ =~= protocol_name@ + zeros(
                        (h@.len() - protocol_name@.len()) as nat,
                    ));
                }
            }
            proof {
                assert(protocol_name@ + zeros((32 - protocol_name@.len()) as nat) =~= h@);
            }
        } else {
            h = hash_bytes(hash, protocol_name);
        }
        let ck = take_bytes(h.as_slice(), 32);
        proof {
            assert(h@.take(32) =~= h@);
        }
        let r = SymmetricState { hash, ck, h, cipherstate: CipherState::new(cipher) };
        proof {
            assert(r.view() =~= sv_initialize(cipher, hash, protocol_name@));
        }
        r
    }

    /// Whether the embedded cipher state is keyed.
    pub fn has_key(&self) -> (r: bool)
        ensures
            r == (self.view().key is Some),
    {
        self.cipherstate.has_key()
    }

    /// A copy of the transcript hash.
    pub fn h_bytes(&self) -> (r: Vec<u8>)
        ensures
            r@ == self.view().h,
    {
        let r = take_bytes(self.h.as_slice(), self.h.len());
        proof {
            assert(self.h@.take(self.h@.len() as int) =~= self.h@);
        }
        r
    }

    /// A copy of the chaining key.
    pub fn ck_bytes(&self) -> (r: Vec<u8>)
        ensures
            r@ == self.view().ck,
    {
        let r = take_bytes(self.ck.as_slice(), self.ck.len());
        proof {
            assert(self.ck@.take(self.ck@.len() as int) =~= self.ck@);
        }
        r
    }

    /// `h := HASH(h || data)`.
    pub fn mix_hash(&mut self, data: &[u8])
        requires
            old(self).wf(),
        ensures
            final(self).wf(),
            final(self).view() == sv_mix_hash(old(self).view(), data@),
    {
        let cat = concat_bytes(self.h.as_slice(), data);
        self.h = hash_bytes(self.hash, cat.as_slice());
        proof {
            assert(final(self).view() =~= sv_mix_hash(old(self).view(), data@));
        }
    }

    /// Two-output HKDF of `ck` and the input; installs the new cipher key.
    pub fn mix_key(&mut self, ikm: &[u8])
        requires
            old(self).wf(),
        ensures
            final(self).wf(),
            final(self).view() == sv_mix_key(old(self).view(), ikm@),
    {
        let (ck1, k) = hkdf2(self.hash, self.ck.as_slice(), ikm);
        self.ck = ck1;
        self.cipherstate.initialize_key(k.as_slice());
        proof {
            assert(final(self).view() =~= sv_mix_key(old(self).view(), ikm@));
        }
    }

    /// Three-output HKDF: new `ck`, a mix into `h`, and a new cipher key.
    pub fn mix_key_and_hash(&mut self, ikm: &[u8])
        requires
            old(self).wf(),
        ensures
            final(self).wf(),
            final(self).view() == sv_mix_key_and_hash(old(self).view(), ikm@),
    {
        let (ck1, temp_h, k) = hkdf3(self.hash, self.ck.as_slice(), ikm);
        self.ck = ck1;
        self.mix_hash(temp_h.as_slice());
        self.cipherstate.initialize_key(k.as_slice());
        proof {
            assert(final(self).view() =~= sv_mix_key_and_hash(old(self).view(), ikm@));
        }
    }

    /// Seals (or passes through) the plaintext and mixes the wire form
    /// into `h`. Returns the bytes that go on the wire.
    pub fn encrypt_and_mix_hash(&mut self, plaintext: &[u8]) -> (r: Result<Vec<u8>, Error>)
        requires
            old(self).wf(),
            old(self).view().key is Some ==> plaintext@.len() + 16 <= 65535,
        ensures
            final(self).wf(),
            match sv_encrypt_hash(old(self).view(), plaintext@) {
                Ok(pair) => r is Ok && r.unwrap()@ == pair.1 && final(self).view() == pair.0,
                Err(e) => r == Err::<Vec<u8>, Error>(e) && final(self).view() == old(self).view(),
            },
            r is Ok && old(self).view().key is Some ==> r.unwrap()@.len() == plaintext@.len()
                + 16,
    {
        let h_copy = self.h_bytes();
        let out = match self.cipherstate.encrypt_with_ad(h_copy.as_slice(), plaintext) {
            Ok(out) => out,
            Err(e) => {
                return Err(e);
            },
        };
        self.mix_hash(out.as_slice());
        proof {
            let spec_r = sv_encrypt_hash(old(self).view(), plaintext@);
            assert(spec_r is Ok);
            assert(final(self).view() =~= spec_r.unwrap().0);
        }
        Ok(out)
    }

    /// Decrypts (or passes through) received bytes and mixes their wire
    /// form into `h`. Returns the plaintext.
    pub fn decrypt_and_mix_hash(&mut self, data: &[u8]) -> (r: Result<Vec<u8>, Error>)
        requires
            old(self).wf(),
            old(self).view().key is Some && old(self).view().cipher is AesGcm ==> data@.len()
                <= 0x1000000010,
        ensures
            final(self).wf(),
            match sv_decrypt_hash(old(self).view(), data@) {
                Ok(pair) => r is Ok && r.unwrap()@ == pair.1 && final(self).view() == pair.0,
                Err(e) => r == Err::<Vec<u8>, Error>(e) && final(self).view() == old(self).view(),
            },
            r is Ok && old(self).view().key is Some ==> r.unwrap()@.len() + 16 == data@.len(),
            forall|q: Seq<u8>|
                (old(self).view().key is Some && old(self).view().n < u64::MAX && data@
                    == #[trigger] s_seal(
                    old(self).view().cipher,
                    old(self).view().key.unwrap(),
                    spec_nonce(old(self).view().cipher, old(self).view().n),
                    old(self).view().h,
                    q,
                )) ==> r is Ok && r.unwrap()@ == q,
    {
        let h_copy = self.h_bytes();
        let out = match self.cipherstate.decrypt_with_ad(h_copy.as_slice(), data) {
            Ok(out) => out,
            Err(e) => {
                return Err(e);
            },
        };
        self.mix_hash(data);
        proof {
            let spec_r = sv_decrypt_hash(old(self).view(), data@);
            assert(spec_r is Ok);
            assert(final(self).view() =~= spec_r.unwrap().0);
        }
        Ok(out)
    }

    /// Fills the two transport cipher states from the final chaining key,
    /// both with nonce zero.
    pub fn split(&self, c1: &mut CipherState, c2: &mut CipherState)
        requires
            self.wf(),
        ensures
            final(c1).alg() == old(c1).alg(),
            final(c2).alg() == old(c2).alg(),
            final(c1).key_view() == Some(sv_split(self.view()).0),
            final(c2).key_view() == Some(sv_split(self.view()).1),
            final(c1).nonce() == 0,
            final(c2).nonce() == 0,
            final(c1).wf(),
            final(c2).wf(),
    {
        let empty: Vec<u8> = Vec::new();
        let (k1, k2) = hkdf2(self.hash, self.ck.as_slice(), empty.as_slice());
        proof {
            assert(empty@ =~= Seq::<u8>::empty());
        }
        c1.initialize_key(k1.as_slice());
        c2.initialize_key(k2.as_slice());
    }
}

} // verus!
