//! AEAD cipher state: a symmetric key (possibly absent) with a 64-bit
//! monotonic nonce.

use vstd::prelude::*;
use crate::crypto::{
    CipherChoice,
    s_seal,
    spec_nonce,
    zeros,
    seal,
    open,
    nonce_bytes,
    take_bytes,
};
use crate::error::Error;

verus! {

/// AEAD with a 64-bit monotonic nonce. Without a key, encryption and
/// decryption pass data through unchanged.
pub struct CipherState {
    cipher: CipherChoice,
    key: Option<Vec<u8>>,
    n: u64,
}

impl CipherState {
    /// The cipher capability this state uses.
    pub closed spec fn alg(self) -> CipherChoice {
        self.cipher
    }

    /// The installed key, if any.
    pub closed spec fn key_view(self) -> Option<Seq<u8>> {
        match self.key {
            Some(k) => Some(k@),
            None => None,
        }
    }

    /// The nonce counter.
    pub closed spec fn nonce(self) -> u64 {
        self.n
    }

    /// An installed key is always 32 bytes.
    pub closed spec fn wf(self) -> bool {
        self.key_view() is Some ==> self.key_view().unwrap().len() == 32
    }

    /// A fresh cipher state with no key and nonce zero.
    pub fn new(cipher: CipherChoice) -> (r: CipherState)
        ensures
            r.alg() == cipher,
            r.key_view() is None,
            r.nonce() == 0,
            r.wf(),
    {
        CipherState { cipher, key: None, n: 0 }
    }

    /// Whether a key is installed.
    pub fn has_key(&self) -> (r: bool)
        ensures
            r == (self.key_view() is Some),
    {
        self.key.is_some()
    }

    /// Installs a 32-byte key and resets the nonce to zero.
    pub fn initialize_key(&mut self, key: &[u8])
        requires
            key@.len() == 32,
        ensures
            final(self).alg() == old(self).alg(),
            final(self).key_view() == Some(key@),
            final(self).nonce() == 0,
            final(self).wf(),
    {
        self.key = Some(take_bytes(key, key.len()));
        self.n = 0;
        proof {
            assert(key@.take(32) =~= key@);
        }
    }

    /// AEAD encryption at the current nonce. With a key it returns the
    /// ciphertext with its tag and advances the nonce; at the nonce limit
    /// it fails with `Input`; without a key it returns the plaintext and
    /// changes nothing.
    pub fn encrypt_with_ad(&mut self, ad: &[u8], plaintext: &[u8]) -> (r: Result<Vec<u8>, Error>)
        requires
            old(self).wf(),
            old(self).key_view() is Some ==> plaintext@.len() + 16 <= 65535,
            old(self).key_view() is Some && old(self).alg() is AesGcm ==> ad@.len()
                <= 0x1000000000,
        ensures
            final(self).wf(),
            final(self).alg() == old(self).alg(),
            final(self).key_view() == old(self).key_view(),
            old(self).key_view() is None ==> r is Ok && r.unwrap()@ == plaintext@ && *final(self)
                == *old(self),
            old(self).key_view() is Some && old(self).nonce() < u64::MAX ==> r is Ok
                && r.unwrap()@ == s_seal(
                old(self).alg(),
                old(self).key_view().unwrap(),
                spec_nonce(old(self).alg(), old(self).nonce()),
                ad@,
                plaintext@,
            ) && r.unwrap()@.len() == plaintext@.len() + 16 && final(self).nonce() == old(
                self,
            ).nonce() + 1,
            old(self).key_view() is Some && old(self).nonce() == u64::MAX ==> r == Err::<
                Vec<u8>,
                Error,
            >(Error::Input) && *final(self) == *old(self),
    {
        match &self.key {
            None => Ok(take_bytes(plaintext, plaintext.len())),
            Some(k) => {
                if self.n == u64::MAX {
                    Err(Error::Input)
                } else {
                    let nonce = nonce_bytes(self.cipher, self.n);
                    let ct = seal(self.cipher, k.as_slice(), nonce.as_slice(), ad, plaintext);
                    self.n = self.n + 1;
                    Ok(ct)
                }
            },
        }
    }

    /// AEAD decryption at the current nonce. With a key it succeeds
    /// exactly when the input is a valid seal at this nonce, returning its
    /// plaintext and advancing the nonce, and fails with `Decrypt`
    /// otherwise (leaving the nonce alone); at the nonce limit it fails
    /// with `Input`; without a key it returns the input and changes
    /// nothing.
    pub fn decrypt_with_ad(&mut self, ad: &[u8], ciphertext: &[u8]) -> (r: Result<Vec<u8>, Error>)
        requires
            old(self).wf(),
            old(self).key_view() is Some && old(self).alg() is AesGcm ==> ad@.len()
                <= 0x1000000000 && ciphertext@.len() <= 0x1000000010,
        ensures
            final(self).wf(),
            final(self).alg() == old(self).alg(),
            final(self).key_view() == old(self).key_view(),
            old(self).key_view() is None ==> r is Ok && r.unwrap()@ == ciphertext@ && *final(self)
                == *old(self),
            old(self).key_view() is Some && old(self).nonce() < u64::MAX ==> {
                &&& (r is Ok ==> ciphertext@ == s_seal(
                    old(self).alg(),
                    old(self).key_view().unwrap(),
                    spec_nonce(old(self).alg(), old(self).nonce()),
                    ad@,
                    r.unwrap()@,
                ) && r.unwrap()@.len() + 16 == ciphertext@.len() && final(self).nonce() == old(
                    self,
                ).nonce() + 1)
                &&& (forall|p: Seq<u8>|
                    ciphertext@ == #[trigger] s_seal(
                        old(self).alg(),
                        old(self).key_view().unwrap(),
                        spec_nonce(old(self).alg(), old(self).nonce()),
                        ad@,
                        p,
                    ) ==> r is Ok && r.unwrap()@ == p)
                &&& (r is Err ==> r == Err::<Vec<u8>, Error>(Error::Decrypt) && *final(self) == *old(
                    self,
                ))
            },
            old(self).key_view() is Some && old(self).nonce() == u64::MAX ==> r == Err::<
                Vec<u8>,
                Error,
            >(Error::Input) && *final(self) == *old(self),
    {
        match &self.key {
            None => Ok(take_bytes(ciphertext, ciphertext.len())),
            Some(k) => {
                if self.n == u64::MAX {
                    Err(Error::Input)
                } else {
                    let nonce = nonce_bytes(self.cipher, self.n);
                    match open(self.cipher, k.as_slice(), nonce.as_slice(), ad, ciphertext) {
                        Some(pt) => {
                            self.n = self.n + 1;
                            Ok(pt)
                        },
                        None => Err(Error::Decrypt),
                    }
                }
            },
        }
    }

    /// Installs the rekeyed key of Noise: the first 32 bytes of the seal
    /// of 32 zero bytes at the maximum nonce with empty associated data.
    /// The nonce counter is left alone.
    pub fn rekey(&mut self)
        requires
            old(self).wf(),
            old(self).key_view() is Some,
        ensures
            final(self).wf(),
            final(self).alg() == old(self).alg(),
            final(self).nonce() == old(self).nonce(),
            final(self).key_view() == Some(
                s_seal(
                    old(self).alg(),
                    old(self).key_view().unwrap(),
                    spec_nonce(old(self).alg(), u64::MAX),
                    Seq::<u8>::empty(),
                    zeros(32),
                ).take(32),
            ),
    {
        let zero_block = crate::crypto::zero_bytes(32);
        let nonce = nonce_bytes(self.cipher, u64::MAX);
        let empty_ad: Vec<u8> = Vec::new();
        let sealed = match &self.key {
            Some(k) => seal(
                self.cipher,
                k.as_slice(),
                nonce.as_slice(),
                empty_ad.as_slice(),
                zero_block.as_slice(),
            ),
            None => Vec::new(),
        };
        proof {
            assert(empty_ad@ =~= Seq::<u8>::empty());
        }
        let new_key = take_bytes(sealed.as_slice(), 32);
        self.key = Some(new_key);
    }
}

/// The pair of transport cipher states a completed handshake yields: the
/// first key is the initiator-to-responder direction.
pub struct CipherStates(pub CipherState, pub CipherState);

} // verus!
