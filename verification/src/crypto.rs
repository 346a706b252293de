//! Algorithm capabilities: Diffie-Hellman, hash, AEAD cipher and random
//! bytes, selected by tagged dispatch. The concrete primitives live in
//! outside crates behind trusted wrappers; HMAC and the Noise HKDF are
//! written and verified here on top of the hash capability.

use vstd::prelude::*;
use sha2::Digest;

verus! {

/// Authentication tag length of both AEAD ciphers.
pub const TAGLEN: usize = 16;

/// Maximum total length of a Noise message.
pub const MAXMSGLEN: usize = 65535;

/// Diffie-Hellman function choice.
#[derive(Clone, Copy, Debug, PartialEq, Eq, Structural)]
pub enum DhChoice {
    Curve25519,
}

/// AEAD cipher choice.
#[derive(Clone, Copy, Debug, PartialEq, Eq, Structural)]
pub enum CipherChoice {
    ChaChaPoly,
    AesGcm,
}

/// Hash function choice.
#[derive(Clone, Copy, Debug, PartialEq, Eq, Structural)]
pub enum HashChoice {
    Sha256,
    Blake2s,
}

/// The SHA-256 digest of a byte sequence.
pub uninterp spec fn s_sha256(data: Seq<u8>) -> Seq<u8>;

/// The BLAKE2s-256 digest of a byte sequence.
pub uninterp spec fn s_blake2s(data: Seq<u8>) -> Seq<u8>;

/// The X25519 function applied to a (clamped) scalar and a point.
pub uninterp spec fn s_x25519(sk: Seq<u8>, point: Seq<u8>) -> Seq<u8>;

/// ChaCha20-Poly1305 sealing: ciphertext followed by the 16-byte tag.
pub uninterp spec fn s_chachapoly(key: Seq<u8>, nonce: Seq<u8>, ad: Seq<u8>, pt: Seq<u8>) -> Seq<u8>;

/// AES-256-GCM sealing: ciphertext followed by the 16-byte tag.
pub uninterp spec fn s_aesgcm(key: Seq<u8>, nonce: Seq<u8>, ad: Seq<u8>, pt: Seq<u8>) -> Seq<u8>;

/// Digest under the chosen hash.
pub open spec fn s_hash(alg: HashChoice, data: Seq<u8>) -> Seq<u8> {
    match alg {
        HashChoice::Sha256 => s_sha256(data),
        HashChoice::Blake2s => s_blake2s(data),
    }
}

/// AEAD sealing under the chosen cipher.
pub open spec fn s_seal(c: CipherChoice, key: Seq<u8>, nonce: Seq<u8>, ad: Seq<u8>, pt: Seq<u8>) -> Seq<u8> {
    match c {
        CipherChoice::ChaChaPoly => s_chachapoly(key, nonce, ad, pt),
        CipherChoice::AesGcm => s_aesgcm(key, nonce, ad, pt),
    }
}

/// A sequence of `n` zero bytes.
pub open spec fn zeros(n: nat) -> Seq<u8> {
    Seq::new(n, |i: int| 0u8)
}

/// The 96-bit AEAD nonce a cipher derives from the 64-bit counter:
/// four zero bytes, then the counter, little-endian for ChaChaPoly and
/// big-endian for AES-GCM.
pub open spec fn spec_nonce(c: CipherChoice, n: u64) -> Seq<u8> {
    match c {
        CipherChoice::ChaChaPoly => seq![
            0u8,
            0u8,
            0u8,
            0u8,
            (n & 0xff) as u8,
            ((n >> 8) & 0xff) as u8,
            ((n >> 16) & 0xff) as u8,
            ((n >> 24) & 0xff) as u8,
            ((n >> 32) & 0xff) as u8,
            ((n >> 40) & 0xff) as u8,
            ((n >> 48) & 0xff) as u8,
            ((n >> 56) & 0xff) as u8,
        ],
        CipherChoice::AesGcm => seq![
            0u8,
            0u8,
            0u8,
            0u8,
            ((n >> 56) & 0xff) as u8,
            ((n >> 48) & 0xff) as u8,
            ((n >> 40) & 0xff) as u8,
            ((n >> 32) & 0xff) as u8,
            ((n >> 24) & 0xff) as u8,
            ((n >> 16) & 0xff) as u8,
            ((n >> 8) & 0xff) as u8,
            (n & 0xff) as u8,
        ],
    }
}

/// ASCII name of the DH function.
pub open spec fn spec_dh_name(d: DhChoice) -> Seq<u8> {
    seq![50u8, 53u8, 53u8, 49u8, 57u8]
}

/// ASCII name of the cipher.
pub open spec fn spec_cipher_name(c: CipherChoice) -> Seq<u8> {
    match c {
        CipherChoice::ChaChaPoly => seq![
            67u8,
            104u8,
            97u8,
            67u8,
            104u8,
            97u8,
            80u8,
            111u8,
            108u8,
            121u8,
        ],
        CipherChoice::AesGcm => seq![65u8, 69u8, 83u8, 71u8, 67u8, 77u8],
    }
}

/// ASCII name of the hash.
pub open spec fn spec_hash_name(h: HashChoice) -> Seq<u8> {
    match h {
        HashChoice::Sha256 => seq![83u8, 72u8, 65u8, 50u8, 53u8, 54u8],
        HashChoice::Blake2s => seq![66u8, 76u8, 65u8, 75u8, 69u8, 50u8, 115u8],
    }
}

/// Relies on sha2::Sha256: the digest of the full input, 32 bytes.
#[verifier::external_body]
fn hash_sha256(data: &[u8]) -> (r: Vec<u8>)
    ensures
        r@ == s_sha256(data@),
        r@.len() == 32,
{
    sha2::Sha256::digest(data).to_vec()
}

/// Relies on blake2::Blake2s256: the digest of the full input, 32 bytes.
#[verifier::external_body]
fn hash_blake2s(data: &[u8]) -> (r: Vec<u8>)
    ensures
        r@ == s_blake2s(data@),
        r@.len() == 32,
{
    blake2::Blake2s256::digest(data).to_vec()
}

/// Relies on x25519_dalek::x25519: scalar multiplication on Curve25519
/// (the scalar is clamped inside), a function of the two arguments alone.
#[verifier::external_body]
fn x25519_raw(sk: &[u8], point: &[u8]) -> (r: Vec<u8>)
    requires
        sk@.len() == 32,
        point@.len() == 32,
    ensures
        r@ == s_x25519(sk@, point@),
        r@.len() == 32,
{
    let mut k = [0u8; 32];
    k.copy_from_slice(sk);
    let mut u = [0u8; 32];
    u.copy_from_slice(point);
    x25519_dalek::x25519(k, u).to_vec()
}

/// Relies on chacha20poly1305::ChaCha20Poly1305: deterministic AEAD
/// sealing; output is the ciphertext with the 16-byte tag appended.
#[verifier::external_body]
fn seal_chachapoly(key: &[u8], nonce: &[u8], ad: &[u8], pt: &[u8]) -> (r: Vec<u8>)
    requires
        key@.len() == 32,
        nonce@.len() == 12,
        pt@.len() <= 65535,
    ensures
        r@ == s_chachapoly(key@, nonce@, ad@, pt@),
        r@.len() == pt@.len() + 16,
{
    let c = <chacha20poly1305::ChaCha20Poly1305 as chacha20poly1305::KeyInit>::new(
        chacha20poly1305::Key::from_slice(key),
    );
    let payload = chacha20poly1305::aead::Payload { msg: pt, aad: ad };
    chacha20poly1305::aead::Aead::encrypt(&c, chacha20poly1305::Nonce::from_slice(nonce), payload)
        .unwrap()
}

/// Relies on chacha20poly1305::ChaCha20Poly1305: AEAD opening. It returns
/// the plaintext exactly when the input is a valid seal under the same
/// key, nonce and associated data, and fails otherwise.
#[verifier::external_body]
fn open_chachapoly(key: &[u8], nonce: &[u8], ad: &[u8], ct: &[u8]) -> (r: Option<Vec<u8>>)
    requires
        key@.len() == 32,
        nonce@.len() == 12,
    ensures
        r is Some ==> ct@ == s_chachapoly(key@, nonce@, ad@, r.unwrap()@) && r.unwrap()@.len() + 16
            == ct@.len(),
        forall|p: Seq<u8>|
            ct@ == #[trigger] s_chachapoly(key@, nonce@, ad@, p) ==> r is Some && r.unwrap()@ == p,
{
    let c = <chacha20poly1305::ChaCha20Poly1305 as chacha20poly1305::KeyInit>::new(
        chacha20poly1305::Key::from_slice(key),
    );
    let payload = chacha20poly1305::aead::Payload { msg: ct, aad: ad };
    chacha20poly1305::aead::Aead::decrypt(&c, chacha20poly1305::Nonce::from_slice(nonce), payload)
        .ok()
}

/// Relies on aes_gcm::Aes256Gcm: deterministic AEAD sealing; output is the
/// ciphertext with the 16-byte tag appended. The implementation refuses
/// associated data over 2^36 bytes, so that input is excluded here.
#[verifier::external_body]
fn seal_aesgcm(key: &[u8], nonce: &[u8], ad: &[u8], pt: &[u8]) -> (r: Vec<u8>)
    requires
        key@.len() == 32,
        nonce@.len() == 12,
        pt@.len() <= 65535,
        ad@.len() <= 0x1000000000,
    ensures
        r@ == s_aesgcm(key@, nonce@, ad@, pt@),
        r@.len() == pt@.len() + 16,
{
    let c = <aes_gcm::Aes256Gcm as aes_gcm::KeyInit>::new(aes_gcm::Key::<
        aes_gcm::Aes256Gcm,
    >::from_slice(key));
    let payload = aes_gcm::aead::Payload { msg: pt, aad: ad };
    aes_gcm::aead::Aead::encrypt(&c, aes_gcm::Nonce::from_slice(nonce), payload).unwrap()
}

/// Relies on aes_gcm::Aes256Gcm: AEAD opening. It returns the plaintext
/// exactly when the input is a valid seal under the same key, nonce and
/// associated data, and fails otherwise. The implementation refuses
/// associated data over 2^36 bytes and ciphertext over 2^36 + 16, so
/// those inputs are excluded here.
#[verifier::external_body]
fn open_aesgcm(key: &[u8], nonce: &[u8], ad: &[u8], ct: &[u8]) -> (r: Option<Vec<u8>>)
    requires
        key@.len() == 32,
        nonce@.len() == 12,
        ad@.len() <= 0x1000000000,
        ct@.len() <= 0x1000000010,
    ensures
        r is Some ==> ct@ == s_aesgcm(key@, nonce@, ad@, r.unwrap()@) && r.unwrap()@.len() + 16
            == ct@.len(),
        forall|p: Seq<u8>|
            ct@ == #[trigger] s_aesgcm(key@, nonce@, ad@, p) ==> r is Some && r.unwrap()@ == p,
{
    let c = <aes_gcm::Aes256Gcm as aes_gcm::KeyInit>::new(aes_gcm::Key::<
        aes_gcm::Aes256Gcm,
    >::from_slice(key));
    let payload = aes_gcm::aead::Payload { msg: ct, aad: ad };
    aes_gcm::aead::Aead::decrypt(&c, aes_gcm::Nonce::from_slice(nonce), payload).ok()
}

/// Relies on rand::rngs::ThreadRng (a cryptographically secure generator):
/// fills the result with random bytes; only the length holds of every
/// outcome.
#[verifier::external_body]
pub(crate) fn random_vec(len: usize) -> (r: Vec<u8>)
    ensures
        r@.len() == len,
{
    let mut v = vec![0u8; len];
    rand::RngCore::fill_bytes(&mut rand::thread_rng(), &mut v[..]);
    v
}

/// Digest of `data` under the chosen hash capability.
pub fn hash_bytes(alg: HashChoice, data: &[u8]) -> (r: Vec<u8>)
    ensures
        r@ == s_hash(alg, data@),
        r@.len() == 32,
{
    match alg {
        HashChoice::Sha256 => hash_sha256(data),
        HashChoice::Blake2s => hash_blake2s(data),
    }
}

/// AEAD sealing under the chosen cipher capability.
pub fn seal(c: CipherChoice, key: &[u8], nonce: &[u8], ad: &[u8], pt: &[u8]) -> (r: Vec<u8>)
    requires
        key@.len() == 32,
        nonce@.len() == 12,
        pt@.len() <= 65535,
        c is AesGcm ==> ad@.len() <= 0x1000000000,
    ensures
        r@ == s_seal(c, key@, nonce@, ad@, pt@),
        r@.len() == pt@.len() + 16,
{
    match c {
        CipherChoice::ChaChaPoly => seal_chachapoly(key, nonce, ad, pt),
        CipherChoice::AesGcm => seal_aesgcm(key, nonce, ad, pt),
    }
}

/// AEAD opening under the chosen cipher capability: succeeds exactly on a
/// valid seal, and then returns its plaintext.
pub fn open(c: CipherChoice, key: &[u8], nonce: &[u8], ad: &[u8], ct: &[u8]) -> (r: Option<
    Vec<u8>,
>)
    requires
        key@.len() == 32,
        nonce@.len() == 12,
        c is AesGcm ==> ad@.len() <= 0x1000000000 && ct@.len() <= 0x1000000010,
    ensures
        r is Some ==> ct@ == s_seal(c, key@, nonce@, ad@, r.unwrap()@) && r.unwrap()@.len() + 16
            == ct@.len(),
        forall|p: Seq<u8>|
            ct@ == #[trigger] s_seal(c, key@, nonce@, ad@, p) ==> r is Some && r.unwrap()@ == p,
{
    match c {
        CipherChoice::ChaChaPoly => open_chachapoly(key, nonce, ad, ct),
        CipherChoice::AesGcm => open_aesgcm(key, nonce, ad, ct),
    }
}

/// A vector of `n` zero bytes.
pub fn zero_bytes(n: usize) -> (r: Vec<u8>)
    ensures
        r@ == zeros(n as nat),
{
    let mut v: Vec<u8> = Vec::new();
    let mut i: usize = 0;
    while i < n
        invariant
            0 <= i <= n,
            v@.len() == i,
            forall|j: int| 0 <= j < i ==> v@[j] == 0u8,
        decreases n - i,
    {
        v.push(0);
        i = i + 1;
    }
    proof {
        assert(v@ =~= zeros(n as nat));
    }
    v
}

/// The first `n` bytes of a slice, as a fresh vector.
pub fn take_bytes(v: &[u8], n: usize) -> (r: Vec<u8>)
    requires
        n <= v@.len(),
    ensures
        r@ == v@.take(n as int),
{
    let mut out: Vec<u8> = Vec::new();
    let mut i: usize = 0;
    while i < n
        invariant
            0 <= i <= n,
            n <= v@.len(),
            out@ == v@.take(i as int),
        decreases n - i,
    {
        out.push(v[i]);
        proof {
            assert(out@ =~= v@.take(i + 1));
        }
        i = i + 1;
    }
    out
}

/// `a` with `b` appended.
pub fn concat_bytes(a: &[u8], b: &[u8]) -> (r: Vec<u8>)
    ensures
        r@ == a@ + b@,
{
    let mut out = take_bytes(a, a.len());
    let mut i: usize = 0;
    proof {
        assert(a@.take(a@.len() as int) =~= a@);
    }
    while i < b.len()
        invariant
            0 <= i <= b@.len(),
            out@ == a@ + b@.take(i as int),
        decreases b@.len() - i,
    {
        out.push(b[i]);
        proof {
            assert(out@ =~= a@ + b@.take(i + 1));
        }
        i = i + 1;
    }
    proof {
        assert(b@.take(b@.len() as int) =~= b@);
    }
    out
}

/// The nonce bytes a cipher feeds its AEAD for counter `n`.
pub fn nonce_bytes(c: CipherChoice, n: u64) -> (r: Vec<u8>)
    ensures
        r@ == spec_nonce(c, n),
        r@.len() == 12,
{
    let mut v: Vec<u8> = Vec::new();
    v.push(0);
    v.push(0);
    v.push(0);
    v.push(0);
    match c {
        CipherChoice::ChaChaPoly => {
            v.push((n & 0xff) as u8);
            v.push(((n >> 8) & 0xff) as u8);
            v.push(((n >> 16) & 0xff) as u8);
            v.push(((n >> 24) & 0xff) as u8);
            v.push(((n >> 32) & 0xff) as u8);
            v.push(((n >> 40) & 0xff) as u8);
            v.push(((n >> 48) & 0xff) as u8);
            v.push(((n >> 56) & 0xff) as u8);
        },
        CipherChoice::AesGcm => {
            v.push(((n >> 56) & 0xff) as u8);
            v.push(((n >> 48) & 0xff) as u8);
            v.push(((n >> 40) & 0xff) as u8);
            v.push(((n >> 32) & 0xff) as u8);
            v.push(((n >> 24) & 0xff) as u8);
            v.push(((n >> 16) & 0xff) as u8);
            v.push(((n >> 8) & 0xff) as u8);
            v.push((n & 0xff) as u8);
        },
    }
    proof {
        assert(v@ =~= spec_nonce(c, n));
    }
    v
}

/// The byte `key` padded with zeros to the 64-byte hash block and XORed
/// with `pad` in every position.
pub open spec fn xor_pad(key: Seq<u8>, pad: u8) -> Seq<u8> {
    Seq::new(64, |i: int| if i < key.len() { key[i] ^ pad } else { pad })
}

/// HMAC under the chosen hash, for keys of at most one block.
pub open spec fn s_hmac(alg: HashChoice, key: Seq<u8>, data: Seq<u8>) -> Seq<u8> {
    s_hash(alg, xor_pad(key, 0x5c) + s_hash(alg, xor_pad(key, 0x36) + data))
}

fn xor_pad_bytes(key: &[u8], pad: u8) -> (r: Vec<u8>)
    requires
        key@.len() <= 64,
    ensures
        r@ == xor_pad(key@, pad),
{
    let mut v: Vec<u8> = Vec::new();
    let mut i: usize = 0;
    while i < 64
        invariant
            0 <= i <= 64,
            key@.len() <= 64,
            v@.len() == i,
            forall|j: int| 0 <= j < i ==> v@[j] == xor_pad(key@, pad)[j],
        decreases 64 - i,
    {
        if i < key.len() {
            v.push(key[i] ^ pad);
        } else {
            v.push(pad);
        }
        i = i + 1;
    }
    proof {
        assert(v@ =~= xor_pad(key@, pad));
    }
    v
}

/// HMAC, built from the hash capability by the standard two-pass
/// construction (ipad 0x36, opad 0x5c).
pub fn hmac(alg: HashChoice, key: &[u8], data: &[u8]) -> (r: Vec<u8>)
    requires
        key@.len() <= 64,
    ensures
        r@ == s_hmac(alg, key@, data@),
        r@.len() == 32,
{
    let ipad = xor_pad_bytes(key, 0x36);
    let inner_input = concat_bytes(ipad.as_slice(), data);
    let inner = hash_bytes(alg, inner_input.as_slice());
    let opad = xor_pad_bytes(key, 0x5c);
    let outer_input = concat_bytes(opad.as_slice(), inner.as_slice());
    hash_bytes(alg, outer_input.as_slice())
}

/// The temporary HKDF key: HMAC of the input keyed by the chaining key.
pub open spec fn s_hkdf_tmp(alg: HashChoice, ck: Seq<u8>, ikm: Seq<u8>) -> Seq<u8> {
    s_hmac(alg, ck, ikm)
}

/// First HKDF output.
pub open spec fn s_hkdf1(alg: HashChoice, ck: Seq<u8>, ikm: Seq<u8>) -> Seq<u8> {
    s_hmac(alg, s_hkdf_tmp(alg, ck, ikm), seq![1u8])
}

/// Second HKDF output.
pub open spec fn s_hkdf2(alg: HashChoice, ck: Seq<u8>, ikm: Seq<u8>) -> Seq<u8> {
    s_hmac(alg, s_hkdf_tmp(alg, ck, ikm), s_hkdf1(alg, ck, ikm) + seq![2u8])
}

/// Third HKDF output.
pub open spec fn s_hkdf3(alg: HashChoice, ck: Seq<u8>, ikm: Seq<u8>) -> Seq<u8> {
    s_hmac(alg, s_hkdf_tmp(alg, ck, ikm), s_hkdf2(alg, ck, ikm) + seq![3u8])
}

fn push_one(v: &[u8], b: u8) -> (r: Vec<u8>)
    ensures
        r@ == v@ + seq![b],
{
    let mut out = take_bytes(v, v.len());
    out.push(b);
    proof {
        assert(v@.take(v@.len() as int) =~= v@);
        assert(out@ =~= v@ + seq![b]);
    }
    out
}

/// The two-output HKDF of Noise, keyed by the chaining key.
pub fn hkdf2(alg: HashChoice, ck: &[u8], ikm: &[u8]) -> (r: (Vec<u8>, Vec<u8>))
    requires
        ck@.len() == 32,
    ensures
        r.0@ == s_hkdf1(alg, ck@, ikm@),
        r.1@ == s_hkdf2(alg, ck@, ikm@),
        r.0@.len() == 32,
        r.1@.len() == 32,
{
    let tmp = hmac(alg, ck, ikm);
    let mut in1: Vec<u8> = Vec::new();
    in1.push(1);
    proof {
        assert(in1@ =~= seq![1u8]);
    }
    let out1 = hmac(alg, tmp.as_slice(), in1.as_slice());
    let in2 = push_one(out1.as_slice(), 2);
    let out2 = hmac(alg, tmp.as_slice(), in2.as_slice());
    (out1, out2)
}

/// The three-output HKDF of Noise, keyed by the chaining key.
pub fn hkdf3(alg: HashChoice, ck: &[u8], ikm: &[u8]) -> (r: (Vec<u8>, Vec<u8>, Vec<u8>))
    requires
        ck@.len() == 32,
    ensures
        r.0@ == s_hkdf1(alg, ck@, ikm@),
        r.1@ == s_hkdf2(alg, ck@, ikm@),
        r.2@ == s_hkdf3(alg, ck@, ikm@),
        r.0@.len() == 32,
        r.1@.len() == 32,
        r.2@.len() == 32,
{
    let tmp = hmac(alg, ck, ikm);
    let mut in1: Vec<u8> = Vec::new();
    in1.push(1);
    proof {
        assert(in1@ =~= seq![1u8]);
    }
    let out1 = hmac(alg, tmp.as_slice(), in1.as_slice());
    let in2 = push_one(out1.as_slice(), 2);
    let out2 = hmac(alg, tmp.as_slice(), in2.as_slice());
    let in3 = push_one(out2.as_slice(), 3);
    let out3 = hmac(alg, tmp.as_slice(), in3.as_slice());
    (out1, out2, out3)
}

/// ASCII name of the DH function, e.g. `25519`.
pub fn dh_name_bytes(d: DhChoice) -> (r: Vec<u8>)
    ensures
        r@ == spec_dh_name(d),
{
    let mut v: Vec<u8> = Vec::new();
    v.push(50);
    v.push(53);
    v.push(53);
    v.push(49);
    v.push(57);
    proof {
        assert(v@ =~= spec_dh_name(d));
    }
    v
}

/// ASCII name of the cipher, e.g. `ChaChaPoly`.
pub fn cipher_name_bytes(c: CipherChoice) -> (r: Vec<u8>)
    ensures
        r@ == spec_cipher_name(c),
{
    let mut v: Vec<u8> = Vec::new();
    match c {
        CipherChoice::ChaChaPoly => {
            v.push(67);
            v.push(104);
            v.push(97);
            v.push(67);
            v.push(104);
            v.push(97);
            v.push(80);
            v.push(111);
            v.push(108);
            v.push(121);
        },
        CipherChoice::AesGcm => {
            v.push(65);
            v.push(69);
            v.push(83);
            v.push(71);
            v.push(67);
            v.push(77);
        },
    }
    proof {
        assert(v@ =~= spec_cipher_name(c));
    }
    v
}

/// ASCII name of the hash, e.g. `BLAKE2s`.
pub fn hash_name_bytes(h: HashChoice) -> (r: Vec<u8>)
    ensures
        r@ == spec_hash_name(h),
{
    let mut v: Vec<u8> = Vec::new();
    match h {
        HashChoice::Sha256 => {
            v.push(83);
            v.push(72);
            v.push(65);
            v.push(50);
            v.push(53);
            v.push(54);
        },
        HashChoice::Blake2s => {
            v.push(66);
            v.push(76);
            v.push(65);
            v.push(75);
            v.push(69);
            v.push(50);
            v.push(115);
        },
    }
    proof {
        assert(v@ =~= spec_hash_name(h));
    }
    v
}

/// The X25519 base point: nine followed by 31 zero bytes.
pub open spec fn base_point() -> Seq<u8> {
    seq![9u8] + zeros(31)
}

fn base_point_bytes() -> (r: Vec<u8>)
    ensures
        r@ == base_point(),
{
    let mut v: Vec<u8> = Vec::new();
    v.push(9);
    let mut i: usize = 0;
    while i < 31
        invariant
            0 <= i <= 31,
            v@.len() == i + 1,
            v@[0] == 9u8,
            forall|j: int| 1 <= j < i + 1 ==> v@[j] == 0u8,
        decreases 31 - i,
    {
        v.push(0);
        i = i + 1;
    }
    proof {
        assert(v@ =~= base_point());
    }
    v
}

/// The shared secret of a local private key and a remote public key.
pub fn dh(d: DhChoice, sk: &[u8], remote_pub: &[u8]) -> (r: Vec<u8>)
    requires
        sk@.len() == 32,
        remote_pub@.len() == 32,
    ensures
        r@ == s_x25519(sk@, remote_pub@),
        r@.len() == 32,
{
    x25519_raw(sk, remote_pub)
}

/// The public key derived from a private key.
pub fn dh_pubkey(d: DhChoice, sk: &[u8]) -> (r: Vec<u8>)
    requires
        sk@.len() == 32,
    ensures
        r@ == s_x25519(sk@, base_point()),
        r@.len() == 32,
{
    let base = base_point_bytes();
    x25519_raw(sk, base.as_slice())
}

} // verus!
