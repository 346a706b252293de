//! Known-answer and primitive-level tests for the algorithm capabilities.

use noise_handshake::crypto::{
    dh, dh_pubkey, hash_bytes, hmac, nonce_bytes, CipherChoice, DhChoice, HashChoice,
};
use noise_handshake::cipherstate::CipherState;
use noise_handshake::error::Error;

#[test]
fn sha256_known_answers() {
    let empty = hash_bytes(HashChoice::Sha256, &[]);
    assert_eq!(
        empty,
        hex::decode("e3b0c44298fc1c149afbf4c8996fb92427ae41e4649b934ca495991b7852b855").unwrap()
    );
    let abc = hash_bytes(HashChoice::Sha256, b"abc");
    assert_eq!(
        abc,
        hex::decode("ba7816bf8f01cfea414140de5dae2223b00361a396177a9cb410ff61f20015ad").unwrap()
    );
}

#[test]
fn blake2s_known_answer() {
    let empty = hash_bytes(HashChoice::Blake2s, &[]);
    assert_eq!(
        empty,
        hex::decode("69217a3079908094e11121d042354a7c1f55b6482ca1a51e1b250dfd1ed0eef9").unwrap()
    );
}

#[test]
fn hmac_sha256_known_answer() {
    // RFC 4231 test case 1
    let key = [0x0bu8; 20];
    let out = hmac(HashChoice::Sha256, &key, b"Hi There");
    assert_eq!(
        out,
        hex::decode("b0344c61d8db38535ca8afceaf0bf12b881dc200c9833da726e9376c2e32cff7").unwrap()
    );
}

#[test]
fn x25519_rfc7748_vectors() {
    let a_priv =
        hex::decode("77076d0a7318a57d3c16c17251b26645df4c2f87ebc0992ab177fba51db92c2a").unwrap();
    let b_priv =
        hex::decode("5dab087e624a8a4b79e17f8b83800ee66f3bb1292618b6fd1c2f8b27ff88e0eb").unwrap();
    let a_pub = dh_pubkey(DhChoice::Curve25519, &a_priv);
    let b_pub = dh_pubkey(DhChoice::Curve25519, &b_priv);
    assert_eq!(
        a_pub,
        hex::decode("8520f0098930a754748b7ddcb43ef75a0dbf3a0d26381af4eba4a98eaa9b4e6a").unwrap()
    );
    assert_eq!(
        b_pub,
        hex::decode("de9edb7d7b7dc1b4d35b61c2ece435373f8343c85b78674dadfc7e146f882b4f").unwrap()
    );
    let shared_a = dh(DhChoice::Curve25519, &a_priv, &b_pub);
    let shared_b = dh(DhChoice::Curve25519, &b_priv, &a_pub);
    assert_eq!(shared_a, shared_b);
    assert_eq!(
        shared_a,
        hex::decode("4a5d9d5ba4ce2de1728e3bf480350f25e07e21c947d19e3376f09b3c1e161742").unwrap()
    );
}

#[test]
fn nonce_layout_per_cipher() {
    let chacha = nonce_bytes(CipherChoice::ChaChaPoly, 1);
    assert_eq!(chacha, vec![0, 0, 0, 0, 1, 0, 0, 0, 0, 0, 0, 0]);
    let gcm = nonce_bytes(CipherChoice::AesGcm, 1);
    assert_eq!(gcm, vec![0, 0, 0, 0, 0, 0, 0, 0, 0, 0, 0, 1]);
    let chacha_big = nonce_bytes(CipherChoice::ChaChaPoly, 0x0102030405060708);
    assert_eq!(chacha_big, vec![0, 0, 0, 0, 8, 7, 6, 5, 4, 3, 2, 1]);
}

fn transport_round_trip(cipher: CipherChoice) {
    let key = [0x42u8; 32];
    let mut tx = CipherState::new(cipher);
    tx.initialize_key(&key);
    let mut rx = CipherState::new(cipher);
    rx.initialize_key(&key);

    let ct = tx.encrypt_with_ad(b"ad", b"hello noise").unwrap();
    assert_eq!(ct.len(), b"hello noise".len() + 16);
    assert_ne!(&ct[..11], b"hello noise".as_slice());
    let pt = rx.decrypt_with_ad(b"ad", &ct).unwrap();
    assert_eq!(pt, b"hello noise".to_vec());

    // nonces advanced in lockstep: a second message still decrypts
    let ct2 = tx.encrypt_with_ad(&[], &[]).unwrap();
    assert_eq!(ct2.len(), 16);
    let pt2 = rx.decrypt_with_ad(&[], &ct2).unwrap();
    assert_eq!(pt2, Vec::<u8>::new());
}

#[test]
fn transport_round_trip_chachapoly() {
    transport_round_trip(CipherChoice::ChaChaPoly);
}

#[test]
fn transport_round_trip_aesgcm() {
    transport_round_trip(CipherChoice::AesGcm);
}

#[test]
fn transport_tamper_fails() {
    let key = [0x42u8; 32];
    let mut tx = CipherState::new(CipherChoice::ChaChaPoly);
    tx.initialize_key(&key);
    let mut rx = CipherState::new(CipherChoice::ChaChaPoly);
    rx.initialize_key(&key);
    let mut ct = tx.encrypt_with_ad(&[], b"payload").unwrap();
    ct[0] ^= 0x01;
    assert!(matches!(rx.decrypt_with_ad(&[], &ct), Err(Error::Decrypt)));
    // wrong associated data also fails
    ct[0] ^= 0x01;
    assert!(matches!(rx.decrypt_with_ad(b"x", &ct), Err(Error::Decrypt)));
}

#[test]
fn ciphers_differ() {
    let key = [7u8; 32];
    let mut a = CipherState::new(CipherChoice::ChaChaPoly);
    a.initialize_key(&key);
    let mut b = CipherState::new(CipherChoice::AesGcm);
    b.initialize_key(&key);
    let ca = a.encrypt_with_ad(&[], b"same input").unwrap();
    let cb = b.encrypt_with_ad(&[], b"same input").unwrap();
    assert_ne!(ca, cb);
}

#[test]
fn rekey_replaces_key() {
    let key = [9u8; 32];
    let mut tx = CipherState::new(CipherChoice::ChaChaPoly);
    tx.initialize_key(&key);
    let mut rx = CipherState::new(CipherChoice::ChaChaPoly);
    rx.initialize_key(&key);
    tx.rekey();
    let ct = tx.encrypt_with_ad(&[], b"m").unwrap();
    // the receiver still holds the old key: decryption must fail
    assert!(matches!(rx.decrypt_with_ad(&[], &ct), Err(Error::Decrypt)));
    rx.rekey();
    let pt = rx.decrypt_with_ad(&[], &ct).unwrap();
    assert_eq!(pt, b"m".to_vec());
}
