//! End-to-end handshakes: the full pattern catalog, the seed protocol
//! configurations, boundary behaviors, turn-taking and failure cases.

use noise_handshake::cipherstate::CipherStates;
use noise_handshake::crypto::{dh_pubkey, CipherChoice, DhChoice, HashChoice};
use noise_handshake::error::{Error, StateProblem};
use noise_handshake::handshakestate::{protocol_name, HandshakeState};
use noise_handshake::params::{HandshakeChoice, HandshakePattern};

const ALL_PATTERNS: [HandshakePattern; 15] = [
    HandshakePattern::N,
    HandshakePattern::K,
    HandshakePattern::X,
    HandshakePattern::NN,
    HandshakePattern::NK,
    HandshakePattern::NX,
    HandshakePattern::XN,
    HandshakePattern::XK,
    HandshakePattern::XX,
    HandshakePattern::KN,
    HandshakePattern::KK,
    HandshakePattern::KX,
    HandshakePattern::IN,
    HandshakePattern::IK,
    HandshakePattern::IX,
];

fn psk_array(mods: &[u8]) -> Vec<Option<Vec<u8>>> {
    let mut v: Vec<Option<Vec<u8>>> = Vec::new();
    for _ in 0..10 {
        v.push(Some([0x55u8; 32].to_vec()));
    }
    let _ = mods;
    v
}

struct Party {
    hs: HandshakeState,
}

fn make_pair(
    pattern: HandshakePattern,
    mods: &[u8],
    cipher: CipherChoice,
    hash: HashChoice,
) -> (Party, Party) {
    let i_static = [0x11u8; 32].to_vec();
    let r_static = [0x22u8; 32].to_vec();
    let i_eph = [0x33u8; 32].to_vec();
    let r_eph = [0x44u8; 32].to_vec();
    let i_pub = dh_pubkey(DhChoice::Curve25519, &i_static);
    let r_pub = dh_pubkey(DhChoice::Curve25519, &r_static);
    let choice = HandshakeChoice {
        pattern,
        modifiers: mods.to_vec(),
    };
    let a = HandshakeState::new(
        true,
        choice,
        DhChoice::Curve25519,
        cipher,
        hash,
        Some(i_static),
        Some(i_eph),
        true,
        Some(r_pub),
        None,
        psk_array(mods),
        b"",
    )
    .unwrap();
    let choice_b = HandshakeChoice {
        pattern,
        modifiers: mods.to_vec(),
    };
    let b = HandshakeState::new(
        false,
        choice_b,
        DhChoice::Curve25519,
        cipher,
        hash,
        Some(r_static),
        Some(r_eph),
        true,
        Some(i_pub),
        None,
        psk_array(mods),
        b"",
    )
    .unwrap();
    (Party { hs: a }, Party { hs: b })
}

/// Runs a full handshake with the given payload on every message and
/// returns the messages plus both finished sessions.
fn run_handshake(
    pattern: HandshakePattern,
    mods: &[u8],
    cipher: CipherChoice,
    hash: HashChoice,
) -> (Vec<Vec<u8>>, CipherStates, CipherStates) {
    let (mut a, mut b) = make_pair(pattern, mods, cipher, hash);
    let mut messages: Vec<Vec<u8>> = Vec::new();
    let mut a_writes = true;
    while !(a.hs.is_finished() && b.hs.is_finished()) {
        let (w, r) = if a_writes {
            (&mut a.hs, &mut b.hs)
        } else {
            (&mut b.hs, &mut a.hs)
        };
        let msg = w.write_handshake_message(b"test payload").unwrap();
        let payload = r.read_handshake_message(&msg).unwrap();
        assert_eq!(payload, b"test payload".to_vec());
        messages.push(msg);
        a_writes = !a_writes;
    }
    // both sides derive bitwise-identical transcripts and chaining keys
    assert_eq!(a.hs.handshake_hash(), b.hs.handshake_hash());
    assert_eq!(a.hs.chaining_key(), b.hs.chaining_key());
    let (cs_a, choice_a) = a.hs.finish().unwrap();
    let (cs_b, choice_b) = b.hs.finish().unwrap();
    assert_eq!(choice_a.pattern, choice_b.pattern);
    (messages, cs_a, cs_b)
}

fn transport_check(mut cs_a: CipherStates, mut cs_b: CipherStates) {
    let c1 = cs_a.0.encrypt_with_ad(&[], b"from initiator").unwrap();
    let p1 = cs_b.0.decrypt_with_ad(&[], &c1).unwrap();
    assert_eq!(p1, b"from initiator".to_vec());
    let c2 = cs_b.1.encrypt_with_ad(&[], b"from responder").unwrap();
    let p2 = cs_a.1.decrypt_with_ad(&[], &c2).unwrap();
    assert_eq!(p2, b"from responder".to_vec());
}

#[test]
fn full_catalog_round_trips() {
    for pattern in ALL_PATTERNS {
        for cipher in [CipherChoice::ChaChaPoly, CipherChoice::AesGcm] {
            for hash in [HashChoice::Sha256, HashChoice::Blake2s] {
                let (_msgs, cs_a, cs_b) = run_handshake(pattern, &[], cipher, hash);
                transport_check(cs_a, cs_b);
            }
        }
    }
}

#[test]
fn psk_variants_round_trip() {
    let cases: [(HandshakePattern, &[u8]); 4] = [
        (HandshakePattern::NN, &[0]),
        (HandshakePattern::NN, &[2]),
        (HandshakePattern::XX, &[3]),
        (HandshakePattern::KK, &[0, 2]),
    ];
    for (pattern, mods) in cases {
        let (_msgs, cs_a, cs_b) =
            run_handshake(pattern, mods, CipherChoice::ChaChaPoly, HashChoice::Blake2s);
        transport_check(cs_a, cs_b);
    }
}

#[test]
fn protocol_names_are_exact() {
    let nn = protocol_name(
        &HandshakeChoice {
            pattern: HandshakePattern::NN,
            modifiers: vec![],
        },
        DhChoice::Curve25519,
        CipherChoice::ChaChaPoly,
        HashChoice::Blake2s,
    );
    assert_eq!(nn, b"Noise_NN_25519_ChaChaPoly_BLAKE2s".to_vec());
    let xx = protocol_name(
        &HandshakeChoice {
            pattern: HandshakePattern::XX,
            modifiers: vec![],
        },
        DhChoice::Curve25519,
        CipherChoice::ChaChaPoly,
        HashChoice::Sha256,
    );
    assert_eq!(xx, b"Noise_XX_25519_ChaChaPoly_SHA256".to_vec());
    let ik = protocol_name(
        &HandshakeChoice {
            pattern: HandshakePattern::IK,
            modifiers: vec![],
        },
        DhChoice::Curve25519,
        CipherChoice::AesGcm,
        HashChoice::Sha256,
    );
    assert_eq!(ik, b"Noise_IK_25519_AESGCM_SHA256".to_vec());
    let psk = protocol_name(
        &HandshakeChoice {
            pattern: HandshakePattern::XX,
            modifiers: vec![3],
        },
        DhChoice::Curve25519,
        CipherChoice::ChaChaPoly,
        HashChoice::Blake2s,
    );
    assert_eq!(psk, b"Noise_XXpsk3_25519_ChaChaPoly_BLAKE2s".to_vec());
}

#[test]
fn nn_chachapoly_blake2s_scenario() {
    let (mut a, mut b) = make_pair(
        HandshakePattern::NN,
        &[],
        CipherChoice::ChaChaPoly,
        HashChoice::Blake2s,
    );
    let m1 = a.hs.write_handshake_message(&[]).unwrap();
    // message 1 is the raw ephemeral public key with an unencrypted
    // empty payload
    assert_eq!(m1.len(), 32);
    let p1 = b.hs.read_handshake_message(&m1).unwrap();
    assert_eq!(p1, Vec::<u8>::new());
    let m2 = b.hs.write_handshake_message(&[]).unwrap();
    // message 2: ephemeral key, then the tag of the empty sealed payload
    assert_eq!(m2.len(), 32 + 16);
    let p2 = a.hs.read_handshake_message(&m2).unwrap();
    assert_eq!(p2, Vec::<u8>::new());
    assert_eq!(a.hs.handshake_hash(), b.hs.handshake_hash());
    let (cs_a, _) = a.hs.finish().unwrap();
    let (cs_b, _) = b.hs.finish().unwrap();
    transport_check(cs_a, cs_b);
}

#[test]
fn xx_sha256_scenario_messages_deterministic() {
    let (mut a, mut b) = make_pair(
        HandshakePattern::XX,
        &[],
        CipherChoice::ChaChaPoly,
        HashChoice::Sha256,
    );
    let m1 = a.hs.write_handshake_message(&[]).unwrap();
    assert_eq!(m1.len(), 32);
    b.hs.read_handshake_message(&m1).unwrap();
    let m2 = b.hs.write_handshake_message(&[]).unwrap();
    // e (32) + sealed static (48) + sealed empty payload (16)
    assert_eq!(m2.len(), 96);
    a.hs.read_handshake_message(&m2).unwrap();
    let m3 = a.hs.write_handshake_message(&[]).unwrap();
    // sealed static (48) + sealed empty payload (16)
    assert_eq!(m3.len(), 64);
    b.hs.read_handshake_message(&m3).unwrap();

    // with fixed ephemerals the whole exchange is deterministic: a
    // second run produces bit-identical messages
    let (mut a2, mut b2) = make_pair(
        HandshakePattern::XX,
        &[],
        CipherChoice::ChaChaPoly,
        HashChoice::Sha256,
    );
    assert_eq!(a2.hs.write_handshake_message(&[]).unwrap(), m1);
    b2.hs.read_handshake_message(&m1).unwrap();
    assert_eq!(b2.hs.write_handshake_message(&[]).unwrap(), m2);
    a2.hs.read_handshake_message(&m2).unwrap();
    assert_eq!(a2.hs.write_handshake_message(&[]).unwrap(), m3);
}

#[test]
fn ik_aesgcm_scenario_with_transport() {
    let (mut a, mut b) = make_pair(
        HandshakePattern::IK,
        &[],
        CipherChoice::AesGcm,
        HashChoice::Sha256,
    );
    let m1 = a.hs.write_handshake_message(&[]).unwrap();
    // e (32) + sealed static (48) + sealed empty payload (16)
    assert_eq!(m1.len(), 96);
    b.hs.read_handshake_message(&m1).unwrap();
    let m2 = b.hs.write_handshake_message(&[]).unwrap();
    // e (32) + sealed empty payload (16)
    assert_eq!(m2.len(), 48);
    a.hs.read_handshake_message(&m2).unwrap();
    let (cs_a, _) = a.hs.finish().unwrap();
    let (cs_b, _) = b.hs.finish().unwrap();
    transport_check(cs_a, cs_b);
}

#[test]
fn nnpsk0_psk_contributes_before_ephemeral() {
    let (mut a, _b) = make_pair(
        HandshakePattern::NN,
        &[0],
        CipherChoice::ChaChaPoly,
        HashChoice::Blake2s,
    );
    // the psk0 token keys the cipher before the first ephemeral goes
    // out, so message 1 carries a tag that plain NN lacks
    let m1 = a.hs.write_handshake_message(&[]).unwrap();
    assert_eq!(m1.len(), 32 + 16);

    let (mut plain, _b2) = make_pair(
        HandshakePattern::NN,
        &[],
        CipherChoice::ChaChaPoly,
        HashChoice::Blake2s,
    );
    let plain_m1 = plain.hs.write_handshake_message(&[]).unwrap();
    assert_eq!(plain_m1.len(), 32);
    // the raw ephemeral is the same; the tag and the transcript differ
    assert_eq!(&m1[..32], plain_m1.as_slice());
    assert_ne!(a.hs.handshake_hash(), plain.hs.handshake_hash());

    // and the full NNpsk0 handshake still interoperates
    let (_msgs, cs_a, cs_b) = run_handshake(
        HandshakePattern::NN,
        &[0],
        CipherChoice::ChaChaPoly,
        HashChoice::Blake2s,
    );
    transport_check(cs_a, cs_b);
}

#[test]
fn xxpsk3_late_psk_mixing() {
    let (msgs, cs_a, cs_b) = run_handshake(
        HandshakePattern::XX,
        &[3],
        CipherChoice::ChaChaPoly,
        HashChoice::Blake2s,
    );
    assert_eq!(msgs.len(), 3);
    // the psk token itself adds no wire bytes: sealed static, the
    // 12-byte payload and its tag
    assert_eq!(msgs[2].len(), 48 + 12 + 16);
    transport_check(cs_a, cs_b);

    // the pre-shared key really entered the key schedule: the plain XX
    // run produces different message-3 bytes
    let (plain_msgs, _, _) = run_handshake(
        HandshakePattern::XX,
        &[],
        CipherChoice::ChaChaPoly,
        HashChoice::Blake2s,
    );
    assert_ne!(msgs[2], plain_msgs[2]);
}

#[test]
fn tampered_message_fails_decrypt() {
    let (mut a, mut b) = make_pair(
        HandshakePattern::XX,
        &[],
        CipherChoice::ChaChaPoly,
        HashChoice::Sha256,
    );
    let m1 = a.hs.write_handshake_message(&[]).unwrap();
    b.hs.read_handshake_message(&m1).unwrap();
    let m2 = b.hs.write_handshake_message(&[]).unwrap();

    // a flip inside the sealed static key region
    let mut bad = m2.clone();
    bad[40] ^= 0x01;
    assert!(matches!(
        a.hs.read_handshake_message(&bad),
        Err(Error::Decrypt)
    ));

    // a flip in the clear ephemeral corrupts the transcript, so the next
    // keyed decryption fails too; the handshake must be abandoned
    let (mut a2, mut b2) = make_pair(
        HandshakePattern::XX,
        &[],
        CipherChoice::ChaChaPoly,
        HashChoice::Sha256,
    );
    let n1 = a2.hs.write_handshake_message(&[]).unwrap();
    b2.hs.read_handshake_message(&n1).unwrap();
    let n2 = b2.hs.write_handshake_message(&[]).unwrap();
    let mut bad2 = n2.clone();
    bad2[5] ^= 0x80;
    assert!(matches!(
        a2.hs.read_handshake_message(&bad2),
        Err(Error::Decrypt)
    ));
}

#[test]
fn message_size_boundary() {
    // NN message 1 is unkeyed: 32 bytes of ephemeral plus the raw
    // payload; 65503 payload bytes land exactly on the 65535 cap
    let (mut a, mut b) = make_pair(
        HandshakePattern::NN,
        &[],
        CipherChoice::ChaChaPoly,
        HashChoice::Blake2s,
    );
    let payload = vec![0xabu8; 65503];
    let m1 = a.hs.write_handshake_message(&payload).unwrap();
    assert_eq!(m1.len(), 65535);
    let got = b.hs.read_handshake_message(&m1).unwrap();
    assert_eq!(got, payload);

    // one byte more fails with Input
    let (mut a2, _b2) = make_pair(
        HandshakePattern::NN,
        &[],
        CipherChoice::ChaChaPoly,
        HashChoice::Blake2s,
    );
    let too_big = vec![0xabu8; 65504];
    assert!(matches!(
        a2.hs.write_handshake_message(&too_big),
        Err(Error::Input)
    ));
}

#[test]
fn message_size_boundary_keyed() {
    // NNpsk0 keys the cipher before the first message, so its payload
    // carries a tag: 32 ephemeral bytes + 65487 payload + 16 tag = 65535
    let (mut a, mut b) = make_pair(
        HandshakePattern::NN,
        &[0],
        CipherChoice::ChaChaPoly,
        HashChoice::Blake2s,
    );
    let payload = vec![0xcdu8; 65487];
    let m1 = a.hs.write_handshake_message(&payload).unwrap();
    assert_eq!(m1.len(), 65535);
    let got = b.hs.read_handshake_message(&m1).unwrap();
    assert_eq!(got, payload);

    let (mut a2, _b2) = make_pair(
        HandshakePattern::NN,
        &[0],
        CipherChoice::ChaChaPoly,
        HashChoice::Blake2s,
    );
    let too_big = vec![0xcdu8; 65488];
    assert!(matches!(
        a2.hs.write_handshake_message(&too_big),
        Err(Error::Input)
    ));
}

#[test]
fn one_way_pattern_splits() {
    // N has a single message; both sides still reach a valid split
    let (mut a, mut b) = make_pair(
        HandshakePattern::N,
        &[],
        CipherChoice::ChaChaPoly,
        HashChoice::Blake2s,
    );
    let m1 = a.hs.write_handshake_message(b"one way").unwrap();
    let p = b.hs.read_handshake_message(&m1).unwrap();
    assert_eq!(p, b"one way".to_vec());
    assert!(a.hs.is_finished() && b.hs.is_finished());
    let (cs_a, _) = a.hs.finish().unwrap();
    let (cs_b, _) = b.hs.finish().unwrap();
    transport_check(cs_a, cs_b);
}

#[test]
fn finish_gate() {
    let (mut a, _b) = make_pair(
        HandshakePattern::XX,
        &[],
        CipherChoice::ChaChaPoly,
        HashChoice::Sha256,
    );
    assert!(!a.hs.is_finished());
    let _ = a.hs.write_handshake_message(&[]).unwrap();
    assert!(!a.hs.is_finished());
    assert!(matches!(
        a.hs.finish(),
        Err(Error::State(StateProblem::HandshakeNotFinished))
    ));
}

#[test]
fn turn_taking_enforced() {
    let (mut a, mut b) = make_pair(
        HandshakePattern::XX,
        &[],
        CipherChoice::ChaChaPoly,
        HashChoice::Sha256,
    );
    // the responder cannot write first
    assert!(matches!(
        b.hs.write_handshake_message(&[]),
        Err(Error::State(StateProblem::NotTurnToWrite))
    ));
    let m1 = a.hs.write_handshake_message(&[]).unwrap();
    // the initiator cannot write twice in a row
    assert!(matches!(
        a.hs.write_handshake_message(&[]),
        Err(Error::State(StateProblem::NotTurnToWrite))
    ));
    b.hs.read_handshake_message(&m1).unwrap();
    // nor can the responder read again once the turn is theirs to write
    assert!(matches!(
        b.hs.read_handshake_message(&m1),
        Err(Error::State(StateProblem::NotTurnToRead))
    ));
}

#[test]
fn construction_errors() {
    let choice = HandshakeChoice {
        pattern: HandshakePattern::NN,
        modifiers: vec![],
    };
    // a psk modifier addressing a message the pattern lacks
    let bad_mod = HandshakeState::new(
        true,
        HandshakeChoice {
            pattern: HandshakePattern::NN,
            modifiers: vec![7],
        },
        DhChoice::Curve25519,
        CipherChoice::ChaChaPoly,
        HashChoice::Blake2s,
        None,
        None,
        false,
        None,
        None,
        vec![],
        b"",
    );
    assert!(matches!(bad_mod, Err(Error::Pattern(_))));

    // a local private key of the wrong length
    let bad_key = HandshakeState::new(
        true,
        choice,
        DhChoice::Curve25519,
        CipherChoice::ChaChaPoly,
        HashChoice::Blake2s,
        Some(vec![1, 2, 3]),
        None,
        false,
        None,
        None,
        vec![],
        b"",
    );
    assert!(matches!(bad_key, Err(Error::Prereq(_))));

    // a pre-shared key of the wrong length
    let bad_psk = HandshakeState::new(
        true,
        HandshakeChoice {
            pattern: HandshakePattern::NN,
            modifiers: vec![],
        },
        DhChoice::Curve25519,
        CipherChoice::ChaChaPoly,
        HashChoice::Blake2s,
        None,
        None,
        false,
        None,
        None,
        vec![Some(vec![1, 2, 3])],
        b"",
    );
    assert!(matches!(bad_psk, Err(Error::Init(_))));

    // IK requires the responder's static key in advance
    let missing_rs = HandshakeState::new(
        true,
        HandshakeChoice {
            pattern: HandshakePattern::IK,
            modifiers: vec![],
        },
        DhChoice::Curve25519,
        CipherChoice::ChaChaPoly,
        HashChoice::Sha256,
        Some([0x11u8; 32].to_vec()),
        None,
        false,
        None,
        None,
        vec![],
        b"",
    );
    assert!(matches!(missing_rs, Err(Error::Prereq(_))));
}

#[test]
fn missing_psk_is_state_error() {
    let choice = HandshakeChoice {
        pattern: HandshakePattern::NN,
        modifiers: vec![0],
    };
    let mut a = HandshakeState::new(
        true,
        choice,
        DhChoice::Curve25519,
        CipherChoice::ChaChaPoly,
        HashChoice::Blake2s,
        None,
        None,
        false,
        None,
        None,
        vec![None],
        b"",
    )
    .unwrap();
    assert!(matches!(
        a.write_handshake_message(&[]),
        Err(Error::State(StateProblem::MissingPsk))
    ));
}

#[test]
fn fresh_ephemerals_differ_across_runs() {
    // without fixed ephemerals the wire bytes of two runs differ
    let mk = || {
        HandshakeState::new(
            true,
            HandshakeChoice {
                pattern: HandshakePattern::NN,
                modifiers: vec![],
            },
            DhChoice::Curve25519,
            CipherChoice::ChaChaPoly,
            HashChoice::Blake2s,
            None,
            None,
            false,
            None,
            None,
            vec![],
            b"",
        )
        .unwrap()
    };
    let m1 = mk().write_handshake_message(&[]).unwrap();
    let m2 = mk().write_handshake_message(&[]).unwrap();
    assert_ne!(m1, m2);
}

#[test]
fn error_messages_name_their_class() {
    assert_eq!(Error::Input.message(), "input error");
    assert_eq!(Error::Decrypt.message(), "decrypt error");
    assert_eq!(
        Error::State(StateProblem::NotTurnToWrite).message(),
        "state error"
    );
}
