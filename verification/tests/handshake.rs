use nivalis::builder::NewBuilder;
use nivalis::crypto::cipher::aesgcm::AesGcm;
use nivalis::crypto::cipher::chacha20::ChaChaPoly;
use nivalis::crypto::cipher::Cipher;
use nivalis::crypto::dh::x25519::X25519dh;
use nivalis::crypto::dh::x448::X448dh;
use nivalis::crypto::dh::{DHKeypair, DH};
use nivalis::crypto::hash::blake2b::Blake2b;
use nivalis::crypto::hash::blake2s::Blake2s;
use nivalis::crypto::hash::sha256::Sha256;
use nivalis::crypto::hash::sha512::Sha512;
use nivalis::error::{MissingKey, NoiseError};
use nivalis::patterns::roles::{Initiator, Responder, RoleMarker};
use nivalis::patterns::{
    IKpsk1, IKpsk2, INpsk1, INpsk2, IXpsk2, KKpsk0, KKpsk2, KNpsk0, KNpsk2, KXpsk2, Kpsk0,
    NKpsk0, NKpsk2, NNpsk2, NXpsk2, Npsk0, Pattern, XKpsk3, XNpsk3, Xpsk1, IK, IN, IX, K, KK, KN,
    KX, N, NK, NN, NNpsk0, NX, X, XK, XN, XX, XXpsk3,
};
use nivalis::state::handshake_state::{checked_message_end, HandshakeResult, HandshakeState};
use nivalis::state::transport_state::TransportState;

type Sides<C, D> = (
    TransportState<C, D, Initiator>,
    TransportState<C, D, Responder>,
    Vec<u8>,
    Vec<u8>,
);

type Finished<C, D, R> = Option<(TransportState<C, D, R>, Vec<u8>)>;

/// Writes one message with `writer`, reads it with `reader` and checks that
/// the payload arrives.
fn one_message<P, RW, RR, D, C, H>(
    writer: &mut HandshakeState<P, RW, D, C, H>,
    reader: &mut HandshakeState<P, RR, D, C, H>,
    step: usize,
) -> (Finished<C, D, RW>, Finished<C, D, RR>)
where
    P: Pattern,
    RW: RoleMarker,
    RR: RoleMarker,
    D: DH,
    C: Cipher,
    H: nivalis::crypto::hash::Hash,
{
    let payload = format!("payload {}", step).into_bytes();
    let mut wire = vec![0u8; 1024];
    let mut received = vec![0u8; 1024];
    let (len, writer_done) = match writer.write_message(&payload, &mut wire).expect("write") {
        HandshakeResult::Continue { bytes } => (bytes, None),
        HandshakeResult::Complete { bytes_written, transport_state, handshake_hash } => {
            (bytes_written, Some((transport_state, handshake_hash)))
        }
    };
    let reader_done = match reader.read_message(&wire[..len], &mut received).expect("read") {
        HandshakeResult::Continue { .. } => None,
        HandshakeResult::Complete { transport_state, handshake_hash, bytes_written } => {
            assert_eq!(bytes_written, len);
            Some((transport_state, handshake_hash))
        }
    };
    assert_eq!(&received[..payload.len()], &payload[..]);
    assert_eq!(writer_done.is_some(), reader_done.is_some());
    (writer_done, reader_done)
}

/// Runs every message of the handshake, alternating writer and reader.
fn drive<P, D, C, H>(
    mut init: HandshakeState<P, Initiator, D, C, H>,
    mut resp: HandshakeState<P, Responder, D, C, H>,
) -> Sides<C, D>
where
    P: Pattern,
    D: DH,
    C: Cipher,
    H: nivalis::crypto::hash::Hash,
{
    let mut step = 0usize;
    loop {
        let (init_done, resp_done) = if step % 2 == 0 {
            one_message(&mut init, &mut resp, step)
        } else {
            let (w, r) = one_message(&mut resp, &mut init, step);
            (r, w)
        };
        if let (Some((it, ih)), Some((rt, rh))) = (init_done, resp_done) {
            return (it, rt, ih, rh);
        }
        step += 1;
    }
}

/// Sends one message each way over the transport states.
fn exchange<C: Cipher, D: DH>(
    it: &mut TransportState<C, D, Initiator>,
    rt: &mut TransportState<C, D, Responder>,
) {
    let plaintext = b"hello from initiator";
    let mut ct = vec![0u8; plaintext.len() + 32];
    let ct_len = it.encrypt_message(b"", plaintext, &mut ct).expect("encrypt");
    assert_eq!(ct_len, plaintext.len() + 16);
    assert_ne!(&ct[..plaintext.len()], &plaintext[..]);
    let mut recovered = vec![0u8; plaintext.len()];
    rt.decrypt_message(b"", &ct[..ct_len], &mut recovered).expect("decrypt");
    assert_eq!(&recovered, plaintext);

    let reply = b"hello from responder";
    let mut ct2 = vec![0u8; reply.len() + 32];
    let ct2_len = rt.encrypt_message(b"ad", reply, &mut ct2).expect("encrypt");
    let mut recovered2 = vec![0u8; reply.len()];
    it.decrypt_message(b"ad", &ct2[..ct2_len], &mut recovered2).expect("decrypt");
    assert_eq!(&recovered2, reply);
}

/// The length of each XX message: its keys (encrypted ones with a tag once
/// a cipher key is set), the payload, and a tag once a cipher key is set.
#[test]
fn xx_message_lengths() {
    let mut init = NewBuilder::<XX, Initiator, X448dh, AesGcm, Sha512>::new()
        .local_static_key(X448dh::generate_keypair().unwrap().private().to_vec())
        .build()
        .unwrap();
    let mut resp = NewBuilder::<XX, Responder, X448dh, AesGcm, Sha512>::new()
        .local_static_key(X448dh::generate_keypair().unwrap().private().to_vec())
        .build()
        .unwrap();
    let mut wire = vec![0u8; 512];
    let mut payload = vec![0u8; 512];
    // -> e: the key and the payload in clear
    let n = match init.write_message(b"abcde", &mut wire).unwrap() {
        HandshakeResult::Continue { bytes } => bytes,
        HandshakeResult::Complete { .. } => panic!("XX has three messages"),
    };
    assert_eq!(n, 56 + 5);
    assert!(matches!(
        resp.read_message(&wire[..n], &mut payload),
        Ok(HandshakeResult::Continue { bytes: 61 })
    ));
    // <- e, ee, s, es: the key, the encrypted static key, the encrypted payload
    let n = match resp.write_message(b"abcde", &mut wire).unwrap() {
        HandshakeResult::Continue { bytes } => bytes,
        HandshakeResult::Complete { .. } => panic!("XX has three messages"),
    };
    assert_eq!(n, 56 + (56 + 16) + 5 + 16);
}

#[test]
fn xx_handshake_then_transport() {
    let init_static = X25519dh::generate_keypair().unwrap();
    let resp_static = X25519dh::generate_keypair().unwrap();
    let init = NewBuilder::<XX, Initiator, X25519dh, ChaChaPoly, Blake2s>::new()
        .local_static_key(init_static.private().to_vec())
        .build()
        .expect("initiator");
    let resp = NewBuilder::<XX, Responder, X25519dh, ChaChaPoly, Blake2s>::new()
        .local_static_key(resp_static.private().to_vec())
        .build()
        .expect("responder");
    let (mut it, mut rt, ih, rh) = drive(init, resp);
    assert_eq!(ih, rh);
    assert_eq!(ih.len(), 32);
    assert_eq!(it.remote_static_pk(), Some(resp_static.public()));
    assert_eq!(rt.remote_static_pk(), Some(init_static.public()));
    exchange(&mut it, &mut rt);
}

#[test]
fn ik_handshake_x448_aesgcm_sha512() {
    // derived (clamped) keys on both sides, ephemerals included
    let init_sk = vec![3u8; 56];
    let resp_sk = vec![7u8; 56];
    let resp_static = <X448dh as DH>::Keypair::derive_keypair(&resp_sk);
    let init = NewBuilder::<IK, Initiator, X448dh, AesGcm, Sha512>::from_parts(
        Some(init_sk),
        Some(resp_static.public()),
        Some(vec![11u8; 56]),
        None,
        None,
        Vec::new(),
    )
    .expect("initiator");
    let resp = NewBuilder::<IK, Responder, X448dh, AesGcm, Sha512>::from_parts(
        Some(resp_sk),
        None,
        Some(vec![13u8; 56]),
        None,
        None,
        Vec::new(),
    )
    .expect("responder");
    let (mut it, mut rt, ih, rh) = drive(init, resp);
    assert_eq!(ih, rh);
    assert_eq!(ih.len(), 64);
    exchange(&mut it, &mut rt);
}

#[test]
fn nnpsk0_handshake_with_psk() {
    let psk = [9u8; 32];
    let init = NewBuilder::<NNpsk0, Initiator, X25519dh, AesGcm, Sha256>::new()
        .psk(psk)
        .prologue(b"prologue".to_vec())
        .build()
        .expect("initiator");
    let resp = NewBuilder::<NNpsk0, Responder, X25519dh, AesGcm, Sha256>::new()
        .psk(psk)
        .prologue(b"prologue".to_vec())
        .build()
        .expect("responder");
    let (mut it, mut rt, ih, rh) = drive(init, resp);
    assert_eq!(ih, rh);
    exchange(&mut it, &mut rt);
}

#[test]
fn xxpsk3_with_different_psks_fails() {
    let init_static = X25519dh::generate_keypair().unwrap();
    let resp_static = X25519dh::generate_keypair().unwrap();
    let mut init = NewBuilder::<XXpsk3, Initiator, X25519dh, ChaChaPoly, Blake2b>::new()
        .local_static_key(init_static.private().to_vec())
        .psk([1u8; 32])
        .build()
        .unwrap();
    let mut resp = NewBuilder::<XXpsk3, Responder, X25519dh, ChaChaPoly, Blake2b>::new()
        .local_static_key(resp_static.private().to_vec())
        .psk([2u8; 32])
        .build()
        .unwrap();
    let mut wire = vec![0u8; 1024];
    let mut payload = vec![0u8; 1024];
    for i in 0..2 {
        let n = if i == 0 {
            match init.write_message(b"", &mut wire).unwrap() {
                HandshakeResult::Continue { bytes } => bytes,
                HandshakeResult::Complete { .. } => panic!("finished too early"),
            }
        } else {
            match resp.write_message(b"", &mut wire).unwrap() {
                HandshakeResult::Continue { bytes } => bytes,
                HandshakeResult::Complete { .. } => panic!("finished too early"),
            }
        };
        if i == 0 {
            resp.read_message(&wire[..n], &mut payload).unwrap();
        } else {
            init.read_message(&wire[..n], &mut payload).unwrap();
        }
    }
    let n = match init.write_message(b"last", &mut wire).unwrap() {
        HandshakeResult::Complete { bytes_written, .. } => bytes_written,
        HandshakeResult::Continue { .. } => panic!("should have finished"),
    };
    let err = resp.read_message(&wire[..n], &mut payload).err().unwrap();
    assert_eq!(err, NoiseError::InvalidInput("Couldn't decrypt the message"));
}

#[test]
fn one_way_n_pattern() {
    let resp_static = X25519dh::generate_keypair().unwrap();
    let mut init = NewBuilder::<N, Initiator, X25519dh, ChaChaPoly, Blake2b>::new()
        .remote_static_key(resp_static.public())
        .build()
        .unwrap();
    let mut resp = NewBuilder::<N, Responder, X25519dh, ChaChaPoly, Blake2b>::new()
        .local_static_key(resp_static.private().to_vec())
        .build()
        .unwrap();
    let mut wire = vec![0u8; 256];
    let n = match init.write_message(b"one way", &mut wire).unwrap() {
        HandshakeResult::Complete { bytes_written, .. } => bytes_written,
        HandshakeResult::Continue { .. } => panic!("one message only"),
    };
    // e (32) + payload (7) + tag (16)
    assert_eq!(n, 32 + 7 + 16);
    let mut payload = vec![0u8; 64];
    match resp.read_message(&wire[..n], &mut payload).unwrap() {
        HandshakeResult::Complete { bytes_written, .. } => assert_eq!(bytes_written, n),
        HandshakeResult::Continue { .. } => panic!("one message only"),
    }
    assert_eq!(&payload[..7], b"one way");
}

#[test]
fn write_after_complete_is_refused() {
    let resp_static = X25519dh::generate_keypair().unwrap();
    let mut init = NewBuilder::<N, Initiator, X25519dh, ChaChaPoly, Blake2s>::new()
        .remote_static_key(resp_static.public())
        .build()
        .unwrap();
    let mut wire = vec![0u8; 256];
    assert!(matches!(init.write_message(b"", &mut wire), Ok(HandshakeResult::Complete { .. })));
    assert_eq!(init.write_message(b"", &mut wire).err(), Some(NoiseError::HandshakeFinished));
    let mut payload = vec![0u8; 64];
    assert_eq!(
        init.read_message(&wire[..10], &mut payload).err(),
        Some(NoiseError::HandshakeFinished)
    );
}

#[test]
fn nn_message_sizes_and_cleartext_first_message() {
    let mut init = NewBuilder::<NN, Initiator, X25519dh, ChaChaPoly, Sha256>::new().build().unwrap();
    let mut wire = vec![0u8; 256];
    let n = match init.write_message(b"abc", &mut wire).unwrap() {
        HandshakeResult::Continue { bytes } => bytes,
        HandshakeResult::Complete { .. } => panic!("NN has two messages"),
    };
    // e in clear, then the payload in clear since no key is set yet
    assert_eq!(n, 32 + 3);
    assert_eq!(&wire[32..35], b"abc");
}

#[test]
fn too_small_buffer_is_refused() {
    let mut init = NewBuilder::<NN, Initiator, X25519dh, ChaChaPoly, Sha256>::new().build().unwrap();
    let mut wire = vec![0u8; 10];
    assert_eq!(
        init.write_message(b"", &mut wire).err(),
        Some(NoiseError::InvalidState("Truncated message"))
    );
    // one byte short of the ephemeral key: refused, nothing written
    let mut wire = vec![0u8; 31];
    assert!(matches!(init.write_message(b"", &mut wire), Err(NoiseError::InvalidState(_))));
    assert_eq!(wire, vec![0u8; 31]);
    // the state is unchanged: the message can still be written
    let mut wire = vec![0u8; 64];
    assert!(matches!(init.write_message(b"", &mut wire), Ok(HandshakeResult::Continue { bytes: 32 })));
}

#[test]
fn calls_out_of_turn_are_refused() {
    let mut resp = NewBuilder::<NN, Responder, X25519dh, ChaChaPoly, Sha256>::new().build().unwrap();
    let mut wire = vec![0u8; 64];
    assert_eq!(
        resp.write_message(b"", &mut wire).err(),
        Some(NoiseError::InvalidState("Not this party's turn to write"))
    );
    assert_eq!(wire, vec![0u8; 64]);
    let mut init = NewBuilder::<NN, Initiator, X25519dh, ChaChaPoly, Sha256>::new().build().unwrap();
    let mut payload = vec![0u8; 64];
    assert_eq!(
        init.read_message(&[9u8; 40], &mut payload).err(),
        Some(NoiseError::InvalidState("Not this party's turn to read"))
    );
    assert_eq!(payload, vec![0u8; 64]);
    // both still play their turn afterwards
    let n = match init.write_message(b"hi", &mut wire).unwrap() {
        HandshakeResult::Continue { bytes } => bytes,
        HandshakeResult::Complete { .. } => panic!("NN has two messages"),
    };
    assert!(matches!(
        resp.read_message(&wire[..n], &mut payload),
        Ok(HandshakeResult::Continue { bytes: 34 })
    ));
}

#[test]
fn read_reports_the_bytes_consumed() {
    let mut resp = NewBuilder::<NN, Responder, X25519dh, ChaChaPoly, Sha256>::new().build().unwrap();
    let msg = [[9u8; 32].as_slice(), b"hi"].concat();
    let mut out = [0u8; 2];
    assert!(matches!(
        resp.read_message(&msg, &mut out),
        Ok(HandshakeResult::Continue { bytes: 34 })
    ));
    assert_eq!(&out, b"hi");
}

#[test]
fn cleartext_payload_larger_than_buffer_is_refused() {
    let mut resp = NewBuilder::<NN, Responder, X25519dh, ChaChaPoly, Sha256>::new().build().unwrap();
    let mut out = [0u8; 4];
    assert_eq!(
        resp.read_message(&[0u8; 40], &mut out).err(),
        Some(NoiseError::InvalidInput("Couldn't decrypt the message"))
    );
    assert_eq!(out, [0u8; 4]);
}

#[test]
fn n_with_empty_payload_writes_key_and_tag() {
    let rs = X25519dh::pubkey_from_bytes(&[9u8; 32]).unwrap();
    let mut init = NewBuilder::<N, Initiator, X25519dh, AesGcm, Sha256>::new()
        .remote_static_key(rs)
        .build()
        .unwrap();
    let mut wire = [0u8; 128];
    match init.write_message(b"", &mut wire).unwrap() {
        HandshakeResult::Complete { bytes_written, transport_state, handshake_hash } => {
            assert_eq!(bytes_written, 48);
            assert_eq!(handshake_hash.len(), 32);
            assert_eq!(transport_state.remote_static_pk(), Some(vec![9u8; 32]));
        }
        HandshakeResult::Continue { .. } => panic!("one message only"),
    }
}

#[test]
fn payload_without_room_is_refused() {
    let mut init = NewBuilder::<NN, Initiator, X25519dh, ChaChaPoly, Sha256>::new().build().unwrap();
    let mut wire = vec![0u8; 40];
    assert_eq!(
        init.write_message(&[0u8; 20], &mut wire).err(),
        Some(NoiseError::InvalidState("No place left for the payload"))
    );
}

#[test]
fn truncated_message_is_refused_by_reader() {
    let mut resp = NewBuilder::<NN, Responder, X25519dh, ChaChaPoly, Sha256>::new().build().unwrap();
    let mut payload = vec![0u8; 64];
    assert_eq!(
        resp.read_message(&[0u8; 16], &mut payload).err(),
        Some(NoiseError::InvalidState("Truncated message for e"))
    );
}

#[test]
fn too_big_message_is_refused_by_reader() {
    let mut resp = NewBuilder::<NN, Responder, X25519dh, ChaChaPoly, Sha256>::new().build().unwrap();
    let big = vec![0u8; 65536];
    let mut payload = vec![0u8; 65536];
    assert_eq!(
        resp.read_message(&big, &mut payload).err(),
        Some(NoiseError::InvalidInput("Message received too big"))
    );
}

#[test]
fn from_parts_reports_missing_key() {
    let r = NewBuilder::<IK, Initiator, X25519dh, ChaChaPoly, Blake2s>::from_parts(
        Some(vec![1u8; 32]),
        None,
        None,
        None,
        None,
        Vec::new(),
    );
    assert_eq!(r.err(), Some(NoiseError::MissingRequirements(MissingKey::RemoteStatic)));
    let r = NewBuilder::<XX, Initiator, X25519dh, ChaChaPoly, Blake2s>::from_parts(
        None,
        None,
        None,
        None,
        None,
        Vec::new(),
    );
    assert_eq!(r.err(), Some(NoiseError::MissingRequirements(MissingKey::LocalStatic)));
    let r = NewBuilder::<NNpsk0, Responder, X25519dh, ChaChaPoly, Blake2s>::from_parts(
        None,
        None,
        None,
        None,
        None,
        Vec::new(),
    );
    assert_eq!(r.err(), Some(NoiseError::MissingRequirements(MissingKey::Psk)));
}

#[test]
fn from_parts_with_fixed_ephemerals_is_deterministic() {
    let run = || {
        let init = NewBuilder::<NN, Initiator, X25519dh, ChaChaPoly, Blake2s>::from_parts(
            None,
            None,
            Some(vec![3u8; 32]),
            None,
            None,
            b"p".to_vec(),
        )
        .unwrap();
        let resp = NewBuilder::<NN, Responder, X25519dh, ChaChaPoly, Blake2s>::from_parts(
            None,
            None,
            Some(vec![4u8; 32]),
            None,
            None,
            b"p".to_vec(),
        )
        .unwrap();
        drive(init, resp).2
    };
    assert_eq!(run(), run());
}

#[test]
fn message_starts_with_the_given_ephemeral_key() {
    let mut init = NewBuilder::<NN, Initiator, X25519dh, ChaChaPoly, Blake2s>::from_parts(
        None,
        None,
        Some(vec![3u8; 32]),
        None,
        None,
        b"p".to_vec(),
    )
    .unwrap();
    let mut wire = vec![0u8; 64];
    let n = match init.write_message(b"x", &mut wire).unwrap() {
        HandshakeResult::Continue { bytes } => bytes,
        HandshakeResult::Complete { .. } => panic!("NN has two messages"),
    };
    assert_eq!(n, 33);
    let expected = <X25519dh as DH>::Keypair::derive_keypair(&[3u8; 32]).pubkey_bytes();
    assert_eq!(&wire[..32], &expected[..]);
}

#[test]
fn psk0_message_starts_with_the_given_ephemeral_key() {
    let rs = X25519dh::pubkey_from_bytes(&[9u8; 32]).unwrap();
    let write = || {
        let mut init = NewBuilder::<Npsk0, Initiator, X25519dh, ChaChaPoly, Blake2s>::from_parts(
            None,
            Some(rs.clone()),
            Some(vec![3u8; 32]),
            None,
            Some(nivalis::types::Psk([5u8; 32])),
            b"p".to_vec(),
        )
        .unwrap();
        let mut wire = vec![0u8; 64];
        let n = match init.write_message(b"x", &mut wire).unwrap() {
            HandshakeResult::Complete { bytes_written, .. } => bytes_written,
            HandshakeResult::Continue { .. } => panic!("Npsk0 has one message"),
        };
        // e, then the payload and its tag
        assert_eq!(n, 32 + 1 + 16);
        wire.truncate(n);
        wire
    };
    let first = write();
    let expected = <X25519dh as DH>::Keypair::derive_keypair(&[3u8; 32]).pubkey_bytes();
    assert_eq!(&first[..32], &expected[..]);
    assert_eq!(first, write());
}

#[test]
fn x448_low_order_keys_are_refused() {
    let mut five = [0u8; 56];
    five[0] = 5;
    let mut one = [0u8; 56];
    one[0] = 1;
    let mut p1 = [0xffu8; 56];
    p1[0] = 0xfe;
    p1[28] = 0xfe;
    assert!(X448dh::accepts_public_key(&five));
    assert!(!X448dh::accepts_public_key(&[0u8; 56]));
    assert!(!X448dh::accepts_public_key(&one));
    assert!(!X448dh::accepts_public_key(&p1));
    assert!(X25519dh::accepts_public_key(&[0u8; 32]));
}

#[test]
fn checked_message_end_cases() {
    assert_eq!(checked_message_end(0, 10), Ok(10));
    assert_eq!(checked_message_end(65535, 0), Ok(65535));
    assert_eq!(
        checked_message_end(65530, 10),
        Err(NoiseError::InvalidInput("Noise message is too large."))
    );
    assert_eq!(
        checked_message_end(usize::MAX, 1),
        Err(NoiseError::InvalidInput("Noise message length overflow"))
    );
}

#[test]
fn error_messages() {
    assert_eq!(NoiseError::HandshakeFinished.to_string(), "handshake already finished");
    assert_eq!(
        NoiseError::MissingRequirements(MissingKey::Psk).to_string(),
        "cannot build: missing `.psk(...)`: the pattern requires a psk to be valid"
    );
    assert_eq!(NoiseError::InvalidInput("x").to_string(), "invalid input: x");
}

/// Runs a complete handshake of the pattern `P`, both parties holding their
/// static keys, the peer's static key and the pre-shared key.
fn complete_with_all_keys<P: Pattern>() {
    let init_sk = vec![21u8; 32];
    let resp_sk = vec![42u8; 32];
    let init_pk = <X25519dh as DH>::Keypair::derive_keypair(&init_sk).public();
    let resp_pk = <X25519dh as DH>::Keypair::derive_keypair(&resp_sk).public();
    let psk = nivalis::types::Psk([5u8; 32]);
    let init = NewBuilder::<P, Initiator, X25519dh, ChaChaPoly, Blake2s>::from_parts(
        Some(init_sk),
        Some(resp_pk),
        None,
        None,
        Some(nivalis::types::Psk(psk.0)),
        b"all".to_vec(),
    )
    .expect("initiator");
    let resp = NewBuilder::<P, Responder, X25519dh, ChaChaPoly, Blake2s>::from_parts(
        Some(resp_sk),
        Some(init_pk),
        None,
        None,
        Some(psk),
        b"all".to_vec(),
    )
    .expect("responder");
    let (mut it, mut rt, ih, rh) = drive(init, resp);
    assert_eq!(ih, rh);
    exchange(&mut it, &mut rt);
}

#[test]
fn every_pattern_completes() {
    complete_with_all_keys::<N>();
    complete_with_all_keys::<K>();
    complete_with_all_keys::<X>();
    complete_with_all_keys::<NN>();
    complete_with_all_keys::<NK>();
    complete_with_all_keys::<NX>();
    complete_with_all_keys::<XN>();
    complete_with_all_keys::<XK>();
    complete_with_all_keys::<XX>();
    complete_with_all_keys::<KN>();
    complete_with_all_keys::<KK>();
    complete_with_all_keys::<KX>();
    complete_with_all_keys::<IN>();
    complete_with_all_keys::<IK>();
    complete_with_all_keys::<IX>();
    complete_with_all_keys::<Npsk0>();
    complete_with_all_keys::<Kpsk0>();
    complete_with_all_keys::<Xpsk1>();
    complete_with_all_keys::<NNpsk0>();
    complete_with_all_keys::<NNpsk2>();
    complete_with_all_keys::<NKpsk0>();
    complete_with_all_keys::<NKpsk2>();
    complete_with_all_keys::<NXpsk2>();
    complete_with_all_keys::<XNpsk3>();
    complete_with_all_keys::<XKpsk3>();
    complete_with_all_keys::<XXpsk3>();
    complete_with_all_keys::<KNpsk0>();
    complete_with_all_keys::<KNpsk2>();
    complete_with_all_keys::<KKpsk0>();
    complete_with_all_keys::<KKpsk2>();
    complete_with_all_keys::<KXpsk2>();
    complete_with_all_keys::<INpsk1>();
    complete_with_all_keys::<INpsk2>();
    complete_with_all_keys::<IKpsk1>();
    complete_with_all_keys::<IKpsk2>();
    complete_with_all_keys::<IXpsk2>();
}

#[test]
fn message_length_limit() {
    let mut wire = vec![0u8; 70000];
    // e (32 bytes) and a cleartext payload filling the message exactly
    let mut init = NewBuilder::<NN, Initiator, X25519dh, ChaChaPoly, Sha256>::new().build().unwrap();
    match init.write_message(&vec![1u8; 65535 - 32], &mut wire).unwrap() {
        HandshakeResult::Continue { bytes } => assert_eq!(bytes, 65535),
        HandshakeResult::Complete { .. } => panic!("NN has two messages"),
    }
    // one byte more is refused
    let mut init = NewBuilder::<NN, Initiator, X25519dh, ChaChaPoly, Sha256>::new().build().unwrap();
    assert_eq!(
        init.write_message(&vec![1u8; 65535 - 31], &mut wire).err(),
        Some(NoiseError::InvalidInput("Noise message is too large."))
    );
}

/// An X448 keypair from `generate_keypair` has the unclamped product of its
/// scalar and the generator as public key, while `dh` clamps the scalar, so
/// two parties using generated X448 ephemerals derive different keys.
#[test]
fn x448_generated_ephemerals_disagree() {
    let mut init = NewBuilder::<NN, Initiator, X448dh, ChaChaPoly, Sha256>::new().build().unwrap();
    let mut resp = NewBuilder::<NN, Responder, X448dh, ChaChaPoly, Sha256>::new().build().unwrap();
    let mut wire = vec![0u8; 256];
    let mut payload = vec![0u8; 64];
    let n = match init.write_message(b"", &mut wire).unwrap() {
        HandshakeResult::Continue { bytes } => bytes,
        HandshakeResult::Complete { .. } => panic!("NN has two messages"),
    };
    resp.read_message(&wire[..n], &mut payload).unwrap();
    let n = match resp.write_message(b"reply", &mut wire).unwrap() {
        HandshakeResult::Complete { bytes_written, .. } => bytes_written,
        HandshakeResult::Continue { .. } => panic!("NN has two messages"),
    };
    assert_eq!(
        init.read_message(&wire[..n], &mut payload).err(),
        Some(NoiseError::InvalidInput("Couldn't decrypt the message"))
    );
}
