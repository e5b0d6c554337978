use nivalis::crypto::cipher::aesgcm::AesGcm;
use nivalis::crypto::cipher::chacha20::ChaChaPoly;
use nivalis::crypto::cipher::{Cipher, InternalCipherState};
use nivalis::crypto::dh::x25519::X25519dh;
use nivalis::crypto::dh::x448::X448dh;
use nivalis::crypto::dh::{DHKeypair, DH};
use nivalis::crypto::hash::blake2b::Blake2b;
use nivalis::crypto::hash::blake2s::Blake2s;
use nivalis::crypto::hash::sha256::Sha256;
use nivalis::crypto::hash::sha512::Sha512;
use nivalis::crypto::hash::{hkdf, hkdf2, hkdf3};
use nivalis::error::NoiseError;
use nivalis::state::cipher_state::CipherState;
use nivalis::state::symmetric_state::SymmetricState;
use nivalis::types::Psk;

fn hex(s: &str) -> Vec<u8> {
    (0..s.len()).step_by(2).map(|i| u8::from_str_radix(&s[i..i + 2], 16).unwrap()).collect()
}

fn digest<H: nivalis::crypto::hash::Hash>(data: &[u8]) -> Vec<u8> {
    H::hash(data)
}

fn hmac<H: nivalis::crypto::hash::Hash>(key: &[u8], data: &[u8]) -> Vec<u8> {
    H::hmac_hash(key, data)
}

#[test]
fn sha256_abc() {
    assert_eq!(
        digest::<Sha256>(b"abc"),
        hex("ba7816bf8f01cfea414140de5dae2223b00361a396177a9cb410ff61f20015ad")
    );
}

#[test]
fn sha512_abc() {
    assert_eq!(
        digest::<Sha512>(b"abc"),
        hex("ddaf35a193617abacc417349ae20413112e6fa4e89a97ea20a9eeee64b55d39a2192992a274fc1a836ba3c23a3feebbd454d4423643ce80e2a9ac94fa54ca49f")
    );
}

#[test]
fn blake2s_abc() {
    assert_eq!(
        digest::<Blake2s>(b"abc"),
        hex("508c5e8c327c14e2e1a72ba34eeb452f37458b209ed63a294d999b4c86675982")
    );
}

#[test]
fn blake2b_abc() {
    assert_eq!(
        digest::<Blake2b>(b"abc"),
        hex("ba80a53f981c4d0d6a2797b69f12f6e94c212f14685ac4b74b12bb6fdbffa2d17d87c5392aab792dc252d5de4533cc9518d38aa8dbf1925ab92386edd4009923")
    );
}

#[test]
fn hmac_sha256_rfc4231_case2() {
    assert_eq!(
        hmac::<Sha256>(b"Jefe", b"what do ya want for nothing?"),
        hex("5bdcc146bf60754e6a042426089575c75a003f089d2739839dec58b964ec3843")
    );
}

#[test]
fn hmac_long_key_is_hashed_first() {
    let long_key = vec![0xaau8; 131];
    let hashed = digest::<Sha256>(&long_key);
    assert_eq!(hmac::<Sha256>(&long_key, b"data"), hmac::<Sha256>(&hashed, b"data"));
}

#[test]
fn hkdf_outputs_follow_the_noise_definition() {
    let ck = vec![1u8; 32];
    let ikm = vec![2u8; 32];
    let temp = hmac::<Blake2s>(&ck, &ikm);
    let out1 = hmac::<Blake2s>(&temp, &[1u8]);
    let mut in2 = out1.clone();
    in2.push(2);
    let out2 = hmac::<Blake2s>(&temp, &in2);
    let mut in3 = out2.clone();
    in3.push(3);
    let out3 = hmac::<Blake2s>(&temp, &in3);
    assert_eq!(hkdf2::<Blake2s>(&ck, &ikm, 32), (out1.clone(), out2.clone()));
    assert_eq!(hkdf3::<Blake2s>(&ck, &ikm, 32), (out1.clone(), out2.clone(), out3.clone()));
    assert_eq!(hkdf::<Blake2s>(&ck, &ikm, 32, 3), vec![out1.clone(), out2.clone(), out3]);
    assert_eq!(hkdf::<Blake2s>(&ck, &ikm, 32, 2), vec![out1, out2]);
}

#[test]
fn x25519_rfc7748_keys_and_agreement() {
    let a_sk = hex("77076d0a7318a57d3c16c17251b26645df4c2f87ebc0992ab177fba51db92c2a");
    let b_sk = hex("5dab087e624a8a4b79e17f8b83800ee66f3bb1292618b6fd1c2f8b27ff88e0eb");
    let a = <X25519dh as DH>::Keypair::derive_keypair(&a_sk);
    let b = <X25519dh as DH>::Keypair::derive_keypair(&b_sk);
    assert_eq!(a.public(), hex("8520f0098930a754748b7ddcb43ef75a0dbf3a0d26381af4eba4a98eaa9b4e6a"));
    assert_eq!(b.public(), hex("de9edb7d7b7dc1b4d35b61c2ece435373f8343c85b78674dadfc7e146f882b4f"));
    let shared = hex("4a5d9d5ba4ce2de1728e3bf480350f25e07e21c947d19e3376f09b3c1e161742");
    assert_eq!(X25519dh::dh(a.private(), &b.public()), shared);
    assert_eq!(X25519dh::dh(b.private(), &a.public()), shared);
}

#[test]
fn x448_agreement() {
    let a = <X448dh as DH>::Keypair::derive_keypair(&[5u8; 56]);
    let b = <X448dh as DH>::Keypair::derive_keypair(&[9u8; 56]);
    assert_ne!(a.public(), a.private().to_vec());
    let ab = X448dh::dh(a.private(), &b.public());
    let ba = X448dh::dh(b.private(), &a.public());
    assert_eq!(ab, ba);
    assert_eq!(ab.len(), 56);
}

#[test]
fn generated_keypairs_differ() {
    let a = X25519dh::generate_keypair().unwrap();
    let b = X25519dh::generate_keypair().unwrap();
    assert_ne!(a.private(), b.private());
    assert_eq!(a.public(), <X25519dh as DH>::Keypair::derive_keypair(a.private()).public());
    let c = X448dh::generate_keypair().unwrap();
    let d = X448dh::generate_keypair().unwrap();
    assert_ne!(c.private(), d.private());
    assert_ne!(c.public(), c.private().to_vec());
    assert_eq!(c.pubkey_bytes().len(), 56);
}

#[test]
fn key_parsing_checks_lengths() {
    assert!(X25519dh::pubkey_from_bytes(&[0u8; 32]).is_ok());
    assert!(matches!(X25519dh::pubkey_from_bytes(&[0u8; 31]), Err(NoiseError::ConversionError(_))));
    assert!(matches!(X448dh::privkey_from_bytes(&[0u8; 32]), Err(NoiseError::ConversionError(_))));
    assert_eq!(X448dh::privkey_from_bytes(&[4u8; 56]), Ok(vec![4u8; 56]));
}

fn cipher_roundtrip<C: Cipher>() {
    let key = [0x42u8; 32];
    let mut sender = CipherState::<C>::initialize_key(Some(&key));
    let mut receiver = CipherState::<C>::initialize_key(Some(&key));
    let pt = b"attack at dawn";
    let mut ct = vec![0u8; pt.len() + 16];
    let n = sender.encrypt_with_ad(b"ad", pt, &mut ct).unwrap();
    assert_eq!(n, pt.len() + 16);
    assert_ne!(&ct[..pt.len()], &pt[..]);
    let mut out = vec![0u8; pt.len()];
    receiver.decrypt_with_ad(b"ad", &ct, &mut out).unwrap();
    assert_eq!(&out, pt);

    // a second message uses the next nonce on both sides
    let mut ct2 = vec![0u8; pt.len() + 16];
    sender.encrypt_with_ad(b"ad", pt, &mut ct2).unwrap();
    assert_ne!(ct, ct2);
    receiver.decrypt_with_ad(b"ad", &ct2, &mut out).unwrap();
    assert_eq!(&out, pt);

    // tampering is detected and the nonce is not consumed
    let mut ct3 = vec![0u8; pt.len() + 16];
    sender.encrypt_with_ad(b"", pt, &mut ct3).unwrap();
    ct3[0] ^= 1;
    assert_eq!(
        receiver.decrypt_with_ad(b"", &ct3, &mut out),
        Err(NoiseError::InvalidInput("Couldn't decrypt the message"))
    );
    ct3[0] ^= 1;
    receiver.decrypt_with_ad(b"", &ct3, &mut out).unwrap();
    assert_eq!(&out, pt);
}

#[test]
fn aesgcm_roundtrip() {
    cipher_roundtrip::<AesGcm>();
}

#[test]
fn chachapoly_roundtrip() {
    cipher_roundtrip::<ChaChaPoly>();
}

fn cipher_edge_cases<C: Cipher>() {
    // without a cipher state the plaintext is copied as it is
    let mut none = CipherState::<C>::initialize_key(None);
    assert!(!none.has_key());
    let mut buf = vec![0u8; 4];
    assert_eq!(none.encrypt_with_ad(b"", b"abc", &mut buf), Ok(3));
    assert_eq!(&buf, &[b'a', b'b', b'c', 0]);
    assert_eq!(
        none.rekey(),
        Err(NoiseError::Rekey("Cannot rekey a k that isn't set."))
    );

    // without a cipher state a ciphertext longer than the buffer is refused
    let mut small = vec![0u8; 2];
    assert_eq!(
        none.decrypt_with_ad(b"", b"abc", &mut small),
        Err(NoiseError::InvalidInput("Couldn't decrypt the message"))
    );
    assert_eq!(small, vec![0u8; 2]);

    // 2^64 - 2 is the last nonce that can be used
    let mut cs = CipherState::<C>::initialize_key(Some(&[1u8; 32]));
    let mut rx = CipherState::<C>::initialize_key(Some(&[1u8; 32]));
    cs.set_nonce(u64::MAX - 1);
    rx.set_nonce(u64::MAX - 1);
    let mut out = vec![0u8; 32];
    assert_eq!(cs.encrypt_with_ad(b"", b"x", &mut out), Ok(17));
    let mut plain = vec![0u8; 1];
    assert_eq!(rx.decrypt_with_ad(b"", &out[..17], &mut plain), Ok(()));
    assert_eq!(plain, b"x");
    assert_eq!(cs.encrypt_with_ad(b"", b"x", &mut out), Err(NoiseError::MaxNValue));
    assert_eq!(rx.decrypt_with_ad(b"", &[0u8; 17], &mut out), Err(NoiseError::MaxNValue));

    // a buffer too small for the tag is refused
    let mut cs = CipherState::<C>::initialize_key(Some(&[1u8; 32]));
    let mut small = vec![0u8; 16];
    assert_eq!(
        cs.encrypt_with_ad(b"", b"x", &mut small),
        Err(NoiseError::InvalidInput("Couldn't encrypt the message"))
    );

    // a cipher state without a key is not rotated into one
    let mut empty = C::State::empty();
    assert!(empty.rekey().is_err());
    assert!(!empty.has_key());
    let mut keyless = CipherState::<C>::from_parts(Some(C::State::empty()), 5);
    assert_eq!(
        keyless.rekey(),
        Err(NoiseError::Rekey("Cannot rekey a k that isn't set."))
    );
    let (k, n) = keyless.into_parts();
    assert!(!k.unwrap().has_key());
    assert_eq!(n, 5);

    // rekey changes the key on both sides alike
    let mut a = CipherState::<C>::initialize_key(Some(&[3u8; 32]));
    let mut b = CipherState::<C>::initialize_key(Some(&[3u8; 32]));
    a.rekey().unwrap();
    let mut ct = vec![0u8; 17];
    a.encrypt_with_ad(b"", b"z", &mut ct).unwrap();
    let mut out = vec![0u8; 1];
    assert!(b.decrypt_with_ad(b"", &ct, &mut out).is_err());
    b.rekey().unwrap();
    b.decrypt_with_ad(b"", &ct, &mut out).unwrap();
    assert_eq!(out, b"z");

    // into_parts and from_parts give back the same state
    let (k, n) = a.into_parts();
    assert_eq!(n, 1);
    let mut c = CipherState::<C>::from_parts(k, n);
    let mut ct2 = vec![0u8; 17];
    c.encrypt_with_ad(b"", b"z", &mut ct2).unwrap();
    b.decrypt_with_ad(b"", &ct2, &mut out).unwrap();
    assert_eq!(out, b"z");
}

/// The ciphertext is the plaintext XOR-ed with a keystream of the key and
/// nonce, and the tag also covers the associated data.
fn keystream_and_tag<C: Cipher>() {
    let p1 = b"first plaintext!";
    let p2 = b"other plaintext?";
    let mut a = CipherState::<C>::initialize_key(Some(&[7u8; 32]));
    let mut b = CipherState::<C>::initialize_key(Some(&[7u8; 32]));
    let mut c = CipherState::<C>::initialize_key(Some(&[7u8; 32]));
    let mut c1 = vec![0u8; 32];
    let mut c2 = vec![0u8; 32];
    let mut c3 = vec![0u8; 32];
    assert_eq!(a.encrypt_with_ad(b"ad", p1, &mut c1), Ok(32));
    assert_eq!(b.encrypt_with_ad(b"ad", p2, &mut c2), Ok(32));
    assert_eq!(c.encrypt_with_ad(b"xy", p1, &mut c3), Ok(32));
    for i in 0..16 {
        assert_eq!(c1[i] ^ p1[i], c2[i] ^ p2[i]);
    }
    assert_eq!(&c3[..16], &c1[..16]);
    assert_ne!(&c3[16..], &c1[16..]);
}

#[test]
fn aesgcm_keystream_and_tag() {
    keystream_and_tag::<AesGcm>();
}

#[test]
fn chachapoly_keystream_and_tag() {
    keystream_and_tag::<ChaChaPoly>();
}

#[test]
fn aesgcm_edge_cases() {
    cipher_edge_cases::<AesGcm>();
}

#[test]
fn chachapoly_edge_cases() {
    cipher_edge_cases::<ChaChaPoly>();
}

#[test]
fn symmetric_state_names_and_split() {
    let short = b"Noise_NN_25519_ChaChaPoly_SHA256";
    let mut st = SymmetricState::<ChaChaPoly, Sha256>::initialize_symmetric(short);
    assert_eq!(st.get_handshake_hash(), Err(NoiseError::InvalidState("GetHandshakeHash() called before Split()")));
    assert!(!st.has_key());
    st.mix_hash(b"prologue");
    st.mix_key::<X25519dh>(&[7u8; 32]);
    assert!(st.has_key());
    let mut ct = vec![0u8; 64];
    let n = st.encrypt_and_hash(b"hello", &mut ct).unwrap();
    assert_eq!(n, 5 + 16);
    let (mut c1, _c2) = st.split::<X25519dh>();
    assert_eq!(st.get_handshake_hash().unwrap().len(), 32);

    // the same steps on the reading side give the same state
    let mut other = SymmetricState::<ChaChaPoly, Sha256>::initialize_symmetric(short);
    other.mix_hash(b"prologue");
    other.mix_key::<X25519dh>(&[7u8; 32]);
    let mut pt = vec![0u8; 5];
    other.decrypt_and_hash(&ct[..n], &mut pt).unwrap();
    assert_eq!(&pt, b"hello");
    let (mut d1, _d2) = other.split::<X25519dh>();
    assert_eq!(st.get_handshake_hash(), other.get_handshake_hash());
    let mut t = vec![0u8; 18];
    c1.encrypt_with_ad(b"", b"ok", &mut t).unwrap();
    let mut back = vec![0u8; 2];
    d1.decrypt_with_ad(b"", &t, &mut back).unwrap();
    assert_eq!(back, b"ok");
}

#[test]
fn long_protocol_name_is_hashed() {
    let name = b"Noise_XXpsk3_448_ChaChaPoly_BLAKE2s";
    assert!(name.len() > 32);
    let mut a = SymmetricState::<ChaChaPoly, Blake2s>::initialize_symmetric(name);
    let mut b = SymmetricState::<ChaChaPoly, Blake2s>::initialize_symmetric(name);
    a.mix_key_and_hash::<X448dh>(&Psk([1u8; 32]).as_bytes().to_vec());
    b.mix_key_and_hash::<X448dh>(&[1u8; 32]);
    a.split::<X448dh>();
    b.split::<X448dh>();
    assert_eq!(a.get_handshake_hash(), b.get_handshake_hash());
}

#[test]
fn cipher_names() {
    assert_eq!(AesGcm::name(), "AESGCM");
    assert_eq!(ChaChaPoly::name(), "ChaChaPoly");
    assert_eq!(X25519dh::name(), "25519");
    assert_eq!(X448dh::name(), "448");
    assert_eq!(X25519dh::dhlen(), 32);
    assert_eq!(X448dh::dhlen(), 56);
}
