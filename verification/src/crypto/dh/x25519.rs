//! X25519 implementation of the DH and DHKeypair traits

use vstd::prelude::*;
use x25519_dalek::{PublicKey, StaticSecret};

use crate::crypto::dh::{array_to_vec, bytes_to_array, fill_random, DHKeypair, DH};
use crate::error::NoiseError;

verus! {

/// The X25519 public key of the private key `sk`, as computed by
/// `x25519_dalek::PublicKey::from(&StaticSecret)`.
pub uninterp spec fn x25519_public_key(sk: Seq<u8>) -> Seq<u8>;

/// The X25519 shared secret of the private key `sk` and the public key
/// `pk`, as computed by `x25519_dalek::StaticSecret::diffie_hellman`.
pub uninterp spec fn x25519_shared_secret(sk: Seq<u8>, pk: Seq<u8>) -> Seq<u8>;

/// Calls `x25519_dalek::PublicKey::from` on the `StaticSecret` made of
/// `sk`; the contract claims that the result is the key named by
/// [`x25519_public_key`].
#[verifier::external_body]
fn x25519_public(sk: &[u8; 32]) -> (r: [u8; 32])
    ensures
        r@ == x25519_public_key(sk@),
{
    PublicKey::from(&StaticSecret::from(*sk)).to_bytes()
}

/// Calls `x25519_dalek::StaticSecret::diffie_hellman` with the secret made
/// of `sk` and the public key made of `pk`. The contract claims that the
/// result is the secret named by [`x25519_shared_secret`], and that both
/// parties agree on it: when `pk` is the public key of some private key
/// `b`, the owner of `b` computes the same secret from the public key of
/// `sk` (the property of X25519 that the crate's documentation shows).
#[verifier::external_body]
fn x25519_shared(sk: &[u8; 32], pk: &[u8; 32]) -> (r: [u8; 32])
    ensures
        r@ == x25519_shared_secret(sk@, pk@),
        forall|b: Seq<u8>|
            b.len() == 32 && pk@ == #[trigger] x25519_public_key(b) ==> r@ == x25519_shared_secret(
                b,
                x25519_public_key(sk@),
            ),
{
    StaticSecret::from(*sk).diffie_hellman(&PublicKey::from(*pk)).to_bytes()
}

/// An X25519 keypair.
pub struct X25519Keys {
    /// The public key.
    pub public: [u8; 32],
    private: [u8; 32],
}

impl DHKeypair for X25519Keys {
    open spec fn spec_key_len() -> nat {
        32
    }

    closed spec fn spec_public(&self) -> Seq<u8> {
        self.public@
    }

    closed spec fn spec_private(&self) -> Seq<u8> {
        self.private@
    }

    open spec fn spec_derive_public(sk: Seq<u8>) -> Seq<u8> {
        x25519_public_key(sk)
    }

    proof fn lemma_key_lengths(&self) {
    }

    fn public(&self) -> (r: Vec<u8>) {
        array_to_vec(&self.public)
    }

    fn private(&self) -> (r: &[u8]) {
        self.private.as_slice()
    }

    fn pubkey_bytes(&self) -> (r: Vec<u8>) {
        array_to_vec(&self.public)
    }

    fn derive_keypair(sk: &[u8]) -> (r: Self) {
        let private: [u8; 32] = bytes_to_array(sk);
        let public = x25519_public(&private);
        Self { private, public }
    }
}

/// X25519 implementation of the Noise [`DH`] trait (RFC 7748).
pub struct X25519dh;

impl DH for X25519dh {
    type Keypair = X25519Keys;

    open spec fn spec_dhlen() -> nat {
        32
    }

    open spec fn spec_name() -> Seq<char> {
        "25519"@
    }

    open spec fn spec_dh(sk: Seq<u8>, pk: Seq<u8>) -> Option<Seq<u8>> {
        Some(x25519_shared_secret(sk, pk))
    }

    open spec fn spec_generated(kp: X25519Keys) -> bool {
        kp.spec_public() == x25519_public_key(kp.spec_private())
    }

    proof fn lemma_lengths() {
    }

    fn dhlen() -> (r: usize) {
        32
    }

    fn name() -> (r: &'static str) {
        "25519"
    }

    fn privkey_from_bytes(bytes: &[u8]) -> (r: Result<Vec<u8>, NoiseError>) {
        if bytes.len() != 32 {
            return Err(NoiseError::ConversionError("private key has wrong length for X25519"));
        }
        let mut v: Vec<u8> = Vec::with_capacity(32);
        v.extend_from_slice(bytes);
        assert(v@ =~= bytes@);
        Ok(v)
    }

    fn pubkey_from_bytes(bytes: &[u8]) -> (r: Result<Vec<u8>, NoiseError>) {
        if bytes.len() != 32 {
            return Err(NoiseError::ConversionError("public key has wrong length for X25519"));
        }
        let mut v: Vec<u8> = Vec::with_capacity(32);
        v.extend_from_slice(bytes);
        assert(v@ =~= bytes@);
        Ok(v)
    }

    fn pubkey_bytes(pk: &[u8]) -> (r: Vec<u8>) {
        let mut v: Vec<u8> = Vec::with_capacity(pk.len());
        v.extend_from_slice(pk);
        assert(v@ =~= pk@);
        v
    }

    fn generate_keypair() -> (r: Option<Self::Keypair>) {
        let mut bytes: Vec<u8> = vec![0u8; 32];
        if !fill_random(bytes.as_mut_slice()) {
            return None;
        }
        Some(X25519Keys::derive_keypair(bytes.as_slice()))
    }

    /// Every 32-byte public key is accepted.
    fn accepts_public_key(pk: &[u8]) -> (r: bool) {
        true
    }

    fn dh(sk: &[u8], pk: &[u8]) -> (r: Vec<u8>) {
        let sk_arr: [u8; 32] = bytes_to_array(sk);
        let pk_arr: [u8; 32] = bytes_to_array(pk);
        let shared = x25519_shared(&sk_arr, &pk_arr);
        array_to_vec(&shared)
    }
}

} // verus!
