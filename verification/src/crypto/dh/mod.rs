//! Traits implemented by the DH algorithms.

use vstd::prelude::*;

use crate::error::NoiseError;

pub mod x25519;
pub mod x448;

verus! {

/// Fills `buf` with bytes from the operating system's random number
/// generator by calling `getrandom::fill`. Returns `false` when the
/// generator fails. The contract claims only that the length of `buf` is
/// kept: its content is chance.
#[verifier::external_body]
pub(crate) fn fill_random(buf: &mut [u8]) -> (r: bool)
    ensures
        final(buf)@.len() == old(buf)@.len(),
{
    getrandom::fill(buf).is_ok()
}

/// A DH keypair.
///
/// See [`x25519`] and [`x448`] for the two DH functions provided by this
/// crate.
pub trait DHKeypair: Sized {
    /// The length in bytes of the keys.
    spec fn spec_key_len() -> nat;

    /// The public key of this keypair.
    spec fn spec_public(&self) -> Seq<u8>;

    /// The private key of this keypair.
    spec fn spec_private(&self) -> Seq<u8>;

    /// The public key that belongs to the private key `sk`.
    spec fn spec_derive_public(sk: Seq<u8>) -> Seq<u8>;

    /// Both keys have the key length.
    proof fn lemma_key_lengths(&self)
        ensures
            self.spec_public().len() == Self::spec_key_len(),
            self.spec_private().len() == Self::spec_key_len(),
    ;

    /// Returns the public key for this keypair.
    fn public(&self) -> (r: Vec<u8>)
        ensures
            r@ == self.spec_public(),
    ;

    /// Returns a reference to the private key for this keypair.
    fn private(&self) -> (r: &[u8])
        ensures
            r@ == self.spec_private(),
    ;

    /// Returns the public key encoded as bytes.
    fn pubkey_bytes(&self) -> (r: Vec<u8>)
        ensures
            r@ == self.spec_public(),
    ;

    /// Derives a keypair from an existing private key.
    fn derive_keypair(sk: &[u8]) -> (r: Self)
        requires
            sk@.len() == Self::spec_key_len(),
        ensures
            r.spec_private() == sk@,
            r.spec_public() == Self::spec_derive_public(sk@),
    ;
}

/// A Noise `DH` function.
///
/// See [`x25519`] and [`x448`] for the two DH functions provided by this
/// crate.
pub trait DH {
    /// The keypair type associated with the function.
    type Keypair: DHKeypair;

    /// The length in bytes of public keys and DH outputs.
    spec fn spec_dhlen() -> nat;

    /// The Noise protocol name for this DH function.
    spec fn spec_name() -> Seq<char>;

    /// The shared secret of the private key `sk` and the public key `pk`,
    /// or `None` when the function refuses `pk` (a DH with it panics).
    spec fn spec_dh(sk: Seq<u8>, pk: Seq<u8>) -> Option<Seq<u8>>;

    /// What holds of every keypair that [`generate_keypair`](Self::generate_keypair)
    /// returns.
    spec fn spec_generated(kp: Self::Keypair) -> bool;

    /// The lengths are those of X25519 or X448.
    proof fn lemma_lengths()
        ensures
            Self::spec_dhlen() == 32 || Self::spec_dhlen() == 56,
            <Self::Keypair as DHKeypair>::spec_key_len() == Self::spec_dhlen(),
    ;

    /// The length in bytes of the DH output for this algorithm (32 for
    /// X25519 and 56 for X448).
    fn dhlen() -> (r: usize)
        ensures
            r == Self::spec_dhlen(),
    ;

    /// The Noise protocol name for this DH function, used to build the
    /// protocol name string.
    fn name() -> (r: &'static str)
        ensures
            r@ == Self::spec_name(),
    ;

    /// Parses a private key from its byte encoding.
    ///
    /// Returns [`NoiseError::ConversionError`] if `bytes` doesn't have the
    /// key length.
    fn privkey_from_bytes(bytes: &[u8]) -> (r: Result<Vec<u8>, NoiseError>)
        ensures
            r is Ok <==> bytes@.len() == Self::spec_dhlen(),
            r matches Ok(k) ==> k@ == bytes@,
            r matches Err(e) ==> e is ConversionError,
    ;

    /// Parses a public key from its byte encoding.
    ///
    /// Returns [`NoiseError::ConversionError`] if `bytes` doesn't have the
    /// key length.
    fn pubkey_from_bytes(bytes: &[u8]) -> (r: Result<Vec<u8>, NoiseError>)
        ensures
            r is Ok <==> bytes@.len() == Self::spec_dhlen(),
            r matches Ok(k) ==> k@ == bytes@,
            r matches Err(e) ==> e is ConversionError,
    ;

    /// Returns the public key encoded as bytes.
    fn pubkey_bytes(pk: &[u8]) -> (r: Vec<u8>)
        ensures
            r@ == pk@,
    ;

    /// Generates a new random keypair from the operating system's random
    /// number generator; `None` when the generator fails.
    fn generate_keypair() -> (r: Option<Self::Keypair>)
        ensures
            r matches Some(kp) ==> Self::spec_generated(kp),
    ;

    /// Returns `true` when the function accepts `pk` as a remote public key:
    /// a DH with it succeeds (does not panic) whatever the private key.
    fn accepts_public_key(pk: &[u8]) -> (r: bool)
        requires
            pk@.len() == Self::spec_dhlen(),
        ensures
            r <==> forall|sk: Seq<u8>| #[trigger] Self::spec_dh(sk, pk@) is Some,
    ;

    /// Performs a DH between the local private key and a remote public key
    /// that the function accepts.
    ///
    /// Both parties agree on the result: when `pk` is the public key of some
    /// private key `b` and the function accepts the public key of `sk`, the
    /// owner of `b` computes the same secret from the public key of `sk`.
    fn dh(sk: &[u8], pk: &[u8]) -> (r: Vec<u8>)
        requires
            sk@.len() == Self::spec_dhlen(),
            pk@.len() == Self::spec_dhlen(),
            Self::spec_dh(sk@, pk@) is Some,
        ensures
            Self::spec_dh(sk@, pk@) == Some(r@),
            r@.len() == Self::spec_dhlen(),
            forall|b: Seq<u8>|
                b.len() == Self::spec_dhlen() && pk@
                    == #[trigger] <Self::Keypair as DHKeypair>::spec_derive_public(b)
                    && Self::spec_dh(b, <Self::Keypair as DHKeypair>::spec_derive_public(b)) is Some
                    && Self::spec_dh(sk@, <Self::Keypair as DHKeypair>::spec_derive_public(sk@)) is Some
                    ==> Self::spec_dh(b, <Self::Keypair as DHKeypair>::spec_derive_public(sk@))
                    == Some(r@),
    ;
}

/// Copies a slice of `N` bytes into an array.
pub(crate) fn bytes_to_array<const N: usize>(bytes: &[u8]) -> (r: [u8; N])
    requires
        bytes@.len() == N,
    ensures
        r@ == bytes@,
{
    let mut arr = [0u8; N];
    let mut i: usize = 0;
    while i < N
        invariant
            bytes@.len() == N,
            0 <= i <= N,
            arr@.len() == N,
            forall|k: int| 0 <= k < i ==> #[trigger] arr@[k] == bytes@[k],
        decreases N - i,
    {
        arr[i] = bytes[i];
        i += 1;
    }
    assert(arr@ =~= bytes@);
    arr
}

/// Copies an array into a new vector.
pub(crate) fn array_to_vec<const N: usize>(arr: &[u8; N]) -> (r: Vec<u8>)
    ensures
        r@ == arr@,
{
    let mut v: Vec<u8> = Vec::with_capacity(N);
    v.extend_from_slice(arr.as_slice());
    assert(v@ =~= arr@);
    v
}

} // verus!
