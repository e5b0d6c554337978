//! Traits implemented by the AEAD algorithms.

use vstd::prelude::*;

pub mod aesgcm;
pub mod chacha20;

verus! {

/// The error type of the AEAD crates (`aead::Error`, shared by `aes_gcm`
/// and `chacha20poly1305`).
#[verifier::external_type_specification]
#[verifier::external_body]
pub struct ExAeadError(aes_gcm::aead::Error);

/// The failure of an AEAD operation: the output buffer is too small, the
/// input exceeds the limits of the algorithm, or authentication failed.
#[derive(Debug, Clone, Copy, PartialEq, Eq)]
pub struct AeadError;

/// `n` as 8 big-endian bytes.
pub open spec fn u64_be_bytes(n: u64) -> Seq<u8> {
    Seq::new(8, |i: int| ((n >> (8 * (7 - i)) as u64) & 0xffu64) as u8)
}

/// `n` as 8 little-endian bytes.
pub open spec fn u64_le_bytes(n: u64) -> Seq<u8> {
    Seq::new(8, |i: int| ((n >> (8 * i) as u64) & 0xffu64) as u8)
}

/// Four zero bytes followed by the big-endian encoding of `n`.
pub(crate) fn nonce_be(n: u64) -> (r: [u8; 12])
    ensures
        r@ == seq![0u8, 0u8, 0u8, 0u8] + u64_be_bytes(n),
{
    let mut nonce = [0u8; 12];
    let mut i: usize = 0;
    while i < 8
        invariant
            0 <= i <= 8,
            nonce@.len() == 12,
            forall|k: int| 0 <= k < 4 ==> nonce@[k] == 0u8,
            forall|k: int| 4 <= k < 4 + i ==> #[trigger] nonce@[k] == u64_be_bytes(n)[k - 4],
        decreases 8 - i,
    {
        let shift: u64 = 8 * (7 - i as u64);
        nonce[4 + i] = ((n >> shift) & 0xffu64) as u8;
        i += 1;
    }
    assert(nonce@ =~= seq![0u8, 0u8, 0u8, 0u8] + u64_be_bytes(n));
    nonce
}

/// Four zero bytes followed by the little-endian encoding of `n`.
pub(crate) fn nonce_le(n: u64) -> (r: [u8; 12])
    ensures
        r@ == seq![0u8, 0u8, 0u8, 0u8] + u64_le_bytes(n),
{
    let mut nonce = [0u8; 12];
    let mut i: usize = 0;
    while i < 8
        invariant
            0 <= i <= 8,
            nonce@.len() == 12,
            forall|k: int| 0 <= k < 4 ==> nonce@[k] == 0u8,
            forall|k: int| 4 <= k < 4 + i ==> #[trigger] nonce@[k] == u64_le_bytes(n)[k - 4],
        decreases 8 - i,
    {
        let shift: u64 = 8 * i as u64;
        nonce[4 + i] = ((n >> shift) & 0xffu64) as u8;
        i += 1;
    }
    assert(nonce@ =~= seq![0u8, 0u8, 0u8, 0u8] + u64_le_bytes(n));
    nonce
}

/// `data` with each byte XOR-ed with the byte of `stream` at the same
/// index: what a stream cipher does to the data with its keystream.
pub open spec fn xor_stream(data: Seq<u8>, stream: Seq<u8>) -> Seq<u8> {
    Seq::new(data.len(), |i: int| data[i] ^ stream[i])
}

/// The first 16 bytes of `t`: an authentication tag.
pub open spec fn tag_bytes(t: Seq<u8>) -> Seq<u8> {
    Seq::new(16, |i: int| t[i])
}

/// XOR-ing the data twice with the same stream gives the data back.
pub proof fn lemma_xor_stream_twice(data: Seq<u8>, stream: Seq<u8>)
    ensures
        xor_stream(xor_stream(data, stream), stream) == data,
{
    assert forall|i: int| 0 <= i < data.len() implies #[trigger] xor_stream(
        xor_stream(data, stream),
        stream,
    )[i] == data[i] by {
        let a = data[i];
        let b = stream[i];
        assert((a ^ b) ^ b == a) by (bit_vector);
    }
    assert(xor_stream(xor_stream(data, stream), stream) =~= data);
}

/// The ciphertext `body` followed by its authentication `tag`.
pub(crate) fn join_tag(body: Vec<u8>, tag: &[u8; 16]) -> (r: Vec<u8>)
    ensures
        r@ == body@ + tag@,
{
    let mut out = body;
    out.extend_from_slice(tag.as_slice());
    out
}

/// The last 16 bytes of `ct`, the authentication tag.
pub(crate) fn tag_of(ct: &[u8]) -> (r: [u8; 16])
    requires
        ct@.len() >= 16,
    ensures
        r@ == ct@.skip(ct@.len() - 16),
{
    let len = ct.len();
    let start = len - 16;
    let mut tag = [0u8; 16];
    let mut i: usize = 0;
    while i < 16
        invariant
            ct@.len() >= 16,
            len == ct@.len(),
            start == ct@.len() - 16,
            0 <= i <= 16,
            tag@.len() == 16,
            forall|k: int| 0 <= k < i ==> #[trigger] tag@[k] == ct@[start + k],
        decreases 16 - i,
    {
        tag[i] = ct[start + i];
        i += 1;
    }
    assert(tag@ =~= ct@.skip(ct@.len() - 16));
    tag
}

/// Writes `src` into `dst` from index 0, leaving the rest of `dst`
/// unchanged.
pub(crate) fn copy_prefix(dst: &mut [u8], src: &[u8])
    requires
        src@.len() <= old(dst)@.len(),
    ensures
        final(dst)@ == src@ + old(dst)@.skip(src@.len() as int),
{
    let mut i: usize = 0;
    while i < src.len()
        invariant
            src@.len() <= dst@.len(),
            dst@.len() == old(dst)@.len(),
            0 <= i <= src@.len(),
            forall|k: int| 0 <= k < i ==> #[trigger] dst@[k] == src@[k],
            forall|k: int| i <= k < dst@.len() ==> #[trigger] dst@[k] == old(dst)@[k],
        decreases src@.len() - i,
    {
        dst[i] = src[i];
        i += 1;
    }
    assert(dst@ =~= src@ + old(dst)@.skip(src@.len() as int));
}

/// A Noise cipher function: identifies the AEAD algorithm and produces its
/// [`InternalCipherState`].
///
/// See [`aesgcm::AesGcm`] and [`chacha20::ChaChaPoly`] for the two
/// implementations provided by this crate.
pub trait Cipher {
    /// The session state type produced by [`init`](Self::init), which
    /// performs the encryption/decryption.
    type State: InternalCipherState;

    /// The Noise protocol name for this cipher.
    spec fn spec_name() -> Seq<char>;

    /// The Noise protocol name for this cipher (ex: "AESGCM",
    /// "ChaChaPoly"), used to build the protocol name string.
    fn name() -> (r: &'static str)
        ensures
            r@ == Self::spec_name(),
    ;

    /// Initializes the cipher state from a raw 256-bit encryption key.
    fn init(key: &[u8; 32]) -> (r: Self::State)
        ensures
            r.key_view() == Some(key@),
    ;
}

/// The AEAD of `S` decrypts what it encrypts: for every key, nonce and
/// associated data, the ciphertext of a plaintext that the algorithm
/// accepts is 16 bytes longer and authenticates back to that plaintext
/// (proved of the two ciphers of this crate by
/// [`aesgcm::lemma_aesgcm_opens_sealed`] and
/// [`chacha20::lemma_chachapoly_opens_sealed`]).
pub open spec fn aead_opens_sealed<S: InternalCipherState>() -> bool {
    forall|key: Seq<u8>, n: u64, ad: Seq<u8>, pt: Seq<u8>|
        !S::spec_too_long(pt.len(), ad.len()) ==> {
            &&& (#[trigger] S::spec_seal(key, n, ad, pt)).len() == pt.len() + 16
            &&& S::spec_open(key, n, ad, S::spec_seal(key, n, ad, pt)) == Some(pt)
        }
}

/// The state of an AEAD cipher: an optional 256-bit key.
pub trait InternalCipherState: Sized {
    /// The key held, if any.
    spec fn key_view(&self) -> Option<Seq<u8>>;

    /// The 12-byte AEAD nonce for the Noise nonce counter `n`.
    spec fn spec_nonce(n: u64) -> Seq<u8>;

    /// Ciphertext followed by the tag, for `plaintext` under `key`, nonce
    /// counter `n` and associated data `ad`.
    spec fn spec_seal(key: Seq<u8>, n: u64, ad: Seq<u8>, plaintext: Seq<u8>) -> Seq<u8>;

    /// The plaintext of `ciphertext` (ciphertext followed by the tag) under
    /// `key`, nonce counter `n` and associated data `ad`, or `None` when
    /// authentication fails.
    spec fn spec_open(key: Seq<u8>, n: u64, ad: Seq<u8>, ciphertext: Seq<u8>) -> Option<Seq<u8>>;

    /// The algorithm refuses to encrypt a plaintext of `pt_len` bytes with
    /// `ad_len` bytes of associated data.
    spec fn spec_too_long(pt_len: nat, ad_len: nat) -> bool;

    /// The key that a rekey of the key `key` produces.
    spec fn spec_rekey(key: Seq<u8>) -> Seq<u8>;

    /// Converts the 64-bit Noise nonce counter into the 96-bit nonce of the
    /// AEAD (see sections 12.3 and 12.4 of the Noise specification).
    fn convert_nonce(n: u64) -> (r: [u8; 12])
        ensures
            r@ == Self::spec_nonce(n),
    ;

    /// Returns an empty cipher state with no key set.
    fn empty() -> (r: Self)
        ensures
            r.key_view() is None,
    ;

    /// Returns `true` if an encryption key has been set.
    fn has_key(&self) -> (r: bool)
        ensures
            r == self.key_view() is Some,
    ;

    /// Encrypts `pt_buf` into `buf`, appends the authentication tag and
    /// returns the number of bytes written (plaintext length + 16).
    ///
    /// Without a key, nothing is encrypted: `buf` is left unmodified and the
    /// plaintext length is returned. With a key, a `buf` shorter than the
    /// plaintext plus the tag is refused; when the algorithm refuses the
    /// input, `buf` holds a copy of the plaintext.
    fn encrypt(&self, n: u64, ad: &[u8], pt_buf: &[u8], buf: &mut [u8]) -> (r: Result<
        usize,
        AeadError,
    >)
        ensures
            match self.key_view() {
                None => r == Ok::<usize, AeadError>(pt_buf@.len() as usize) && final(buf)@ == old(
                    buf,
                )@,
                Some(k) => if old(buf)@.len() < pt_buf@.len() + 16 {
                    r is Err && final(buf)@ == old(buf)@
                } else if Self::spec_too_long(pt_buf@.len(), ad@.len()) {
                    r is Err && final(buf)@ == pt_buf@ + old(buf)@.skip(pt_buf@.len() as int)
                } else {
                    &&& r == Ok::<usize, AeadError>((pt_buf@.len() + 16) as usize)
                    &&& Self::spec_seal(k, n, ad@, pt_buf@).len() == pt_buf@.len() + 16
                    &&& final(buf)@ == Self::spec_seal(k, n, ad@, pt_buf@) + old(buf)@.skip(
                        pt_buf@.len() + 16int,
                    )
                    &&& Self::spec_open(k, n, ad@, Self::spec_seal(k, n, ad@, pt_buf@)) == Some(
                        pt_buf@,
                    )
                },
            },
    ;

    /// Authenticates and decrypts `ct_buf` (ciphertext followed by the tag)
    /// into `buf`.
    ///
    /// Without a key, nothing is decrypted or checked and `buf` is left
    /// unmodified. With a key, a ciphertext shorter than the tag or a `buf`
    /// shorter than the plaintext is refused; when authentication fails,
    /// `buf` holds a copy of the ciphertext without its tag.
    fn decrypt(&self, n: u64, ad: &[u8], ct_buf: &[u8], buf: &mut [u8]) -> (r: Result<
        (),
        AeadError,
    >)
        ensures
            match self.key_view() {
                None => r is Ok && final(buf)@ == old(buf)@,
                Some(k) => if ct_buf@.len() < 16 || old(buf)@.len() < ct_buf@.len() - 16 {
                    r is Err && final(buf)@ == old(buf)@
                } else {
                    match Self::spec_open(k, n, ad@, ct_buf@) {
                        Some(p) => {
                            &&& r is Ok
                            &&& p.len() == ct_buf@.len() - 16
                            &&& final(buf)@ == p + old(buf)@.skip(p.len() as int)
                        },
                        None => {
                            &&& r is Err
                            &&& final(buf)@ == ct_buf@.take(ct_buf@.len() - 16) + old(buf)@.skip(
                                ct_buf@.len() - 16,
                            )
                        },
                    }
                },
            },
    ;

    /// Rotates the current key: encrypts 32 zero bytes under nonce
    /// `u64::MAX` and keeps the first 32 bytes of the result as the new key.
    /// Without a key there is nothing to rotate: the call fails and the
    /// state is left as it is.
    fn rekey(&mut self) -> (r: Result<(), AeadError>)
        ensures
            match old(self).key_view() {
                None => r is Err && *final(self) == *old(self),
                Some(k) => r is Ok && final(self).key_view() == Some(Self::spec_rekey(k)),
            },
    ;
}

} // verus!
