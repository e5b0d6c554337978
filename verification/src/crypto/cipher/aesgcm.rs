//! AES-GCM implementation of the Cipher and InternalCipherState traits

use vstd::prelude::*;
use aes_gcm::aead::{self, AeadInOut, KeyInit};
use aes_gcm::{Aes256Gcm, Key};

use crate::constants::TAG_LEN;
use crate::crypto::cipher::{
    aead_opens_sealed, copy_prefix, join_tag, lemma_xor_stream_twice, tag_bytes, tag_of, nonce_be,
    u64_be_bytes, xor_stream, AeadError, Cipher, InternalCipherState,
};

verus! {

/// The first `len` bytes of the AES-256 counter-mode keystream (`Ctr32BE`,
/// started after the block that masks the tag) that `aes_gcm::Aes256Gcm`
/// XORs with the data under `key` and the 12-byte `nonce`, in
/// `encrypt_inout_detached` and `decrypt_inout_detached` alike.
pub uninterp spec fn aes256gcm_keystream(key: Seq<u8>, nonce: Seq<u8>, len: nat) -> Seq<u8>;

/// The 16-byte tag that `aes_gcm::Aes256Gcm` computes (its `compute_tag`:
/// GHASH of the associated data `ad` and of `ciphertext`, masked) under
/// `key` and the 12-byte `nonce`: the one that `encrypt_inout_detached`
/// returns and that `decrypt_inout_detached` expects.
pub uninterp spec fn aes256gcm_tag(key: Seq<u8>, nonce: Seq<u8>, ad: Seq<u8>, ciphertext: Seq<u8>) -> Seq<u8>;

/// The inputs that `aes_gcm::Aes256Gcm` refuses to encrypt or decrypt: data longer than 2^36 - 32 bytes (`P_MAX`) or associated data longer than 2^61 - 1 bytes (`A_MAX`).
pub open spec fn aes256gcm_too_long(pt_len: nat, ad_len: nat) -> bool {
    pt_len > 0x0000_000f_ffff_ffe0 || ad_len > 0x1fff_ffff_ffff_ffff
}

/// Calls `encrypt_inout_detached` of `aes_gcm::Aes256Gcm` on a copy of `pt`
/// and returns the ciphertext with its 16-byte tag. The contract claims: the
/// call fails exactly on the inputs of [`aes256gcm_too_long`]; otherwise the
/// ciphertext is `pt` XOR-ed with the keystream named by
/// [`aes256gcm_keystream`], and the tag is the one named by [`aes256gcm_tag`]
/// for that ciphertext (counter mode followed by GHASH, as the source shows).
#[verifier::external_body]
fn aes256gcm_encrypt(key: &[u8; 32], nonce: &[u8; 12], ad: &[u8], pt: &[u8]) -> (r: Result<
    (Vec<u8>, [u8; 16]),
    aead::Error,
>)
    ensures
        r is Err <==> aes256gcm_too_long(pt@.len(), ad@.len()),
        r matches Ok((c, t)) ==> c@ == xor_stream(pt@, aes256gcm_keystream(key@, nonce@, pt@.len())),
        r matches Ok((c, t)) ==> t@ == tag_bytes(aes256gcm_tag(key@, nonce@, ad@, c@)),
{
    let cipher = Aes256Gcm::new(&Key::<Aes256Gcm>::from(*key));
    let mut out = pt.to_vec();
    let tag = cipher.encrypt_inout_detached(&(*nonce).into(), ad, out.as_mut_slice().into())?;
    Ok((out, tag.into()))
}

/// Calls `decrypt_inout_detached` of `aes_gcm::Aes256Gcm` on a copy of `body`
/// with the 16-byte `tag`. The contract claims that it succeeds exactly when
/// the input is not one of [`aes256gcm_too_long`] and `tag` is the one named
/// by [`aes256gcm_tag`] for `body`, and then returns `body` XOR-ed with the
/// keystream named by [`aes256gcm_keystream`].
#[verifier::external_body]
fn aes256gcm_decrypt(key: &[u8; 32], nonce: &[u8; 12], ad: &[u8], body: &[u8], tag: &[u8; 16]) -> (r:
    Result<Vec<u8>, aead::Error>)
    ensures
        r is Ok <==> (!aes256gcm_too_long(body@.len(), ad@.len())
            && tag@ == tag_bytes(aes256gcm_tag(key@, nonce@, ad@, body@))),
        r matches Ok(p) ==> p@ == xor_stream(body@, aes256gcm_keystream(key@, nonce@, body@.len())),
{
    let cipher = Aes256Gcm::new(&Key::<Aes256Gcm>::from(*key));
    let mut out = body.to_vec();
    cipher.decrypt_inout_detached(&(*nonce).into(), ad, out.as_mut_slice().into(), &(*tag).into())?;
    Ok(out)
}

/// AES-256-GCM decrypts what it encrypts: for every key, nonce counter and
/// associated data, the ciphertext of a plaintext that it accepts is 16
/// bytes longer and authenticates back to that plaintext.
pub proof fn lemma_aesgcm_opens_sealed()
    ensures
        aead_opens_sealed::<AesGcmState>(),
{
    assert forall|key: Seq<u8>, n: u64, ad: Seq<u8>, pt: Seq<u8>|
        !AesGcmState::spec_too_long(pt.len(), ad.len()) implies {
        &&& (#[trigger] AesGcmState::spec_seal(key, n, ad, pt)).len() == pt.len() + 16
        &&& AesGcmState::spec_open(key, n, ad, AesGcmState::spec_seal(key, n, ad, pt)) == Some(pt)
    } by {
        lemma_aesgcm_seal_parts(key, AesGcmState::spec_nonce(n), ad, pt);
    }
}

/// The ciphertext with its tag splits back into the ciphertext and the tag,
/// and XOR-ing the ciphertext with the keystream gives the plaintext.
proof fn lemma_aesgcm_seal_parts(key: Seq<u8>, nonce: Seq<u8>, ad: Seq<u8>, pt: Seq<u8>)
    ensures
        ({
            let ks = aes256gcm_keystream(key, nonce, pt.len());
            let c = xor_stream(pt, ks);
            let ct = c + tag_bytes(aes256gcm_tag(key, nonce, ad, c));
            &&& ct.len() == pt.len() + 16
            &&& ct.take(ct.len() - 16) == c
            &&& ct.skip(ct.len() - 16) == tag_bytes(aes256gcm_tag(key, nonce, ad, c))
            &&& xor_stream(c, ks) == pt
        }),
{
    let ks = aes256gcm_keystream(key, nonce, pt.len());
    let c = xor_stream(pt, ks);
    let ct = c + tag_bytes(aes256gcm_tag(key, nonce, ad, c));
    assert(ct.take(ct.len() - 16) =~= c);
    assert(ct.skip(ct.len() - 16) =~= tag_bytes(aes256gcm_tag(key, nonce, ad, c)));
    lemma_xor_stream_twice(pt, ks);
}

/// Cipher state for [`AesGcm`], stores the current encryption key (if
/// any). A `None` key is a valid state as the key isn't always initialized.
#[derive(Clone, Debug)]
pub struct AesGcmState {
    key: Option<[u8; 32]>,
}

/// AES-256-GCM implementation of the Noise [`Cipher`] trait, with a 96-bit nonce and a 128-bit tag
/// as specified by NIST SP 800-38D.
pub struct AesGcm;

impl Cipher for AesGcm {
    type State = AesGcmState;

    open spec fn spec_name() -> Seq<char> {
        "AESGCM"@
    }

    fn name() -> (r: &'static str) {
        "AESGCM"
    }

    fn init(key: &[u8; 32]) -> (r: Self::State) {
        AesGcmState { key: Some(*key) }
    }
}

impl InternalCipherState for AesGcmState {
    closed spec fn key_view(&self) -> Option<Seq<u8>> {
        match self.key {
            Some(k) => Some(k@),
            None => None,
        }
    }

    open spec fn spec_nonce(n: u64) -> Seq<u8> {
        seq![0u8, 0u8, 0u8, 0u8] + u64_be_bytes(n)
    }

    /// The plaintext XOR-ed with the keystream, followed by the tag of that
    /// ciphertext.
    open spec fn spec_seal(key: Seq<u8>, n: u64, ad: Seq<u8>, plaintext: Seq<u8>) -> Seq<u8> {
        let nonce = Self::spec_nonce(n);
        let c = xor_stream(plaintext, aes256gcm_keystream(key, nonce, plaintext.len()));
        c + tag_bytes(aes256gcm_tag(key, nonce, ad, c))
    }

    /// The ciphertext without its last 16 bytes, XOR-ed with the keystream,
    /// when those 16 bytes are its tag and the input is not too long.
    open spec fn spec_open(key: Seq<u8>, n: u64, ad: Seq<u8>, ciphertext: Seq<u8>) -> Option<Seq<u8>> {
        let nonce = Self::spec_nonce(n);
        if ciphertext.len() < 16 {
            None
        } else {
            let body = ciphertext.take(ciphertext.len() - 16);
            if !aes256gcm_too_long(body.len(), ad.len()) && ciphertext.skip(ciphertext.len() - 16)
                == tag_bytes(aes256gcm_tag(key, nonce, ad, body)) {
                Some(xor_stream(body, aes256gcm_keystream(key, nonce, body.len())))
            } else {
                None
            }
        }
    }

    open spec fn spec_too_long(pt_len: nat, ad_len: nat) -> bool {
        aes256gcm_too_long(pt_len, ad_len)
    }

    open spec fn spec_rekey(key: Seq<u8>) -> Seq<u8> {
        Self::spec_seal(key, u64::MAX, Seq::empty(), Seq::new(32, |i: int| 0u8)).take(32)
    }

    /// Four zero bytes followed by the big-endian encoding of `n`.
    fn convert_nonce(n: u64) -> (r: [u8; 12]) {
        nonce_be(n)
    }

    fn empty() -> (r: Self) {
        Self { key: None }
    }

    fn has_key(&self) -> (r: bool) {
        self.key.is_some()
    }

    fn encrypt(&self, n: u64, ad: &[u8], pt_buf: &[u8], buf: &mut [u8]) -> (r: Result<usize, AeadError>) {
        let output_len = pt_buf.len();
        match &self.key {
            None => Ok(output_len),
            Some(key) => {
                if buf.len() < TAG_LEN || buf.len() - TAG_LEN < pt_buf.len() {
                    return Err(AeadError);
                }
                let nonce = Self::convert_nonce(n);
                copy_prefix(buf, pt_buf);
                match aes256gcm_encrypt(key, &nonce, ad, pt_buf) {
                    Ok((body, tag)) => {
                        proof {
                            assert(tag@ =~= tag_bytes(tag@));
                            lemma_aesgcm_seal_parts(key@, nonce@, ad@, pt_buf@);
                        }
                        let ct = join_tag(body, &tag);
                        copy_prefix(buf, ct.as_slice());
                        assert(buf@ =~= ct@ + old(buf)@.skip(pt_buf@.len() + 16int));
                        Ok(output_len + TAG_LEN)
                    },
                    Err(_) => Err(AeadError),
                }
            },
        }
    }

    fn decrypt(&self, n: u64, ad: &[u8], ct_buf: &[u8], buf: &mut [u8]) -> (r: Result<(), AeadError>) {
        match &self.key {
            None => Ok(()),
            Some(key) => {
                if ct_buf.len() < TAG_LEN || buf.len() < ct_buf.len() - TAG_LEN {
                    return Err(AeadError);
                }
                let nonce = Self::convert_nonce(n);
                let pt_len = ct_buf.len() - TAG_LEN;
                let body = &ct_buf[0..pt_len];
                let tag = tag_of(ct_buf);
                proof {
                    assert(body@ + tag@ =~= ct_buf@);
                    assert(ct_buf@.take(ct_buf@.len() - 16) =~= body@);
                    assert(ct_buf@.skip(ct_buf@.len() - 16) =~= tag@);
                }
                copy_prefix(buf, body);
                match aes256gcm_decrypt(key, &nonce, ad, body, &tag) {
                    Ok(pt) => {
                        copy_prefix(buf, pt.as_slice());
                        assert(buf@ =~= pt@ + old(buf)@.skip(pt@.len() as int));
                        Ok(())
                    },
                    Err(_) => Err(AeadError),
                }
            },
        }
    }

    fn rekey(&mut self) -> (r: Result<(), AeadError>) {
        if self.key.is_none() {
            return Err(AeadError);
        }
        let mut buf: Vec<u8> = vec![0u8; 48];
        let zeros: Vec<u8> = vec![0u8; 32];
        let empty_ad: Vec<u8> = Vec::new();
        proof {
            assert(zeros@ =~= Seq::new(32, |i: int| 0u8));
        }
        let res = self.encrypt(u64::MAX, empty_ad.as_slice(), zeros.as_slice(), buf.as_mut_slice());
        if res.is_err() {
            return Err(AeadError);
        }
        let mut key = [0u8; 32];
        let mut i: usize = 0;
        while i < 32
            invariant
                0 <= i <= 32,
                buf@.len() == 48,
                forall|k: int| 0 <= k < i ==> #[trigger] key@[k] == buf@[k],
            decreases 32 - i,
        {
            key[i] = buf[i];
            i += 1;
        }
        assert(key@ =~= buf@.take(32));
        self.key = Some(key);
        Ok(())
    }
}

/// The 96-bit nonce of the Noise nonce counter `n` is four zero bytes
/// followed by `n` in big-endian order (Noise section 12.3): byte `4 + i`
/// holds the bits of `n` from `8 * (7 - i)` on, so byte 11 holds
/// `n % 256`.
pub proof fn lemma_aes256gcm_nonce(n: u64)
    ensures
        AesGcmState::spec_nonce(n).len() == 12,
        forall|i: int| 0 <= i < 4 ==> #[trigger] AesGcmState::spec_nonce(n)[i] == 0u8,
        forall|i: int|
            0 <= i < 8 ==> #[trigger] AesGcmState::spec_nonce(n)[4 + i] == ((n >> (8 * (7 - i)) as u64) & 0xffu64) as u8,
        AesGcmState::spec_nonce(n)[11] == (n % 256) as u8,
{
    assert(((n >> 0u64) & 0xffu64) as u8 == (n % 256) as u8) by (bit_vector);
}

/// The nonce of the largest nonce counter, `2^64 - 1`: four zero bytes and
/// eight `0xff` bytes.
pub open spec fn aes256gcm_rekey_nonce() -> Seq<u8> {
    seq![0u8, 0u8, 0u8, 0u8, 0xffu8, 0xffu8, 0xffu8, 0xffu8, 0xffu8, 0xffu8, 0xffu8, 0xffu8]
}

/// Rekeying (Noise section 4.2, `REKEY`): the new key is the first 32 bytes
/// of the encryption of 32 zero bytes under the old key `k`, with the
/// nonce counter `2^64 - 1` (the nonce [`aes256gcm_rekey_nonce`]) and no
/// associated data, that is the first 32 bytes of the keystream of `k` at
/// that nonce XOR-ed into zeros.
pub proof fn lemma_aes256gcm_rekey(k: Seq<u8>)
    ensures
        AesGcmState::spec_rekey(k) == xor_stream(
            Seq::new(32, |i: int| 0u8),
            aes256gcm_keystream(k, aes256gcm_rekey_nonce(), 32),
        ),
{
    let m: u64 = 0xffff_ffff_ffff_ffffu64;
    lemma_aes256gcm_nonce(m);
    assert forall|i: int| 0 <= i < 8 implies #[trigger] AesGcmState::spec_nonce(m)[4 + i] == 0xffu8 by {
        let s: u64 = (8 * (7 - i)) as u64;
        assert(s <= 56);
        assert((m >> s) & 0xffu64 == 0xffu64) by (bit_vector)
            requires
                m == 0xffff_ffff_ffff_ffffu64,
                s <= 56;
    }
    assert(AesGcmState::spec_nonce(m) =~= aes256gcm_rekey_nonce()) by {
        assert(AesGcmState::spec_nonce(m)[4 + 0int] == 0xffu8);
        assert(AesGcmState::spec_nonce(m)[4 + 1int] == 0xffu8);
        assert(AesGcmState::spec_nonce(m)[4 + 2int] == 0xffu8);
        assert(AesGcmState::spec_nonce(m)[4 + 3int] == 0xffu8);
        assert(AesGcmState::spec_nonce(m)[4 + 4int] == 0xffu8);
        assert(AesGcmState::spec_nonce(m)[4 + 5int] == 0xffu8);
        assert(AesGcmState::spec_nonce(m)[4 + 6int] == 0xffu8);
        assert(AesGcmState::spec_nonce(m)[4 + 7int] == 0xffu8);
    }
    let zeros = Seq::new(32, |i: int| 0u8);
    let c = xor_stream(zeros, aes256gcm_keystream(k, aes256gcm_rekey_nonce(), 32));
    let sealed = AesGcmState::spec_seal(k, m, Seq::empty(), zeros);
    assert(sealed.take(32) =~= c);
}

} // verus!
