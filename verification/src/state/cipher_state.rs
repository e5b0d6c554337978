//! The `CipherState` of the Noise handshake
//! (<https://noiseprotocol.org/noise.html#the-cipherstate-object>).

use vstd::prelude::*;

use crate::crypto::cipher::{aead_opens_sealed, copy_prefix, Cipher, InternalCipherState};
use crate::error::NoiseError;

verus! {

/// The largest value of the nonce counter.
pub const MAX_N_VALUE: u64 = 0xffff_ffff_ffff_ffffu64;

/// The mathematical content of a [`CipherState`]: the cipher state held,
/// if any, given by the key it holds, and the nonce counter.
pub struct CipherStateView {
    /// `None` when no cipher state is held; otherwise the key held by it.
    pub k: Option<Option<Seq<u8>>>,
    /// The nonce counter.
    pub n: u64,
}

/// The key view of an optional cipher state.
pub open spec fn cipher_key_view<S: InternalCipherState>(k: Option<S>) -> Option<Option<Seq<u8>>> {
    match k {
        Some(s) => Some(s.key_view()),
        None => None,
    }
}

impl CipherStateView {
    /// The key in use, if a cipher state holding a key is present.
    pub open spec fn key(self) -> Option<Seq<u8>> {
        match self.k {
            Some(Some(key)) => Some(key),
            _ => None,
        }
    }

    /// Every cipher state held holds a key, as in every state that the
    /// handshake creates.
    pub open spec fn wf(self) -> bool {
        self.k matches Some(ko) ==> ko is Some
    }

    /// The nonce counter cannot be used anymore.
    pub open spec fn exhausted(self) -> bool {
        self.n == MAX_N_VALUE
    }

    /// The state with the nonce counter advanced by one.
    pub open spec fn next(self) -> CipherStateView {
        CipherStateView { k: self.k, n: (self.n + 1) as u64 }
    }
}

/// The `ENCRYPT` of a cipher state: the ciphertext with tag under its key
/// and nonce, or the plaintext itself when it holds no key.
pub open spec fn spec_encrypt<C: Cipher>(cs: CipherStateView, ad: Seq<u8>, pt: Seq<u8>) -> Seq<u8> {
    match cs.key() {
        Some(key) => C::State::spec_seal(key, cs.n, ad, pt),
        None => pt,
    }
}

/// The `DECRYPT` of a cipher state: the plaintext that its key and nonce
/// authenticate, or the ciphertext itself when it holds no key.
pub open spec fn spec_decrypt<C: Cipher>(cs: CipherStateView, ad: Seq<u8>, ct: Seq<u8>) -> Option<
    Seq<u8>,
> {
    match cs.key() {
        Some(key) => C::State::spec_open(key, cs.n, ad, ct),
        None => Some(ct),
    }
}

/// The outcome of `encrypt_with_ad` on the cipher state `cs`: the result,
/// the new state and the new content of the output buffer `buf`.
pub open spec fn spec_encrypt_with_ad<C: Cipher>(
    cs: CipherStateView,
    ad: Seq<u8>,
    pt: Seq<u8>,
    buf: Seq<u8>,
) -> (Result<usize, NoiseError>, CipherStateView, Seq<u8>) {
    if cs.exhausted() {
        (Err(NoiseError::MaxNValue), cs, buf)
    } else {
        match cs.k {
            None => (Ok(pt.len() as usize), cs, pt + buf.skip(pt.len() as int)),
            Some(None) => (Ok(pt.len() as usize), cs.next(), buf),
            Some(Some(key)) => if buf.len() < pt.len() + 16 {
                (Err(NoiseError::InvalidInput("Couldn't encrypt the message")), cs, buf)
            } else if C::State::spec_too_long(pt.len(), ad.len()) {
                (
                    Err(NoiseError::InvalidInput("Couldn't encrypt the message")),
                    cs,
                    pt + buf.skip(pt.len() as int),
                )
            } else {
                let ct = C::State::spec_seal(key, cs.n, ad, pt);
                (Ok((pt.len() + 16) as usize), cs.next(), ct + buf.skip(pt.len() + 16int))
            },
        }
    }
}

/// The outcome of `decrypt_with_ad` on the cipher state `cs`: the result,
/// the new state and the new content of the output buffer `buf`.
pub open spec fn spec_decrypt_with_ad<C: Cipher>(
    cs: CipherStateView,
    ad: Seq<u8>,
    ct: Seq<u8>,
    buf: Seq<u8>,
) -> (Result<(), NoiseError>, CipherStateView, Seq<u8>) {
    if cs.exhausted() {
        (Err(NoiseError::MaxNValue), cs, buf)
    } else {
        match cs.k {
            None => if buf.len() < ct.len() {
                (Err(NoiseError::InvalidInput("Couldn't decrypt the message")), cs, buf)
            } else {
                (Ok(()), cs, ct + buf.skip(ct.len() as int))
            },
            Some(None) => (Ok(()), cs.next(), buf),
            Some(Some(key)) => if ct.len() < 16 || buf.len() < ct.len() - 16 {
                (Err(NoiseError::InvalidInput("Couldn't decrypt the message")), cs, buf)
            } else {
                match C::State::spec_open(key, cs.n, ad, ct) {
                    Some(p) => (Ok(()), cs.next(), p + buf.skip(p.len() as int)),
                    None => (
                        Err(NoiseError::InvalidInput("Couldn't decrypt the message")),
                        cs,
                        ct.take(ct.len() - 16) + buf.skip(ct.len() - 16),
                    ),
                }
            },
        }
    }
}

/// The Noise `CipherState` object: stores a cipher key and a nonce counter
/// to perform authenticated encryption/decryption during and after the
/// handshake.
pub struct CipherState<C: Cipher> {
    k: Option<C::State>,
    n: u64,
}

impl<C: Cipher> View for CipherState<C> {
    type V = CipherStateView;

    closed spec fn view(&self) -> CipherStateView {
        CipherStateView { k: cipher_key_view(self.k), n: self.n }
    }
}

impl<C: Cipher> CipherState<C> {
    /// The cipher state held, if any.
    pub closed spec fn state(&self) -> Option<C::State> {
        self.k
    }

    /// Initializes a `CipherState` with an optional 256-bit key and a nonce
    /// of zero.
    pub fn initialize_key(key: Option<&[u8; 32]>) -> (r: Self)
        ensures
            r@.n == 0,
            r@.k == (match key {
                Some(k) => Some(Some(k@)),
                None => None::<Option<Seq<u8>>>,
            }),
    {
        let k = match key {
            Some(k) => Some(C::init(k)),
            None => None,
        };
        Self { k, n: 0 }
    }

    /// Returns `true` if a cipher state is held.
    pub fn has_key(&self) -> (r: bool)
        ensures
            r == self@.k is Some,
    {
        self.k.is_some()
    }

    /// Sets the nonce counter to `nonce`.
    pub fn set_nonce(&mut self, nonce: u64)
        ensures
            final(self)@ == (CipherStateView { k: old(self)@.k, n: nonce }),
    {
        self.n = nonce
    }

    /// Encrypts `pt_buf` with associated data `ad`, writes the ciphertext
    /// into `buf` and returns the number of bytes written.
    ///
    /// Without a cipher state, no encryption is done: `pt_buf` is copied
    /// into `buf` and the nonce isn't incremented. A held cipher state
    /// without a key leaves `buf` unchanged and increments the nonce.
    ///
    /// Returns [`NoiseError::MaxNValue`] if the nonce counter has reached
    /// its maximum value, or [`NoiseError::InvalidInput`] if the cipher
    /// fails to encrypt (ex: `buf` is too small). A successful encryption
    /// under a key gives a ciphertext that the same key and nonce decrypt
    /// back to `pt_buf`.
    pub fn encrypt_with_ad(&mut self, ad: &[u8], pt_buf: &[u8], buf: &mut [u8]) -> (r: Result<
        usize,
        NoiseError,
    >)
        requires
            old(self)@.k is None ==> pt_buf@.len() <= old(buf)@.len(),
        ensures
            (r, final(self)@, final(buf)@) == spec_encrypt_with_ad::<C>(old(self)@, ad@, pt_buf@, old(buf)@),
            r is Ok && old(self)@.key() is Some ==> C::State::spec_open(
                old(self)@.key()->0,
                old(self)@.n,
                ad@,
                spec_encrypt::<C>(old(self)@, ad@, pt_buf@),
            ) == Some(pt_buf@),
            r is Ok && old(self)@.key() is Some ==> spec_encrypt::<C>(old(self)@, ad@, pt_buf@).len()
                == pt_buf@.len() + 16,
    {
        if self.n == MAX_N_VALUE {
            return Err(NoiseError::MaxNValue);
        }
        let size = match &self.k {
            Some(c) => {
                let size = match c.encrypt(self.n, ad, pt_buf, buf) {
                    Ok(size) => size,
                    Err(_) => {
                        return Err(NoiseError::InvalidInput("Couldn't encrypt the message"));
                    },
                };
                self.n += 1;
                size
            },
            None => {
                copy_prefix(buf, pt_buf);
                pt_buf.len()
            },
        };
        Ok(size)
    }

    /// Authenticates and decrypts `ct_buf` with associated data `ad` and
    /// writes the plaintext in `buf`.
    ///
    /// Without a cipher state, `ct_buf` is copied into `buf` unmodified and
    /// the nonce is not incremented; a `buf` shorter than `ct_buf` is then
    /// refused with [`NoiseError::InvalidInput`]. A held cipher state without a key
    /// leaves `buf` unchanged and increments the nonce.
    ///
    /// Returns [`NoiseError::MaxNValue`] if the nonce counter has reached
    /// its maximum value, or [`NoiseError::InvalidInput`] if the cipher
    /// fails to decrypt (ex: tampered ciphertext).
    pub fn decrypt_with_ad(&mut self, ad: &[u8], ct_buf: &[u8], buf: &mut [u8]) -> (r: Result<
        (),
        NoiseError,
    >)
        requires
        ensures
            (r, final(self)@, final(buf)@) == spec_decrypt_with_ad::<C>(old(self)@, ad@, ct_buf@, old(buf)@),
            r is Ok && old(self)@.key() is Some ==> (C::State::spec_open(
                old(self)@.key()->0,
                old(self)@.n,
                ad@,
                ct_buf@,
            ) matches Some(p) && p.len() == ct_buf@.len() - 16),
    {
        if self.n == MAX_N_VALUE {
            return Err(NoiseError::MaxNValue);
        }
        match &self.k {
            Some(c) => {
                match c.decrypt(self.n, ad, ct_buf, buf) {
                    Ok(()) => {},
                    Err(_) => {
                        return Err(NoiseError::InvalidInput("Couldn't decrypt the message"));
                    },
                }
                self.n += 1;
            },
            None => {
                if buf.len() < ct_buf.len() {
                    return Err(NoiseError::InvalidInput("Couldn't decrypt the message"));
                }
                copy_prefix(buf, ct_buf);
            },
        }
        Ok(())
    }

    /// Rotates the cipher key.
    ///
    /// Returns [`NoiseError::Rekey`], with the state unchanged, if no key is
    /// held: no cipher state, or one without a key.
    pub fn rekey(&mut self) -> (r: Result<(), NoiseError>)
        ensures
            match old(self)@.key() {
                None => r == Err::<(), NoiseError>(
                    NoiseError::Rekey("Cannot rekey a k that isn't set."),
                ) && final(self)@ == old(self)@ && final(self).state() == old(self).state(),
                Some(key) => r is Ok && final(self)@ == (CipherStateView {
                    k: Some(Some(C::State::spec_rekey(key))),
                    n: old(self)@.n,
                }),
            },
    {
        match &mut self.k {
            Some(c) => {
                if !c.has_key() {
                    return Err(NoiseError::Rekey("Cannot rekey a k that isn't set."));
                }
                match c.rekey() {
                    Ok(()) => {},
                    Err(_) => {
                        return Err(NoiseError::InvalidInput("Couldn't do the rekey"));
                    },
                }
            },
            None => {
                return Err(NoiseError::Rekey("Cannot rekey a k that isn't set."));
            },
        }
        Ok(())
    }

    /// Reconstructs a `CipherState` from a given cipher state and nonce.
    pub fn from_parts(k: Option<C::State>, n: u64) -> (r: Self)
        ensures
            r@ == (CipherStateView { k: cipher_key_view(k), n }),
            r.state() == k,
    {
        Self { k, n }
    }

    /// Decomposes this `CipherState` into its cipher state and nonce; the
    /// inverse of [`from_parts`](Self::from_parts).
    pub fn into_parts(self) -> (r: (Option<C::State>, u64))
        ensures
            r.0 == self.state(),
            cipher_key_view(r.0) == self@.k,
            r.1 == self@.n,
    {
        (self.k, self.n)
    }
}

/// What a cipher state encrypts, a cipher state with the same key and
/// nonce decrypts: the plaintext comes back and both states advance to the
/// same next state.
pub proof fn lemma_cipher_state_roundtrip<C: Cipher>(
    cs: CipherStateView,
    ad: Seq<u8>,
    pt: Seq<u8>,
    out: Seq<u8>,
    inbuf: Seq<u8>,
)
    requires
        aead_opens_sealed::<C::State>(),
        cs.key() is Some,
        spec_encrypt_with_ad::<C>(cs, ad, pt, out).0 is Ok,
        out.len() <= usize::MAX,
        inbuf.len() >= pt.len(),
    ensures
        ({
            let enc = spec_encrypt_with_ad::<C>(cs, ad, pt, out);
            let ct = enc.2.take(enc.0->Ok_0 as int);
            let dec = spec_decrypt_with_ad::<C>(cs, ad, ct, inbuf);
            &&& ct == spec_encrypt::<C>(cs, ad, pt)
            &&& dec.0 is Ok
            &&& dec.1 == enc.1
            &&& dec.2.take(pt.len() as int) == pt
        }),
{
    let key = cs.key()->0;
    let sealed = C::State::spec_seal(key, cs.n, ad, pt);
    let enc = spec_encrypt_with_ad::<C>(cs, ad, pt, out);
    assert(sealed.len() == pt.len() + 16);
    assert(enc.2.take(enc.0->Ok_0 as int) =~= sealed);
    let dec = spec_decrypt_with_ad::<C>(cs, ad, sealed, inbuf);
    assert(dec.2.take(pt.len() as int) =~= pt);
}

} // verus!
