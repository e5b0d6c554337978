//! The `SymmetricState` object of the Noise handshake
//! (<https://noiseprotocol.org/noise.html#the-symmetricstate-object>).

use vstd::prelude::*;

use crate::constants::{ENCRYPTION_KEY_LEN, MAX_MESSAGE_LEN, TAG_LEN};
use crate::crypto::cipher::{aead_opens_sealed, Cipher, InternalCipherState};
use crate::crypto::dh::DH;
use crate::crypto::hash::{hkdf2, hkdf3, hkdf_output1, hkdf_output2, hkdf_output3, zero_padded};
use crate::error::NoiseError;
use crate::state::cipher_state::{CipherState, CipherStateView};

verus! {

/// The mathematical content of a [`SymmetricState`].
pub struct SymmetricStateView {
    /// The cipher state used to encrypt handshake payloads.
    pub cs: CipherStateView,
    /// The chaining key.
    pub ck: Seq<u8>,
    /// The handshake hash.
    pub h: Seq<u8>,
    /// `split` has been called.
    pub splitted: bool,
}

impl SymmetricStateView {
    /// The chaining key and the hash have the hash length, and every
    /// cipher state held holds a key.
    pub open spec fn wf<H: crate::crypto::hash::Hash>(self) -> bool {
        &&& self.ck.len() == H::spec_hashlen()
        &&& self.h.len() == H::spec_hashlen()
        &&& self.cs.wf()
    }

    /// The same state with the handshake hash `h`.
    pub open spec fn with_h(self, h: Seq<u8>) -> SymmetricStateView {
        SymmetricStateView { h, ..self }
    }

    /// The same state with the cipher state `cs`.
    pub open spec fn with_cs(self, cs: CipherStateView) -> SymmetricStateView {
        SymmetricStateView { cs, ..self }
    }
}

/// A cipher state holding `key` with a nonce of zero.
pub open spec fn keyed_cipher(key: Seq<u8>) -> CipherStateView {
    CipherStateView { k: Some(Some(key)), n: 0 }
}

/// The cipher key taken from an `HKDF` output: its first 32 bytes.
pub open spec fn cipher_key_of(output: Seq<u8>) -> Seq<u8> {
    output.take(32)
}

/// The initial chaining key and hash of the protocol `protocol_name`: the
/// name padded with zeros when it fits in `HASHLEN` bytes, its hash
/// otherwise.
pub open spec fn initial_hash<H: crate::crypto::hash::Hash>(protocol_name: Seq<u8>) -> Seq<u8> {
    if protocol_name.len() <= H::spec_hashlen() {
        zero_padded(protocol_name, H::spec_hashlen())
    } else {
        H::spec_hash(protocol_name)
    }
}

/// `InitializeSymmetric(protocol_name)`.
pub open spec fn spec_initialize_symmetric<H: crate::crypto::hash::Hash>(protocol_name: Seq<u8>) -> SymmetricStateView {
    SymmetricStateView {
        cs: CipherStateView { k: None, n: 0 },
        ck: initial_hash::<H>(protocol_name),
        h: initial_hash::<H>(protocol_name),
        splitted: false,
    }
}

/// `MixHash(data)`: `h = HASH(h || data)`.
pub open spec fn spec_mix_hash<H: crate::crypto::hash::Hash>(st: SymmetricStateView, data: Seq<u8>) -> SymmetricStateView {
    st.with_h(H::spec_hash(st.h + data))
}

/// `MixKey(input_key_material)`: the chaining key and a new cipher key
/// come from `HKDF(ck, input_key_material)`.
pub open spec fn spec_mix_key<H: crate::crypto::hash::Hash>(st: SymmetricStateView, ikm: Seq<u8>) -> SymmetricStateView {
    SymmetricStateView {
        cs: keyed_cipher(cipher_key_of(hkdf_output2::<H>(st.ck, ikm))),
        ck: hkdf_output1::<H>(st.ck, ikm),
        h: st.h,
        splitted: st.splitted,
    }
}

/// `MixKeyAndHash(input_key_material)`: the three `HKDF` outputs give the
/// chaining key, data mixed into the hash, and a new cipher key.
pub open spec fn spec_mix_key_and_hash<H: crate::crypto::hash::Hash>(st: SymmetricStateView, ikm: Seq<u8>) -> SymmetricStateView {
    SymmetricStateView {
        cs: keyed_cipher(cipher_key_of(hkdf_output3::<H>(st.ck, ikm))),
        ck: hkdf_output1::<H>(st.ck, ikm),
        h: H::spec_hash(st.h + hkdf_output2::<H>(st.ck, ikm)),
        splitted: st.splitted,
    }
}

/// `Split()`: the state marked as split, and the two cipher states whose
/// keys come from `HKDF(ck, zerolen)`.
pub open spec fn spec_split<H: crate::crypto::hash::Hash>(st: SymmetricStateView) -> (SymmetricStateView, CipherStateView, CipherStateView) {
    (
        SymmetricStateView { splitted: true, ..st },
        keyed_cipher(cipher_key_of(hkdf_output1::<H>(st.ck, Seq::empty()))),
        keyed_cipher(cipher_key_of(hkdf_output2::<H>(st.ck, Seq::empty()))),
    )
}

/// `EncryptAndHash(plaintext)` with the output written at the start of
/// `buf`: the result, the new state and the new content of `buf`.
pub open spec fn spec_encrypt_and_hash<C: Cipher, H: crate::crypto::hash::Hash>(
    st: SymmetricStateView,
    pt: Seq<u8>,
    buf: Seq<u8>,
) -> (Result<usize, NoiseError>, SymmetricStateView, Seq<u8>) {
    if pt.len() + 16 > usize::MAX {
        (Err(NoiseError::InvalidInput("message length overflow")), st, buf)
    } else if pt.len() + 16 > MAX_MESSAGE_LEN {
        (Err(NoiseError::InvalidInput("The message is too big}")), st, buf)
    } else if st.cs.exhausted() {
        (Err(NoiseError::MaxNValue), st, buf)
    } else {
        match st.cs.key() {
            None => (Ok(pt.len() as usize), spec_mix_hash::<H>(st, pt), pt + buf.skip(pt.len() as int)),
            Some(key) => if buf.len() < pt.len() + 16 {
                (Err(NoiseError::InvalidInput("Couldn't encrypt the message")), st, buf)
            } else if C::State::spec_too_long(pt.len(), st.h.len()) {
                (
                    Err(NoiseError::InvalidInput("Couldn't encrypt the message")),
                    st,
                    pt + buf.skip(pt.len() as int),
                )
            } else {
                let ct = C::State::spec_seal(key, st.cs.n, st.h, pt);
                (
                    Ok((pt.len() + 16) as usize),
                    spec_mix_hash::<H>(st.with_cs(st.cs.next()), ct),
                    ct + buf.skip(pt.len() + 16int),
                )
            },
        }
    }
}

/// `DecryptAndHash(ciphertext)` with the output written at the start of
/// `buf`: the result, the new state and the new content of `buf`.
pub open spec fn spec_decrypt_and_hash<C: Cipher, H: crate::crypto::hash::Hash>(
    st: SymmetricStateView,
    ct: Seq<u8>,
    buf: Seq<u8>,
) -> (Result<(), NoiseError>, SymmetricStateView, Seq<u8>) {
    if ct.len() > MAX_MESSAGE_LEN {
        (Err(NoiseError::InvalidInput("The message is too long")), st, buf)
    } else if st.cs.exhausted() {
        (Err(NoiseError::MaxNValue), st, buf)
    } else {
        match st.cs.key() {
            None => if buf.len() < ct.len() {
                (Err(NoiseError::InvalidInput("Couldn't decrypt the message")), st, buf)
            } else {
                (Ok(()), spec_mix_hash::<H>(st, ct), ct + buf.skip(ct.len() as int))
            },
            Some(key) => if ct.len() < 16 || buf.len() < ct.len() - 16 {
                (Err(NoiseError::InvalidInput("Couldn't decrypt the message")), st, buf)
            } else {
                match C::State::spec_open(key, st.cs.n, st.h, ct) {
                    Some(p) => (
                        Ok(()),
                        spec_mix_hash::<H>(st.with_cs(st.cs.next()), ct),
                        p + buf.skip(p.len() as int),
                    ),
                    None => (
                        Err(NoiseError::InvalidInput("Couldn't decrypt the message")),
                        st,
                        ct.take(ct.len() - 16) + buf.skip(ct.len() - 16),
                    ),
                }
            },
        }
    }
}

/// The Noise `SymmetricState` object: stores the chaining key and the
/// handshake hash, and wraps a [`CipherState`] for encrypting and
/// decrypting handshake messages.
///
/// Consumed via [`split`](Self::split) at the end of the handshake to
/// produce the pair of `CipherState`s used for transport encryption.
pub struct SymmetricState<C: Cipher, H: crate::crypto::hash::Hash> {
    c_state: CipherState<C>,
    ck: Vec<u8>,
    h: Vec<u8>,
    splitted: bool,
    _hash: core::marker::PhantomData<H>,
}

impl<C: Cipher, H: crate::crypto::hash::Hash> View for SymmetricState<C, H> {
    type V = SymmetricStateView;

    closed spec fn view(&self) -> SymmetricStateView {
        SymmetricStateView { cs: self.c_state@, ck: self.ck@, h: self.h@, splitted: self.splitted }
    }
}

/// Copies the first 32 bytes of `output` into a key array.
fn key_from(output: &[u8]) -> (r: [u8; 32])
    requires
        output@.len() >= 32,
    ensures
        r@ == cipher_key_of(output@),
{
    let mut key = [0u8; 32];
    let mut i: usize = 0;
    while i < ENCRYPTION_KEY_LEN
        invariant
            output@.len() >= 32,
            0 <= i <= 32,
            key@.len() == 32,
            forall|k: int| 0 <= k < i ==> #[trigger] key@[k] == output@[k],
        decreases 32 - i,
    {
        key[i] = output[i];
        i += 1;
    }
    assert(key@ =~= cipher_key_of(output@));
    key
}

impl<C: Cipher, H: crate::crypto::hash::Hash> SymmetricState<C, H> {
    /// The state is well formed.
    pub open spec fn wf(&self) -> bool {
        self@.wf::<H>()
    }

    /// Creates a new `SymmetricState` from the canonical protocol name
    /// (ex: `Noise_XX_25519_AESGCM_SHA256`). Sets both the chaining key and
    /// the handshake hash to the name padded to `HASHLEN` if it fits, or to
    /// its hash otherwise.
    pub fn initialize_symmetric(protocol_name: &[u8]) -> (r: Self)
        ensures
            r@ == spec_initialize_symmetric::<H>(protocol_name@),
            r.wf(),
    {
        proof {
            H::lemma_lengths();
        }
        let h = if protocol_name.len() <= H::hashlen() {
            H::pad(protocol_name)
        } else {
            H::hash(protocol_name)
        };
        let ck = h.clone();
        proof {
            assert(ck@ =~= h@);
        }
        Self {
            c_state: CipherState::initialize_key(None),
            ck,
            h,
            splitted: false,
            _hash: core::marker::PhantomData,
        }
    }

    /// Mixes new key material into the chaining key and re-initializes the
    /// cipher state. Called after each DH operation during the handshake.
    pub fn mix_key<D: DH>(&mut self, input_key_material: &[u8])
        requires
            old(self).wf(),
            input_key_material@.len() == 0 || input_key_material@.len() == 32
                || input_key_material@.len() == D::spec_dhlen(),
        ensures
            final(self)@ == spec_mix_key::<H>(old(self)@, input_key_material@),
            final(self).wf(),
    {
        proof {
            H::lemma_lengths();
        }
        let (ck, temp_k) = hkdf2::<H>(self.ck.as_slice(), input_key_material, D::dhlen());
        self.ck = ck;
        let key = key_from(temp_k.as_slice());
        self.c_state = CipherState::initialize_key(Some(&key));
    }

    /// Mixes `data` into the handshake hash. Called for every public key and
    /// ciphertext exchanged during the handshake.
    pub fn mix_hash(&mut self, data: &[u8])
        requires
            old(self).wf(),
        ensures
            final(self)@ == spec_mix_hash::<H>(old(self)@, data@),
            final(self).wf(),
    {
        let mut result: Vec<u8> = Vec::with_capacity(self.h.len());
        result.extend_from_slice(self.h.as_slice());
        result.extend_from_slice(data);
        proof {
            assert(result@ =~= self.h@ + data@);
        }
        self.h = H::hash(result.as_slice());
    }

    /// Mixes `input_key_material` into both the chaining key and the
    /// handshake hash and re-initializes the cipher state. Used for the
    /// `psk` token.
    pub fn mix_key_and_hash<D: DH>(&mut self, input_key_material: &[u8])
        requires
            old(self).wf(),
            input_key_material@.len() == 0 || input_key_material@.len() == 32
                || input_key_material@.len() == D::spec_dhlen(),
        ensures
            final(self)@ == spec_mix_key_and_hash::<H>(old(self)@, input_key_material@),
            final(self).wf(),
    {
        proof {
            H::lemma_lengths();
        }
        let (ck, temp_h, temp_k) = hkdf3::<H>(self.ck.as_slice(), input_key_material, D::dhlen());
        self.ck = ck;
        self.mix_hash(temp_h.as_slice());
        let key = key_from(temp_k.as_slice());
        self.c_state = CipherState::initialize_key(Some(&key));
    }

    /// Returns the final handshake hash once the state has been split.
    ///
    /// Returns [`NoiseError::InvalidState`] if called before
    /// [`split`](Self::split).
    pub fn get_handshake_hash(&self) -> (r: Result<Vec<u8>, NoiseError>)
        ensures
            !self@.splitted ==> r == Err::<Vec<u8>, NoiseError>(
                NoiseError::InvalidState("GetHandshakeHash() called before Split()"),
            ),
            self@.splitted ==> (r matches Ok(v) && v@ == self@.h),
    {
        if !self.splitted {
            return Err(NoiseError::InvalidState("GetHandshakeHash() called before Split()"));
        }
        Ok(self.h.clone())
    }

    /// Encrypts `plaintext` with the handshake hash as associated data,
    /// writes the result in `buf` and mixes the ciphertext into the
    /// handshake hash.
    ///
    /// Returns [`NoiseError::InvalidInput`] if the ciphertext would exceed
    /// the maximum message length, or if the encryption fails.
    pub fn encrypt_and_hash(&mut self, plaintext: &[u8], buf: &mut [u8]) -> (r: Result<
        usize,
        NoiseError,
    >)
        requires
            old(self).wf(),
            old(self)@.cs.key() is None ==> plaintext@.len() <= old(buf)@.len(),
        ensures
            (r, final(self)@, final(buf)@) == spec_encrypt_and_hash::<C, H>(
                old(self)@,
                plaintext@,
                old(buf)@,
            ),
            final(self).wf(),
            r is Ok && old(self)@.cs.key() is Some ==> {
                let key = old(self)@.cs.key()->0;
                let ct = C::State::spec_seal(key, old(self)@.cs.n, old(self)@.h, plaintext@);
                &&& ct.len() == plaintext@.len() + 16
                &&& C::State::spec_open(key, old(self)@.cs.n, old(self)@.h, ct) == Some(plaintext@)
            },
    {
        let ct_len = match plaintext.len().checked_add(TAG_LEN) {
            Some(l) => l,
            None => {
                return Err(NoiseError::InvalidInput("message length overflow"));
            },
        };
        if ct_len > MAX_MESSAGE_LEN {
            return Err(NoiseError::InvalidInput("The message is too big}"));
        }
        let len = match self.c_state.encrypt_with_ad(self.h.as_slice(), plaintext, buf) {
            Ok(len) => len,
            Err(e) => {
                return Err(e);
            },
        };
        let written = &buf[0..len];
        proof {
            assert(written@ =~= buf@.take(len as int));
        }
        self.mix_hash(written);
        proof {
            let ghost spec = spec_encrypt_and_hash::<C, H>(old(self)@, plaintext@, old(buf)@);
            if old(self)@.cs.key() is None {
                assert(written@ =~= plaintext@);
            } else {
                let key = old(self)@.cs.key()->0;
                let ct = C::State::spec_seal(key, old(self)@.cs.n, old(self)@.h, plaintext@);
                assert(written@ =~= ct);
            }
        }
        Ok(len)
    }

    /// Decrypts `ciphertext` with the handshake hash as associated data,
    /// writes the plaintext into `buf` and mixes the ciphertext into the
    /// handshake hash.
    ///
    /// Returns [`NoiseError::InvalidInput`] if `ciphertext` exceeds the
    /// maximum message length, if `buf` cannot hold the plaintext, or if
    /// decryption/authentication fails.
    pub fn decrypt_and_hash(&mut self, ciphertext: &[u8], buf: &mut [u8]) -> (r: Result<
        (),
        NoiseError,
    >)
        requires
            old(self).wf(),
        ensures
            (r, final(self)@, final(buf)@) == spec_decrypt_and_hash::<C, H>(
                old(self)@,
                ciphertext@,
                old(buf)@,
            ),
            final(self).wf(),
            r is Ok && old(self)@.cs.key() is Some ==> (C::State::spec_open(
                old(self)@.cs.key()->0,
                old(self)@.cs.n,
                old(self)@.h,
                ciphertext@,
            ) matches Some(p) && p.len() == ciphertext@.len() - 16),
    {
        if ciphertext.len() > MAX_MESSAGE_LEN {
            return Err(NoiseError::InvalidInput("The message is too long"));
        }
        match self.c_state.decrypt_with_ad(self.h.as_slice(), ciphertext, buf) {
            Ok(()) => {},
            Err(e) => {
                return Err(e);
            },
        }
        self.mix_hash(ciphertext);
        Ok(())
    }

    /// Splits the `SymmetricState` into two `CipherState`s from the final
    /// chaining key, and marks this `SymmetricState` as split.
    pub fn split<D: DH>(&mut self) -> (r: (CipherState<C>, CipherState<C>))
        requires
            old(self).wf(),
        ensures
            (final(self)@, r.0@, r.1@) == spec_split::<H>(old(self)@),
            final(self).wf(),
    {
        proof {
            H::lemma_lengths();
        }
        let empty: [u8; 0] = [];
        proof {
            assert(empty@ =~= Seq::<u8>::empty());
        }
        let (temp_k1, temp_k2) = hkdf2::<H>(self.ck.as_slice(), empty.as_slice(), D::dhlen());
        let k1 = key_from(temp_k1.as_slice());
        let k2 = key_from(temp_k2.as_slice());
        self.splitted = true;
        (CipherState::initialize_key(Some(&k1)), CipherState::initialize_key(Some(&k2)))
    }

    /// Returns `true` if the underlying cipher state's key is set.
    pub fn has_key(&self) -> (r: bool)
        ensures
            r == self@.cs.k is Some,
    {
        self.c_state.has_key()
    }
}

/// What `EncryptAndHash` writes, `DecryptAndHash` on the same symmetric
/// state reads back: the plaintext comes back and both parties reach the
/// same symmetric state (the same handshake hash and nonce).
pub proof fn lemma_symmetric_roundtrip<C: Cipher, H: crate::crypto::hash::Hash>(
    st: SymmetricStateView,
    pt: Seq<u8>,
    out: Seq<u8>,
    inbuf: Seq<u8>,
)
    requires
        aead_opens_sealed::<C::State>(),
        st.cs.wf(),
        spec_encrypt_and_hash::<C, H>(st, pt, out).0 is Ok,
        inbuf.len() >= pt.len(),
    ensures
        ({
            let enc = spec_encrypt_and_hash::<C, H>(st, pt, out);
            let ct = enc.2.take(enc.0->Ok_0 as int);
            let dec = spec_decrypt_and_hash::<C, H>(st, ct, inbuf);
            &&& dec.0 is Ok
            &&& dec.1 == enc.1
            &&& dec.2.take(pt.len() as int) == pt
        }),
{
    let enc = spec_encrypt_and_hash::<C, H>(st, pt, out);
    let ct = enc.2.take(enc.0->Ok_0 as int);
    match st.cs.key() {
        None => {
            assert(ct =~= pt);
            let dec = spec_decrypt_and_hash::<C, H>(st, ct, inbuf);
            assert(dec.2.take(pt.len() as int) =~= pt);
        },
        Some(key) => {
            let sealed = C::State::spec_seal(key, st.cs.n, st.h, pt);
            assert(sealed.len() == pt.len() + 16);
            assert(ct =~= sealed);
            let dec = spec_decrypt_and_hash::<C, H>(st, ct, inbuf);
            assert(dec.2.take(pt.len() as int) =~= pt);
        },
    }
}

/// The operations of the symmetric state as the Noise specification
/// defines them (section 5.2): `MixHash` hashes the data after `h`;
/// `MixKey` takes the chaining key from the first `HKDF` output and a new
/// cipher key (the first 32 bytes of the second output) at nonce 0;
/// `MixKeyAndHash` takes the chaining key, the data mixed into `h` and the
/// cipher key from the three outputs in that order; and `Split` keys the
/// two cipher states from the two outputs of `HKDF(ck, zerolen)`.
pub proof fn lemma_noise_symmetric_operations<H: crate::crypto::hash::Hash>(
    st: SymmetricStateView,
    data: Seq<u8>,
)
    ensures
        spec_mix_hash::<H>(st, data) == (SymmetricStateView { h: H::spec_hash(st.h + data), ..st }),
        spec_mix_key::<H>(st, data) == (SymmetricStateView {
            cs: CipherStateView { k: Some(Some(hkdf_output2::<H>(st.ck, data).take(32))), n: 0 },
            ck: hkdf_output1::<H>(st.ck, data),
            ..st
        }),
        spec_mix_key_and_hash::<H>(st, data) == (SymmetricStateView {
            cs: CipherStateView { k: Some(Some(hkdf_output3::<H>(st.ck, data).take(32))), n: 0 },
            ck: hkdf_output1::<H>(st.ck, data),
            h: H::spec_hash(st.h + hkdf_output2::<H>(st.ck, data)),
            ..st
        }),
        spec_split::<H>(st).1 == (CipherStateView {
            k: Some(Some(hkdf_output1::<H>(st.ck, Seq::empty()).take(32))),
            n: 0,
        }),
        spec_split::<H>(st).2 == (CipherStateView {
            k: Some(Some(hkdf_output2::<H>(st.ck, Seq::empty()).take(32))),
            n: 0,
        }),
{
}

/// `EncryptAndHash` under a cipher key (Noise section 5.2): the plaintext
/// is encrypted with the handshake hash as associated data under the
/// current nonce, the ciphertext (16 bytes longer) is written at the start
/// of the buffer and hashed after `h`, and the nonce advances by one.
/// `DecryptAndHash` of that ciphertext on the same state gives the
/// plaintext back and reaches the same state.
pub proof fn lemma_noise_encrypt_and_hash<C: Cipher, H: crate::crypto::hash::Hash>(
    st: SymmetricStateView,
    pt: Seq<u8>,
    buf: Seq<u8>,
    inbuf: Seq<u8>,
)
    requires
        aead_opens_sealed::<C::State>(),
        st.cs.key() is Some,
        st.cs.n < u64::MAX,
        !C::State::spec_too_long(pt.len(), st.h.len()),
        pt.len() + 16 <= MAX_MESSAGE_LEN,
        buf.len() >= pt.len() + 16,
        inbuf.len() >= pt.len(),
    ensures
        ({
            let ct = C::State::spec_seal(st.cs.key()->0, st.cs.n, st.h, pt);
            let enc = spec_encrypt_and_hash::<C, H>(st, pt, buf);
            let dec = spec_decrypt_and_hash::<C, H>(st, enc.2.take(pt.len() + 16int), inbuf);
            &&& enc.0 == Ok::<usize, NoiseError>((pt.len() + 16) as usize)
            &&& enc.2.take(pt.len() + 16int) == ct
            &&& enc.1.h == H::spec_hash(st.h + ct)
            &&& enc.1.ck == st.ck
            &&& enc.1.cs == (CipherStateView { k: st.cs.k, n: (st.cs.n + 1) as u64 })
            &&& dec.0 is Ok
            &&& dec.1 == enc.1
            &&& dec.2.take(pt.len() as int) == pt
        }),
{
    let ct = C::State::spec_seal(st.cs.key()->0, st.cs.n, st.h, pt);
    let enc = spec_encrypt_and_hash::<C, H>(st, pt, buf);
    assert(enc.2.take(pt.len() + 16int) =~= ct);
    let dec = spec_decrypt_and_hash::<C, H>(st, ct, inbuf);
    assert(dec.2.take(pt.len() as int) =~= pt);
}

} // verus!
