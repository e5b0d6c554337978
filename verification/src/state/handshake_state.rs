//! The `HandshakeState` object of the Noise handshake
//! (<https://noiseprotocol.org/noise.html#the-handshakestate-object>).

use vstd::prelude::*;

use crate::constants::{MAX_MESSAGE_LEN, TAG_LEN};
use crate::crypto::cipher::{Cipher, InternalCipherState};
use crate::crypto::dh::{DHKeypair, DH};
use crate::error::{MissingKey, NoiseError};
use crate::patterns::roles::RoleMarker;
use crate::patterns::{sent_by_initiator, Pattern, Token};
use crate::state::symmetric_state::{
    spec_decrypt_and_hash, spec_encrypt_and_hash, spec_initialize_symmetric, spec_mix_hash,
    spec_mix_key, spec_mix_key_and_hash, spec_split, SymmetricState, SymmetricStateView,
};
use crate::state::cipher_state::CipherStateView;
use crate::state::transport_state::{opt_bytes, spec_transport, TransportState, TransportStateView};
use crate::types::Psk;

verus! {

// ---------------------------------------------------------------------------
// The model
// ---------------------------------------------------------------------------
/// The two keys of a DH keypair.
pub struct KeypairView {
    /// The public key.
    pub public: Seq<u8>,
    /// The private key.
    pub private: Seq<u8>,
}

/// The keys of the keypair `kp`.
pub open spec fn kp_view<K: DHKeypair>(kp: K) -> KeypairView {
    KeypairView { public: kp.spec_public(), private: kp.spec_private() }
}

/// The keys of the optional keypair `kp`.
pub open spec fn opt_kp_view<K: DHKeypair>(kp: Option<K>) -> Option<KeypairView> {
    match kp {
        Some(k) => Some(kp_view(k)),
        None => None,
    }
}

/// The mathematical content of a [`HandshakeKeys`].
pub struct HandshakeKeysView {
    /// The local static keypair.
    pub s: Option<KeypairView>,
    /// The local ephemeral keypair.
    pub e: Option<KeypairView>,
    /// The remote static public key.
    pub rs: Option<Seq<u8>>,
    /// The remote ephemeral public key.
    pub re: Option<Seq<u8>>,
    /// The pre-shared key.
    pub psk: Option<Seq<u8>>,
}

/// The optional keypair `kp` has keys of `len` bytes.
pub open spec fn keypair_has_len(kp: Option<KeypairView>, len: nat) -> bool {
    kp matches Some(k) ==> k.public.len() == len && k.private.len() == len
}

/// The optional key `k` has `len` bytes.
pub open spec fn key_has_len(k: Option<Seq<u8>>, len: nat) -> bool {
    k matches Some(b) ==> b.len() == len
}

impl HandshakeKeysView {
    /// Every key has the length of the DH function, `dhlen` bytes, and the
    /// pre-shared key has 32 bytes.
    pub open spec fn wf(self, dhlen: nat) -> bool {
        &&& keypair_has_len(self.s, dhlen)
        &&& keypair_has_len(self.e, dhlen)
        &&& key_has_len(self.rs, dhlen)
        &&& key_has_len(self.re, dhlen)
        &&& key_has_len(self.psk, 32)
    }

    /// No key at all.
    pub open spec fn empty() -> HandshakeKeysView {
        HandshakeKeysView { s: None, e: None, rs: None, re: None, psk: None }
    }

    /// The same keys with the local ephemeral keypair `e`.
    pub open spec fn with_e(self, e: Option<KeypairView>) -> HandshakeKeysView {
        HandshakeKeysView { e, ..self }
    }

    /// The same keys with the remote static key `rs`.
    pub open spec fn with_rs(self, rs: Option<Seq<u8>>) -> HandshakeKeysView {
        HandshakeKeysView { rs, ..self }
    }

    /// The same keys with the remote ephemeral key `re`.
    pub open spec fn with_re(self, re: Option<Seq<u8>>) -> HandshakeKeysView {
        HandshakeKeysView { re, ..self }
    }
}

/// The mathematical content of a [`HandshakeState`].
pub struct HandshakeStateView {
    /// The symmetric state.
    pub ss: SymmetricStateView,
    /// The keys of the handshake.
    pub keys: HandshakeKeysView,
    /// The local ephemeral key has been sent.
    pub e_set: bool,
    /// The index of the next handshake message.
    pub step: nat,
}

impl HandshakeStateView {
    /// The symmetric state and the keys are well formed.
    pub open spec fn wf<D: DH, H: crate::crypto::hash::Hash>(self) -> bool {
        &&& self.ss.wf::<H>()
        &&& self.keys.wf(D::spec_dhlen())
    }

    /// The same state with the symmetric state `ss`.
    pub open spec fn with_ss(self, ss: SymmetricStateView) -> HandshakeStateView {
        HandshakeStateView { ss, ..self }
    }

    /// The same state with the keys `keys`.
    pub open spec fn with_keys(self, keys: HandshakeKeysView) -> HandshakeStateView {
        HandshakeStateView { keys, ..self }
    }
}

/// The mathematical content of a [`HandshakeResult`].
pub enum HandshakeOutcome {
    /// The handshake goes on; `bytes` were written or read.
    Continue { bytes: nat },
    /// The handshake is finished.
    Complete { bytes_written: nat, transport: TransportStateView, handshake_hash: Seq<u8> },
}

/// The position reached in a handshake message being written: the state,
/// the number of bytes written and the content of the message buffer.
pub struct WriteCursor {
    /// The handshake state.
    pub st: HandshakeStateView,
    /// The number of bytes of the message written so far.
    pub idx: nat,
    /// The content of the message buffer.
    pub buf: Seq<u8>,
}

/// The position reached in a handshake message being read: the state and
/// the number of bytes of the message read so far.
pub struct ReadCursor {
    /// The handshake state.
    pub st: HandshakeStateView,
    /// The number of bytes of the message read so far.
    pub idx: nat,
}

/// The end of a piece of `len` bytes written at `buf_index`, or the error
/// when it would pass the maximum message length.
pub open spec fn spec_message_end(buf_index: nat, len: nat) -> Result<usize, NoiseError> {
    if buf_index + len > usize::MAX {
        Err(NoiseError::InvalidInput("Noise message length overflow"))
    } else if buf_index + len > MAX_MESSAGE_LEN {
        Err(NoiseError::InvalidInput("Noise message is too large."))
    } else {
        Ok((buf_index + len) as usize)
    }
}

// ---------------------------------------------------------------------------
// The tokens
// ---------------------------------------------------------------------------
/// `MixKey(DH(local, remote))` on `ss`, or the error when a key is
/// missing; `None` when the DH function refuses the remote key (the DH
/// panics).
pub open spec fn spec_mix_dh<D: DH, H: crate::crypto::hash::Hash>(
    ss: SymmetricStateView,
    local: Option<KeypairView>,
    missing_local: MissingKey,
    remote: Option<Seq<u8>>,
    missing_remote: MissingKey,
) -> Option<(Result<(), NoiseError>, SymmetricStateView)> {
    match local {
        None => Some((Err(NoiseError::MissingRequirements(missing_local)), ss)),
        Some(kp) => match remote {
            None => Some((Err(NoiseError::MissingRequirements(missing_remote)), ss)),
            Some(pk) => match D::spec_dh(kp.private, pk) {
                None => None,
                Some(secret) => Some((Ok(()), spec_mix_key::<H>(ss, secret))),
            },
        },
    }
}

/// The local keypair and the remote key that the DH token `t` of the party
/// `is_initiator` combines, each with the error reported when it is
/// missing: `e` or `s` for the first letter of the token, `re` or `rs` for
/// the second, the roles swapped for the responder.
pub open spec fn spec_dh_keys(is_initiator: bool, k: HandshakeKeysView, t: Token) -> (
    Option<KeypairView>,
    MissingKey,
    Option<Seq<u8>>,
    MissingKey,
) {
    let local_e = (k.e, MissingKey::LocalEphemeral);
    let local_s = (k.s, MissingKey::LocalStatic);
    let remote_e = (k.re, MissingKey::RemoteEphemeral);
    let remote_s = (k.rs, MissingKey::RemoteStatic);
    let (l, r) = match t {
        Token::EE => (local_e, remote_e),
        Token::ES => if is_initiator {
            (local_e, remote_s)
        } else {
            (local_s, remote_e)
        },
        Token::SE => if is_initiator {
            (local_s, remote_e)
        } else {
            (local_e, remote_s)
        },
        _ => (local_s, remote_s),
    };
    (l.0, l.1, r.0, r.1)
}

/// The tokens `ee`, `es`, `se`, `ss` and `psk` of the party `is_initiator`;
/// the other tokens leave the state as it is. `None` when the DH function
/// refuses the remote key (the DH panics).
pub open spec fn spec_dh_token<D: DH, H: crate::crypto::hash::Hash>(
    is_initiator: bool,
    st: HandshakeStateView,
    t: Token,
) -> Option<(Result<(), NoiseError>, HandshakeStateView)> {
    match t {
        Token::PSK => match st.keys.psk {
            None => Some((Err(NoiseError::MissingRequirements(MissingKey::Psk)), st)),
            Some(p) => Some((Ok(()), st.with_ss(spec_mix_key_and_hash::<H>(st.ss, p)))),
        },
        Token::E => Some((Ok(()), st)),
        Token::S => Some((Ok(()), st)),
        _ => {
            let keys = spec_dh_keys(is_initiator, st.keys, t);
            match spec_mix_dh::<D, H>(st.ss, keys.0, keys.1, keys.2, keys.3) {
                None => None,
                Some(r) => Some((r.0, st.with_ss(r.1))),
            }
        },
    }
}

/// `MixHash(pk)`, followed by `MixKey(pk)` when the pattern holds a
/// pre-shared key.
pub open spec fn spec_mix_ephemeral<H: crate::crypto::hash::Hash>(
    ss: SymmetricStateView,
    psk: bool,
    pk: Seq<u8>,
) -> SymmetricStateView {
    let mixed = spec_mix_hash::<H>(ss, pk);
    if psk {
        spec_mix_key::<H>(mixed, pk)
    } else {
        mixed
    }
}

/// Writing the token `e`: the local ephemeral keypair (or `fresh`, the
/// keypair generated when there is none) is written into the message and
/// mixed into the hash.
pub open spec fn spec_write_e<D: DH, H: crate::crypto::hash::Hash>(
    psk: bool,
    c: WriteCursor,
    fresh: Option<KeypairView>,
) -> (Result<(), NoiseError>, WriteCursor) {
    let st = c.st;
    if st.e_set {
        (Err(NoiseError::InvalidState("e must be empty")), c)
    } else {
        let e = if st.keys.e is Some {
            st.keys.e
        } else {
            fresh
        };
        match spec_message_end(c.idx, D::spec_dhlen()) {
            Err(err) => (Err(err), c),
            Ok(end) => if c.buf.len() < end {
                (Err(NoiseError::InvalidState("Truncated message")), c)
            } else {
                match e {
                    None => (Err(NoiseError::InvalidState("Couldn't generate an ephemeral key")), c),
                    Some(kp) => (
                        Ok(()),
                        WriteCursor {
                            st: HandshakeStateView {
                                ss: spec_mix_ephemeral::<H>(st.ss, psk, kp.public),
                                keys: st.keys.with_e(Some(kp)),
                                e_set: true,
                                step: st.step,
                            },
                            idx: end as nat,
                            buf: c.buf.take(c.idx as int) + kp.public + c.buf.skip(end as int),
                        },
                    )
                }
            },
        }
    }
}

/// Writing the token `s`: the local static public key, encrypted when a
/// cipher key is set, is written into the message.
pub open spec fn spec_write_s<D: DH, C: Cipher, H: crate::crypto::hash::Hash>(c: WriteCursor) -> (
    Result<(), NoiseError>,
    WriteCursor,
) {
    match c.st.keys.s {
        None => (Err(NoiseError::MissingRequirements(MissingKey::LocalStatic)), c),
        Some(kp) => match spec_message_end(c.idx, D::spec_dhlen() + 16) {
            Err(err) => (Err(err), c),
            Ok(end) => if c.buf.len() < end {
                (Err(NoiseError::InvalidState("Message buffer is full")), c)
            } else {
                let enc = spec_encrypt_and_hash::<C, H>(
                    c.st.ss,
                    kp.public,
                    c.buf.subrange(c.idx as int, end as int),
                );
                let buf = c.buf.take(c.idx as int) + enc.2 + c.buf.skip(end as int);
                match enc.0 {
                    Ok(n) => (Ok(()), WriteCursor { st: c.st.with_ss(enc.1), idx: (c.idx + n) as nat, buf }),
                    Err(err) => (Err(err), WriteCursor { st: c.st.with_ss(enc.1), idx: c.idx, buf }),
                }
            },
        },
    }
}

/// Writing the token `t`; `None` when a DH panics.
pub open spec fn spec_write_token<D: DH, C: Cipher, H: crate::crypto::hash::Hash>(
    is_initiator: bool,
    psk: bool,
    c: WriteCursor,
    t: Token,
    fresh: Option<KeypairView>,
) -> Option<(Result<(), NoiseError>, WriteCursor)> {
    match t {
        Token::E => Some(spec_write_e::<D, H>(psk, c, fresh)),
        Token::S => Some(spec_write_s::<D, C, H>(c)),
        _ => match spec_dh_token::<D, H>(is_initiator, c.st, t) {
            None => None,
            Some(r) => Some((r.0, WriteCursor { st: r.1, ..c })),
        },
    }
}

/// Writing the tokens `tokens` in order, up to the first error; `None`
/// when a DH panics.
pub open spec fn spec_write_tokens<D: DH, C: Cipher, H: crate::crypto::hash::Hash>(
    is_initiator: bool,
    psk: bool,
    c: WriteCursor,
    tokens: Seq<Token>,
    fresh: Option<KeypairView>,
) -> Option<(Result<(), NoiseError>, WriteCursor)>
    decreases tokens.len(),
{
    if tokens.len() == 0 {
        Some((Ok(()), c))
    } else {
        match spec_write_token::<D, C, H>(is_initiator, psk, c, tokens[0], fresh) {
            None => None,
            Some(r) => match r.0 {
                Err(err) => Some((Err(err), r.1)),
                Ok(_) => spec_write_tokens::<D, C, H>(is_initiator, psk, r.1, tokens.skip(1), fresh),
            },
        }
    }
}

/// Reading the token `e`: the remote ephemeral key is taken from the
/// message and mixed into the hash.
pub open spec fn spec_read_e<D: DH, H: crate::crypto::hash::Hash>(
    psk: bool,
    c: ReadCursor,
    message: Seq<u8>,
) -> (Result<(), NoiseError>, ReadCursor) {
    let st = c.st;
    if st.keys.re is Some {
        (Err(NoiseError::InvalidState("re must be empty")), c)
    } else if message.len() < c.idx + D::spec_dhlen() {
        (Err(NoiseError::InvalidState("Truncated message for e")), c)
    } else {
        let re = message.subrange(c.idx as int, (c.idx + D::spec_dhlen()) as int);
        (
            Ok(()),
            ReadCursor {
                st: HandshakeStateView {
                    ss: spec_mix_ephemeral::<H>(st.ss, psk, re),
                    keys: st.keys.with_re(Some(re)),
                    ..st
                },
                idx: c.idx + D::spec_dhlen(),
            },
        )
    }
}

/// `len` zero bytes.
pub open spec fn zeros(len: nat) -> Seq<u8> {
    Seq::new(len, |i: int| 0u8)
}

/// Reading the token `s`: the remote static key is taken from the
/// message, decrypted when a cipher key is set.
pub open spec fn spec_read_s<D: DH, C: Cipher, H: crate::crypto::hash::Hash>(
    c: ReadCursor,
    message: Seq<u8>,
) -> (Result<(), NoiseError>, ReadCursor) {
    let st = c.st;
    let len = if st.ss.cs.k is Some {
        D::spec_dhlen() + 16
    } else {
        D::spec_dhlen()
    };
    if message.len() < c.idx + len {
        (Err(NoiseError::InvalidState("Truncated message for e")), c)
    } else {
        let dec = spec_decrypt_and_hash::<C, H>(
            st.ss,
            message.subrange(c.idx as int, (c.idx + len) as int),
            zeros(D::spec_dhlen() + 16),
        );
        match dec.0 {
            Err(err) => (Err(err), ReadCursor { st: st.with_ss(dec.1), idx: c.idx + len }),
            Ok(_) => (
                Ok(()),
                ReadCursor {
                    st: HandshakeStateView {
                        ss: dec.1,
                        keys: st.keys.with_rs(Some(dec.2.take(D::spec_dhlen() as int))),
                        ..st
                    },
                    idx: c.idx + len,
                },
            ),
        }
    }
}

/// Reading the token `t`; `None` when a DH panics.
pub open spec fn spec_read_token<D: DH, C: Cipher, H: crate::crypto::hash::Hash>(
    is_initiator: bool,
    psk: bool,
    c: ReadCursor,
    t: Token,
    message: Seq<u8>,
) -> Option<(Result<(), NoiseError>, ReadCursor)> {
    match t {
        Token::E => Some(spec_read_e::<D, H>(psk, c, message)),
        Token::S => Some(spec_read_s::<D, C, H>(c, message)),
        _ => match spec_dh_token::<D, H>(is_initiator, c.st, t) {
            None => None,
            Some(r) => Some((r.0, ReadCursor { st: r.1, ..c })),
        },
    }
}

/// Reading the tokens `tokens` in order, up to the first error; `None` when
/// a DH panics.
pub open spec fn spec_read_tokens<D: DH, C: Cipher, H: crate::crypto::hash::Hash>(
    is_initiator: bool,
    psk: bool,
    c: ReadCursor,
    tokens: Seq<Token>,
    message: Seq<u8>,
) -> Option<(Result<(), NoiseError>, ReadCursor)>
    decreases tokens.len(),
{
    if tokens.len() == 0 {
        Some((Ok(()), c))
    } else {
        match spec_read_token::<D, C, H>(is_initiator, psk, c, tokens[0], message) {
            None => None,
            Some(r) => match r.0 {
                Err(err) => Some((Err(err), r.1)),
                Ok(_) => spec_read_tokens::<D, C, H>(is_initiator, psk, r.1, tokens.skip(1), message),
            },
        }
    }
}

// ---------------------------------------------------------------------------
// The messages
// ---------------------------------------------------------------------------
/// The end of a handshake message of `bytes` bytes: after the last message
/// the symmetric state is split into the transport state and the keys are
/// erased.
pub open spec fn spec_finish<R: RoleMarker, H: crate::crypto::hash::Hash>(
    st: HandshakeStateView,
    bytes: nat,
    n_messages: nat,
) -> (Result<HandshakeOutcome, NoiseError>, HandshakeStateView) {
    if st.step == n_messages {
        let sp = spec_split::<H>(st.ss);
        (
            Ok(
                HandshakeOutcome::Complete {
                    bytes_written: bytes,
                    transport: spec_transport(R::spec_is_initiator(), sp.1, sp.2, st.keys.rs),
                    handshake_hash: sp.0.h,
                },
            ),
            HandshakeStateView { ss: sp.0, keys: HandshakeKeysView::empty(), ..st },
        )
    } else {
        (Ok(HandshakeOutcome::Continue { bytes }), st)
    }
}

/// Writing the payload of a handshake message at `idx` in `buf`: the end
/// of the message (or the error), the new state and the new content of
/// `buf`.
pub open spec fn spec_write_payload<C: Cipher, H: crate::crypto::hash::Hash>(
    st: HandshakeStateView,
    payload: Seq<u8>,
    buf: Seq<u8>,
    idx: nat,
) -> (Result<usize, NoiseError>, HandshakeStateView, Seq<u8>) {
    if payload.len() > buf.len() - idx {
        (Err(NoiseError::InvalidState("No place left for the payload")), st, buf)
    } else {
        let enc = spec_encrypt_and_hash::<C, H>(st.ss, payload, buf.skip(idx as int));
        let st2 = st.with_ss(enc.1);
        let buf2 = buf.take(idx as int) + enc.2;
        match enc.0 {
            Err(err) => (Err(err), st2, buf2),
            Ok(n) => (spec_message_end(idx, n as nat), st2, buf2),
        }
    }
}

/// `WriteMessage(payload, message_buffer)` for the pattern `P` and the role
/// `R`, where `fresh` is the keypair generated for the token `e` when no
/// local ephemeral keypair is set: the result, the new state and the new
/// content of the message buffer; `None` when a DH panics.
pub open spec fn spec_write_message<
    P: Pattern,
    R: RoleMarker,
    D: DH,
    C: Cipher,
    H: crate::crypto::hash::Hash,
>(st: HandshakeStateView, payload: Seq<u8>, buf: Seq<u8>, fresh: Option<KeypairView>) -> Option<
    (Result<HandshakeOutcome, NoiseError>, HandshakeStateView, Seq<u8>),
> {
    let hs = P::spec_handshake();
    if st.step >= hs.messages.len() {
        Some((Err(NoiseError::HandshakeFinished), st, buf))
    } else if sent_by_initiator(st.step as int) != R::spec_is_initiator() {
        Some((Err(NoiseError::InvalidState("Not this party's turn to write")), st, buf))
    } else {
        match spec_write_tokens::<D, C, H>(
            R::spec_is_initiator(),
            hs.has_psk(),
            WriteCursor { st, idx: 0, buf },
            hs.messages[st.step as int],
            fresh,
        ) {
            None => None,
            Some(w) => {
                let c = w.1;
                if w.0 is Err {
                    Some((Err(w.0->Err_0), c.st, c.buf))
                } else {
                    let p = spec_write_payload::<C, H>(
                        HandshakeStateView { step: st.step + 1, ..c.st },
                        payload,
                        c.buf,
                        c.idx,
                    );
                    match p.0 {
                        Err(err) => Some((Err(err), p.1, p.2)),
                        Ok(end) => {
                            let f = spec_finish::<R, H>(p.1, end as nat, hs.messages.len());
                            Some((f.0, f.1, p.2))
                        },
                    }
                }
            },
        }
    }
}

/// `ReadMessage(message, payload_buffer)` for the pattern `P` and the role
/// `R`: the result, the new state and the new content of the payload
/// buffer; `None` on the inputs where a DH panics.
pub open spec fn spec_read_message<
    P: Pattern,
    R: RoleMarker,
    D: DH,
    C: Cipher,
    H: crate::crypto::hash::Hash,
>(st: HandshakeStateView, message: Seq<u8>, payload_buf: Seq<u8>) -> Option<
    (Result<HandshakeOutcome, NoiseError>, HandshakeStateView, Seq<u8>),
> {
    let hs = P::spec_handshake();
    if message.len() > MAX_MESSAGE_LEN {
        Some((Err(NoiseError::InvalidInput("Message received too big")), st, payload_buf))
    } else if st.step >= hs.messages.len() {
        Some((Err(NoiseError::HandshakeFinished), st, payload_buf))
    } else if sent_by_initiator(st.step as int) == R::spec_is_initiator() {
        Some((Err(NoiseError::InvalidState("Not this party's turn to read")), st, payload_buf))
    } else {
        match spec_read_tokens::<D, C, H>(
            R::spec_is_initiator(),
            hs.has_psk(),
            ReadCursor { st, idx: 0 },
            hs.messages[st.step as int],
            message,
        ) {
            None => None,
            Some(rd) => {
                let c = rd.1;
                let st1 = HandshakeStateView { step: st.step + 1, ..c.st };
                let rest = message.skip(c.idx as int);
                if rd.0 is Err {
                    Some((Err(rd.0->Err_0), c.st, payload_buf))
                } else {
                    let dec = spec_decrypt_and_hash::<C, H>(st1.ss, rest, payload_buf);
                    let st2 = st1.with_ss(dec.1);
                    match dec.0 {
                        Err(err) => Some((Err(err), st2, dec.2)),
                        Ok(_) => {
                            let f = spec_finish::<R, H>(st2, message.len(), hs.messages.len());
                            Some((f.0, f.1, dec.2))
                        },
                    }
                }
            },
        }
    }
}

/// The protocol name `Noise_<pattern>_<dh>_<cipher>_<hash>`.
pub open spec fn spec_protocol_name<P: Pattern, D: DH, C: Cipher, H: crate::crypto::hash::Hash>() -> Seq<
    char,
> {
    "Noise_"@ + P::spec_name() + "_"@ + D::spec_name() + "_"@ + C::spec_name() + "_"@
        + H::spec_name()
}

/// Mixing the pre-message keys `tokens` of one party into `ss`: its static
/// key `s` or its ephemeral key `e`, or the error `missing_s` or
/// `missing_e` when that key is not set.
pub open spec fn spec_mix_pre_messages<H: crate::crypto::hash::Hash>(
    ss: SymmetricStateView,
    tokens: Seq<Token>,
    s: Option<Seq<u8>>,
    missing_s: MissingKey,
    e: Option<Seq<u8>>,
    missing_e: MissingKey,
) -> Result<SymmetricStateView, NoiseError>
    decreases tokens.len(),
{
    if tokens.len() == 0 {
        Ok(ss)
    } else {
        let key = if tokens[0] == Token::S {
            s
        } else {
            e
        };
        match key {
            None => Err(
                NoiseError::MissingRequirements(
                    if tokens[0] == Token::S {
                        missing_s
                    } else {
                        missing_e
                    },
                ),
            ),
            Some(k) => spec_mix_pre_messages::<H>(
                spec_mix_hash::<H>(ss, k),
                tokens.skip(1),
                s,
                missing_s,
                e,
                missing_e,
            ),
        }
    }
}

/// The public key of the keypair that `kp` refers to, if any.
pub open spec fn opt_ref_public<K: DHKeypair>(kp: Option<&K>) -> Option<Seq<u8>> {
    match kp {
        Some(k) => Some(k.spec_public()),
        None => None,
    }
}

/// The bytes that `v` refers to, if any.
pub open spec fn opt_ref_bytes(v: Option<&Vec<u8>>) -> Option<Seq<u8>> {
    match v {
        Some(b) => Some(b@),
        None => None,
    }
}

/// The public key of the optional keypair `kp`.
pub open spec fn opt_public(kp: Option<KeypairView>) -> Option<Seq<u8>> {
    match kp {
        Some(k) => Some(k.public),
        None => None,
    }
}

/// `Initialize(...)` for the pattern `P` and the role `R`: the state after
/// the protocol name, the prologue and the pre-message keys are mixed in,
/// or the error when a pre-message key is missing.
pub open spec fn spec_initialize<
    P: Pattern,
    R: RoleMarker,
    D: DH,
    C: Cipher,
    H: crate::crypto::hash::Hash,
>(prologue: Seq<u8>, keys: HandshakeKeysView) -> Result<HandshakeStateView, NoiseError> {
    let hs = P::spec_handshake();
    let ss0 = spec_mix_hash::<H>(
        spec_initialize_symmetric::<H>(
            vstd::utf8::encode_utf8(spec_protocol_name::<P, D, C, H>()),
        ),
        prologue,
    );
    let local_s = opt_public(keys.s);
    let local_e = opt_public(keys.e);
    let (init_s, init_e, resp_s, resp_e) = if R::spec_is_initiator() {
        (local_s, local_e, keys.rs, keys.re)
    } else {
        (keys.rs, keys.re, local_s, local_e)
    };
    let (miss_init_s, miss_init_e, miss_resp_s, miss_resp_e) = if R::spec_is_initiator() {
        (
            MissingKey::LocalStatic,
            MissingKey::LocalEphemeral,
            MissingKey::RemoteStatic,
            MissingKey::RemoteEphemeral,
        )
    } else {
        (
            MissingKey::RemoteStatic,
            MissingKey::RemoteEphemeral,
            MissingKey::LocalStatic,
            MissingKey::LocalEphemeral,
        )
    };
    match spec_mix_pre_messages::<H>(ss0, hs.pre_initiator, init_s, miss_init_s, init_e, miss_init_e) {
        Err(err) => Err(err),
        Ok(ss1) => match spec_mix_pre_messages::<H>(
            ss1,
            hs.pre_responder,
            resp_s,
            miss_resp_s,
            resp_e,
            miss_resp_e,
        ) {
            Err(err) => Err(err),
            Ok(ss2) => Ok(HandshakeStateView { ss: ss2, keys, e_set: false, step: 0 }),
        },
    }
}

// ---------------------------------------------------------------------------
// The objects
// ---------------------------------------------------------------------------
/// The outcome of a single [`HandshakeState::write_message`] or
/// [`HandshakeState::read_message`] call.
pub enum HandshakeResult<C: Cipher, D: DH, R: RoleMarker> {
    /// The handshake message was processed successfully but the handshake
    /// isn't finished yet.
    Continue {
        /// The number of bytes written to (or consumed from) the message
        /// buffer for this step.
        bytes: usize,
    },
    /// The final handshake message was processed, the handshake is finished
    /// and transport encryption can begin.
    Complete {
        /// The number of bytes written to (or consumed from) the message
        /// buffer for the final step.
        bytes_written: usize,
        /// The resulting [`TransportState`] used to encrypt/decrypt
        /// application data after the handshake.
        transport_state: TransportState<C, D, R>,
        /// The final hash of the handshake (`h`).
        handshake_hash: Vec<u8>,
    },
}

impl<C: Cipher, D: DH, R: RoleMarker> View for HandshakeResult<C, D, R> {
    type V = HandshakeOutcome;

    open spec fn view(&self) -> HandshakeOutcome {
        match self {
            HandshakeResult::Continue { bytes } => HandshakeOutcome::Continue { bytes: *bytes as nat },
            HandshakeResult::Complete { bytes_written, transport_state, handshake_hash } => {
                HandshakeOutcome::Complete {
                    bytes_written: *bytes_written as nat,
                    transport: transport_state@,
                    handshake_hash: handshake_hash@,
                }
            },
        }
    }
}

/// The result of a handshake step as a mathematical value.
pub open spec fn outcome_view<C: Cipher, D: DH, R: RoleMarker>(
    r: Result<HandshakeResult<C, D, R>, NoiseError>,
) -> Result<HandshakeOutcome, NoiseError> {
    match r {
        Ok(h) => Ok(h@),
        Err(e) => Err(e),
    }
}

/// The key material given by the user for the handshake.
///
/// Which fields are required depends on the chosen [`Pattern`] and
/// [`RoleMarker`].
pub struct HandshakeKeys<D: DH> {
    /// The local static keypair.
    pub s: Option<D::Keypair>,
    /// The local ephemeral keypair.
    pub e: Option<D::Keypair>,
    /// The remote static public key.
    pub rs: Option<Vec<u8>>,
    /// The remote ephemeral public key.
    pub re: Option<Vec<u8>>,
    /// The pre-shared key.
    pub psk: Option<Psk>,
}

impl<D: DH> View for HandshakeKeys<D> {
    type V = HandshakeKeysView;

    open spec fn view(&self) -> HandshakeKeysView {
        HandshakeKeysView {
            s: opt_kp_view(self.s),
            e: opt_kp_view(self.e),
            rs: opt_bytes(self.rs),
            re: opt_bytes(self.re),
            psk: match self.psk {
                Some(p) => Some(p.0@),
                None => None,
            },
        }
    }
}

impl<D: DH> HandshakeKeys<D> {
    /// Drops every key.
    fn clear(&mut self)
        ensures
            final(self)@ == HandshakeKeysView::empty(),
    {
        self.s = None;
        self.e = None;
        self.rs = None;
        self.re = None;
        self.psk = None;
    }
}

/// Both keys of the optional keypair `kp` have the length of the DH
/// function `D`.
proof fn lemma_keypair_len<D: DH>(kp: Option<D::Keypair>)
    ensures
        keypair_has_len(opt_kp_view(kp), D::spec_dhlen()),
{
    D::lemma_lengths();
    if let Some(k) = kp {
        k.lemma_key_lengths();
    }
}

/// Computes `buf_index + len`, checking for both integer overflow and the
/// maximum message length of the Noise specification
/// ([`MAX_MESSAGE_LEN`]).
pub fn checked_message_end(buf_index: usize, len: usize) -> (r: Result<usize, NoiseError>)
    ensures
        r == spec_message_end(buf_index as nat, len as nat),
{
    let end = match buf_index.checked_add(len) {
        Some(end) => end,
        None => {
            return Err(NoiseError::InvalidInput("Noise message length overflow"));
        },
    };
    if end > MAX_MESSAGE_LEN {
        return Err(NoiseError::InvalidInput("Noise message is too large."));
    }
    Ok(end)
}

/// The Noise `HandshakeState` object: drives the handshake message sequence
/// for a given [`Pattern`], [`RoleMarker`], DH function, cipher and hash.
///
/// Created via [`HandshakeState::initialize`], generally called by
/// [`HandshakeParamsBuilder::build`](crate::builder::HandshakeParamsBuilder::build).
pub struct HandshakeState<P: Pattern, R: RoleMarker, D: DH, C: Cipher, H: crate::crypto::hash::Hash> {
    s_state: SymmetricState<C, H>,
    keys: HandshakeKeys<D>,
    e_set: bool,
    step: usize,
    _marker: core::marker::PhantomData<(P, R)>,
}

impl<P: Pattern, R: RoleMarker, D: DH, C: Cipher, H: crate::crypto::hash::Hash> View for HandshakeState<
    P,
    R,
    D,
    C,
    H,
> {
    type V = HandshakeStateView;

    closed spec fn view(&self) -> HandshakeStateView {
        HandshakeStateView {
            ss: self.s_state@,
            keys: self.keys@,
            e_set: self.e_set,
            step: self.step as nat,
        }
    }
}

impl<P: Pattern, R: RoleMarker, C: Cipher, D: DH, H: crate::crypto::hash::Hash> HandshakeState<
    P,
    R,
    D,
    C,
    H,
> {
    /// The state is well formed.
    pub open spec fn wf(&self) -> bool {
        self@.wf::<D, H>()
    }

    /// Mixes the local party's own pre-message keys `tokens` into the
    /// handshake hash.
    ///
    /// Returns [`NoiseError::MissingRequirements`] if a pre-message token
    /// requires a key that wasn't supplied.
    fn mix_pre_messages_init(
        state: &mut SymmetricState<C, H>,
        tokens: &[Token],
        s: Option<&D::Keypair>,
        e: Option<&D::Keypair>,
    ) -> (r: Result<(), NoiseError>)
        requires
            old(state).wf(),
            forall|i: int| 0 <= i < tokens@.len() ==> (#[trigger] tokens@[i] == Token::E || tokens@[i] == Token::S),
        ensures
            final(state).wf(),
            match spec_mix_pre_messages::<H>(
                old(state)@,
                tokens@,
                opt_ref_public(s),
                MissingKey::LocalStatic,
                opt_ref_public(e),
                MissingKey::LocalEphemeral,
            ) {
                Ok(ss) => r is Ok && final(state)@ == ss,
                Err(err) => r == Err::<(), NoiseError>(err),
            },
    {
        let ghost spec_s = opt_ref_public(s);
        let ghost spec_e = opt_ref_public(e);
        let ghost goal = spec_mix_pre_messages::<H>(
            old(state)@,
            tokens@,
            spec_s,
            MissingKey::LocalStatic,
            spec_e,
            MissingKey::LocalEphemeral,
        );
        proof {
            assert(tokens@.skip(0) =~= tokens@);
        }
        let mut i: usize = 0;
        while i < tokens.len()
            invariant
                0 <= i <= tokens@.len(),
                state.wf(),
                forall|k: int| 0 <= k < tokens@.len() ==> (#[trigger] tokens@[k] == Token::E || tokens@[k] == Token::S),
                spec_s == opt_ref_public(s),
                spec_e == opt_ref_public(e),
                goal == spec_mix_pre_messages::<H>(
                    old(state)@,
                    tokens@,
                    spec_s,
                    MissingKey::LocalStatic,
                    spec_e,
                    MissingKey::LocalEphemeral,
                ),
                goal == spec_mix_pre_messages::<H>(
                    state@,
                    tokens@.skip(i as int),
                    spec_s,
                    MissingKey::LocalStatic,
                    spec_e,
                    MissingKey::LocalEphemeral,
                ),
            decreases tokens@.len() - i,
        {
            proof {
                assert(tokens@.skip(i as int)[0] == tokens@[i as int]);
                assert(tokens@.skip(i as int).skip(1) =~= tokens@.skip(i + 1));
            }
            let kp = if tokens[i] == Token::S {
                match s {
                    Some(k) => k,
                    None => {
                        return Err(NoiseError::MissingRequirements(MissingKey::LocalStatic));
                    },
                }
            } else {
                match e {
                    Some(k) => k,
                    None => {
                        return Err(NoiseError::MissingRequirements(MissingKey::LocalEphemeral));
                    },
                }
            };
            let pk = kp.pubkey_bytes();
            state.mix_hash(pk.as_slice());
            i += 1;
        }
        proof {
            assert(tokens@.skip(i as int).len() == 0);
        }
        Ok(())
    }

    /// Mixes the peer's pre-message keys `tokens` into the handshake hash.
    ///
    /// Returns [`NoiseError::MissingRequirements`] if a pre-message token
    /// requires a key that wasn't supplied.
    fn mix_pre_messages_remote(
        state: &mut SymmetricState<C, H>,
        tokens: &[Token],
        rs: Option<&Vec<u8>>,
        re: Option<&Vec<u8>>,
    ) -> (r: Result<(), NoiseError>)
        requires
            old(state).wf(),
            forall|i: int| 0 <= i < tokens@.len() ==> (#[trigger] tokens@[i] == Token::E || tokens@[i] == Token::S),
        ensures
            final(state).wf(),
            match spec_mix_pre_messages::<H>(
                old(state)@,
                tokens@,
                opt_ref_bytes(rs),
                MissingKey::RemoteStatic,
                opt_ref_bytes(re),
                MissingKey::RemoteEphemeral,
            ) {
                Ok(ss) => r is Ok && final(state)@ == ss,
                Err(err) => r == Err::<(), NoiseError>(err),
            },
    {
        let ghost spec_s = opt_ref_bytes(rs);
        let ghost spec_e = opt_ref_bytes(re);
        let ghost goal = spec_mix_pre_messages::<H>(
            old(state)@,
            tokens@,
            spec_s,
            MissingKey::RemoteStatic,
            spec_e,
            MissingKey::RemoteEphemeral,
        );
        proof {
            assert(tokens@.skip(0) =~= tokens@);
        }
        let mut i: usize = 0;
        while i < tokens.len()
            invariant
                0 <= i <= tokens@.len(),
                state.wf(),
                forall|k: int| 0 <= k < tokens@.len() ==> (#[trigger] tokens@[k] == Token::E || tokens@[k] == Token::S),
                spec_s == opt_ref_bytes(rs),
                spec_e == opt_ref_bytes(re),
                goal == spec_mix_pre_messages::<H>(
                    old(state)@,
                    tokens@,
                    spec_s,
                    MissingKey::RemoteStatic,
                    spec_e,
                    MissingKey::RemoteEphemeral,
                ),
                goal == spec_mix_pre_messages::<H>(
                    state@,
                    tokens@.skip(i as int),
                    spec_s,
                    MissingKey::RemoteStatic,
                    spec_e,
                    MissingKey::RemoteEphemeral,
                ),
            decreases tokens@.len() - i,
        {
            proof {
                assert(tokens@.skip(i as int)[0] == tokens@[i as int]);
                assert(tokens@.skip(i as int).skip(1) =~= tokens@.skip(i + 1));
            }
            let pk = if tokens[i] == Token::S {
                match rs {
                    Some(k) => k,
                    None => {
                        return Err(NoiseError::MissingRequirements(MissingKey::RemoteStatic));
                    },
                }
            } else {
                match re {
                    Some(k) => k,
                    None => {
                        return Err(NoiseError::MissingRequirements(MissingKey::RemoteEphemeral));
                    },
                }
            };
            let bytes = D::pubkey_bytes(pk.as_slice());
            state.mix_hash(bytes.as_slice());
            i += 1;
        }
        proof {
            assert(tokens@.skip(i as int).len() == 0);
        }
        Ok(())
    }

    /// Creates the canonical Noise protocol name string, ex:
    /// `Noise_XX_25519_AESGCM_SHA256`. Used to initialize the symmetric
    /// state.
    fn canonical_name() -> (r: String)
        ensures
            r@ == spec_protocol_name::<P, D, C, H>(),
    {
        let mut name = String::from_str("Noise_");
        name.append(P::name());
        name.append("_");
        name.append(D::name());
        name.append("_");
        name.append(C::name());
        name.append("_");
        name.append(H::name());
        name
    }

    /// Creates a new `HandshakeState` from a given `prologue` and `keys`.
    ///
    /// This is normally called via
    /// [`HandshakeParamsBuilder::build`](crate::builder::HandshakeParamsBuilder::build)
    /// rather than directly.
    ///
    /// Returns [`NoiseError::MissingRequirements`] if `keys` is missing a
    /// key required by `P`'s pre-messages for either role.
    pub fn initialize(prologue: &[u8], keys: HandshakeKeys<D>) -> (r: Result<Self, NoiseError>)
        requires
            keys@.wf(D::spec_dhlen()),
        ensures
            match spec_initialize::<P, R, D, C, H>(prologue@, keys@) {
                Ok(v) => r matches Ok(hs) && hs@ == v && hs.wf(),
                Err(err) => r matches Err(e) && e == err,
            },
    {
        proof {
            P::lemma_pre_messages();
        }
        let protocol_name = Self::canonical_name();
        let mut s_state = SymmetricState::<C, H>::initialize_symmetric(protocol_name.as_str().as_bytes());
        s_state.mix_hash(prologue);
        let pattern = P::handshake();
        let init_pre = pattern.initiator_pre_messages();
        let resp_pre = pattern.responder_pre_messages();
        if R::is_initiator() {
            match Self::mix_pre_messages_init(&mut s_state, init_pre, keys.s.as_ref(), keys.e.as_ref()) {
                Ok(()) => {},
                Err(err) => {
                    return Err(err);
                },
            }
            match Self::mix_pre_messages_remote(
                &mut s_state,
                resp_pre,
                keys.rs.as_ref(),
                keys.re.as_ref(),
            ) {
                Ok(()) => {},
                Err(err) => {
                    return Err(err);
                },
            }
        } else {
            match Self::mix_pre_messages_remote(
                &mut s_state,
                init_pre,
                keys.rs.as_ref(),
                keys.re.as_ref(),
            ) {
                Ok(()) => {},
                Err(err) => {
                    return Err(err);
                },
            }
            match Self::mix_pre_messages_init(&mut s_state, resp_pre, keys.s.as_ref(), keys.e.as_ref()) {
                Ok(()) => {},
                Err(err) => {
                    return Err(err);
                },
            }
        }
        Ok(Self { s_state, keys, e_set: false, step: 0, _marker: core::marker::PhantomData })
    }

    /// `MixKey(DH(local, remote))` on `s_state`.
    ///
    /// Returns [`NoiseError::MissingRequirements`] with `missing_local` or
    /// `missing_remote` if a key is missing.
    fn mix_dh(
        s_state: &mut SymmetricState<C, H>,
        local: Option<&D::Keypair>,
        missing_local: MissingKey,
        remote: Option<&Vec<u8>>,
        missing_remote: MissingKey,
    ) -> (r: Result<(), NoiseError>)
        requires
            old(s_state).wf(),
            key_has_len(opt_ref_bytes(remote), D::spec_dhlen()),
            spec_mix_dh::<D, H>(
                old(s_state)@,
                match local {
                    Some(k) => Some(kp_view(*k)),
                    None => None,
                },
                missing_local,
                opt_ref_bytes(remote),
                missing_remote,
            ) is Some,
        ensures
            spec_mix_dh::<D, H>(
                old(s_state)@,
                match local {
                    Some(k) => Some(kp_view(*k)),
                    None => None,
                },
                missing_local,
                opt_ref_bytes(remote),
                missing_remote,
            ) == Some((r, final(s_state)@)),
            final(s_state).wf(),
    {
        let kp = match local {
            Some(kp) => kp,
            None => {
                return Err(NoiseError::MissingRequirements(missing_local));
            },
        };
        let pk = match remote {
            Some(pk) => pk,
            None => {
                return Err(NoiseError::MissingRequirements(missing_remote));
            },
        };
        proof {
            D::lemma_lengths();
            kp.lemma_key_lengths();
        }
        let secret = D::dh(kp.private(), pk.as_slice());
        s_state.mix_key::<D>(secret.as_slice());
        Ok(())
    }

    /// Performs the `ee` DH token: mixes `DH(local_ephemeral,
    /// remote_ephemeral)` into the chaining key.
    ///
    /// Returns [`NoiseError::MissingRequirements`] if either ephemeral key
    /// is missing.
    fn mix_ee(&mut self) -> (r: Result<(), NoiseError>)
        requires
            old(self).wf(),
            spec_dh_token::<D, H>(R::spec_is_initiator(), old(self)@, Token::EE) is Some,
        ensures
            spec_dh_token::<D, H>(R::spec_is_initiator(), old(self)@, Token::EE) == Some((r, final(self)@)),
            final(self).wf(),
    {
        Self::mix_dh(
            &mut self.s_state,
            self.keys.e.as_ref(),
            MissingKey::LocalEphemeral,
            self.keys.re.as_ref(),
            MissingKey::RemoteEphemeral,
        )
    }

    /// Performs the `es` DH token of the role: `DH(e, rs)` for the
    /// initiator, `DH(s, re)` for the responder, mixed into the chaining
    /// key.
    ///
    /// Returns [`NoiseError::MissingRequirements`] if the required local or
    /// remote key is missing.
    fn mix_es(&mut self) -> (r: Result<(), NoiseError>)
        requires
            old(self).wf(),
            spec_dh_token::<D, H>(R::spec_is_initiator(), old(self)@, Token::ES) is Some,
        ensures
            spec_dh_token::<D, H>(R::spec_is_initiator(), old(self)@, Token::ES) == Some((r, final(self)@)),
            final(self).wf(),
    {
        if R::is_initiator() {
            Self::mix_dh(
                &mut self.s_state,
                self.keys.e.as_ref(),
                MissingKey::LocalEphemeral,
                self.keys.rs.as_ref(),
                MissingKey::RemoteStatic,
            )
        } else {
            Self::mix_dh(
                &mut self.s_state,
                self.keys.s.as_ref(),
                MissingKey::LocalStatic,
                self.keys.re.as_ref(),
                MissingKey::RemoteEphemeral,
            )
        }
    }

    /// Performs the `se` DH token of the role: `DH(s, re)` for the
    /// initiator, `DH(e, rs)` for the responder, mixed into the chaining
    /// key.
    ///
    /// Returns [`NoiseError::MissingRequirements`] if the required local or
    /// remote key is missing.
    fn mix_se(&mut self) -> (r: Result<(), NoiseError>)
        requires
            old(self).wf(),
            spec_dh_token::<D, H>(R::spec_is_initiator(), old(self)@, Token::SE) is Some,
        ensures
            spec_dh_token::<D, H>(R::spec_is_initiator(), old(self)@, Token::SE) == Some((r, final(self)@)),
            final(self).wf(),
    {
        if R::is_initiator() {
            Self::mix_dh(
                &mut self.s_state,
                self.keys.s.as_ref(),
                MissingKey::LocalStatic,
                self.keys.re.as_ref(),
                MissingKey::RemoteEphemeral,
            )
        } else {
            Self::mix_dh(
                &mut self.s_state,
                self.keys.e.as_ref(),
                MissingKey::LocalEphemeral,
                self.keys.rs.as_ref(),
                MissingKey::RemoteStatic,
            )
        }
    }

    /// Performs the `ss` DH token: mixes `DH(local_static, remote_static)`
    /// into the chaining key.
    ///
    /// Returns [`NoiseError::MissingRequirements`] if either static key is
    /// missing.
    fn mix_ss(&mut self) -> (r: Result<(), NoiseError>)
        requires
            old(self).wf(),
            spec_dh_token::<D, H>(R::spec_is_initiator(), old(self)@, Token::SS) is Some,
        ensures
            spec_dh_token::<D, H>(R::spec_is_initiator(), old(self)@, Token::SS) == Some((r, final(self)@)),
            final(self).wf(),
    {
        Self::mix_dh(
            &mut self.s_state,
            self.keys.s.as_ref(),
            MissingKey::LocalStatic,
            self.keys.rs.as_ref(),
            MissingKey::RemoteStatic,
        )
    }

    /// Performs the `psk` token: mixes the pre-shared key into both the
    /// chaining key and the handshake hash.
    ///
    /// Returns [`NoiseError::MissingRequirements`] if no pre-shared key was
    /// supplied.
    fn mix_psk(&mut self) -> (r: Result<(), NoiseError>)
        requires
            old(self).wf(),
            spec_dh_token::<D, H>(R::spec_is_initiator(), old(self)@, Token::PSK) is Some,
        ensures
            spec_dh_token::<D, H>(R::spec_is_initiator(), old(self)@, Token::PSK) == Some((r, final(self)@)),
            final(self).wf(),
    {
        let psk = match self.keys.psk.as_ref() {
            Some(p) => p,
            None => {
                return Err(NoiseError::MissingRequirements(MissingKey::Psk));
            },
        };
        self.s_state.mix_key_and_hash::<D>(psk.as_bytes());
        Ok(())
    }

    /// Processes the DH or `psk` token `t`.
    fn dh_token(&mut self, t: Token) -> (r: Result<(), NoiseError>)
        requires
            old(self).wf(),
            t != Token::E,
            t != Token::S,
            spec_dh_token::<D, H>(R::spec_is_initiator(), old(self)@, t) is Some,
        ensures
            spec_dh_token::<D, H>(R::spec_is_initiator(), old(self)@, t) == Some((r, final(self)@)),
            final(self).wf(),
    {
        match t {
            Token::EE => self.mix_ee(),
            Token::ES => self.mix_es(),
            Token::SE => self.mix_se(),
            Token::SS => self.mix_ss(),
            _ => self.mix_psk(),
        }
    }

    /// Encrypts `pt` with [`SymmetricState::encrypt_and_hash`] into the
    /// part `start..end` of `buf`, leaving the rest of `buf` unchanged.
    fn encrypt_and_hash_into(
        ss: &mut SymmetricState<C, H>,
        pt: &[u8],
        buf: &mut [u8],
        start: usize,
        end: usize,
    ) -> (r: Result<usize, NoiseError>)
        requires
            old(ss).wf(),
            start <= end <= old(buf)@.len(),
            old(ss)@.cs.key() is None ==> pt@.len() <= end - start,
        ensures
            ({
                let enc = spec_encrypt_and_hash::<C, H>(
                    old(ss)@,
                    pt@,
                    old(buf)@.subrange(start as int, end as int),
                );
                &&& r == enc.0
                &&& final(ss)@ == enc.1
                &&& enc.2.len() == end - start
                &&& final(buf)@ == old(buf)@.take(start as int) + enc.2 + old(buf)@.skip(end as int)
            }),
            final(ss).wf(),
            r matches Ok(n) ==> n <= end - start,
    {
        let mut tmp: Vec<u8> = Vec::with_capacity(end - start);
        tmp.extend_from_slice(&buf[start..end]);
        let r = ss.encrypt_and_hash(pt, tmp.as_mut_slice());
        proof {
            lemma_encrypt_and_hash_len::<C, H>(
                old(ss)@,
                pt@,
                old(buf)@.subrange(start as int, end as int),
                r,
            );
        }
        write_at(buf, start, tmp.as_slice());
        proof {
            assert(buf@.skip(start + tmp@.len()) =~= old(buf)@.skip(end as int));
        }
        r
    }

    /// Writes the token `e`: the local ephemeral keypair, or `fresh` when
    /// none is set, is written at `idx` in `buf` and mixed into the hash.
    fn write_e(&mut self, psk: bool, idx: usize, buf: &mut [u8], fresh: &mut Option<D::Keypair>) -> (r:
        Result<usize, NoiseError>)
        requires
            old(self).wf(),
            idx <= old(buf)@.len(),
            idx <= MAX_MESSAGE_LEN,
        ensures
            ({
                let sp = spec_write_e::<D, H>(
                    psk,
                    WriteCursor { st: old(self)@, idx: idx as nat, buf: old(buf)@ },
                    opt_kp_view(*old(fresh)),
                );
                &&& sp.1.st == final(self)@
                &&& sp.1.buf == final(buf)@
                &&& match r {
                    Ok(i) => sp.0 is Ok && sp.1.idx == i,
                    Err(err) => sp.0 == Err::<(), NoiseError>(err),
                }
            }),
            final(self).wf(),
            final(buf)@.len() == old(buf)@.len(),
            r is Ok ==> final(self)@.e_set,
    {
        if self.e_set {
            return Err(NoiseError::InvalidState("e must be empty"));
        }
        let end = match checked_message_end(idx, D::dhlen()) {
            Ok(end) => end,
            Err(err) => {
                return Err(err);
            },
        };
        if buf.len() < end {
            return Err(NoiseError::InvalidState("Truncated message"));
        }
        let e: D::Keypair = match self.keys.e.take() {
            Some(e) => e,
            None => match fresh.take() {
                Some(e) => e,
                None => {
                    return Err(NoiseError::InvalidState("Couldn't generate an ephemeral key"));
                },
            },
        };
        proof {
            lemma_keypair_len::<D>(Some(e));
        }
        let pk_bytes = e.pubkey_bytes();
        self.keys.e = Some(e);
        self.e_set = true;
        write_at(buf, idx, pk_bytes.as_slice());
        self.s_state.mix_hash(pk_bytes.as_slice());
        if psk {
            self.s_state.mix_key::<D>(pk_bytes.as_slice());
        }
        Ok(end)
    }

    /// Writes the token `s`: the local static public key, encrypted when a
    /// cipher key is set, is written at `idx` in `buf`.
    fn write_s(&mut self, idx: usize, buf: &mut [u8]) -> (r: Result<usize, NoiseError>)
        requires
            old(self).wf(),
            idx <= old(buf)@.len(),
            idx <= MAX_MESSAGE_LEN,
        ensures
            ({
                let sp = spec_write_s::<D, C, H>(
                    WriteCursor { st: old(self)@, idx: idx as nat, buf: old(buf)@ },
                );
                &&& sp.1.st == final(self)@
                &&& sp.1.buf == final(buf)@
                &&& match r {
                    Ok(i) => sp.0 is Ok && sp.1.idx == i,
                    Err(err) => sp.0 == Err::<(), NoiseError>(err),
                }
            }),
            final(self).wf(),
            final(buf)@.len() == old(buf)@.len(),
            r matches Ok(i) ==> i <= final(buf)@.len() && i <= MAX_MESSAGE_LEN,
    {
        proof {
            D::lemma_lengths();
        }
        let pk_bytes = match self.keys.s.as_ref() {
            Some(s) => s.pubkey_bytes(),
            None => {
                return Err(NoiseError::MissingRequirements(MissingKey::LocalStatic));
            },
        };
        proof {
            lemma_keypair_len::<D>(self.keys.s);
        }
        let s_len = match pk_bytes.len().checked_add(TAG_LEN) {
            Some(l) => l,
            None => {
                return Err(NoiseError::InvalidInput("Overflow during S pattern."));
            },
        };
        let end = match checked_message_end(idx, s_len) {
            Ok(end) => end,
            Err(err) => {
                return Err(err);
            },
        };
        if buf.len() < end || pk_bytes.len() + TAG_LEN > buf.len() - idx {
            return Err(NoiseError::InvalidState("Message buffer is full"));
        }
        let n = match Self::encrypt_and_hash_into(&mut self.s_state, pk_bytes.as_slice(), buf, idx, end) {
            Ok(n) => n,
            Err(err) => {
                return Err(err);
            },
        };
        Ok(idx + n)
    }

    /// Reads the token `e`: the remote ephemeral key is taken at `idx` in
    /// `message` and mixed into the hash.
    fn read_e(&mut self, psk: bool, idx: usize, message: &[u8]) -> (r: Result<usize, NoiseError>)
        requires
            old(self).wf(),
            idx <= message@.len() <= MAX_MESSAGE_LEN,
        ensures
            ({
                let sp = spec_read_e::<D, H>(psk, ReadCursor { st: old(self)@, idx: idx as nat }, message@);
                &&& sp.1.st == final(self)@
                &&& match r {
                    Ok(i) => sp.0 is Ok && sp.1.idx == i,
                    Err(err) => sp.0 == Err::<(), NoiseError>(err),
                }
            }),
            final(self).wf(),
            r matches Ok(i) ==> i <= message@.len(),
    {
        proof {
            D::lemma_lengths();
        }
        if self.keys.re.is_some() {
            return Err(NoiseError::InvalidState("re must be empty"));
        }
        if message.len() < idx + D::dhlen() {
            return Err(NoiseError::InvalidState("Truncated message for e"));
        }
        let re_bytes = &message[idx..idx + D::dhlen()];
        let new_idx = idx + D::dhlen();
        let re = match D::pubkey_from_bytes(re_bytes) {
            Ok(re) => re,
            Err(err) => {
                return Err(err);
            },
        };
        self.keys.re = Some(re);
        self.s_state.mix_hash(re_bytes);
        if psk {
            self.s_state.mix_key::<D>(re_bytes);
        }
        Ok(new_idx)
    }

    /// Reads the token `s`: the remote static key is taken at `idx` in
    /// `message`, decrypted when a cipher key is set.
    fn read_s(&mut self, idx: usize, message: &[u8]) -> (r: Result<usize, NoiseError>)
        requires
            old(self).wf(),
            idx <= message@.len() <= MAX_MESSAGE_LEN,
        ensures
            ({
                let sp = spec_read_s::<D, C, H>(ReadCursor { st: old(self)@, idx: idx as nat }, message@);
                &&& sp.1.st == final(self)@
                &&& match r {
                    Ok(i) => sp.0 is Ok && sp.1.idx == i,
                    Err(err) => sp.0 == Err::<(), NoiseError>(err),
                }
            }),
            final(self).wf(),
            r matches Ok(i) ==> i <= message@.len(),
    {
        proof {
            D::lemma_lengths();
        }
        let len = if self.s_state.has_key() {
            D::dhlen() + TAG_LEN
        } else {
            D::dhlen()
        };
        if message.len() < idx + len {
            return Err(NoiseError::InvalidState("Truncated message for e"));
        }
        let temp = &message[idx..idx + len];
        let new_idx = idx + len;
        let mut rs = zero_bytes(D::dhlen() + TAG_LEN);
        match self.s_state.decrypt_and_hash(temp, rs.as_mut_slice()) {
            Ok(()) => {},
            Err(err) => {
                return Err(err);
            },
        }
        proof {
            lemma_decrypt_and_hash_len::<C, H>(old(self)@.ss, temp@, zeros(D::spec_dhlen() + 16));
        }
        let pk = match D::pubkey_from_bytes(&rs[0..D::dhlen()]) {
            Ok(pk) => pk,
            Err(err) => {
                return Err(err);
            },
        };
        proof {
            assert(rs@.subrange(0, D::spec_dhlen() as int) =~= rs@.take(D::spec_dhlen() as int));
        }
        self.keys.rs = Some(pk);
        Ok(new_idx)
    }

    /// Ends a handshake message of `bytes` bytes: after the last message,
    /// splits the symmetric state into the transport state and erases the
    /// keys.
    fn finish(&mut self, bytes: usize, n_messages: usize) -> (r: Result<
        HandshakeResult<C, D, R>,
        NoiseError,
    >)
        requires
            old(self).wf(),
        ensures
            (outcome_view(r), final(self)@) == spec_finish::<R, H>(
                old(self)@,
                bytes as nat,
                n_messages as nat,
            ),
            final(self).wf(),
    {
        if self.step == n_messages {
            let (c1, c2) = self.s_state.split::<D>();
            let remote_pk = self.keys.rs.take();
            self.keys.clear();
            let transport_state = TransportState::new(c1, c2, remote_pk);
            let handshake_hash = match self.s_state.get_handshake_hash() {
                Ok(h) => h,
                Err(err) => {
                    return Err(err);
                },
            };
            Ok(HandshakeResult::Complete { bytes_written: bytes, transport_state, handshake_hash })
        } else {
            Ok(HandshakeResult::Continue { bytes })
        }
    }

    /// Writes the tokens `tokens` of the next handshake message from the
    /// start of `buf`, up to the first error; returns the number of bytes
    /// written.
    fn write_tokens(
        &mut self,
        tokens: &[Token],
        psk: bool,
        buf: &mut [u8],
        fresh: Option<D::Keypair>,
    ) -> (r: Result<usize, NoiseError>)
        requires
            old(self).wf(),
            spec_write_tokens::<D, C, H>(
                R::spec_is_initiator(),
                psk,
                WriteCursor { st: old(self)@, idx: 0, buf: old(buf)@ },
                tokens@,
                opt_kp_view(fresh),
            ) is Some,
        ensures
            ({
                let sp = spec_write_tokens::<D, C, H>(
                    R::spec_is_initiator(),
                    psk,
                    WriteCursor { st: old(self)@, idx: 0, buf: old(buf)@ },
                    tokens@,
                    opt_kp_view(fresh),
                )->0;
                &&& sp.1.st == final(self)@
                &&& sp.1.buf == final(buf)@
                &&& match r {
                    Ok(i) => sp.0 is Ok && sp.1.idx == i,
                    Err(err) => sp.0 == Err::<(), NoiseError>(err),
                }
            }),
            final(self).wf(),
            final(self)@.step == old(self)@.step,
            final(buf)@.len() == old(buf)@.len(),
            r matches Ok(i) ==> i <= final(buf)@.len(),
    {
        let mut pending = fresh;
        let ghost fresh_v = opt_kp_view(fresh);
        let ghost is_init = R::spec_is_initiator();
        let ghost goal = spec_write_tokens::<D, C, H>(
            is_init,
            psk,
            WriteCursor { st: self@, idx: 0, buf: buf@ },
            tokens@,
            fresh_v,
        );
        proof {
            assert(tokens@.skip(0) =~= tokens@);
        }
        assert(goal is Some);
        let mut buf_index: usize = 0;
        let mut i: usize = 0;
        while i < tokens.len()
            invariant
                0 <= i <= tokens@.len(),
                self.wf(),
                buf_index <= buf@.len(),
                buf_index <= MAX_MESSAGE_LEN,
                buf@.len() == old(buf)@.len(),
                !self@.e_set ==> opt_kp_view(pending) == fresh_v,
                is_init == R::spec_is_initiator(),
                fresh_v == opt_kp_view(fresh),
                self@.step == old(self)@.step,
                goal is Some,
                goal == spec_write_tokens::<D, C, H>(
                    is_init,
                    psk,
                    WriteCursor { st: old(self)@, idx: 0, buf: old(buf)@ },
                    tokens@,
                    fresh_v,
                ),
                goal == spec_write_tokens::<D, C, H>(
                    is_init,
                    psk,
                    WriteCursor { st: self@, idx: buf_index as nat, buf: buf@ },
                    tokens@.skip(i as int),
                    fresh_v,
                ),
            decreases tokens@.len() - i,
        {
            proof {
                assert(tokens@.skip(i as int)[0] == tokens@[i as int]);
                assert(tokens@.skip(i as int).skip(1) =~= tokens@.skip(i + 1));
            }
            let t = tokens[i];
            let ghost cur = WriteCursor { st: self@, idx: buf_index as nat, buf: buf@ };
            proof {
                lemma_write_e_fresh::<D, H>(psk, cur, opt_kp_view(pending), fresh_v);
            }
            let res = match t {
                Token::E => self.write_e(psk, buf_index, buf, &mut pending),
                Token::S => self.write_s(buf_index, buf),
                _ => match self.dh_token(t) {
                    Ok(()) => Ok(buf_index),
                    Err(err) => Err(err),
                },
            };
            match res {
                Ok(next) => {
                    buf_index = next;
                },
                Err(err) => {
                    return Err(err);
                },
            }
            i += 1;
        }
        proof {
            assert(tokens@.skip(i as int).len() == 0);
        }
        Ok(buf_index)
    }

    /// Writes the payload of the handshake message at `idx` in `buf`,
    /// encrypted when a cipher key is set, and returns the end of the
    /// message.
    fn write_payload(&mut self, payload: &[u8], buf: &mut [u8], idx: usize) -> (r: Result<
        usize,
        NoiseError,
    >)
        requires
            old(self).wf(),
            idx <= old(buf)@.len(),
        ensures
            (r, final(self)@, final(buf)@) == spec_write_payload::<C, H>(
                old(self)@,
                payload@,
                old(buf)@,
                idx as nat,
            ),
            final(self).wf(),
            r matches Ok(end) ==> end <= final(buf)@.len(),
    {
        if payload.len() > buf.len() - idx {
            return Err(NoiseError::InvalidState("No place left for the payload"));
        }
        let ghost before = buf@;
        let blen = buf.len();
        proof {
            assert(before.subrange(idx as int, blen as int) =~= before.skip(idx as int));
            assert(before.skip(blen as int) =~= Seq::<u8>::empty());
        }
        let n = match Self::encrypt_and_hash_into(&mut self.s_state, payload, buf, idx, blen) {
            Ok(n) => n,
            Err(err) => {
                proof {
                    assert(buf@ =~= before.take(idx as int) + spec_encrypt_and_hash::<C, H>(
                        old(self)@.ss,
                        payload@,
                        before.skip(idx as int),
                    ).2);
                }
                return Err(err);
            },
        };
        proof {
            assert(buf@ =~= before.take(idx as int) + spec_encrypt_and_hash::<C, H>(
                old(self)@.ss,
                payload@,
                before.skip(idx as int),
            ).2);
        }
        checked_message_end(idx, n)
    }

    /// Writes the next handshake message into `message_buffer`, encrypting
    /// `payload` as the message's payload; `fresh` is the ephemeral keypair
    /// sent by the token `e` when no local ephemeral keypair is set.
    ///
    /// Returns [`NoiseError::HandshakeFinished`] if all messages for this
    /// pattern have already been written, [`NoiseError::InvalidState`] if it
    /// is the peer's turn to write (nothing is changed then),
    /// [`NoiseError::MissingRequirements`] if a required key is missing,
    /// [`NoiseError::InvalidState`] if the ephemeral key was already sent,
    /// no keypair is available for it, or `message_buffer` is too small, or [`NoiseError::InvalidInput`] if the
    /// resulting message would exceed [`MAX_MESSAGE_LEN`]. The DH function
    /// must accept the remote keys that the message combines (a refused key
    /// would make the DH panic).
    ///
    /// Returns [`HandshakeResult::Continue`] if more messages remain, or
    /// [`HandshakeResult::Complete`] with the transport state.
    pub fn write_message_with_ephemeral(
        &mut self,
        payload: &[u8],
        message_buffer: &mut [u8],
        fresh: Option<D::Keypair>,
    ) -> (r: Result<HandshakeResult<C, D, R>, NoiseError>)
        requires
            old(self).wf(),
            spec_write_message::<P, R, D, C, H>(
                old(self)@,
                payload@,
                old(message_buffer)@,
                opt_kp_view(fresh),
            ) is Some,
        ensures
            spec_write_message::<P, R, D, C, H>(
                old(self)@,
                payload@,
                old(message_buffer)@,
                opt_kp_view(fresh),
            ) == Some((outcome_view(r), final(self)@, final(message_buffer)@)),
            final(self).wf(),
            r is Ok ==> outcome_bytes(outcome_view(r)->Ok_0) <= old(message_buffer)@.len(),
    {
        let pattern = P::handshake();
        let messages = pattern.messages();
        if self.step >= messages.len() {
            return Err(NoiseError::HandshakeFinished);
        }
        if (self.step % 2 == 0) != R::is_initiator() {
            return Err(NoiseError::InvalidState("Not this party's turn to write"));
        }
        let psk = pattern.has_psk();
        proof {
            assert(messages@[self.step as int].tokens@ == P::spec_handshake().messages[self.step as int]);
        }
        let buf_index = match self.write_tokens(messages[self.step].tokens, psk, message_buffer, fresh) {
            Ok(i) => i,
            Err(err) => {
                return Err(err);
            },
        };
        self.step += 1;
        let end = match self.write_payload(payload, message_buffer, buf_index) {
            Ok(end) => end,
            Err(err) => {
                return Err(err);
            },
        };
        if message_buffer.len() < end {
            return Err(NoiseError::InvalidInput("Message is bigger than the maximum allowed"));
        }
        self.finish(end, messages.len())
    }

    /// The next message sends a new ephemeral key and no local ephemeral
    /// keypair is set.
    fn needs_fresh_ephemeral(&self) -> (r: bool)
        ensures
            r == (self@.step < P::spec_handshake().messages.len() && !self@.e_set && self@.keys.e is None
                && sent_by_initiator(self@.step as int) == R::spec_is_initiator()
                && P::spec_handshake().messages[self@.step as int].contains(Token::E)),
    {
        if self.e_set || self.keys.e.is_some() {
            return false;
        }
        let pattern = P::handshake();
        let messages = pattern.messages();
        if self.step >= messages.len() {
            return false;
        }
        if (self.step % 2 == 0) != R::is_initiator() {
            return false;
        }
        crate::patterns::HandshakePattern::contains_token(messages[self.step].tokens, Token::E)
    }

    /// Writes the next handshake message into `message_buffer`, encrypting
    /// `payload` as the message's payload. When the message sends an
    /// ephemeral key and none is set, a keypair is generated from the
    /// operating system's random number generator.
    ///
    /// Returns [`NoiseError::HandshakeFinished`] if all messages for this
    /// pattern have already been written, [`NoiseError::InvalidState`] if it
    /// is the peer's turn to write (nothing is changed then),
    /// [`NoiseError::MissingRequirements`] if a required key is missing,
    /// [`NoiseError::InvalidState`] if the ephemeral key was already sent,
    /// could not be generated, or `message_buffer` is too small, or [`NoiseError::InvalidInput`] if the
    /// resulting message would exceed [`MAX_MESSAGE_LEN`]. The DH function
    /// must accept the remote keys that the message combines (a refused key
    /// would make the DH panic).
    ///
    /// Returns [`HandshakeResult::Continue`] if more messages remain, or
    /// [`HandshakeResult::Complete`] with the transport state. The outcome
    /// is that of [`write_message_with_ephemeral`](Self::write_message_with_ephemeral)
    /// for some keypair that the generator can return.
    pub fn write_message(&mut self, payload: &[u8], message_buffer: &mut [u8]) -> (r: Result<
        HandshakeResult<C, D, R>,
        NoiseError,
    >)
        requires
            old(self).wf(),
            forall|f: Option<KeypairView>|
                #[trigger] spec_write_message::<P, R, D, C, H>(
                    old(self)@,
                    payload@,
                    old(message_buffer)@,
                    f,
                ) is Some,
        ensures
            final(self).wf(),
            r is Ok ==> outcome_bytes(outcome_view(r)->Ok_0) <= old(message_buffer)@.len(),
            exists|fresh: Option<D::Keypair>|
                (fresh matches Some(kp) ==> D::spec_generated(kp)) && #[trigger] spec_write_message::<
                    P,
                    R,
                    D,
                    C,
                    H,
                >(old(self)@, payload@, old(message_buffer)@, opt_kp_view(fresh)) == Some(
                    (outcome_view(r), final(self)@, final(message_buffer)@),
                ),
    {
        let fresh = if self.needs_fresh_ephemeral() {
            D::generate_keypair()
        } else {
            None
        };
        self.write_message_with_ephemeral(payload, message_buffer, fresh)
    }

    /// Reads the tokens `tokens` of the next handshake message from the
    /// start of `message`, up to the first error; returns the number of
    /// bytes read.
    fn read_tokens(&mut self, tokens: &[Token], psk: bool, message: &[u8]) -> (r: Result<
        usize,
        NoiseError,
    >)
        requires
            old(self).wf(),
            message@.len() <= MAX_MESSAGE_LEN,
            spec_read_tokens::<D, C, H>(
                R::spec_is_initiator(),
                psk,
                ReadCursor { st: old(self)@, idx: 0 },
                tokens@,
                message@,
            ) is Some,
        ensures
            ({
                let sp = spec_read_tokens::<D, C, H>(
                    R::spec_is_initiator(),
                    psk,
                    ReadCursor { st: old(self)@, idx: 0 },
                    tokens@,
                    message@,
                )->0;
                &&& sp.1.st == final(self)@
                &&& match r {
                    Ok(i) => sp.0 is Ok && sp.1.idx == i,
                    Err(err) => sp.0 == Err::<(), NoiseError>(err),
                }
            }),
            final(self).wf(),
            final(self)@.step == old(self)@.step,
            r matches Ok(i) ==> i <= message@.len(),
    {
        let ghost is_init = R::spec_is_initiator();
        let ghost goal = spec_read_tokens::<D, C, H>(
            is_init,
            psk,
            ReadCursor { st: self@, idx: 0 },
            tokens@,
            message@,
        );
        proof {
            assert(tokens@.skip(0) =~= tokens@);
        }
        let mut buf_index: usize = 0;
        let mut i: usize = 0;
        while i < tokens.len()
            invariant
                0 <= i <= tokens@.len(),
                self.wf(),
                buf_index <= message@.len() <= MAX_MESSAGE_LEN,
                is_init == R::spec_is_initiator(),
                self@.step == old(self)@.step,
                goal is Some,
                goal == spec_read_tokens::<D, C, H>(
                    is_init,
                    psk,
                    ReadCursor { st: old(self)@, idx: 0 },
                    tokens@,
                    message@,
                ),
                goal == spec_read_tokens::<D, C, H>(
                    is_init,
                    psk,
                    ReadCursor { st: self@, idx: buf_index as nat },
                    tokens@.skip(i as int),
                    message@,
                ),
            decreases tokens@.len() - i,
        {
            proof {
                assert(tokens@.skip(i as int)[0] == tokens@[i as int]);
                assert(tokens@.skip(i as int).skip(1) =~= tokens@.skip(i + 1));
            }
            let t = tokens[i];
            let res = match t {
                Token::E => self.read_e(psk, buf_index, message),
                Token::S => self.read_s(buf_index, message),
                _ => match self.dh_token(t) {
                    Ok(()) => Ok(buf_index),
                    Err(err) => Err(err),
                },
            };
            match res {
                Ok(next) => {
                    buf_index = next;
                },
                Err(err) => {
                    return Err(err);
                },
            }
            i += 1;
        }
        proof {
            assert(tokens@.skip(i as int).len() == 0);
        }
        Ok(buf_index)
    }

    /// Reads and processes the next handshake message `message`, decrypting
    /// its payload into `payload_buffer`.
    ///
    /// Returns [`NoiseError::InvalidInput`] if `message` exceeds
    /// [`MAX_MESSAGE_LEN`], [`NoiseError::HandshakeFinished`]
    /// if all messages have already been read, [`NoiseError::InvalidState`]
    /// if it is this party's turn to write (nothing is changed then), or
    /// [`NoiseError::InvalidState`] or a decryption error if `message` is
    /// malformed, truncated, fails authentication, or carries a payload that
    /// `payload_buffer` cannot hold.
    ///
    /// Returns [`HandshakeResult::Continue`] with the number of bytes of
    /// `message` read if more messages remain, or
    /// [`HandshakeResult::Complete`] with the transport state.
    ///
    /// The DH function must accept the remote keys that the message combines
    /// (a refused key would make the DH panic).
    pub fn read_message(&mut self, message: &[u8], payload_buffer: &mut [u8]) -> (r: Result<
        HandshakeResult<C, D, R>,
        NoiseError,
    >)
        requires
            old(self).wf(),
            spec_read_message::<P, R, D, C, H>(old(self)@, message@, old(payload_buffer)@) is Some,
        ensures
            spec_read_message::<P, R, D, C, H>(old(self)@, message@, old(payload_buffer)@) == Some(
                (outcome_view(r), final(self)@, final(payload_buffer)@),
            ),
            final(self).wf(),
    {
        if message.len() > MAX_MESSAGE_LEN {
            return Err(NoiseError::InvalidInput("Message received too big"));
        }
        let pattern = P::handshake();
        let messages = pattern.messages();
        if self.step >= messages.len() {
            return Err(NoiseError::HandshakeFinished);
        }
        if (self.step % 2 == 0) == R::is_initiator() {
            return Err(NoiseError::InvalidState("Not this party's turn to read"));
        }
        let psk = pattern.has_psk();
        proof {
            assert(messages@[self.step as int].tokens@ == P::spec_handshake().messages[self.step as int]);
        }
        let buf_index = match self.read_tokens(messages[self.step].tokens, psk, message) {
            Ok(i) => i,
            Err(err) => {
                return Err(err);
            },
        };
        self.step += 1;
        match self.s_state.decrypt_and_hash(&message[buf_index..message.len()], payload_buffer) {
            Ok(()) => {},
            Err(err) => {
                return Err(err);
            },
        }
        proof {
            assert(message@.subrange(buf_index as int, message@.len() as int) =~= message@.skip(
                buf_index as int,
            ));
        }
        self.finish(message.len(), messages.len())
    }
}

/// Writing the token `e` uses the generated keypair only when the local
/// ephemeral key has not been sent yet.
proof fn lemma_write_e_fresh<D: DH, H: crate::crypto::hash::Hash>(
    psk: bool,
    c: WriteCursor,
    f1: Option<KeypairView>,
    f2: Option<KeypairView>,
)
    requires
        !c.st.e_set ==> f1 == f2,
    ensures
        spec_write_e::<D, H>(psk, c, f1) == spec_write_e::<D, H>(psk, c, f2),
{
}

/// Writes `data` into `buf` from index `start`, leaving the rest of `buf`
/// unchanged.
fn write_at(buf: &mut [u8], start: usize, data: &[u8])
    requires
        start + data@.len() <= old(buf)@.len(),
    ensures
        final(buf)@ == old(buf)@.take(start as int) + data@ + old(buf)@.skip(start + data@.len()),
{
    let blen = buf.len();
    let mut i: usize = 0;
    while i < data.len()
        invariant
            start + data@.len() <= blen,
            blen == old(buf)@.len(),
            buf@.len() == blen,
            0 <= i <= data@.len(),
            forall|k: int| 0 <= k < start ==> #[trigger] buf@[k] == old(buf)@[k],
            forall|k: int| start <= k < start + i ==> #[trigger] buf@[k] == data@[k - start],
            forall|k: int| start + i <= k < blen ==> #[trigger] buf@[k] == old(buf)@[k],
        decreases data@.len() - i,
    {
        buf[start + i] = data[i];
        i += 1;
    }
    assert(buf@ =~= old(buf)@.take(start as int) + data@ + old(buf)@.skip(start + data@.len()));
}

/// Returns `len` zero bytes.
fn zero_bytes(len: usize) -> (r: Vec<u8>)
    ensures
        r@ == zeros(len as nat),
{
    let mut v: Vec<u8> = Vec::with_capacity(len);
    let mut i: usize = 0;
    while i < len
        invariant
            0 <= i <= len,
            v@ == zeros(i as nat),
        decreases len - i,
    {
        v.push(0u8);
        i += 1;
        assert(v@ =~= zeros(i as nat));
    }
    v
}

/// The buffer that `EncryptAndHash` writes keeps the length of the given
/// buffer when it is large enough for the result.
proof fn lemma_encrypt_and_hash_len<C: Cipher, H: crate::crypto::hash::Hash>(
    st: SymmetricStateView,
    pt: Seq<u8>,
    buf: Seq<u8>,
    r: Result<usize, NoiseError>,
)
    requires
        st.cs.key() is None ==> pt.len() <= buf.len(),
        r == spec_encrypt_and_hash::<C, H>(st, pt, buf).0,
        r is Ok && st.cs.key() is Some ==> C::State::spec_seal(st.cs.key()->0, st.cs.n, st.h, pt).len()
            == pt.len() + 16,
    ensures
        spec_encrypt_and_hash::<C, H>(st, pt, buf).2.len() == buf.len(),
{
}

/// The buffer that `DecryptAndHash` writes keeps the length of the given
/// buffer when it is large enough for the result.
proof fn lemma_decrypt_and_hash_len<C: Cipher, H: crate::crypto::hash::Hash>(
    st: SymmetricStateView,
    ct: Seq<u8>,
    buf: Seq<u8>,
)
    requires
        st.cs.key() is None ==> ct.len() <= buf.len(),
        spec_decrypt_and_hash::<C, H>(st, ct, buf).0 is Ok && st.cs.key() is Some
            ==> (C::State::spec_open(st.cs.key()->0, st.cs.n, st.h, ct) matches Some(p) && p.len()
            == ct.len() - 16),
    ensures
        spec_decrypt_and_hash::<C, H>(st, ct, buf).0 is Ok ==> spec_decrypt_and_hash::<C, H>(
            st,
            ct,
            buf,
        ).2.len() == buf.len(),
{
}

/// Once a handshake message completes the handshake, the handshake is
/// over: every further message written, and every further message read
/// (within the maximum message length), is refused with
/// [`NoiseError::HandshakeFinished`], and the state stays as it is.
pub proof fn lemma_finished_after_complete<
    P: Pattern,
    R: RoleMarker,
    D: DH,
    C: Cipher,
    H: crate::crypto::hash::Hash,
>(
    st: HandshakeStateView,
    payload: Seq<u8>,
    buf: Seq<u8>,
    fresh: Option<KeypairView>,
    next_payload: Seq<u8>,
    next_buf: Seq<u8>,
    next_fresh: Option<KeypairView>,
    next_message: Seq<u8>,
    payload_buf: Seq<u8>,
)
    requires
        spec_write_message::<P, R, D, C, H>(st, payload, buf, fresh) matches Some(w) && w.0 matches Ok(
            HandshakeOutcome::Complete { .. },
        ),
        next_message.len() <= MAX_MESSAGE_LEN,
    ensures
        ({
            let done = (spec_write_message::<P, R, D, C, H>(st, payload, buf, fresh)->0).1;
            &&& spec_write_message::<P, R, D, C, H>(done, next_payload, next_buf, next_fresh) == Some(
                (Err::<HandshakeOutcome, NoiseError>(NoiseError::HandshakeFinished), done, next_buf),
            )
            &&& spec_read_message::<P, R, D, C, H>(done, next_message, payload_buf) == Some(
                (Err::<HandshakeOutcome, NoiseError>(NoiseError::HandshakeFinished), done, payload_buf),
            )
        }),
{
}

/// A handshake message written successfully never exceeds the maximum
/// Noise message length of 65535 bytes.
pub proof fn lemma_written_message_len<
    P: Pattern,
    R: RoleMarker,
    D: DH,
    C: Cipher,
    H: crate::crypto::hash::Hash,
>(st: HandshakeStateView, payload: Seq<u8>, buf: Seq<u8>, fresh: Option<KeypairView>)
    requires
        spec_write_message::<P, R, D, C, H>(st, payload, buf, fresh) matches Some(w) && w.0 is Ok,
    ensures
        match (spec_write_message::<P, R, D, C, H>(st, payload, buf, fresh)->0).0->Ok_0 {
            HandshakeOutcome::Continue { bytes } => bytes <= MAX_MESSAGE_LEN,
            HandshakeOutcome::Complete { bytes_written, .. } => bytes_written <= MAX_MESSAGE_LEN,
        },
{
}

/// Writing tokens keeps the index of the next message.
proof fn lemma_write_tokens_step<D: DH, C: Cipher, H: crate::crypto::hash::Hash>(
    is_initiator: bool,
    psk: bool,
    c: WriteCursor,
    tokens: Seq<Token>,
    fresh: Option<KeypairView>,
)
    requires
        spec_write_tokens::<D, C, H>(is_initiator, psk, c, tokens, fresh) is Some,
    ensures
        (spec_write_tokens::<D, C, H>(is_initiator, psk, c, tokens, fresh)->0).1.st.step == c.st.step,
    decreases tokens.len(),
{
    if tokens.len() > 0 {
        let r = spec_write_token::<D, C, H>(is_initiator, psk, c, tokens[0], fresh)->0;
        if r.0 is Ok {
            lemma_write_tokens_step::<D, C, H>(is_initiator, psk, r.1, tokens.skip(1), fresh);
        }
    }
}

/// Reading tokens keeps the index of the next message.
proof fn lemma_read_tokens_step<D: DH, C: Cipher, H: crate::crypto::hash::Hash>(
    is_initiator: bool,
    psk: bool,
    c: ReadCursor,
    tokens: Seq<Token>,
    message: Seq<u8>,
)
    requires
        spec_read_tokens::<D, C, H>(is_initiator, psk, c, tokens, message) is Some,
    ensures
        (spec_read_tokens::<D, C, H>(is_initiator, psk, c, tokens, message)->0).1.st.step == c.st.step,
    decreases tokens.len(),
{
    if tokens.len() > 0 {
        let r = spec_read_token::<D, C, H>(is_initiator, psk, c, tokens[0], message)->0;
        if r.0 is Ok {
            lemma_read_tokens_step::<D, C, H>(is_initiator, psk, r.1, tokens.skip(1), message);
        }
    }
}

/// A handshake message is written only on the writer's turn and before the
/// end of the handshake; it moves the handshake to the next message, and it
/// completes the handshake exactly when it is the last message of the
/// pattern.
pub proof fn lemma_write_progress<
    P: Pattern,
    R: RoleMarker,
    D: DH,
    C: Cipher,
    H: crate::crypto::hash::Hash,
>(st: HandshakeStateView, payload: Seq<u8>, buf: Seq<u8>, fresh: Option<KeypairView>)
    requires
        spec_write_message::<P, R, D, C, H>(st, payload, buf, fresh) matches Some(w) && w.0 is Ok,
    ensures
        ({
            let w = spec_write_message::<P, R, D, C, H>(st, payload, buf, fresh)->0;
            let n = P::spec_handshake().messages.len();
            &&& st.step < n
            &&& sent_by_initiator(st.step as int) == R::spec_is_initiator()
            &&& w.1.step == st.step + 1
            &&& (w.0->Ok_0 is Complete) == (st.step + 1 == n)
        }),
{
    let hs = P::spec_handshake();
    lemma_write_tokens_step::<D, C, H>(
        R::spec_is_initiator(),
        hs.has_psk(),
        WriteCursor { st, idx: 0, buf },
        hs.messages[st.step as int],
        fresh,
    );
}

/// A handshake message is read only on the peer's turn and before the end
/// of the handshake; it moves the handshake to the next message, completes
/// the handshake exactly when it is the last message of the pattern, and
/// the byte count reported is the length of the whole message.
pub proof fn lemma_read_progress<
    P: Pattern,
    R: RoleMarker,
    D: DH,
    C: Cipher,
    H: crate::crypto::hash::Hash,
>(st: HandshakeStateView, message: Seq<u8>, payload_buf: Seq<u8>)
    requires
        spec_read_message::<P, R, D, C, H>(st, message, payload_buf) matches Some(r) && r.0 is Ok,
    ensures
        ({
            let r = spec_read_message::<P, R, D, C, H>(st, message, payload_buf)->0;
            let n = P::spec_handshake().messages.len();
            &&& st.step < n
            &&& sent_by_initiator(st.step as int) != R::spec_is_initiator()
            &&& r.1.step == st.step + 1
            &&& (r.0->Ok_0 is Complete) == (st.step + 1 == n)
            &&& match r.0->Ok_0 {
                HandshakeOutcome::Continue { bytes } => bytes == message.len(),
                HandshakeOutcome::Complete { bytes_written, .. } => bytes_written == message.len(),
            }
        }),
{
    let hs = P::spec_handshake();
    lemma_read_tokens_step::<D, C, H>(
        R::spec_is_initiator(),
        hs.has_psk(),
        ReadCursor { st, idx: 0 },
        hs.messages[st.step as int],
        message,
    );
}

/// Once an ephemeral keypair is set or sent, writing tokens does not depend
/// on the generated keypair.
proof fn lemma_write_tokens_fresh<D: DH, C: Cipher, H: crate::crypto::hash::Hash>(
    is_initiator: bool,
    psk: bool,
    c: WriteCursor,
    tokens: Seq<Token>,
    f1: Option<KeypairView>,
    f2: Option<KeypairView>,
)
    requires
        c.st.keys.e is Some || c.st.e_set,
    ensures
        spec_write_tokens::<D, C, H>(is_initiator, psk, c, tokens, f1) == spec_write_tokens::<
            D,
            C,
            H,
        >(is_initiator, psk, c, tokens, f2),
    decreases tokens.len(),
{
    if tokens.len() > 0 {
        let r1 = spec_write_token::<D, C, H>(is_initiator, psk, c, tokens[0], f1);
        assert(r1 == spec_write_token::<D, C, H>(is_initiator, psk, c, tokens[0], f2));
        let x = r1->0;
        if r1 is Some && x.0 is Ok {
            lemma_write_tokens_fresh::<D, C, H>(is_initiator, psk, x.1, tokens.skip(1), f1, f2);
        }
    }
}

/// When the local ephemeral keypair is set (or was already sent), the
/// message written, the new state and the outcome do not depend on the
/// keypair that the generator returns: two writers with the same state,
/// payload and buffer write the same bytes.
pub proof fn lemma_write_ignores_fresh<
    P: Pattern,
    R: RoleMarker,
    D: DH,
    C: Cipher,
    H: crate::crypto::hash::Hash,
>(
    st: HandshakeStateView,
    payload: Seq<u8>,
    buf: Seq<u8>,
    f1: Option<KeypairView>,
    f2: Option<KeypairView>,
)
    requires
        st.keys.e is Some || st.e_set,
    ensures
        spec_write_message::<P, R, D, C, H>(st, payload, buf, f1) == spec_write_message::<
            P,
            R,
            D,
            C,
            H,
        >(st, payload, buf, f2),
{
    let hs = P::spec_handshake();
    if st.step < hs.messages.len() {
        lemma_write_tokens_fresh::<D, C, H>(
            R::spec_is_initiator(),
            hs.has_psk(),
            WriteCursor { st, idx: 0, buf },
            hs.messages[st.step as int],
            f1,
            f2,
        );
    }
}

/// A cipher key is set after the token `t`, given whether one was set
/// before it (`keyed`) and whether the pattern holds a pre-shared key: a DH
/// token or `psk` sets one, and so does `e` in a pattern with a pre-shared
/// key.
pub open spec fn keyed_after(keyed: bool, psk: bool, t: Token) -> bool {
    match t {
        Token::E => keyed || psk,
        Token::S => keyed,
        _ => true,
    }
}

/// A cipher key is set after the tokens `tokens`.
pub open spec fn keyed_after_all(keyed: bool, psk: bool, tokens: Seq<Token>) -> bool
    decreases tokens.len(),
{
    if tokens.len() == 0 {
        keyed
    } else {
        keyed_after_all(keyed_after(keyed, psk, tokens[0]), psk, tokens.skip(1))
    }
}

/// The number of bytes that the tokens `tokens` write: `dhlen` for `e`,
/// `dhlen` for `s` plus a 16-byte tag once a cipher key is set, nothing for
/// the other tokens.
pub open spec fn tokens_len(keyed: bool, psk: bool, tokens: Seq<Token>, dhlen: nat) -> nat
    decreases tokens.len(),
{
    if tokens.len() == 0 {
        0
    } else {
        let here: nat = match tokens[0] {
            Token::E => dhlen,
            Token::S => if keyed {
                dhlen + 16
            } else {
                dhlen
            },
            _ => 0,
        };
        here + tokens_len(keyed_after(keyed, psk, tokens[0]), psk, tokens.skip(1), dhlen)
    }
}

/// The number of bytes of a handshake message of the outcome `o`.
pub open spec fn outcome_bytes(o: HandshakeOutcome) -> nat {
    match o {
        HandshakeOutcome::Continue { bytes } => bytes,
        HandshakeOutcome::Complete { bytes_written, .. } => bytes_written,
    }
}

/// Writing tokens successfully moves forward by the bytes of the tokens and
/// leaves a cipher key set exactly when the tokens set one.
proof fn lemma_write_tokens_len<D: DH, C: Cipher, H: crate::crypto::hash::Hash>(
    is_initiator: bool,
    psk: bool,
    c: WriteCursor,
    tokens: Seq<Token>,
    fresh: Option<KeypairView>,
)
    requires
        c.st.keys.wf(D::spec_dhlen()),
        c.st.ss.cs.wf(),
        keypair_has_len(fresh, D::spec_dhlen()),
        spec_write_tokens::<D, C, H>(is_initiator, psk, c, tokens, fresh) matches Some(w) && w.0 is Ok,
    ensures
        ({
            let w = (spec_write_tokens::<D, C, H>(is_initiator, psk, c, tokens, fresh)->0).1;
            let keyed = c.st.ss.cs.key() is Some;
            &&& w.idx == c.idx + tokens_len(keyed, psk, tokens, D::spec_dhlen())
            &&& (w.st.ss.cs.key() is Some) == keyed_after_all(keyed, psk, tokens)
        }),
    decreases tokens.len(),
{
    if tokens.len() > 0 {
        let r = spec_write_token::<D, C, H>(is_initiator, psk, c, tokens[0], fresh)->0;
        let c1 = r.1;
        assert(c1.st.keys.wf(D::spec_dhlen()));
        assert(c1.st.ss.cs.wf());
        assert((c1.st.ss.cs.key() is Some) == keyed_after(c.st.ss.cs.key() is Some, psk, tokens[0]));
        lemma_write_tokens_len::<D, C, H>(is_initiator, psk, c1, tokens.skip(1), fresh);
    }
}

/// The length of a handshake message written successfully: the bytes of
/// its tokens (`DHLEN` for `e`; `DHLEN` for `s`, plus a 16-byte tag once a
/// cipher key is set), then the payload, plus a 16-byte tag when a cipher
/// key is set after the tokens.
pub proof fn lemma_message_len<
    P: Pattern,
    R: RoleMarker,
    D: DH,
    C: Cipher,
    H: crate::crypto::hash::Hash,
>(st: HandshakeStateView, payload: Seq<u8>, buf: Seq<u8>, fresh: Option<KeypairView>)
    requires
        st.wf::<D, H>(),
        keypair_has_len(fresh, D::spec_dhlen()),
        spec_write_message::<P, R, D, C, H>(st, payload, buf, fresh) matches Some(w) && w.0 is Ok,
    ensures
        ({
            let w = spec_write_message::<P, R, D, C, H>(st, payload, buf, fresh)->0;
            let tokens = P::spec_handshake().messages[st.step as int];
            let psk = P::spec_handshake().has_psk();
            let keyed = st.ss.cs.key() is Some;
            outcome_bytes(w.0->Ok_0) == tokens_len(keyed, psk, tokens, D::spec_dhlen())
                + payload.len() + if keyed_after_all(keyed, psk, tokens) {
                16int
            } else {
                0int
            }
        }),
{
    let hs = P::spec_handshake();
    lemma_write_tokens_len::<D, C, H>(
        R::spec_is_initiator(),
        hs.has_psk(),
        WriteCursor { st, idx: 0, buf },
        hs.messages[st.step as int],
        fresh,
    );
}

/// Mixing pre-message keys fails exactly when a key that the tokens name
/// is missing, and then reports that key as missing.
proof fn lemma_mix_pre_messages_result<H: crate::crypto::hash::Hash>(
    ss: SymmetricStateView,
    tokens: Seq<Token>,
    s: Option<Seq<u8>>,
    missing_s: MissingKey,
    e: Option<Seq<u8>>,
    missing_e: MissingKey,
)
    requires
        forall|i: int| 0 <= i < tokens.len() ==> (#[trigger] tokens[i] == Token::E || tokens[i] == Token::S),
    ensures
        spec_mix_pre_messages::<H>(ss, tokens, s, missing_s, e, missing_e) is Ok <==> ((tokens.contains(
            Token::S,
        ) ==> s is Some) && (tokens.contains(Token::E) ==> e is Some)),
        spec_mix_pre_messages::<H>(ss, tokens, s, missing_s, e, missing_e) matches Err(err) ==> (err
            == NoiseError::MissingRequirements(missing_s) || err == NoiseError::MissingRequirements(
            missing_e,
        )),
    decreases tokens.len(),
{
    if tokens.len() > 0 {
        let rest = tokens.skip(1);
        assert forall|i: int| 0 <= i < rest.len() implies (#[trigger] rest[i] == Token::E || rest[i]
            == Token::S) by {
            assert(rest[i] == tokens[i + 1]);
        }
        assert forall|t: Token| #[trigger] tokens.contains(t) <==> (tokens[0] == t || rest.contains(t)) by {
            if tokens.contains(t) {
                let j = choose|j: int| 0 <= j < tokens.len() && tokens[j] == t;
                if j > 0 {
                    assert(rest[j - 1] == t);
                }
            }
            if rest.contains(t) {
                let j = choose|j: int| 0 <= j < rest.len() && rest[j] == t;
                assert(tokens[j + 1] == t);
            }
            if tokens[0] == t {
                assert(tokens.contains(t));
            }
        }
        let key = if tokens[0] == Token::S {
            s
        } else {
            e
        };
        if key is Some {
            lemma_mix_pre_messages_result::<H>(
                spec_mix_hash::<H>(ss, key->0),
                rest,
                s,
                missing_s,
                e,
                missing_e,
            );
        }
    }
}

/// The keys that the pre-messages name are set: the local static and
/// ephemeral keys named by the pre-message of the party `is_initiator`, the
/// remote ones named by its peer's.
pub open spec fn pre_message_keys_set(
    hs: crate::patterns::PatternSpec,
    is_initiator: bool,
    keys: HandshakeKeysView,
) -> bool {
    let own = hs.own_pre(is_initiator);
    let peer = hs.peer_pre(is_initiator);
    &&& own.contains(Token::S) ==> keys.s is Some
    &&& own.contains(Token::E) ==> keys.e is Some
    &&& peer.contains(Token::S) ==> keys.rs is Some
    &&& peer.contains(Token::E) ==> keys.re is Some
}

/// `Initialize` succeeds exactly when every key that the pre-messages name
/// is set; otherwise it fails with [`NoiseError::MissingRequirements`]
/// naming a missing key.
pub proof fn lemma_initialize_result<
    P: Pattern,
    R: RoleMarker,
    D: DH,
    C: Cipher,
    H: crate::crypto::hash::Hash,
>(prologue: Seq<u8>, keys: HandshakeKeysView)
    ensures
        spec_initialize::<P, R, D, C, H>(prologue, keys) is Ok <==> pre_message_keys_set(
            P::spec_handshake(),
            R::spec_is_initiator(),
            keys,
        ),
        spec_initialize::<P, R, D, C, H>(prologue, keys) matches Err(err) ==> err is MissingRequirements,
{
    P::lemma_pre_messages();
    let hs = P::spec_handshake();
    let ss0 = spec_mix_hash::<H>(
        spec_initialize_symmetric::<H>(vstd::utf8::encode_utf8(spec_protocol_name::<P, D, C, H>())),
        prologue,
    );
    let local_s = opt_public(keys.s);
    let local_e = opt_public(keys.e);
    let (init_s, init_e, resp_s, resp_e) = if R::spec_is_initiator() {
        (local_s, local_e, keys.rs, keys.re)
    } else {
        (keys.rs, keys.re, local_s, local_e)
    };
    let (mis, mie, mrs, mre) = if R::spec_is_initiator() {
        (
            MissingKey::LocalStatic,
            MissingKey::LocalEphemeral,
            MissingKey::RemoteStatic,
            MissingKey::RemoteEphemeral,
        )
    } else {
        (
            MissingKey::RemoteStatic,
            MissingKey::RemoteEphemeral,
            MissingKey::LocalStatic,
            MissingKey::LocalEphemeral,
        )
    };
    lemma_mix_pre_messages_result::<H>(ss0, hs.pre_initiator, init_s, mis, init_e, mie);
    let r1 = spec_mix_pre_messages::<H>(ss0, hs.pre_initiator, init_s, mis, init_e, mie);
    if r1 is Ok {
        lemma_mix_pre_messages_result::<H>(r1->Ok_0, hs.pre_responder, resp_s, mrs, resp_e, mre);
    }
}

/// After the last message (Noise section 5.2, `Split()`), the initiator
/// sends with the cipher state keyed by the first 32 bytes of the first
/// output of `HKDF(ck, zerolen)` and receives with the one keyed by the
/// second output; the responder sends with the second and receives with the
/// first. Both start at nonce 0, the handshake keys are erased, and the
/// peer's static key is handed to the transport state.
pub proof fn lemma_split_directions<R: RoleMarker, H: crate::crypto::hash::Hash>(
    st: HandshakeStateView,
    bytes: nat,
    n_messages: nat,
)
    requires
        st.step == n_messages,
    ensures
        ({
            let first = CipherStateView {
                k: Some(Some(crate::crypto::hash::hkdf_output1::<H>(st.ss.ck, Seq::empty()).take(32))),
                n: 0,
            };
            let second = CipherStateView {
                k: Some(Some(crate::crypto::hash::hkdf_output2::<H>(st.ss.ck, Seq::empty()).take(32))),
                n: 0,
            };
            let f = spec_finish::<R, H>(st, bytes, n_messages);
            &&& f.0 matches Ok(HandshakeOutcome::Complete { transport, .. })
            &&& R::spec_is_initiator() ==> f.0->Ok_0->transport.local == first
                && f.0->Ok_0->transport.remote == second
            &&& !R::spec_is_initiator() ==> f.0->Ok_0->transport.local == second
                && f.0->Ok_0->transport.remote == first
            &&& f.0->Ok_0->transport.remote_pk == st.keys.rs
            &&& f.1.keys == HandshakeKeysView::empty()
        }),
{
}

/// The keys that each DH token combines (Noise section 7.1): `ee` the two
/// ephemeral keys; `es` the initiator's ephemeral key with the responder's
/// static key; `se` the initiator's static key with the responder's
/// ephemeral key; `ss` the two static keys; each party using its own
/// private key and the peer's public key.
pub proof fn lemma_noise_dh_tokens(k: HandshakeKeysView)
    ensures
        spec_dh_keys(true, k, Token::EE) == (k.e, MissingKey::LocalEphemeral, k.re, MissingKey::RemoteEphemeral),
        spec_dh_keys(false, k, Token::EE) == (k.e, MissingKey::LocalEphemeral, k.re, MissingKey::RemoteEphemeral),
        spec_dh_keys(true, k, Token::ES) == (k.e, MissingKey::LocalEphemeral, k.rs, MissingKey::RemoteStatic),
        spec_dh_keys(false, k, Token::ES) == (k.s, MissingKey::LocalStatic, k.re, MissingKey::RemoteEphemeral),
        spec_dh_keys(true, k, Token::SE) == (k.s, MissingKey::LocalStatic, k.re, MissingKey::RemoteEphemeral),
        spec_dh_keys(false, k, Token::SE) == (k.e, MissingKey::LocalEphemeral, k.rs, MissingKey::RemoteStatic),
        spec_dh_keys(true, k, Token::SS) == (k.s, MissingKey::LocalStatic, k.rs, MissingKey::RemoteStatic),
        spec_dh_keys(false, k, Token::SS) == (k.s, MissingKey::LocalStatic, k.rs, MissingKey::RemoteStatic),
{
}

} // verus!
