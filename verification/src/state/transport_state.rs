//! The pair of cipher states used for transport messages once the
//! handshake is finished.

use vstd::prelude::*;

use crate::crypto::cipher::{Cipher, InternalCipherState};
use crate::crypto::dh::DH;
use crate::error::NoiseError;
use crate::patterns::roles::RoleMarker;
use crate::crypto::cipher::aead_opens_sealed;
use crate::state::cipher_state::{
    lemma_cipher_state_roundtrip, spec_decrypt_with_ad, spec_encrypt, spec_encrypt_with_ad,
    CipherState, CipherStateView,
};

verus! {

/// The mathematical content of a [`TransportState`].
pub struct TransportStateView {
    /// The cipher state that encrypts the messages sent by this party.
    pub local: CipherStateView,
    /// The cipher state that decrypts the messages received by this party.
    pub remote: CipherStateView,
    /// The static public key of the peer, when it is known.
    pub remote_pk: Option<Seq<u8>>,
}

/// The transport state of the party `is_initiator` made of the two cipher
/// states of `Split()`: the first one encrypts what the initiator sends,
/// the second one what the responder sends.
pub open spec fn spec_transport(
    is_initiator: bool,
    init: CipherStateView,
    resp: CipherStateView,
    remote_pk: Option<Seq<u8>>,
) -> TransportStateView {
    if is_initiator {
        TransportStateView { local: init, remote: resp, remote_pk }
    } else {
        TransportStateView { local: resp, remote: init, remote_pk }
    }
}

/// The optional byte vector `v` as an optional sequence.
pub open spec fn opt_bytes(v: Option<Vec<u8>>) -> Option<Seq<u8>> {
    match v {
        Some(b) => Some(b@),
        None => None,
    }
}

/// The state used after the handshake to encrypt and decrypt transport
/// messages: one cipher state per direction, and the peer's static key.
pub struct TransportState<C: Cipher, D: DH, R: RoleMarker> {
    local: CipherState<C>,
    remote: CipherState<C>,
    remote_pk: Option<Vec<u8>>,
    _marker: core::marker::PhantomData<(D, R)>,
}

impl<C: Cipher, D: DH, R: RoleMarker> View for TransportState<C, D, R> {
    type V = TransportStateView;

    closed spec fn view(&self) -> TransportStateView {
        TransportStateView {
            local: self.local@,
            remote: self.remote@,
            remote_pk: opt_bytes(self.remote_pk),
        }
    }
}

impl<C: Cipher, D: DH, R: RoleMarker> TransportState<C, D, R> {
    /// Creates the transport state of the role `R` from the two cipher
    /// states of `Split()`: `init` encrypts the messages of the initiator and
    /// `resp` those of the responder.
    pub fn new(init: CipherState<C>, resp: CipherState<C>, remote_pk: Option<Vec<u8>>) -> (r: Self)
        ensures
            r@ == spec_transport(R::spec_is_initiator(), init@, resp@, opt_bytes(remote_pk)),
    {
        if R::is_initiator() {
            Self { local: init, remote: resp, remote_pk, _marker: core::marker::PhantomData }
        } else {
            Self { local: resp, remote: init, remote_pk, _marker: core::marker::PhantomData }
        }
    }

    /// Encrypts `pt_buf` with the local cipher state and associated data
    /// `ad`, writes the ciphertext into `buf` and returns its length.
    pub fn encrypt_message(&mut self, ad: &[u8], pt_buf: &[u8], buf: &mut [u8]) -> (r: Result<
        usize,
        NoiseError,
    >)
        requires
            old(self)@.local.k is None ==> pt_buf@.len() <= old(buf)@.len(),
        ensures
            (r, final(self)@.local, final(buf)@) == spec_encrypt_with_ad::<C>(
                old(self)@.local,
                ad@,
                pt_buf@,
                old(buf)@,
            ),
            final(self)@.remote == old(self)@.remote,
            final(self)@.remote_pk == old(self)@.remote_pk,
            r is Ok && old(self)@.local.key() is Some ==> C::State::spec_open(
                old(self)@.local.key()->0,
                old(self)@.local.n,
                ad@,
                spec_encrypt::<C>(old(self)@.local, ad@, pt_buf@),
            ) == Some(pt_buf@),
            r is Ok && old(self)@.local.key() is Some ==> spec_encrypt::<C>(
                old(self)@.local,
                ad@,
                pt_buf@,
            ).len() == pt_buf@.len() + 16,
    {
        self.local.encrypt_with_ad(ad, pt_buf, buf)
    }

    /// Authenticates and decrypts `ct_buf` with the remote cipher state and
    /// associated data `ad`, and writes the plaintext into `buf`.
    pub fn decrypt_message(&mut self, ad: &[u8], ct_buf: &[u8], buf: &mut [u8]) -> (r: Result<
        (),
        NoiseError,
    >)
        requires
        ensures
            (r, final(self)@.remote, final(buf)@) == spec_decrypt_with_ad::<C>(
                old(self)@.remote,
                ad@,
                ct_buf@,
                old(buf)@,
            ),
            final(self)@.local == old(self)@.local,
            final(self)@.remote_pk == old(self)@.remote_pk,
    {
        self.remote.decrypt_with_ad(ad, ct_buf, buf)
    }

    /// Returns the static public key of the peer, if it is known.
    pub fn remote_static_pk(&self) -> (r: Option<Vec<u8>>)
        ensures
            opt_bytes(r) == self@.remote_pk,
    {
        match &self.remote_pk {
            Some(pk) => Some(D::pubkey_bytes(pk.as_slice())),
            None => None,
        }
    }
}

/// The transport states of the two parties of a handshake, made of the
/// same two cipher states, are paired: what the initiator sends, the
/// responder receives with the same cipher state, and the other way round.
pub proof fn lemma_transport_pairing(
    init: CipherStateView,
    resp: CipherStateView,
    initiator_peer: Option<Seq<u8>>,
    responder_peer: Option<Seq<u8>>,
)
    ensures
        spec_transport(true, init, resp, initiator_peer).local == spec_transport(
            false,
            init,
            resp,
            responder_peer,
        ).remote,
        spec_transport(false, init, resp, responder_peer).local == spec_transport(
            true,
            init,
            resp,
            initiator_peer,
        ).remote,
{
}

/// A transport message sent by one party is received by its peer, whose
/// receiving cipher state is the sender's sending one: the plaintext comes
/// back and the two cipher states stay equal.
pub proof fn lemma_transport_roundtrip<C: Cipher>(
    sender: TransportStateView,
    receiver: TransportStateView,
    ad: Seq<u8>,
    pt: Seq<u8>,
    out: Seq<u8>,
    inbuf: Seq<u8>,
)
    requires
        aead_opens_sealed::<C::State>(),
        sender.local == receiver.remote,
        sender.local.key() is Some,
        spec_encrypt_with_ad::<C>(sender.local, ad, pt, out).0 is Ok,
        out.len() <= usize::MAX,
        inbuf.len() >= pt.len(),
    ensures
        ({
            let enc = spec_encrypt_with_ad::<C>(sender.local, ad, pt, out);
            let ct = enc.2.take(enc.0->Ok_0 as int);
            let dec = spec_decrypt_with_ad::<C>(receiver.remote, ad, ct, inbuf);
            &&& dec.0 is Ok
            &&& dec.1 == enc.1
            &&& dec.2.take(pt.len() as int) == pt
        }),
{
    lemma_cipher_state_roundtrip::<C>(sender.local, ad, pt, out, inbuf);
}

} // verus!
