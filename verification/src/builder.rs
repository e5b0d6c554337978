//! Typestate builder for the Noise handshake.

use vstd::prelude::*;

use crate::crypto::cipher::Cipher;
use crate::crypto::dh::{DHKeypair, DH};
use crate::error::{MissingKey, NoiseError};
use crate::patterns::roles::{PatternRequirements, RoleMarker};
use crate::patterns::Token;
use crate::state::handshake_state::{
    opt_public, spec_initialize, spec_mix_pre_messages, HandshakeKeys, HandshakeKeysView,
    HandshakeState, HandshakeStateView, KeypairView,
};
use crate::state::symmetric_state::SymmetricStateView;
use crate::state::transport_state::opt_bytes;
use crate::types::Psk;

verus! {

/// The mathematical content of a [`HandshakeParamsBuilder`].
pub struct BuilderView {
    /// The local static keypair.
    pub local_static: Option<KeypairView>,
    /// The remote static public key.
    pub remote_static: Option<Seq<u8>>,
    /// The local ephemeral keypair.
    pub local_ephemeral: Option<KeypairView>,
    /// The remote ephemeral public key.
    pub remote_ephemeral: Option<Seq<u8>>,
    /// The pre-shared key.
    pub psk: Option<Seq<u8>>,
    /// The prologue.
    pub prologue: Seq<u8>,
}

impl BuilderView {
    /// The keys handed to the handshake.
    pub open spec fn keys(self) -> HandshakeKeysView {
        HandshakeKeysView {
            s: self.local_static,
            e: self.local_ephemeral,
            rs: self.remote_static,
            re: self.remote_ephemeral,
            psk: self.psk,
        }
    }
}

/// The keypair that the DH function `D` derives from the private key `sk`.
pub open spec fn derived_keypair<D: DH>(sk: Seq<u8>) -> KeypairView {
    KeypairView { public: <D::Keypair as DHKeypair>::spec_derive_public(sk), private: sk }
}

/// The keypair derived from the optional private key `sk`.
pub open spec fn opt_derived_keypair<D: DH>(sk: Option<Seq<u8>>) -> Option<KeypairView> {
    match sk {
        Some(k) => Some(derived_keypair::<D>(k)),
        None => None,
    }
}

/// The result of a build as a mathematical value.
pub open spec fn state_result_view<
    P: PatternRequirements<R>,
    R: RoleMarker,
    D: DH,
    C: Cipher,
    H: crate::crypto::hash::Hash,
>(r: Result<HandshakeState<P, R, D, C, H>, NoiseError>) -> Result<HandshakeStateView, NoiseError> {
    match r {
        Ok(hs) => Ok(hs@),
        Err(e) => Err(e),
    }
}

/// `from_parts` of the pattern `P` and the role `R`: the first missing key
/// that the pattern requires, or the initialized handshake state.
pub open spec fn spec_from_parts<
    P: PatternRequirements<R>,
    R: RoleMarker,
    D: DH,
    C: Cipher,
    H: crate::crypto::hash::Hash,
>(
    local_static: Option<Seq<u8>>,
    remote_static: Option<Seq<u8>>,
    local_ephemeral: Option<Seq<u8>>,
    remote_ephemeral: Option<Seq<u8>>,
    psk: Option<Seq<u8>>,
    prologue: Seq<u8>,
) -> Result<HandshakeStateView, NoiseError> {
    if P::spec_local_static_required() && local_static is None {
        Err(NoiseError::MissingRequirements(MissingKey::LocalStatic))
    } else if P::spec_remote_static_required() && remote_static is None {
        Err(NoiseError::MissingRequirements(MissingKey::RemoteStatic))
    } else if P::spec_local_ephemeral_required() && local_ephemeral is None {
        Err(NoiseError::MissingRequirements(MissingKey::LocalEphemeral))
    } else if P::spec_remote_ephemeral_required() && remote_ephemeral is None {
        Err(NoiseError::MissingRequirements(MissingKey::RemoteEphemeral))
    } else if P::spec_psk_required() && psk is None {
        Err(NoiseError::MissingRequirements(MissingKey::Psk))
    } else {
        spec_initialize::<P, R, D, C, H>(
            prologue,
            HandshakeKeysView {
                s: opt_derived_keypair::<D>(local_static),
                e: opt_derived_keypair::<D>(local_ephemeral),
                rs: remote_static,
                re: remote_ephemeral,
                psk,
            },
        )
    }
}

/// A compile-time checked builder for assembling the keys and parameters
/// needed to start a Noise handshake.
///
/// Uses const generic flags (`LS`, `RS`, `LE`, `RE`, `PSK`) to track which
/// keys have been provided. Each setter consumes `self` and returns a
/// builder with the corresponding flag set to `true`, so that a key cannot
/// be set twice. [`build`](Self::build) demands that every key required by
/// the pattern and role has been provided.
///
/// # Type parameters
/// - `P`: the Noise pattern (ex: `NN`, `XX`, `IKpsk2`) which determines which
///   keys are required before calling `.build()`.
/// - `R`: the role in the handshake (initiator or responder).
/// - `D`: the DH function (ex: X25519)
/// - `C`: the AEAD cipher (ex: ChaCha20-Poly1305)
/// - `H`: the hash function (ex: BLAKE2s)
pub struct HandshakeParamsBuilder<
    P: PatternRequirements<R>,
    R: RoleMarker,
    D: DH,
    C: Cipher,
    H: crate::crypto::hash::Hash,
    const LS: bool,
    const RS: bool,
    const LE: bool,
    const RE: bool,
    const PSK: bool,
> {
    local_static: Option<D::Keypair>,
    remote_static: Option<Vec<u8>>,
    local_ephemeral: Option<D::Keypair>,
    remote_ephemeral: Option<Vec<u8>>,
    psk: Option<Psk>,
    prologue: Vec<u8>,
    _marker: core::marker::PhantomData<(P, R, C, H)>,
}

/// A newly created [`HandshakeParamsBuilder`] with no keys set yet.
pub type NewBuilder<P, R, D, C, H> = HandshakeParamsBuilder<
    P,
    R,
    D,
    C,
    H,
    false,
    false,
    false,
    false,
    false,
>;

impl<
    P: PatternRequirements<R>,
    R: RoleMarker,
    D: DH,
    C: Cipher,
    H: crate::crypto::hash::Hash,
    const LS: bool,
    const RS: bool,
    const LE: bool,
    const RE: bool,
    const PSK: bool,
> View for HandshakeParamsBuilder<P, R, D, C, H, LS, RS, LE, RE, PSK> {
    type V = BuilderView;

    closed spec fn view(&self) -> BuilderView {
        BuilderView {
            local_static: crate::state::handshake_state::opt_kp_view(self.local_static),
            remote_static: opt_bytes(self.remote_static),
            local_ephemeral: crate::state::handshake_state::opt_kp_view(self.local_ephemeral),
            remote_ephemeral: opt_bytes(self.remote_ephemeral),
            psk: match self.psk {
                Some(p) => Some(p.0@),
                None => None,
            },
            prologue: self.prologue@,
        }
    }
}

impl<
    P: PatternRequirements<R>,
    R: RoleMarker,
    D: DH,
    C: Cipher,
    H: crate::crypto::hash::Hash,
    const LS: bool,
    const RS: bool,
    const LE: bool,
    const RE: bool,
    const PSK: bool,
> HandshakeParamsBuilder<P, R, D, C, H, LS, RS, LE, RE, PSK> {
    /// Each flag tells whether its key is set, and the keys have the
    /// lengths of the DH function.
    #[verifier::type_invariant]
    spec fn inv(self) -> bool {
        &&& self@.keys().wf(D::spec_dhlen())
        &&& (self.local_static is Some <==> LS)
        &&& (self.remote_static is Some <==> RS)
        &&& (self.local_ephemeral is Some <==> LE)
        &&& (self.remote_ephemeral is Some <==> RE)
        &&& (self.psk is Some <==> PSK)
    }

    /// Sets the optional prologue data mixed into the handshake hash.
    ///
    /// The prologue can be used by any pattern and both parties must agree
    /// on it beforehand. Defaults to empty if not set.
    pub fn prologue(self, prologue: Vec<u8>) -> (r: Self)
        ensures
            r@ == (BuilderView { prologue: prologue@, ..self@ }),
    {
        proof {
            use_type_invariant(&self);
        }
        HandshakeParamsBuilder {
            local_static: self.local_static,
            remote_static: self.remote_static,
            local_ephemeral: self.local_ephemeral,
            remote_ephemeral: self.remote_ephemeral,
            psk: self.psk,
            prologue,
            _marker: core::marker::PhantomData,
        }
    }

    /// Initializes a [`HandshakeState`] from the keys and the prologue.
    ///
    /// Every key that the pattern and role require must have been provided;
    /// the handshake state is then always built.
    pub fn build(self) -> (r: Result<HandshakeState<P, R, D, C, H>, NoiseError>)
        requires
            LS || !P::spec_local_static_required(),
            RS || !P::spec_remote_static_required(),
            LE || !P::spec_local_ephemeral_required(),
            RE || !P::spec_remote_ephemeral_required(),
            PSK || !P::spec_psk_required(),
        ensures
            r matches Ok(hs) && hs.wf() && Ok::<HandshakeStateView, NoiseError>(hs@)
                == spec_initialize::<P, R, D, C, H>(self@.prologue, self@.keys()),
    {
        proof {
            use_type_invariant(&self);
            lemma_initialize_succeeds::<P, R, D, C, H>(self@.prologue, self@.keys());
        }
        let keys = HandshakeKeys {
            s: self.local_static,
            e: self.local_ephemeral,
            rs: self.remote_static,
            re: self.remote_ephemeral,
            psk: self.psk,
        };
        HandshakeState::initialize(self.prologue.as_slice(), keys)
    }
}

impl<
    P: PatternRequirements<R>,
    R: RoleMarker,
    D: DH,
    C: Cipher,
    H: crate::crypto::hash::Hash,
> HandshakeParamsBuilder<P, R, D, C, H, false, false, false, false, false> {
    /// Creates a new empty handshake builder with no keys or prologue yet.
    ///
    /// Use `.local_static_key(...)`, `.remote_static_key(...)`,
    /// `.psk(...)`, etc. to provide the required keys and then call
    /// `.build()` to get a [`HandshakeState`].
    pub fn new() -> (r: Self)
        ensures
            r@ == (BuilderView {
                local_static: None,
                remote_static: None,
                local_ephemeral: None,
                remote_ephemeral: None,
                psk: None,
                prologue: Seq::empty(),
            }),
    {
        HandshakeParamsBuilder {
            local_static: None,
            remote_static: None,
            local_ephemeral: None,
            remote_ephemeral: None,
            psk: None,
            prologue: Vec::new(),
            _marker: core::marker::PhantomData,
        }
    }

    /// Builds a [`HandshakeState`] directly from key material, bypassing the
    /// typestate builder (for keys assembled at run time, as in test
    /// vectors).
    ///
    /// Returns [`NoiseError::MissingRequirements`] if a key required by the
    /// pattern wasn't provided.
    pub fn from_parts(
        local_static: Option<Vec<u8>>,
        remote_static: Option<Vec<u8>>,
        local_ephemeral: Option<Vec<u8>>,
        remote_ephemeral: Option<Vec<u8>>,
        psk: Option<Psk>,
        prologue: Vec<u8>,
    ) -> (r: Result<HandshakeState<P, R, D, C, H>, NoiseError>)
        requires
            local_static matches Some(k) ==> k@.len() == D::spec_dhlen(),
            remote_static matches Some(k) ==> k@.len() == D::spec_dhlen(),
            local_ephemeral matches Some(k) ==> k@.len() == D::spec_dhlen(),
            remote_ephemeral matches Some(k) ==> k@.len() == D::spec_dhlen(),
        ensures
            state_result_view(r) == spec_from_parts::<P, R, D, C, H>(
                opt_bytes(local_static),
                opt_bytes(remote_static),
                opt_bytes(local_ephemeral),
                opt_bytes(remote_ephemeral),
                match psk {
                    Some(p) => Some(p.0@),
                    None => None,
                },
                prologue@,
            ),
            r matches Ok(hs) ==> hs.wf(),
    {
        if P::local_static_required() && local_static.is_none() {
            return Err(NoiseError::MissingRequirements(MissingKey::LocalStatic));
        }
        if P::remote_static_required() && remote_static.is_none() {
            return Err(NoiseError::MissingRequirements(MissingKey::RemoteStatic));
        }
        if P::local_ephemeral_required() && local_ephemeral.is_none() {
            return Err(NoiseError::MissingRequirements(MissingKey::LocalEphemeral));
        }
        if P::remote_ephemeral_required() && remote_ephemeral.is_none() {
            return Err(NoiseError::MissingRequirements(MissingKey::RemoteEphemeral));
        }
        if P::psk_required() && psk.is_none() {
            return Err(NoiseError::MissingRequirements(MissingKey::Psk));
        }
        proof {
            D::lemma_lengths();
        }
        let s: Option<D::Keypair> = match local_static {
            Some(sk) => Some(D::Keypair::derive_keypair(sk.as_slice())),
            None => None,
        };
        let e: Option<D::Keypair> = match local_ephemeral {
            Some(sk) => Some(D::Keypair::derive_keypair(sk.as_slice())),
            None => None,
        };
        proof {
            lemma_derived_len::<D>(s);
            lemma_derived_len::<D>(e);
        }
        let keys = HandshakeKeys { s, e, rs: remote_static, re: remote_ephemeral, psk };
        match HandshakeState::initialize(prologue.as_slice(), keys) {
            Ok(hs) => Ok(hs),
            Err(err) => Err(err),
        }
    }
}

impl<
    P: PatternRequirements<R>,
    R: RoleMarker,
    D: DH,
    C: Cipher,
    H: crate::crypto::hash::Hash,
> Default for HandshakeParamsBuilder<P, R, D, C, H, false, false, false, false, false> {
    /// An empty builder, as [`new`](HandshakeParamsBuilder::new).
    fn default() -> (r: Self)
        ensures
            r@ == (BuilderView {
                local_static: None,
                remote_static: None,
                local_ephemeral: None,
                remote_ephemeral: None,
                psk: None,
                prologue: Seq::empty(),
            }),
    {
        Self::new()
    }
}

impl<
    P: PatternRequirements<R>,
    R: RoleMarker,
    D: DH,
    C: Cipher,
    H: crate::crypto::hash::Hash,
    const RS: bool,
    const LE: bool,
    const RE: bool,
    const PSK: bool,
> HandshakeParamsBuilder<P, R, D, C, H, false, RS, LE, RE, PSK> {
    /// Sets the local static private key and derives the corresponding
    /// keypair.
    ///
    /// Only available when the local static key hasn't been provided yet
    /// (`LS = false`).
    pub fn local_static_key(self, sk: Vec<u8>) -> (r: HandshakeParamsBuilder<
        P,
        R,
        D,
        C,
        H,
        true,
        RS,
        LE,
        RE,
        PSK,
    >)
        requires
            sk@.len() == D::spec_dhlen(),
        ensures
            r@ == (BuilderView { local_static: Some(derived_keypair::<D>(sk@)), ..self@ }),
    {
        proof {
            use_type_invariant(&self);
            D::lemma_lengths();
        }
        let kp = D::Keypair::derive_keypair(sk.as_slice());
        proof {
            lemma_derived_len::<D>(Some(kp));
        }
        HandshakeParamsBuilder {
            local_static: Some(kp),
            remote_static: self.remote_static,
            local_ephemeral: self.local_ephemeral,
            remote_ephemeral: self.remote_ephemeral,
            psk: self.psk,
            prologue: self.prologue,
            _marker: core::marker::PhantomData,
        }
    }
}

impl<
    P: PatternRequirements<R>,
    R: RoleMarker,
    D: DH,
    C: Cipher,
    H: crate::crypto::hash::Hash,
    const LS: bool,
    const LE: bool,
    const RE: bool,
    const PSK: bool,
> HandshakeParamsBuilder<P, R, D, C, H, LS, false, LE, RE, PSK> {
    /// Sets the remote party's static public key.
    ///
    /// Required by patterns where the remote's static key is known in
    /// advance (ex: `IK`, `XK`). Only available when not set (`RS = false`).
    pub fn remote_static_key(self, pk: Vec<u8>) -> (r: HandshakeParamsBuilder<
        P,
        R,
        D,
        C,
        H,
        LS,
        true,
        LE,
        RE,
        PSK,
    >)
        requires
            pk@.len() == D::spec_dhlen(),
        ensures
            r@ == (BuilderView { remote_static: Some(pk@), ..self@ }),
    {
        proof {
            use_type_invariant(&self);
        }
        HandshakeParamsBuilder {
            local_static: self.local_static,
            remote_static: Some(pk),
            local_ephemeral: self.local_ephemeral,
            remote_ephemeral: self.remote_ephemeral,
            psk: self.psk,
            prologue: self.prologue,
            _marker: core::marker::PhantomData,
        }
    }
}

impl<
    P: PatternRequirements<R>,
    R: RoleMarker,
    D: DH,
    C: Cipher,
    H: crate::crypto::hash::Hash,
    const LS: bool,
    const RS: bool,
    const RE: bool,
    const PSK: bool,
> HandshakeParamsBuilder<P, R, D, C, H, LS, RS, false, RE, PSK> {
    /// Sets the local ephemeral private key and derives the corresponding
    /// keypair.
    ///
    /// Normally only used in tests, as the ephemeral key is created during
    /// the handshake. Only available when not set (`LE = false`).
    pub fn local_ephemeral_key(self, sk: Vec<u8>) -> (r: HandshakeParamsBuilder<
        P,
        R,
        D,
        C,
        H,
        LS,
        RS,
        true,
        RE,
        PSK,
    >)
        requires
            sk@.len() == D::spec_dhlen(),
        ensures
            r@ == (BuilderView { local_ephemeral: Some(derived_keypair::<D>(sk@)), ..self@ }),
    {
        proof {
            use_type_invariant(&self);
            D::lemma_lengths();
        }
        let kp = D::Keypair::derive_keypair(sk.as_slice());
        proof {
            lemma_derived_len::<D>(Some(kp));
        }
        HandshakeParamsBuilder {
            local_static: self.local_static,
            remote_static: self.remote_static,
            local_ephemeral: Some(kp),
            remote_ephemeral: self.remote_ephemeral,
            psk: self.psk,
            prologue: self.prologue,
            _marker: core::marker::PhantomData,
        }
    }
}

impl<
    P: PatternRequirements<R>,
    R: RoleMarker,
    D: DH,
    C: Cipher,
    H: crate::crypto::hash::Hash,
    const LS: bool,
    const RS: bool,
    const LE: bool,
    const PSK: bool,
> HandshakeParamsBuilder<P, R, D, C, H, LS, RS, LE, false, PSK> {
    /// Sets the remote party's ephemeral public key.
    ///
    /// Required as a pre-message on patterns/roles where the peer's
    /// ephemeral key is known in advance. Only available when not set
    /// (`RE = false`).
    pub fn remote_ephemeral_key(self, pk: Vec<u8>) -> (r: HandshakeParamsBuilder<
        P,
        R,
        D,
        C,
        H,
        LS,
        RS,
        LE,
        true,
        PSK,
    >)
        requires
            pk@.len() == D::spec_dhlen(),
        ensures
            r@ == (BuilderView { remote_ephemeral: Some(pk@), ..self@ }),
    {
        proof {
            use_type_invariant(&self);
        }
        HandshakeParamsBuilder {
            local_static: self.local_static,
            remote_static: self.remote_static,
            local_ephemeral: self.local_ephemeral,
            remote_ephemeral: Some(pk),
            psk: self.psk,
            prologue: self.prologue,
            _marker: core::marker::PhantomData,
        }
    }
}

impl<
    P: PatternRequirements<R>,
    R: RoleMarker,
    D: DH,
    C: Cipher,
    H: crate::crypto::hash::Hash,
    const LS: bool,
    const RS: bool,
    const LE: bool,
    const RE: bool,
> HandshakeParamsBuilder<P, R, D, C, H, LS, RS, LE, RE, false> {
    /// Sets the pre-shared key mixed into the handshake.
    ///
    /// The position of the pre-shared key is the one the pattern defines.
    /// Only available when not set (`PSK = false`).
    pub fn psk(self, psk: [u8; 32]) -> (r: HandshakeParamsBuilder<
        P,
        R,
        D,
        C,
        H,
        LS,
        RS,
        LE,
        RE,
        true,
    >)
        ensures
            r@ == (BuilderView { psk: Some(psk@), ..self@ }),
    {
        proof {
            use_type_invariant(&self);
        }
        HandshakeParamsBuilder {
            local_static: self.local_static,
            remote_static: self.remote_static,
            local_ephemeral: self.local_ephemeral,
            remote_ephemeral: self.remote_ephemeral,
            psk: Some(Psk(psk)),
            prologue: self.prologue,
            _marker: core::marker::PhantomData,
        }
    }
}

/// A derived keypair has the key lengths of the DH function, and its view
/// is the derived keypair of its private key.
proof fn lemma_derived_len<D: DH>(kp: Option<D::Keypair>)
    ensures
        crate::state::handshake_state::keypair_has_len(
            crate::state::handshake_state::opt_kp_view(kp),
            D::spec_dhlen(),
        ),
{
    D::lemma_lengths();
    if let Some(k) = kp {
        k.lemma_key_lengths();
    }
}

/// Mixing pre-messages succeeds when every key that the tokens name is
/// set.
proof fn lemma_mix_pre_messages_ok<H: crate::crypto::hash::Hash>(
    ss: SymmetricStateView,
    tokens: Seq<Token>,
    s: Option<Seq<u8>>,
    missing_s: MissingKey,
    e: Option<Seq<u8>>,
    missing_e: MissingKey,
)
    requires
        forall|i: int| 0 <= i < tokens.len() ==> (#[trigger] tokens[i] == Token::E || tokens[i] == Token::S),
        tokens.contains(Token::S) ==> s is Some,
        tokens.contains(Token::E) ==> e is Some,
    ensures
        spec_mix_pre_messages::<H>(ss, tokens, s, missing_s, e, missing_e) is Ok,
    decreases tokens.len(),
{
    if tokens.len() > 0 {
        let rest = tokens.skip(1);
        assert forall|i: int| 0 <= i < rest.len() implies (#[trigger] rest[i] == Token::E || rest[i] == Token::S) by {
            assert(rest[i] == tokens[i + 1]);
        }
        assert(rest.contains(Token::S) ==> tokens.contains(Token::S)) by {
            if rest.contains(Token::S) {
                let j = choose|j: int| 0 <= j < rest.len() && rest[j] == Token::S;
                assert(tokens[j + 1] == Token::S);
            }
        }
        assert(rest.contains(Token::E) ==> tokens.contains(Token::E)) by {
            if rest.contains(Token::E) {
                let j = choose|j: int| 0 <= j < rest.len() && rest[j] == Token::E;
                assert(tokens[j + 1] == Token::E);
            }
        }
        assert(tokens[0] == Token::S ==> tokens.contains(Token::S));
        assert(tokens[0] == Token::E ==> tokens.contains(Token::E));
        let key = if tokens[0] == Token::S {
            s
        } else {
            e
        };
        lemma_mix_pre_messages_ok::<H>(
            crate::state::symmetric_state::spec_mix_hash::<H>(ss, key->0),
            rest,
            s,
            missing_s,
            e,
            missing_e,
        );
    }
}

/// `Initialize` succeeds when every key that the pattern and role require
/// is set.
proof fn lemma_initialize_succeeds<
    P: PatternRequirements<R>,
    R: RoleMarker,
    D: DH,
    C: Cipher,
    H: crate::crypto::hash::Hash,
>(prologue: Seq<u8>, keys: HandshakeKeysView)
    requires
        P::spec_local_static_required() ==> keys.s is Some,
        P::spec_remote_static_required() ==> keys.rs is Some,
        P::spec_local_ephemeral_required() ==> keys.e is Some,
        P::spec_remote_ephemeral_required() ==> keys.re is Some,
    ensures
        spec_initialize::<P, R, D, C, H>(prologue, keys) is Ok,
{
    P::lemma_pre_messages();
    let hs = P::spec_handshake();
    let ss0 = crate::state::symmetric_state::spec_mix_hash::<H>(
        crate::state::symmetric_state::spec_initialize_symmetric::<H>(
            vstd::utf8::encode_utf8(
                crate::state::handshake_state::spec_protocol_name::<P, D, C, H>(),
            ),
        ),
        prologue,
    );
    let local_s = opt_public(keys.s);
    let local_e = opt_public(keys.e);
    if R::spec_is_initiator() {
        lemma_mix_pre_messages_ok::<H>(
            ss0,
            hs.pre_initiator,
            local_s,
            MissingKey::LocalStatic,
            local_e,
            MissingKey::LocalEphemeral,
        );
        let ss1 = spec_mix_pre_messages::<H>(
            ss0,
            hs.pre_initiator,
            local_s,
            MissingKey::LocalStatic,
            local_e,
            MissingKey::LocalEphemeral,
        )->Ok_0;
        lemma_mix_pre_messages_ok::<H>(
            ss1,
            hs.pre_responder,
            keys.rs,
            MissingKey::RemoteStatic,
            keys.re,
            MissingKey::RemoteEphemeral,
        );
    } else {
        lemma_mix_pre_messages_ok::<H>(
            ss0,
            hs.pre_initiator,
            keys.rs,
            MissingKey::RemoteStatic,
            keys.re,
            MissingKey::RemoteEphemeral,
        );
        let ss1 = spec_mix_pre_messages::<H>(
            ss0,
            hs.pre_initiator,
            keys.rs,
            MissingKey::RemoteStatic,
            keys.re,
            MissingKey::RemoteEphemeral,
        )->Ok_0;
        lemma_mix_pre_messages_ok::<H>(
            ss1,
            hs.pre_responder,
            local_s,
            MissingKey::LocalStatic,
            local_e,
            MissingKey::LocalEphemeral,
        );
    }
}

} // verus!
