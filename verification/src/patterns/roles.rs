//! Roles of the handshake (initiator or responder).

use vstd::prelude::*;
use crate::patterns::Pattern;

verus! {

/// Marks a type as representing one of the two roles in a Noise
/// handshake: [`Initiator`] or [`Responder`].
pub trait RoleMarker: Copy {
    /// `true` if this role is the initiator.
    spec fn spec_is_initiator() -> bool;

    /// Returns `true` if this role is the initiator.
    fn is_initiator() -> (r: bool)
        ensures
            r == Self::spec_is_initiator(),
    ;
}

/// Marker type for the party that sends the first handshake message.
#[derive(Copy, Clone)]
pub struct Initiator;

/// Marker type for the party that receives the first handshake message.
#[derive(Copy, Clone)]
pub struct Responder;

impl RoleMarker for Initiator {
    open spec fn spec_is_initiator() -> bool {
        true
    }

    fn is_initiator() -> (r: bool) {
        true
    }
}

impl RoleMarker for Responder {
    open spec fn spec_is_initiator() -> bool {
        false
    }

    fn is_initiator() -> (r: bool) {
        false
    }
}

/// For a given [`Pattern`] and [`RoleMarker`], determines which keys are
/// mandatory before the handshake can be built.
pub trait PatternRequirements<R: RoleMarker>: Pattern {
    /// Whether this role must supply its own local static key.
    spec fn spec_local_static_required() -> bool;
    /// Whether this role must know the peer's static key in advance.
    spec fn spec_remote_static_required() -> bool;
    /// Whether this role must supply its own ephemeral key.
    spec fn spec_local_ephemeral_required() -> bool;
    /// Whether this role must know the peer's ephemeral key in advance.
    spec fn spec_remote_ephemeral_required() -> bool;
    /// Whether the pattern requires a pre-shared key.
    spec fn spec_psk_required() -> bool;

    /// Whether this role must supply its own local static key.
    fn local_static_required() -> (r: bool)
        ensures
            r == Self::spec_local_static_required(),
    ;

    /// Whether this role must know the peer's static key in advance
    /// rather than receiving it during the handshake.
    fn remote_static_required() -> (r: bool)
        ensures
            r == Self::spec_remote_static_required(),
    ;

    /// Whether this role must supply its own ephemeral key.
    fn local_ephemeral_required() -> (r: bool)
        ensures
            r == Self::spec_local_ephemeral_required(),
    ;

    /// Whether this role must know the peer's ephemeral key in advance
    /// rather than receiving it during the handshake.
    fn remote_ephemeral_required() -> (r: bool)
        ensures
            r == Self::spec_remote_ephemeral_required(),
    ;

    /// Whether the pattern requires a pre-shared key.
    fn psk_required() -> (r: bool)
        ensures
            r == Self::spec_psk_required(),
    ;
}

impl<P: Pattern, R: RoleMarker> PatternRequirements<R> for P {
    open spec fn spec_local_static_required() -> bool {
        P::spec_handshake().local_static_required(R::spec_is_initiator())
    }

    open spec fn spec_remote_static_required() -> bool {
        P::spec_handshake().peer_static_is_premessage(R::spec_is_initiator())
    }

    open spec fn spec_local_ephemeral_required() -> bool {
        P::spec_handshake().local_ephemeral_required(R::spec_is_initiator())
    }

    open spec fn spec_remote_ephemeral_required() -> bool {
        P::spec_handshake().peer_ephemeral_is_premessage(R::spec_is_initiator())
    }

    open spec fn spec_psk_required() -> bool {
        P::spec_handshake().has_psk()
    }

    fn local_static_required() -> (r: bool) {
        P::handshake().local_static_required(R::is_initiator())
    }

    fn remote_static_required() -> (r: bool) {
        P::handshake().peer_static_is_premessage(R::is_initiator())
    }

    fn local_ephemeral_required() -> (r: bool) {
        P::handshake().local_ephemeral_required(R::is_initiator())
    }

    fn remote_ephemeral_required() -> (r: bool) {
        P::handshake().peer_ephemeral_is_premessage(R::is_initiator())
    }

    fn psk_required() -> (r: bool) {
        P::handshake().has_psk()
    }
}

} // verus!
