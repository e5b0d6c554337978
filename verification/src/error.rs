//! Error types shared by the builder, the handshake and the transport.

use vstd::prelude::*;
use vstd::string::*;

verus! {

/// Used when a key that is required by the pattern wasn't provided to
/// the builder. Which keys are required also depends on the role of the
/// caller (initiator or responder).
#[derive(Debug, Clone, Copy, PartialEq, Eq, Structural)]
pub enum MissingKey {
    /// The local static key isn't set but the pattern requires one.
    LocalStatic,
    /// The remote static key isn't set, it is a pre-message required by
    /// this pattern.
    RemoteStatic,
    /// The local ephemeral key isn't set but the pattern requires one.
    LocalEphemeral,
    /// The remote ephemeral key isn't set, it is a pre-message required by
    /// this pattern.
    RemoteEphemeral,
    /// This pattern requires a pre-shared key that wasn't provided.
    Psk,
}

/// The error types used for the handshake and the transport.
#[derive(Debug, Clone, Copy, PartialEq, Eq)]
pub enum NoiseError {
    /// Not all required keys were provided to the builder.
    MissingRequirements(MissingKey),
    /// A byte slice or value couldn't be converted to the expected type.
    ConversionError(&'static str),
    /// A handshake message was requested after the handshake finished.
    HandshakeFinished,
    /// The input is truncated or doesn't have the expected structure.
    InvalidInput(&'static str),
    /// The operation isn't valid for the current state.
    InvalidState(&'static str),
    /// The required pattern or cipher suite isn't supported.
    Unsupported(&'static str),
    /// The nonce counter has reached its maximum value and cannot be
    /// incremented anymore.
    MaxNValue,
    /// Error during a rekey, such as rekeying a key that isn't set.
    Rekey(&'static str),
}

impl MissingKey {
    /// The human readable explanation of the missing key.
    pub open spec fn spec_message(self) -> Seq<char> {
        match self {
            MissingKey::LocalStatic => "missing `.local_static_key(...)`: this pattern/role requires a local static key before `.build()`"@,
            MissingKey::RemoteStatic => "missing `.remote_static_key(...)`: the peer's static key is a pre-message for this pattern/role"@,
            MissingKey::LocalEphemeral => "missing `.local_ephemeral_key(...)`: this role sends a message and needs its own ephemeral key"@,
            MissingKey::RemoteEphemeral => "missing `.remote_ephemeral_key(...)`: the peer's ephemeral key is a pre-message for this pattern/role"@,
            MissingKey::Psk => "missing `.psk(...)`: the pattern requires a psk to be valid"@,
        }
    }

    /// Returns the human readable explanation of the missing key.
    pub fn message(&self) -> (r: &'static str)
        ensures
            r@ == self.spec_message(),
    {
        match self {
            MissingKey::LocalStatic => "missing `.local_static_key(...)`: this pattern/role requires a local static key before `.build()`",
            MissingKey::RemoteStatic => "missing `.remote_static_key(...)`: the peer's static key is a pre-message for this pattern/role",
            MissingKey::LocalEphemeral => "missing `.local_ephemeral_key(...)`: this role sends a message and needs its own ephemeral key",
            MissingKey::RemoteEphemeral => "missing `.remote_ephemeral_key(...)`: the peer's ephemeral key is a pre-message for this pattern/role",
            MissingKey::Psk => "missing `.psk(...)`: the pattern requires a psk to be valid",
        }
    }
}

impl NoiseError {
    /// The human readable description of the error.
    pub open spec fn spec_message(self) -> Seq<char> {
        match self {
            NoiseError::MissingRequirements(k) => "cannot build: "@ + k.spec_message(),
            NoiseError::ConversionError(msg) => "conversion error: "@ + msg@,
            NoiseError::HandshakeFinished => "handshake already finished"@,
            NoiseError::InvalidInput(msg) => "invalid input: "@ + msg@,
            NoiseError::InvalidState(msg) => "invalid state: "@ + msg@,
            NoiseError::Unsupported(msg) => "unsupported: "@ + msg@,
            NoiseError::MaxNValue => "nonce counter reached its maximum value"@,
            NoiseError::Rekey(msg) => "rekey failed: "@ + msg@,
        }
    }

    /// Returns the human readable description of the error.
    pub fn to_string(&self) -> (r: String)
        ensures
            r@ == self.spec_message(),
    {
        let (prefix, detail): (&'static str, &'static str) = match self {
            NoiseError::MissingRequirements(k) => ("cannot build: ", k.message()),
            NoiseError::ConversionError(msg) => ("conversion error: ", *msg),
            NoiseError::HandshakeFinished => ("handshake already finished", ""),
            NoiseError::InvalidInput(msg) => ("invalid input: ", *msg),
            NoiseError::InvalidState(msg) => ("invalid state: ", *msg),
            NoiseError::Unsupported(msg) => ("unsupported: ", *msg),
            NoiseError::MaxNValue => ("nonce counter reached its maximum value", ""),
            NoiseError::Rekey(msg) => ("rekey failed: ", *msg),
        };
        let mut r = String::from_str(prefix);
        r.append(detail);
        proof {
            reveal_strlit("");
        }
        r
    }
}

} // verus!
