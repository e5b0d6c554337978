//! The state objects driving the Noise handshake and transport phases:
//! `CipherState`, `SymmetricState`, `HandshakeState` and `TransportState`.
//!
//! A `HandshakeState` wraps a `SymmetricState`, which in turn wraps a
//! `CipherState`. Once the handshake completes, `SymmetricState::split`
//! produces the pair of `CipherState`s that make up a `TransportState`.

pub mod agreement;
pub mod cipher_state;
pub mod handshake_state;
pub mod symmetric_state;
pub mod transport_state;
