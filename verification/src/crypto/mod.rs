//! Cryptographic primitives used by the Noise handshake
//! (AEAD ciphers, DH and hash functions).
//!
//! Each submodule holds a trait describing the operations that a
//! function must provide, and the implementations of it.

pub mod cipher;
pub mod dh;
pub mod hash;
pub mod names;
