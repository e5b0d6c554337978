//! A typestate-driven implementation of the Noise Protocol Framework
//! (revision 34), with its handshake, symmetric and transport state
//! machines specified and proved.

pub mod builder;
mod constants;
pub mod crypto;
pub mod error;
pub mod patterns;
pub mod state;
pub mod types;
