//! Types used by other modules.

use vstd::prelude::*;

verus! {

/// A Noise handshake nonce, as used by the encryption methods.
pub type Nonce = [u8; 12];

/// A Noise pre-shared key, used by the patterns where both parties already
/// share a secret.
pub struct Psk(pub [u8; 32]);

impl Psk {
    /// Returns the 32 bytes of the key.
    pub fn as_bytes(&self) -> (r: &[u8])
        ensures
            r@ == self.0@,
    {
        self.0.as_slice()
    }
}

} // verus!
