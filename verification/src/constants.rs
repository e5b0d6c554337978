//! Sizes fixed by the Noise specification.

use vstd::prelude::*;

verus! {

/// Length in bytes of the nonce handed to the AEAD ciphers.
pub const NONCE_LEN: usize = 12;

/// Length in bytes of a cipher key.
pub const ENCRYPTION_KEY_LEN: usize = 32;

/// Length in bytes of an AEAD authentication tag.
pub const TAG_LEN: usize = 16;

/// Maximum length in bytes of a Noise message.
pub const MAX_MESSAGE_LEN: usize = 65535;

} // verus!
