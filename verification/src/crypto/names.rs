//! The Noise names of the cryptographic functions.

use vstd::prelude::*;

use crate::crypto::cipher::aesgcm::AesGcm;
use crate::crypto::cipher::chacha20::ChaChaPoly;
use crate::crypto::cipher::Cipher;
use crate::crypto::dh::x25519::X25519dh;
use crate::crypto::dh::x448::X448dh;
use crate::crypto::dh::DH;
use crate::crypto::hash::blake2b::Blake2b;
use crate::crypto::hash::blake2s::Blake2s;
use crate::crypto::hash::sha256::Sha256;
use crate::crypto::hash::sha512::Sha512;

verus! {

/// Each function carries the name that the Noise specification gives it
/// (sections 12.1 to 12.5), the one that goes into the protocol name.
pub proof fn lemma_noise_names()
    ensures
        X25519dh::spec_name() == "25519"@,
        X448dh::spec_name() == "448"@,
        AesGcm::spec_name() == "AESGCM"@,
        ChaChaPoly::spec_name() == "ChaChaPoly"@,
        <Sha256 as crate::crypto::hash::Hash>::spec_name() == "SHA256"@,
        <Sha512 as crate::crypto::hash::Hash>::spec_name() == "SHA512"@,
        <Blake2s as crate::crypto::hash::Hash>::spec_name() == "BLAKE2s"@,
        <Blake2b as crate::crypto::hash::Hash>::spec_name() == "BLAKE2b"@,
{
}

/// The protocol name is `Noise_`, then the names of the pattern, the DH
/// function, the cipher and the hash function, separated by `_` (Noise
/// section 8): for `XX` over X25519, ChaChaPoly and BLAKE2s it is
/// `Noise_XX_25519_ChaChaPoly_BLAKE2s`.
pub proof fn lemma_protocol_name_example()
    ensures
        crate::state::handshake_state::spec_protocol_name::<
            crate::patterns::XX,
            X25519dh,
            ChaChaPoly,
            Blake2s,
        >() == "Noise_XX_25519_ChaChaPoly_BLAKE2s"@,
{
    lemma_noise_names();
    crate::patterns::lemma_noise_pattern_table();
    reveal_strlit("Noise_");
    reveal_strlit("_");
    reveal_strlit("XX");
    reveal_strlit("25519");
    reveal_strlit("ChaChaPoly");
    reveal_strlit("BLAKE2s");
    reveal_strlit("Noise_XX_25519_ChaChaPoly_BLAKE2s");
    assert(crate::state::handshake_state::spec_protocol_name::<
        crate::patterns::XX,
        X25519dh,
        ChaChaPoly,
        Blake2s,
    >() =~= "Noise_XX_25519_ChaChaPoly_BLAKE2s"@);
}

} // verus!
