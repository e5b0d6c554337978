//! SHA256 implementation of the Hash trait

use vstd::prelude::*;
use sha2::{Digest, Sha256 as LibSha256};
use hmac::{Hmac, KeyInit, Mac};

use crate::crypto::hash::{pad_with_zeros, rfc2104_hmac};

verus! {

/// The SHA-256 (FIPS 180-4) digest of `data`, as computed by `sha2::Sha256`.
pub uninterp spec fn sha256_digest(data: Seq<u8>) -> Seq<u8>;

/// Calls `sha2::Sha256`; the contract claims that the result is the digest
/// named by [`sha256_digest`], 32 bytes long.
#[verifier::external_body]
fn sha256_hash(data: &[u8]) -> (r: Vec<u8>)
    ensures
        r@ == sha256_digest(data@),
        r@.len() == 32,
{
    <LibSha256 as Digest>::digest(data).to_vec()
}

/// Calls `hmac::Hmac<sha2::Sha256>` (which accepts keys of any length); the contract claims
/// that it computes HMAC as RFC 2104 defines it over [`sha256_digest`], with a
/// 64-byte block, and returns 32 bytes.
#[verifier::external_body]
fn sha256_hmac(key: &[u8], data: &[u8]) -> (r: Vec<u8>)
    ensures
        r@ == rfc2104_hmac(|d: Seq<u8>| sha256_digest(d), 64, key@, data@),
        r@.len() == 32,
{
    let mut mac = <Hmac<LibSha256> as KeyInit>::new_from_slice(key).expect("HMAC accepts keys of any length");
    Mac::update(&mut mac, data);
    mac.finalize().into_bytes().to_vec()
}

/// The Noise `SHA256` hash function.
pub struct Sha256;

impl crate::crypto::hash::Hash for Sha256 {
    open spec fn spec_hashlen() -> nat {
        32
    }

    open spec fn spec_blocklen() -> nat {
        64
    }

    open spec fn spec_name() -> Seq<char> {
        "SHA256"@
    }

    open spec fn spec_hash(data: Seq<u8>) -> Seq<u8> {
        sha256_digest(data)
    }

    open spec fn spec_hmac(key: Seq<u8>, data: Seq<u8>) -> Seq<u8> {
        rfc2104_hmac(|d: Seq<u8>| sha256_digest(d), 64, key, data)
    }

    proof fn lemma_lengths() {
    }

    fn hashlen() -> (r: usize) {
        32
    }

    fn blocklen() -> (r: usize) {
        64
    }

    fn name() -> (r: &'static str) {
        "SHA256"
    }

    fn pad(data: &[u8]) -> (r: Vec<u8>) {
        pad_with_zeros(data, 32)
    }

    fn hash(data: &[u8]) -> (r: Vec<u8>) {
        sha256_hash(data)
    }

    fn hmac_hash(key: &[u8], data: &[u8]) -> (r: Vec<u8>) {
        sha256_hmac(key, data)
    }
}

} // verus!
