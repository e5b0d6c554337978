//! SHA512 implementation of the Hash trait

use vstd::prelude::*;
use sha2::{Digest, Sha512 as LibSha512};
use hmac::{Hmac, KeyInit, Mac};

use crate::crypto::hash::{pad_with_zeros, rfc2104_hmac};

verus! {

/// The SHA-512 (FIPS 180-4) digest of `data`, as computed by `sha2::Sha512`.
pub uninterp spec fn sha512_digest(data: Seq<u8>) -> Seq<u8>;

/// Calls `sha2::Sha512`; the contract claims that the result is the digest
/// named by [`sha512_digest`], 64 bytes long.
#[verifier::external_body]
fn sha512_hash(data: &[u8]) -> (r: Vec<u8>)
    ensures
        r@ == sha512_digest(data@),
        r@.len() == 64,
{
    <LibSha512 as Digest>::digest(data).to_vec()
}

/// Calls `hmac::Hmac<sha2::Sha512>` (which accepts keys of any length); the contract claims
/// that it computes HMAC as RFC 2104 defines it over [`sha512_digest`], with a
/// 128-byte block, and returns 64 bytes.
#[verifier::external_body]
fn sha512_hmac(key: &[u8], data: &[u8]) -> (r: Vec<u8>)
    ensures
        r@ == rfc2104_hmac(|d: Seq<u8>| sha512_digest(d), 128, key@, data@),
        r@.len() == 64,
{
    let mut mac = <Hmac<LibSha512> as KeyInit>::new_from_slice(key).expect("HMAC accepts keys of any length");
    Mac::update(&mut mac, data);
    mac.finalize().into_bytes().to_vec()
}

/// The Noise `SHA512` hash function.
pub struct Sha512;

impl crate::crypto::hash::Hash for Sha512 {
    open spec fn spec_hashlen() -> nat {
        64
    }

    open spec fn spec_blocklen() -> nat {
        128
    }

    open spec fn spec_name() -> Seq<char> {
        "SHA512"@
    }

    open spec fn spec_hash(data: Seq<u8>) -> Seq<u8> {
        sha512_digest(data)
    }

    open spec fn spec_hmac(key: Seq<u8>, data: Seq<u8>) -> Seq<u8> {
        rfc2104_hmac(|d: Seq<u8>| sha512_digest(d), 128, key, data)
    }

    proof fn lemma_lengths() {
    }

    fn hashlen() -> (r: usize) {
        64
    }

    fn blocklen() -> (r: usize) {
        128
    }

    fn name() -> (r: &'static str) {
        "SHA512"
    }

    fn pad(data: &[u8]) -> (r: Vec<u8>) {
        pad_with_zeros(data, 64)
    }

    fn hash(data: &[u8]) -> (r: Vec<u8>) {
        sha512_hash(data)
    }

    fn hmac_hash(key: &[u8], data: &[u8]) -> (r: Vec<u8>) {
        sha512_hmac(key, data)
    }
}

} // verus!
