//! BLAKE2b implementation of the Hash trait

use vstd::prelude::*;
use blake2::{Blake2b512, Digest};
use hmac::{KeyInit, Mac, SimpleHmac};

use crate::crypto::hash::{pad_with_zeros, rfc2104_hmac};

verus! {

/// The BLAKE2b-512 (RFC 7693) digest of `data`, as computed by `blake2::Blake2b512`.
pub uninterp spec fn blake2b_digest(data: Seq<u8>) -> Seq<u8>;

/// Calls `blake2::Blake2b512`; the contract claims that the result is the digest
/// named by [`blake2b_digest`], 64 bytes long.
#[verifier::external_body]
fn blake2b_hash(data: &[u8]) -> (r: Vec<u8>)
    ensures
        r@ == blake2b_digest(data@),
        r@.len() == 64,
{
    <Blake2b512 as Digest>::digest(data).to_vec()
}

/// Calls `hmac::SimpleHmac<blake2::Blake2b512>` (which accepts keys of any length); the contract claims
/// that it computes HMAC as RFC 2104 defines it over [`blake2b_digest`], with a
/// 128-byte block, and returns 64 bytes.
#[verifier::external_body]
fn blake2b_hmac(key: &[u8], data: &[u8]) -> (r: Vec<u8>)
    ensures
        r@ == rfc2104_hmac(|d: Seq<u8>| blake2b_digest(d), 128, key@, data@),
        r@.len() == 64,
{
    let mut mac = <SimpleHmac<Blake2b512> as KeyInit>::new_from_slice(key).expect("HMAC accepts keys of any length");
    Mac::update(&mut mac, data);
    mac.finalize().into_bytes().to_vec()
}

/// The Noise `BLAKE2b` hash function.
pub struct Blake2b;

impl crate::crypto::hash::Hash for Blake2b {
    open spec fn spec_hashlen() -> nat {
        64
    }

    open spec fn spec_blocklen() -> nat {
        128
    }

    open spec fn spec_name() -> Seq<char> {
        "BLAKE2b"@
    }

    open spec fn spec_hash(data: Seq<u8>) -> Seq<u8> {
        blake2b_digest(data)
    }

    open spec fn spec_hmac(key: Seq<u8>, data: Seq<u8>) -> Seq<u8> {
        rfc2104_hmac(|d: Seq<u8>| blake2b_digest(d), 128, key, data)
    }

    proof fn lemma_lengths() {
    }

    fn hashlen() -> (r: usize) {
        64
    }

    fn blocklen() -> (r: usize) {
        128
    }

    fn name() -> (r: &'static str) {
        "BLAKE2b"
    }

    fn pad(data: &[u8]) -> (r: Vec<u8>) {
        pad_with_zeros(data, 64)
    }

    fn hash(data: &[u8]) -> (r: Vec<u8>) {
        blake2b_hash(data)
    }

    fn hmac_hash(key: &[u8], data: &[u8]) -> (r: Vec<u8>) {
        blake2b_hmac(key, data)
    }
}

} // verus!
