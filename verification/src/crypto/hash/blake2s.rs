//! BLAKE2s implementation of the Hash trait

use vstd::prelude::*;
use blake2::{Blake2s256, Digest};
use hmac::{KeyInit, Mac, SimpleHmac};

use crate::crypto::hash::{pad_with_zeros, rfc2104_hmac};

verus! {

/// The BLAKE2s-256 (RFC 7693) digest of `data`, as computed by `blake2::Blake2s256`.
pub uninterp spec fn blake2s_digest(data: Seq<u8>) -> Seq<u8>;

/// Calls `blake2::Blake2s256`; the contract claims that the result is the digest
/// named by [`blake2s_digest`], 32 bytes long.
#[verifier::external_body]
fn blake2s_hash(data: &[u8]) -> (r: Vec<u8>)
    ensures
        r@ == blake2s_digest(data@),
        r@.len() == 32,
{
    <Blake2s256 as Digest>::digest(data).to_vec()
}

/// Calls `hmac::SimpleHmac<blake2::Blake2s256>` (which accepts keys of any length); the contract claims
/// that it computes HMAC as RFC 2104 defines it over [`blake2s_digest`], with a
/// 64-byte block, and returns 32 bytes.
#[verifier::external_body]
fn blake2s_hmac(key: &[u8], data: &[u8]) -> (r: Vec<u8>)
    ensures
        r@ == rfc2104_hmac(|d: Seq<u8>| blake2s_digest(d), 64, key@, data@),
        r@.len() == 32,
{
    let mut mac = <SimpleHmac<Blake2s256> as KeyInit>::new_from_slice(key).expect("HMAC accepts keys of any length");
    Mac::update(&mut mac, data);
    mac.finalize().into_bytes().to_vec()
}

/// The Noise `BLAKE2s` hash function.
pub struct Blake2s;

impl crate::crypto::hash::Hash for Blake2s {
    open spec fn spec_hashlen() -> nat {
        32
    }

    open spec fn spec_blocklen() -> nat {
        64
    }

    open spec fn spec_name() -> Seq<char> {
        "BLAKE2s"@
    }

    open spec fn spec_hash(data: Seq<u8>) -> Seq<u8> {
        blake2s_digest(data)
    }

    open spec fn spec_hmac(key: Seq<u8>, data: Seq<u8>) -> Seq<u8> {
        rfc2104_hmac(|d: Seq<u8>| blake2s_digest(d), 64, key, data)
    }

    proof fn lemma_lengths() {
    }

    fn hashlen() -> (r: usize) {
        32
    }

    fn blocklen() -> (r: usize) {
        64
    }

    fn name() -> (r: &'static str) {
        "BLAKE2s"
    }

    fn pad(data: &[u8]) -> (r: Vec<u8>) {
        pad_with_zeros(data, 32)
    }

    fn hash(data: &[u8]) -> (r: Vec<u8>) {
        blake2s_hash(data)
    }

    fn hmac_hash(key: &[u8], data: &[u8]) -> (r: Vec<u8>) {
        blake2s_hmac(key, data)
    }
}

} // verus!
