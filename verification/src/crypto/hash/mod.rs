//! The Noise `HASH` functions and the HMAC/HKDF constructions built on
//! them.

use vstd::prelude::*;

pub mod blake2b;
pub mod blake2s;
pub mod sha256;
pub mod sha512;

verus! {

/// `data` followed by zero bytes up to `len` bytes.
pub open spec fn zero_padded(data: Seq<u8>, len: nat) -> Seq<u8> {
    data + Seq::new((len - data.len()) as nat, |i: int| 0u8)
}

/// Returns `data` followed by zero bytes up to `len` bytes.
pub(crate) fn pad_with_zeros(data: &[u8], len: usize) -> (r: Vec<u8>)
    requires
        data@.len() <= len,
    ensures
        r@ == zero_padded(data@, len as nat),
{
    let mut output: Vec<u8> = Vec::with_capacity(len);
    let mut i: usize = 0;
    while i < len
        invariant
            data@.len() <= len,
            0 <= i <= len,
            output@.len() == i,
            forall|k: int| 0 <= k < i ==> #[trigger] output@[k] == zero_padded(data@, len as nat)[k],
        decreases len - i,
    {
        if i < data.len() {
            output.push(data[i]);
        } else {
            output.push(0u8);
        }
        i += 1;
    }
    assert(output@ =~= zero_padded(data@, len as nat));
    output
}

/// Returns `a` followed by the byte `b`.
fn concat_byte(a: &[u8], b: u8) -> (r: Vec<u8>)
    ensures
        r@ == a@.push(b),
{
    let mut v: Vec<u8> = Vec::with_capacity(a.len());
    v.extend_from_slice(a);
    v.push(b);
    assert(v@ =~= a@.push(b));
    v
}

/// A Noise `HASH` function.
///
/// See [`blake2b`], [`blake2s`], [`sha256`] and [`sha512`] for the four
/// hash functions provided by this crate.
pub trait Hash: Sized {
    /// The length in bytes of this hash function's output.
    spec fn spec_hashlen() -> nat;

    /// The internal block length in bytes of this hash function.
    spec fn spec_blocklen() -> nat;

    /// The Noise protocol name for this hash function.
    spec fn spec_name() -> Seq<char>;

    /// The digest of `data`.
    spec fn spec_hash(data: Seq<u8>) -> Seq<u8>;

    /// `HMAC-HASH(key, data)` computed with this hash function.
    spec fn spec_hmac(key: Seq<u8>, data: Seq<u8>) -> Seq<u8>;

    /// The lengths are those of the Noise hash functions.
    proof fn lemma_lengths()
        ensures
            (Self::spec_hashlen() == 32 && Self::spec_blocklen() == 64) || (Self::spec_hashlen()
                == 64 && Self::spec_blocklen() == 128),
    ;

    /// The length in bytes of this hash function's output.
    fn hashlen() -> (r: usize)
        ensures
            r == Self::spec_hashlen(),
    ;

    /// The internal block length in bytes of this hash function, used for
    /// HMAC padding.
    fn blocklen() -> (r: usize)
        ensures
            r == Self::spec_blocklen(),
    ;

    /// The Noise protocol name for this hash function, used to build the
    /// protocol name string.
    fn name() -> (r: &'static str)
        ensures
            r@ == Self::spec_name(),
    ;

    /// Pads `data` with zeros to [`hashlen`](Self::hashlen) bytes. This
    /// does not compute a hash digest, it only produces a padded block.
    fn pad(data: &[u8]) -> (r: Vec<u8>)
        requires
            data@.len() <= Self::spec_hashlen(),
        ensures
            r@ == zero_padded(data@, Self::spec_hashlen()),
    ;

    /// Computes the hash digest of `data`.
    fn hash(data: &[u8]) -> (r: Vec<u8>)
        ensures
            r@ == Self::spec_hash(data@),
            r@.len() == Self::spec_hashlen(),
    ;

    /// Computes `HMAC-HASH(key, data)` as defined in RFC 2104.
    fn hmac_hash(key: &[u8], data: &[u8]) -> (r: Vec<u8>)
        ensures
            r@ == Self::spec_hmac(key@, data@),
            r@.len() == Self::spec_hashlen(),
    ;
}

/// `HMAC(key, data)` as defined in RFC 2104 over the hash function `hash`
/// with a block of `blocklen` bytes: the key, hashed first when it is longer
/// than the block and padded with zeros to the block, gives
/// `hash((K ^ opad) || hash((K ^ ipad) || data))`.
pub open spec fn rfc2104_hmac(
    hash: spec_fn(Seq<u8>) -> Seq<u8>,
    blocklen: nat,
    key: Seq<u8>,
    data: Seq<u8>,
) -> Seq<u8> {
    let k = if key.len() > blocklen {
        hash(key)
    } else {
        key
    };
    let kb = zero_padded(k, blocklen);
    let inner = kb.map_values(|b: u8| b ^ 0x36u8);
    let outer = kb.map_values(|b: u8| b ^ 0x5cu8);
    hash(outer + hash(inner + data))
}

/// The temporary key of the Noise `HKDF(chaining_key, input_key_material)`.
pub open spec fn hkdf_temp_key<H: Hash>(chaining_key: Seq<u8>, ikm: Seq<u8>) -> Seq<u8> {
    H::spec_hmac(chaining_key, ikm)
}

/// The first output of the Noise `HKDF`: `HMAC(temp_key, 0x01)`.
pub open spec fn hkdf_output1<H: Hash>(chaining_key: Seq<u8>, ikm: Seq<u8>) -> Seq<u8> {
    H::spec_hmac(hkdf_temp_key::<H>(chaining_key, ikm), seq![1u8])
}

/// The second output of the Noise `HKDF`: `HMAC(temp_key, output1 || 0x02)`.
pub open spec fn hkdf_output2<H: Hash>(chaining_key: Seq<u8>, ikm: Seq<u8>) -> Seq<u8> {
    H::spec_hmac(hkdf_temp_key::<H>(chaining_key, ikm), hkdf_output1::<H>(chaining_key, ikm).push(2u8))
}

/// The third output of the Noise `HKDF`: `HMAC(temp_key, output2 || 0x03)`.
pub open spec fn hkdf_output3<H: Hash>(chaining_key: Seq<u8>, ikm: Seq<u8>) -> Seq<u8> {
    H::spec_hmac(hkdf_temp_key::<H>(chaining_key, ikm), hkdf_output2::<H>(chaining_key, ikm).push(3u8))
}

/// The outputs of the Noise `HKDF` for `num_outputs`: three outputs when
/// `num_outputs` is 3, the first two otherwise.
pub open spec fn spec_hkdf<H: Hash>(chaining_key: Seq<u8>, ikm: Seq<u8>, num_outputs: usize) -> Seq<Seq<u8>> {
    let two = seq![hkdf_output1::<H>(chaining_key, ikm), hkdf_output2::<H>(chaining_key, ikm)];
    if num_outputs == 3 {
        two.push(hkdf_output3::<H>(chaining_key, ikm))
    } else {
        two
    }
}

/// Computes `HKDF(chaining_key, input_key_material, num_outputs)` as
/// defined in section 4.3 of the Noise specification (RFC 5869): three
/// outputs when `num_outputs` is 3, two otherwise.
///
/// The chaining key must have length `HASHLEN`, and the input key
/// material a length of 0, 32 or `dh_len`.
pub fn hkdf<H: Hash>(chaining_key: &[u8], ikm: &[u8], dh_len: usize, num_outputs: usize) -> (r: Vec<
    Vec<u8>,
>)
    requires
        chaining_key@.len() == H::spec_hashlen(),
        ikm@.len() == 0 || ikm@.len() == 32 || ikm@.len() == dh_len,
    ensures
        r@.len() == spec_hkdf::<H>(chaining_key@, ikm@, num_outputs).len(),
        forall|i: int|
            0 <= i < r@.len() ==> #[trigger] r@[i]@ == spec_hkdf::<H>(
                chaining_key@,
                ikm@,
                num_outputs,
            )[i],
        forall|i: int| 0 <= i < r@.len() ==> (#[trigger] r@[i])@.len() == H::spec_hashlen(),
{
    let temp_key = H::hmac_hash(chaining_key, ikm);
    let output1 = H::hmac_hash(temp_key.as_slice(), &[0x01u8]);
    proof {
        assert(seq![1u8] =~= [0x01u8]@);
    }
    let input2 = concat_byte(output1.as_slice(), 0x02u8);
    let output2 = H::hmac_hash(temp_key.as_slice(), input2.as_slice());
    let mut result: Vec<Vec<u8>> = Vec::new();
    result.push(output1);
    if num_outputs == 3 {
        let input3 = concat_byte(output2.as_slice(), 0x03u8);
        let output3 = H::hmac_hash(temp_key.as_slice(), input3.as_slice());
        result.push(output2);
        result.push(output3);
    } else {
        result.push(output2);
    }
    result
}

/// Returns exactly the two outputs of [`hkdf`](Self::hkdf).
pub fn hkdf2<H: Hash>(chaining_key: &[u8], ikm: &[u8], dh_len: usize) -> (r: (Vec<u8>, Vec<u8>))
    requires
        chaining_key@.len() == H::spec_hashlen(),
        ikm@.len() == 0 || ikm@.len() == 32 || ikm@.len() == dh_len,
    ensures
        r.0@ == hkdf_output1::<H>(chaining_key@, ikm@),
        r.1@ == hkdf_output2::<H>(chaining_key@, ikm@),
        r.0@.len() == H::spec_hashlen(),
        r.1@.len() == H::spec_hashlen(),
{
    let mut keys = hkdf::<H>(chaining_key, ikm, dh_len, 2);
    let second = keys.pop().unwrap();
    let first = keys.pop().unwrap();
    (first, second)
}

/// Returns exactly the three outputs of [`hkdf`](Self::hkdf); used
/// when mixing in a pre-shared key.
pub fn hkdf3<H: Hash>(chaining_key: &[u8], ikm: &[u8], dh_len: usize) -> (r: (Vec<u8>, Vec<u8>, Vec<u8>))
    requires
        chaining_key@.len() == H::spec_hashlen(),
        ikm@.len() == 0 || ikm@.len() == 32 || ikm@.len() == dh_len,
    ensures
        r.0@ == hkdf_output1::<H>(chaining_key@, ikm@),
        r.1@ == hkdf_output2::<H>(chaining_key@, ikm@),
        r.2@ == hkdf_output3::<H>(chaining_key@, ikm@),
        r.0@.len() == H::spec_hashlen(),
        r.1@.len() == H::spec_hashlen(),
        r.2@.len() == H::spec_hashlen(),
{
    let mut keys = hkdf::<H>(chaining_key, ikm, dh_len, 3);
    let third = keys.pop().unwrap();
    let second = keys.pop().unwrap();
    let first = keys.pop().unwrap();
    (first, second, third)
}

} // verus!
