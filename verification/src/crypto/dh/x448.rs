//! X448 implementation of the DH and DHKeypair traits

use vstd::prelude::*;
use cx448::{MontgomeryPoint, Scalar, WideScalarBytes};

use crate::crypto::dh::{array_to_vec, bytes_to_array, fill_random, DHKeypair, DH};
use crate::error::NoiseError;

verus! {

/// The X448 result of `scalar` and `point` (RFC 7748, with the scalar
/// clamped), as computed by `cx448::x448::x448` for a point that it
/// accepts.
pub uninterp spec fn x448_output(scalar: Seq<u8>, point: Seq<u8>) -> Seq<u8>;

/// The scalar that `cx448::Scalar::from_bytes_mod_order_wide` makes of 114
/// bytes (reduced modulo the group order), in its 56-byte encoding.
pub uninterp spec fn x448_wide_reduced(wide: Seq<u8>) -> Seq<u8>;

/// The point that `cx448` computes as the product of the scalar encoded by
/// `scalar` and the generator, without clamping the scalar.
pub uninterp spec fn x448_generator_product(scalar: Seq<u8>) -> Seq<u8>;

/// The X448 generator of RFC 7748 (the u-coordinate 5).
pub open spec fn x448_generator() -> Seq<u8> {
    Seq::new(56, |i: int| if i == 0 { 5u8 } else { 0u8 })
}

/// The three low-order points that `cx448::x448::x448` refuses.
pub open spec fn x448_low_order(point: Seq<u8>) -> bool {
    ||| point == Seq::new(56, |i: int| 0u8)
    ||| point == Seq::new(56, |i: int| if i == 0 { 1u8 } else { 0u8 })
    ||| point == Seq::new(56, |i: int| if i == 0 || i == 28 { 0xfeu8 } else { 0xffu8 })
}

/// Calls `cx448::x448::x448`. The contract claims that it refuses exactly
/// the low-order points of [`x448_low_order`] and otherwise returns the
/// value named by [`x448_output`]; and that both parties agree: when the
/// accepted `point` is the public key of some 56-byte private key `b`, and
/// the public key of `scalar` is not a low-order point either, the owner of
/// `b` computes the same secret from the public key of `scalar` (the
/// Diffie-Hellman property of X448, RFC 7748).
#[verifier::external_body]
fn x448_call(scalar: &[u8; 56], point: &[u8; 56]) -> (r: Option<[u8; 56]>)
    ensures
        r is None <==> x448_low_order(point@),
        r matches Some(s) ==> s@ == x448_output(scalar@, point@),
        r matches Some(s) ==> forall|b: Seq<u8>|
            b.len() == 56 && point@ == #[trigger] x448_output(b, x448_generator())
                && !x448_low_order(x448_output(scalar@, x448_generator())) ==> s@ == x448_output(
                b,
                x448_output(scalar@, x448_generator()),
            ),
{
    cx448::x448::x448(*scalar, *point)
}

/// Calls `cx448::Scalar::from_bytes_mod_order_wide` and encodes the scalar
/// with `to_bytes`; the contract claims that the result is the value named
/// by [`x448_wide_reduced`].
#[verifier::external_body]
fn x448_reduce_wide(wide: &[u8; 114]) -> (r: [u8; 56])
    ensures
        r@ == x448_wide_reduced(wide@),
{
    Scalar::from_bytes_mod_order_wide(&WideScalarBytes::clone_from_slice(wide)).to_bytes()
}

/// Multiplies the scalar made by `cx448::Scalar::from_bytes` of `scalar`
/// with `MontgomeryPoint::GENERATOR`; the contract claims that the result
/// is the value named by [`x448_generator_product`].
#[verifier::external_body]
fn x448_mul_generator(scalar: &[u8; 56]) -> (r: [u8; 56])
    ensures
        r@ == x448_generator_product(scalar@),
{
    (&Scalar::from_bytes(scalar) * &MontgomeryPoint::GENERATOR).0
}

/// The low-order point `which` (0, 1 or 2) of [`x448_low_order`].
pub open spec fn low_order_point(which: int) -> Seq<u8> {
    if which == 0 {
        Seq::new(56, |k: int| 0u8)
    } else if which == 1 {
        Seq::new(56, |k: int| if k == 0 { 1u8 } else { 0u8 })
    } else {
        Seq::new(56, |k: int| if k == 0 || k == 28 { 0xfeu8 } else { 0xffu8 })
    }
}

/// The byte at index `i` of the low-order point `which`.
fn low_order_byte(which: usize, i: usize) -> (r: u8)
    requires
        which < 3,
        i < 56,
    ensures
        r == low_order_point(which as int)[i as int],
{
    if which == 0 {
        0u8
    } else if which == 1 {
        if i == 0 { 1u8 } else { 0u8 }
    } else {
        if i == 0 || i == 28 { 0xfeu8 } else { 0xffu8 }
    }
}

/// Whether `pk` is one of the low-order points of [`x448_low_order`].
fn is_low_order(pk: &[u8]) -> (r: bool)
    requires
        pk@.len() == 56,
    ensures
        r == x448_low_order(pk@),
{
    let mut which: usize = 0;
    while which < 3
        invariant
            pk@.len() == 56,
            0 <= which <= 3,
            forall|w: int| 0 <= w < which ==> pk@ != #[trigger] low_order_point(w),
        decreases 3 - which,
    {
        let mut i: usize = 0;
        while i < 56
            invariant_except_break
                pk@.len() == 56,
                which < 3,
                0 <= i <= 56,
                forall|k: int| 0 <= k < i ==> pk@[k] == #[trigger] low_order_point(which as int)[k],
            ensures
                0 <= i <= 56,
                forall|k: int| 0 <= k < i ==> pk@[k] == #[trigger] low_order_point(which as int)[k],
                i < 56 ==> pk@[i as int] != low_order_point(which as int)[i as int],
            decreases 56 - i,
        {
            if pk[i] != low_order_byte(which, i) {
                break;
            }
            i += 1;
        }
        if i == 56 {
            assert(pk@ =~= low_order_point(which as int));
            return true;
        }
        which += 1;
    }
    assert(pk@ != low_order_point(0) && pk@ != low_order_point(1) && pk@ != low_order_point(2));
    false
}

/// The X448 generator as an array.
fn generator() -> (r: [u8; 56])
    ensures
        r@ == x448_generator(),
{
    let mut g = [0u8; 56];
    g[0] = 5u8;
    let mut i: usize = 1;
    while i < 56
        invariant
            1 <= i <= 56,
            g@.len() == 56,
            g@[0] == 5u8,
            forall|k: int| 1 <= k < i ==> #[trigger] g@[k] == 0u8,
        decreases 56 - i,
    {
        g[i] = 0u8;
        i += 1;
    }
    assert(g@ =~= x448_generator());
    g
}

/// An X448 keypair.
pub struct X448Keys {
    /// The public key.
    pub public: [u8; 56],
    private: [u8; 56],
}

impl DHKeypair for X448Keys {
    open spec fn spec_key_len() -> nat {
        56
    }

    closed spec fn spec_public(&self) -> Seq<u8> {
        self.public@
    }

    closed spec fn spec_private(&self) -> Seq<u8> {
        self.private@
    }

    open spec fn spec_derive_public(sk: Seq<u8>) -> Seq<u8> {
        x448_output(sk, x448_generator())
    }

    proof fn lemma_key_lengths(&self) {
    }

    fn public(&self) -> (r: Vec<u8>) {
        array_to_vec(&self.public)
    }

    fn private(&self) -> (r: &[u8]) {
        self.private.as_slice()
    }

    fn pubkey_bytes(&self) -> (r: Vec<u8>) {
        array_to_vec(&self.public)
    }

    /// Derives a keypair by multiplying the clamped scalar `sk` with the
    /// X448 generator.
    fn derive_keypair(sk: &[u8]) -> (r: Self) {
        let private: [u8; 56] = bytes_to_array(sk);
        let g = generator();
        proof {
            assert(g@[0] == 5u8);
            assert(!x448_low_order(g@)) by {
                assert(Seq::new(56, |i: int| 0u8)[0] == 0u8);
                assert(Seq::new(56, |i: int| if i == 0 { 1u8 } else { 0u8 })[0] == 1u8);
                assert(Seq::new(56, |i: int| if i == 0 || i == 28 { 0xfeu8 } else { 0xffu8 })[0] == 0xfeu8);
            }
        }
        let public = match x448_call(&private, &g) {
            Some(p) => p,
            None => {
                proof {
                    assert(false);
                }
                [0u8; 56]
            },
        };
        Self { private, public }
    }
}

/// X448 implementation of the Noise [`DH`] trait, on the Montgomery curve
/// Curve448 as specified in RFC 7748.
pub struct X448dh;

impl DH for X448dh {
    type Keypair = X448Keys;

    open spec fn spec_dhlen() -> nat {
        56
    }

    open spec fn spec_name() -> Seq<char> {
        "448"@
    }

    open spec fn spec_dh(sk: Seq<u8>, pk: Seq<u8>) -> Option<Seq<u8>> {
        if x448_low_order(pk) {
            None
        } else {
            Some(x448_output(sk, pk))
        }
    }

    /// A generated private key is a reduced scalar and its public key the
    /// unclamped product of that scalar with the generator.
    open spec fn spec_generated(kp: X448Keys) -> bool {
        &&& exists|wide: Seq<u8>|
            wide.len() == 114 && kp.spec_private() == #[trigger] x448_wide_reduced(wide)
        &&& kp.spec_public() == x448_generator_product(kp.spec_private())
    }

    proof fn lemma_lengths() {
    }

    fn dhlen() -> (r: usize) {
        56
    }

    fn name() -> (r: &'static str) {
        "448"
    }

    fn privkey_from_bytes(bytes: &[u8]) -> (r: Result<Vec<u8>, NoiseError>) {
        if bytes.len() != 56 {
            return Err(NoiseError::ConversionError("private key has wrong length for X448"));
        }
        let mut v: Vec<u8> = Vec::with_capacity(56);
        v.extend_from_slice(bytes);
        assert(v@ =~= bytes@);
        Ok(v)
    }

    /// Parses a public key from raw bytes; returns
    /// [`NoiseError::ConversionError`] if `bytes` is not exactly 56 bytes.
    fn pubkey_from_bytes(bytes: &[u8]) -> (r: Result<Vec<u8>, NoiseError>) {
        if bytes.len() != 56 {
            return Err(NoiseError::ConversionError("public key has wrong length for X448"));
        }
        let mut v: Vec<u8> = Vec::with_capacity(56);
        v.extend_from_slice(bytes);
        assert(v@ =~= bytes@);
        Ok(v)
    }

    fn pubkey_bytes(pk: &[u8]) -> (r: Vec<u8>) {
        let mut v: Vec<u8> = Vec::with_capacity(pk.len());
        v.extend_from_slice(pk);
        assert(v@ =~= pk@);
        v
    }

    fn generate_keypair() -> (r: Option<Self::Keypair>) {
        let mut wide_bytes: Vec<u8> = vec![0u8; 114];
        if !fill_random(wide_bytes.as_mut_slice()) {
            return None;
        }
        let wide: [u8; 114] = bytes_to_array(wide_bytes.as_slice());
        let private = x448_reduce_wide(&wide);
        let public = x448_mul_generator(&private);
        let kp = X448Keys { public, private };
        assert(kp.spec_private() == x448_wide_reduced(wide@));
        Some(kp)
    }

    /// Accepts every public key but the low-order points.
    fn accepts_public_key(pk: &[u8]) -> (r: bool) {
        let low = is_low_order(pk);
        proof {
            if low {
                assert(Self::spec_dh(Seq::empty(), pk@) is None);
            }
        }
        !low
    }

    /// Performs an X448 DH with a public key that is not one of the
    /// low-order points.
    fn dh(sk: &[u8], pk: &[u8]) -> (r: Vec<u8>) {
        let sk_arr: [u8; 56] = bytes_to_array(sk);
        let pk_arr: [u8; 56] = bytes_to_array(pk);
        match x448_call(&sk_arr, &pk_arr) {
            Some(s) => array_to_vec(&s),
            None => {
                proof {
                    assert(false);
                }
                Vec::new()
            },
        }
    }
}

} // verus!
