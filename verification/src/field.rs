//! Bindings to curve25519-dalek's `Scalar`: elements of the prime field
//! of order ℓ, the order of the Ristretto group.
//!
//! A `Scalar` is opaque to the verifier.  Its mathematical content is
//! captured by the uninterpreted function `scalar_bytes`, which gives the
//! little-endian byte encoding the scalar carries; `scalar_val` reads that
//! encoding as an integer.  Every scalar this library constructs is in
//! canonical reduced form (`scalar_wf`), and each trusted wrapper below
//! states the arithmetic that curve25519-dalek documents for reduced
//! scalars.

use vstd::prelude::*;

use crate::bytes::le_bytes_to_nat;
use curve25519_dalek::scalar::Scalar;

verus! {

#[verifier::external_type_specification]
#[verifier::external_body]
pub struct ExScalar(curve25519_dalek::scalar::Scalar);

/// The little-endian byte encoding held by a `Scalar`
/// (what `Scalar::to_bytes` returns).
pub uninterp spec fn scalar_bytes(s: Scalar) -> Seq<u8>;

/// The group order ℓ = 2^252 + 27742317777372353535851937790883648493.
pub open spec fn group_order() -> int {
    vstd::arithmetic::power2::pow2(252) as int + 27742317777372353535851937790883648493
}

/// The integer a scalar encodes.
pub open spec fn scalar_val(s: Scalar) -> int {
    le_bytes_to_nat(scalar_bytes(s)) as int
}

/// A scalar in canonical reduced form: 32 bytes encoding a value below ℓ.
pub open spec fn scalar_wf(s: Scalar) -> bool {
    scalar_bytes(s).len() == 32 && 0 <= scalar_val(s) < group_order()
}

/// Addition in the field: reduced sum.
pub open spec fn f_add(a: int, b: int) -> int {
    (a + b) % group_order()
}

/// Subtraction in the field: reduced difference.
pub open spec fn f_sub(a: int, b: int) -> int {
    (a - b) % group_order()
}

/// Multiplication in the field: reduced product.
pub open spec fn f_mul(a: int, b: int) -> int {
    (a * b) % group_order()
}

/// Exponentiation in the field by a natural exponent.
pub open spec fn f_pow(a: int, e: nat) -> int
    decreases e,
{
    if e == 0 {
        1
    } else {
        f_mul(f_pow(a, (e - 1) as nat), a)
    }
}

/// The reduced sum 1 + a + a² + … + a^(n−1).
pub open spec fn f_sum_of_powers(a: int, n: nat) -> int
    decreases n,
{
    if n == 0 {
        0
    } else {
        f_add(f_sum_of_powers(a, (n - 1) as nat), f_pow(a, (n - 1) as nat))
    }
}

/// Relies on curve25519-dalek's `Add for Scalar`: the sum of two reduced
/// scalars, reduced mod ℓ.
#[verifier::external_body]
pub(crate) fn scalar_add(a: &Scalar, b: &Scalar) -> (r: Scalar)
    requires
        scalar_wf(*a),
        scalar_wf(*b),
    ensures
        scalar_wf(r),
        scalar_val(r) == f_add(scalar_val(*a), scalar_val(*b)),
{
    a + b
}

/// Relies on curve25519-dalek's `Sub for Scalar`: the difference of two
/// reduced scalars, reduced mod ℓ.
#[verifier::external_body]
pub(crate) fn scalar_sub(a: &Scalar, b: &Scalar) -> (r: Scalar)
    requires
        scalar_wf(*a),
        scalar_wf(*b),
    ensures
        scalar_wf(r),
        scalar_val(r) == f_sub(scalar_val(*a), scalar_val(*b)),
{
    a - b
}

/// Relies on curve25519-dalek's `Mul for Scalar`: the product of two
/// reduced scalars, reduced mod ℓ.
#[verifier::external_body]
pub(crate) fn scalar_mul(a: &Scalar, b: &Scalar) -> (r: Scalar)
    requires
        scalar_wf(*a),
        scalar_wf(*b),
    ensures
        scalar_wf(r),
        scalar_val(r) == f_mul(scalar_val(*a), scalar_val(*b)),
{
    a * b
}

/// Relies on curve25519-dalek's `Neg for Scalar`: the additive inverse,
/// reduced mod ℓ.
#[verifier::external_body]
pub(crate) fn scalar_neg(a: &Scalar) -> (r: Scalar)
    requires
        scalar_wf(*a),
    ensures
        scalar_wf(r),
        scalar_val(r) == f_sub(0, scalar_val(*a)),
{
    -a
}

/// Relies on curve25519-dalek's `Scalar::invert`: for a nonzero reduced
/// scalar, a reduced scalar whose product with the input is 1.
#[verifier::external_body]
pub(crate) fn scalar_invert(a: &Scalar) -> (r: Scalar)
    requires
        scalar_wf(*a),
    ensures
        scalar_wf(r),
        scalar_val(*a) != 0 ==> f_mul(scalar_val(*a), scalar_val(r)) == 1,
{
    a.invert()
}

/// Relies on curve25519-dalek's `Scalar::zero`.
#[verifier::external_body]
pub(crate) fn scalar_zero() -> (r: Scalar)
    ensures
        scalar_wf(r),
        scalar_val(r) == 0,
{
    Scalar::zero()
}

/// Relies on curve25519-dalek's `Scalar::one`.
#[verifier::external_body]
pub(crate) fn scalar_one() -> (r: Scalar)
    ensures
        scalar_wf(r),
        scalar_val(r) == 1,
{
    Scalar::one()
}

/// Relies on curve25519-dalek's `From<u64> for Scalar`: embeds an integer
/// below 2^64 < ℓ into the field.
#[verifier::external_body]
pub(crate) fn scalar_from_u64(v: u64) -> (r: Scalar)
    ensures
        scalar_wf(r),
        scalar_val(r) == v,
{
    Scalar::from(v)
}

/// Relies on curve25519-dalek's `Scalar::to_bytes`: the canonical
/// little-endian encoding of the scalar.
#[verifier::external_body]
pub(crate) fn scalar_to_bytes(s: &Scalar) -> (r: Vec<u8>)
    ensures
        r@ == scalar_bytes(*s),
{
    s.to_bytes().to_vec()
}

/// Relies on curve25519-dalek's `Scalar::from_canonical_bytes`: accepts
/// exactly the 32-byte strings that encode an integer below ℓ, and returns
/// the scalar carrying those bytes.
#[verifier::external_body]
pub(crate) fn scalar_from_canonical_bytes(bytes: &[u8]) -> (r: Option<Scalar>)
    requires
        bytes@.len() == 32,
    ensures
        r is Some <==> le_bytes_to_nat(bytes@) < group_order(),
        r is Some ==> scalar_bytes(r->Some_0) == bytes@,
{
    let mut arr = [0u8; 32];
    arr.copy_from_slice(bytes);
    Scalar::from_canonical_bytes(arr)
}

/// Relies on curve25519-dalek's `Scalar::from_bytes_mod_order_wide`:
/// reduces a 512-bit little-endian integer mod ℓ.
#[verifier::external_body]
pub(crate) fn scalar_from_wide_bytes(bytes: &[u8]) -> (r: Scalar)
    requires
        bytes@.len() == 64,
    ensures
        scalar_wf(r),
        scalar_val(r) == (le_bytes_to_nat(bytes@) as int) % group_order(),
{
    let mut arr = [0u8; 64];
    arr.copy_from_slice(bytes);
    Scalar::from_bytes_mod_order_wide(&arr)
}

/// Check at run time that a scalar is in canonical reduced form.
pub fn scalar_is_canonical(s: &Scalar) -> (r: bool)
    ensures
        r == scalar_wf(*s),
{
    let b = scalar_to_bytes(s);
    if b.len() != 32 {
        return false;
    }
    match scalar_from_canonical_bytes(b.as_slice()) {
        Some(_) => true,
        None => false,
    }
}

#[verifier::external_type_specification]
#[verifier::external_body]
pub struct ExThreadRng(rand::rngs::ThreadRng);

/// Relies on rand's `thread_rng`: a handle to the thread-local CSPRNG.
#[verifier::external_body]
pub(crate) fn new_rng() -> rand::rngs::ThreadRng {
    rand::thread_rng()
}

/// Relies on curve25519-dalek's `Scalar::random`: a reduced scalar sampled
/// from the CSPRNG.  Nothing is promised of its value beyond reducedness.
#[verifier::external_body]
pub(crate) fn scalar_random(rng: &mut rand::rngs::ThreadRng) -> (r: Scalar)
    ensures
        scalar_wf(r),
{
    Scalar::random(rng)
}

} // verus!
