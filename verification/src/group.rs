//! Bindings to curve25519-dalek's Ristretto group.
//!
//! A `RistrettoPoint` is opaque to the verifier.  Its identity as a group
//! element is captured by the uninterpreted function `point_repr`: the
//! canonical 32-byte compressed encoding, which determines the element
//! (Ristretto compression is injective on group elements).  Group
//! operations themselves are not modelled; the library states only what
//! its callers need: encoding lengths, the compress/decompress relation,
//! and the identity's all-zero encoding.

use vstd::prelude::*;

use crate::bytes::zero32;
use curve25519_dalek::ristretto::{CompressedRistretto, RistrettoPoint};
use curve25519_dalek::scalar::Scalar;
use curve25519_dalek::traits::{IsIdentity, MultiscalarMul};
use subtle::{Choice, ConditionallySelectable};

verus! {

#[verifier::external_type_specification]
#[verifier::external_body]
pub struct ExRistrettoPoint(curve25519_dalek::ristretto::RistrettoPoint);

/// The canonical compressed encoding of a point
/// (what `RistrettoPoint::compress` returns).
pub uninterp spec fn point_repr(p: RistrettoPoint) -> Seq<u8>;

/// Relies on curve25519-dalek's `RistrettoPoint::compress` followed by
/// `CompressedRistretto::to_bytes`: the canonical 32-byte encoding.
#[verifier::external_body]
pub(crate) fn point_compress(p: &RistrettoPoint) -> (r: Vec<u8>)
    ensures
        r@ == point_repr(*p),
        r@.len() == 32,
{
    p.compress().to_bytes().to_vec()
}

/// Relies on curve25519-dalek's `CompressedRistretto::decompress`: it
/// accepts only canonical encodings, so a decompressed point compresses
/// back to the same 32 bytes.
#[verifier::external_body]
pub(crate) fn point_decompress(bytes: &[u8]) -> (r: Option<RistrettoPoint>)
    requires
        bytes@.len() == 32,
    ensures
        r is Some ==> point_repr(r->Some_0) == bytes@,
{
    CompressedRistretto::from_slice(bytes).decompress()
}

/// Relies on curve25519-dalek's `IsIdentity for RistrettoPoint`: the
/// identity element is exactly the point whose encoding is 32 zero bytes.
#[verifier::external_body]
pub(crate) fn point_is_identity(p: &RistrettoPoint) -> (r: bool)
    ensures
        r <==> point_repr(*p) == zero32(),
{
    p.is_identity()
}

/// Relies on curve25519-dalek's `Add for RistrettoPoint`.
#[verifier::external_body]
pub(crate) fn point_add(a: &RistrettoPoint, b: &RistrettoPoint) -> RistrettoPoint {
    a + b
}

/// Relies on curve25519-dalek's `Neg for RistrettoPoint`.
#[verifier::external_body]
pub(crate) fn point_neg(a: &RistrettoPoint) -> RistrettoPoint {
    -a
}

/// Relies on curve25519-dalek's `Mul<&RistrettoPoint> for &Scalar`.
#[verifier::external_body]
pub(crate) fn point_scalar_mul(s: &Scalar, p: &RistrettoPoint) -> RistrettoPoint {
    s * p
}

/// Relies on subtle's `ConditionallySelectable for RistrettoPoint`: a
/// constant-time select that never branches on `choice`.
#[verifier::external_body]
pub(crate) fn point_select(a: &RistrettoPoint, b: &RistrettoPoint, choice: u8) -> (r: RistrettoPoint)
    requires
        choice == 0 || choice == 1,
    ensures
        point_repr(r) == if choice == 1 {
            point_repr(*b)
        } else {
            point_repr(*a)
        },
{
    RistrettoPoint::conditional_select(a, b, Choice::from(choice))
}

/// Relies on curve25519-dalek's `RistrettoPoint::multiscalar_mul`:
/// computes the sum of `scalars[i] * points[i]` in one pass.
#[verifier::external_body]
pub(crate) fn multiscalar_mul(scalars: &Vec<Scalar>, points: &Vec<RistrettoPoint>) -> RistrettoPoint
    requires
        scalars@.len() == points@.len(),
{
    RistrettoPoint::multiscalar_mul(scalars.iter(), points.iter())
}

/// Relies on curve25519-dalek's `RISTRETTO_BASEPOINT_POINT` constant.
#[verifier::external_body]
pub(crate) fn ristretto_basepoint() -> RistrettoPoint {
    curve25519_dalek::constants::RISTRETTO_BASEPOINT_POINT
}

/// Relies on curve25519-dalek's `RistrettoPoint::from_uniform_bytes`: maps
/// 64 uniform bytes to a group element.
#[verifier::external_body]
pub(crate) fn point_from_uniform_bytes(bytes: &[u8]) -> RistrettoPoint
    requires
        bytes@.len() == 64,
{
    let mut arr = [0u8; 64];
    arr.copy_from_slice(bytes);
    RistrettoPoint::from_uniform_bytes(&arr)
}

} // verus!
