//! The Fiat–Shamir transcript protocol.
//!
//! The raw sponge comes from merlin; it is opaque to the verifier and no
//! claim is made about the bytes it squeezes.  On top of the three trusted
//! bindings, this module defines the labelled operations the k-hot
//! protocol uses: domain separation, scalar and point absorption,
//! identity-rejecting point absorption, and challenge extraction.

use vstd::prelude::*;

use crate::bytes::all_zero;
use crate::errors::ProofError;
use crate::field::{scalar_from_wide_bytes, scalar_to_bytes, scalar_wf};
use curve25519_dalek::scalar::Scalar;
use merlin::Transcript;

verus! {

#[verifier::external_type_specification]
#[verifier::external_body]
pub struct ExTranscript(merlin::Transcript);

/// Relies on merlin's `Transcript::new`: a fresh transcript keyed by an
/// application label.
#[verifier::external_body]
pub(crate) fn transcript_new(label: &'static str) -> Transcript {
    Transcript::new(label.as_bytes())
}

/// Relies on merlin's `Transcript::append_message`: absorbs a labelled
/// message into the sponge.
#[verifier::external_body]
pub(crate) fn transcript_append(t: &mut Transcript, label: &'static str, message: &[u8]) {
    t.append_message(label.as_bytes(), message)
}

/// Relies on merlin's `Transcript::challenge_bytes`: squeezes 64 bytes.
#[verifier::external_body]
pub(crate) fn transcript_challenge_bytes64(t: &mut Transcript, label: &'static str) -> (r: Vec<u8>)
    ensures
        r@.len() == 64,
{
    let mut buf = [0u8; 64];
    t.challenge_bytes(label.as_bytes(), &mut buf);
    buf.to_vec()
}

/// Absorb the k-hot domain separator together with the vector length.
pub(crate) fn domain_sep(t: &mut Transcript, n: u64) {
    // The ASCII bytes of "k-hot-proof v1".
    let tag: Vec<u8> = vec![107, 45, 104, 111, 116, 45, 112, 114, 111, 111, 102, 32, 118, 49];
    transcript_append(t, "dom-sep", tag.as_slice());
    let n_bytes = u64_le_bytes(n);
    transcript_append(t, "n", n_bytes.as_slice());
}

/// Absorb the inner-product domain separator together with the vector
/// length.
pub(crate) fn ipp_domain_sep(t: &mut Transcript, n: u64) {
    // The ASCII bytes of "ipp v1".
    let tag: Vec<u8> = vec![105, 112, 112, 32, 118, 49];
    transcript_append(t, "dom-sep", tag.as_slice());
    let n_bytes = u64_le_bytes(n);
    transcript_append(t, "n", n_bytes.as_slice());
}

/// Absorb a labelled scalar (its canonical 32-byte encoding).
pub(crate) fn append_scalar(t: &mut Transcript, label: &'static str, s: &Scalar) {
    let bytes = scalar_to_bytes(s);
    transcript_append(t, label, bytes.as_slice());
}

/// Absorb a labelled compressed point.
pub(crate) fn append_point(t: &mut Transcript, label: &'static str, bytes: &[u8])
    requires
        bytes@.len() == 32,
{
    transcript_append(t, label, bytes);
}

/// Absorb a labelled compressed point, rejecting the identity: succeeds
/// exactly when the 32 bytes are not all zero.
pub fn validate_and_append_point(t: &mut Transcript, label: &'static str, bytes: &[u8]) -> (r:
    Result<(), ProofError>)
    requires
        bytes@.len() == 32,
    ensures
        r is Ok <==> !all_zero(bytes@),
        r is Err ==> r->Err_0 == ProofError::VerificationError,
{
    if crate::bytes::is_all_zero(bytes) {
        Err(ProofError::VerificationError)
    } else {
        transcript_append(t, label, bytes);
        Ok(())
    }
}

/// Extract a labelled challenge scalar: 64 squeezed bytes reduced mod ℓ.
pub fn challenge_scalar(t: &mut Transcript, label: &'static str) -> (r: Scalar)
    ensures
        scalar_wf(r),
{
    let wide = transcript_challenge_bytes64(t, label);
    scalar_from_wide_bytes(wide.as_slice())
}

/// Encode an integer as 8 little-endian bytes.
pub fn u64_le_bytes(x: u64) -> (r: Vec<u8>)
    ensures
        r@.len() == 8,
{
    let mut v: Vec<u8> = Vec::new();
    let mut rest: u64 = x;
    let mut i: usize = 0;
    while i < 8
        invariant
            v@.len() == i,
            0 <= i <= 8,
        decreases 8 - i,
    {
        v.push((rest % 256) as u8);
        rest = rest / 256;
        i += 1;
    }
    v
}

} // verus!
