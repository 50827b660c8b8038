use vstd::prelude::*;

verus! {

/// The ways a proof operation can fail.
#[derive(Clone, Copy, Debug, PartialEq, Eq, Structural)]
pub enum ProofError {
    /// The requested vector length exceeds the generator capacity.
    InvalidGeneratorsLength,
    /// A byte-level parse failure: wrong length, non-canonical scalar, or
    /// an inner-product tail of the wrong shape.
    FormatError,
    /// The proof was rejected: a point failed validation or the aggregated
    /// multiscalar check did not vanish.
    VerificationError,
}

} // verus!
