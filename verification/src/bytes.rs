use vstd::prelude::*;

verus! {

/// Little-endian interpretation of a byte sequence as an unbounded natural.
pub open spec fn le_bytes_to_nat(s: Seq<u8>) -> nat
    decreases s.len(),
{
    if s.len() == 0 {
        0
    } else {
        s[0] as nat + 256 * le_bytes_to_nat(s.drop_first())
    }
}

/// The all-zero sequence of 32 bytes: the canonical encoding of the
/// group identity element.
pub open spec fn zero32() -> Seq<u8> {
    Seq::new(32, |i: int| 0u8)
}

/// True when every byte of `s` is zero.
pub open spec fn all_zero(s: Seq<u8>) -> bool {
    forall|i: int| 0 <= i < s.len() ==> s[i] == 0
}

/// Check whether every byte of a slice is zero.
pub fn is_all_zero(b: &[u8]) -> (r: bool)
    ensures
        r <==> all_zero(b@),
{
    let mut i: usize = 0;
    while i < b.len()
        invariant
            0 <= i <= b@.len(),
            forall|j: int| 0 <= j < i ==> b@[j] == 0,
        decreases b@.len() - i,
    {
        if b[i] != 0 {
            return false;
        }
        i += 1;
    }
    true
}

} // verus!
