//! Similarity of a directive to a supported token.
//!
//! The score is the Jaro-Winkler similarity as `strsim` computes it. It is a
//! double; the library keeps its IEEE 754 bit pattern and compares patterns.
//! With the sign cleared, a greater pattern is a greater value, infinity has
//! a greater pattern than every number, and the patterns above infinity's
//! are the NaNs.

use vstd::prelude::*;

verus! {

/// The bit pattern of the double that `strsim::jaro_winkler` returns for the
/// texts `a` and `b`.
pub uninterp spec fn jaro_winkler_bits(a: Seq<char>, b: Seq<char>) -> u64;

/// All bits of a double but its sign.
pub const MAGNITUDE_MASK: u64 = 0x7fff_ffff_ffff_ffff;

/// The bit pattern of the double nearest to 0.8, the score a suggestion has to exceed.
pub const THRESHOLD_BITS: u64 = 0x3fe9_9999_9999_999a;

/// The bit pattern of positive infinity. Every pattern whose magnitude lies
/// above it is a NaN.
pub const INFINITY_BITS: u64 = 0x7ff0_0000_0000_0000;

/// The bit pattern `bits` with its sign cleared: the pattern of the absolute value.
pub open spec fn magnitude(bits: u64) -> u64 {
    bits & MAGNITUDE_MASK
}

/// Whether the absolute value of the double with pattern `bits` is greater
/// than 0.8. A NaN is greater than nothing.
pub open spec fn exceeds_threshold(bits: u64) -> bool {
    THRESHOLD_BITS < magnitude(bits) <= INFINITY_BITS
}

/// Calls `strsim::jaro_winkler` on the two texts and returns the bit pattern
/// of its result (`f64::to_bits`). Nothing of this is proved. The contract
/// only names the result: it claims that the score depends on the two
/// character sequences and on nothing else, and says nothing of its value.
/// `jaro_winkler` takes every pair of texts and returns for each.
#[verifier::external_body]
pub(crate) fn similarity_bits(a: &str, b: &str) -> (bits: u64)
    ensures
        bits == jaro_winkler_bits(a@, b@),
{
    strsim::jaro_winkler(a, b).to_bits()
}

/// Tests a score, given by its bit pattern, against the threshold.
pub fn is_similar(bits: u64) -> (similar: bool)
    ensures
        similar == exceeds_threshold(bits),
{
    let magnitude: u64 = bits & MAGNITUDE_MASK;
    THRESHOLD_BITS < magnitude && magnitude <= INFINITY_BITS
}

} // verus!
