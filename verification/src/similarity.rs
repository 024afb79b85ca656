//! String similarity scores, carried as ordered integers.

use vstd::prelude::*;

verus! {

/// The IEEE-754 bit pattern of the Jaro-Winkler similarity of two character
/// sequences, as `strsim::jaro_winkler` computes it.
pub uninterp spec fn jaro_winkler_bits(a: Seq<char>, b: Seq<char>) -> u64;

/// Calls `strsim::jaro_winkler` and hands back the bit pattern of the score.
///
/// Trusted: the score depends on the two strings alone, so it is named by
/// [`jaro_winkler_bits`]. The score is a finite, non-negative double, hence
/// its bit pattern read as an integer orders scores as the doubles do.
#[verifier::external_body]
pub(crate) fn similarity_bits(a: &str, b: &str) -> (bits: u64)
    ensures
        bits == jaro_winkler_bits(a@, b@),
{
    strsim::jaro_winkler(a, b).to_bits()
}

} // verus!
