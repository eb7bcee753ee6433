//! The randomness source and the draws the library makes from it.
//!
//! Nothing is known of a draw but its range: every function that consumes
//! one is verified for all values the generator may return.

use rand::rngs::StdRng;
use rand::Rng;
use vstd::prelude::*;
use vstd::string::StrSliceExecFns;
use crate::text::string_from_chars;

verus! {

/// The generator of the `rand` crate that callers seed and hand in.
#[verifier::external_type_specification]
#[verifier::external_body]
pub struct ExStdRng(StdRng);

/// One integer from `low` to `high`, both included.
///
/// Trusted: `Rng::gen_range` over an inclusive range returns a value inside
/// the range; it panics on an empty range, which `requires` rules out.
#[verifier::external_body]
pub(crate) fn draw_in_range(rng: &mut StdRng, low: u64, high: u64) -> (value: u64)
    requires
        low <= high,
    ensures
        low <= value <= high,
{
    rng.gen_range(low..=high)
}

/// One 128-bit value.
///
/// Trusted: `Rng::gen` returns some `u128`; nothing is claimed of it.
#[verifier::external_body]
pub(crate) fn draw_u128(rng: &mut StdRng) -> (value: u128)
{
    rng.gen::<u128>()
}

/// Whether every character of `s` occurs in `alphabet`.
pub open spec fn drawn_from(s: Seq<char>, alphabet: Seq<char>) -> bool {
    forall|i: int| 0 <= i < s.len() ==> alphabet.contains(#[trigger] s[i])
}

/// A string of `count` characters, each drawn from `alphabet`
/// independently.
pub fn draw_text(rng: &mut StdRng, alphabet: &str, count: usize) -> (s: String)
    requires
        alphabet@.len() > 0,
    ensures
        s@.len() == count,
        drawn_from(s@, alphabet@),
{
    let size: usize = alphabet.unicode_len();
    let mut out: Vec<char> = Vec::new();
    let mut i: usize = 0;
    while i < count
        invariant
            size == alphabet@.len(),
            size > 0,
            i <= count,
            out@.len() == i,
            drawn_from(out@, alphabet@),
        decreases count - i,
    {
        let pick: u64 = draw_in_range(rng, 0, (size - 1) as u64);
        let c: char = alphabet.get_char(pick as usize);
        assert(alphabet@.contains(c));
        out.push(c);
        i += 1;
    }
    string_from_chars(&out)
}

} // verus!
