//! Display names and the rules they must satisfy.

use vstd::prelude::*;
use vstd::string::StrSliceExecFns;

verus! {

/// The shortest display name that is accepted, in characters.
pub const MIN_NAME_LEN: usize = 3;

/// The longest display name that is accepted, in characters.
pub const MAX_NAME_LEN: usize = 16;

/// Why a display name was rejected.
#[derive(Clone, Copy, Debug, PartialEq, Eq, Structural)]
pub enum ValidationError {
    /// The name has no characters.
    Empty,
    /// The name has fewer than three characters.
    TooShort,
    /// The name has more than sixteen characters.
    TooLong,
    /// The name holds a character that is no ASCII letter, digit or underscore.
    InvalidCharacters,
}

/// Whether `c` may occur in a display name: an ASCII letter, an ASCII digit
/// or an underscore.
pub open spec fn is_name_char(c: char) -> bool {
    ||| 'a' <= c <= 'z'
    ||| 'A' <= c <= 'Z'
    ||| '0' <= c <= '9'
    ||| c == '_'
}

/// Whether every character of `s` may occur in a display name.
pub open spec fn all_name_chars(s: Seq<char>) -> bool {
    forall|i: int| 0 <= i < s.len() ==> is_name_char(#[trigger] s[i])
}

/// The rules in the order in which they are applied; the first that fails
/// decides the error.
pub open spec fn name_verdict(s: Seq<char>) -> Result<(), ValidationError> {
    if s.len() == 0 {
        Err(ValidationError::Empty)
    } else if s.len() < MIN_NAME_LEN {
        Err(ValidationError::TooShort)
    } else if s.len() > MAX_NAME_LEN {
        Err(ValidationError::TooLong)
    } else if !all_name_chars(s) {
        Err(ValidationError::InvalidCharacters)
    } else {
        Ok(())
    }
}

/// A display name that passes every rule.
pub open spec fn is_valid_name(s: Seq<char>) -> bool {
    &&& MIN_NAME_LEN <= s.len() <= MAX_NAME_LEN
    &&& all_name_chars(s)
}

/// Executable form of [`is_name_char`].
pub fn name_char_allowed(c: char) -> (ok: bool)
    ensures
        ok == is_name_char(c),
{
    ('a' <= c && c <= 'z') || ('A' <= c && c <= 'Z') || ('0' <= c && c <= '9') || c == '_'
}

/// Checks a display name against the rules, in their order.
pub fn validate_display_name(name: &str) -> (verdict: Result<(), ValidationError>)
    ensures
        verdict == name_verdict(name@),
        verdict is Ok <==> is_valid_name(name@),
{
    let len: usize = name.unicode_len();
    if len == 0 {
        return Err(ValidationError::Empty);
    }
    if len < MIN_NAME_LEN {
        return Err(ValidationError::TooShort);
    }
    if len > MAX_NAME_LEN {
        return Err(ValidationError::TooLong);
    }
    let mut i: usize = 0;
    while i < len
        invariant
            len == name@.len(),
            MIN_NAME_LEN <= len <= MAX_NAME_LEN,
            0 <= i <= len,
            forall|j: int| 0 <= j < i ==> is_name_char(#[trigger] name@[j]),
        decreases len - i,
    {
        if !name_char_allowed(name.get_char(i)) {
            assert(!is_name_char(name@[i as int]));
            return Err(ValidationError::InvalidCharacters);
        }
        i += 1;
    }
    Ok(())
}

/// A name is accepted exactly when it is valid, and then no error applies.
pub proof fn lemma_verdict_ok_iff_valid(s: Seq<char>)
    ensures
        name_verdict(s) is Ok <==> is_valid_name(s),
{
}

} // verus!
