//! Rendering of numbers as text, and the bridge from character vectors to
//! strings.

use vstd::prelude::*;

verus! {

/// The character of the digit `d` in base 16, lower case; in base 10 for
/// `d < 10`.
pub open spec fn digit_char(d: int) -> char {
    if d < 10 {
        ('0' as int + d) as char
    } else {
        ('a' as int + (d - 10)) as char
    }
}

/// The last `width` digits of `value` in base 16, lower case, most
/// significant first. Where `value < 16^width` this is `value` padded with
/// zeros to `width` digits.
pub open spec fn hex_text(value: nat, width: nat) -> Seq<char>
    decreases width,
{
    if width == 0 {
        Seq::empty()
    } else {
        hex_text(value / 16, (width - 1) as nat).push(digit_char((value % 16) as int))
    }
}

/// `value` in base 10, without leading zeros.
pub open spec fn decimal_text(value: nat) -> Seq<char>
    decreases value,
{
    if value < 10 {
        seq![digit_char(value as int)]
    } else {
        decimal_text(value / 10).push(digit_char((value % 10) as int))
    }
}

/// Executable form of [`digit_char`].
pub fn digit_to_char(d: u8) -> (c: char)
    requires
        d < 16,
    ensures
        c == digit_char(d as int),
{
    if d < 10 {
        (48u8 + d) as char
    } else {
        (97u8 + (d - 10)) as char
    }
}

/// Appends the last `width` hexadecimal digits of `value` to `out`.
pub fn push_hex(out: &mut Vec<char>, value: u128, width: usize)
    ensures
        final(out)@ == old(out)@ + hex_text(value as nat, width as nat),
    decreases width,
{
    if width > 0 {
        push_hex(out, value / 16, width - 1);
        out.push(digit_to_char((value % 16) as u8));
        assert(final(out)@ =~= old(out)@ + hex_text(value as nat, width as nat));
    } else {
        assert(final(out)@ =~= old(out)@ + hex_text(value as nat, width as nat));
    }
}

/// Appends `value` in base 10 to `out`.
pub fn push_decimal(out: &mut Vec<char>, value: u64)
    ensures
        final(out)@ == old(out)@ + decimal_text(value as nat),
    decreases value,
{
    if value < 10 {
        out.push(digit_to_char(value as u8));
    } else {
        push_decimal(out, value / 10);
        out.push(digit_to_char((value % 10) as u8));
    }
    assert(final(out)@ =~= old(out)@ + decimal_text(value as nat));
}

/// The string that holds exactly the characters of `chars`, in order.
///
/// Trusted: `String::from_iter` over the characters of a vector collects
/// them into a string, one after another.
#[verifier::external_body]
pub(crate) fn string_from_chars(chars: &Vec<char>) -> (s: String)
    ensures
        s@ == chars@,
{
    String::from_iter(chars.iter())
}

/// `value` written with exactly `width` hexadecimal digits.
pub fn hex_string(value: u128, width: usize) -> (s: String)
    ensures
        s@ == hex_text(value as nat, width as nat),
{
    let mut out: Vec<char> = Vec::new();
    push_hex(&mut out, value, width);
    string_from_chars(&out)
}

/// `value` written in base 10.
pub fn decimal_string(value: u64) -> (s: String)
    ensures
        s@ == decimal_text(value as nat),
{
    let mut out: Vec<char> = Vec::new();
    push_decimal(&mut out, value);
    string_from_chars(&out)
}

} // verus!
