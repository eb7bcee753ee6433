//! Reading back what [`crate::json`] writes: strings, truth values, `null`,
//! and labelled lists of them.
//!
//! The reader follows the writer: it expects every escape as the writer
//! chooses it and every label as it stands. What was written is read back
//! unchanged, and nothing else is read at all ([`crate::canonical`]).

use vstd::prelude::*;
use crate::json::{
    bool_text, escaped, escaped_char, fields_text, json_quoted, label_texts, null_text,
    scalar_text, scalar_views, Scalar, ScalarView,
};
use crate::text::{digit_char, string_from_chars};

verus! {

/// What is left of `s` behind `prefix`, or `None` where `s` does not begin
/// with `prefix`.
pub open spec fn strip_prefix(s: Seq<char>, prefix: Seq<char>) -> Option<Seq<char>> {
    if prefix.len() <= s.len() && s.take(prefix.len() as int) == prefix {
        Some(s.skip(prefix.len() as int))
    } else {
        None
    }
}

/// The value of a lower-case hexadecimal digit, or -1 for any other
/// character.
pub open spec fn hex_value(c: char) -> int {
    if '0' <= c <= '9' {
        c as int - '0' as int
    } else if 'a' <= c <= 'f' {
        c as int - 'a' as int + 10
    } else {
        -1
    }
}

/// Whether the control character `code` is written with `\u`: it has no
/// shorter escape.
pub open spec fn has_long_escape(code: int) -> bool {
    0 <= code < 0x20 && code != 8 && code != 9 && code != 10 && code != 12 && code != 13
}

/// The character that stands at the head of `s` inside a JSON string, and
/// how many characters of `s` write it; `None` where `s` begins with the
/// closing quote, a bare control character or no escape of the writer.
pub open spec fn unescaped(s: Seq<char>) -> Option<(char, int)> {
    if s.len() == 0 {
        None
    } else if s[0] == '\\' {
        if s.len() < 2 {
            None
        } else if s[1] == '"' {
            Some(('"', 2))
        } else if s[1] == '\\' {
            Some(('\\', 2))
        } else if s[1] == 'b' {
            Some(('\u{8}', 2))
        } else if s[1] == 'f' {
            Some(('\u{c}', 2))
        } else if s[1] == 'n' {
            Some(('\n', 2))
        } else if s[1] == 'r' {
            Some(('\r', 2))
        } else if s[1] == 't' {
            Some(('\t', 2))
        } else if s[1] == 'u' && s.len() >= 6 && s[2] == '0' && s[3] == '0' && hex_value(s[4]) >= 0
            && hex_value(s[5]) >= 0 && has_long_escape(hex_value(s[4]) * 16 + hex_value(s[5])) {
            Some(((hex_value(s[4]) * 16 + hex_value(s[5])) as char, 6))
        } else {
            None
        }
    } else if s[0] == '"' || (s[0] as int) < 0x20 {
        None
    } else {
        Some((s[0], 1))
    }
}

/// The text whose escaped form stands at the head of `s` up to the closing
/// quote, and what follows that quote.
pub open spec fn parse_string_body(s: Seq<char>) -> Option<(Seq<char>, Seq<char>)>
    decreases s.len(),
{
    if s.len() == 0 {
        None
    } else if s[0] == '"' {
        Some((Seq::empty(), s.skip(1)))
    } else {
        match unescaped(s) {
            Some((c, used)) => if 0 < used <= s.len() {
                match parse_string_body(s.skip(used)) {
                    Some((tail, rest)) => Some((seq![c] + tail, rest)),
                    None => None,
                }
            } else {
                None
            },
            None => None,
        }
    }
}

/// The text of the JSON string at the head of `s`, and what follows the
/// string.
pub open spec fn parse_quoted(s: Seq<char>) -> Option<(Seq<char>, Seq<char>)> {
    if s.len() > 0 && s[0] == '"' {
        parse_string_body(s.skip(1))
    } else {
        None
    }
}

/// The value at the head of `s`, and what follows it.
pub open spec fn parse_scalar(s: Seq<char>) -> Option<(ScalarView, Seq<char>)> {
    if s.len() > 0 && s[0] == '"' {
        match parse_quoted(s) {
            Some((text, rest)) => Some((ScalarView::Text(text), rest)),
            None => None,
        }
    } else if strip_prefix(s, bool_text(true)) is Some {
        Some((ScalarView::Flag(true), strip_prefix(s, bool_text(true))->0))
    } else if strip_prefix(s, bool_text(false)) is Some {
        Some((ScalarView::Flag(false), strip_prefix(s, bool_text(false))->0))
    } else if strip_prefix(s, null_text()) is Some {
        Some((ScalarView::Null, strip_prefix(s, null_text())->0))
    } else {
        None
    }
}

/// The values that stand behind `labels` at the head of `s`, in turn, and
/// what follows the last of them.
pub open spec fn parse_fields(s: Seq<char>, labels: Seq<Seq<char>>) -> Option<
    (Seq<ScalarView>, Seq<char>),
>
    decreases labels.len(),
{
    if labels.len() == 0 {
        Some((Seq::empty(), s))
    } else {
        match strip_prefix(s, labels[0]) {
            Some(behind_label) => match parse_scalar(behind_label) {
                Some((value, behind_value)) => match parse_fields(
                    behind_value,
                    labels.drop_first(),
                ) {
                    Some((values, rest)) => Some((seq![value] + values, rest)),
                    None => None,
                },
                None => None,
            },
            None => None,
        }
    }
}

/// A prefix is stripped from what it was put before.
pub proof fn lemma_strip_prefix(prefix: Seq<char>, rest: Seq<char>)
    ensures
        strip_prefix(prefix + rest, prefix) == Some(rest),
{
    let s = prefix + rest;
    assert(s.take(prefix.len() as int) =~= prefix);
    assert(s.skip(prefix.len() as int) =~= rest);
}

/// Every escaped character is read back as itself, whatever follows it.
pub proof fn lemma_unescape_inverts_escape(c: char, rest: Seq<char>)
    ensures
        unescaped(escaped_char(c) + rest) == Some((c, escaped_char(c).len() as int)),
        (escaped_char(c) + rest)[0] != '"',
        escaped_char(c).len() > 0,
{
    let s = escaped_char(c) + rest;
    if (c as int) < 0x20 && has_long_escape(c as int) {
        let high = c as int / 16;
        let low = c as int % 16;
        assert(s[4] == digit_char(high));
        assert(s[5] == digit_char(low));
        assert(hex_value(digit_char(high)) == high);
        assert(hex_value(digit_char(low)) == low);
        assert((high * 16 + low) as char == c);
    }
}

/// A text is read back from its escaped form, up to the closing quote.
pub proof fn lemma_string_body_round_trip(text: Seq<char>, rest: Seq<char>)
    ensures
        parse_string_body(escaped(text) + seq!['"'] + rest) == Some((text, rest)),
    decreases text.len(),
{
    let s = escaped(text) + seq!['"'] + rest;
    if text.len() == 0 {
        assert(s.skip(1) =~= rest);
    } else {
        let head = escaped_char(text[0]);
        let behind = escaped(text.drop_first()) + seq!['"'] + rest;
        assert(s =~= head + behind);
        lemma_unescape_inverts_escape(text[0], behind);
        assert(s.skip(head.len() as int) =~= behind);
        lemma_string_body_round_trip(text.drop_first(), rest);
        assert(seq![text[0]] + text.drop_first() =~= text);
    }
}

/// A text is read back from its JSON string.
pub proof fn lemma_quoted_round_trip(text: Seq<char>, rest: Seq<char>)
    ensures
        parse_quoted(json_quoted(text) + rest) == Some((text, rest)),
{
    let s = json_quoted(text) + rest;
    assert(s.skip(1) =~= escaped(text) + seq!['"'] + rest);
    lemma_string_body_round_trip(text, rest);
}

/// A value is read back from its text.
pub proof fn lemma_scalar_round_trip(value: ScalarView, rest: Seq<char>)
    ensures
        parse_scalar(scalar_text(value) + rest) == Some((value, rest)),
{
    let s = scalar_text(value) + rest;
    match value {
        ScalarView::Text(text) => {
            lemma_quoted_round_trip(text, rest);
        },
        ScalarView::Flag(flag) => {
            lemma_strip_prefix(bool_text(flag), rest);
            assert(s[0] == bool_text(flag)[0]);
            if !flag {
                assert(s.take(4)[0] == 'f');
            }
        },
        ScalarView::Null => {
            lemma_strip_prefix(null_text(), rest);
            assert(s[0] == 'n');
            assert(s.take(4)[0] == 'n');
            if s.len() >= 5 {
                assert(s.take(5)[0] == 'n');
            }
        },
    }
}

/// Labelled values are read back from their text.
pub proof fn lemma_fields_round_trip(
    labels: Seq<Seq<char>>,
    values: Seq<ScalarView>,
    rest: Seq<char>,
)
    requires
        labels.len() == values.len(),
    ensures
        parse_fields(fields_text(labels, values) + rest, labels) == Some((values, rest)),
    decreases labels.len(),
{
    let s = fields_text(labels, values) + rest;
    if labels.len() == 0 {
        assert(s =~= rest);
        assert(values =~= Seq::<ScalarView>::empty());
    } else {
        let behind_value = fields_text(labels.drop_first(), values.drop_first()) + rest;
        let behind_label = scalar_text(values[0]) + behind_value;
        assert(s =~= labels[0] + behind_label);
        lemma_strip_prefix(labels[0], behind_label);
        lemma_scalar_round_trip(values[0], behind_value);
        lemma_fields_round_trip(labels.drop_first(), values.drop_first(), rest);
        assert(seq![values[0]] + values.drop_first() =~= values);
    }
}

/// The characters of `text`, in order.
pub fn chars_of(text: &str) -> (chars: Vec<char>)
    ensures
        chars@ == text@,
{
    let mut chars: Vec<char> = Vec::new();
    for c in it: text.chars()
        invariant
            it.seq() == text@,
            chars@ == it.seq().take(it.index() as int),
    {
        chars.push(c);
        assert(chars@ =~= it.seq().take(it.index() + 1));
    }
    assert(chars@ =~= text@);
    chars
}

/// What is read from `input` at a position: the same as `found`, with
/// `head` put before the text that `found` holds.
pub open spec fn with_head(head: Seq<char>, found: Option<(Seq<char>, Seq<char>)>) -> Option<
    (Seq<char>, Seq<char>),
> {
    match found {
        Some((tail, rest)) => Some((head + tail, rest)),
        None => None,
    }
}

/// Looks for `literal` in `input` at `pos`; returns the position behind it
/// where it stands there.
pub fn match_literal(input: &Vec<char>, pos: usize, literal: &str) -> (next: Option<usize>)
    requires
        pos <= input.len(),
    ensures
        match next {
            Some(n) => {
                &&& pos <= n <= input.len()
                &&& n - pos == literal@.len()
                &&& strip_prefix(input@.skip(pos as int), literal@) == Some(input@.skip(n as int))
            },
            None => strip_prefix(input@.skip(pos as int), literal@) is None,
        },
{
    let wanted: Vec<char> = chars_of(literal);
    let count: usize = wanted.len();
    let ghost tail: Seq<char> = input@.skip(pos as int);
    if input.len() - pos < count {
        return None;
    }
    let mut j: usize = 0;
    while j < count
        invariant
            pos <= input.len(),
            count == wanted.len(),
            count <= input.len() - pos,
            j <= count,
            wanted@ == literal@,
            tail == input@.skip(pos as int),
            forall|k: int| 0 <= k < j ==> input@[pos + k] == wanted@[k],
        decreases count - j,
    {
        if input[pos + j] != wanted[j] {
            proof {
                assert(tail.take(count as int)[j as int] == input@[pos + j]);
            }
            return None;
        }
        j += 1;
    }
    proof {
        assert(tail.take(count as int) =~= literal@);
        assert(tail.skip(count as int) =~= input@.skip(pos + count));
    }
    Some(pos + count)
}

/// The value of a lower-case hexadecimal digit.
pub fn hex_digit_value(c: char) -> (value: Option<u8>)
    ensures
        match value {
            Some(v) => hex_value(c) == v && v < 16,
            None => hex_value(c) == -1,
        },
{
    if '0' <= c && c <= '9' {
        Some((c as u32 - '0' as u32) as u8)
    } else if 'a' <= c && c <= 'f' {
        Some((c as u32 - 'a' as u32 + 10) as u8)
    } else {
        None
    }
}

/// Reads the character that stands at `pos` inside a JSON string, and
/// returns it with the position behind what writes it.
pub fn read_escaped(input: &Vec<char>, pos: usize) -> (found: Option<(char, usize)>)
    requires
        pos <= input.len(),
    ensures
        match found {
            Some((c, n)) => {
                &&& pos < n <= input.len()
                &&& unescaped(input@.skip(pos as int)) == Some((c, n - pos))
            },
            None => unescaped(input@.skip(pos as int)) is None,
        },
{
    let len: usize = input.len();
    let ghost s: Seq<char> = input@.skip(pos as int);
    if pos >= len {
        return None;
    }
    let c: char = input[pos];
    assert(s.len() == len - pos);
    assert(s[0] == c);
    if c == '\\' {
        if len - pos < 2 {
            return None;
        }
        let e: char = input[pos + 1];
        assert(s[1] == e);
        if e == '"' {
            Some(('"', pos + 2))
        } else if e == '\\' {
            Some(('\\', pos + 2))
        } else if e == 'b' {
            Some(('\u{8}', pos + 2))
        } else if e == 'f' {
            Some(('\u{c}', pos + 2))
        } else if e == 'n' {
            Some(('\n', pos + 2))
        } else if e == 'r' {
            Some(('\r', pos + 2))
        } else if e == 't' {
            Some(('\t', pos + 2))
        } else if e == 'u' {
            if len - pos < 6 {
                return None;
            }
            assert(s[2] == input@[pos + 2] && s[3] == input@[pos + 3] && s[4] == input@[pos + 4]
                && s[5] == input@[pos + 5]);
            if input[pos + 2] != '0' || input[pos + 3] != '0' {
                return None;
            }
            match (hex_digit_value(input[pos + 4]), hex_digit_value(input[pos + 5])) {
                (Some(high), Some(low)) => {
                    let code: u8 = high * 16 + low;
                    if code < 0x20 && code != 8 && code != 9 && code != 10 && code != 12 && code
                        != 13 {
                        Some((code as char, pos + 6))
                    } else {
                        None
                    }
                },
                _ => None,
            }
        } else {
            None
        }
    } else if c == '"' || c <= '\u{1f}' {
        None
    } else {
        Some((c, pos + 1))
    }
}

/// Reads the JSON string that stands in `input` at `pos`; returns its text
/// and the position behind the closing quote.
pub fn read_quoted(input: &Vec<char>, pos: usize) -> (found: Option<(String, usize)>)
    requires
        pos <= input.len(),
    ensures
        match found {
            Some((text, n)) => {
                &&& pos < n <= input.len()
                &&& parse_quoted(input@.skip(pos as int)) == Some((text@, input@.skip(n as int)))
            },
            None => parse_quoted(input@.skip(pos as int)) is None,
        },
{
    let len: usize = input.len();
    if pos >= len || input[pos] != '"' {
        return None;
    }
    let ghost body: Seq<char> = input@.skip(pos as int).skip(1);
    let mut out: Vec<char> = Vec::new();
    let mut i: usize = pos + 1;
    proof {
        assert(body =~= input@.skip(i as int));
        assert(out@ + Seq::<char>::empty() =~= Seq::<char>::empty());
        assert(with_head(out@, parse_string_body(body)) == parse_string_body(body)) by {
            match parse_string_body(body) {
                Some((tail, rest)) => {
                    assert(out@ + tail =~= tail);
                },
                None => {},
            }
        }
    }
    loop
        invariant
            len == input.len(),
            pos < i <= len,
            parse_quoted(input@.skip(pos as int)) == parse_string_body(body),
            parse_string_body(body) == with_head(
                out@,
                parse_string_body(input@.skip(i as int)),
            ),
        decreases len - i,
    {
        let ghost here: Seq<char> = input@.skip(i as int);
        if i >= len {
            return None;
        }
        assert(here[0] == input@[i as int]);
        if input[i] == '"' {
            proof {
                assert(here.skip(1) =~= input@.skip(i + 1));
                assert(out@ + Seq::<char>::empty() =~= out@);
            }
            return Some((string_from_chars(&out), i + 1));
        }
        match read_escaped(input, i) {
            Some((c, next)) => {
                proof {
                    assert(here.skip(next - i) =~= input@.skip(next as int));
                    match parse_string_body(input@.skip(next as int)) {
                        Some((tail, rest)) => {
                            assert(out@.push(c) + tail =~= out@ + (seq![c] + tail));
                        },
                        None => {},
                    }
                }
                out.push(c);
                i = next;
            },
            None => {
                return None;
            },
        }
    }
}

/// Reads the value that stands in `input` at `pos`; returns it with the
/// position behind it.
pub fn read_scalar(input: &Vec<char>, pos: usize) -> (found: Option<(Scalar, usize)>)
    requires
        pos <= input.len(),
    ensures
        match found {
            Some((value, n)) => {
                &&& pos < n <= input.len()
                &&& parse_scalar(input@.skip(pos as int)) == Some(
                    (value@, input@.skip(n as int)),
                )
            },
            None => parse_scalar(input@.skip(pos as int)) is None,
        },
{
    proof {
        reveal_strlit("true");
        reveal_strlit("false");
        reveal_strlit("null");
        assert("true"@ =~= bool_text(true));
        assert("false"@ =~= bool_text(false));
        assert("null"@ =~= null_text());
    }
    if pos < input.len() && input[pos] == '"' {
        assert(input@.skip(pos as int)[0] == '"');
        return match read_quoted(input, pos) {
            Some((text, n)) => Some((Scalar::Text(text), n)),
            None => None,
        };
    }
    assert(input@.skip(pos as int).len() > 0 ==> input@.skip(pos as int)[0] == input@[pos as int]);
    match match_literal(input, pos, "true") {
        Some(n) => {
            return Some((Scalar::Flag(true), n));
        },
        None => {},
    }
    match match_literal(input, pos, "false") {
        Some(n) => {
            return Some((Scalar::Flag(false), n));
        },
        None => {},
    }
    match match_literal(input, pos, "null") {
        Some(n) => Some((Scalar::Null, n)),
        None => None,
    }
}

/// What is read behind some values already read: the same as `found`,
/// with `head` put before the values that `found` holds.
pub open spec fn with_values(
    head: Seq<ScalarView>,
    found: Option<(Seq<ScalarView>, Seq<char>)>,
) -> Option<(Seq<ScalarView>, Seq<char>)> {
    match found {
        Some((tail, rest)) => Some((head + tail, rest)),
        None => None,
    }
}

/// Reads the values that stand behind `labels` in `input` from `pos` on;
/// returns them with the position behind the last.
pub fn read_fields(input: &Vec<char>, pos: usize, labels: &Vec<&'static str>) -> (found: Option<
    (Vec<Scalar>, usize),
>)
    requires
        pos <= input.len(),
    ensures
        match found {
            Some((values, n)) => {
                &&& pos <= n <= input.len()
                &&& parse_fields(input@.skip(pos as int), label_texts(labels@)) == Some(
                    (scalar_views(values@), input@.skip(n as int)),
                )
            },
            None => parse_fields(input@.skip(pos as int), label_texts(labels@)) is None,
        },
{
    let ghost all: Seq<Seq<char>> = label_texts(labels@);
    let ghost whole = parse_fields(input@.skip(pos as int), all);
    let count: usize = labels.len();
    let mut values: Vec<Scalar> = Vec::new();
    let mut i: usize = pos;
    let mut k: usize = 0;
    proof {
        assert(all.skip(0) =~= all);
        match whole {
            Some((tail, rest)) => {
                assert(scalar_views(values@) + tail =~= tail);
            },
            None => {},
        }
    }
    while k < count
        invariant
            count == labels.len(),
            all == label_texts(labels@),
            whole == parse_fields(input@.skip(pos as int), all),
            k <= count,
            pos <= i <= input.len(),
            whole == with_values(
                scalar_views(values@),
                parse_fields(input@.skip(i as int), all.skip(k as int)),
            ),
        decreases count - k,
    {
        let ghost here: Seq<char> = input@.skip(i as int);
        let ghost left: Seq<Seq<char>> = all.skip(k as int);
        proof {
            assert(left[0] == labels@[k as int]@);
            assert(left.drop_first() =~= all.skip(k + 1));
        }
        let behind_label: usize = match match_literal(input, i, labels[k]) {
            Some(n) => n,
            None => {
                return None;
            },
        };
        match read_scalar(input, behind_label) {
            Some((value, n)) => {
                proof {
                    let before = scalar_views(values@);
                    let after = scalar_views(values@.push(value));
                    assert(after =~= before.push(value@));
                    match parse_fields(input@.skip(n as int), all.skip(k + 1)) {
                        Some((tail, rest)) => {
                            assert(after + tail =~= before + (seq![value@] + tail));
                        },
                        None => {},
                    }
                }
                values.push(value);
                i = n;
            },
            None => {
                return None;
            },
        }
        k += 1;
    }
    proof {
        assert(all.skip(count as int) =~= Seq::<Seq<char>>::empty());
        assert(scalar_views(values@) + Seq::<ScalarView>::empty() =~= scalar_views(values@));
    }
    Some((values, i))
}

} // verus!
