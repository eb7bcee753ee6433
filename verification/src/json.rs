//! The JSON values the store is made of: strings, truth values and `null`,
//! and how they are written behind their labels.

use vstd::prelude::*;
use vstd::string::StringExecFns;
use crate::error::PatchError;
use crate::text::digit_char;

verus! {

/// The error type of `serde_json`.
#[verifier::external_type_specification]
#[verifier::external_body]
pub struct ExJsonError(serde_json::Error);

/// How one character stands inside a JSON string: the quote, the backslash
/// and the control characters are escaped, all others stand for themselves.
pub open spec fn escaped_char(c: char) -> Seq<char> {
    if c == '"' {
        seq!['\\', '"']
    } else if c == '\\' {
        seq!['\\', '\\']
    } else if c == '\u{8}' {
        seq!['\\', 'b']
    } else if c == '\u{c}' {
        seq!['\\', 'f']
    } else if c == '\n' {
        seq!['\\', 'n']
    } else if c == '\r' {
        seq!['\\', 'r']
    } else if c == '\t' {
        seq!['\\', 't']
    } else if (c as int) < 0x20 {
        seq!['\\', 'u', '0', '0', digit_char(c as int / 16), digit_char(c as int % 16)]
    } else {
        seq![c]
    }
}

/// The characters of `s`, each as it stands inside a JSON string.
pub open spec fn escaped(s: Seq<char>) -> Seq<char>
    decreases s.len(),
{
    if s.len() == 0 {
        Seq::empty()
    } else {
        escaped_char(s[0]) + escaped(s.drop_first())
    }
}

/// The JSON string that holds `s`: its escaped characters between quotes.
pub open spec fn json_quoted(s: Seq<char>) -> Seq<char> {
    seq!['"'] + escaped(s) + seq!['"']
}

/// The JSON string that holds `s`.
///
/// Trusted: `serde_json::to_string` of a string slice succeeds and writes
/// the slice between double quotes, with `"` and `\` behind a backslash,
/// the control characters below U+0020 as `\b`, `\f`, `\n`, `\r`, `\t` or
/// `\u00` and two lower-case hexadecimal digits, and every other character
/// as it is. It succeeds because a string slice serializes by
/// `serialize_str` alone, whose every step that can fail is a write into
/// a byte vector, and such a write does not fail.
#[verifier::external_body]
pub(crate) fn json_string_of(s: &str) -> (quoted: Result<String, serde_json::Error>)
    ensures
        quoted is Ok,
        quoted->Ok_0@ == json_quoted(s@),
{
    serde_json::to_string(s)
}

/// What is handed on for a quoting that succeeded or failed: the text, or
/// the serialization error.
pub fn quoting_outcome(quoted: Result<String, serde_json::Error>) -> (outcome: Result<
    String,
    PatchError,
>)
    ensures
        quoted is Ok ==> outcome == Ok::<String, PatchError>(quoted->Ok_0),
        quoted is Err ==> outcome == Err::<String, PatchError>(PatchError::Serialization),
{
    match quoted {
        Ok(text) => Ok(text),
        Err(_) => Err(PatchError::Serialization),
    }
}

/// The JSON string that holds `s`. Quoting a text always succeeds.
pub fn quote(s: &str) -> (outcome: Result<String, PatchError>)
    ensures
        outcome is Ok,
        outcome->Ok_0@ == json_quoted(s@),
{
    quoting_outcome(json_string_of(s))
}

/// A value that stands behind a label in the store: a text, a truth
/// value, or nothing.
#[derive(Debug, PartialEq, Eq)]
pub enum Scalar {
    /// A text, written as a JSON string.
    Text(String),
    /// A truth value, written as `true` or `false`.
    Flag(bool),
    /// No value, written as `null`.
    Null,
}

/// The mathematical content of a [`Scalar`].
pub enum ScalarView {
    Text(Seq<char>),
    Flag(bool),
    Null,
}

impl View for Scalar {
    type V = ScalarView;

    open spec fn view(&self) -> ScalarView {
        match self {
            Scalar::Text(text) => ScalarView::Text(text@),
            Scalar::Flag(flag) => ScalarView::Flag(*flag),
            Scalar::Null => ScalarView::Null,
        }
    }
}

/// The JSON text of a truth value.
pub open spec fn bool_text(value: bool) -> Seq<char> {
    if value {
        seq!['t', 'r', 'u', 'e']
    } else {
        seq!['f', 'a', 'l', 's', 'e']
    }
}

/// The JSON text of nothing.
pub open spec fn null_text() -> Seq<char> {
    seq!['n', 'u', 'l', 'l']
}

/// The JSON text of a value.
pub open spec fn scalar_text(value: ScalarView) -> Seq<char> {
    match value {
        ScalarView::Text(text) => json_quoted(text),
        ScalarView::Flag(flag) => bool_text(flag),
        ScalarView::Null => null_text(),
    }
}

/// Labels and values in turn: each label followed by the text of its
/// value. Labels without a value, and values without a label, are left
/// out.
pub open spec fn fields_text(labels: Seq<Seq<char>>, values: Seq<ScalarView>) -> Seq<char>
    decreases labels.len(),
{
    if labels.len() == 0 || values.len() == 0 {
        Seq::empty()
    } else {
        labels[0] + scalar_text(values[0]) + fields_text(labels.drop_first(), values.drop_first())
    }
}

/// The views of a list of labels.
pub open spec fn label_texts(labels: Seq<&'static str>) -> Seq<Seq<char>> {
    Seq::new(labels.len(), |i: int| labels[i]@)
}

/// The views of a list of values.
pub open spec fn scalar_views(values: Seq<Scalar>) -> Seq<ScalarView> {
    Seq::new(values.len(), |i: int| values[i]@)
}

/// One more label and value at the end add their text at the end.
pub proof fn lemma_fields_text_push(
    labels: Seq<Seq<char>>,
    values: Seq<ScalarView>,
    label: Seq<char>,
    value: ScalarView,
)
    requires
        labels.len() == values.len(),
    ensures
        fields_text(labels.push(label), values.push(value)) == fields_text(labels, values) + label
            + scalar_text(value),
    decreases labels.len(),
{
    let more_labels = labels.push(label);
    let more_values = values.push(value);
    if labels.len() == 0 {
        assert(labels =~= Seq::<Seq<char>>::empty());
        assert(values =~= Seq::<ScalarView>::empty());
        assert(more_labels.drop_first() =~= Seq::<Seq<char>>::empty());
        assert(more_labels[0] == label && more_values[0] == value);
        assert(fields_text(more_labels.drop_first(), more_values.drop_first()) =~= Seq::<
            char,
        >::empty());
        assert(fields_text(more_labels, more_values) =~= label + scalar_text(value));
        assert(fields_text(labels, values) + label + scalar_text(value) =~= label + scalar_text(
            value,
        ));
    } else {
        lemma_fields_text_push(labels.drop_first(), values.drop_first(), label, value);
        assert(more_labels.drop_first() =~= labels.drop_first().push(label));
        assert(more_values.drop_first() =~= values.drop_first().push(value));
        assert(fields_text(more_labels, more_values) =~= labels[0] + scalar_text(values[0]) + (
        fields_text(labels.drop_first(), values.drop_first()) + label + scalar_text(value)));
        assert(fields_text(more_labels, more_values) =~= fields_text(labels, values) + label
            + scalar_text(value));
    }
}

/// Appends the JSON text of `value` to `out`, and returns whether that
/// succeeded: it always does.
pub fn append_scalar(out: &mut String, value: &Scalar) -> (done: bool)
    ensures
        done,
        final(out)@ == old(out)@ + scalar_text(value@),
{
    match value {
        Scalar::Text(text) => match quote(text.as_str()) {
            Ok(quoted) => {
                out.append(quoted.as_str());
                true
            },
            Err(_) => false,
        },
        Scalar::Flag(flag) => {
            proof {
                reveal_strlit("true");
                reveal_strlit("false");
                assert("true"@ =~= bool_text(true));
                assert("false"@ =~= bool_text(false));
            }
            if *flag {
                out.append("true");
            } else {
                out.append("false");
            }
            true
        },
        Scalar::Null => {
            proof {
                reveal_strlit("null");
                assert("null"@ =~= null_text());
            }
            out.append("null");
            true
        },
    }
}

/// Appends labels and values in turn to `out`. This always succeeds.
pub fn append_fields(out: &mut String, labels: &Vec<&'static str>, values: &Vec<Scalar>) -> (outcome:
    Result<(), PatchError>)
    requires
        labels.len() == values.len(),
    ensures
        outcome is Ok,
        final(out)@ == old(out)@ + fields_text(label_texts(labels@), scalar_views(values@)),
{
    let count: usize = labels.len();
    let mut i: usize = 0;
    while i < count
        invariant
            count == labels.len(),
            count == values.len(),
            i <= count,
            out@ == old(out)@ + fields_text(
                label_texts(labels@).take(i as int),
                scalar_views(values@).take(i as int),
            ),
        decreases count - i,
    {
        out.append(labels[i]);
        if !append_scalar(out, &values[i]) {
            return Err(PatchError::Serialization);
        }
        proof {
            let all_labels = label_texts(labels@);
            let all_values = scalar_views(values@);
            lemma_fields_text_push(
                all_labels.take(i as int),
                all_values.take(i as int),
                all_labels[i as int],
                all_values[i as int],
            );
            assert(all_labels.take(i as int + 1) =~= all_labels.take(i as int).push(
                all_labels[i as int],
            ));
            assert(all_values.take(i as int + 1) =~= all_values.take(i as int).push(
                all_values[i as int],
            ));
        }
        i += 1;
    }
    proof {
        assert(label_texts(labels@).take(count as int) =~= label_texts(labels@));
        assert(scalar_views(values@).take(count as int) =~= scalar_views(values@));
    }
    Ok(())
}

} // verus!
