//! The readers accept nothing but what the writers write: whatever is read
//! from a text, writing it gives that text again.

use vstd::prelude::*;
use crate::account::AccountRecordView;
use crate::json::{
    bool_text, escaped, escaped_char, fields_text, json_quoted, null_text, scalar_text, ScalarView,
};
use crate::numbers::{
    all_hex_digits, digits_value, is_decimal_digit, kind_of, kinds_of, leading_digits,
    number_text, numbers_text, parse_number, parse_numbers, pow16, Number, NumberKind,
};
use crate::payload::{
    claims_from_numbers, lemma_payload_round_trip, lemma_pow16_values, parse_payload,
    payload_kinds, payload_labels, payload_numbers, payload_text, TokenClaims, MAX_48_BITS,
    PAYLOAD_CLOSE,
};
use crate::reader::{
    has_long_escape, hex_value, parse_fields, parse_quoted, parse_scalar, parse_string_body,
    strip_prefix, unescaped,
};
use crate::store::{
    closing_text, entries_text, entry_text, record_labels, record_text, record_values, separator,
    store_text, CredentialStoreView, ENTRY_COLON, RECORD_CLOSE, STORE_ACCOUNTS, STORE_OPEN,
};
use crate::store_reader::{
    lemma_store_round_trip, parse_entries, parse_entry, parse_record, parse_store,
    record_from_values,
};
use crate::text::{decimal_text, digit_char, hex_text};

verus! {

/// What a prefix was stripped from is the prefix and what is left.
pub proof fn lemma_stripped_text(s: Seq<char>, prefix: Seq<char>)
    requires
        strip_prefix(s, prefix) is Some,
    ensures
        s == prefix + strip_prefix(s, prefix)->0,
{
    assert(s =~= s.take(prefix.len() as int) + s.skip(prefix.len() as int));
}

/// A lower-case hexadecimal digit is the character of its value.
pub proof fn lemma_digit_of_hex_value(c: char)
    requires
        hex_value(c) >= 0,
    ensures
        digit_char(hex_value(c)) == c,
        0 <= hex_value(c) < 16,
{
}

/// What a character was read from is the escaped form of that character.
pub proof fn lemma_unescaped_text(s: Seq<char>)
    requires
        unescaped(s) is Some,
    ensures
        0 < (unescaped(s)->0).1 <= s.len(),
        s.take((unescaped(s)->0).1) == escaped_char((unescaped(s)->0).0),
        s[0] != '"',
{
    let (c, used) = unescaped(s)->0;
    if s[0] == '\\' && s[1] == 'u' {
        let high = hex_value(s[4]);
        let low = hex_value(s[5]);
        lemma_digit_of_hex_value(s[4]);
        lemma_digit_of_hex_value(s[5]);
        assert(has_long_escape(high * 16 + low));
        assert(c as int == high * 16 + low);
        assert(c as int / 16 == high);
        assert(c as int % 16 == low);
    }
    assert(s.take(used) =~= escaped_char(c));
}

/// What a text was read from, up to the closing quote, is the escaped form
/// of that text, the quote, and what is left.
pub proof fn lemma_string_body_text(s: Seq<char>)
    requires
        parse_string_body(s) is Some,
    ensures
        s == escaped((parse_string_body(s)->0).0) + seq!['"'] + (parse_string_body(s)->0).1,
    decreases s.len(),
{
    let (text, rest) = parse_string_body(s)->0;
    if s[0] == '"' {
        assert(s =~= escaped(text) + seq!['"'] + rest);
    } else {
        let (c, used) = unescaped(s)->0;
        lemma_unescaped_text(s);
        let behind = s.skip(used);
        lemma_string_body_text(behind);
        let (tail, end) = parse_string_body(behind)->0;
        assert(text == seq![c] + tail);
        assert(text[0] == c);
        assert(text.drop_first() =~= tail);
        assert(s =~= s.take(used) + behind);
        assert(escaped(text) == escaped_char(c) + escaped(tail));
        assert(s =~= escaped(text) + seq!['"'] + rest);
    }
}

/// What a JSON string was read from is that string and what is left.
pub proof fn lemma_quoted_text(s: Seq<char>)
    requires
        parse_quoted(s) is Some,
    ensures
        s == json_quoted((parse_quoted(s)->0).0) + (parse_quoted(s)->0).1,
{
    lemma_string_body_text(s.skip(1));
    assert(s =~= seq![s[0]] + s.skip(1));
    let (text, rest) = parse_quoted(s)->0;
    assert(s =~= json_quoted(text) + rest);
}

/// What a value was read from is the text of that value and what is left.
pub proof fn lemma_scalar_text(s: Seq<char>)
    requires
        parse_scalar(s) is Some,
    ensures
        s == scalar_text((parse_scalar(s)->0).0) + (parse_scalar(s)->0).1,
{
    if s.len() > 0 && s[0] == '"' {
        lemma_quoted_text(s);
    } else if strip_prefix(s, bool_text(true)) is Some {
        lemma_stripped_text(s, bool_text(true));
    } else if strip_prefix(s, bool_text(false)) is Some {
        lemma_stripped_text(s, bool_text(false));
    } else {
        lemma_stripped_text(s, null_text());
    }
}

/// What labelled values were read from is their text and what is left,
/// and there is a value for every label.
pub proof fn lemma_fields_text(s: Seq<char>, labels: Seq<Seq<char>>)
    requires
        parse_fields(s, labels) is Some,
    ensures
        (parse_fields(s, labels)->0).0.len() == labels.len(),
        s == fields_text(labels, (parse_fields(s, labels)->0).0) + (parse_fields(s, labels)->0).1,
    decreases labels.len(),
{
    let (values, rest) = parse_fields(s, labels)->0;
    if labels.len() == 0 {
        assert(s =~= fields_text(labels, values) + rest);
    } else {
        let behind_label = strip_prefix(s, labels[0])->0;
        lemma_stripped_text(s, labels[0]);
        let (value, behind_value) = parse_scalar(behind_label)->0;
        lemma_scalar_text(behind_label);
        lemma_fields_text(behind_value, labels.drop_first());
        let (later, end) = parse_fields(behind_value, labels.drop_first())->0;
        assert(values == seq![value] + later);
        assert(values[0] == value);
        assert(values.drop_first() =~= later);
        assert(s =~= labels[0] + scalar_text(value) + (fields_text(labels.drop_first(), later)
            + rest));
        assert(s =~= fields_text(labels, values) + rest);
    }
}

/// The values a record was rebuilt from are the values of that record.
pub proof fn lemma_values_of_record(values: Seq<ScalarView>)
    requires
        record_from_values(values) is Some,
    ensures
        values == record_values(record_from_values(values)->0),
{
    assert(values =~= record_values(record_from_values(values)->0));
}

/// What a record was read from is the text of that record and what is
/// left.
pub proof fn lemma_record_text(s: Seq<char>)
    requires
        parse_record(s) is Some,
    ensures
        s == record_text((parse_record(s)->0).0) + (parse_record(s)->0).1,
{
    reveal(parse_record);
    let (values, behind) = parse_fields(s, record_labels())->0;
    lemma_fields_text(s, record_labels());
    lemma_values_of_record(values);
    lemma_stripped_text(behind, RECORD_CLOSE@);
    let (record, rest) = parse_record(s)->0;
    assert(s =~= record_text(record) + rest);
}

/// What an account was read from is the text of that account and what is
/// left.
pub proof fn lemma_entry_text(s: Seq<char>)
    requires
        parse_entry(s) is Some,
    ensures
        s == entry_text((parse_entry(s)->0).0) + (parse_entry(s)->0).1,
{
    let (key, behind_key) = parse_quoted(s)->0;
    lemma_quoted_text(s);
    let behind_colon = strip_prefix(behind_key, ENTRY_COLON@)->0;
    lemma_stripped_text(behind_key, ENTRY_COLON@);
    lemma_record_text(behind_colon);
    let (entry, rest) = parse_entry(s)->0;
    assert(s =~= entry_text(entry) + rest);
}

/// What accounts were read from is the text of those accounts and what is
/// left.
pub proof fn lemma_entries_text(s: Seq<char>, first: bool)
    requires
        parse_entries(s, first) is Some,
    ensures
        s == entries_text((parse_entries(s, first)->0).0, first) + (parse_entries(s, first)->0).1,
    decreases s.len(),
{
    let (entries, end) = parse_entries(s, first)->0;
    match strip_prefix(s, separator(first)) {
        None => {
            assert(s =~= entries_text(entries, first) + end);
        },
        Some(behind) => {
            lemma_stripped_text(s, separator(first));
            let (entry, rest) = parse_entry(behind)->0;
            lemma_entry_text(behind);
            lemma_entries_text(rest, false);
            let (later, last) = parse_entries(rest, false)->0;
            assert(entries == seq![entry] + later);
            assert(entries[0] == entry);
            assert(entries.drop_first() =~= later);
            assert(s =~= separator(first) + entry_text(entry) + (entries_text(later, false)
                + end));
            assert(s =~= entries_text(entries, first) + end);
        },
    }
}

/// A text is read as a store exactly when it is the text of that store:
/// the text of a store is the only text that reads as it.
pub proof fn lemma_store_text_is_canonical(s: Seq<char>, store: CredentialStoreView)
    ensures
        parse_store(s) == Some(store) <==> s == store_text(store),
{
    if s == store_text(store) {
        lemma_store_round_trip(store);
    }
    if parse_store(s) == Some(store) {
        let behind_open = strip_prefix(s, STORE_OPEN@)->0;
        lemma_stripped_text(s, STORE_OPEN@);
        let (active, behind_active) = parse_quoted(behind_open)->0;
        lemma_quoted_text(behind_open);
        let behind_accounts = strip_prefix(behind_active, STORE_ACCOUNTS@)->0;
        lemma_stripped_text(behind_active, STORE_ACCOUNTS@);
        lemma_entries_text(behind_accounts, true);
        let (entries, end) = parse_entries(behind_accounts, true)->0;
        assert(s =~= store_text(store));
    }
}

/// The digits at the head of a text are digits, and there are no more of
/// them than the text is long.
pub proof fn lemma_leading_digits_are_digits(s: Seq<char>)
    ensures
        leading_digits(s) <= s.len(),
        forall|i: int| 0 <= i < leading_digits(s) ==> is_decimal_digit(#[trigger] s[i]),
    decreases s.len(),
{
    if s.len() > 0 && is_decimal_digit(s[0]) {
        lemma_leading_digits_are_digits(s.drop_first());
        assert forall|i: int| 0 <= i < leading_digits(s) implies is_decimal_digit(
            #[trigger] s[i],
        ) by {
            if i > 0 {
                assert(s[i] == s.drop_first()[i - 1]);
            }
        }
    }
}

/// Decimal digits that do not begin with a zero write a number that is
/// not zero.
pub proof fn lemma_digits_value_positive(digits: Seq<char>)
    requires
        digits.len() >= 1,
        forall|i: int| 0 <= i < digits.len() ==> is_decimal_digit(#[trigger] digits[i]),
        digits[0] != '0',
    ensures
        digits_value(digits, 10) >= 1,
    decreases digits.len(),
{
    let front = digits.drop_last();
    if digits.len() == 1 {
        assert(digits.last() == digits[0]);
        assert(digits_value(front, 10) == 0);
    } else {
        assert(front[0] == digits[0]);
        assert forall|i: int| 0 <= i < front.len() implies is_decimal_digit(#[trigger] front[i]) by {
            assert(front[i] == digits[i]);
        }
        lemma_digits_value_positive(front);
    }
}

/// Decimal digits without a leading zero are the text of the number they
/// write.
pub proof fn lemma_decimal_digits_text(digits: Seq<char>)
    requires
        digits.len() >= 1,
        forall|i: int| 0 <= i < digits.len() ==> is_decimal_digit(#[trigger] digits[i]),
        digits.len() == 1 || digits[0] != '0',
    ensures
        decimal_text(digits_value(digits, 10)) == digits,
    decreases digits.len(),
{
    let front = digits.drop_last();
    let last = hex_value(digits.last());
    lemma_digit_of_hex_value(digits.last());
    if digits.len() == 1 {
        assert(digits_value(front, 10) == 0);
        assert(decimal_text(digits_value(digits, 10)) =~= digits);
    } else {
        assert(front[0] == digits[0]);
        assert forall|i: int| 0 <= i < front.len() implies is_decimal_digit(#[trigger] front[i]) by {
            assert(front[i] == digits[i]);
        }
        lemma_digits_value_positive(front);
        lemma_decimal_digits_text(front);
        let value = digits_value(digits, 10);
        assert(value == digits_value(front, 10) * 10 + last);
        assert(value / 10 == digits_value(front, 10));
        assert(value % 10 == last);
        assert(decimal_text(value) =~= front.push(digits.last()));
        assert(front.push(digits.last()) =~= digits);
    }
}

/// Hexadecimal digits are the text of the number they write, in as many
/// digits as there are; and that number has no more digits than that.
pub proof fn lemma_hex_digits_text(digits: Seq<char>)
    requires
        all_hex_digits(digits),
    ensures
        hex_text(digits_value(digits, 16), digits.len()) == digits,
        digits_value(digits, 16) < pow16(digits.len()),
    decreases digits.len(),
{
    if digits.len() > 0 {
        let front = digits.drop_last();
        let last = hex_value(digits.last());
        lemma_digit_of_hex_value(digits.last());
        assert forall|i: int| 0 <= i < front.len() implies hex_value(#[trigger] front[i]) >= 0 by {
            assert(front[i] == digits[i]);
        }
        lemma_hex_digits_text(front);
        let value = digits_value(digits, 16);
        assert(value == digits_value(front, 16) * 16 + last);
        assert(value / 16 == digits_value(front, 16));
        assert(value % 16 == last);
        assert(hex_text(value, digits.len()) =~= front.push(digits.last()));
        assert(front.push(digits.last()) =~= digits);
    } else {
        assert(hex_text(digits_value(digits, 16), digits.len()) =~= digits);
    }
}

/// What a number was read from is the text of that number and what is
/// left; the number is of the form asked for, and a hexadecimal number
/// has no more digits than its form says.
pub proof fn lemma_number_text(s: Seq<char>, kind: NumberKind)
    requires
        parse_number(s, kind) is Some,
    ensures
        s == number_text((parse_number(s, kind)->0).0) + (parse_number(s, kind)->0).1,
        kind_of((parse_number(s, kind)->0).0) == kind,
        (parse_number(s, kind)->0).0 matches Number::Hex(value, width) ==> value < pow16(
            width as nat,
        ),
{
    let (number, rest) = parse_number(s, kind)->0;
    match kind {
        NumberKind::Decimal => {
            let count = leading_digits(s) as int;
            lemma_leading_digits_are_digits(s);
            let digits = s.take(count);
            assert(digits[0] == s[0]);
            lemma_decimal_digits_text(digits);
            assert(s =~= digits + s.skip(count));
        },
        NumberKind::Hex(width) => {
            let digits = s.take(width as int);
            lemma_hex_digits_text(digits);
            assert(s =~= digits + s.skip(width as int));
        },
    }
}

/// What labelled numbers were read from is their text and what is left;
/// there is a number for every label, each of the form asked for, and no
/// hexadecimal number has more digits than its form says.
pub proof fn lemma_numbers_text(s: Seq<char>, labels: Seq<Seq<char>>, kinds: Seq<NumberKind>)
    requires
        labels.len() == kinds.len(),
        parse_numbers(s, labels, kinds) is Some,
    ensures
        kinds_of((parse_numbers(s, labels, kinds)->0).0) == kinds,
        s == numbers_text(labels, (parse_numbers(s, labels, kinds)->0).0) + (parse_numbers(
            s,
            labels,
            kinds,
        )->0).1,
        forall|i: int|
            0 <= i < kinds.len() ==> (#[trigger] (parse_numbers(s, labels, kinds)->0).0[i]
                matches Number::Hex(value, width) ==> value < pow16(width as nat)),
    decreases labels.len(),
{
    let (numbers, rest) = parse_numbers(s, labels, kinds)->0;
    if labels.len() == 0 {
        assert(kinds_of(numbers) =~= kinds);
        assert(s =~= numbers_text(labels, numbers) + rest);
    } else {
        let behind_label = strip_prefix(s, labels[0])->0;
        lemma_stripped_text(s, labels[0]);
        let (number, behind_number) = parse_number(behind_label, kinds[0])->0;
        lemma_number_text(behind_label, kinds[0]);
        lemma_numbers_text(behind_number, labels.drop_first(), kinds.drop_first());
        let (later, end) = parse_numbers(behind_number, labels.drop_first(), kinds.drop_first())->0;
        assert(numbers == seq![number] + later);
        assert(numbers[0] == number);
        assert(numbers.drop_first() =~= later);
        assert(kinds_of(later) == kinds.drop_first());
        assert(kinds_of(numbers) =~= kinds) by {
            assert forall|i: int| 0 <= i < kinds.len() implies kinds_of(numbers)[i] == kinds[i] by {
                if i > 0 {
                    assert(numbers[i] == later[i - 1]);
                    assert(kinds_of(later)[i - 1] == kinds.drop_first()[i - 1]);
                }
            }
        }
        assert forall|i: int| 0 <= i < kinds.len() implies (#[trigger] numbers[i] matches Number::Hex(
            value,
            width,
        ) ==> value < pow16(width as nat)) by {
            if i > 0 {
                assert(numbers[i] == later[i - 1]);
            }
        }
        assert(s =~= labels[0] + number_text(number) + (numbers_text(labels.drop_first(), later)
            + rest));
        assert(s =~= numbers_text(labels, numbers) + rest);
    }
}

/// The numbers that claims were made of are the numbers of those claims.
pub proof fn lemma_numbers_of_claims(numbers: Seq<Number>)
    requires
        claims_from_numbers(numbers) is Some,
    ensures
        numbers == payload_numbers(claims_from_numbers(numbers)->0),
        0 <= claims_from_numbers(numbers)->0.not_before,
        0 <= claims_from_numbers(numbers)->0.expires,
        0 <= claims_from_numbers(numbers)->0.issued_at,
{
    let claims = claims_from_numbers(numbers)->0;
    let again = payload_numbers(claims);
    assert(kinds_of(numbers).len() == 12);
    assert forall|i: int| 0 <= i < 12 implies kind_of(#[trigger] numbers[i]) == payload_kinds()[i] by {
        assert(kinds_of(numbers)[i] == kind_of(numbers[i]));
    }
    assert(numbers[0] == again[0]);
    assert(numbers[1] == again[1]);
    assert(numbers[2] == again[2]);
    assert(numbers[3] == again[3]);
    assert(numbers[4] == again[4]);
    assert(numbers[5] == again[5]);
    assert(numbers[6] == again[6]);
    assert(numbers[7] == again[7]);
    assert(numbers[8] == again[8]);
    assert(numbers[9] == again[9]);
    assert(numbers[10] == again[10]);
    assert(numbers[11] == again[11]);
    assert(numbers =~= again);
}

/// A text is read as claims exactly when it is the payload text of those
/// claims, their times are not negative, and the subject's last group and
/// the session have no more than 48 bits.
pub proof fn lemma_payload_text_is_canonical(s: Seq<char>, claims: TokenClaims)
    ensures
        parse_payload(s) == Some(claims) <==> {
            &&& s == payload_text(claims)
            &&& 0 <= claims.not_before
            &&& 0 <= claims.expires
            &&& 0 <= claims.issued_at
            &&& claims.subject.node <= MAX_48_BITS
            &&& claims.session <= MAX_48_BITS
        },
{
    if s == payload_text(claims) && 0 <= claims.not_before && 0 <= claims.expires && 0
        <= claims.issued_at && claims.subject.node <= MAX_48_BITS && claims.session
        <= MAX_48_BITS {
        lemma_payload_round_trip(claims);
    }
    if parse_payload(s) == Some(claims) {
        let (numbers, behind) = parse_numbers(s, payload_labels(), payload_kinds())->0;
        lemma_numbers_text(s, payload_labels(), payload_kinds());
        lemma_numbers_of_claims(numbers);
        lemma_pow16_values();
        assert(numbers[5] == Number::Hex(claims.subject.node as u128, 12));
        assert(numbers[11] == Number::Hex(claims.session as u128, 12));
        assert(s =~= payload_text(claims));
    }
}

} // verus!
