//! Numbers behind labels: how the token's payload writes its numbers, and
//! how they are read back.

use vstd::prelude::*;
use vstd::string::StringExecFns;
use crate::reader::{hex_digit_value, hex_value, lemma_strip_prefix, match_literal, strip_prefix};
use crate::json::label_texts;
use crate::text::{decimal_string, decimal_text, digit_char, hex_string, hex_text};

verus! {

/// A number and the form it is written in.
#[derive(Clone, Copy, Debug, PartialEq, Eq, Structural)]
pub enum Number {
    /// Written in base 10, without leading zeros.
    Decimal(u64),
    /// Written in base 16 with exactly as many digits as the second field
    /// says.
    Hex(u128, usize),
}

/// The form a number is written in.
#[derive(Clone, Copy, Debug, PartialEq, Eq, Structural)]
pub enum NumberKind {
    /// Base 10, without leading zeros.
    Decimal,
    /// Base 16 with exactly this many digits.
    Hex(usize),
}

/// The form of `number`.
pub open spec fn kind_of(number: Number) -> NumberKind {
    match number {
        Number::Decimal(_) => NumberKind::Decimal,
        Number::Hex(_, width) => NumberKind::Hex(width),
    }
}

/// The forms of `numbers`, in order.
pub open spec fn kinds_of(numbers: Seq<Number>) -> Seq<NumberKind> {
    Seq::new(numbers.len(), |i: int| kind_of(numbers[i]))
}

/// The text of a number.
pub open spec fn number_text(number: Number) -> Seq<char> {
    match number {
        Number::Decimal(value) => decimal_text(value as nat),
        Number::Hex(value, width) => hex_text(value as nat, width as nat),
    }
}

/// Labels and numbers in turn: each label followed by the text of its
/// number. Labels without a number, and numbers without a label, are left
/// out.
pub open spec fn numbers_text(labels: Seq<Seq<char>>, numbers: Seq<Number>) -> Seq<char>
    decreases labels.len(),
{
    if labels.len() == 0 || numbers.len() == 0 {
        Seq::empty()
    } else {
        labels[0] + number_text(numbers[0]) + numbers_text(
            labels.drop_first(),
            numbers.drop_first(),
        )
    }
}

/// 16 to the power of `width`.
pub open spec fn pow16(width: nat) -> nat
    decreases width,
{
    if width == 0 {
        1
    } else {
        16 * pow16((width - 1) as nat)
    }
}

/// Whether `c` is a decimal digit.
pub open spec fn is_decimal_digit(c: char) -> bool {
    '0' <= c <= '9'
}

/// How many decimal digits stand at the head of `s`.
pub open spec fn leading_digits(s: Seq<char>) -> nat
    decreases s.len(),
{
    if s.len() == 0 || !is_decimal_digit(s[0]) {
        0
    } else {
        1 + leading_digits(s.drop_first())
    }
}

/// The number that the digits `digits` write in base `base`, most
/// significant first.
pub open spec fn digits_value(digits: Seq<char>, base: nat) -> nat
    decreases digits.len(),
{
    if digits.len() == 0 {
        0
    } else {
        digits_value(digits.drop_last(), base) * base + hex_value(digits.last()) as nat
    }
}

/// Whether every character of `s` is a lower-case hexadecimal digit.
pub open spec fn all_hex_digits(s: Seq<char>) -> bool {
    forall|i: int| 0 <= i < s.len() ==> hex_value(#[trigger] s[i]) >= 0
}

/// The number of the form `kind` at the head of `s`, and what follows it.
///
/// A decimal number is all the digits that stand there: at least one,
/// without a leading zero before others, and no more than 64 bits hold. A
/// hexadecimal number is the next digits in the number its form says, and
/// no more than 128 bits hold.
pub open spec fn parse_number(s: Seq<char>, kind: NumberKind) -> Option<(Number, Seq<char>)> {
    match kind {
        NumberKind::Decimal => {
            let count = leading_digits(s) as int;
            let value = digits_value(s.take(count), 10);
            if count >= 1 && (count == 1 || s[0] != '0') && value <= u64::MAX {
                Some((Number::Decimal(value as u64), s.skip(count)))
            } else {
                None
            }
        },
        NumberKind::Hex(width) => {
            let value = digits_value(s.take(width as int), 16);
            if width <= s.len() && all_hex_digits(s.take(width as int)) && value <= u128::MAX {
                Some((Number::Hex(value as u128, width), s.skip(width as int)))
            } else {
                None
            }
        },
    }
}

/// The numbers of the forms `kinds` that stand behind `labels` at the head
/// of `s`, in turn, and what follows the last of them.
pub open spec fn parse_numbers(s: Seq<char>, labels: Seq<Seq<char>>, kinds: Seq<NumberKind>) -> Option<
    (Seq<Number>, Seq<char>),
>
    decreases labels.len(),
{
    if labels.len() == 0 || kinds.len() == 0 {
        Some((Seq::empty(), s))
    } else {
        match strip_prefix(s, labels[0]) {
            Some(behind_label) => match parse_number(behind_label, kinds[0]) {
                Some((number, behind_number)) => match parse_numbers(
                    behind_number,
                    labels.drop_first(),
                    kinds.drop_first(),
                ) {
                    Some((numbers, rest)) => Some((seq![number] + numbers, rest)),
                    None => None,
                },
                None => None,
            },
            None => None,
        }
    }
}

/// Whether `s` is empty or begins with something else than a decimal
/// digit, so that a decimal number before it ends where `s` begins.
pub open spec fn ends_a_decimal(s: Seq<char>) -> bool {
    s.len() == 0 || !is_decimal_digit(s[0])
}

/// Whether each decimal number among `numbers` is followed by a label, or
/// at the end by `rest`, that ends it.
pub open spec fn decimals_end(labels: Seq<Seq<char>>, numbers: Seq<Number>, rest: Seq<char>) -> bool {
    forall|i: int|
        0 <= i < numbers.len() && #[trigger] numbers[i] is Decimal ==> if i + 1 < labels.len() {
            labels[i + 1].len() > 0 && !is_decimal_digit(labels[i + 1][0])
        } else {
            ends_a_decimal(rest)
        }
}

/// Whether each hexadecimal number among `numbers` has no more digits than
/// its form says.
pub open spec fn hex_numbers_fit(numbers: Seq<Number>) -> bool {
    forall|i: int|
        0 <= i < numbers.len() ==> match #[trigger] numbers[i] {
            Number::Hex(value, width) => value < pow16(width as nat),
            Number::Decimal(_) => true,
        }
}

/// The text of a decimal number consists of digits, begins with a zero
/// only where the number is below ten, and writes the number.
pub proof fn lemma_decimal_text(value: nat)
    ensures
        decimal_text(value).len() >= 1,
        forall|i: int|
            0 <= i < decimal_text(value).len() ==> is_decimal_digit(
                #[trigger] decimal_text(value)[i],
            ),
        decimal_text(value).len() > 1 ==> decimal_text(value)[0] != '0',
        digits_value(decimal_text(value), 10) == value,
    decreases value,
{
    let text = decimal_text(value);
    if value < 10 {
        assert(text.drop_last() =~= Seq::<char>::empty());
        assert(text.last() == digit_char(value as int));
        assert(digits_value(text.drop_last(), 10) == 0);
    } else {
        lemma_decimal_text(value / 10);
        let front = decimal_text(value / 10);
        assert(text.drop_last() =~= front);
        assert(text.last() == digit_char((value % 10) as int));
        assert(text[0] == front[0]);
        if front.len() == 1 {
            assert(digits_value(front, 10) == value / 10);
            assert(front.drop_last() =~= Seq::<char>::empty());
            assert(digits_value(front.drop_last(), 10) == 0);
            assert(hex_value(front[0]) != 0);
        }
        assert forall|i: int| 0 <= i < text.len() implies is_decimal_digit(#[trigger] text[i]) by {
            if i < front.len() {
                assert(text[i] == front[i]);
            }
        }
    }
}

/// Digits followed by something that ends a decimal are all the digits at
/// that head.
pub proof fn lemma_leading_digits(digits: Seq<char>, rest: Seq<char>)
    requires
        forall|i: int| 0 <= i < digits.len() ==> is_decimal_digit(#[trigger] digits[i]),
        ends_a_decimal(rest),
    ensures
        leading_digits(digits + rest) == digits.len(),
    decreases digits.len(),
{
    let s = digits + rest;
    if digits.len() == 0 {
        assert(s =~= rest);
    } else {
        assert(s[0] == digits[0]);
        assert(s.drop_first() =~= digits.drop_first() + rest);
        assert forall|i: int| 0 <= i < digits.drop_first().len() implies is_decimal_digit(
            #[trigger] digits.drop_first()[i],
        ) by {
            assert(digits.drop_first()[i] == digits[i + 1]);
        }
        lemma_leading_digits(digits.drop_first(), rest);
    }
}

/// The text of a hexadecimal number has the digits its form says, all of
/// them hexadecimal, and writes the number where the number has no more
/// digits than that.
pub proof fn lemma_hex_text(value: nat, width: nat)
    ensures
        hex_text(value, width).len() == width,
        all_hex_digits(hex_text(value, width)),
        value < pow16(width) ==> digits_value(hex_text(value, width), 16) == value,
    decreases width,
{
    let text = hex_text(value, width);
    if width > 0 {
        lemma_hex_text(value / 16, (width - 1) as nat);
        let front = hex_text(value / 16, (width - 1) as nat);
        assert(text.drop_last() =~= front);
        assert(text.last() == digit_char((value % 16) as int));
        assert forall|i: int| 0 <= i < text.len() implies hex_value(#[trigger] text[i]) >= 0 by {
            if i < front.len() {
                assert(text[i] == front[i]);
            }
        }
        if value < pow16(width) {
            assert(value / 16 < pow16((width - 1) as nat));
        }
    }
}

/// A number is read back from its text, where a decimal number is
/// followed by something that ends it, and a hexadecimal number has no
/// more digits than its form says.
pub proof fn lemma_number_round_trip(number: Number, rest: Seq<char>)
    requires
        number is Decimal ==> ends_a_decimal(rest),
        number matches Number::Hex(value, width) ==> value < pow16(width as nat),
    ensures
        parse_number(number_text(number) + rest, kind_of(number)) == Some((number, rest)),
{
    let text = number_text(number);
    let s = text + rest;
    match number {
        Number::Decimal(value) => {
            lemma_decimal_text(value as nat);
            lemma_leading_digits(text, rest);
            assert(s.take(text.len() as int) =~= text);
            assert(s.skip(text.len() as int) =~= rest);
            assert(s[0] == text[0]);
        },
        Number::Hex(value, width) => {
            lemma_hex_text(value as nat, width as nat);
            assert(s.take(width as int) =~= text);
            assert(s.skip(width as int) =~= rest);
        },
    }
}

/// Labelled numbers are read back from their text, where each decimal
/// number is followed by something that ends it and each hexadecimal
/// number has no more digits than its form says.
pub proof fn lemma_numbers_round_trip(
    labels: Seq<Seq<char>>,
    numbers: Seq<Number>,
    rest: Seq<char>,
)
    requires
        labels.len() == numbers.len(),
        decimals_end(labels, numbers, rest),
        hex_numbers_fit(numbers),
    ensures
        parse_numbers(numbers_text(labels, numbers) + rest, labels, kinds_of(numbers)) == Some(
            (numbers, rest),
        ),
    decreases labels.len(),
{
    let s = numbers_text(labels, numbers) + rest;
    if labels.len() == 0 {
        assert(s =~= rest);
        assert(numbers =~= Seq::<Number>::empty());
    } else {
        let later_labels = labels.drop_first();
        let later = numbers.drop_first();
        let behind_number = numbers_text(later_labels, later) + rest;
        let behind_label = number_text(numbers[0]) + behind_number;
        assert(s =~= labels[0] + behind_label);
        lemma_strip_prefix(labels[0], behind_label);
        assert(kinds_of(numbers)[0] == kind_of(numbers[0]));
        assert(kinds_of(numbers).drop_first() =~= kinds_of(later));
        if numbers[0] is Decimal {
            if labels.len() > 1 {
                assert(later_labels[0] == labels[1]);
                assert(behind_number[0] == labels[1][0]);
            } else {
                assert(numbers_text(later_labels, later) =~= Seq::<char>::empty());
                assert(behind_number =~= rest);
            }
        }
        lemma_number_round_trip(numbers[0], behind_number);
        assert forall|i: int| 0 <= i < later.len() && #[trigger] later[i] is Decimal implies if i
            + 1 < later_labels.len() {
            later_labels[i + 1].len() > 0 && !is_decimal_digit(later_labels[i + 1][0])
        } else {
            ends_a_decimal(rest)
        } by {
            assert(later[i] == numbers[i + 1]);
            if i + 1 < later_labels.len() {
                assert(later_labels[i + 1] == labels[i + 2]);
            }
        }
        assert forall|i: int| 0 <= i < later.len() implies match #[trigger] later[i] {
            Number::Hex(value, width) => value < pow16(width as nat),
            Number::Decimal(_) => true,
        } by {
            assert(later[i] == numbers[i + 1]);
        }
        lemma_numbers_round_trip(later_labels, later, rest);
        assert(seq![numbers[0]] + later =~= numbers);
    }
}

/// One more label and number at the end add their text at the end.
pub proof fn lemma_numbers_text_push(
    labels: Seq<Seq<char>>,
    numbers: Seq<Number>,
    label: Seq<char>,
    number: Number,
)
    requires
        labels.len() == numbers.len(),
    ensures
        numbers_text(labels.push(label), numbers.push(number)) == numbers_text(labels, numbers)
            + label + number_text(number),
    decreases labels.len(),
{
    let more_labels = labels.push(label);
    let more_numbers = numbers.push(number);
    if labels.len() == 0 {
        assert(labels =~= Seq::<Seq<char>>::empty());
        assert(numbers =~= Seq::<Number>::empty());
        assert(more_labels.drop_first() =~= Seq::<Seq<char>>::empty());
        assert(more_labels[0] == label && more_numbers[0] == number);
        assert(numbers_text(more_labels.drop_first(), more_numbers.drop_first()) =~= Seq::<
            char,
        >::empty());
        assert(numbers_text(more_labels, more_numbers) =~= label + number_text(number));
        assert(numbers_text(labels, numbers) + label + number_text(number) =~= label
            + number_text(number));
    } else {
        lemma_numbers_text_push(labels.drop_first(), numbers.drop_first(), label, number);
        assert(more_labels.drop_first() =~= labels.drop_first().push(label));
        assert(more_numbers.drop_first() =~= numbers.drop_first().push(number));
        assert(numbers_text(more_labels, more_numbers) =~= labels[0] + number_text(numbers[0]) + (
        numbers_text(labels.drop_first(), numbers.drop_first()) + label + number_text(number)));
        assert(numbers_text(more_labels, more_numbers) =~= numbers_text(labels, numbers) + label
            + number_text(number));
    }
}

/// Appends the text of `number` to `out`.
pub fn append_number(out: &mut String, number: Number)
    ensures
        final(out)@ == old(out)@ + number_text(number),
{
    match number {
        Number::Decimal(value) => {
            out.append(decimal_string(value).as_str());
        },
        Number::Hex(value, width) => {
            out.append(hex_string(value, width).as_str());
        },
    }
}

/// Appends labels and numbers in turn to `out`.
pub fn append_numbers(out: &mut String, labels: &Vec<&'static str>, numbers: &Vec<Number>)
    requires
        labels.len() == numbers.len(),
    ensures
        final(out)@ == old(out)@ + numbers_text(label_texts(labels@), numbers@),
{
    let count: usize = labels.len();
    let mut i: usize = 0;
    while i < count
        invariant
            count == labels.len(),
            count == numbers.len(),
            i <= count,
            out@ == old(out)@ + numbers_text(
                label_texts(labels@).take(i as int),
                numbers@.take(i as int),
            ),
        decreases count - i,
    {
        out.append(labels[i]);
        append_number(out, numbers[i]);
        proof {
            let all_labels = label_texts(labels@);
            lemma_numbers_text_push(
                all_labels.take(i as int),
                numbers@.take(i as int),
                all_labels[i as int],
                numbers@[i as int],
            );
            assert(all_labels.take(i as int + 1) =~= all_labels.take(i as int).push(
                all_labels[i as int],
            ));
            assert(numbers@.take(i as int + 1) =~= numbers@.take(i as int).push(
                numbers@[i as int],
            ));
        }
        i += 1;
    }
    proof {
        assert(label_texts(labels@).take(count as int) =~= label_texts(labels@));
        assert(numbers@.take(count as int) =~= numbers@);
    }
}

/// Leading digits of `s` are counted up to any position before which all
/// are digits.
proof fn lemma_leading_digits_split(s: Seq<char>, count: int)
    requires
        0 <= count <= s.len(),
        forall|i: int| 0 <= i < count ==> is_decimal_digit(#[trigger] s[i]),
    ensures
        leading_digits(s) == count + leading_digits(s.skip(count)),
    decreases count,
{
    if count == 0 {
        assert(s.skip(0) =~= s);
    } else {
        assert forall|i: int| 0 <= i < count - 1 implies is_decimal_digit(
            #[trigger] s.drop_first()[i],
        ) by {
            assert(s.drop_first()[i] == s[i + 1]);
        }
        lemma_leading_digits_split(s.drop_first(), count - 1);
        assert(s.drop_first().skip(count - 1) =~= s.skip(count));
    }
}

/// Reads the decimal number that stands in `input` at `pos`; returns it
/// with the position behind its last digit.
pub fn read_decimal(input: &Vec<char>, pos: usize) -> (found: Option<(u64, usize)>)
    requires
        pos <= input.len(),
    ensures
        match found {
            Some((value, n)) => {
                &&& pos < n <= input.len()
                &&& parse_number(input@.skip(pos as int), NumberKind::Decimal) == Some(
                    (Number::Decimal(value), input@.skip(n as int)),
                )
            },
            None => parse_number(input@.skip(pos as int), NumberKind::Decimal) is None,
        },
{
    let len: usize = input.len();
    let ghost s: Seq<char> = input@.skip(pos as int);
    let mut i: usize = pos;
    let mut value: u64 = 0;
    let mut overflow: bool = false;
    proof {
        assert(s.take(0) =~= Seq::<char>::empty());
    }
    while i < len && '0' <= input[i] && input[i] <= '9'
        invariant
            len == input.len(),
            pos <= i <= len,
            s == input@.skip(pos as int),
            forall|k: int| 0 <= k < i - pos ==> is_decimal_digit(#[trigger] s[k]),
            !overflow ==> value == digits_value(s.take(i - pos), 10),
            overflow ==> digits_value(s.take(i - pos), 10) > u64::MAX,
        decreases len - i,
    {
        let digit: u64 = (input[i] as u32 - '0' as u32) as u64;
        proof {
            let longer = s.take(i - pos + 1);
            assert(longer.drop_last() =~= s.take(i - pos));
            assert(longer.last() == input@[i as int]);
            assert(hex_value(longer.last()) == digit);
            if overflow {
                assert(digits_value(longer.drop_last(), 10) * 10 >= digits_value(
                    longer.drop_last(),
                    10,
                )) by (nonlinear_arith);
            }
        }
        if !overflow {
            if value > (u64::MAX - digit) / 10 {
                overflow = true;
            } else {
                value = value * 10 + digit;
            }
        }
        i += 1;
    }
    let count: usize = i - pos;
    proof {
        lemma_leading_digits_split(s, count as int);
        assert(s.skip(count as int) =~= input@.skip(i as int));
        if i < len {
            assert(s.skip(count as int)[0] == input@[i as int]);
        }
        assert(leading_digits(s.skip(count as int)) == 0);
        if count > 0 {
            assert(s[0] == input@[pos as int]);
        }
    }
    if count == 0 || overflow || (count > 1 && input[pos] == '0') {
        None
    } else {
        Some((value, i))
    }
}

/// Reads the hexadecimal number of `width` digits that stands in `input`
/// at `pos`; returns it with the position behind its last digit.
pub fn read_hex(input: &Vec<char>, pos: usize, width: usize) -> (found: Option<(u128, usize)>)
    requires
        pos <= input.len(),
    ensures
        match found {
            Some((value, n)) => {
                &&& n == pos + width
                &&& n <= input.len()
                &&& parse_number(input@.skip(pos as int), NumberKind::Hex(width)) == Some(
                    (Number::Hex(value, width), input@.skip(n as int)),
                )
            },
            None => parse_number(input@.skip(pos as int), NumberKind::Hex(width)) is None,
        },
{
    let len: usize = input.len();
    let ghost s: Seq<char> = input@.skip(pos as int);
    if len - pos < width {
        return None;
    }
    let ghost digits: Seq<char> = s.take(width as int);
    let mut k: usize = 0;
    let mut value: u128 = 0;
    let mut overflow: bool = false;
    proof {
        assert(digits.take(0) =~= Seq::<char>::empty());
    }
    while k < width
        invariant
            len == input.len(),
            pos <= len,
            width <= len - pos,
            k <= width,
            s == input@.skip(pos as int),
            digits == s.take(width as int),
            forall|j: int| 0 <= j < k ==> hex_value(#[trigger] digits[j]) >= 0,
            !overflow ==> value == digits_value(digits.take(k as int), 16),
            overflow ==> digits_value(digits.take(k as int), 16) > u128::MAX,
        decreases width - k,
    {
        let digit: u128 = match hex_digit_value(input[pos + k]) {
            Some(d) => d as u128,
            None => {
                proof {
                    assert(digits[k as int] == input@[pos + k]);
                }
                return None;
            },
        };
        proof {
            let longer = digits.take(k + 1);
            assert(longer.drop_last() =~= digits.take(k as int));
            assert(longer.last() == input@[pos + k]);
            assert(digits[k as int] == input@[pos + k]);
            if overflow {
                assert(digits_value(longer.drop_last(), 16) * 16 >= digits_value(
                    longer.drop_last(),
                    16,
                )) by (nonlinear_arith);
            }
        }
        if !overflow {
            if value > (u128::MAX - digit) / 16 {
                overflow = true;
            } else {
                value = value * 16 + digit;
            }
        }
        k += 1;
    }
    proof {
        assert(digits.take(width as int) =~= digits);
        assert(s.skip(width as int) =~= input@.skip(pos + width));
    }
    if overflow {
        None
    } else {
        Some((value, pos + width))
    }
}

/// Reads the number of the form `kind` that stands in `input` at `pos`;
/// returns it with the position behind it.
pub fn read_number(input: &Vec<char>, pos: usize, kind: NumberKind) -> (found: Option<
    (Number, usize),
>)
    requires
        pos <= input.len(),
    ensures
        match found {
            Some((number, n)) => {
                &&& pos <= n <= input.len()
                &&& parse_number(input@.skip(pos as int), kind) == Some(
                    (number, input@.skip(n as int)),
                )
            },
            None => parse_number(input@.skip(pos as int), kind) is None,
        },
{
    match kind {
        NumberKind::Decimal => match read_decimal(input, pos) {
            Some((value, n)) => Some((Number::Decimal(value), n)),
            None => None,
        },
        NumberKind::Hex(width) => match read_hex(input, pos, width) {
            Some((value, n)) => Some((Number::Hex(value, width), n)),
            None => None,
        },
    }
}

/// What is read behind some numbers already read: the same as `found`,
/// with `head` put before the numbers that `found` holds.
pub open spec fn with_numbers(head: Seq<Number>, found: Option<(Seq<Number>, Seq<char>)>) -> Option<
    (Seq<Number>, Seq<char>),
> {
    match found {
        Some((tail, rest)) => Some((head + tail, rest)),
        None => None,
    }
}

/// Reads the numbers of the forms `kinds` that stand behind `labels` in
/// `input` from `pos` on; returns them with the position behind the last.
pub fn read_numbers(
    input: &Vec<char>,
    pos: usize,
    labels: &Vec<&'static str>,
    kinds: &Vec<NumberKind>,
) -> (found: Option<(Vec<Number>, usize)>)
    requires
        pos <= input.len(),
        labels.len() == kinds.len(),
    ensures
        match found {
            Some((numbers, n)) => {
                &&& pos <= n <= input.len()
                &&& parse_numbers(input@.skip(pos as int), label_texts(labels@), kinds@) == Some(
                    (numbers@, input@.skip(n as int)),
                )
            },
            None => parse_numbers(input@.skip(pos as int), label_texts(labels@), kinds@) is None,
        },
{
    let ghost all: Seq<Seq<char>> = label_texts(labels@);
    let ghost whole = parse_numbers(input@.skip(pos as int), all, kinds@);
    let count: usize = labels.len();
    let mut numbers: Vec<Number> = Vec::new();
    let mut i: usize = pos;
    let mut k: usize = 0;
    proof {
        assert(all.skip(0) =~= all);
        assert(kinds@.skip(0) =~= kinds@);
        match whole {
            Some((tail, rest)) => {
                assert(numbers@ + tail =~= tail);
            },
            None => {},
        }
    }
    while k < count
        invariant
            count == labels.len(),
            count == kinds.len(),
            all == label_texts(labels@),
            whole == parse_numbers(input@.skip(pos as int), all, kinds@),
            k <= count,
            pos <= i <= input.len(),
            whole == with_numbers(
                numbers@,
                parse_numbers(input@.skip(i as int), all.skip(k as int), kinds@.skip(k as int)),
            ),
        decreases count - k,
    {
        proof {
            assert(all.skip(k as int)[0] == labels@[k as int]@);
            assert(kinds@.skip(k as int)[0] == kinds@[k as int]);
            assert(all.skip(k as int).drop_first() =~= all.skip(k + 1));
            assert(kinds@.skip(k as int).drop_first() =~= kinds@.skip(k + 1));
        }
        let behind_label: usize = match match_literal(input, i, labels[k]) {
            Some(n) => n,
            None => {
                return None;
            },
        };
        match read_number(input, behind_label, kinds[k]) {
            Some((number, n)) => {
                proof {
                    match parse_numbers(
                        input@.skip(n as int),
                        all.skip(k + 1),
                        kinds@.skip(k + 1),
                    ) {
                        Some((tail, rest)) => {
                            assert(numbers@.push(number) + tail =~= numbers@ + (seq![number]
                                + tail));
                        },
                        None => {},
                    }
                }
                numbers.push(number);
                i = n;
            },
            None => {
                return None;
            },
        }
        k += 1;
    }
    proof {
        assert(all.skip(count as int) =~= Seq::<Seq<char>>::empty());
        assert(numbers@ + Seq::<Number>::empty() =~= numbers@);
    }
    Some((numbers, i))
}

} // verus!
