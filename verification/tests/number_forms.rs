use lunar_patcher::numbers::{
    append_number, append_numbers, read_decimal, read_hex, read_number, read_numbers, Number,
    NumberKind,
};

fn chars(text: &str) -> Vec<char> {
    text.chars().collect()
}

#[test]
fn numbers_are_written_in_their_form() {
    let mut out = String::new();
    append_number(&mut out, Number::Decimal(0));
    append_number(&mut out, Number::Hex(0xab, 4));
    append_number(&mut out, Number::Decimal(1234));
    append_number(&mut out, Number::Hex(0xabc, 2));
    append_number(&mut out, Number::Hex(5, 0));
    assert_eq!(out, "000ab1234bc");
}

#[test]
fn labelled_numbers_are_written_and_read_in_turn() {
    let labels: Vec<&'static str> = vec!["a=", ";b=", "-"];
    let numbers = vec![Number::Decimal(17), Number::Hex(0xbeef, 6), Number::Hex(1, 2)];
    let kinds = vec![NumberKind::Decimal, NumberKind::Hex(6), NumberKind::Hex(2)];
    let mut out = "<".to_string();
    append_numbers(&mut out, &labels, &numbers);
    assert_eq!(out, "<a=17;b=00beef-01");
    let input = chars(&format!("{}>", out));
    assert_eq!(read_numbers(&input, 1, &labels, &kinds), Some((numbers, input.len() - 1)));
    assert_eq!(read_numbers(&input, 0, &labels, &kinds), None);
    assert_eq!(read_numbers(&chars("a=17;b=00beef-0"), 0, &labels, &kinds), None);
    assert_eq!(read_numbers(&chars("a=017;b=00beef-01"), 0, &labels, &kinds), None);
    assert_eq!(read_numbers(&input, 2, &Vec::new(), &Vec::new()), Some((Vec::new(), 2)));
}

#[test]
fn decimals_take_every_digit_and_no_leading_zero() {
    assert_eq!(read_decimal(&chars("0"), 0), Some((0, 1)));
    assert_eq!(read_decimal(&chars("7,"), 0), Some((7, 1)));
    assert_eq!(read_decimal(&chars("x1234y"), 1), Some((1234, 5)));
    assert_eq!(read_decimal(&chars("18446744073709551615"), 0), Some((u64::MAX, 20)));
    assert_eq!(read_decimal(&chars("18446744073709551616"), 0), None);
    assert_eq!(read_decimal(&chars("99999999999999999999999"), 0), None);
    assert_eq!(read_decimal(&chars("01"), 0), None);
    assert_eq!(read_decimal(&chars("00"), 0), None);
    assert_eq!(read_decimal(&chars(""), 0), None);
    assert_eq!(read_decimal(&chars("a1"), 0), None);
    assert_eq!(read_decimal(&chars("-1"), 0), None);
    assert_eq!(read_decimal(&chars("12"), 2), None);
}

#[test]
fn hex_numbers_take_their_width() {
    assert_eq!(read_hex(&chars("00ff"), 0, 4), Some((255, 4)));
    assert_eq!(read_hex(&chars("00ff"), 0, 2), Some((0, 2)));
    assert_eq!(read_hex(&chars("00ff"), 2, 2), Some((255, 4)));
    assert_eq!(read_hex(&chars("00ff"), 1, 0), Some((0, 1)));
    assert_eq!(
        read_hex(&chars("ffffffffffffffffffffffffffffffff"), 0, 32),
        Some((u128::MAX, 32))
    );
    assert_eq!(
        read_hex(&chars("0ffffffffffffffffffffffffffffffff"), 0, 33),
        Some((u128::MAX, 33))
    );
    assert_eq!(read_hex(&chars("1ffffffffffffffffffffffffffffffff"), 0, 33), None);
    assert_eq!(read_hex(&chars("00ff"), 0, 5), None);
    assert_eq!(read_hex(&chars("00fF"), 0, 4), None);
    assert_eq!(read_hex(&chars("00fg"), 0, 4), None);
}

#[test]
fn numbers_are_read_by_their_form() {
    assert_eq!(read_number(&chars("12ab"), 0, NumberKind::Decimal), Some((Number::Decimal(12), 2)));
    assert_eq!(read_number(&chars("12ab"), 0, NumberKind::Hex(4)), Some((Number::Hex(0x12ab, 4), 4)));
    assert_eq!(read_number(&chars("ab12"), 0, NumberKind::Decimal), None);
    assert_eq!(read_number(&chars("12"), 0, NumberKind::Hex(3)), None);
}
