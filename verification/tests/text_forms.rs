use lunar_patcher::clock::{rfc3339_string, Timestamp, LAST_SECOND};
use lunar_patcher::encoding::encode_segment;
use lunar_patcher::json::{quote, quoting_outcome};
use lunar_patcher::error::PatchError;
use lunar_patcher::text::{decimal_string, digit_to_char, hex_string, push_decimal, push_hex};

#[test]
fn digits_map_to_characters() {
    assert_eq!(digit_to_char(0), '0');
    assert_eq!(digit_to_char(9), '9');
    assert_eq!(digit_to_char(10), 'a');
    assert_eq!(digit_to_char(15), 'f');
}

#[test]
fn hex_is_padded_to_its_width() {
    assert_eq!(hex_string(0, 4), "0000");
    assert_eq!(hex_string(0xbeef, 4), "beef");
    assert_eq!(hex_string(0x1f, 8), "0000001f");
    assert_eq!(hex_string(255, 2), "ff");
    assert_eq!(hex_string(7, 0), "");
    assert_eq!(hex_string(u128::MAX, 32), "ffffffffffffffffffffffffffffffff");
    assert_eq!(hex_string(0x0123_4567_89ab_cdef, 32), "00000000000000000123456789abcdef");
}

#[test]
fn hex_agrees_with_the_standard_format() {
    for value in [0u128, 1, 15, 16, 0xdead_beef, u64::MAX as u128, u128::MAX - 1] {
        assert_eq!(hex_string(value, 32), format!("{:032x}", value));
    }
    for value in [0u128, 0xabc, 0xffff_ffff_ffff] {
        assert_eq!(hex_string(value, 12), format!("{:012x}", value));
    }
}

#[test]
fn decimal_has_no_leading_zeros() {
    assert_eq!(decimal_string(0), "0");
    assert_eq!(decimal_string(7), "7");
    assert_eq!(decimal_string(10), "10");
    assert_eq!(decimal_string(1_000_000_000_000_000), "1000000000000000");
    assert_eq!(decimal_string(u64::MAX), "18446744073709551615");
}

#[test]
fn pushing_appends_to_what_is_there() {
    let mut out = vec!['x'];
    push_hex(&mut out, 0xa0, 3);
    push_decimal(&mut out, 42);
    assert_eq!(out, vec!['x', '0', 'a', '0', '4', '2']);
}

#[test]
fn segments_follow_the_url_safe_alphabet_without_padding() {
    assert_eq!(encode_segment(""), "");
    assert_eq!(encode_segment("f"), "Zg");
    assert_eq!(encode_segment("fo"), "Zm8");
    assert_eq!(encode_segment("foo"), "Zm9v");
    assert_eq!(encode_segment("foob"), "Zm9vYg");
    assert_eq!(encode_segment("fooba"), "Zm9vYmE");
    assert_eq!(encode_segment("foobar"), "Zm9vYmFy");
    assert_eq!(encode_segment("\u{fb}\u{ff}"), "w7vDvw");
    assert_eq!(encode_segment("~~~"), "fn5-");
    assert_eq!(encode_segment("???"), "Pz8_");
}

#[test]
fn epoch_is_rendered_with_a_zero_offset() {
    assert_eq!(rfc3339_string(0, 0), "1970-01-01T00:00:00+00:00");
    assert_eq!(rfc3339_string(1_431_648_000, 0), "2015-05-15T00:00:00+00:00");
    assert_eq!(rfc3339_string(1_700_000_000, 500_000_000), "2023-11-14T22:13:20.500+00:00");
    assert_eq!(rfc3339_string(1_700_000_000, 1), "2023-11-14T22:13:20.000000001+00:00");
    assert_eq!(rfc3339_string(LAST_SECOND, 0), "9999-12-31T23:59:59+00:00");
    assert_eq!(rfc3339_string(1_000_000_000_000, 0), "+33658-09-27T01:46:40+00:00");
}

#[test]
fn timestamps_are_made_in_range_only() {
    let made = Timestamp::new(5, 6).unwrap();
    assert_eq!(made.secs, 5);
    assert_eq!(made.nanos, 6);
    assert!(Timestamp::new(0, 0).is_some());
    assert!(Timestamp::new(LAST_SECOND, 999_999_999).is_some());
    assert!(Timestamp::new(-1, 0).is_none());
    assert!(Timestamp::new(LAST_SECOND + 1, 0).is_none());
    assert!(Timestamp::new(0, 1_000_000_000).is_none());
}

#[test]
fn quoting_escapes_what_json_requires() {
    assert_eq!(quote("Steve"), Ok("\"Steve\"".to_string()));
    assert_eq!(quote(""), Ok("\"\"".to_string()));
    assert_eq!(quote("a\"b\\c"), Ok("\"a\\\"b\\\\c\"".to_string()));
    assert_eq!(
        quote("\u{8}\u{c}\n\r\t\u{1}\u{1f}"),
        Ok("\"\\b\\f\\n\\r\\t\\u0001\\u001f\"".to_string())
    );
    assert_eq!(quote("\u{7f}\u{e9}/"), Ok("\"\u{7f}\u{e9}/\"".to_string()));
}

#[test]
fn a_failed_quoting_is_a_serialization_error() {
    let failure = serde_json::from_str::<serde_json::Value>("{").unwrap_err();
    assert_eq!(quoting_outcome(Err(failure)), Err(PatchError::Serialization));
    assert_eq!(quoting_outcome(Ok("\"x\"".to_string())), Ok("\"x\"".to_string()));
}

#[test]
fn quoting_succeeds_for_every_kind_of_character() {
    let samples = [
        "",
        "plain",
        "\u{0}\u{1}\u{1f}\u{7f}",
        "\"\\/\u{8}\u{c}\n\r\t",
        "\u{e9}\u{4e2d}\u{1f600}\u{10ffff}",
    ];
    for sample in samples {
        let quoted = quote(sample);
        assert!(quoted.is_ok());
        let back: String = serde_json::from_str(&quoted.unwrap()).unwrap();
        assert_eq!(back, sample);
    }
}
