use lunar_patcher::name::{name_char_allowed, validate_display_name, ValidationError};

#[test]
fn empty_name_is_empty() {
    assert_eq!(validate_display_name(""), Err(ValidationError::Empty));
}

#[test]
fn two_characters_are_too_short() {
    assert_eq!(validate_display_name("ab"), Err(ValidationError::TooShort));
    assert_eq!(validate_display_name("a"), Err(ValidationError::TooShort));
}

#[test]
fn seventeen_characters_are_too_long() {
    assert_eq!(validate_display_name("abcdefghijklmnopq"), Err(ValidationError::TooLong));
}

#[test]
fn punctuation_is_an_invalid_character() {
    assert_eq!(validate_display_name("abc!"), Err(ValidationError::InvalidCharacters));
    assert_eq!(validate_display_name("ab c"), Err(ValidationError::InvalidCharacters));
    assert_eq!(validate_display_name("abc-def"), Err(ValidationError::InvalidCharacters));
}

#[test]
fn player_1_passes() {
    assert_eq!(validate_display_name("Player_1"), Ok(()));
}

#[test]
fn bounds_of_the_length_pass() {
    assert_eq!(validate_display_name("abc"), Ok(()));
    assert_eq!(validate_display_name("abcdefghijklmnop"), Ok(()));
    assert_eq!(validate_display_name("___"), Ok(()));
    assert_eq!(validate_display_name("A1_"), Ok(()));
}

#[test]
fn length_is_judged_before_characters() {
    assert_eq!(validate_display_name("!"), Err(ValidationError::TooShort));
    assert_eq!(validate_display_name("!!!!!!!!!!!!!!!!!"), Err(ValidationError::TooLong));
}

#[test]
fn length_counts_characters() {
    assert_eq!(validate_display_name("\u{e9}\u{e9}"), Err(ValidationError::TooShort));
    assert_eq!(validate_display_name("\u{e9}\u{e9}\u{e9}"), Err(ValidationError::InvalidCharacters));
}

#[test]
fn letters_digits_and_underscore_are_allowed() {
    for c in ['a', 'z', 'A', 'Z', '0', '9', '_'] {
        assert!(name_char_allowed(c));
    }
    for c in ['-', ' ', '!', '.', '\u{e9}', '`', '{', '@', '[', '/', ':'] {
        assert!(!name_char_allowed(c));
    }
}
