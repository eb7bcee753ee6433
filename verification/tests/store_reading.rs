use lunar_patcher::account::{AccountRecord, Profile};
use lunar_patcher::clock::Timestamp;
use lunar_patcher::json::{append_fields, append_scalar, Scalar};
use lunar_patcher::reader::{
    chars_of, hex_digit_value, match_literal, read_escaped, read_fields, read_quoted, read_scalar,
};
use lunar_patcher::store::{
    generate_store, record_label_list, record_value_list, render_record, render_store,
    AccountEntry, CredentialStore,
};
use lunar_patcher::store_reader::{
    parse_store_text, read_entries, read_entry, read_record, record_from_scalars,
};
use rand::rngs::StdRng;
use rand::SeedableRng;

fn record(id: &str, name: &str) -> AccountRecord {
    AccountRecord {
        access_token: "head.body.tail".to_string(),
        access_token_expires_at: "2023-11-14T22:23:20+00:00".to_string(),
        eligible_for_migration: false,
        has_multiple_profiles: false,
        legacy: false,
        persistent: true,
        local_id: id.to_string(),
        refresh_token: "r!*-_.".to_string(),
        profile: Profile { id: "00ff".to_string(), name: name.to_string() },
        remote_id: "1234567890123456".to_string(),
        account_type: "Xbox".to_string(),
        username: name.to_string(),
        user_properties: None,
    }
}

fn chars(text: &str) -> Vec<char> {
    text.chars().collect()
}

#[test]
fn written_store_is_read_back_equal() {
    let store = CredentialStore::single("abc".to_string(), record("abc", "Steve"));
    let text = render_store(&store).unwrap();
    assert_eq!(parse_store_text(&text), Some(store));
}

#[test]
fn generated_store_is_read_back_equal() {
    for seed in 0..10u64 {
        let mut rng = StdRng::seed_from_u64(seed);
        let now = Timestamp::new(1_700_000_000 + seed as i64, 5).unwrap();
        let store = generate_store("Player_1", &mut rng, now);
        let text = render_store(&store).unwrap();
        let back = parse_store_text(&text).unwrap();
        assert_eq!(back, store);
        assert_eq!(render_store(&back).unwrap(), text);
    }
}

#[test]
fn escapes_and_odd_values_are_read_back_equal() {
    let mut odd = record("k\"\\1", "Na\\me\n\t\r\u{8}\u{c}\u{0}\u{1f}\u{7f}\u{e9}\u{1f600}/");
    odd.user_properties = Some("{\"not\": \"parsed\"}".to_string());
    odd.eligible_for_migration = true;
    odd.has_multiple_profiles = true;
    odd.legacy = true;
    odd.persistent = false;
    odd.access_token = String::new();
    let store = CredentialStore {
        active_account_id: "nobody".to_string(),
        accounts: vec![
            AccountEntry { id: "k\"\\1".to_string(), record: odd },
            AccountEntry { id: "".to_string(), record: record("two", "Alex") },
            AccountEntry { id: "true".to_string(), record: record("null", "false") },
        ],
    };
    let text = render_store(&store).unwrap();
    assert_eq!(parse_store_text(&text), Some(store));
}

#[test]
fn store_without_accounts_is_read_back_equal() {
    let store = CredentialStore { active_account_id: "x".to_string(), accounts: Vec::new() };
    let text = render_store(&store).unwrap();
    assert_eq!(parse_store_text(&text), Some(store));
}

#[test]
fn other_texts_are_no_store() {
    let store = CredentialStore::single("abc".to_string(), record("abc", "Steve"));
    let text = render_store(&store).unwrap();
    assert_eq!(parse_store_text(""), None);
    assert_eq!(parse_store_text("{}"), None);
    assert_eq!(parse_store_text("anything at all"), None);
    assert_eq!(parse_store_text(&text[..text.len() - 1]), None);
    assert_eq!(parse_store_text(&format!("{}\n", text)), None);
    assert_eq!(parse_store_text(&format!(" {}", text)), None);
    assert_eq!(parse_store_text(&text.replace("\"legacy\": false", "\"legacy\": null")), None);
    assert_eq!(parse_store_text(&text.replace("\"legacy\": false", "\"legacy\": \"no\"")), None);
    assert_eq!(parse_store_text(&text.replace("\"username\": \"Steve\"", "\"username\": true")), None);
    assert_eq!(parse_store_text(&text.replace("\"username\"", "\"userName\"")), None);
    assert_eq!(parse_store_text(&text.replace("Steve", "Ste\\ve")), None);
    assert_eq!(parse_store_text(&text.replace("Steve", "Ste\\u0041ve")), None);
    assert_eq!(parse_store_text(&text.replace("Steve", "Ste\nve")), None);
    assert_eq!(parse_store_text(&text.replace("  \"accounts\"", " \"accounts\"")), None);
    let compact = "{\"activeAccountLocalId\":\"x\",\"accounts\":{}}";
    assert_eq!(parse_store_text(compact), None);
}

#[test]
fn null_properties_are_read_as_absent() {
    let store = CredentialStore::single("abc".to_string(), record("abc", "Steve"));
    let text = render_store(&store).unwrap();
    let with_text = text.replace("\"userProperties\": null", "\"userProperties\": \"p\"");
    let back = parse_store_text(&with_text).unwrap();
    assert_eq!(back.accounts[0].record.user_properties, Some("p".to_string()));
    let plain = parse_store_text(&text).unwrap();
    assert_eq!(plain.accounts[0].record.user_properties, None);
}

#[test]
fn characters_are_listed_in_order() {
    assert_eq!(chars_of(""), Vec::<char>::new());
    assert_eq!(chars_of("a\u{e9}\u{1f600}z"), vec!['a', '\u{e9}', '\u{1f600}', 'z']);
}

#[test]
fn literals_are_matched_at_a_position() {
    let input = chars("say true");
    assert_eq!(match_literal(&input, 4, "true"), Some(8));
    assert_eq!(match_literal(&input, 0, "say "), Some(4));
    assert_eq!(match_literal(&input, 0, ""), Some(0));
    assert_eq!(match_literal(&input, 8, ""), Some(8));
    assert_eq!(match_literal(&input, 5, "true"), None);
    assert_eq!(match_literal(&input, 4, "trues"), None);
    assert_eq!(match_literal(&input, 4, "tru!"), None);
}

#[test]
fn hex_digits_are_lower_case() {
    assert_eq!(hex_digit_value('0'), Some(0));
    assert_eq!(hex_digit_value('9'), Some(9));
    assert_eq!(hex_digit_value('a'), Some(10));
    assert_eq!(hex_digit_value('f'), Some(15));
    assert_eq!(hex_digit_value('g'), None);
    assert_eq!(hex_digit_value('A'), None);
    assert_eq!(hex_digit_value('/'), None);
    assert_eq!(hex_digit_value(':'), None);
}

#[test]
fn escapes_are_read_as_the_writer_writes_them() {
    assert_eq!(read_escaped(&chars("ab"), 0), Some(('a', 1)));
    assert_eq!(read_escaped(&chars("ab"), 1), Some(('b', 2)));
    assert_eq!(read_escaped(&chars("ab"), 2), None);
    assert_eq!(read_escaped(&chars("\\\"x"), 0), Some(('"', 2)));
    assert_eq!(read_escaped(&chars("\\\\"), 0), Some(('\\', 2)));
    assert_eq!(read_escaped(&chars("\\b"), 0), Some(('\u{8}', 2)));
    assert_eq!(read_escaped(&chars("\\f"), 0), Some(('\u{c}', 2)));
    assert_eq!(read_escaped(&chars("\\n"), 0), Some(('\n', 2)));
    assert_eq!(read_escaped(&chars("\\r"), 0), Some(('\r', 2)));
    assert_eq!(read_escaped(&chars("\\t"), 0), Some(('\t', 2)));
    assert_eq!(read_escaped(&chars("\\u0000"), 0), Some(('\u{0}', 6)));
    assert_eq!(read_escaped(&chars("\\u001f"), 0), Some(('\u{1f}', 6)));
    assert_eq!(read_escaped(&chars("\\u000b"), 0), Some(('\u{b}', 6)));
    assert_eq!(read_escaped(&chars("\\u001F"), 0), None);
    assert_eq!(read_escaped(&chars("\\u0020"), 0), None);
    assert_eq!(read_escaped(&chars("\\u000a"), 0), None);
    assert_eq!(read_escaped(&chars("\\u0008"), 0), None);
    assert_eq!(read_escaped(&chars("\\u0100"), 0), None);
    assert_eq!(read_escaped(&chars("\\u00"), 0), None);
    assert_eq!(read_escaped(&chars("\\/"), 0), None);
    assert_eq!(read_escaped(&chars("\\"), 0), None);
    assert_eq!(read_escaped(&chars("\""), 0), None);
    assert_eq!(read_escaped(&chars("\n"), 0), None);
    assert_eq!(read_escaped(&chars("\u{7f}"), 0), Some(('\u{7f}', 1)));
}

#[test]
fn strings_are_read_up_to_the_closing_quote() {
    assert_eq!(read_quoted(&chars("\"abc\" rest"), 0), Some(("abc".to_string(), 5)));
    assert_eq!(read_quoted(&chars("x\"\"y"), 1), Some((String::new(), 3)));
    assert_eq!(read_quoted(&chars("\"a\\\"b\""), 0), Some(("a\"b".to_string(), 6)));
    assert_eq!(read_quoted(&chars("\"abc"), 0), None);
    assert_eq!(read_quoted(&chars("abc\""), 0), None);
    assert_eq!(read_quoted(&chars("\"a\\x\""), 0), None);
    assert_eq!(read_quoted(&chars(""), 0), None);
}

#[test]
fn scalars_are_read_by_their_first_character() {
    assert_eq!(read_scalar(&chars("true,"), 0), Some((Scalar::Flag(true), 4)));
    assert_eq!(read_scalar(&chars("false"), 0), Some((Scalar::Flag(false), 5)));
    assert_eq!(read_scalar(&chars("null}"), 0), Some((Scalar::Null, 4)));
    assert_eq!(read_scalar(&chars("\"null\""), 0), Some((Scalar::Text("null".to_string()), 6)));
    assert_eq!(read_scalar(&chars("nul"), 0), None);
    assert_eq!(read_scalar(&chars("True"), 0), None);
    assert_eq!(read_scalar(&chars("12"), 0), None);
    assert_eq!(read_scalar(&chars(""), 0), None);
}

#[test]
fn scalars_are_written_as_json() {
    let mut out = "x".to_string();
    assert!(append_scalar(&mut out, &Scalar::Flag(true)));
    assert!(append_scalar(&mut out, &Scalar::Null));
    assert!(append_scalar(&mut out, &Scalar::Flag(false)));
    assert!(append_scalar(&mut out, &Scalar::Text("a\"b".to_string())));
    assert_eq!(out, "xtruenullfalse\"a\\\"b\"");
}

#[test]
fn fields_are_written_and_read_in_turn() {
    let labels: Vec<&'static str> = vec!["a=", ";b=", ";c="];
    let values = vec![Scalar::Text("one".to_string()), Scalar::Flag(false), Scalar::Null];
    let mut out = String::new();
    assert_eq!(append_fields(&mut out, &labels, &values), Ok(()));
    assert_eq!(out, "a=\"one\";b=false;c=null");
    let input = chars(&format!("{}!", out));
    assert_eq!(read_fields(&input, 0, &labels), Some((values, input.len() - 1)));
    assert_eq!(read_fields(&input, 1, &labels), None);
    assert_eq!(read_fields(&chars("a=\"one\";b=false;d=null"), 0, &labels), None);
    assert_eq!(read_fields(&input, 3, &Vec::new()), Some((Vec::new(), 3)));
}

#[test]
fn record_is_rebuilt_from_its_values() {
    let original = record("abc", "Steve");
    assert_eq!(record_label_list().len(), 14);
    let values = record_value_list(&original);
    assert_eq!(values.len(), 14);
    assert_eq!(values[0], Scalar::Text("head.body.tail".to_string()));
    assert_eq!(values[5], Scalar::Flag(true));
    assert_eq!(values[13], Scalar::Null);
    assert_eq!(record_from_scalars(values), Some(original.clone()));
    let mut short = record_value_list(&original);
    short.pop();
    assert_eq!(record_from_scalars(short), None);
    let mut wrong = record_value_list(&original);
    wrong[2] = Scalar::Null;
    assert_eq!(record_from_scalars(wrong), None);
    let mut flagged = record_value_list(&original);
    flagged[13] = Scalar::Flag(true);
    assert_eq!(record_from_scalars(flagged), None);
}

#[test]
fn record_and_entry_are_read_at_a_position() {
    let original = record("abc", "Steve");
    let text = render_record(&original).unwrap();
    let input = chars(&format!("__{}tail", text));
    assert_eq!(read_record(&input, 2), Some((original.clone(), input.len() - 4)));
    assert_eq!(read_record(&input, 0), None);
    let entry_input = chars(&format!("\"abc\": {}", text));
    assert_eq!(
        read_entry(&entry_input, 0),
        Some((AccountEntry { id: "abc".to_string(), record: original }, entry_input.len()))
    );
    assert_eq!(read_entry(&chars("\"abc\":"), 0), None);
}

#[test]
fn entries_end_where_no_separator_stands() {
    let original = record("abc", "Steve");
    let text = render_record(&original).unwrap();
    let input = chars(&format!("\n    \"a\": {},\n    \"b\": {}\n  }}", text, text));
    let (entries, end) = read_entries(&input, 0).unwrap();
    assert_eq!(entries.len(), 2);
    assert_eq!(entries[0].id, "a");
    assert_eq!(entries[1].id, "b");
    assert_eq!(entries[1].record, original);
    assert_eq!(end, input.len() - 4);
    assert_eq!(read_entries(&chars("}"), 0), Some((Vec::new(), 0)));
    assert_eq!(read_entries(&chars("\n    \"a\": {"), 0), None);
}
