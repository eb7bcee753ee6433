use lunar_patcher::account::{
    build_record, compose_record, draw_refresh_token, draw_seeds, AccountRecord, AccountSeeds,
    Profile, REFRESH_ALPHABET,
};
use lunar_patcher::clock::Timestamp;
use lunar_patcher::store::{generate_store, render_record, render_store, AccountEntry, CredentialStore};
use rand::rngs::StdRng;
use rand::SeedableRng;
use serde_json::Value;

fn sample_record(id: &str, name: &str) -> AccountRecord {
    AccountRecord {
        access_token: "a.b.c".to_string(),
        access_token_expires_at: "2023-11-14T22:23:20+00:00".to_string(),
        eligible_for_migration: false,
        has_multiple_profiles: false,
        legacy: false,
        persistent: true,
        local_id: id.to_string(),
        refresh_token: "r!*-_.".to_string(),
        profile: Profile { id: "00ff".to_string(), name: name.to_string() },
        remote_id: "1234567890123456".to_string(),
        account_type: "Xbox".to_string(),
        username: name.to_string(),
        user_properties: None,
    }
}

const SAMPLE_TEXT: &str = "{
  \"activeAccountLocalId\": \"abc\",
  \"accounts\": {
    \"abc\": {
      \"accessToken\": \"a.b.c\",
      \"accessTokenExpiresAt\": \"2023-11-14T22:23:20+00:00\",
      \"eligibleForMigration\": false,
      \"hasMultipleProfiles\": false,
      \"legacy\": false,
      \"persistent\": true,
      \"localId\": \"abc\",
      \"refreshToken\": \"r!*-_.\",
      \"minecraftProfile\": {
        \"id\": \"00ff\",
        \"name\": \"Steve\"
      },
      \"remoteId\": \"1234567890123456\",
      \"type\": \"Xbox\",
      \"username\": \"Steve\",
      \"userProperties\": null
    }
  }
}";

#[test]
fn store_text_is_indented_by_two_spaces() {
    let store = CredentialStore::single("abc".to_string(), sample_record("abc", "Steve"));
    assert_eq!(render_store(&store), Ok(SAMPLE_TEXT.to_string()));
}

#[test]
fn record_text_is_the_inner_object() {
    let text = render_record(&sample_record("abc", "Steve")).unwrap();
    assert!(text.starts_with("{\n      \"accessToken\": \"a.b.c\",\n"));
    assert!(text.ends_with("\"userProperties\": null\n    }"));
    assert!(SAMPLE_TEXT.contains(&text));
}

#[test]
fn store_without_accounts_has_an_empty_object() {
    let store = CredentialStore { active_account_id: "x".to_string(), accounts: Vec::new() };
    let text = render_store(&store).unwrap();
    assert_eq!(text, "{\n  \"activeAccountLocalId\": \"x\",\n  \"accounts\": {}\n}");
    let parsed: Value = serde_json::from_str(&text).unwrap();
    assert_eq!(parsed["accounts"].as_object().unwrap().len(), 0);
}

#[test]
fn several_accounts_are_separated_by_commas() {
    let store = CredentialStore {
        active_account_id: "two".to_string(),
        accounts: vec![
            AccountEntry { id: "one".to_string(), record: sample_record("one", "Alex") },
            AccountEntry { id: "two".to_string(), record: sample_record("two", "Steve") },
            AccountEntry { id: "three".to_string(), record: sample_record("three", "Kai") },
        ],
    };
    let text = render_store(&store).unwrap();
    assert!(text.contains("\n    },\n    \"two\": {\n"));
    let parsed: Value = serde_json::from_str(&text).unwrap();
    let accounts = parsed["accounts"].as_object().unwrap();
    assert_eq!(accounts.len(), 3);
    assert_eq!(accounts["one"]["username"], "Alex");
    assert_eq!(accounts["two"]["username"], "Steve");
    assert_eq!(accounts["three"]["minecraftProfile"]["name"], "Kai");
    assert_eq!(parsed["activeAccountLocalId"], "two");
}

#[test]
fn text_parses_back_to_every_field() {
    let mut record = sample_record("k\"1", "Na\\me\n");
    record.user_properties = Some("opaque \u{1} text".to_string());
    record.legacy = true;
    record.persistent = false;
    let store = CredentialStore::single("k\"1".to_string(), record.clone());
    let parsed: Value = serde_json::from_str(&render_store(&store).unwrap()).unwrap();
    assert_eq!(parsed.as_object().unwrap().len(), 2);
    assert_eq!(parsed["activeAccountLocalId"], "k\"1");
    let accounts = parsed["accounts"].as_object().unwrap();
    assert_eq!(accounts.len(), 1);
    let account = accounts["k\"1"].as_object().unwrap();
    assert_eq!(account.len(), 13);
    assert_eq!(account["accessToken"], record.access_token.as_str());
    assert_eq!(account["accessTokenExpiresAt"], record.access_token_expires_at.as_str());
    assert_eq!(account["eligibleForMigration"], false);
    assert_eq!(account["hasMultipleProfiles"], false);
    assert_eq!(account["legacy"], true);
    assert_eq!(account["persistent"], false);
    assert_eq!(account["localId"], "k\"1");
    assert_eq!(account["refreshToken"], record.refresh_token.as_str());
    assert_eq!(account["minecraftProfile"].as_object().unwrap().len(), 2);
    assert_eq!(account["minecraftProfile"]["id"], "00ff");
    assert_eq!(account["minecraftProfile"]["name"], "Na\\me\n");
    assert_eq!(account["remoteId"], "1234567890123456");
    assert_eq!(account["type"], "Xbox");
    assert_eq!(account["username"], "Na\\me\n");
    assert_eq!(account["userProperties"], "opaque \u{1} text");
}

#[test]
fn composed_record_holds_the_fixed_values() {
    let seeds = AccountSeeds {
        local_id: 0xabc,
        profile_id: u128::MAX,
        remote_id: 1_000_000_000_000_000,
        refresh_token: "refresh".to_string(),
    };
    let (key, record) = compose_record("Steve", &seeds, "h.p.s", "2024-01-01T00:00:00+00:00");
    assert_eq!(key, "00000000000000000000000000000abc");
    assert_eq!(record.local_id, key);
    assert_eq!(record.profile.id, "ffffffffffffffffffffffffffffffff");
    assert_eq!(record.profile.name, "Steve");
    assert_eq!(record.username, "Steve");
    assert_eq!(record.remote_id, "1000000000000000");
    assert_eq!(record.refresh_token, "refresh");
    assert_eq!(record.access_token, "h.p.s");
    assert_eq!(record.access_token_expires_at, "2024-01-01T00:00:00+00:00");
    assert_eq!(record.account_type, "Xbox");
    assert!(!record.eligible_for_migration);
    assert!(!record.has_multiple_profiles);
    assert!(!record.legacy);
    assert!(record.persistent);
    assert!(record.user_properties.is_none());
}

#[test]
fn built_record_carries_the_name_twice() {
    for name in ["abc", "Player_1", "abcdefghijklmnop", "___", "Steve"] {
        let mut rng = StdRng::seed_from_u64(21);
        let now = Timestamp::new(1_700_000_000, 0).unwrap();
        let (key, record) = build_record(name, &mut rng, now);
        assert_eq!(record.username, name);
        assert_eq!(record.profile.name, name);
        assert_eq!(record.local_id, key);
    }
}

#[test]
fn built_record_has_ids_of_the_right_shape() {
    let mut rng = StdRng::seed_from_u64(4);
    let now = Timestamp::new(1_700_000_000, 0).unwrap();
    let (key, record) = build_record("Steve", &mut rng, now);
    assert_eq!(key.len(), 32);
    assert!(key.chars().all(|c| c.is_ascii_hexdigit() && !c.is_ascii_uppercase()));
    assert_eq!(record.profile.id.len(), 32);
    assert!(record.profile.id.chars().all(|c| c.is_ascii_hexdigit() && !c.is_ascii_uppercase()));
    assert_ne!(record.profile.id, key);
    assert_eq!(record.remote_id.len(), 16);
    assert!(record.remote_id.chars().all(|c| c.is_ascii_digit()));
    assert_eq!(record.refresh_token.chars().count(), 380);
    assert!(record.refresh_token.chars().all(|c| REFRESH_ALPHABET.contains(c)));
    assert_eq!(record.access_token.split('.').count(), 3);
    assert_eq!(record.account_type, "Xbox");
    assert!(record.persistent);
    assert!(!record.legacy);
    assert!(!record.eligible_for_migration);
    assert!(!record.has_multiple_profiles);
    assert!(record.user_properties.is_none());
}

#[test]
fn refresh_token_has_380_characters_of_the_alphabet() {
    let mut rng = StdRng::seed_from_u64(30);
    let token = draw_refresh_token(&mut rng);
    assert_eq!(token.chars().count(), 380);
    assert!(token.chars().all(|c| REFRESH_ALPHABET.contains(c)));
    assert_eq!(REFRESH_ALPHABET.chars().count(), 67);
    let first = token.chars().next().unwrap();
    assert!(token.chars().any(|c| c != first));
    assert_ne!(draw_refresh_token(&mut rng), token);
}

#[test]
fn seeds_lie_in_their_ranges() {
    let mut rng = StdRng::seed_from_u64(17);
    let seeds = draw_seeds(&mut rng);
    assert!(1_000_000_000_000_000 <= seeds.remote_id && seeds.remote_id <= 9_999_999_999_999_999);
    assert_eq!(seeds.refresh_token.chars().count(), 380);
    assert_ne!(seeds.local_id, seeds.profile_id);
    let again = draw_seeds(&mut rng);
    assert_ne!(seeds.local_id, again.local_id);
}

#[test]
fn generated_store_has_one_account_under_the_active_key() {
    for seed in 0..10u64 {
        let mut rng = StdRng::seed_from_u64(seed);
        let now = Timestamp::new(1_700_000_000, 0).unwrap();
        let store = generate_store("Player_1", &mut rng, now);
        assert_eq!(store.accounts.len(), 1);
        assert_eq!(store.active_account_id, store.accounts[0].id);
        assert_eq!(store.accounts[0].record.local_id, store.accounts[0].id);
        let parsed: Value = serde_json::from_str(&render_store(&store).unwrap()).unwrap();
        let accounts = parsed["accounts"].as_object().unwrap();
        assert_eq!(accounts.len(), 1);
        let key = accounts.keys().next().unwrap();
        assert_eq!(parsed["activeAccountLocalId"], key.as_str());
        assert_eq!(accounts[key]["localId"], key.as_str());
        assert_eq!(accounts[key]["username"], "Player_1");
    }
}

#[test]
fn well_formed_stores_have_unique_keys_and_a_present_active_key() {
    let single = CredentialStore::single("abc".to_string(), sample_record("abc", "Steve"));
    assert!(single.is_well_formed());
    let entry = |id: &str| AccountEntry { id: id.to_string(), record: sample_record(id, "Alex") };
    let several = CredentialStore {
        active_account_id: "c".to_string(),
        accounts: vec![entry("a"), entry("b"), entry("c")],
    };
    assert!(several.is_well_formed());
    let absent = CredentialStore {
        active_account_id: "d".to_string(),
        accounts: vec![entry("a"), entry("b"), entry("c")],
    };
    assert!(!absent.is_well_formed());
    let twice = CredentialStore {
        active_account_id: "a".to_string(),
        accounts: vec![entry("a"), entry("b"), entry("a")],
    };
    assert!(!twice.is_well_formed());
    let adjacent = CredentialStore {
        active_account_id: "a".to_string(),
        accounts: vec![entry("a"), entry("b"), entry("b")],
    };
    assert!(!adjacent.is_well_formed());
    let empty = CredentialStore { active_account_id: "a".to_string(), accounts: Vec::new() };
    assert!(!empty.is_well_formed());
    let mut rng = StdRng::seed_from_u64(2);
    let generated = generate_store("Steve", &mut rng, Timestamp::new(1_700_000_000, 0).unwrap());
    assert!(generated.is_well_formed());
}
