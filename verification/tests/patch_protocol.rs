use chrono::DateTime;
use lunar_patcher::clock::Timestamp;
use lunar_patcher::error::PatchError;
use lunar_patcher::name::ValidationError;
use lunar_patcher::patcher::{
    after_synthesis, decide_step, synthesize_store_text, Decision, PatchAction, PatchEvent,
    PatchState, Patcher, TerminationOutcome, SETTLE_DELAY_MS, STORE_FILE_NAME,
};
use lunar_patcher::status::{reason_message, rule_message, status_message};
use rand::rngs::StdRng;
use rand::SeedableRng;
use serde_json::Value;

fn now() -> Timestamp {
    Timestamp::new(1_700_000_000, 0).unwrap()
}

/// A directory that may hold a store file, and a process that may run.
struct World {
    file: Option<String>,
    outcome: TerminationOutcome,
    writable: bool,
    checks: usize,
    terminations: usize,
    settles: usize,
    writes: usize,
}

fn world(file: Option<&str>, outcome: TerminationOutcome) -> World {
    World {
        file: file.map(|text| text.to_string()),
        outcome,
        writable: true,
        checks: 0,
        terminations: 0,
        settles: 0,
        writes: 0,
    }
}

fn run(name: &str, world: &mut World, seed: u64) -> (PatchState, Vec<PatchAction>) {
    let mut rng = StdRng::seed_from_u64(seed);
    let mut patcher = Patcher::new(name.to_string());
    let mut event = PatchEvent::Requested;
    let mut actions = Vec::new();
    for _ in 0..16 {
        let action = patcher.handle(event, &mut rng, now());
        actions.push(action);
        event = match action {
            PatchAction::CheckStore => {
                world.checks += 1;
                PatchEvent::StoreChecked(world.file.is_some())
            }
            PatchAction::TerminateProcess => {
                world.terminations += 1;
                PatchEvent::TerminationTried(world.outcome)
            }
            PatchAction::Settle => {
                world.settles += 1;
                PatchEvent::Settled
            }
            PatchAction::WriteStore => {
                world.writes += 1;
                if world.writable {
                    world.file = Some(patcher.content.clone());
                }
                PatchEvent::Written(world.writable)
            }
            PatchAction::Report | PatchAction::Nothing => break,
        };
    }
    (patcher.state, actions)
}

#[test]
fn patch_replaces_an_existing_store() {
    let mut world = world(Some("anything at all"), TerminationOutcome::NotRunning);
    let (state, actions) = run("Steve", &mut world, 1);
    assert_eq!(state, PatchState::Succeeded);
    assert_eq!(
        actions,
        vec![
            PatchAction::CheckStore,
            PatchAction::TerminateProcess,
            PatchAction::WriteStore,
            PatchAction::Report
        ]
    );
    let parsed: Value = serde_json::from_str(world.file.as_ref().unwrap()).unwrap();
    let accounts = parsed["accounts"].as_object().unwrap();
    assert_eq!(accounts.len(), 1);
    let account = accounts.values().next().unwrap();
    assert_eq!(account["username"], "Steve");
    assert_eq!(account["minecraftProfile"]["name"], "Steve");
    assert_eq!(account["persistent"], true);
    assert_eq!(account["legacy"], false);
    assert!(account["userProperties"].is_null());
    let expires = DateTime::parse_from_rfc3339(account["accessTokenExpiresAt"].as_str().unwrap())
        .unwrap()
        .timestamp();
    assert!(now().secs + 600 <= expires && expires <= now().secs + 172_800);
    assert_eq!(world.settles, 0);
    assert_eq!(world.writes, 1);
}

#[test]
fn patch_without_a_store_fails_and_writes_nothing() {
    for name in ["Steve", "abc", "Player_1"] {
        let mut world = world(None, TerminationOutcome::Terminated);
        let (state, actions) = run(name, &mut world, 2);
        assert_eq!(state, PatchState::Failed(PatchError::StoreNotFound));
        assert_eq!(actions, vec![PatchAction::CheckStore, PatchAction::Report]);
        assert!(world.file.is_none());
        assert_eq!(world.terminations, 0);
        assert_eq!(world.writes, 0);
    }
}

#[test]
fn invalid_name_fails_before_any_side_effect() {
    let cases = [
        ("", ValidationError::Empty),
        ("ab", ValidationError::TooShort),
        ("abcdefghijklmnopq", ValidationError::TooLong),
        ("abc!", ValidationError::InvalidCharacters),
    ];
    for (name, rule) in cases {
        let mut world = world(Some("old"), TerminationOutcome::Terminated);
        let (state, actions) = run(name, &mut world, 3);
        assert_eq!(state, PatchState::Failed(PatchError::Validation(rule)));
        assert_eq!(actions, vec![PatchAction::Report]);
        assert_eq!(world.checks, 0);
        assert_eq!(world.terminations, 0);
        assert_eq!(world.file.as_deref(), Some("old"));
    }
}

#[test]
fn terminated_process_is_followed_by_the_settle_delay() {
    let mut world = world(Some("old"), TerminationOutcome::Terminated);
    let (state, actions) = run("Steve", &mut world, 4);
    assert_eq!(state, PatchState::Succeeded);
    assert_eq!(
        actions,
        vec![
            PatchAction::CheckStore,
            PatchAction::TerminateProcess,
            PatchAction::Settle,
            PatchAction::WriteStore,
            PatchAction::Report
        ]
    );
    assert_eq!(world.settles, 1);
    assert_eq!(SETTLE_DELAY_MS, 800);
}

#[test]
fn denied_termination_is_tolerated() {
    let mut world = world(Some("old"), TerminationOutcome::Denied);
    let (state, _) = run("Steve", &mut world, 5);
    assert_eq!(state, PatchState::Succeeded);
    assert_eq!(world.settles, 0);
    assert_ne!(world.file.as_deref(), Some("old"));
}

#[test]
fn failed_termination_request_ends_the_patch() {
    let mut world = world(Some("old"), TerminationOutcome::RequestFailed);
    let (state, actions) = run("Steve", &mut world, 6);
    assert_eq!(state, PatchState::Failed(PatchError::ProcessTermination));
    assert_eq!(actions.last(), Some(&PatchAction::Report));
    assert_eq!(world.writes, 0);
    assert_eq!(world.file.as_deref(), Some("old"));
}

#[test]
fn failed_write_ends_the_patch() {
    let mut world = world(Some("old"), TerminationOutcome::NotRunning);
    world.writable = false;
    let (state, _) = run("Steve", &mut world, 7);
    assert_eq!(state, PatchState::Failed(PatchError::Write));
    assert_eq!(world.file.as_deref(), Some("old"));
}

#[test]
fn events_out_of_place_change_nothing() {
    let states = [
        PatchState::Idle,
        PatchState::Validating,
        PatchState::ClosingExternalProcess,
        PatchState::Synthesizing,
        PatchState::Writing,
        PatchState::Succeeded,
        PatchState::Failed(PatchError::Write),
    ];
    let events = [
        PatchEvent::Requested,
        PatchEvent::StoreChecked(true),
        PatchEvent::TerminationTried(TerminationOutcome::Terminated),
        PatchEvent::Settled,
        PatchEvent::Written(true),
    ];
    for (i, state) in states.iter().enumerate() {
        for (j, event) in events.iter().enumerate() {
            let decision = decide_step(*state, "Steve", *event);
            if i < 5 && i == j {
                assert_ne!(decision, Decision::Move(*state, PatchAction::Nothing));
            } else {
                assert_eq!(decision, Decision::Move(*state, PatchAction::Nothing));
            }
        }
    }
}

#[test]
fn each_step_is_decided_as_the_protocol_says() {
    assert_eq!(
        decide_step(PatchState::Idle, "Steve", PatchEvent::Requested),
        Decision::Move(PatchState::Validating, PatchAction::CheckStore)
    );
    assert_eq!(
        decide_step(PatchState::Validating, "Steve", PatchEvent::StoreChecked(true)),
        Decision::Move(PatchState::ClosingExternalProcess, PatchAction::TerminateProcess)
    );
    assert_eq!(
        decide_step(
            PatchState::ClosingExternalProcess,
            "Steve",
            PatchEvent::TerminationTried(TerminationOutcome::Terminated)
        ),
        Decision::Move(PatchState::Synthesizing, PatchAction::Settle)
    );
    assert_eq!(
        decide_step(
            PatchState::ClosingExternalProcess,
            "Steve",
            PatchEvent::TerminationTried(TerminationOutcome::NotRunning)
        ),
        Decision::Synthesize
    );
    assert_eq!(decide_step(PatchState::Synthesizing, "Steve", PatchEvent::Settled), Decision::Synthesize);
    assert_eq!(
        decide_step(PatchState::Writing, "Steve", PatchEvent::Written(true)),
        Decision::Move(PatchState::Succeeded, PatchAction::Report)
    );
    assert_eq!(
        decide_step(PatchState::Writing, "Steve", PatchEvent::Written(false)),
        Decision::Move(PatchState::Failed(PatchError::Write), PatchAction::Report)
    );
}

#[test]
fn synthesis_leads_to_writing_or_to_its_error() {
    assert_eq!(
        after_synthesis(&Ok("text".to_string())),
        (PatchState::Writing, PatchAction::WriteStore)
    );
    assert_eq!(
        after_synthesis(&Err(PatchError::Serialization)),
        (PatchState::Failed(PatchError::Serialization), PatchAction::Report)
    );
}

#[test]
fn synthesized_text_is_a_store_for_the_name() {
    let mut rng = StdRng::seed_from_u64(12);
    let text = synthesize_store_text("Player_1", &mut rng, now()).unwrap();
    let parsed: Value = serde_json::from_str(&text).unwrap();
    let key = parsed["activeAccountLocalId"].as_str().unwrap();
    assert_eq!(parsed["accounts"][key]["username"], "Player_1");
    assert!(text.starts_with("{\n  \"activeAccountLocalId\": \""));
    assert!(text.ends_with("\n    }\n  }\n}"));
}

#[test]
fn new_patcher_is_idle_and_empty() {
    let patcher = Patcher::new("Steve".to_string());
    assert_eq!(patcher.state, PatchState::Idle);
    assert_eq!(patcher.name, "Steve");
    assert_eq!(patcher.content, "");
    assert_eq!(STORE_FILE_NAME, "accounts.json");
}

#[test]
fn status_lines_follow_the_state() {
    assert_eq!(status_message(PatchState::Idle), "");
    assert_eq!(status_message(PatchState::Validating), "Processing...");
    assert_eq!(status_message(PatchState::ClosingExternalProcess), "Processing...");
    assert_eq!(status_message(PatchState::Synthesizing), "Lunar Client closed. Patching...");
    assert_eq!(status_message(PatchState::Writing), "Processing...");
    assert_eq!(status_message(PatchState::Succeeded), "\u{2713} Successfully cracked!");
    assert_eq!(
        status_message(PatchState::Failed(PatchError::Validation(ValidationError::TooShort))),
        "Nickname must be at least 3 characters"
    );
    assert_eq!(
        status_message(PatchState::Failed(PatchError::ProcessTermination)),
        "Error: Error executing taskkill"
    );
    assert_eq!(
        status_message(PatchState::Failed(PatchError::StoreNotFound)),
        "\u{2715} Error: accounts.json not found in the specified path."
    );
    assert_eq!(
        status_message(PatchState::Failed(PatchError::Serialization)),
        "\u{2715} Error: Error serializing JSON"
    );
    assert_eq!(status_message(PatchState::Failed(PatchError::Write)), "\u{2715} Error: Error writing file");
}

#[test]
fn reasons_name_each_error() {
    assert_eq!(rule_message(ValidationError::Empty), "Nickname cannot be empty");
    assert_eq!(rule_message(ValidationError::TooLong), "Nickname cannot be longer than 16 characters");
    assert_eq!(
        rule_message(ValidationError::InvalidCharacters),
        "Only English letters, numbers and underscores"
    );
    assert_eq!(
        reason_message(PatchError::Validation(ValidationError::Empty)),
        "Nickname cannot be empty"
    );
    assert_eq!(reason_message(PatchError::Write), "Error writing file");
}

#[test]
fn needless_or_denied_termination_ends_in_success_with_one_account() {
    for outcome in [TerminationOutcome::NotRunning, TerminationOutcome::Denied] {
        for name in ["Steve", "abc", "abcdefghijklmnop"] {
            let mut world = world(Some("not even JSON"), outcome);
            let (state, actions) = run(name, &mut world, 9);
            assert_eq!(state, PatchState::Succeeded);
            assert!(!actions.contains(&PatchAction::Settle));
            assert_eq!(world.writes, 1);
            let parsed: Value = serde_json::from_str(world.file.as_ref().unwrap()).unwrap();
            let accounts = parsed["accounts"].as_object().unwrap();
            assert_eq!(accounts.len(), 1);
            assert_eq!(accounts.values().next().unwrap()["username"], name);
        }
    }
}

#[test]
fn building_the_store_always_leads_to_the_write() {
    for seed in 0..20u64 {
        let mut rng = StdRng::seed_from_u64(seed);
        let mut patcher = Patcher::new("Player_1".to_string());
        assert_eq!(patcher.handle(PatchEvent::Requested, &mut rng, now()), PatchAction::CheckStore);
        assert_eq!(
            patcher.handle(PatchEvent::StoreChecked(true), &mut rng, now()),
            PatchAction::TerminateProcess
        );
        assert_eq!(
            patcher.handle(PatchEvent::TerminationTried(TerminationOutcome::Terminated), &mut rng, now()),
            PatchAction::Settle
        );
        assert_eq!(patcher.handle(PatchEvent::Settled, &mut rng, now()), PatchAction::WriteStore);
        assert_eq!(patcher.state, PatchState::Writing);
        assert!(synthesize_store_text("Player_1", &mut rng, now()).is_ok());
        assert!(!patcher.content.is_empty());
    }
}
