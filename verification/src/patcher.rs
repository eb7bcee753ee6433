//! The protocol of a patch: which step follows which, what the driver is
//! asked to do, and what is written.
//!
//! The driver owns the file system and the process table. It starts with
//! [`PatchEvent::Requested`], performs each [`PatchAction`] it is handed,
//! and reports the result as the next event, until it is handed
//! [`PatchAction::Report`].

use rand::rngs::StdRng;
use vstd::prelude::*;
use crate::clock::Timestamp;
use crate::error::PatchError;
use crate::name::{is_valid_name, name_verdict, validate_display_name};
use crate::account::{is_built_from, lemma_fresh_record_fields, AccountSeeds};
use crate::store::{generate_store, is_fresh_store, render_store, store_text, CredentialStoreView};
use crate::store_reader::{lemma_store_round_trip, parse_store};
use crate::token::EncodedToken;

verus! {

/// The name of the store file inside the configured directory.
pub const STORE_FILE_NAME: &'static str = "accounts.json";

/// The executable of the external process that owns the store.
pub const EXTERNAL_PROCESS_NAME: &'static str = "Lunar Client.exe";

/// How long the driver waits after the external process was terminated,
/// in milliseconds, so that the process lets go of the file.
pub const SETTLE_DELAY_MS: u64 = 800;

/// Where a patch stands.
#[derive(Clone, Copy, Debug, PartialEq, Eq, Structural)]
pub enum PatchState {
    /// Nothing was asked for yet.
    Idle,
    /// The name passed; the presence of the store file is being checked.
    Validating,
    /// The external process is being terminated.
    ClosingExternalProcess,
    /// The external process was terminated; the record is built once the
    /// settle delay is over.
    Synthesizing,
    /// The store text is being written.
    Writing,
    /// The store file was replaced.
    Succeeded,
    /// The patch ended without replacing the store file.
    Failed(PatchError),
}

/// What became of the attempt to terminate the external process.
#[derive(Clone, Copy, Debug, PartialEq, Eq, Structural)]
pub enum TerminationOutcome {
    /// The process was found and terminated.
    Terminated,
    /// No such process was running.
    NotRunning,
    /// The process was found, and the termination was denied or failed.
    Denied,
    /// The request to terminate could not be issued at all.
    RequestFailed,
}

/// What the driver reports.
#[derive(Clone, Copy, Debug, PartialEq, Eq, Structural)]
pub enum PatchEvent {
    /// The caller asks for the patch.
    Requested,
    /// Whether the store file is present in the directory.
    StoreChecked(bool),
    /// What became of the attempt to terminate the external process.
    TerminationTried(TerminationOutcome),
    /// The settle delay is over.
    Settled,
    /// Whether the store file was written.
    Written(bool),
}

/// What the driver is asked to do next.
#[derive(Clone, Copy, Debug, PartialEq, Eq, Structural)]
pub enum PatchAction {
    /// Look whether the store file is present.
    CheckStore,
    /// Terminate the external process.
    TerminateProcess,
    /// Wait for the settle delay.
    Settle,
    /// Replace the store file by the patcher's content.
    WriteStore,
    /// The patch has ended: present the state to the user.
    Report,
    /// The event does not belong to the state: do nothing.
    Nothing,
}

/// What follows an event: a step that is fixed by state and event, or the
/// building of the store, whose result decides.
#[derive(Clone, Copy, Debug, PartialEq, Eq, Structural)]
pub enum Decision {
    /// The next state and the action that goes with it.
    Move(PatchState, PatchAction),
    /// The store is built and put into text now.
    Synthesize,
}

/// Whether a patch in `state` has ended.
pub open spec fn is_terminal(state: PatchState) -> bool {
    state is Succeeded || state is Failed
}

/// What follows `event` in `state`, for the display name `name`.
pub open spec fn decide(state: PatchState, name: Seq<char>, event: PatchEvent) -> Decision {
    match (state, event) {
        (PatchState::Idle, PatchEvent::Requested) => match name_verdict(name) {
            Ok(_) => Decision::Move(PatchState::Validating, PatchAction::CheckStore),
            Err(rule) => Decision::Move(
                PatchState::Failed(PatchError::Validation(rule)),
                PatchAction::Report,
            ),
        },
        (PatchState::Validating, PatchEvent::StoreChecked(present)) => if present {
            Decision::Move(PatchState::ClosingExternalProcess, PatchAction::TerminateProcess)
        } else {
            Decision::Move(PatchState::Failed(PatchError::StoreNotFound), PatchAction::Report)
        },
        (PatchState::ClosingExternalProcess, PatchEvent::TerminationTried(outcome)) => match outcome {
            TerminationOutcome::Terminated => Decision::Move(
                PatchState::Synthesizing,
                PatchAction::Settle,
            ),
            TerminationOutcome::NotRunning => Decision::Synthesize,
            TerminationOutcome::Denied => Decision::Synthesize,
            TerminationOutcome::RequestFailed => Decision::Move(
                PatchState::Failed(PatchError::ProcessTermination),
                PatchAction::Report,
            ),
        },
        (PatchState::Synthesizing, PatchEvent::Settled) => Decision::Synthesize,
        (PatchState::Writing, PatchEvent::Written(done)) => if done {
            Decision::Move(PatchState::Succeeded, PatchAction::Report)
        } else {
            Decision::Move(PatchState::Failed(PatchError::Write), PatchAction::Report)
        },
        _ => Decision::Move(state, PatchAction::Nothing),
    }
}

/// Executable form of [`decide`].
pub fn decide_step(state: PatchState, name: &str, event: PatchEvent) -> (decision: Decision)
    ensures
        decision == decide(state, name@, event),
{
    match (state, event) {
        (PatchState::Idle, PatchEvent::Requested) => match validate_display_name(name) {
            Ok(_) => Decision::Move(PatchState::Validating, PatchAction::CheckStore),
            Err(rule) => Decision::Move(
                PatchState::Failed(PatchError::Validation(rule)),
                PatchAction::Report,
            ),
        },
        (PatchState::Validating, PatchEvent::StoreChecked(present)) => if present {
            Decision::Move(PatchState::ClosingExternalProcess, PatchAction::TerminateProcess)
        } else {
            Decision::Move(PatchState::Failed(PatchError::StoreNotFound), PatchAction::Report)
        },
        (PatchState::ClosingExternalProcess, PatchEvent::TerminationTried(outcome)) => match outcome {
            TerminationOutcome::Terminated => Decision::Move(
                PatchState::Synthesizing,
                PatchAction::Settle,
            ),
            TerminationOutcome::NotRunning => Decision::Synthesize,
            TerminationOutcome::Denied => Decision::Synthesize,
            TerminationOutcome::RequestFailed => Decision::Move(
                PatchState::Failed(PatchError::ProcessTermination),
                PatchAction::Report,
            ),
        },
        (PatchState::Synthesizing, PatchEvent::Settled) => Decision::Synthesize,
        (PatchState::Writing, PatchEvent::Written(done)) => if done {
            Decision::Move(PatchState::Succeeded, PatchAction::Report)
        } else {
            Decision::Move(PatchState::Failed(PatchError::Write), PatchAction::Report)
        },
        _ => Decision::Move(state, PatchAction::Nothing),
    }
}

/// Whether `text` is the text of a store that holds one fresh record for
/// `name` made at `now`.
pub open spec fn is_fresh_store_text(text: Seq<char>, name: Seq<char>, now: Timestamp) -> bool {
    exists|store: CredentialStoreView| #[trigger]
        is_fresh_store(store, name, now) && text == store_text(store)
}

/// The state and the action that follow the building of the store: the
/// text is written, or the patch fails with the error of the rendering.
pub fn after_synthesis(rendered: &Result<String, PatchError>) -> (step: (PatchState, PatchAction))
    ensures
        rendered is Ok ==> step == (PatchState::Writing, PatchAction::WriteStore),
        rendered is Err ==> step == (PatchState::Failed(rendered->Err_0), PatchAction::Report),
{
    match rendered {
        Ok(_) => (PatchState::Writing, PatchAction::WriteStore),
        Err(error) => (PatchState::Failed(*error), PatchAction::Report),
    }
}

/// Builds the store for `display_name` and puts it into text. This
/// always succeeds.
pub fn synthesize_store_text(display_name: &str, rng: &mut StdRng, now: Timestamp) -> (rendered:
    Result<String, PatchError>)
    requires
        now.wf(),
    ensures
        rendered is Ok,
        is_fresh_store_text(rendered->Ok_0@, display_name@, now),
{
    let store = generate_store(display_name, rng, now);
    let rendered = render_store(&store);
    proof {
        if rendered is Ok {
            assert(is_fresh_store(store@, display_name@, now) && rendered->Ok_0@ == store_text(
                store@,
            ));
        }
    }
    rendered
}

/// One patch: the display name it is for, where it stands, and the text
/// to be written once there is one.
#[derive(Debug)]
pub struct Patcher {
    /// Where the patch stands.
    pub state: PatchState,
    /// The display name, as the caller gave it.
    pub name: String,
    /// The text of the store; empty until the store was built.
    pub content: String,
}

impl Patcher {
    /// The state agrees with the name: a patch that failed at a rule holds
    /// a name that breaks that rule first, and a patch that got further,
    /// or failed for another reason, holds a valid name.
    pub open spec fn wf(&self) -> bool {
        match self.state {
            PatchState::Idle => true,
            PatchState::Failed(PatchError::Validation(rule)) => name_verdict(self.name@) == Err::<
                (),
                _,
            >(rule),
            _ => is_valid_name(self.name@),
        }
    }

    /// A patch for `name` that has not begun.
    pub fn new(name: String) -> (patcher: Patcher)
        ensures
            patcher.state == PatchState::Idle,
            patcher.name@ == name@,
            patcher.content@ == Seq::<char>::empty(),
            patcher.wf(),
    {
        Patcher { state: PatchState::Idle, name, content: String::new() }
    }

    /// Takes one event from the driver and says what to do next.
    ///
    /// Where state and event fix the step, that step is taken and the
    /// content stays. Where the store is to be built, its text becomes the
    /// content and is to be written.
    pub fn handle(&mut self, event: PatchEvent, rng: &mut StdRng, now: Timestamp) -> (action:
        PatchAction)
        requires
            now.wf(),
            old(self).wf(),
        ensures
            final(self).wf(),
            final(self).name@ == old(self).name@,
            match decide(old(self).state, old(self).name@, event) {
                Decision::Move(state, planned) => {
                    &&& final(self).state == state
                    &&& action == planned
                    &&& final(self).content@ == old(self).content@
                },
                Decision::Synthesize => {
                    &&& final(self).state == PatchState::Writing
                    &&& action == PatchAction::WriteStore
                    &&& is_fresh_store_text(final(self).content@, old(self).name@, now)
                },
            },
    {
        match decide_step(self.state, self.name.as_str(), event) {
            Decision::Move(state, planned) => {
                self.state = state;
                planned
            },
            Decision::Synthesize => {
                let rendered = synthesize_store_text(self.name.as_str(), rng, now);
                let (state, planned) = after_synthesis(&rendered);
                self.state = state;
                match rendered {
                    Ok(text) => {
                        self.content = text;
                    },
                    Err(_) => {},
                }
                planned
            },
        }
    }
}

/// Once a patch has ended, no event moves it or asks for anything.
pub proof fn lemma_terminal_states_absorb(state: PatchState, name: Seq<char>, event: PatchEvent)
    requires
        is_terminal(state),
    ensures
        decide(state, name, event) == Decision::Move(state, PatchAction::Nothing),
{
}

/// A name that breaks a rule ends the patch at the request, with that
/// rule as the reason, before anything is asked of the driver.
pub proof fn lemma_invalid_name_ends_at_request(name: Seq<char>)
    requires
        name_verdict(name) is Err,
    ensures
        decide(PatchState::Idle, name, PatchEvent::Requested) == Decision::Move(
            PatchState::Failed(PatchError::Validation(name_verdict(name)->Err_0)),
            PatchAction::Report,
        ),
{
}

/// No step that state and event fix asks for the store to be written: the
/// write is asked for only when the store was built, and the process is
/// terminated only after the store file was found.
pub proof fn lemma_side_effects_in_order(state: PatchState, name: Seq<char>, event: PatchEvent)
    ensures
        decide(state, name, event) matches Decision::Move(_, action) ==> action
            != PatchAction::WriteStore,
        decide(state, name, event) matches Decision::Move(_, action) && action
            == PatchAction::TerminateProcess ==> state == PatchState::Validating && event
            == PatchEvent::StoreChecked(true),
        decide(state, name, event) matches Decision::Move(_, action) && action
            == PatchAction::CheckStore ==> state == PatchState::Idle && name_verdict(name) is Ok,
        decide(state, name, event) is Synthesize ==> state == PatchState::ClosingExternalProcess
            || state == PatchState::Synthesizing,
{
}

/// The text that a patch for `name` writes reads back as a store with a
/// single account under the active key, whose user and profile carry
/// `name`, and which is persistent and not of the legacy kind.
pub proof fn lemma_written_store_reads_back(text: Seq<char>, name: Seq<char>, now: Timestamp)
    requires
        is_fresh_store_text(text, name, now),
    ensures
        parse_store(text) is Some,
        is_fresh_store(parse_store(text)->0, name, now),
        parse_store(text)->0.accounts.len() == 1,
        parse_store(text)->0.active_account_id == parse_store(text)->0.accounts[0].0,
        parse_store(text)->0.accounts[0].1.username == name,
        parse_store(text)->0.accounts[0].1.profile.name == name,
        parse_store(text)->0.accounts[0].1.persistent,
        !parse_store(text)->0.accounts[0].1.legacy,
{
    let store = choose|store: CredentialStoreView| #[trigger]
        is_fresh_store(store, name, now) && text == store_text(store);
    lemma_store_round_trip(store);
    lemma_fresh_record_fields(store.accounts[0].1, name, now);
    let record = store.accounts[0].1;
    let (seeds, token) = choose|seeds: AccountSeeds, token: EncodedToken|
        #[trigger] is_built_from(record, name, now, seeds, token);
}

} // verus!
