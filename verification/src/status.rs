//! The line of text that tells the user where a patch stands.

use vstd::prelude::*;
use vstd::string::StringExecFns;
use crate::error::PatchError;
use crate::name::ValidationError;
use crate::patcher::PatchState;

verus! {

/// Shown while the patch runs.
pub const STATUS_PROCESSING: &'static str = "Processing...";

/// Shown once the external process was terminated.
pub const STATUS_CLOSED: &'static str = "Lunar Client closed. Patching...";

/// Shown when the store file was replaced.
pub const STATUS_SUCCESS: &'static str = "\u{2713} Successfully cracked!";

/// Stands before the reason when the process could not be terminated.
pub const PREFIX_PLAIN: &'static str = "Error: ";

/// Stands before the reason when the store could not be replaced.
pub const PREFIX_MARKED: &'static str = "\u{2715} Error: ";

/// The reason for an empty name.
pub const REASON_EMPTY: &'static str = "Nickname cannot be empty";

/// The reason for a name that is too short.
pub const REASON_SHORT: &'static str = "Nickname must be at least 3 characters";

/// The reason for a name that is too long.
pub const REASON_LONG: &'static str = "Nickname cannot be longer than 16 characters";

/// The reason for a name with a character that is not allowed.
pub const REASON_CHARACTERS: &'static str = "Only English letters, numbers and underscores";

/// The reason when the termination request could not be issued.
pub const REASON_TERMINATION: &'static str = "Error executing taskkill";

/// The reason when the directory holds no store file.
pub const REASON_NOT_FOUND: &'static str = "accounts.json not found in the specified path.";

/// The reason when the store could not be put into text.
pub const REASON_SERIALIZATION: &'static str = "Error serializing JSON";

/// The reason when the store file could not be written.
pub const REASON_WRITE: &'static str = "Error writing file";

/// The sentence that names the rule a display name broke.
pub open spec fn rule_text(rule: ValidationError) -> Seq<char> {
    match rule {
        ValidationError::Empty => REASON_EMPTY@,
        ValidationError::TooShort => REASON_SHORT@,
        ValidationError::TooLong => REASON_LONG@,
        ValidationError::InvalidCharacters => REASON_CHARACTERS@,
    }
}

/// The sentence that names the reason of a failure.
pub open spec fn reason_text(error: PatchError) -> Seq<char> {
    match error {
        PatchError::Validation(rule) => rule_text(rule),
        PatchError::ProcessTermination => REASON_TERMINATION@,
        PatchError::StoreNotFound => REASON_NOT_FOUND@,
        PatchError::Serialization => REASON_SERIALIZATION@,
        PatchError::Write => REASON_WRITE@,
    }
}

/// The status line of a patch in `state`: empty before it begins, a
/// progress line while it runs, and at its end the success line or the
/// reason of the failure. A broken rule is named as it is; the other
/// reasons follow a prefix.
pub open spec fn status_text(state: PatchState) -> Seq<char> {
    match state {
        PatchState::Idle => Seq::empty(),
        PatchState::Validating => STATUS_PROCESSING@,
        PatchState::ClosingExternalProcess => STATUS_PROCESSING@,
        PatchState::Synthesizing => STATUS_CLOSED@,
        PatchState::Writing => STATUS_PROCESSING@,
        PatchState::Succeeded => STATUS_SUCCESS@,
        PatchState::Failed(error) => match error {
            PatchError::Validation(rule) => rule_text(rule),
            PatchError::ProcessTermination => PREFIX_PLAIN@ + reason_text(error),
            _ => PREFIX_MARKED@ + reason_text(error),
        },
    }
}

/// The sentence that names the rule a display name broke.
pub fn rule_message(rule: ValidationError) -> (message: &'static str)
    ensures
        message@ == rule_text(rule),
{
    match rule {
        ValidationError::Empty => REASON_EMPTY,
        ValidationError::TooShort => REASON_SHORT,
        ValidationError::TooLong => REASON_LONG,
        ValidationError::InvalidCharacters => REASON_CHARACTERS,
    }
}

/// The sentence that names the reason of a failure.
pub fn reason_message(error: PatchError) -> (message: &'static str)
    ensures
        message@ == reason_text(error),
{
    match error {
        PatchError::Validation(rule) => rule_message(rule),
        PatchError::ProcessTermination => REASON_TERMINATION,
        PatchError::StoreNotFound => REASON_NOT_FOUND,
        PatchError::Serialization => REASON_SERIALIZATION,
        PatchError::Write => REASON_WRITE,
    }
}

/// The status line of a patch in `state`.
pub fn status_message(state: PatchState) -> (message: String)
    ensures
        message@ == status_text(state),
{
    match state {
        PatchState::Idle => String::new(),
        PatchState::Validating => String::from_str(STATUS_PROCESSING),
        PatchState::ClosingExternalProcess => String::from_str(STATUS_PROCESSING),
        PatchState::Synthesizing => String::from_str(STATUS_CLOSED),
        PatchState::Writing => String::from_str(STATUS_PROCESSING),
        PatchState::Succeeded => String::from_str(STATUS_SUCCESS),
        PatchState::Failed(error) => match error {
            PatchError::Validation(rule) => String::from_str(rule_message(rule)),
            PatchError::ProcessTermination => String::from_str(PREFIX_PLAIN).concat(
                reason_message(error),
            ),
            _ => String::from_str(PREFIX_MARKED).concat(reason_message(error)),
        },
    }
}

} // verus!
