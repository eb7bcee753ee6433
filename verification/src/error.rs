//! Why a patch failed.

use vstd::prelude::*;
use crate::name::ValidationError;

verus! {

/// The reason of a failed patch.
#[derive(Clone, Copy, Debug, PartialEq, Eq, Structural)]
pub enum PatchError {
    /// The display name broke a rule.
    Validation(ValidationError),
    /// The request to terminate the external process could not be issued.
    ProcessTermination,
    /// The directory holds no store file.
    StoreNotFound,
    /// The store could not be put into text.
    Serialization,
    /// The store file could not be written.
    Write,
}

} // verus!
