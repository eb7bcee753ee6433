//! Synthesis of account records for a launcher's credential store, and the
//! protocol by which the store file is replaced.
//!
//! The library computes; it never touches the file system or the process
//! table. A driver performs the actions that [`patcher::Patcher`] asks for and
//! reports what happened.
//!
//! - [`name`]: the rules a display name must satisfy.
//! - [`token`], [`payload`], [`encoding`]: the three-segment token, the
//!   claims in its payload, and the encoding of its segments.
//! - [`account`], [`store`]: account records, the store that holds them,
//!   and the text of the store file.
//! - [`store_reader`], [`reader`], [`numbers`], [`canonical`]: reading
//!   back what was written, with the proofs that nothing is lost on the
//!   way and that nothing else is read.
//! - [`patcher`], [`status`], [`error`]: the steps of a patch, the status
//!   line, and the reasons of a failure.
//! - [`random`], [`clock`], [`json`], [`text`]: the draws, the instants and
//!   the text forms the rest is built on.

pub mod account;
pub mod canonical;
pub mod clock;
pub mod encoding;
pub mod error;
pub mod json;
pub mod name;
pub mod numbers;
pub mod patcher;
pub mod payload;
pub mod random;
pub mod reader;
pub mod status;
pub mod store;
pub mod store_reader;
pub mod text;
pub mod token;
