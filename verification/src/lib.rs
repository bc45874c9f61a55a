//! Verified domain rules of the Muxlane WSL runtime control plane: the launch
//! transaction state machine, identifier and path validation, credential and
//! recovery decisions, durable storage access, and the terminal gateway's
//! framing rules.

pub mod text;
pub mod model;
pub mod error;
pub mod paths;
pub mod layout;
pub mod protocol;
pub mod gateway;
pub mod rows;
pub mod storage;
pub mod credential;
pub mod recovery;
pub mod incident;
pub mod digest;
pub mod process;
pub mod terminal;
pub mod workbench;
pub mod terminal_data;
pub mod daemon;
pub mod bridge;
pub mod desktop;
pub mod workspace;
pub mod diagnostics;
pub mod session;
pub mod usage;
pub mod order;
pub mod client;
pub mod json;

use vstd::prelude::*;

verus! {

/// Stable package identifier for build and integration checks.
pub const CRATE_IDENTIFIER: &'static str = "muxlane-core";

/// Package version.
pub const VERSION: &'static str = "0.1.0";

} // verus!
