//! Verified core of a browser-automation backend: the wire-protocol model and
//! codec, the session and pending-action registries, the tool bridge's
//! decision logic, and the agent orchestrator's prompt construction.

pub mod agent;
pub mod bridge;
pub mod codec;
pub mod dec;
pub mod ids;
pub mod jtext;
pub mod model;
pub mod registry;
pub mod streaming;
pub mod wire;
pub mod ws;
pub mod text;
pub mod tools;

use vstd::prelude::*;

verus! {

/// Seconds a tool round-trip may wait for its reply before it fails.
pub const TOOL_TIMEOUT_SECS: u64 = 30;

} // verus!
