//! Verified core of a microVM sandbox orchestrator: sandbox naming rules,
//! portal port allocation, configuration merging, JSON-RPC dispatch, and the
//! REPL end-of-execution marker protocol.

pub mod error;
pub mod cli;
pub mod compose;
pub mod config;
pub mod engines;
pub mod lifecycle;
pub mod names;
pub mod pathutil;
pub mod payload;
pub mod ports;
pub mod reactor;
pub mod repl;
pub mod rpc;
pub mod sdk;
pub mod strutil;
pub mod supervisor;

use vstd::prelude::*;

verus! {

/// Lowest host port handed out for sandbox portals.
pub const PORT_MIN: u16 = 6000;

/// Highest host port handed out for sandbox portals.
pub const PORT_MAX: u16 = 7000;

/// Fixed guest-side port on which every portal listens.
pub const PORTAL_GUEST_PORT: u16 = 4444;

} // verus!
