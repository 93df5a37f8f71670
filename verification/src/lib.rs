//! Core engine of a local daemon that tracks the live status of multiple
//! concurrently running assistant coding sessions ("plates"): a pure status
//! state machine, staleness policies, the persistent session store with its
//! reconciliation semantics, the event-ingestion and recovery-scan logic, and
//! the state model of the dashboard that displays it all.

use vstd::prelude::*;

pub mod config;
pub mod ingest;
pub mod models;
pub mod payload;
pub mod reconcile;
pub mod recovery;
pub mod state_machine;
pub mod store;
pub mod text;
pub mod transcript;
pub mod tui;
pub mod ui;

verus! {

/// Version string reported by the daemon's health endpoint; the launcher
/// restarts a daemon whose reported version differs from its own.
pub open spec fn spec_build_version() -> Seq<char> {
    "0.1.0"@
}

pub fn build_version() -> (v: String)
    ensures
        v@ == spec_build_version(),
{
    String::from_str("0.1.0")
}

/// A running daemon must be replaced whenever its version differs from the
/// version of the binary that probes it, or when it reports no version at all.
pub fn needs_restart(daemon_version: Option<&str>, my_version: &str) -> (r: bool)
    ensures
        r == match daemon_version {
            Some(v) => v@ != my_version@,
            None => true,
        },
{
    match daemon_version {
        Some(v) => !text::str_eq(v, my_version),
        None => true,
    }
}

} // verus!
