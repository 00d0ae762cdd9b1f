//! Shared health flag and the serving status it implies.
use vstd::prelude::*;
use std::sync::atomic::AtomicBool;

verus! {

/// The value an atomic flag was created holding. Later stores to the flag
/// are not tracked by this name.
pub uninterp spec fn atomic_bool_initial(a: AtomicBool) -> bool;

/// `AtomicBool::new`: a flag created holding `v`.
#[verifier::external_body]
fn atomic_flag(v: bool) -> (a: AtomicBool)
    ensures
        atomic_bool_initial(a) == v,
{
    AtomicBool::new(v)
}

/// Shared application state for health monitoring.
pub struct AppState {
    pub healthy: AtomicBool,
}

impl AppState {
    /// A state whose flag starts out healthy.
    pub fn new() -> (s: AppState)
        ensures
            atomic_bool_initial(s.healthy),
    {
        AppState { healthy: atomic_flag(true) }
    }
}

impl Default for AppState {
    fn default() -> (s: AppState)
        ensures
            atomic_bool_initial(s.healthy),
    {
        AppState::new()
    }
}

/// The status reported to health probes.
#[derive(Clone, Copy, Debug, PartialEq, Eq, Structural)]
pub enum ServingStatus {
    Serving,
    NotServing,
}

/// Seconds between two reports of the health monitor.
pub const PROBE_INTERVAL_SECS: u64 = 5;

/// The status to report for the current value of the health flag.
pub fn serving_status(healthy: bool) -> (s: ServingStatus)
    ensures
        (s == ServingStatus::Serving) == healthy,
{
    if healthy {
        ServingStatus::Serving
    } else {
        ServingStatus::NotServing
    }
}

} // verus!
