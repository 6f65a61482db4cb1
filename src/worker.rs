//! What a keep-alive worker does in one poll cycle.

use vstd::prelude::*;
use crate::locate::{SystemSnapshot, find_target_window, located};
use crate::targets::ResolvedConfig;

verus! {

/// Milliseconds between two poll cycles of a worker.
pub const REFRESH_INTERVAL_MS: u64 = 100;

/// What a worker does in one poll cycle.
#[derive(Clone, Copy, Debug, PartialEq, Eq)]
pub enum WorkerAction {
    /// Send one activation signal to this window, then wait an interval.
    Activate(usize),
    /// Nothing to activate this cycle: wait an interval.
    Wait,
    /// The stop signal was seen: leave the loop.
    Exit,
}

/// The action for one poll cycle: leave when no longer active, otherwise
/// activate the window located in `snapshot`, if any.
pub fn worker_cycle(active: bool, config: &ResolvedConfig, snapshot: &SystemSnapshot) -> (r:
    WorkerAction)
    ensures
        !active ==> r == WorkerAction::Exit,
        active ==> r == match located(
            config.process_names.deep_view(),
            config.window_titles@.len() as int,
            snapshot.processes@,
            snapshot.windows@,
            snapshot.title_hits@,
        ) {
            Some(w) => WorkerAction::Activate(w.handle),
            None => WorkerAction::Wait,
        },
{
    if !active {
        return WorkerAction::Exit;
    }
    match find_target_window(config, snapshot) {
        Some(w) => WorkerAction::Activate(w.handle),
        None => WorkerAction::Wait,
    }
}

} // verus!
