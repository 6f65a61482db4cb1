//! The supervision controller: which workers it owns, when a start launches
//! a worker, and what a stop hands back to be joined.

use vstd::prelude::*;
use crate::targets::{ResolvedConfig, normalize_list, normalized};

verus! {

/// Why a start or a stop did not succeed.
#[derive(Clone, Copy, Debug, PartialEq, Eq)]
pub enum ControlError {
    /// Both target lists are empty once cleaned.
    NoTargets,
    /// A worker could not be launched.
    SpawnFailed,
    /// A worker did not finish cleanly when it was stopped.
    StopFailed,
}

/// What a start asks of its caller.
pub enum StartPlan {
    /// A worker is alive already: nothing to launch.
    AlreadyRunning,
    /// Launch one worker for this target group, then hand it to `adopt`.
    Launch(ResolvedConfig),
}

/// The workers of `ws` that have not finished: those whose flag in
/// `finished` is set are left out; a worker without a flag stays.
pub open spec fn survivors<W>(ws: Seq<W>, finished: Seq<bool>) -> Seq<W>
    decreases ws.len(),
{
    if ws.len() == 0 {
        seq![]
    } else {
        let prev = survivors(ws.drop_last(), finished);
        let i = ws.len() - 1;
        if i < finished.len() && finished[i] {
            prev
        } else {
            prev.push(ws.last())
        }
    }
}

/// A start with `live` workers alive launches a worker: none is alive and a
/// target remains after cleaning.
pub open spec fn start_launches<W>(
    live: Seq<W>,
    titles: Seq<Seq<char>>,
    names: Seq<Seq<char>>,
) -> bool {
    live.len() == 0 && (normalized(titles).len() > 0 || normalized(names).len() > 0)
}

/// Some worker did not finish cleanly.
pub open spec fn stop_failed(joined: Seq<bool>) -> bool {
    exists|i: int| 0 <= i < joined.len() && !joined[i]
}

/// Owns the workers of one supervision session. It is idle when it owns
/// none and running otherwise.
pub struct KeepAliveController<W> {
    workers: Vec<W>,
}

impl<W> View for KeepAliveController<W> {
    type V = Seq<W>;

    closed spec fn view(&self) -> Seq<W> {
        self.workers@
    }
}

impl<W> KeepAliveController<W> {
    /// An idle controller.
    pub fn new() -> (r: Self)
        ensures
            r@ == Seq::<W>::empty(),
    {
        KeepAliveController { workers: Vec::new() }
    }

    /// The workers owned, in the order they were adopted.
    pub fn workers(&self) -> (r: &Vec<W>)
        ensures
            r@ == self@,
    {
        &self.workers
    }

    /// Drops the workers whose flag in `finished` (one per owned worker, in
    /// order) says they have finished on their own.
    pub fn prune_finished(&mut self, finished: &Vec<bool>)
        ensures
            final(self)@ == survivors(old(self)@, finished@),
    {
        let mut kept: Vec<W> = Vec::new();
        let mut old_workers: Vec<W> = Vec::new();
        std::mem::swap(&mut old_workers, &mut self.workers);
        let ghost all = old_workers@;
        let mut i: usize = 0;
        let n = old_workers.len();
        let mut rest = old_workers;
        while i < n
            invariant
                i <= n,
                n == all.len(),
                rest@ == all.subrange(i as int, n as int),
                kept@ == survivors(all.take(i as int), finished@),
            decreases n - i,
        {
            let w = rest.remove(0);
            assert(w == all[i as int]);
            let ghost before = all.take(i as int);
            let ghost after = all.take(i + 1);
            assert(after.drop_last() =~= before);
            if i < finished.len() && finished[i] {
            } else {
                kept.push(w);
            }
            i = i + 1;
        }
        assert(all.take(n as int) =~= all);
        self.workers = kept;
    }

    /// Prunes the finished workers, then says whether any remains.
    pub fn is_running(&mut self, finished: &Vec<bool>) -> (r: bool)
        ensures
            final(self)@ == survivors(old(self)@, finished@),
            r == (final(self)@.len() > 0),
    {
        self.prune_finished(finished);
        self.workers.len() > 0
    }

    /// Prunes the finished workers; while one remains the start does
    /// nothing. Otherwise the cleaned target lists are the group for a new
    /// worker, or the start fails when both are empty.
    pub fn start(&mut self, config: &ResolvedConfig, finished: &Vec<bool>) -> (r: Result<
        StartPlan,
        ControlError,
    >)
        ensures
            final(self)@ == survivors(old(self)@, finished@),
            final(self)@.len() > 0 ==> r matches Ok(StartPlan::AlreadyRunning),
            final(self)@.len() == 0 ==> match r {
                Ok(StartPlan::Launch(group)) => normalized(config.window_titles.deep_view()).len() > 0
                    || normalized(config.process_names.deep_view()).len() > 0,
                Err(e) => e == ControlError::NoTargets && normalized(config.window_titles.deep_view()).len() == 0
                    && normalized(config.process_names.deep_view()).len() == 0,
                _ => false,
            },
            r matches Ok(StartPlan::Launch(group)) ==> group.window_titles.deep_view() == normalized(
                config.window_titles.deep_view(),
            ) && group.process_names.deep_view() == normalized(config.process_names.deep_view()),
            (r matches Ok(StartPlan::Launch(_))) == start_launches(
                final(self)@,
                config.window_titles.deep_view(),
                config.process_names.deep_view(),
            ),
    {
        self.prune_finished(finished);
        if self.workers.len() > 0 {
            return Ok(StartPlan::AlreadyRunning);
        }
        let window_titles = normalize_list(config.window_titles.clone());
        let process_names = normalize_list(config.process_names.clone());
        if window_titles.len() == 0 && process_names.len() == 0 {
            return Err(ControlError::NoTargets);
        }
        Ok(StartPlan::Launch(ResolvedConfig { window_titles, process_names }))
    }

    /// Takes ownership of a worker launched for a start.
    pub fn adopt(&mut self, worker: W)
        ensures
            final(self)@ == old(self)@.push(worker),
    {
        self.workers.push(worker);
    }

    /// Hands back every owned worker, to be signalled and joined, and leaves
    /// the controller idle.
    pub fn stop(&mut self) -> (r: Vec<W>)
        ensures
            r@ == old(self)@,
            final(self)@ == Seq::<W>::empty(),
    {
        let mut taken: Vec<W> = Vec::new();
        std::mem::swap(&mut taken, &mut self.workers);
        taken
    }
}

/// The outcome of a stop, given for each worker whether it finished cleanly.
pub fn stop_result(joined: &Vec<bool>) -> (r: Result<(), ControlError>)
    ensures
        r == (if stop_failed(joined@) {
            Err(ControlError::StopFailed)
        } else {
            Ok::<(), ControlError>(())
        }),
{
    let mut i: usize = 0;
    while i < joined.len()
        invariant
            i <= joined@.len(),
            forall|k: int| 0 <= k < i ==> joined@[k],
        decreases joined@.len() - i,
    {
        if !joined[i] {
            return Err(ControlError::StopFailed);
        }
        i = i + 1;
    }
    Ok(())
}

} // verus!

verus! {

proof fn lemma_survivors_none_finished<W>(ws: Seq<W>, finished: Seq<bool>)
    requires
        forall|i: int| 0 <= i < ws.len() && i < finished.len() ==> !#[trigger] finished[i],
    ensures
        survivors(ws, finished) == ws,
    decreases ws.len(),
{
    if ws.len() > 0 {
        lemma_survivors_none_finished(ws.drop_last(), finished);
        assert(ws.drop_last().push(ws.last()) =~= ws);
    }
}

/// A start while a worker is alive launches nothing: with no worker
/// finished, the live workers after it are the live workers before it, so
/// starting twice leaves as many workers as starting once.
pub proof fn lemma_start_while_running_adds_nothing<W>(
    live: Seq<W>,
    finished: Seq<bool>,
    titles: Seq<Seq<char>>,
    names: Seq<Seq<char>>,
)
    requires
        live.len() > 0,
        forall|i: int| 0 <= i < live.len() && i < finished.len() ==> !#[trigger] finished[i],
    ensures
        survivors(live, finished) == live,
        !start_launches(survivors(live, finished), titles, names),
{
    lemma_survivors_none_finished(live, finished);
}

/// A stop while idle hands back no worker, succeeds, and leaves the
/// controller idle.
pub proof fn lemma_stop_when_idle<W>(workers: Seq<W>, joined: Seq<bool>)
    requires
        workers.len() == 0,
        joined.len() == workers.len(),
    ensures
        !stop_failed(joined),
        survivors(workers, Seq::<bool>::empty()).len() == 0,
{
}

/// After a stop no worker is owned, so the controller is not running
/// whatever the workers' flags say.
pub proof fn lemma_not_running_after_stop<W>(finished: Seq<bool>)
    ensures
        survivors(Seq::<W>::empty(), finished).len() == 0,
{
}

} // verus!
