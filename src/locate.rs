//! Finding the window to keep active in a snapshot of the system's processes
//! and top-level windows.

use vstd::prelude::*;
use crate::targets::ResolvedConfig;
use crate::text::{eq_ignoring_ascii_case, fold_eq};

verus! {

/// A running process: its id and the file name of its image.
pub struct ProcessEntry {
    pub pid: u32,
    pub exe_name: String,
}

/// A top-level window: its handle, the id of the process that owns it,
/// whether it is visible, and the length of its title text.
#[derive(Clone, Copy, Debug, PartialEq, Eq)]
pub struct WindowEntry {
    pub handle: usize,
    pub pid: u32,
    pub visible: bool,
    pub title_len: usize,
}

/// What one poll cycle sees of the system: the running processes, the
/// top-level windows, and for each configured window title the handle that a
/// lookup by that exact title gave (0 where it found none).
pub struct SystemSnapshot {
    pub processes: Vec<ProcessEntry>,
    pub windows: Vec<WindowEntry>,
    pub title_hits: Vec<usize>,
}

/// A window found for a target: its handle and, where it was found through
/// an executable name, the id of the process it was matched against.
#[derive(Clone, Copy, Debug, PartialEq, Eq)]
pub struct ResolvedWindow {
    pub handle: usize,
    pub pid: Option<u32>,
}

/// The id of the first process from index `i` on whose image name equals
/// `name` up to ASCII case.
pub open spec fn pid_from(name: Seq<char>, procs: Seq<ProcessEntry>, i: int) -> Option<u32>
    decreases procs.len() - i,
{
    if i < 0 || i >= procs.len() {
        None
    } else if fold_eq(procs[i].exe_name@, name) {
        Some(procs[i].pid)
    } else {
        pid_from(name, procs, i + 1)
    }
}

/// A window that can be activated for process `pid`: owned by it, visible,
/// and with a title.
pub open spec fn qualifies(w: WindowEntry, pid: u32) -> bool {
    w.pid == pid && w.visible && w.title_len > 0
}

/// The handle of the first window from index `i` on that qualifies for `pid`.
pub open spec fn window_from(pid: u32, wins: Seq<WindowEntry>, i: int) -> Option<usize>
    decreases wins.len() - i,
{
    if i < 0 || i >= wins.len() {
        None
    } else if qualifies(wins[i], pid) {
        Some(wins[i].handle)
    } else {
        window_from(pid, wins, i + 1)
    }
}

/// The window found through the executable names from index `i` on.
pub open spec fn by_process_from(
    names: Seq<Seq<char>>,
    procs: Seq<ProcessEntry>,
    wins: Seq<WindowEntry>,
    i: int,
) -> Option<ResolvedWindow>
    decreases names.len() - i,
{
    if i < 0 || i >= names.len() {
        None
    } else {
        match pid_from(names[i], procs, 0) {
            Some(pid) => match window_from(pid, wins, 0) {
                Some(h) => Some(ResolvedWindow { handle: h, pid: Some(pid) }),
                None => by_process_from(names, procs, wins, i + 1),
            },
            None => by_process_from(names, procs, wins, i + 1),
        }
    }
}

/// The title lookup result for title `i`: 0 where none was made.
pub open spec fn hit_at(hits: Seq<usize>, i: int) -> usize {
    if 0 <= i < hits.len() {
        hits[i]
    } else {
        0
    }
}

/// The window found through the first `n` titles, from index `i` on.
pub open spec fn by_title_from(n: int, hits: Seq<usize>, i: int) -> Option<ResolvedWindow>
    decreases n - i,
{
    if i < 0 || i >= n {
        None
    } else if hit_at(hits, i) != 0 {
        Some(ResolvedWindow { handle: hit_at(hits, i), pid: None })
    } else {
        by_title_from(n, hits, i + 1)
    }
}

/// The window to activate: through the executable names first, in order,
/// then through the window titles, in order.
pub open spec fn located(
    names: Seq<Seq<char>>,
    n_titles: int,
    procs: Seq<ProcessEntry>,
    wins: Seq<WindowEntry>,
    hits: Seq<usize>,
) -> Option<ResolvedWindow> {
    match by_process_from(names, procs, wins, 0) {
        Some(w) => Some(w),
        None => by_title_from(n_titles, hits, 0),
    }
}

/// The id of the first process whose image name equals `process_name` up to
/// ASCII case.
pub fn find_process_id(process_name: &str, processes: &Vec<ProcessEntry>) -> (r: Option<u32>)
    ensures
        r == pid_from(process_name@, processes@, 0),
{
    let mut i: usize = 0;
    while i < processes.len()
        invariant
            i <= processes@.len(),
            pid_from(process_name@, processes@, 0) == pid_from(process_name@, processes@, i as int),
        decreases processes@.len() - i,
    {
        if eq_ignoring_ascii_case(processes[i].exe_name.as_str(), process_name) {
            return Some(processes[i].pid);
        }
        i = i + 1;
    }
    None
}

/// The handle of the first visible, titled window that process `pid` owns.
pub fn find_window_by_pid(pid: u32, windows: &Vec<WindowEntry>) -> (r: Option<usize>)
    ensures
        r == window_from(pid, windows@, 0),
{
    let mut i: usize = 0;
    while i < windows.len()
        invariant
            i <= windows@.len(),
            window_from(pid, windows@, 0) == window_from(pid, windows@, i as int),
        decreases windows@.len() - i,
    {
        let w = windows[i];
        if w.pid == pid && w.visible && w.title_len > 0 {
            return Some(w.handle);
        }
        i = i + 1;
    }
    None
}

/// The handle that the lookup of title `index` gave, if it found one.
pub fn find_window_by_title(title_hits: &Vec<usize>, index: usize) -> (r: Option<usize>)
    ensures
        r == (if hit_at(title_hits@, index as int) != 0 {
            Some(hit_at(title_hits@, index as int))
        } else {
            None::<usize>
        }),
{
    if index < title_hits.len() && title_hits[index] != 0 {
        Some(title_hits[index])
    } else {
        None
    }
}

/// The window to activate for `config` in `snapshot`: the first executable
/// name, in order, that matches a process with a visible titled window wins;
/// otherwise the first window title, in order, that a lookup found.
pub fn find_target_window(config: &ResolvedConfig, snapshot: &SystemSnapshot) -> (r: Option<
    ResolvedWindow,
>)
    ensures
        r == located(
            config.process_names.deep_view(),
            config.window_titles@.len() as int,
            snapshot.processes@,
            snapshot.windows@,
            snapshot.title_hits@,
        ),
{
    let ghost names = config.process_names.deep_view();
    let ghost procs = snapshot.processes@;
    let ghost wins = snapshot.windows@;
    let mut i: usize = 0;
    while i < config.process_names.len()
        invariant
            i <= names.len(),
            names == config.process_names.deep_view(),
            procs == snapshot.processes@,
            wins == snapshot.windows@,
            by_process_from(names, procs, wins, 0) == by_process_from(names, procs, wins, i as int),
        decreases names.len() - i,
    {
        assert(names[i as int] == config.process_names@[i as int]@);
        match find_process_id(config.process_names[i].as_str(), &snapshot.processes) {
            Some(pid) => match find_window_by_pid(pid, &snapshot.windows) {
                Some(h) => {
                    return Some(ResolvedWindow { handle: h, pid: Some(pid) });
                },
                None => {},
            },
            None => {},
        }
        i = i + 1;
    }
    assert(by_process_from(names, procs, wins, 0) is None);
    let n = config.window_titles.len();
    let mut j: usize = 0;
    while j < n
        invariant
            j <= n,
            names == config.process_names.deep_view(),
            procs == snapshot.processes@,
            wins == snapshot.windows@,
            by_process_from(names, procs, wins, 0) is None,
            n == config.window_titles@.len(),
            by_title_from(n as int, snapshot.title_hits@, 0) == by_title_from(
                n as int,
                snapshot.title_hits@,
                j as int,
            ),
        decreases n - j,
    {
        match find_window_by_title(&snapshot.title_hits, j) {
            Some(h) => {
                return Some(ResolvedWindow { handle: h, pid: None });
            },
            None => {},
        }
        j = j + 1;
    }
    None
}

} // verus!

verus! {

proof fn lemma_window_from_sound(pid: u32, wins: Seq<WindowEntry>, i: int)
    ensures
        window_from(pid, wins, i) matches Some(h) ==> exists|k: int|
            i <= k < wins.len() && #[trigger] qualifies(wins[k], pid) && wins[k].handle == h,
    decreases wins.len() - i,
{
    if 0 <= i < wins.len() && !qualifies(wins[i], pid) {
        lemma_window_from_sound(pid, wins, i + 1);
    }
}

proof fn lemma_window_from_unique(pid: u32, wins: Seq<WindowEntry>, i: int, j: int)
    requires
        0 <= i <= j < wins.len(),
        qualifies(wins[j], pid),
        forall|k: int| 0 <= k < wins.len() && k != j ==> !qualifies(#[trigger] wins[k], pid),
    ensures
        window_from(pid, wins, i) == Some(wins[j].handle),
    decreases j - i,
{
    if i < j {
        lemma_window_from_unique(pid, wins, i + 1, j);
    }
}

proof fn lemma_by_process_sound(
    names: Seq<Seq<char>>,
    procs: Seq<ProcessEntry>,
    wins: Seq<WindowEntry>,
    i: int,
)
    ensures
        by_process_from(names, procs, wins, i) matches Some(w) ==> (w.pid matches Some(p) && (
        exists|m: int| 0 <= m < names.len() && #[trigger] pid_from(names[m], procs, 0) == Some(p))
            && window_from(p, wins, 0) == Some(w.handle)),
    decreases names.len() - i,
{
    if 0 <= i < names.len() {
        lemma_by_process_sound(names, procs, wins, i + 1);
    }
}

proof fn lemma_by_process_none(
    names: Seq<Seq<char>>,
    procs: Seq<ProcessEntry>,
    wins: Seq<WindowEntry>,
    i: int,
)
    requires
        forall|m: int| 0 <= m < names.len() ==> #[trigger] pid_from(names[m], procs, 0) is None,
    ensures
        by_process_from(names, procs, wins, i) is None,
    decreases names.len() - i,
{
    if 0 <= i < names.len() {
        lemma_by_process_none(names, procs, wins, i + 1);
    }
}

proof fn lemma_by_title_first(n: int, hits: Seq<usize>, i: int, t: int)
    requires
        0 <= i <= t < n,
        hit_at(hits, t) != 0,
        forall|m: int| 0 <= m < t ==> #[trigger] hit_at(hits, m) == 0,
    ensures
        by_title_from(n, hits, i) == Some(ResolvedWindow { handle: hit_at(hits, t), pid: None }),
    decreases t - i,
{
    if i < t {
        lemma_by_title_first(n, hits, i + 1, t);
    }
}

proof fn lemma_by_title_untagged(n: int, hits: Seq<usize>, i: int)
    ensures
        by_title_from(n, hits, i) matches Some(w) ==> w.pid is None,
    decreases n - i,
{
    if 0 <= i < n && hit_at(hits, i) == 0 {
        lemma_by_title_untagged(n, hits, i + 1);
    }
}

proof fn lemma_by_title_none(n: int, hits: Seq<usize>, i: int)
    requires
        forall|m: int| 0 <= m < n ==> #[trigger] hit_at(hits, m) == 0,
    ensures
        by_title_from(n, hits, i) is None,
    decreases n - i,
{
    if 0 <= i < n {
        lemma_by_title_none(n, hits, i + 1);
    }
}

/// A window found through an executable name is a visible, titled window of
/// a process whose image name matches one of the names: never a window of
/// another process.
pub proof fn lemma_process_match_owns_window(
    names: Seq<Seq<char>>,
    n_titles: int,
    procs: Seq<ProcessEntry>,
    wins: Seq<WindowEntry>,
    hits: Seq<usize>,
)
    ensures
        located(names, n_titles, procs, wins, hits) matches Some(w) ==> (w.pid matches Some(p)
            ==> (exists|m: int| 0 <= m < names.len() && #[trigger] pid_from(names[m], procs, 0) == Some(p))
            && exists|k: int|
            0 <= k < wins.len() && #[trigger] qualifies(wins[k], p) && wins[k].handle == w.handle),
{
    lemma_by_process_sound(names, procs, wins, 0);
    lemma_by_title_untagged(n_titles, hits, 0);
    if let Some(w) = by_process_from(names, procs, wins, 0) {
        let p = w.pid->Some_0;
        lemma_window_from_sound(p, wins, 0);
    }
}

/// When the first executable name matches a process that owns exactly one
/// visible, titled window, that window is the one found.
pub proof fn lemma_process_match_found(
    names: Seq<Seq<char>>,
    n_titles: int,
    procs: Seq<ProcessEntry>,
    wins: Seq<WindowEntry>,
    hits: Seq<usize>,
    pid: u32,
    j: int,
)
    requires
        names.len() > 0,
        pid_from(names[0], procs, 0) == Some(pid),
        0 <= j < wins.len(),
        qualifies(wins[j], pid),
        forall|k: int| 0 <= k < wins.len() && k != j ==> !qualifies(#[trigger] wins[k], pid),
    ensures
        located(names, n_titles, procs, wins, hits) == Some(
            ResolvedWindow { handle: wins[j].handle, pid: Some(pid) },
        ),
{
    lemma_window_from_unique(pid, wins, 0, j);
}

/// When no executable name matches a running process, the window of the
/// first title that a lookup found is the one found.
pub proof fn lemma_title_fallback(
    names: Seq<Seq<char>>,
    n_titles: int,
    procs: Seq<ProcessEntry>,
    wins: Seq<WindowEntry>,
    hits: Seq<usize>,
    t: int,
)
    requires
        forall|m: int| 0 <= m < names.len() ==> #[trigger] pid_from(names[m], procs, 0) is None,
        0 <= t < n_titles,
        hit_at(hits, t) != 0,
        forall|m: int| 0 <= m < t ==> #[trigger] hit_at(hits, m) == 0,
    ensures
        located(names, n_titles, procs, wins, hits) == Some(
            ResolvedWindow { handle: hit_at(hits, t), pid: None },
        ),
{
    lemma_by_process_none(names, procs, wins, 0);
    lemma_by_title_first(n_titles, hits, 0, t);
}

/// When no executable name matches a running process and no title lookup
/// found a window, nothing is found.
pub proof fn lemma_nothing_found(
    names: Seq<Seq<char>>,
    n_titles: int,
    procs: Seq<ProcessEntry>,
    wins: Seq<WindowEntry>,
    hits: Seq<usize>,
)
    requires
        forall|m: int| 0 <= m < names.len() ==> #[trigger] pid_from(names[m], procs, 0) is None,
        forall|m: int| 0 <= m < n_titles ==> #[trigger] hit_at(hits, m) == 0,
    ensures
        located(names, n_titles, procs, wins, hits) is None,
{
    lemma_by_process_none(names, procs, wins, 0);
    lemma_by_title_none(n_titles, hits, 0);
}

} // verus!
