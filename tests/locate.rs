use keep_active::locate::{
    find_process_id, find_target_window, find_window_by_pid, find_window_by_title, ProcessEntry,
    ResolvedWindow, SystemSnapshot, WindowEntry,
};
use keep_active::targets::ResolvedConfig;
use keep_active::text::wide_ptr_to_string;
use keep_active::worker::{worker_cycle, WorkerAction, REFRESH_INTERVAL_MS};

fn process(pid: u32, name: &str) -> ProcessEntry {
    ProcessEntry { pid, exe_name: name.to_string() }
}

fn window(handle: usize, pid: u32, visible: bool, title_len: usize) -> WindowEntry {
    WindowEntry { handle, pid, visible, title_len }
}

fn config(titles: &[&str], exes: &[&str]) -> ResolvedConfig {
    ResolvedConfig::from_lists(
        titles.iter().map(|s| s.to_string()).collect(),
        exes.iter().map(|s| s.to_string()).collect(),
    )
}

#[test]
fn process_id_matches_ignoring_case() {
    let procs = vec![process(4, "System"), process(10, "Game.EXE"), process(11, "game.exe")];
    assert_eq!(find_process_id("game.exe", &procs), Some(10));
    assert_eq!(find_process_id("other.exe", &procs), None);
    assert_eq!(find_process_id("game", &procs), None);
}

#[test]
fn window_by_pid_needs_visible_titled_window() {
    let wins = vec![
        window(1, 7, true, 5),
        window(2, 10, false, 5),
        window(3, 10, true, 0),
        window(4, 10, true, 3),
        window(5, 10, true, 9),
    ];
    assert_eq!(find_window_by_pid(10, &wins), Some(4));
    assert_eq!(find_window_by_pid(8, &wins), None);
}

#[test]
fn window_by_title_skips_null_and_missing() {
    let hits = vec![0, 42];
    assert_eq!(find_window_by_title(&hits, 0), None);
    assert_eq!(find_window_by_title(&hits, 1), Some(42));
    assert_eq!(find_window_by_title(&hits, 2), None);
}

#[test]
fn executable_match_finds_its_window() {
    let snapshot = SystemSnapshot {
        processes: vec![process(3, "other.exe"), process(10, "game.exe")],
        windows: vec![window(100, 3, true, 4), window(200, 10, true, 4)],
        title_hits: vec![100],
    };
    let found = find_target_window(&config(&["Other"], &["GAME.exe"]), &snapshot);
    assert_eq!(found, Some(ResolvedWindow { handle: 200, pid: Some(10) }));
}

#[test]
fn title_fallback_when_no_process_matches() {
    let snapshot = SystemSnapshot {
        processes: vec![process(3, "other.exe")],
        windows: vec![window(100, 3, true, 4)],
        title_hits: vec![0, 555],
    };
    let found = find_target_window(&config(&["First", "Second"], &["game.exe"]), &snapshot);
    assert_eq!(found, Some(ResolvedWindow { handle: 555, pid: None }));
}

#[test]
fn title_fallback_when_process_has_no_window() {
    let snapshot = SystemSnapshot {
        processes: vec![process(10, "game.exe")],
        windows: vec![window(100, 10, false, 4)],
        title_hits: vec![77],
    };
    let found = find_target_window(&config(&["Game"], &["game.exe"]), &snapshot);
    assert_eq!(found, Some(ResolvedWindow { handle: 77, pid: None }));
}

#[test]
fn nothing_found() {
    let snapshot = SystemSnapshot {
        processes: vec![process(3, "other.exe")],
        windows: vec![window(100, 3, true, 4)],
        title_hits: vec![0],
    };
    assert_eq!(find_target_window(&config(&["Game"], &["game.exe"]), &snapshot), None);
    let empty = SystemSnapshot { processes: vec![], windows: vec![], title_hits: vec![] };
    assert_eq!(find_target_window(&config(&["Game"], &[]), &empty), None);
}

#[test]
fn worker_cycle_activates_titled_window() {
    let snapshot = SystemSnapshot { processes: vec![], windows: vec![], title_hits: vec![9] };
    let spec = config(&["Sample"], &[]);
    assert_eq!(worker_cycle(true, &spec, &snapshot), WorkerAction::Activate(9));
    assert_eq!(worker_cycle(false, &spec, &snapshot), WorkerAction::Exit);
    let miss = SystemSnapshot { processes: vec![], windows: vec![], title_hits: vec![0] };
    assert_eq!(worker_cycle(true, &spec, &miss), WorkerAction::Wait);
    assert_eq!(REFRESH_INTERVAL_MS, 100);
}

#[test]
fn wide_text_stops_at_nul() {
    assert_eq!(wide_ptr_to_string(&[72, 105, 0, 88]), "Hi");
    assert_eq!(wide_ptr_to_string(&[72, 105]), "Hi");
    assert_eq!(wide_ptr_to_string(&[0, 72]), "");
    assert_eq!(wide_ptr_to_string(&[0xD800, 65, 0]), "\u{FFFD}A");
}
