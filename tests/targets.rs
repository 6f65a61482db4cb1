use keep_active::targets::{
    classify_entry, normalize_list, position_ignoring_case, AppConfig, Args, ResolvedConfig,
    TargetKind, DEFAULT_WINDOW_TITLE,
};

fn strings(items: &[&str]) -> Vec<String> {
    items.iter().map(|s| s.to_string()).collect()
}

#[test]
fn normalize_trims_and_dedups_ignoring_case() {
    let out = normalize_list(strings(&["  Notepad  ", "notepad", "Calc"]));
    assert_eq!(out, strings(&["Notepad", "Calc"]));
}

#[test]
fn normalize_drops_blank_entries() {
    let out = normalize_list(strings(&["", "   ", "\t\n", "\u{3000}\u{a0}"]));
    assert!(out.is_empty());
}

#[test]
fn normalize_empty_is_empty() {
    assert!(normalize_list(Vec::new()).is_empty());
}

#[test]
fn normalize_trims_unicode_white_space() {
    let out = normalize_list(strings(&["\u{3000}Game\u{a0}", "game"]));
    assert_eq!(out, strings(&["Game"]));
}

#[test]
fn normalize_keeps_first_seen_order() {
    let out = normalize_list(strings(&["b", "A", "B", "a", "c", "C "]));
    assert_eq!(out, strings(&["b", "A", "c"]));
}

#[test]
fn normalize_folds_ascii_only() {
    let out = normalize_list(strings(&["Été", "été", "ÉTé", "ÉTÉ"]));
    assert_eq!(out, strings(&["Été", "été", "ÉTÉ"]));
}

#[test]
fn normalize_dedups_executable_names() {
    let out = normalize_list(strings(&["NOTEPAD.EXE", "notepad.exe", " Notepad.Exe "]));
    assert_eq!(out, strings(&["NOTEPAD.EXE"]));
}

#[test]
fn empty_titles_fall_back_to_default() {
    let config = ResolvedConfig::from_lists(Vec::new(), Vec::new());
    assert_eq!(config.window_titles, strings(&[DEFAULT_WINDOW_TITLE]));
    assert_eq!(config.window_titles, strings(&["CounterSide"]));
    assert!(config.process_names.is_empty());
}

#[test]
fn from_lists_cleans_both_lists() {
    let config = ResolvedConfig::from_lists(
        strings(&[" Sample ", "sample"]),
        strings(&["a.exe", "A.EXE", " "]),
    );
    assert_eq!(config.window_titles, strings(&["Sample"]));
    assert_eq!(config.process_names, strings(&["a.exe"]));
}

#[test]
fn from_args_and_resolved() {
    let args = Args {
        cli: true,
        worker: false,
        window: strings(&["  ", ""]),
        exe: strings(&["Game.exe", "game.EXE"]),
    };
    let config = AppConfig::from_args(&args);
    assert_eq!(config.window_titles, strings(&["CounterSide"]));
    assert_eq!(config.process_names, strings(&["Game.exe"]));
    let resolved = config.resolved();
    assert_eq!(resolved.window_titles, strings(&["CounterSide"]));
    assert_eq!(resolved.process_names, strings(&["Game.exe"]));
}

#[test]
fn position_ignoring_case_finds_first() {
    let list = strings(&["Alpha", "beta", "BETA"]);
    assert_eq!(position_ignoring_case(&list, "Beta"), Some(1));
    assert_eq!(position_ignoring_case(&list, "gamma"), None);
    assert_eq!(position_ignoring_case(&Vec::new(), "x"), None);
}

#[test]
fn classify_executable_entry() {
    let r = classify_entry("  notepad.EXE ");
    assert_eq!(r, Some((TargetKind::Executable, "notepad.EXE".to_string())));
}

#[test]
fn classify_window_entry() {
    assert_eq!(classify_entry("Calc"), Some((TargetKind::Window, "Calc".to_string())));
    assert_eq!(classify_entry("exe"), Some((TargetKind::Window, "exe".to_string())));
    assert_eq!(classify_entry(".exe"), Some((TargetKind::Executable, ".exe".to_string())));
}

#[test]
fn classify_blank_entry() {
    assert_eq!(classify_entry("   "), None);
    assert_eq!(classify_entry(""), None);
}

#[test]
fn normalize_twice_is_normalize_once() {
    let once = normalize_list(strings(&[" a ", "B", "b", "", "c\t"]));
    let twice = normalize_list(once.clone());
    assert_eq!(once, strings(&["a", "B", "c"]));
    assert_eq!(twice, once);
}
