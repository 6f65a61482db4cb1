use keep_active::controller::{stop_result, ControlError, KeepAliveController, StartPlan};
use keep_active::targets::ResolvedConfig;

fn config(titles: &[&str], exes: &[&str]) -> ResolvedConfig {
    ResolvedConfig::from_lists(
        titles.iter().map(|s| s.to_string()).collect(),
        exes.iter().map(|s| s.to_string()).collect(),
    )
}

#[test]
fn start_from_idle_launches_one_group() {
    let mut c: KeepAliveController<u32> = KeepAliveController::new();
    match c.start(&config(&["Sample"], &["a.exe"]), &vec![]) {
        Ok(StartPlan::Launch(group)) => {
            assert_eq!(group.window_titles, vec!["Sample".to_string()]);
            assert_eq!(group.process_names, vec!["a.exe".to_string()]);
        }
        _ => panic!("expected a launch"),
    }
}

#[test]
fn second_start_adds_no_worker() {
    let mut c: KeepAliveController<u32> = KeepAliveController::new();
    let spec = config(&["Sample"], &[]);
    assert!(matches!(c.start(&spec, &vec![]), Ok(StartPlan::Launch(_))));
    c.adopt(1);
    assert!(matches!(c.start(&spec, &vec![false]), Ok(StartPlan::AlreadyRunning)));
    assert_eq!(c.workers().len(), 1);
    assert!(c.is_running(&vec![false]));
}

#[test]
fn stop_when_idle_succeeds() {
    let mut c: KeepAliveController<u32> = KeepAliveController::new();
    let handed = c.stop();
    assert!(handed.is_empty());
    assert_eq!(stop_result(&vec![]), Ok(()));
    assert!(!c.is_running(&vec![]));
}

#[test]
fn stop_hands_back_every_worker() {
    let mut c: KeepAliveController<u32> = KeepAliveController::new();
    c.adopt(5);
    c.adopt(6);
    assert_eq!(c.stop(), vec![5, 6]);
    assert!(!c.is_running(&vec![]));
    assert!(c.workers().is_empty());
}

#[test]
fn finished_workers_are_pruned() {
    let mut c: KeepAliveController<u32> = KeepAliveController::new();
    c.adopt(1);
    c.adopt(2);
    c.adopt(3);
    c.prune_finished(&vec![true, false]);
    assert_eq!(c.workers(), &vec![2, 3]);
    assert!(!c.is_running(&vec![true, true]));
    let spec = config(&["Sample"], &[]);
    assert!(matches!(c.start(&spec, &vec![]), Ok(StartPlan::Launch(_))));
}

#[test]
fn start_without_targets_fails() {
    let mut c: KeepAliveController<u32> = KeepAliveController::new();
    let empty = ResolvedConfig { window_titles: vec![" ".to_string()], process_names: vec![] };
    assert!(matches!(c.start(&empty, &vec![]), Err(ControlError::NoTargets)));
    assert!(c.workers().is_empty());
}

#[test]
fn failed_join_is_reported() {
    assert_eq!(stop_result(&vec![true, false, true]), Err(ControlError::StopFailed));
    assert_eq!(stop_result(&vec![true, true]), Ok(()));
}
