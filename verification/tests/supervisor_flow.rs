use supervisor::inspector::list_active;
use supervisor::key::make_key;
use supervisor::key::parse_key;
use supervisor::launcher::launch_args;
use supervisor::launcher::launch_commit;
use supervisor::launcher::LaunchError;
use supervisor::launcher::SpawnOutcome;
use supervisor::monitor::MonitorStep;
use supervisor::monitor::ProbeOutcome;
use supervisor::registry::Registry;
use supervisor::terminator::terminate;
use supervisor::terminator::TerminateAction;

fn launch(
    reg: &mut Registry,
    owner: &str,
    exe: &str,
    display: &str,
    pid: u64,
) -> (u64, supervisor::Monitor) {
    let owner = owner.to_string();
    let exe = exe.to_string();
    let display = display.to_string();
    launch_commit(reg, &owner, &exe, &display, SpawnOutcome::Spawned(pid)).unwrap()
}

#[test]
fn key_round_trip() {
    let owner = "discord1".to_string();
    let exe = "game.exe".to_string();
    let key = make_key(&owner, &exe);
    assert_eq!(key, "discord1:game.exe");
    let (o, e) = parse_key(&key);
    assert_eq!(o, "discord1");
    assert_eq!(e, "game.exe");
}

#[test]
fn key_parse_without_colon() {
    let (o, e) = parse_key("plain");
    assert_eq!(o, "plain");
    assert_eq!(e, "");
}

#[test]
fn key_parse_splits_at_first_colon() {
    let (o, e) = parse_key("a:b:c");
    assert_eq!(o, "a");
    assert_eq!(e, "b:c");
    let (o2, e2) = parse_key(":x");
    assert_eq!(o2, "");
    assert_eq!(e2, "x");
}

#[test]
fn registry_insert_get_remove() {
    let mut reg = Registry::new();
    let k = make_key(&"own".to_string(), &"app.exe".to_string());
    reg.insert(k.clone(), 41);
    assert_eq!(reg.get(&k), Some(41));
    assert!(reg.contains(&k));
    // re-insert under the same key replaces the prior entry
    reg.insert(k.clone(), 42);
    assert_eq!(reg.get(&k), Some(42));
    assert_eq!(reg.keys().len(), 1);
    assert_eq!(reg.remove(&k), Some(42));
    assert_eq!(reg.remove(&k), None);
    assert_eq!(reg.get(&k), None);
}

#[test]
fn launch_lists_active() {
    let mut reg = Registry::new();
    let (pid, monitor) = launch(&mut reg, "discord1", "game.exe", "My Game", 1234);
    assert_eq!(pid, 1234);
    assert!(monitor.is_watching());
    let active = list_active(&reg);
    assert_eq!(active.len(), 1);
    assert_eq!(active[0].owner, "discord1");
    assert_eq!(active[0].exe, "game.exe");
    assert_eq!(active[0].key, "discord1:game.exe");
}

#[test]
fn launch_failure_leaves_registry_untouched() {
    let mut reg = Registry::new();
    let owner = "discord1".to_string();
    let exe = "game.exe".to_string();
    let display = "My Game".to_string();
    let r = launch_commit(
        &mut reg,
        &owner,
        &exe,
        &display,
        SpawnOutcome::Failed("no such file".to_string()),
    );
    match r {
        Err(LaunchError::SpawnFailed(reason)) => assert_eq!(reason, "no such file"),
        Ok(_) => panic!("spawn failure must surface as an error"),
    }
    assert!(list_active(&reg).is_empty());
}

#[test]
fn launch_args_convention() {
    let args = launch_args(&"My Game".to_string());
    assert_eq!(args, vec!["--title".to_string(), "My Game".to_string()]);
}

#[test]
fn monitor_emits_once_on_exit() {
    let mut reg = Registry::new();
    let (_pid, mut monitor) = launch(&mut reg, "discord1", "game.exe", "My Game", 7);
    // first poll: still running, nothing changes
    assert_eq!(monitor.poll_target(&reg), Some(7));
    match monitor.observe(&mut reg, ProbeOutcome::StillRunning) {
        MonitorStep::KeepWatching => {}
        _ => panic!("a running process keeps the monitor watching"),
    }
    assert_eq!(list_active(&reg).len(), 1);
    // second poll: exit detected: entry removed, one notification
    assert_eq!(monitor.poll_target(&reg), Some(7));
    match monitor.observe(&mut reg, ProbeOutcome::ExitDetected) {
        MonitorStep::Notify(n) => {
            assert_eq!(n.owner, "discord1");
            assert_eq!(n.exe, "game.exe");
            assert_eq!(n.display, "My Game");
        }
        _ => panic!("an exited process must yield the exit notification"),
    }
    assert!(list_active(&reg).is_empty());
    // the monitor is done: it will never poll again
    assert!(!monitor.is_watching());
    assert_eq!(monitor.poll_target(&reg), None);
}

#[test]
fn monitor_probe_error_counts_as_exit() {
    let mut reg = Registry::new();
    let (_pid, mut monitor) = launch(&mut reg, "o", "x.exe", "X", 9);
    match monitor.observe(&mut reg, ProbeOutcome::ProbeError) {
        MonitorStep::Notify(n) => {
            assert_eq!(n.owner, "o");
            assert_eq!(n.exe, "x.exe");
        }
        _ => panic!("a failed probe is treated as an exit"),
    }
    assert!(list_active(&reg).is_empty());
}

#[test]
fn monitor_stops_silently_when_terminator_wins() {
    let mut reg = Registry::new();
    let (_pid, mut monitor) = launch(&mut reg, "discord1", "game.exe", "My Game", 7);
    // the terminator removes the key first
    let exe = "game.exe".to_string();
    let owner = "discord1".to_string();
    match terminate(&mut reg, &exe, Some(&owner)) {
        TerminateAction::GracefulThenEscalate { handle } => assert_eq!(handle, 7),
        TerminateAction::KillByImage => panic!("the tracked entry must be removed by key"),
    }
    // the monitor finds its key gone and stops without a notification
    assert_eq!(monitor.poll_target(&reg), None);
    match monitor.cancel() {
        MonitorStep::Stopped => {}
        _ => panic!("a cancelled monitor stops silently"),
    }
    assert!(!monitor.is_watching());
}

#[test]
fn terminate_twice_is_safe() {
    let mut reg = Registry::new();
    let (_pid, _monitor) = launch(&mut reg, "discord1", "game.exe", "My Game", 7);
    let exe = "game.exe".to_string();
    let owner = "discord1".to_string();
    let first = terminate(&mut reg, &exe, Some(&owner));
    match first {
        TerminateAction::GracefulThenEscalate { handle } => assert_eq!(handle, 7),
        TerminateAction::KillByImage => panic!("first call owns the handle"),
    }
    // second call in quick succession: no entry left, image-name fallback
    let second = terminate(&mut reg, &exe, Some(&owner));
    match second {
        TerminateAction::KillByImage => {}
        TerminateAction::GracefulThenEscalate { .. } => {
            panic!("the handle must never be handed out twice")
        }
    }
}

#[test]
fn terminate_unkeyed_when_nothing_tracked() {
    let mut reg = Registry::new();
    let exe = "game.exe".to_string();
    match terminate(&mut reg, &exe, None) {
        TerminateAction::KillByImage => {}
        TerminateAction::GracefulThenEscalate { .. } => {
            panic!("unkeyed termination is always by image name")
        }
    }
    assert!(list_active(&reg).is_empty());
}

#[test]
fn terminate_keyed_untracked_falls_back() {
    let mut reg = Registry::new();
    let (_pid, _m) = launch(&mut reg, "other", "game.exe", "Other", 5);
    let exe = "game.exe".to_string();
    let owner = "discord1".to_string();
    // tracked under a different owner: the exact key is absent
    match terminate(&mut reg, &exe, Some(&owner)) {
        TerminateAction::KillByImage => {}
        TerminateAction::GracefulThenEscalate { .. } => {
            panic!("a missing key falls back to the image-name kill")
        }
    }
    // the other owner's entry is untouched
    assert_eq!(list_active(&reg).len(), 1);
}

#[test]
fn terminate_returns_promptly() {
    // terminate never waits on the child: both branches are pure decisions
    // plus one registry operation, so they return well within the bound
    // even though the "process" behind the handle never exits.
    let mut reg = Registry::new();
    let (_pid, _m) = launch(&mut reg, "discord1", "game.exe", "My Game", 7);
    let exe = "game.exe".to_string();
    let owner = "discord1".to_string();
    let start = std::time::Instant::now();
    let _ = terminate(&mut reg, &exe, Some(&owner));
    let _ = terminate(&mut reg, &exe, Some(&owner));
    let _ = terminate(&mut reg, &exe, None);
    assert!(start.elapsed() < std::time::Duration::from_millis(50));
}

#[test]
fn two_owners_same_executable() {
    let mut reg = Registry::new();
    let (_p1, _m1) = launch(&mut reg, "discord1", "game.exe", "One", 1);
    let (_p2, _m2) = launch(&mut reg, "discord2", "game.exe", "Two", 2);
    let mut owners: Vec<String> = list_active(&reg).into_iter().map(|a| a.owner).collect();
    owners.sort();
    assert_eq!(owners, vec!["discord1".to_string(), "discord2".to_string()]);
    let exe = "game.exe".to_string();
    let owner = "discord1".to_string();
    match terminate(&mut reg, &exe, Some(&owner)) {
        TerminateAction::GracefulThenEscalate { handle } => assert_eq!(handle, 1),
        TerminateAction::KillByImage => panic!("keyed termination must pick the exact owner"),
    }
    let active = list_active(&reg);
    assert_eq!(active.len(), 1);
    assert_eq!(active[0].owner, "discord2");
}
