use nix_service_manager::config::ConfigService;
use nix_service_manager::guard::{parse_pid, stop_action, StopAction};
use nix_service_manager::supervisor::{Phase, Stage, StepOutcome, Supervisor, TickAction};

fn git_service(enabled: bool) -> ConfigService {
    ConfigService {
        base_dir: None,
        git_uri: Some("https://example/repo.git".to_string()),
        ssh_key_file: None,
        enabled,
        run_command: "sh -c ./run.sh".to_string(),
        env: Vec::new(),
    }
}

fn plain_service() -> ConfigService {
    ConfigService {
        base_dir: Some("/srv/api".to_string()),
        git_uri: None,
        ssh_key_file: None,
        enabled: true,
        run_command: "sh -c ./run.sh".to_string(),
        env: Vec::new(),
    }
}

fn running(names: &[(&str, u32)]) -> Supervisor {
    let mut s = Supervisor::new();
    for (n, g) in names {
        assert!(s.track(n.to_string(), *g, format!("/srv/{}", n)));
    }
    assert!(s.begin_running(100));
    s
}

fn run_transition(outcomes: &[StepOutcome]) -> Stage {
    let mut st = Stage::Check;
    for o in outcomes {
        st = st.next(*o);
    }
    st
}

#[test]
fn api_scenario_spawned_then_drained() {
    let mut s = running(&[("api", 4242)]);
    assert_eq!(s.phase, Phase::Running);
    assert_eq!(s.group_of("api"), Some(4242));
    let services = vec![("api".to_string(), plain_service())];
    match s.tick(&services, true, 101) {
        TickAction::Drain(gs) => assert_eq!(gs, vec![4242]),
        other => panic!("unexpected {:?}", other),
    }
    assert_eq!(s.phase, Phase::Draining);
    assert!(s.finish_drain());
    assert_eq!(s.phase, Phase::Stopped);
    assert!(s.running.is_empty());
}

#[test]
fn drain_lists_every_group_in_order() {
    let mut s = running(&[("a", 1), ("b", 2), ("c", 3)]);
    match s.tick(&Vec::new(), true, 100) {
        TickAction::Drain(gs) => assert_eq!(gs, vec![1, 2, 3]),
        other => panic!("unexpected {:?}", other),
    }
}

#[test]
fn duplicate_name_is_not_tracked_twice() {
    let mut s = Supervisor::new();
    assert!(s.track("a".to_string(), 1, "/a".to_string()));
    assert!(!s.track("a".to_string(), 2, "/a".to_string()));
    assert_eq!(s.all_groups(), vec![1]);
}

#[test]
fn no_tracking_after_start() {
    let mut s = running(&[]);
    assert!(!s.track("a".to_string(), 1, "/a".to_string()));
    assert!(!s.begin_running(5));
}

#[test]
fn tick_waits_for_the_interval() {
    let mut s = running(&[("worker", 7)]);
    let services = vec![("worker".to_string(), git_service(true))];
    assert!(matches!(s.tick(&services, false, 159), TickAction::Wait));
    assert_eq!(s.last_pass, 100);
    match s.tick(&services, false, 160) {
        TickAction::Reconcile(names) => assert_eq!(names, vec!["worker".to_string()]),
        other => panic!("unexpected {:?}", other),
    }
    assert_eq!(s.last_pass, 160);
    assert!(matches!(s.tick(&services, false, 161), TickAction::Wait));
}

#[test]
fn reconcile_targets_only_running_git_services() {
    let mut s = running(&[("api", 1), ("worker", 2)]);
    let services = vec![
        ("api".to_string(), plain_service()),
        ("gone".to_string(), git_service(true)),
        ("worker".to_string(), git_service(true)),
    ];
    match s.tick(&services, false, 1000) {
        TickAction::Reconcile(names) => assert_eq!(names, vec!["worker".to_string()]),
        other => panic!("unexpected {:?}", other),
    }
}

#[test]
fn tick_outside_running_does_nothing() {
    let mut s = Supervisor::new();
    assert!(matches!(s.tick(&Vec::new(), true, 1000), TickAction::Wait));
    assert_eq!(s.phase, Phase::Starting);
}

#[test]
fn failed_check_or_nothing_new_keeps_service() {
    assert_eq!(run_transition(&[StepOutcome::Failed]), Stage::Kept);
    assert_eq!(run_transition(&[StepOutcome::NothingNew]), Stage::Kept);
}

#[test]
fn clone_failure_keeps_service_unchanged() {
    let mut s = running(&[("worker", 7)]);
    let st = run_transition(&[StepOutcome::Succeeded, StepOutcome::Failed]);
    assert_eq!(st, Stage::Kept);
    assert!(s.settle("worker", st));
    assert_eq!(s.group_of("worker"), Some(7));
    assert_eq!(s.all_groups(), vec![7]);
}

#[test]
fn successful_update_replaces_the_group() {
    let mut s = running(&[("api", 3), ("worker", 7)]);
    let st = run_transition(&[
        StepOutcome::Succeeded,
        StepOutcome::Succeeded,
        StepOutcome::Succeeded,
        StepOutcome::Succeeded,
        StepOutcome::Spawned(9),
    ]);
    assert_eq!(st, Stage::Replaced(9));
    assert!(s.settle("worker", st));
    assert_eq!(s.all_groups(), vec![3, 9]);
    assert_eq!(s.group_of("worker"), Some(9));
    assert_eq!(s.running[1].dir, "/srv/worker");
}

#[test]
fn kill_failure_drops_the_service() {
    let mut s = running(&[("worker", 7), ("api", 3)]);
    let st = run_transition(&[StepOutcome::Succeeded, StepOutcome::Succeeded, StepOutcome::Failed]);
    assert_eq!(st, Stage::Dropped);
    assert_eq!(st.next(StepOutcome::Spawned(11)), Stage::Dropped);
    assert!(s.settle("worker", st));
    assert_eq!(s.group_of("worker"), None);
    assert_eq!(s.all_groups(), vec![3]);
}

#[test]
fn spawn_failure_drops_the_service() {
    let st = run_transition(&[
        StepOutcome::Succeeded,
        StepOutcome::Succeeded,
        StepOutcome::Succeeded,
        StepOutcome::Succeeded,
        StepOutcome::Failed,
    ]);
    assert_eq!(st, Stage::Dropped);
}

#[test]
fn unfinished_stage_settles_nothing() {
    let mut s = running(&[("worker", 7)]);
    assert!(!s.settle("worker", Stage::Kill));
    assert_eq!(s.all_groups(), vec![7]);
    assert!(!Stage::Spawn.finished());
    assert!(Stage::Kept.finished());
}

#[test]
fn pid_records_parse_as_i32() {
    assert_eq!(parse_pid("1234"), Some(1234));
    assert_eq!(parse_pid("+7"), Some(7));
    assert_eq!(parse_pid("-5"), Some(-5));
    assert_eq!(parse_pid("2147483647"), Some(2147483647));
    assert_eq!(parse_pid("-2147483648"), Some(-2147483648));
    assert_eq!(parse_pid("2147483648"), None);
    assert_eq!(parse_pid("99999999999999999999"), None);
    assert_eq!(parse_pid(""), None);
    assert_eq!(parse_pid("-"), None);
    assert_eq!(parse_pid("12a"), None);
    assert_eq!(parse_pid("12\n"), None);
}

#[test]
fn stop_decisions() {
    assert_eq!(stop_action(None), StopAction::NotRunning);
    assert_eq!(stop_action(Some("4321")), StopAction::Signal(4321));
    assert_eq!(stop_action(Some("nope")), StopAction::BadRecord);
}
