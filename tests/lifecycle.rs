use delegate::cli::{operation, CLIArgs, Operation, SubCommand, UsageError};
use delegate::lifecycle::{apply_kill, plan_kill, restart, restart_targets, start};
use delegate::record::{DelegateCommand, Spawned};
use delegate::registry::{RegistryError, Repository};

fn process(pid: usize, tag: &str) -> Spawned {
    Spawned {
        pid,
        stdout_path: format!("/tmp/out-{tag}"),
        stdin_path: format!("/tmp/in-{tag}"),
        stderr_path: format!("/tmp/err-{tag}"),
    }
}

fn record(pid: usize, command: &str, group: Option<usize>) -> DelegateCommand {
    DelegateCommand::spawn(command.to_string(), group, process(pid, command))
}

#[test]
fn start_then_list_shows_one_live_row() {
    let mut repo = Repository::create();
    let cmd = start(&mut repo, "sleep 100".to_string(), Some(2), process(4242, "a"));
    assert_eq!(cmd.pid(), 4242);
    let live = repo.list();
    assert_eq!(live.len(), 1);
    assert_eq!(live[0].command(), "sleep 100");
    assert_eq!(live[0].group(), Some(2));
    let found = repo.get_by_pid(4242).unwrap();
    assert_eq!(found.stdout_path(), "/tmp/out-a");
    assert_eq!(found.stdin_path(), "/tmp/in-a");
    assert_eq!(found.stderr_path(), "/tmp/err-a");
}

#[test]
fn kill_group_fallback_scenario() {
    let mut repo = Repository::create();
    start(&mut repo, "sleep 100".to_string(), Some(2), process(4242, "a"));
    let row = repo.list()[0].to_table_row();
    assert_eq!(row[5], "2");
    let plan = plan_kill(&repo, "2").unwrap();
    assert!(!plan.mark_on_failure);
    assert_eq!(plan.targets.len(), 1);
    assert_eq!(plan.targets[0].pid(), 4242);
    apply_kill(&mut repo, &plan, &vec![true]);
    assert_eq!(repo.list().len(), 0);
    let history = repo.list_with_group(2);
    assert_eq!(history.len(), 1);
    assert_eq!(history[0].command(), "sleep 100");
    assert!(matches!(repo.get_by_pid(4242), Err(RegistryError::NotFound)));
}

#[test]
fn kill_by_live_pid_marks_it_dead() {
    let mut repo = Repository::create();
    start(&mut repo, "sleep 1".to_string(), None, process(10, "a"));
    start(&mut repo, "sleep 2".to_string(), None, process(11, "b"));
    let plan = plan_kill(&repo, "10").unwrap();
    assert_eq!(plan.targets.len(), 1);
    assert_eq!(plan.targets[0].command(), "sleep 1");
    apply_kill(&mut repo, &plan, &vec![true]);
    let live = repo.list();
    assert_eq!(live.len(), 1);
    assert_eq!(live[0].pid(), 11);
    assert!(matches!(repo.get_by_pid(10), Err(RegistryError::NotFound)));
}

#[test]
fn kill_by_pid_keeps_record_when_signal_fails() {
    let mut repo = Repository::create();
    start(&mut repo, "sleep 1".to_string(), None, process(10, "a"));
    let plan = plan_kill(&repo, "10").unwrap();
    apply_kill(&mut repo, &plan, &vec![false]);
    assert_eq!(repo.list().len(), 1);
}

#[test]
fn kill_by_pid_with_plus_sign_is_numeric() {
    let mut repo = Repository::create();
    start(&mut repo, "sleep 1".to_string(), None, process(7, "a"));
    let plan = plan_kill(&repo, "+007").unwrap();
    assert_eq!(plan.targets.len(), 1);
    assert!(!plan.mark_on_failure);
}

#[test]
fn kill_by_ambiguous_pid_fails() {
    let mut repo = Repository::create();
    repo.restore(record(5, "a", None), true);
    repo.restore(record(5, "b", None), true);
    assert!(matches!(plan_kill(&repo, "5"), Err(RegistryError::Ambiguous)));
}

#[test]
fn kill_by_prefix_marks_matches_dead_regardless() {
    let mut repo = Repository::create();
    start(&mut repo, "sleep 100".to_string(), None, process(1, "a"));
    start(&mut repo, "sleepy cat".to_string(), None, process(2, "b"));
    start(&mut repo, "Sleep 5".to_string(), None, process(3, "c"));
    start(&mut repo, "echo sleep".to_string(), None, process(4, "d"));
    let plan = plan_kill(&repo, "sleep").unwrap();
    assert!(plan.mark_on_failure);
    assert_eq!(plan.targets.len(), 2);
    apply_kill(&mut repo, &plan, &vec![false, true]);
    let live: Vec<usize> = repo.list().iter().map(|c| c.pid()).collect();
    assert_eq!(live, vec![3, 4]);
}

#[test]
fn kill_by_prefix_takes_wildcards_literally() {
    let mut repo = Repository::create();
    start(&mut repo, "sleep 1".to_string(), None, process(1, "a"));
    start(&mut repo, "s%x".to_string(), None, process(2, "b"));
    let plan = plan_kill(&repo, "s%").unwrap();
    assert_eq!(plan.targets.len(), 1);
    assert_eq!(plan.targets[0].pid(), 2);
    let plan = plan_kill(&repo, "s_").unwrap();
    assert_eq!(plan.targets.len(), 0);
    let plan = plan_kill(&repo, "-1").unwrap();
    assert!(plan.mark_on_failure);
    assert_eq!(plan.targets.len(), 0);
}

#[test]
fn restart_empty_group_is_noop() {
    let mut repo = Repository::create();
    start(&mut repo, "sleep 1".to_string(), Some(3), process(1, "a"));
    repo.restore(record(8, "sleep 8", Some(2)), false);
    let targets = restart_targets(&repo, Some(2));
    assert_eq!(targets.len(), 0);
    let fresh = restart(&mut repo, &targets, Vec::new());
    assert_eq!(fresh.len(), 0);
    assert_eq!(repo.list().len(), 1);
    assert_eq!(repo.list()[0].pid(), 1);
}

#[test]
fn restart_group_replaces_records() {
    let mut repo = Repository::create();
    start(&mut repo, "sleep 1".to_string(), Some(2), process(1, "a"));
    start(&mut repo, "sleep 2".to_string(), Some(2), process(2, "b"));
    start(&mut repo, "sleep 3".to_string(), Some(9), process(3, "c"));
    let targets = restart_targets(&repo, Some(2));
    assert_eq!(targets.len(), 2);
    let fresh = restart(&mut repo, &targets, vec![process(21, "x"), process(22, "y")]);
    assert_eq!(fresh.len(), 2);
    assert_eq!(fresh[0].command(), "sleep 1");
    assert_eq!(fresh[1].command(), "sleep 2");
    let live: Vec<(usize, String, Option<usize>)> =
        repo.list().iter().map(|c| (c.pid(), c.command().to_string(), c.group())).collect();
    assert_eq!(
        live,
        vec![
            (3, "sleep 3".to_string(), Some(9)),
            (21, "sleep 1".to_string(), Some(2)),
            (22, "sleep 2".to_string(), Some(2)),
        ]
    );
    assert_eq!(repo.list_with_group(2).len(), 4);
}

#[test]
fn restart_all_replaces_live_records() {
    let mut repo = Repository::create();
    start(&mut repo, "sleep 1".to_string(), None, process(1, "a"));
    repo.restore(record(2, "old", None), false);
    let targets = restart_targets(&repo, None);
    assert_eq!(targets.len(), 1);
    restart(&mut repo, &targets, vec![process(30, "z")]);
    let live = repo.list();
    assert_eq!(live.len(), 1);
    assert_eq!(live[0].pid(), 30);
    assert_eq!(live[0].command(), "sleep 1");
    assert_eq!(live[0].stdout_path(), "/tmp/out-z");
}

#[test]
fn operation_prefers_subcommand_then_kill_then_start() {
    let args = CLIArgs {
        kill: Some("5".to_string()),
        group: None,
        subcommand: Some(SubCommand::List),
        delegate: vec!["sleep".to_string()],
    };
    assert!(matches!(operation(args), Ok(Operation::List)));
    let args = CLIArgs { kill: Some("5".to_string()), group: None, subcommand: None, delegate: vec![] };
    match operation(args) {
        Ok(Operation::Kill { token }) => assert_eq!(token, "5"),
        _ => panic!("expected a kill"),
    }
    let args = CLIArgs {
        kill: None,
        group: Some(4),
        subcommand: None,
        delegate: vec!["sleep".to_string(), "100".to_string()],
    };
    match operation(args) {
        Ok(Operation::Start { command, group }) => {
            assert_eq!(command, "sleep 100");
            assert_eq!(group, Some(4));
        }
        _ => panic!("expected a start"),
    }
    let args = CLIArgs {
        kill: None,
        group: None,
        subcommand: Some(SubCommand::Restart { group: Some(2) }),
        delegate: vec![],
    };
    assert!(matches!(operation(args), Ok(Operation::Restart { group: Some(2) })));
    let args = CLIArgs { kill: None, group: None, subcommand: Some(SubCommand::Reset), delegate: vec![] };
    assert!(matches!(operation(args), Ok(Operation::Reset)));
}

#[test]
fn operation_without_command_fails() {
    let args = CLIArgs { kill: None, group: Some(1), subcommand: None, delegate: vec![] };
    assert!(matches!(operation(args), Err(UsageError::NoCommand)));
}

#[test]
fn restart_group_skips_dead_rows() {
    let mut repo = Repository::create();
    repo.restore(record(5, "sleep 5", Some(2)), false);
    start(&mut repo, "sleep 6".to_string(), Some(2), process(6, "b"));
    let targets = restart_targets(&repo, Some(2));
    assert_eq!(targets.len(), 1);
    assert_eq!(targets[0].pid(), 6);
    restart(&mut repo, &targets, vec![process(60, "n")]);
    let live = repo.list();
    assert_eq!(live.len(), 1);
    assert_eq!(live[0].pid(), 60);
    assert_eq!(live[0].command(), "sleep 6");
    assert_eq!(repo.list_with_group(2).len(), 3);
}

#[test]
fn kill_group_fallback_skips_dead_rows() {
    let mut repo = Repository::create();
    repo.restore(record(50, "sleep 5", Some(2)), false);
    start(&mut repo, "sleep 6".to_string(), Some(2), process(60, "b"));
    start(&mut repo, "sleep 7".to_string(), Some(3), process(70, "c"));
    let plan = plan_kill(&repo, "2").unwrap();
    assert_eq!(plan.targets.len(), 1);
    assert_eq!(plan.targets[0].pid(), 60);
    let marked = apply_kill(&mut repo, &plan, &vec![true]);
    assert_eq!(marked, vec![true]);
    let live = repo.list();
    assert_eq!(live.len(), 1);
    assert_eq!(live[0].pid(), 70);
}

#[test]
fn apply_kill_reports_marked_targets() {
    let mut repo = Repository::create();
    start(&mut repo, "sleep 1".to_string(), None, process(1, "a"));
    let plan = plan_kill(&repo, "1").unwrap();
    assert_eq!(apply_kill(&mut repo, &plan, &vec![false]), vec![false]);
    let plan = plan_kill(&repo, "sle").unwrap();
    assert_eq!(apply_kill(&mut repo, &plan, &vec![false]), vec![true]);
    assert_eq!(repo.list().len(), 0);
}
