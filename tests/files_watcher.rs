use eagleeye::action::{Action, ActionError, Effect};
use eagleeye::command::CommandAction;
use eagleeye::config::{watch_from_config, watch_from_flags, Config, ConfigError, SettingsConfig, WatcherSettings};
use eagleeye::event::{is_file_changed_event, ChangeKind, RawEvent};
use eagleeye::files_watcher::{DispatchPlan, FilesWatcher, Step};
use eagleeye::print::PrintAction;

fn prints(n: usize) -> Vec<Action> {
    (0..n).map(|_| Action::Print(PrintAction::new())).collect()
}

fn event(kind: ChangeKind, path: &str) -> RawEvent {
    RawEvent::new(kind).add_path(path.to_string())
}

/// The outcomes a caller reports when every prepared effect is carried out.
fn run_all(plan: &DispatchPlan) -> Vec<bool> {
    plan.steps
        .iter()
        .map(|step| matches!(step, Step::Run(Ok(_))))
        .collect()
}

#[test]
fn is_file_changed_event_read_access() {
    assert!(!is_file_changed_event(&RawEvent::new(ChangeKind::Access)));
}

#[test]
fn is_file_changed_event_modified() {
    assert!(is_file_changed_event(&RawEvent::new(ChangeKind::Modify)));
}

#[test]
fn changes_and_non_changes() {
    assert!(is_file_changed_event(&RawEvent::new(ChangeKind::Create)));
    assert!(is_file_changed_event(&RawEvent::new(ChangeKind::Remove)));
    assert!(!is_file_changed_event(&RawEvent::new(ChangeKind::Other)));
}

#[test]
fn watch_file_and_execute_no_actions() {
    let mut fw = FilesWatcher::new();
    fw.add_file("/tmp/eagleeye-test-a".to_string(), Vec::new(), true);
    let plan = fw.dispatch(&event(ChangeKind::Modify, "/tmp/eagleeye-test-a"));
    let actions_executed = plan.summarize(&run_all(&plan));
    assert_eq!(0, actions_executed.num_actions);
    assert!(actions_executed.was_file_changed);
}

#[test]
fn watch_file_and_execute_no_file_change() {
    let mut fw = FilesWatcher::new();
    fw.add_file("/tmp/eagleeye-test-b".to_string(), prints(1), true);
    let plan = fw.dispatch(&event(ChangeKind::Access, "/tmp/eagleeye-test-b"));
    let execution_result = plan.summarize(&run_all(&plan));
    assert_eq!(0, execution_result.num_actions);
    assert!(!execution_result.was_file_changed);
}

#[test]
fn watch_file_and_execute_one_print_action() {
    let mut fw = FilesWatcher::new();
    fw.add_file("/tmp/eagleeye-test-c".to_string(), prints(1), true);
    let plan = fw.dispatch(&event(ChangeKind::Modify, "/tmp/eagleeye-test-c"));
    let execution_result = plan.summarize(&run_all(&plan));
    assert_eq!(1, execution_result.num_actions);
    assert!(execution_result.was_file_changed);
}

#[test]
fn watch_file_and_execute_five_print_actions() {
    let mut fw = FilesWatcher::new();
    fw.add_file("/tmp/eagleeye-test-d".to_string(), prints(5), true);
    let plan = fw.dispatch(&event(ChangeKind::Modify, "/tmp/eagleeye-test-d"));
    let execution_result = plan.summarize(&run_all(&plan));
    assert_eq!(5, execution_result.num_actions);
    assert!(execution_result.was_file_changed);
}

#[test]
fn non_change_runs_nothing_whatever_is_registered() {
    let mut fw = FilesWatcher::new();
    fw.add_file("/tmp/f".to_string(), prints(3), true);
    for kind in [ChangeKind::Access, ChangeKind::Other] {
        let plan = fw.dispatch(&event(kind, "/tmp/f"));
        assert!(plan.steps.is_empty());
        let result = plan.summarize(&vec![true, true, true]);
        assert_eq!(result.num_actions, 0);
        assert!(!result.was_file_changed);
    }
}

#[test]
fn change_without_paths_runs_nothing() {
    let mut fw = FilesWatcher::new();
    fw.add_file("/tmp/f".to_string(), prints(2), true);
    let plan = fw.dispatch(&RawEvent::new(ChangeKind::Remove));
    assert!(plan.steps.is_empty());
    let result = plan.summarize(&Vec::new());
    assert_eq!(result.num_actions, 0);
    assert!(result.was_file_changed);
}

#[test]
fn actions_run_in_registration_order_and_failures_are_isolated() {
    let mut fw = FilesWatcher::new();
    let actions = vec![
        Action::Command(CommandAction::new("first {:p}".to_string(), true)),
        Action::Command(CommandAction::new("   ".to_string(), true)),
        Action::Print(PrintAction::new()),
        Action::Command(CommandAction::new("third".to_string(), false)),
    ];
    fw.add_file("/tmp/f".to_string(), actions, true);
    let plan = fw.dispatch(&event(ChangeKind::Modify, "/tmp/f"));
    assert_eq!(plan.steps.len(), 4);
    match &plan.steps[0] {
        Step::Run(Ok(Effect::Run(inv))) => {
            assert_eq!(inv.program, "first");
            assert_eq!(inv.args, vec!["/tmp/f".to_string()]);
        }
        _ => panic!("expected the first command"),
    }
    assert!(matches!(plan.steps[1], Step::Run(Err(ActionError::EmptyCommand))));
    assert!(matches!(plan.steps[2], Step::Run(Ok(Effect::Print(_)))));
    match &plan.steps[3] {
        Step::Run(Ok(Effect::Run(inv))) => assert_eq!(inv.program, "third"),
        _ => panic!("expected the third command"),
    }
    // The first program fails to start; the others still count.
    let result = plan.summarize(&vec![false, true, true, true]);
    assert_eq!(result.num_actions, 2);
    assert!(result.was_file_changed);
}

#[test]
fn missing_outcomes_count_as_failures() {
    let mut fw = FilesWatcher::new();
    fw.add_file("/tmp/f".to_string(), prints(3), true);
    let plan = fw.dispatch(&event(ChangeKind::Create, "/tmp/f"));
    assert_eq!(plan.summarize(&vec![true]).num_actions, 1);
}

#[test]
fn quiet_command_that_cannot_start_is_an_action_failure() {
    let mut fw = FilesWatcher::new();
    let actions = vec![Action::Command(CommandAction::new(
        "command_does_not_exist {:p}".to_string(),
        true,
    ))];
    fw.add_file("/tmp/f".to_string(), actions, true);
    let plan = fw.dispatch(&event(ChangeKind::Modify, "/tmp/f"));
    assert_eq!(plan.steps.len(), 1);
    match &plan.steps[0] {
        Step::Run(Ok(Effect::Run(inv))) => {
            assert_eq!(inv.program, "command_does_not_exist");
            assert!(inv.quiet);
        }
        _ => panic!("expected a command to run"),
    }
    // The caller could not start the program.
    let result = plan.summarize(&vec![false]);
    assert_eq!(result.num_actions, 0);
    assert!(result.was_file_changed);
}

#[test]
fn reregistering_replaces_actions() {
    let mut fw = FilesWatcher::new();
    fw.add_file("/tmp/f".to_string(), prints(3), true);
    fw.add_file("/tmp/g".to_string(), prints(2), true);
    fw.add_file("/tmp/f".to_string(), prints(1), true);
    assert_eq!(fw.resolve(&"/tmp/f".to_string()).unwrap().len(), 1);
    assert_eq!(fw.resolve(&"/tmp/g".to_string()).unwrap().len(), 2);
    let plan = fw.dispatch(&event(ChangeKind::Modify, "/tmp/f"));
    assert_eq!(plan.summarize(&run_all(&plan)).num_actions, 1);
}

#[test]
fn refused_watch_is_not_registered() {
    let mut fw = FilesWatcher::new();
    fw.add_file("/tmp/f".to_string(), prints(1), false);
    assert!(fw.resolve(&"/tmp/f".to_string()).is_none());
    let plan = fw.dispatch(&event(ChangeKind::Modify, "/tmp/f"));
    assert_eq!(plan.steps.len(), 1);
    assert!(matches!(&plan.steps[0], Step::NoActions(p) if p == "/tmp/f"));
    assert_eq!(plan.summarize(&vec![true]).num_actions, 0);
}

#[test]
fn lookup_is_exact() {
    let mut fw = FilesWatcher::new();
    fw.add_file("/tmp".to_string(), prints(1), true);
    assert!(fw.resolve(&"/tmp/f".to_string()).is_none());
    assert!(fw.resolve(&"/tm".to_string()).is_none());
    assert!(fw.resolve(&"/tmp".to_string()).is_some());
}

#[test]
fn paths_are_handled_in_event_order() {
    let mut fw = FilesWatcher::new();
    fw.add_file("/a".to_string(), prints(1), true);
    fw.add_file(
        "/c".to_string(),
        vec![Action::Command(CommandAction::new("echo {:p}".to_string(), false))],
        true,
    );
    let ev = RawEvent::new(ChangeKind::Modify)
        .add_path("/c".to_string())
        .add_path("/b".to_string())
        .add_path("/a".to_string());
    let plan = fw.dispatch(&ev);
    assert_eq!(plan.steps.len(), 3);
    match &plan.steps[0] {
        Step::Run(Ok(Effect::Run(inv))) => assert_eq!(inv.args, vec!["/c".to_string()]),
        _ => panic!("expected the command of /c"),
    }
    assert!(matches!(&plan.steps[1], Step::NoActions(p) if p == "/b"));
    match &plan.steps[2] {
        Step::Run(Ok(Effect::Print(lines))) => assert_eq!(lines.len(), 3),
        _ => panic!("expected the print action of /a"),
    }
    assert_eq!(plan.summarize(&vec![true, true, true]).num_actions, 2);
}

#[test]
fn print_action_reports_modification() {
    let mut fw = FilesWatcher::new();
    fw.add_file("/tmp/f".to_string(), prints(1), true);
    let plan = fw.dispatch(&event(ChangeKind::Modify, "/tmp/f"));
    match &plan.steps[0] {
        Step::Run(Ok(Effect::Print(lines))) => {
            assert_eq!(lines.len(), 1);
            assert!(lines[0].contains("modified"));
            assert!(lines[0].contains("/tmp/f"));
        }
        _ => panic!("expected a line to print"),
    }
    let result = plan.summarize(&vec![true]);
    assert_eq!(result.num_actions, 1);
    assert!(result.was_file_changed);
}

#[test]
fn quiet_touch_command_on_create() {
    let mut fw = FilesWatcher::new();
    let actions = vec![Action::Command(CommandAction::new("touch /tmp/done".to_string(), true))];
    fw.add_file("/tmp/f".to_string(), actions, true);
    let plan = fw.dispatch(&event(ChangeKind::Create, "/tmp/f"));
    match &plan.steps[..] {
        [Step::Run(Ok(Effect::Run(inv)))] => {
            assert_eq!(inv.program, "touch");
            assert_eq!(inv.args, vec!["/tmp/done".to_string()]);
            assert!(inv.quiet);
        }
        _ => panic!("expected one command to run"),
    }
    let result = plan.summarize(&vec![true]);
    assert_eq!(result.num_actions, 1);
    assert!(result.was_file_changed);
}

fn watcher(action_type: &str, execute: &str, path: &str) -> WatcherSettings {
    WatcherSettings {
        action_type: action_type.to_string(),
        execute: execute.to_string(),
        path: path.to_string(),
    }
}

#[test]
fn config_without_watchers_is_refused() {
    let config = Config { settings: None, watchers: None };
    assert!(matches!(watch_from_config(&config), Err(ConfigError::NoWatchers)));
}

#[test]
fn config_with_empty_watchers_registers_nothing() {
    let config = Config { settings: None, watchers: Some(Vec::new()) };
    assert!(watch_from_config(&config).ok().unwrap().is_empty());
}

#[test]
fn config_registers_each_watcher_in_order() {
    let config = Config {
        settings: Some(SettingsConfig { quiet: Some(true) }),
        watchers: Some(vec![
            watcher("command", "make {:p}", "/src"),
            watcher("print", "ls", "/other"),
            watcher("command", "ls {:p}", "/third"),
        ]),
    };
    let entries = watch_from_config(&config).ok().unwrap();
    assert_eq!(entries.len(), 3);
    assert_eq!(entries[1].path, "/other");
    assert!(entries[1].actions.is_empty());
    assert_eq!(entries[2].path, "/third");
    assert_eq!(entries[2].actions.len(), 1);
    let entry = &entries[0];
    assert_eq!(entry.path, "/src");
    assert_eq!(entry.actions.len(), 1);
    match &entry.actions[0] {
        Action::Command(c) => {
            let inv = c.get_command(&event(ChangeKind::Modify, "/src/x")).ok().unwrap();
            assert_eq!(inv.program, "make");
            assert!(inv.quiet);
        }
        Action::Print(_) => panic!("expected a command action"),
    }
}

#[test]
fn config_quiet_defaults_to_false() {
    for settings in [None, Some(SettingsConfig { quiet: None })] {
        let config = Config { settings, watchers: Some(vec![watcher("command", "ls", "/d")]) };
        let entries = watch_from_config(&config).ok().unwrap();
        match &entries[0].actions[0] {
            Action::Command(c) => {
                assert!(!c.get_command(&event(ChangeKind::Modify, "/d")).ok().unwrap().quiet)
            }
            Action::Print(_) => panic!("expected a command action"),
        }
    }
}

#[test]
fn config_other_action_type_has_no_actions() {
    let config = Config { settings: None, watchers: Some(vec![watcher("print", "ls", "/d")]) };
    let entries = watch_from_config(&config).ok().unwrap();
    assert_eq!(entries.len(), 1);
    assert_eq!(entries[0].path, "/d");
    assert!(entries[0].actions.is_empty());
}

#[test]
fn flags_register_print_then_command() {
    let entry = watch_from_flags(false, Some("echo {:p}".to_string()), Some("/d".to_string())).unwrap();
    assert_eq!(entry.path, "/d");
    assert_eq!(entry.actions.len(), 2);
    assert!(matches!(entry.actions[0], Action::Print(_)));
    assert!(matches!(entry.actions[1], Action::Command(_)));
}

#[test]
fn quiet_flags_drop_the_print_action() {
    let entry = watch_from_flags(true, Some("echo".to_string()), Some("/d".to_string())).unwrap();
    assert_eq!(entry.actions.len(), 1);
    assert!(matches!(entry.actions[0], Action::Command(_)));
    let entry = watch_from_flags(true, None, Some("/d".to_string())).unwrap();
    assert!(entry.actions.is_empty());
}

#[test]
fn flags_without_path_register_nothing() {
    assert!(watch_from_flags(false, Some("echo".to_string()), None).is_none());
}

#[test]
fn default_registry_is_empty() {
    let fw: FilesWatcher = Default::default();
    assert!(fw.resolve(&"/".to_string()).is_none());
}
