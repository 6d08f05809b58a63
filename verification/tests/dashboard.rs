use dev_dashboard::clock::Timestamp;
use dev_dashboard::config::load_projects;
use dev_dashboard::dashboard::{
    App, DaemonReport, Key, KeyAction, StartAction, StartEvent, StopAction, StopEvent,
};
use dev_dashboard::project::{DaemonInfo, ProcessUsage, ProjectStatus};

const CONFIG: &str = "a='/a,npm start,false'\nb='/b,cargo  run --release ,true'\nc='/c,,false'\n";

fn app() -> App {
    App::new(Some(CONFIG))
}

fn at(seconds: i64) -> Timestamp {
    Timestamp::new(seconds, 0).unwrap()
}

fn usage(cpu: &str, memory_usage: u64) -> Option<ProcessUsage> {
    Some(ProcessUsage { cpu_usage: cpu.to_string(), memory_usage })
}

fn error_of(app: &App, index: usize) -> &str {
    match &app.projects[index].status {
        ProjectStatus::Error(message) => message,
        other => panic!("no error: {:?}", other),
    }
}

#[test]
fn dashboard_opens_with_everything_stopped() {
    let app = app();
    assert_eq!(app.projects.len(), 3);
    assert_eq!(app.running_processes, vec![false, false, false]);
    assert_eq!((app.selected_index, app.output_scroll), (0, 0));
    assert!(!app.should_quit && app.auto_scroll && app.show_system_processes);
    assert!(app.projects.iter().all(|p| matches!(p.status, ProjectStatus::Stopped)));
    assert_eq!(app.new_outputs().len(), 3);
    assert_eq!(App::new(None).projects.len(), 0);
}

#[test]
fn arrows_move_the_selection_within_the_projects() {
    let mut app = app();
    app.handle_key(Key::Up, false);
    assert_eq!(app.selected_index, 0);
    app.handle_key(Key::Down, false);
    app.handle_key(Key::Down, false);
    assert_eq!(app.selected_index, 2);
    app.handle_key(Key::Down, false);
    assert_eq!(app.selected_index, 2);
    app.handle_key(Key::Up, false);
    assert_eq!(app.selected_index, 1);
}

#[test]
fn keys_that_need_a_project() {
    let empty = App::new(None);
    assert!(!empty.can_take_key(Key::Down, false));
    assert!(!empty.can_take_key(Key::Char(' '), false));
    assert!(empty.can_take_key(Key::Down, true));
    assert!(empty.can_take_key(Key::Up, false));
    assert!(app().can_take_key(Key::Down, false));
    assert!(app().can_take_key(Key::Char(' '), false));
    let mut far = app();
    far.output_scroll = usize::MAX;
    assert!(!far.can_take_key(Key::PageDown, false));
    assert!(!far.can_take_key(Key::Down, true));
}

#[test]
fn scrolling_by_hand() {
    let mut app = app();
    app.handle_key(Key::PageUp, false);
    assert!(app.auto_scroll);
    app.handle_key(Key::PageDown, false);
    app.handle_key(Key::Down, true);
    assert_eq!((app.output_scroll, app.auto_scroll, app.selected_index), (2, false, 0));
    app.handle_key(Key::Up, true);
    assert_eq!(app.output_scroll, 1);
    app.handle_key(Key::PageUp, false);
    assert_eq!(app.output_scroll, 0);
    app.handle_key(Key::End, false);
    assert_eq!((app.output_scroll, app.auto_scroll), (0, true));
}

#[test]
fn automatic_scrolling_is_toggled() {
    let mut app = app();
    app.output_scroll = 7;
    app.handle_key(Key::Char('a'), false);
    assert_eq!((app.output_scroll, app.auto_scroll), (7, false));
    app.handle_key(Key::Char('a'), false);
    assert_eq!((app.output_scroll, app.auto_scroll), (0, true));
}

#[test]
fn list_of_system_processes_is_toggled() {
    let mut app = app();
    assert_eq!(app.handle_key(Key::Char('p'), false), KeyAction::Nothing);
    assert!(!app.show_system_processes);
    app.handle_key(Key::Char('p'), true);
    assert!(app.show_system_processes);
}

#[test]
fn quitting() {
    let mut app = app();
    app.note_shutdown(false);
    assert!(!app.should_quit);
    app.handle_key(Key::Char('q'), false);
    assert!(app.should_quit);
    for key in [Key::Up, Key::End, Key::Char('a'), Key::Char('x'), Key::Other] {
        app.handle_key(key, false);
    }
    app.note_shutdown(false);
    assert!(app.should_quit);
    let mut other = App::new(None);
    other.note_shutdown(true);
    assert!(other.should_quit);
}

#[test]
fn daemon_mode_is_switched_and_saved() {
    let mut app = app();
    app.handle_key(Key::Down, false);
    assert_eq!(app.handle_key(Key::Char('d'), false), KeyAction::SaveConfig);
    let modes: Vec<bool> = app.projects.iter().map(|p| p.config.daemon_mode).collect();
    assert_eq!(modes, vec![false, false, false]);
    let again = load_projects(&app.save_projects_config());
    assert_eq!(again.len(), 3);
    assert_eq!(again[1].config.command, "cargo  run --release");
    assert!(!again[1].config.daemon_mode);
    app.handle_key(Key::Char('d'), false);
    assert!(app.projects[1].config.daemon_mode);
    assert_eq!(App::new(None).handle_key(Key::Char('d'), false), KeyAction::Nothing);
}

#[test]
fn space_starts_and_stops() {
    let mut app = app();
    assert_eq!(app.handle_key(Key::Char(' '), false), KeyAction::Start(0));
    app.continue_start(0, StartEvent::Spawned(7), at(0));
    assert_eq!(app.handle_key(Key::Char(' '), false), KeyAction::Stop(0));
    app.continue_start(0, StartEvent::SpawnFailed("no".to_string()), at(0));
    assert_eq!(app.handle_key(Key::Char(' '), false), KeyAction::Start(0));
    assert_eq!(app.handle_key(Key::Char('e'), false), KeyAction::EditConfig);
    assert_eq!(app.handle_key(Key::Char('E'), false), KeyAction::Nothing);
}

#[test]
fn command_is_taken_apart() {
    let app = app();
    let plan = app.start_project(0).unwrap();
    assert_eq!((plan.program.as_str(), plan.args.len()), ("npm", 1));
    assert_eq!((plan.args[0].as_str(), plan.working_dir.as_str(), plan.daemon), ("start", "/a", false));
    let plan = app.start_project(1).unwrap();
    assert_eq!(plan.program, "cargo");
    assert_eq!(plan.args, vec!["run", "--release"]);
    assert!(plan.daemon);
    let plan = app.start_project(2).unwrap();
    assert_eq!((plan.program.as_str(), plan.args.len()), ("ls", 0));
    assert!(app.start_project(3).is_none());
}

#[test]
fn child_is_started_and_stopped() {
    let mut app = app();
    assert!(matches!(app.continue_start(0, StartEvent::Spawned(42), at(5)), StartAction::Finished));
    assert_eq!(app.running_processes, vec![true, false, false]);
    match &app.projects[0].status {
        ProjectStatus::Running { pid, start_time, cpu_usage, memory_usage } => {
            assert_eq!((*pid, *start_time, cpu_usage.as_str(), *memory_usage), (42, at(5), "0.0", 0));
        }
        other => panic!("{:?}", other),
    }
    assert_eq!(app.stop_all_projects(), vec![0]);
    assert!(matches!(app.stop_project(0), StopAction::TerminateChild));
    assert_eq!(app.running_processes, vec![false, false, false]);
    match app.continue_stop(0, StopEvent::Terminated) {
        StopAction::Finish(record) => assert_eq!(record.get_all_output(), "No output yet..."),
        other => panic!("{:?}", other),
    }
    assert!(matches!(app.projects[0].status, ProjectStatus::Stopped));
    assert!(app.stop_all_projects().is_empty());
}

#[test]
fn daemon_is_started_remembered_and_stopped() {
    let mut app = app();
    let info = match app.continue_start(1, StartEvent::Spawned(99), at(5)) {
        StartAction::Remember(info) => info,
        other => panic!("{:?}", other),
    };
    assert_eq!((info.project_name.as_str(), info.pid, info.start_time), ("b", 99, at(5)));
    assert_eq!(info.command, "cargo  run --release");
    assert_eq!(info.working_dir, "/b");
    assert!(matches!(app.projects[1].status, ProjectStatus::Stopped));
    app.continue_start(1, StartEvent::Remembered(99), at(6));
    assert!(matches!(app.projects[1].status, ProjectStatus::Daemon { pid: 99, .. }));
    assert_eq!(app.running_processes, vec![false, false, false]);

    match app.stop_project(1) {
        StopAction::SignalDaemon { args } => assert_eq!(args, vec!["-TERM", "99"]),
        other => panic!("{:?}", other),
    }
    match app.continue_stop(1, StopEvent::Signalled) {
        StopAction::ForgetDaemon { project_name } => assert_eq!(project_name, "b"),
        other => panic!("{:?}", other),
    }
    assert!(matches!(app.continue_stop(1, StopEvent::Forgotten), StopAction::Finish(_)));
    assert!(matches!(app.projects[1].status, ProjectStatus::Stopped));
}

#[test]
fn failures_are_told() {
    let mut app = app();
    app.continue_start(0, StartEvent::SpawnFailed("gone".to_string()), at(0));
    assert_eq!(error_of(&app, 0), "Failed to start: gone");
    app.continue_start(1, StartEvent::SpawnFailed("gone".to_string()), at(0));
    assert_eq!(error_of(&app, 1), "Failed to start daemon: gone");
    app.continue_start(1, StartEvent::NotRemembered("full".to_string()), at(0));
    assert_eq!(error_of(&app, 1), "Failed to save daemon info: full");
    let action = app.continue_stop(1, StopEvent::SignalFailed("denied".to_string()));
    assert!(matches!(action, StopAction::Nothing));
    assert_eq!(error_of(&app, 1), "Failed to stop daemon: denied");
}

#[test]
fn stopping_without_a_process() {
    let mut app = app();
    assert!(matches!(app.stop_project(3), StopAction::Nothing));
    app.continue_start(0, StartEvent::SpawnFailed("gone".to_string()), at(0));
    assert!(matches!(app.stop_project(0), StopAction::Finish(_)));
    assert!(matches!(app.projects[0].status, ProjectStatus::Stopped));
}

#[test]
fn daemons_of_an_earlier_dashboard_are_found() {
    let mut app = app();
    let info = |name: &str, pid: u32| DaemonInfo {
        project_name: name.to_string(),
        pid,
        start_time: at(77),
        command: String::new(),
        working_dir: String::new(),
    };
    let gone = app.discover_daemons(&vec![
        None,
        Some(DaemonReport { info: info("b", 5), usage: usage("1.5", 2048) }),
        Some(DaemonReport { info: info("other", 6), usage: None }),
    ]);
    assert_eq!(gone, vec!["c"]);
    assert!(matches!(app.projects[0].status, ProjectStatus::Stopped));
    match &app.projects[1].status {
        ProjectStatus::Daemon { pid, start_time, cpu_usage, memory_usage } => {
            assert_eq!((*pid, *start_time), (5, at(77)));
            assert_eq!((cpu_usage.as_str(), *memory_usage), ("1.5", 2048));
        }
        other => panic!("{:?}", other),
    }
    assert!(matches!(app.projects[2].status, ProjectStatus::Stopped));
}

#[test]
fn figures_are_taken_over() {
    let mut app = app();
    app.continue_start(0, StartEvent::Spawned(1), at(3));
    app.continue_start(1, StartEvent::Remembered(2), at(4));
    app.continue_start(2, StartEvent::SpawnFailed("x".to_string()), at(4));
    assert_eq!(app.tracked_pids(), vec![Some(1), Some(2), None]);
    app.update_process_info(&vec![usage("9.9", 10), usage("8.8", 20), usage("7.7", 30)]);
    match &app.projects[0].status {
        ProjectStatus::Running { pid, start_time, cpu_usage, memory_usage } => {
            assert_eq!((*pid, *start_time, *memory_usage), (1, at(3), 10));
            assert_eq!(cpu_usage, "9.9");
        }
        other => panic!("{:?}", other),
    }
    assert!(matches!(app.projects[1].status, ProjectStatus::Daemon { pid: 2, memory_usage: 20, .. }));
    assert_eq!(error_of(&app, 2), "Failed to start: x");

    app.update_process_info(&vec![None, None, None]);
    assert!(matches!(app.projects[0].status, ProjectStatus::Stopped));
    assert!(matches!(app.projects[1].status, ProjectStatus::Stopped));
    assert_eq!(error_of(&app, 2), "Failed to start: x");
    assert_eq!(app.running_processes, vec![false, false, false]);
}

#[test]
fn figures_are_not_read_too_often() {
    assert!(!App::needs_update(0));
    assert!(!App::needs_update(499));
    assert!(App::needs_update(500));
}

#[test]
fn edited_configuration_starts_over() {
    let mut app = app();
    app.selected_index = 2;
    app.output_scroll = 4;
    app.continue_start(0, StartEvent::Spawned(1), at(3));
    app.config_edited("x='/x'\ny='/y'\n");
    assert_eq!(app.projects.len(), 2);
    assert_eq!(app.running_processes, vec![false, false]);
    assert_eq!((app.selected_index, app.output_scroll), (0, 4));
    assert!(matches!(app.projects[0].status, ProjectStatus::Stopped));
    app.selected_index = 1;
    app.config_edited("x='/x'\ny='/y'\n");
    assert_eq!(app.selected_index, 1);
}

#[test]
fn closing_leaves_daemons_alone() {
    let mut app = app();
    app.continue_start(0, StartEvent::Spawned(42), at(5));
    app.continue_start(1, StartEvent::Spawned(99), at(5));
    app.continue_start(1, StartEvent::Remembered(99), at(6));
    assert!(matches!(app.projects[1].status, ProjectStatus::Daemon { pid: 99, .. }));
    assert_eq!(app.stop_all_projects(), vec![0]);
    assert!(matches!(app.stop_project(0), StopAction::TerminateChild));
    app.continue_stop(0, StopEvent::Terminated);
    assert!(matches!(app.projects[1].status, ProjectStatus::Daemon { pid: 99, .. }));
    assert!(app.stop_all_projects().is_empty());
}

#[test]
fn every_project_keeps_its_place_and_record() {
    let mut app = app();
    app.handle_key(Key::Down, false);
    app.continue_start(0, StartEvent::Spawned(42), at(5));
    app.update_process_info(&vec![None, None, None]);
    app.handle_key(Key::Down, false);
    app.config_edited("a=/a\nb=/b\n");
    assert_eq!((app.projects.len(), app.running_processes.len()), (2, 2));
    assert_eq!((app.new_outputs().len(), app.selected_index), (2, 0));
    app.handle_key(Key::Down, false);
    app.config_edited("c=/c\nd=/d\n");
    assert_eq!((app.projects.len(), app.running_processes.len()), (2, 2));
    assert_eq!((app.new_outputs().len(), app.selected_index), (2, 1));
}

#[test]
fn closing_stops_every_child() {
    let mut app = App::new(Some("a=/a\nb='/b,ls,true'\nc=/c\nd=/d\n"));
    app.continue_start(0, StartEvent::Spawned(1), at(5));
    app.continue_start(1, StartEvent::Remembered(2), at(5));
    app.continue_start(2, StartEvent::Spawned(3), at(5));
    app.continue_start(3, StartEvent::SpawnFailed("no".to_string()), at(5));
    for index in app.stop_all_projects() {
        assert!(matches!(app.stop_project(index), StopAction::TerminateChild));
        app.continue_stop(index, StopEvent::Terminated);
    }
    assert!(matches!(app.projects[0].status, ProjectStatus::Stopped));
    assert!(matches!(app.projects[1].status, ProjectStatus::Daemon { pid: 2, .. }));
    assert!(matches!(app.projects[2].status, ProjectStatus::Stopped));
    assert_eq!(error_of(&app, 3), "Failed to start: no");
    assert_eq!(app.running_processes, vec![false; 4]);
}
