use dev_dashboard::clock::Timestamp;
use dev_dashboard::dashboard::{App, StartEvent};
use dev_dashboard::layout::{arrange, divide_screen, Area};
use dev_dashboard::output::ProcessOutput;
use dev_dashboard::processes::SystemProcess;
use dev_dashboard::project::ProcessUsage;
use dev_dashboard::screen::{can_shorten, format_project, format_system_process, shorten, Screen};

const AREA: Area = Area { x: 0, y: 0, width: 100, height: 40 };

fn at(seconds: i64) -> Timestamp {
    Timestamp::new(seconds, 0).unwrap()
}

fn app() -> App {
    App::new(Some("a='/a,npm start,false'\nb='/b,cargo run,true'\n"))
}

fn usage(cpu: &str, memory_usage: u64) -> Option<ProcessUsage> {
    Some(ProcessUsage { cpu_usage: cpu.to_string(), memory_usage })
}

fn ui(app: &mut App, output: Option<&ProcessOutput>) -> Screen {
    app.ui_at(AREA, at(1000), output, &Vec::new())
}

#[test]
fn entries_of_projects() {
    let mut app = app();
    let entry = format_project(&app.projects[0], true, at(0));
    assert_eq!((entry.marker.as_str(), entry.name.as_str()), ("🔴 ", "a"));
    assert_eq!((entry.detail.as_str(), entry.selected), ("\n  Stopped", true));
    assert_eq!(format_project(&app.projects[1], false, at(0)).detail, "\n  Stopped (daemon)");

    app.continue_start(0, StartEvent::Spawned(42), at(0));
    app.continue_start(1, StartEvent::Remembered(43), at(0));
    app.update_process_info(&vec![usage("12.3", 5 * 1024 * 1024 + 7), usage("0.0", 1024 * 1024 - 1)]);
    let entry = format_project(&app.projects[0], true, at(59));
    assert_eq!((entry.marker.as_str(), entry.detail.as_str()), ("🟢 ", "\n  PID:42 12.3% 5MB 59s"));
    let entry = format_project(&app.projects[1], false, at(150));
    assert_eq!(
        (entry.marker.as_str(), entry.detail.as_str()),
        ("🔵 ", "\n  DAEMON PID:43 0.0% 0MB 2m")
    );

    app.continue_start(0, StartEvent::SpawnFailed("No such file".to_string()), at(0));
    let entry = format_project(&app.projects[0], true, at(59));
    assert_eq!((entry.marker.as_str(), entry.detail.as_str()), ("🟡 ", "\n  Error: Failed to start: No "));
}

#[test]
fn process_ids_are_signed() {
    let mut app = app();
    app.continue_start(0, StartEvent::Spawned(u32::MAX), at(0));
    assert_eq!(format_project(&app.projects[0], true, at(0)).detail, "\n  PID:-1 0.0% 0MB 0s");
    app.continue_start(0, StartEvent::Spawned(0x7fff_ffff), at(0));
    assert_eq!(
        format_project(&app.projects[0], true, at(0)).detail,
        "\n  PID:2147483647 0.0% 0MB 0s"
    );
}

#[test]
fn errors_are_cut_between_characters() {
    assert_eq!(shorten("short"), "short");
    assert_eq!(shorten("exactly twenty bytes"), "exactly twenty bytes");
    assert_eq!(shorten("exactly twenty bytes!"), "exactly twenty bytes");
    assert_eq!(shorten("éééééééééé and more"), "éééééééééé");
    assert!(can_shorten("éééééééééé and more"));
    assert!(!can_shorten("xéééééééééé and more"));
    assert!(can_shorten("xééééééééé"));
}

#[test]
fn screen_with_an_uncuttable_error_is_told() {
    let mut app = app();
    assert!(app.can_present());
    app.continue_start(0, StartEvent::SpawnFailed("xx€".to_string()), at(0));
    assert!(!app.can_present());
    app.continue_start(0, StartEvent::SpawnFailed("xxx€".to_string()), at(0));
    assert!(app.can_present());
}

#[test]
fn entry_of_a_system_process() {
    let entry = format_system_process(&SystemProcess {
        name: "Node".to_string(),
        pid: u32::MAX,
        cpu_rank: 1,
        cpu_usage: "99.9".to_string(),
        memory: 3 * 1024 * 1024,
    });
    assert_eq!((entry.marker.as_str(), entry.name.as_str()), ("🔹 ", "Node"));
    assert_eq!(entry.detail, "\n  PID:4294967295 99.9% 3MB");
}

#[test]
fn stopped_project() {
    let mut app = app();
    let screen = ui(&mut app, None);
    assert_eq!(screen.output_heading, "📋 a - npm start");
    assert_eq!(
        screen.output.text,
        "🔴 Process is stopped\n\nPath: /a\nCommand: npm start\n\nPress SPACE to start this project"
    );
    assert_eq!(screen.output.title, "Output");
    assert_eq!(
        screen.output_keys,
        "Q Quit | Shift+↑↓ Scroll | PgUp/PgDn | End Bottom | A Toggle Auto (AUTO)"
    );
    let selected: Vec<bool> = screen.projects.iter().map(|e| e.selected).collect();
    assert_eq!(selected, vec![true, false]);
}

#[test]
fn running_project() {
    let mut app = app();
    app.continue_start(0, StartEvent::Spawned(42), at(880));
    let mut output = ProcessOutput::new(10);
    output.add_stdout("ready".to_string());
    let screen = ui(&mut app, Some(&output));
    let rule = "─".repeat(50);
    assert_eq!(
        screen.output.text,
        format!(
            "🟢 Process is running\n\nPID: 42 | CPU: 0.0% | Memory: 0 MB | Uptime: 2 minutes\n\
             Path: /a\nCommand: npm start\n\n{rule}\n\n=== STDOUT ===\nready"
        )
    );
    let screen = ui(&mut app, None);
    assert!(screen.output.text.ends_with("─\n\nError reading output"));
}

#[test]
fn daemon_project() {
    let mut app = app();
    app.selected_index = 1;
    app.continue_start(1, StartEvent::Remembered(43), at(990));
    let screen = ui(&mut app, None);
    assert!(screen.output.text.starts_with(
        "🔵 Process is running as DAEMON\n\nPID: 43 | CPU: 0.0% | Memory: 0 MB | Uptime: 10 seconds\n"
    ));
    assert!(screen.output.text.ends_with(
        "\n\nDaemon processes run in the background without output capture.\n\
         They will continue running even if you close the dashboard.\n\
         Use 'ps aux | grep <command>' to see their output in the terminal."
    ));
}

#[test]
fn failed_project() {
    let mut app = app();
    app.continue_start(0, StartEvent::SpawnFailed("gone".to_string()), at(0));
    assert_eq!(
        ui(&mut app, None).output.text,
        "🟡 Error occurred\n\nError: Failed to start: gone\nPath: /a\nCommand: npm start\n\n\
         Check your configuration and try again"
    );
}

#[test]
fn no_project() {
    let mut app = App::new(None);
    let screen = ui(&mut app, None);
    assert_eq!(screen.output_heading, "📋 Output");
    assert_eq!(screen.output.text, "No project selected");
    assert!(screen.projects.is_empty());
}

#[test]
fn system_processes_are_listed_where_they_are_shown() {
    let all = vec![SystemProcess {
        name: "NODE".to_string(),
        pid: 5,
        cpu_rank: 1,
        cpu_usage: "1.0".to_string(),
        memory: 0,
    }];
    let mut app = app();
    let screen = app.ui_at(AREA, at(0), None, &all);
    assert_eq!(screen.system.len(), 1);
    assert!(screen.panels.system.is_some());
    app.toggle_system_processes();
    let screen = app.ui_at(AREA, at(0), None, &all);
    assert!(screen.system.is_empty());
    assert!(screen.panels.system.is_none());
}

fn numbered(n: usize) -> Vec<String> {
    (0..n).map(|i| i.to_string()).collect()
}

#[test]
fn end_of_the_output_is_kept_in_view() {
    let mut app = app();
    let view = app.view_output(&numbered(10), 6);
    assert_eq!((view.text.as_str(), view.title.as_str()), ("6\n7\n8\n9", "Output (100%)"));
    assert_eq!(app.output_scroll, 6);
}

#[test]
fn scrolled_output_stays_where_it_is() {
    let mut app = app();
    app.auto_scroll = false;
    app.output_scroll = 2;
    let view = app.view_output(&numbered(10), 6);
    assert_eq!((view.text.as_str(), view.title.as_str()), ("2\n3\n4\n5", "Output (33%)"));
    app.output_scroll = 50;
    let view = app.view_output(&numbered(10), 6);
    assert_eq!((view.text.as_str(), app.output_scroll), ("6\n7\n8\n9", 6));
    app.output_scroll = 0;
    assert_eq!(app.view_output(&numbered(10), 6).title, "Output (0%)");
}

#[test]
fn output_that_fits_is_shown_whole() {
    let mut app = app();
    app.auto_scroll = false;
    app.output_scroll = 3;
    let view = app.view_output(&numbered(4), 6);
    assert_eq!((view.text.as_str(), view.title.as_str()), ("0\n1\n2\n3", "Output"));
    assert_eq!(app.output_scroll, 0);
}

#[test]
fn panel_without_room_shows_nothing() {
    for height in [0, 1, 2] {
        let mut app = app();
        let view = app.view_output(&numbered(3), height);
        assert_eq!((view.text.as_str(), view.title.as_str()), ("", "Output (100%)"));
        assert_eq!(app.output_scroll, 3);
    }
}

#[test]
fn screen_is_divided() {
    let panels = divide_screen(AREA, true);
    assert_eq!(panels.title, Area { x: 0, y: 0, width: 30, height: 3 });
    assert_eq!(panels.output_header, Area { x: 30, y: 0, width: 70, height: 3 });
    assert_eq!(panels.output, Area { x: 30, y: 3, width: 70, height: 34 });
    assert_eq!(panels.output_instructions, Area { x: 30, y: 37, width: 70, height: 3 });
    let panels = divide_screen(AREA, false);
    assert_eq!(panels.projects, Area { x: 0, y: 3, width: 30, height: 34 });
    assert_eq!(panels.system, None);
    assert_eq!(panels.instructions, Area { x: 0, y: 37, width: 30, height: 3 });
}

#[test]
fn parts_are_put_to_their_use() {
    let part = |y: u16| Area { x: 1, y, width: 2, height: 3 };
    let right = vec![part(10), part(11), part(12)];
    let panels = arrange(&vec![part(0), part(1), part(2), part(3), part(4)], &right, true);
    assert_eq!((panels.title, panels.projects), (part(0), part(1)));
    assert_eq!(panels.system, Some((part(2), part(3))));
    assert_eq!(panels.instructions, part(4));
    assert_eq!((panels.output_header, panels.output), (part(10), part(11)));
    assert_eq!(panels.output_instructions, part(12));
    let panels = arrange(&vec![part(0), part(1), part(2)], &right, false);
    assert_eq!((panels.system, panels.instructions), (None, part(2)));
}

#[test]
fn screen_is_composed_at_the_current_time() {
    let before = Timestamp::now();
    let mut app = app();
    app.continue_start(0, StartEvent::Spawned(42), at(before.seconds() - 3600));
    let screen = app.ui(AREA, None, &Vec::new());
    assert!(screen.time.seconds() >= before.seconds());
    assert!(before.seconds() > 1_600_000_000);
    assert!(screen.output.text.contains(" minutes\n"));
    let again = app.ui_at(AREA, screen.time, None, &Vec::new());
    assert_eq!(screen.output.text, again.output.text);
}

#[test]
fn panels_are_on_screen() {
    let inside = |part: Area, area: Area| {
        assert!(area.x <= part.x && part.x + part.width <= area.x + area.width);
        assert!(area.y <= part.y && part.y + part.height <= area.y + area.height);
    };
    for width in [0, 1, 2, 3, 7, 10, 79, 80, 133, 1000] {
        for height in [0, 1, 2, 5, 6, 8, 9, 23, 24, 61] {
            let area = Area { x: 3, y: 2, width, height };
            for show in [true, false] {
                let panels = divide_screen(area, show);
                inside(panels.title, area);
                inside(panels.projects, area);
                inside(panels.instructions, area);
                inside(panels.output_header, area);
                inside(panels.output, area);
                inside(panels.output_instructions, area);
                if let Some((title, list)) = panels.system {
                    inside(title, area);
                    inside(list, area);
                }
            }
        }
    }
}

#[test]
fn output_gets_the_rows_that_title_and_keys_leave() {
    for height in 0..70 {
        for y in [0, 1, 5] {
            let area = Area { x: 0, y, width: 80, height };
            for show in [true, false] {
                let panels = divide_screen(area, show);
                assert_eq!(panels.output.height, height.saturating_sub(6));
                if height >= 6 {
                    assert_eq!((panels.output_header.y, panels.output_header.height), (y, 3));
                    assert_eq!(panels.output.y, y + 3);
                    let keys = panels.output_instructions;
                    assert_eq!((keys.y, keys.height), (y + height - 3, 3));
                }
                if !show {
                    assert_eq!(panels.projects.height, height.saturating_sub(6));
                }
            }
        }
    }
    for height in [1000, 65_535] {
        let area = Area { x: 0, y: 0, width: 80, height };
        assert_eq!(divide_screen(area, false).output.height, height - 6);
    }
    let area = Area { x: 0, y: 65_500, width: 80, height: 100 };
    assert_eq!(divide_screen(area, false).output.height, 29);
}

#[test]
fn drawing_again_changes_nothing() {
    let mut app = app();
    app.continue_start(0, StartEvent::Spawned(42), at(1000));
    let mut output = ProcessOutput::new(100);
    for i in 0..80 {
        output.add_stdout(i.to_string());
    }
    app.auto_scroll = false;
    app.output_scroll = 500;
    let first = app.ui_at(AREA, at(1030), Some(&output), &Vec::new());
    let scroll = app.output_scroll;
    let second = app.ui_at(AREA, at(100_000), Some(&output), &Vec::new());
    assert_eq!(app.output_scroll, scroll);
    assert_eq!(first.output.title, second.output.title);
    assert_eq!(first.output.title, "Output (100%)");
    assert!(!app.auto_scroll && app.projects.len() == 2);
}

#[test]
fn columns_share_the_width() {
    for x in [0, 1, 7] {
        for width in 0..400 {
            let panels = divide_screen(Area { x, y: 0, width, height: 30 }, true);
            let first = (30 * width + 50) / 100;
            assert_eq!((panels.title.x, panels.title.width), (x, first));
            assert_eq!((panels.output.x, panels.output.width), (x + first, width - first));
        }
    }
}

#[test]
fn panels_cover_none_of_each_other() {
    for y in [0, 3] {
        for height in 0..200 {
            for show in [true, false] {
                let panels = divide_screen(Area { x: 0, y, width: 90, height }, show);
                let mut left = vec![panels.title, panels.projects];
                if let Some((title, list)) = panels.system {
                    left.push(title);
                    left.push(list);
                }
                left.push(panels.instructions);
                let right = vec![panels.output_header, panels.output, panels.output_instructions];
                for column in [left, right] {
                    for pair in column.windows(2) {
                        assert!(pair[0].y + pair[0].height <= pair[1].y);
                    }
                }
            }
        }
    }
}
