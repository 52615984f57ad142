use applist::launch::{exec_command, selection_needs_terminal, terminal_program};
use applist::{
    command_line, execute_gio_launch, handle_selection, AppInfo, CommandLine, LaunchEvent, LaunchStep,
};

fn app(name: &str, path: &str, terminal: bool) -> AppInfo {
    AppInfo {
        name: name.to_string(),
        description: None,
        path: path.to_string(),
        icon: Some("icon".to_string()),
        emoji: None,
        terminal,
    }
}

fn catalog() -> Vec<AppInfo> {
    vec![
        app("Firefox", "firefox", false),
        app("Top", "/usr/share/applications/top.desktop", true),
        app("Top again", "/usr/share/applications/top.desktop", false),
        app("Editor", "/usr/share/applications/editor.desktop", false),
    ]
}

fn exited(success: bool) -> LaunchEvent {
    LaunchEvent::Exited { success }
}

fn text(content: &str) -> LaunchEvent {
    LaunchEvent::Descriptor { content: content.to_string() }
}

fn line(program: &str, arguments: &[&str]) -> Option<CommandLine> {
    Some(CommandLine {
        program: program.to_string(),
        arguments: arguments.iter().map(|a| a.to_string()).collect(),
    })
}

fn every_event() -> Vec<LaunchEvent> {
    vec![
        exited(true),
        exited(false),
        LaunchEvent::Started,
        LaunchEvent::Unavailable,
        text("Exec=app"),
        text("nothing"),
    ]
}

#[test]
fn handle_selection_test() {
    let apps = catalog();
    let selection = "firefox";
    let mut step = handle_selection(Some(&apps), selection);
    let mut result = None;
    for _ in 0..32 {
        step = match step {
            LaunchStep::Done { success } => {
                result = Some(success);
                break;
            }
            LaunchStep::ReadDescriptor { .. } => execute_gio_launch(step, text("Exec=firefox %u\n")),
            LaunchStep::Spawn { .. } => execute_gio_launch(step, LaunchEvent::Started),
            _ => execute_gio_launch(step, exited(true)),
        };
    }
    let result = result.unwrap();
    assert!(result);
}

#[test]
fn a_selection_starts_with_the_validation() {
    let apps = catalog();
    assert_eq!(handle_selection(Some(&apps), "firefox"), LaunchStep::Validate { terminal: false });
    assert_eq!(
        handle_selection(Some(&apps), "/usr/share/applications/top.desktop"),
        LaunchStep::Validate { terminal: true }
    );
    assert_eq!(
        handle_selection(Some(&apps), "/usr/share/applications/editor.desktop"),
        LaunchStep::Validate { terminal: false }
    );
}

#[test]
fn an_unknown_selection_is_launched_without_a_terminal() {
    let apps = catalog();
    assert_eq!(handle_selection(Some(&apps), "/nowhere/x.desktop"), LaunchStep::Validate { terminal: false });
    assert_eq!(handle_selection(Some(&apps), "Top"), LaunchStep::Validate { terminal: false });
    assert_eq!(handle_selection(Some(&apps), ""), LaunchStep::Validate { terminal: false });
    assert_eq!(handle_selection(Some(&Vec::new()), "firefox"), LaunchStep::Validate { terminal: false });
    assert_eq!(
        handle_selection(None, "/usr/share/applications/top.desktop"),
        LaunchStep::Validate { terminal: false }
    );
    let first = handle_selection(Some(&apps), "/nowhere/x.desktop");
    let second = execute_gio_launch(first, LaunchEvent::Unavailable);
    assert_eq!(second, LaunchStep::DirectLaunch);
    let third = execute_gio_launch(second, exited(false));
    assert_eq!(third, LaunchStep::OpenByPath);
    assert_eq!(execute_gio_launch(third, exited(true)), LaunchStep::Done { success: true });
}

#[test]
fn the_direct_chain_never_reaches_a_terminal() {
    let mut reached = vec![LaunchStep::Validate { terminal: false }];
    let mut next = 0;
    while next < reached.len() {
        for event in every_event() {
            let step = execute_gio_launch(reached[next].clone(), event);
            assert!(!matches!(step, LaunchStep::ReadDescriptor { .. } | LaunchStep::Spawn { .. }));
            if !reached.contains(&step) {
                reached.push(step);
            }
        }
        next += 1;
    }
    assert!(reached.contains(&LaunchStep::DirectLaunch));
    assert!(reached.contains(&LaunchStep::OpenByPath));
    assert!(reached.contains(&LaunchStep::Done { success: true }));
    assert!(reached.contains(&LaunchStep::Done { success: false }));
}

#[test]
fn the_first_record_of_a_path_decides() {
    let apps = catalog();
    assert!(selection_needs_terminal(&apps, "/usr/share/applications/top.desktop"));
    assert!(!selection_needs_terminal(&apps, "firefox"));
    assert!(!selection_needs_terminal(&apps, "/usr/share/applications/top.desktop "));
    assert!(!selection_needs_terminal(&Vec::new(), ""));
    let turned = vec![
        app("Top again", "/usr/share/applications/top.desktop", false),
        app("Top", "/usr/share/applications/top.desktop", true),
    ];
    assert!(!selection_needs_terminal(&turned, "/usr/share/applications/top.desktop"));
}

#[test]
fn a_failed_validation_ends_the_launch() {
    for terminal in [false, true] {
        assert_eq!(
            execute_gio_launch(LaunchStep::Validate { terminal }, exited(false)),
            LaunchStep::Done { success: false }
        );
    }
}

#[test]
fn a_validator_that_cannot_run_is_passed_over() {
    assert_eq!(
        execute_gio_launch(LaunchStep::Validate { terminal: false }, LaunchEvent::Unavailable),
        LaunchStep::DirectLaunch
    );
    assert_eq!(
        execute_gio_launch(LaunchStep::Validate { terminal: true }, LaunchEvent::Unavailable),
        LaunchStep::ReadDescriptor { attempt: 0 }
    );
    assert_eq!(
        execute_gio_launch(LaunchStep::Validate { terminal: false }, exited(true)),
        LaunchStep::DirectLaunch
    );
    assert_eq!(
        execute_gio_launch(LaunchStep::Validate { terminal: true }, exited(true)),
        LaunchStep::ReadDescriptor { attempt: 0 }
    );
}

#[test]
fn a_terminal_application_is_spawned_in_the_first_terminal_that_starts() {
    let descriptor = "[Desktop Entry]\nName=Term App\nIcon=t\nTerminal=true\nExec=term-app --flag %U\n";
    let path = "/usr/share/applications/term.desktop";
    let apps = vec![app("Term App", path, true)];
    let mut step = handle_selection(Some(&apps), path);
    assert_eq!(command_line(&step, path), line("desktop-file-validate", &[path]));
    step = execute_gio_launch(step, exited(true));
    assert_eq!(step, LaunchStep::ReadDescriptor { attempt: 0 });
    assert_eq!(command_line(&step, path), None);
    step = execute_gio_launch(step, text(descriptor));
    assert_eq!(step, LaunchStep::Spawn { attempt: 0, command: "term-app".to_string() });
    assert_eq!(command_line(&step, path), line("gnome-terminal", &["-e", "term-app"]));
    step = execute_gio_launch(step, LaunchEvent::Unavailable);
    assert_eq!(step, LaunchStep::ReadDescriptor { attempt: 1 });
    step = execute_gio_launch(step, text(descriptor));
    assert_eq!(step, LaunchStep::Spawn { attempt: 1, command: "term-app".to_string() });
    assert_eq!(command_line(&step, path), line("konsole", &["-e", "term-app"]));
    step = execute_gio_launch(step, LaunchEvent::Unavailable);
    step = execute_gio_launch(step, text(descriptor));
    assert_eq!(command_line(&step, path), line("xterm", &["-e", "term-app"]));
    step = execute_gio_launch(step, LaunchEvent::Started);
    assert_eq!(step, LaunchStep::Done { success: true });
    assert_eq!(command_line(&step, path), None);
}

#[test]
fn every_terminal_is_tried_before_the_helpers() {
    let path = "/a/t.desktop";
    let names = ["gnome-terminal", "konsole", "xterm", "alacritty", "kitty", "urxvt", "st"];
    let mut step = execute_gio_launch(LaunchStep::Validate { terminal: true }, exited(true));
    for (number, name) in names.iter().enumerate() {
        assert_eq!(step, LaunchStep::ReadDescriptor { attempt: number });
        step = execute_gio_launch(step, text("Exec=top"));
        assert_eq!(step, LaunchStep::Spawn { attempt: number, command: "top".to_string() });
        assert_eq!(command_line(&step, path), line(name, &["-e", "top"]));
        step = execute_gio_launch(step, LaunchEvent::Unavailable);
    }
    assert_eq!(step, LaunchStep::DirectLaunch);
    assert_eq!(command_line(&step, path), line("gtk-launch", &[path]));
    step = execute_gio_launch(step, LaunchEvent::Unavailable);
    assert_eq!(step, LaunchStep::OpenByPath);
    assert_eq!(command_line(&step, path), line("gio", &["launch", path]));
    step = execute_gio_launch(step, exited(false));
    assert_eq!(step, LaunchStep::Done { success: false });
}

#[test]
fn a_descriptor_without_command_starts_no_terminal() {
    let mut step = LaunchStep::ReadDescriptor { attempt: 0 };
    for number in 0..7 {
        assert_eq!(step, LaunchStep::ReadDescriptor { attempt: number });
        let event = match number % 3 {
            0 => text("[Desktop Entry]\nName=x\n"),
            1 => LaunchEvent::Unavailable,
            _ => text("Exec=   \nExec=later\n"),
        };
        step = execute_gio_launch(step, event);
    }
    assert_eq!(step, LaunchStep::DirectLaunch);
}

#[test]
fn the_helpers_end_the_chain() {
    assert_eq!(execute_gio_launch(LaunchStep::DirectLaunch, exited(true)), LaunchStep::Done { success: true });
    assert_eq!(execute_gio_launch(LaunchStep::DirectLaunch, exited(false)), LaunchStep::OpenByPath);
    assert_eq!(execute_gio_launch(LaunchStep::DirectLaunch, LaunchEvent::Unavailable), LaunchStep::OpenByPath);
    assert_eq!(execute_gio_launch(LaunchStep::OpenByPath, exited(true)), LaunchStep::Done { success: true });
    assert_eq!(execute_gio_launch(LaunchStep::OpenByPath, exited(false)), LaunchStep::Done { success: false });
    assert_eq!(
        execute_gio_launch(LaunchStep::OpenByPath, LaunchEvent::Unavailable),
        LaunchStep::Done { success: false }
    );
}

#[test]
fn the_end_stays_the_end() {
    for success in [false, true] {
        for event in every_event() {
            assert_eq!(
                execute_gio_launch(LaunchStep::Done { success }, event),
                LaunchStep::Done { success }
            );
        }
    }
}

#[test]
fn outcomes_that_a_step_cannot_have_count_as_not_carried_out() {
    assert_eq!(
        execute_gio_launch(LaunchStep::Validate { terminal: false }, LaunchEvent::Started),
        LaunchStep::DirectLaunch
    );
    assert_eq!(
        execute_gio_launch(LaunchStep::ReadDescriptor { attempt: 2 }, exited(true)),
        LaunchStep::ReadDescriptor { attempt: 3 }
    );
    assert_eq!(
        execute_gio_launch(LaunchStep::Spawn { attempt: 2, command: "x".to_string() }, exited(true)),
        LaunchStep::ReadDescriptor { attempt: 3 }
    );
    assert_eq!(execute_gio_launch(LaunchStep::DirectLaunch, LaunchEvent::Started), LaunchStep::OpenByPath);
    assert_eq!(execute_gio_launch(LaunchStep::DirectLaunch, text("Exec=x")), LaunchStep::OpenByPath);
    assert_eq!(
        execute_gio_launch(LaunchStep::OpenByPath, LaunchEvent::Started),
        LaunchStep::Done { success: false }
    );
}

#[test]
fn attempts_past_the_last_terminal_go_on_to_the_helpers() {
    for attempt in [6, 7, 100, usize::MAX] {
        assert_eq!(
            execute_gio_launch(LaunchStep::ReadDescriptor { attempt }, LaunchEvent::Unavailable),
            LaunchStep::DirectLaunch
        );
        assert_eq!(
            execute_gio_launch(
                LaunchStep::Spawn { attempt, command: "x".to_string() },
                LaunchEvent::Unavailable
            ),
            LaunchStep::DirectLaunch
        );
    }
    for attempt in [7, 100, usize::MAX] {
        assert_eq!(
            execute_gio_launch(LaunchStep::ReadDescriptor { attempt }, text("Exec=x")),
            LaunchStep::DirectLaunch
        );
        assert_eq!(command_line(&LaunchStep::Spawn { attempt, command: "x".to_string() }, "p"), None);
    }
    assert_eq!(
        execute_gio_launch(LaunchStep::ReadDescriptor { attempt: 6 }, text("Exec=x")),
        LaunchStep::Spawn { attempt: 6, command: "x".to_string() }
    );
}

#[test]
fn the_terminals_in_their_order() {
    let names = ["gnome-terminal", "konsole", "xterm", "alacritty", "kitty", "urxvt", "st"];
    for (number, name) in names.iter().enumerate() {
        assert_eq!(terminal_program(number), Some(*name));
    }
    assert_eq!(terminal_program(7), None);
    assert_eq!(terminal_program(usize::MAX), None);
}

#[test]
fn the_command_is_the_first_word_after_exec() {
    assert_eq!(exec_command("Exec=term-app --flag %U"), Some("term-app".to_string()));
    assert_eq!(exec_command("[Desktop Entry]\nName=x\nExec=firefox %u\nIcon=f\n"), Some("firefox".to_string()));
    assert_eq!(exec_command("Exec=   spaced\tout  \n"), Some("spaced".to_string()));
    assert_eq!(exec_command("Exec=/usr/bin/env FOO=1 app\n"), Some("/usr/bin/env".to_string()));
    assert_eq!(exec_command("Exec=one\r\nExec=two\r\n"), Some("one".to_string()));
    assert_eq!(exec_command("Exec=%U app\n"), Some("%U".to_string()));
    assert_eq!(exec_command("Exec=\"quoted app\" x\n"), Some("\"quoted".to_string()));
    assert_eq!(exec_command("Exec=é\u{a0}b"), Some("é".to_string()));
    assert_eq!(exec_command("[Desktop Action n]\nExec=from-action\n"), Some("from-action".to_string()));
}

#[test]
fn no_command_without_an_exec_line_that_names_one() {
    assert_eq!(exec_command(""), None);
    assert_eq!(exec_command("[Desktop Entry]\nName=x\n"), None);
    assert_eq!(exec_command("Exec=\nExec=later\n"), None);
    assert_eq!(exec_command("Exec= \t \r\n"), None);
    assert_eq!(exec_command(" Exec=indented\n"), None);
    assert_eq!(exec_command("exec=lower\n"), None);
    assert_eq!(exec_command("Exec =spaced\n"), None);
    assert_eq!(exec_command("TryExec=other\n"), None);
    assert_eq!(exec_command("Exec"), None);
}

#[test]
fn the_command_agrees_with_a_reading_by_the_standard_library() {
    fn by_std(content: &str) -> Option<String> {
        let line = content.lines().find(|line| line.starts_with("Exec="))?;
        let rest = line.strip_prefix("Exec=").unwrap_or("");
        let word = rest.split_whitespace().next().unwrap_or("").trim();
        if word.is_empty() {
            None
        } else {
            Some(word.to_string())
        }
    }
    let pieces = ["Exec=", "Exec", "=", " ", "\t", "\r", "\n", "\r\n", "a", "b c", "%U", "\u{2003}", "Exec=x"];
    let mut state: u64 = 0x2545f4914f6cdd1d;
    let mut next = |bound: usize| -> usize {
        state ^= state << 13;
        state ^= state >> 7;
        state ^= state << 17;
        (state % (bound as u64)) as usize
    };
    for _ in 0..4000 {
        let mut content = String::new();
        for _ in 0..next(9) {
            content.push_str(pieces[next(pieces.len())]);
        }
        assert_eq!(exec_command(&content), by_std(&content), "{:?}", content);
    }
}

struct Host {
    validation: Option<bool>,
    descriptor: Option<&'static str>,
    starts: [bool; 7],
    direct: Option<bool>,
    open: Option<bool>,
}

fn exit(status: Option<bool>) -> LaunchEvent {
    match status {
        Some(success) => LaunchEvent::Exited { success },
        None => LaunchEvent::Unavailable,
    }
}

/// Runs a launch on `host`; tells how it ended and what was started.
fn run(host: &Host, terminal: bool) -> (bool, Option<(usize, String)>) {
    let mut step = LaunchStep::Validate { terminal };
    for _ in 0..64 {
        let event = match &step {
            LaunchStep::Done { success } => return (*success, None),
            LaunchStep::Validate { .. } => exit(host.validation),
            LaunchStep::ReadDescriptor { .. } => match host.descriptor {
                Some(content) => text(content),
                None => LaunchEvent::Unavailable,
            },
            LaunchStep::Spawn { attempt, command } => {
                if host.starts[*attempt] {
                    assert_eq!(execute_gio_launch(step.clone(), LaunchEvent::Started), LaunchStep::Done { success: true });
                    return (true, Some((*attempt, command.clone())));
                }
                LaunchEvent::Unavailable
            }
            LaunchStep::DirectLaunch => exit(host.direct),
            LaunchStep::OpenByPath => exit(host.open),
        };
        step = execute_gio_launch(step, event);
    }
    panic!("the launch did not end");
}

#[test]
fn every_launch_ends_as_the_chain_says() {
    let statuses = [None, Some(true), Some(false)];
    let descriptors = [None, Some("[Desktop Entry]\nName=x\n"), Some("Exec=term-app --flag %U\n")];
    let mut runs = 0;
    for validation in statuses {
        for descriptor in descriptors {
            for mask in 0..128u32 {
                for direct in statuses {
                    for open in statuses {
                        for terminal in [false, true] {
                            let mut starts = [false; 7];
                            for (number, slot) in starts.iter_mut().enumerate() {
                                *slot = mask & (1 << number) != 0;
                            }
                            let host = Host { validation, descriptor, starts, direct, open };
                            let helpers = (direct == Some(true) || open == Some(true), None);
                            let first = starts.iter().position(|s| *s);
                            let command = descriptor.and_then(exec_command);
                            let expected = if validation == Some(false) {
                                (false, None)
                            } else if !terminal {
                                helpers
                            } else {
                                match (command, first) {
                                    (Some(command), Some(number)) => (true, Some((number, command))),
                                    _ => helpers,
                                }
                            };
                            assert_eq!(run(&host, terminal), expected);
                            runs += 1;
                        }
                    }
                }
            }
        }
    }
    assert_eq!(runs, 3 * 3 * 128 * 3 * 3 * 2);
}
