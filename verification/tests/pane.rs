use herdr::input::{
    KeyCode, KeyModifiers, KeyboardProtocol, MouseButton, MouseEventKind, MouseProtocolEncoding,
    MouseProtocolMode, TerminalKey,
};
use herdr::pane::command::CommandBuilder;
use herdr::pane::cwd::{foreground_cwd, is_same_path, publish_reported_cwd, JobMember};
use herdr::pane::handoff::truncate_handoff_history;
use herdr::pane::input_mirror::InputMirror;
use herdr::pane::launch::{argv_pane_command, script_pane_command, PaneEnv, SpawnError};
use herdr::pane::shell::{
    default_pane_shell, default_pane_shell_for_target, is_executable_file,
    is_executable_file_for_target, login_shell_candidates, login_shell_candidates_for_target,
    pane_shell_command_builder_for_target, pane_shell_for_target, pane_shell_from,
    resolve_shell_for_login_mode, resolve_shell_for_login_mode_for_target,
    shell_mode_uses_login_shell, PaneShellConfig, ShellError, ShellModeConfig, Target,
};
use herdr::pane::shutdown::{
    process_alive_for_shutdown, shutdown_next, shutdown_pane_processes,
    wait_for_processes_to_exit, ShutdownAction, Signal, WaitStep,
};
use herdr::pane::terminal::{InputState, WheelRouting};
use herdr::termhost::client::PaneInputModes;
use herdr::terminal::types::{encode_focus, FocusEvent};

const UNIX: Target = Target {
    is_macos: false,
    is_windows: false,
};

fn bytes(s: &str) -> Vec<u8> {
    s.as_bytes().to_vec()
}

fn found(shell: String, executable: bool) -> Result<String, ShellError> {
    let candidates = login_shell_candidates(&bytes(&shell), None);
    let flags = candidates.iter().map(|_| executable).collect();
    resolve_shell_for_login_mode(shell, &candidates, &flags)
}

fn modes() -> PaneInputModes {
    PaneInputModes::default()
}

#[test]
fn shutdown_liveness_treats_reaped_direct_child_as_gone() {
    assert!(!process_alive_for_shutdown(42, 42, true, |_| true));
}

#[test]
fn shutdown_liveness_keeps_unreaped_direct_child_alive() {
    assert!(process_alive_for_shutdown(42, 42, false, |_| true));
}

#[test]
fn shutdown_liveness_keeps_other_session_processes_alive() {
    assert!(process_alive_for_shutdown(43, 42, true, |_| true));
}

#[test]
fn shutdown_liveness_treats_missing_process_as_gone() {
    assert!(!process_alive_for_shutdown(43, 42, false, |_| false));
}

#[test]
fn teardown_signals_the_whole_session_gentlest_first() {
    let (pids, action) = shutdown_pane_processes(7, &vec![9, 7, 9, 3]);
    assert_eq!(pids, vec![3, 7, 9]);
    assert_eq!(
        action,
        ShutdownAction::SignalAndWait {
            signal: Signal::Hangup,
            grace_ms: 250
        }
    );
    let (alone, _) = shutdown_pane_processes(7, &vec![]);
    assert_eq!(alone, vec![7]);
    let (none, nothing) = shutdown_pane_processes(0, &vec![1, 2]);
    assert!(none.is_empty());
    assert_eq!(nothing, ShutdownAction::Nothing);
}

#[test]
fn teardown_escalates_and_ends() {
    let terminate = shutdown_next(Signal::Hangup, false);
    assert_eq!(
        terminate,
        ShutdownAction::SignalAndWait {
            signal: Signal::Terminate,
            grace_ms: 250
        }
    );
    assert_eq!(
        shutdown_next(Signal::Terminate, false),
        ShutdownAction::SignalAndWait {
            signal: Signal::Kill,
            grace_ms: 250
        }
    );
    assert_eq!(
        shutdown_next(Signal::Kill, false),
        ShutdownAction::StillAlive
    );
    assert_eq!(
        shutdown_next(Signal::Terminate, true),
        ShutdownAction::Terminated(Signal::Terminate)
    );
}

#[test]
fn waiting_looks_at_every_process() {
    let pids = vec![41, 42];
    let none = |_: u32| false;
    let only_child = |pid: u32| pid == 42;
    assert_eq!(
        wait_for_processes_to_exit(&pids, 42, false, none, || true),
        WaitStep::Exited
    );
    assert_eq!(
        wait_for_processes_to_exit(&pids, 42, true, only_child, || false),
        WaitStep::Exited
    );
    assert_eq!(
        wait_for_processes_to_exit(&pids, 42, false, only_child, || false),
        WaitStep::PollAfter { ms: 20 }
    );
    assert_eq!(
        wait_for_processes_to_exit(&pids, 42, false, only_child, || true),
        WaitStep::TimedOut
    );
}

#[test]
fn pane_shell_prefers_configured_shell() {
    assert_eq!(
        pane_shell_from("/usr/bin/nu", Some("/bin/bash".to_string())),
        "/usr/bin/nu"
    );
}

#[test]
fn pane_shell_falls_back_to_shell_env() {
    assert_eq!(
        pane_shell_from("", Some("/bin/bash".to_string())),
        "/bin/bash"
    );
}

#[test]
fn pane_shell_ignores_shell_env_on_windows() {
    assert_eq!(
        pane_shell_for_target(
            "",
            Some("c:\\windows\\system32\\cmd.exe".to_string()),
            true
        ),
        default_pane_shell_for_target(true)
    );
    assert_eq!(default_pane_shell_for_target(true), "powershell.exe");
}

#[test]
fn pane_shell_ignores_empty_values() {
    assert_eq!(
        pane_shell_from("   ", Some("  ".to_string())),
        default_pane_shell()
    );
    assert_eq!(pane_shell_from("", None), default_pane_shell());
    assert_eq!(default_pane_shell(), "/bin/sh");
}

#[test]
fn shell_mode_auto_uses_login_shell_only_on_macos() {
    assert!(shell_mode_uses_login_shell(ShellModeConfig::Auto, true));
    assert!(!shell_mode_uses_login_shell(ShellModeConfig::Auto, false));
    assert!(shell_mode_uses_login_shell(ShellModeConfig::Login, false));
    assert!(!shell_mode_uses_login_shell(ShellModeConfig::NonLogin, true));
}

#[test]
fn login_shell_builder_uses_default_prog_with_resolved_shell_env() {
    let cmd = pane_shell_command_builder_for_target(
        PaneShellConfig::new("/bin/sh", ShellModeConfig::Login),
        None,
        UNIX,
        |shell| found(shell, true),
        |_| None,
    )
    .unwrap();
    assert!(cmd.is_default_prog());
    assert_eq!(cmd.get_env(b"SHELL"), Some(&bytes("/bin/sh")));
}

#[test]
fn auto_shell_builder_uses_login_shell_on_macos_target() {
    let cmd = pane_shell_command_builder_for_target(
        PaneShellConfig::new("/bin/sh", ShellModeConfig::Auto),
        None,
        Target {
            is_macos: true,
            is_windows: false,
        },
        |shell| found(shell, true),
        |_| None,
    )
    .unwrap();
    assert!(cmd.is_default_prog());
    assert_eq!(cmd.get_env(b"SHELL"), Some(&bytes("/bin/sh")));
}

#[test]
fn auto_shell_builder_keeps_direct_shell_on_non_macos_target() {
    let cmd = pane_shell_command_builder_for_target(
        PaneShellConfig::new("/bin/sh", ShellModeConfig::Auto),
        None,
        UNIX,
        |shell| found(shell, true),
        |_| None,
    )
    .unwrap();
    assert!(!cmd.is_default_prog());
    assert_eq!(cmd.get_argv(), &vec![bytes("/bin/sh")]);
}

#[test]
fn non_login_shell_builder_execs_resolved_shell_directly() {
    let cmd = pane_shell_command_builder_for_target(
        PaneShellConfig::new("/bin/sh", ShellModeConfig::NonLogin),
        None,
        UNIX,
        |shell| found(shell, true),
        |_| None,
    )
    .unwrap();
    assert!(!cmd.is_default_prog());
    assert_eq!(cmd.get_argv(), &vec![bytes("/bin/sh")]);
}

#[test]
fn windows_powershell_shell_builder_wraps_cwd_reporting_prompt() {
    let cmd = pane_shell_command_builder_for_target(
        PaneShellConfig::new("powershell.exe", ShellModeConfig::NonLogin),
        None,
        Target {
            is_macos: false,
            is_windows: true,
        },
        |shell| found(shell, true),
        Some,
    )
    .unwrap();
    let argv: Vec<String> = cmd
        .get_argv()
        .iter()
        .map(|arg| String::from_utf8_lossy(arg).into_owned())
        .collect();

    assert_eq!(argv[0], "powershell.exe");
    assert!(argv.iter().any(|arg| arg == "-NoExit"));
    assert!(argv
        .iter()
        .any(|arg| arg.contains("]7;") && arg.contains("Function:\\prompt")));
}

#[test]
fn other_windows_shells_are_left_alone() {
    let cmd = pane_shell_command_builder_for_target(
        PaneShellConfig::new("C:\\tools\\nu.exe", ShellModeConfig::NonLogin),
        None,
        Target {
            is_macos: false,
            is_windows: true,
        },
        |shell| found(shell, true),
        |_| Some("nu.exe".to_string()),
    )
    .unwrap();
    assert_eq!(cmd.get_argv(), &vec![bytes("C:\\tools\\nu.exe")]);
}

#[test]
fn login_shell_builder_rejects_missing_shell_instead_of_falling_back() {
    let err = pane_shell_command_builder_for_target(
        PaneShellConfig::new("/__herdr_missing_shell__", ShellModeConfig::Login),
        None,
        UNIX,
        |shell| found(shell, false),
        |_| None,
    )
    .unwrap_err();
    assert_eq!(
        err,
        ShellError::NotExecutable("/__herdr_missing_shell__".to_string())
    );
}

#[test]
fn login_shell_builder_resolves_bare_shell_names_from_path() {
    let path = bytes("/opt/none:/opt/bin/:/usr/bin");
    let candidates = login_shell_candidates(&bytes("fake-shell"), Some(path));
    assert_eq!(
        candidates,
        vec![
            bytes("/opt/none/fake-shell"),
            bytes("/opt/bin/fake-shell"),
            bytes("/usr/bin/fake-shell")
        ]
    );
    let cmd = pane_shell_command_builder_for_target(
        PaneShellConfig::new("fake-shell", ShellModeConfig::Login),
        None,
        UNIX,
        |shell| resolve_shell_for_login_mode(shell, &candidates, &vec![false, true, true]),
        |_| None,
    )
    .unwrap();

    assert!(cmd.is_default_prog());
    assert_eq!(cmd.get_env(b"SHELL"), Some(&bytes("/opt/bin/fake-shell")));
}

#[test]
fn bare_shell_names_that_are_nowhere_are_refused() {
    assert_eq!(
        resolve_shell_for_login_mode("nosh".to_string(), &vec![], &vec![]),
        Err(ShellError::NotOnPath("nosh".to_string()))
    );
    assert!(login_shell_candidates(&bytes("nosh"), None).is_empty());
    let odd = vec![vec![0xffu8, 0x2f, 0x61]];
    assert_eq!(
        resolve_shell_for_login_mode("nosh".to_string(), &odd, &vec![true]),
        Err(ShellError::NotOnPath("nosh".to_string()))
    );
}

#[test]
fn windows_login_shells_go_by_the_windows_rules() {
    let drive = "C:\\tools\\sh.exe";
    let named = login_shell_candidates_for_target(&bytes(drive), vec![], true);
    assert_eq!(named, vec![bytes(drive)]);
    let resolve = |shell: &str, named: &Vec<Vec<u8>>, executable: Vec<bool>| {
        resolve_shell_for_login_mode_for_target(shell.to_string(), named, &executable, true)
    };
    assert_eq!(resolve(drive, &named, vec![true]).unwrap(), drive);
    assert_eq!(
        resolve(drive, &named, vec![false]),
        Err(ShellError::NotExecutable(drive.to_string()))
    );
    let searched = vec![bytes("C:\\a\\pwsh.exe"), bytes("C:\\b\\pwsh.exe")];
    let bare = login_shell_candidates_for_target(&bytes("pwsh.exe"), searched.clone(), true);
    assert_eq!(bare, searched);
    assert_eq!(
        resolve("pwsh.exe", &bare, vec![false, true]).unwrap(),
        "C:\\b\\pwsh.exe"
    );
    assert!(login_shell_candidates_for_target(&bytes("/bin/sh"), vec![], true).is_empty());
    assert_eq!(
        resolve("/bin/sh", &vec![], vec![]),
        Err(ShellError::NotOnPath("/bin/sh".to_string()))
    );
    assert_eq!(
        login_shell_candidates_for_target(&bytes("/bin/sh"), vec![], false),
        vec![bytes("/bin/sh")]
    );
}

#[test]
fn login_shell_resolution_preserves_shell_paths() {
    assert_eq!(found("/bin/sh".to_string(), true).unwrap(), "/bin/sh");
}

#[test]
fn executables_are_files_with_an_execute_bit() {
    assert!(is_executable_file(true, 0o755));
    assert!(is_executable_file(true, 0o001));
    assert!(!is_executable_file(true, 0o644));
    assert!(!is_executable_file(false, 0o755));
    assert!(is_executable_file_for_target(true, 0, true));
    assert!(!is_executable_file_for_target(false, 0o755, true));
    assert!(!is_executable_file_for_target(true, 0, false));
}

#[test]
fn truncate_handoff_history_keeps_recent_utf8_boundary() {
    let history = format!("old\n{}\nrecent\n", "é".repeat(8));

    let truncated = truncate_handoff_history(history, 20);

    assert_eq!(truncated, "recent\n");
    assert!(truncated.is_char_boundary(0));
}

#[test]
fn truncate_handoff_history_drops_partial_long_line() {
    let history = format!("old\n{}", "x".repeat(64));

    let truncated = truncate_handoff_history(history, 12);

    assert!(truncated.is_empty());
}

#[test]
fn truncate_handoff_history_keeps_what_fits() {
    let history = "one\ntwo\n".to_string();
    assert_eq!(truncate_handoff_history(history.clone(), 8), history);
    assert_eq!(truncate_handoff_history(history.clone(), 7), "two\n");
    assert_eq!(truncate_handoff_history(history, 0), "");
}

#[test]
fn encode_focus_matches_libghostty_vt_sequences() {
    assert_eq!(encode_focus(FocusEvent::Gained), b"\x1b[I");
    assert_eq!(encode_focus(FocusEvent::Lost), b"\x1b[O");
}

#[test]
fn handoff_seed_round_trips_kitty_state() {
    let mut mirror = InputMirror::new();
    mirror.seed_keyboard_protocol_ansi("\x1b[=1u\x1b[>5u");
    assert_eq!(
        mirror.keyboard_protocol(),
        Some(KeyboardProtocol::Kitty { flags: 5 })
    );
    assert_eq!(
        mirror.kitty_keyboard_state_ansi().as_deref(),
        Some("\x1b[=1u\x1b[>5u")
    );

    let mut flags_only = InputMirror::new();
    flags_only.seed_keyboard_protocol_flags(3);
    assert_eq!(
        flags_only.keyboard_protocol(),
        Some(KeyboardProtocol::Kitty { flags: 3 })
    );
}

#[test]
fn fresh_mirrors_have_no_keyboard_state_to_replay() {
    let mut mirror = InputMirror::new();
    mirror.seed_keyboard_protocol_flags(0);
    mirror.seed_keyboard_protocol_ansi("");
    assert_eq!(mirror.keyboard_protocol(), Some(KeyboardProtocol::Legacy));
    assert_eq!(mirror.kitty_keyboard_state_ansi(), None);
}

#[test]
fn mode_reports_set_the_register_in_place() {
    let mut mirror = InputMirror::new();
    mirror.seed_keyboard_protocol_ansi("\x1b[=1u\x1b[>5u");
    let mut report = modes();
    report.kitty_keyboard_flags = 9;
    mirror.apply_input_modes(&report);
    mirror.apply_input_modes(&report);
    assert_eq!(
        mirror.kitty_keyboard_state_ansi().as_deref(),
        Some("\x1b[=1u\x1b[>9u")
    );
}

#[test]
fn seeded_modes_are_read_back() {
    let state = InputState {
        alternate_screen: true,
        application_cursor: true,
        bracketed_paste: false,
        focus_reporting: true,
        mouse_protocol_mode: MouseProtocolMode::ButtonMotion,
        mouse_protocol_encoding: MouseProtocolEncoding::Sgr,
        mouse_alternate_scroll: true,
        modify_other_keys: true,
    };
    let mut mirror = InputMirror::new();
    mirror.seed_handoff_input_state(state);
    assert_eq!(mirror.input_state(), Some(state));
    assert!(state.mouse_reporting_enabled());
}

#[test]
fn wheels_go_where_the_program_asked() {
    let mut mirror = InputMirror::new();
    assert_eq!(mirror.wheel_routing(), Some(WheelRouting::HostScroll));
    let mut report = modes();
    report.alternate_screen = true;
    report.mouse_alternate_scroll = true;
    mirror.apply_input_modes(&report);
    assert_eq!(mirror.wheel_routing(), Some(WheelRouting::AlternateScroll));
    report.mouse_mode = 1;
    mirror.apply_input_modes(&report);
    assert_eq!(mirror.wheel_routing(), Some(WheelRouting::MouseReport));
}

#[test]
fn modified_enter_is_reported_under_modify_other_keys() {
    let mut mirror = InputMirror::new();
    let mut held = KeyModifiers::empty();
    held.shift = true;
    let key = TerminalKey::new(KeyCode::Enter, held);
    let plain = |_: TerminalKey, _: KeyboardProtocol, _: bool| b"\r".to_vec();
    assert_eq!(
        mirror.encode_terminal_key(key, KeyboardProtocol::Legacy, plain),
        b"\r"
    );
    let mut report = modes();
    report.modify_other_keys = true;
    mirror.apply_input_modes(&report);
    assert_eq!(
        mirror.encode_terminal_key(key, KeyboardProtocol::Legacy, plain),
        b"\x1b[27;2;13~"
    );
    assert_eq!(
        mirror.encode_terminal_key(key, KeyboardProtocol::Kitty { flags: 1 }, plain),
        b"\r"
    );
    let mut all = KeyModifiers::empty();
    all.shift = true;
    all.alt = true;
    all.control = true;
    assert_eq!(
        mirror.encode_terminal_key(
            TerminalKey::new(KeyCode::Enter, all),
            KeyboardProtocol::Legacy,
            plain
        ),
        b"\x1b[27;8;13~"
    );
    let mut meta = KeyModifiers::empty();
    meta.meta = true;
    assert_eq!(
        mirror.encode_terminal_key(
            TerminalKey::new(KeyCode::Enter, meta),
            KeyboardProtocol::Legacy,
            plain
        ),
        b"\r"
    );
}

#[test]
fn mouse_reports_are_gated_by_the_tracking_mode() {
    let encode = |_: MouseEventKind,
                  column: u16,
                  row: u16,
                  held: KeyModifiers,
                  encoding: MouseProtocolEncoding| {
        Some(vec![
            column as u8,
            row as u8,
            held.shift as u8,
            (encoding == MouseProtocolEncoding::Sgr) as u8,
        ])
    };
    let down = MouseEventKind::Down(MouseButton::Left);
    let up = MouseEventKind::Up(MouseButton::Left);
    let drag = MouseEventKind::Drag(MouseButton::Left);
    let mut shift = KeyModifiers::empty();
    shift.shift = true;

    let mut mirror = InputMirror::new();
    assert_eq!(mirror.encode_mouse_button(down, 1, 2, shift, encode), None);
    let mut report = modes();
    report.mouse_encoding = 2;
    report.mouse_mode = 1;
    mirror.apply_input_modes(&report);
    assert_eq!(
        mirror.encode_mouse_button(down, 1, 2, shift, encode),
        Some(vec![1, 2, 0, 1])
    );
    assert_eq!(mirror.encode_mouse_button(up, 1, 2, shift, encode), None);
    assert_eq!(
        mirror.encode_mouse_wheel(MouseEventKind::ScrollUp, 1, 2, shift, encode),
        None
    );
    report.mouse_mode = 2;
    mirror.apply_input_modes(&report);
    assert_eq!(
        mirror.encode_mouse_button(up, 1, 2, shift, encode),
        Some(vec![1, 2, 1, 1])
    );
    assert_eq!(mirror.encode_mouse_button(drag, 1, 2, shift, encode), None);
    assert_eq!(
        mirror.encode_mouse_wheel(MouseEventKind::ScrollUp, 1, 2, shift, encode),
        Some(vec![1, 2, 1, 1])
    );
    report.mouse_mode = 3;
    mirror.apply_input_modes(&report);
    assert_eq!(
        mirror.encode_mouse_button(drag, 1, 2, shift, encode),
        Some(vec![1, 2, 1, 1])
    );
    let moved = |column: u16, row: u16, _: KeyModifiers, _: MouseProtocolEncoding| {
        Some(vec![column as u8, row as u8])
    };
    assert_eq!(
        mirror.encode_mouse_motion(MouseEventKind::Moved, 3, 4, shift, moved),
        None
    );
    report.mouse_mode = 4;
    mirror.apply_input_modes(&report);
    assert_eq!(
        mirror.encode_mouse_motion(MouseEventKind::Moved, 3, 4, shift, moved),
        Some(vec![3, 4])
    );
    assert_eq!(
        mirror.encode_mouse_motion(down, 3, 4, shift, moved),
        None
    );
}

#[test]
fn commands_keep_their_environment_in_order() {
    let mut cmd = CommandBuilder::new(b"/bin/echo");
    cmd.arg(b"hi");
    cmd.cwd(b"/tmp");
    cmd.env(b"B", b"2");
    cmd.env(b"A", b"1");
    cmd.env(b"AB", b"3");
    cmd.env(b"B", b"4");
    cmd.env(b"X", &[0xff]);
    assert_eq!(
        cmd.iter_extra_env_as_str(),
        vec![
            ("A".to_string(), "1".to_string()),
            ("AB".to_string(), "3".to_string()),
            ("B".to_string(), "4".to_string())
        ]
    );
    assert_eq!(cmd.get_env(b"B"), Some(&bytes("4")));
    assert_eq!(cmd.get_env(b"C"), None);
    assert_eq!(cmd.get_cwd(), Some(&bytes("/tmp")));
    assert_eq!(cmd.get_argv(), &vec![bytes("/bin/echo"), bytes("hi")]);
    let copy = cmd.clone();
    assert_eq!(copy.get_argv(), cmd.get_argv());
    assert_eq!(copy.get_cwd(), cmd.get_cwd());
    assert_eq!(copy.iter_extra_env_as_str(), cmd.iter_extra_env_as_str());
    assert_eq!(copy.get_env(b"X"), Some(&vec![0xff]));
    let plain = CommandBuilder::default();
    assert!(plain.is_default_prog());
    assert_eq!(plain.get_cwd(), None);
    assert!(plain.iter_extra_env_as_str().is_empty());
}

fn pane_env() -> PaneEnv {
    PaneEnv {
        marker: (bytes("HERDR"), bytes("1")),
        integration: vec![(bytes("PANE"), bytes("7"))],
    }
}

#[test]
fn pane_commands_advertise_the_pane_terminal() {
    let cmd = script_pane_command(
        "ls -l",
        &bytes("/work"),
        &vec![(bytes("EXTRA"), bytes("e")), (bytes("PANE"), bytes("8"))],
        &pane_env(),
    );
    assert_eq!(
        cmd.get_argv(),
        &vec![bytes("/bin/sh"), bytes("-c"), bytes("ls -l")]
    );
    assert_eq!(cmd.get_env(b"TERM"), Some(&bytes("xterm-256color")));
    assert_eq!(cmd.get_env(b"COLORTERM"), Some(&bytes("truecolor")));
    assert_eq!(cmd.get_env(b"HERDR"), Some(&bytes("1")));
    assert_eq!(cmd.get_env(b"PANE"), Some(&bytes("8")));
    assert_eq!(cmd.get_env(b"EXTRA"), Some(&bytes("e")));
    assert_eq!(cmd.get_cwd(), Some(&bytes("/work")));
}

#[test]
fn argv_panes_need_a_program() {
    assert_eq!(
        argv_pane_command(&vec![], &bytes("/"), &pane_env()).unwrap_err(),
        SpawnError::EmptyArgv
    );
    let cmd = argv_pane_command(&vec![bytes("vi"), bytes("a b")], &bytes("/"), &pane_env());
    assert_eq!(
        cmd.unwrap().get_argv(),
        &vec![bytes("vi"), bytes("a b")]
    );
}

#[test]
fn reported_directories_are_published_once() {
    let mut current = None;
    assert!(!publish_reported_cwd(&mut current, bytes("relative"), true));
    assert!(!publish_reported_cwd(&mut current, bytes("/gone"), false));
    assert!(publish_reported_cwd(&mut current, bytes("/a/b"), true));
    assert!(!publish_reported_cwd(&mut current, bytes("/a//b/."), true));
    assert_eq!(current, Some(bytes("/a/b")));
    assert!(publish_reported_cwd(&mut current, bytes("/a/c"), true));
    assert_eq!(current, Some(bytes("/a/c")));
}

#[test]
fn paths_compare_as_the_standard_library_compares_them() {
    let paths = ["/", "//", "/a", "/a/", "/a/.", "/./a", "/a/..", "/b", "/a/b", "/ab", "/.a"];
    for a in paths {
        for b in paths {
            assert_eq!(
                is_same_path(&bytes(a), &bytes(b)),
                std::path::Path::new(a) == std::path::Path::new(b),
                "{a} {b}"
            );
        }
    }
    assert!(!is_same_path(&bytes("/a"), &bytes("a")));
    assert!(!is_same_path(&bytes("a"), &bytes("/a")));
}

#[test]
fn the_foreground_shows_the_directory_that_differs_from_the_shell() {
    let member = |pid: u32, cwd: Option<&str>| JobMember {
        pid,
        cwd: cwd.map(bytes),
    };
    let shell = Some(bytes("/home"));
    let members = vec![
        member(1, Some("/elsewhere")),
        member(2, None),
        member(3, Some("/home/")),
        member(4, Some("/job")),
    ];
    assert_eq!(
        foreground_cwd(1, shell.clone(), Some(bytes("/home")), &members),
        Some(bytes("/job"))
    );
    assert_eq!(
        foreground_cwd(1, shell.clone(), Some(bytes("/leader")), &members),
        Some(bytes("/leader"))
    );
    assert_eq!(
        foreground_cwd(1, shell.clone(), None, &members),
        Some(bytes("/job"))
    );
    assert_eq!(
        foreground_cwd(1, shell, Some(bytes("/home")), &vec![]),
        Some(bytes("/home"))
    );
}
