use herdr::input::{
    KeyCode, KeyModifiers, KeyboardProtocol, MouseEventKind, MouseProtocolEncoding,
    MouseProtocolMode, TerminalKey,
};
use herdr::pane::command::CommandBuilder;
use herdr::pane::fake_terminal::{FakePaneTerminal, BOLD, ITALIC, REVERSED, UNDERLINED};
use herdr::pane::launch::PaneEnv;
use herdr::pane::render::{render_wire_frame, wire_dirty_patch, Rect};
use herdr::pane::runtime::{
    AgentState, AppEvent, PaneId, PaneResize, PaneRuntime, PaneRuntimeIo, PaneWrite,
};
use herdr::pane::screen::columns;
use herdr::pane::terminal::{
    PaneTerminal, ScrollMetrics, TerminalDirtyPatchOutcome, WheelRouting,
};
use herdr::termhost::client::{PaneInputModes, PaneSignal, TermhostClient};
use herdr::termhost::proto::{Command, Event, Frame, FrameScroll, TEXT_SCOPE_RECENT};
use herdr::terminal::types::FocusEvent;
use herdr::wire::{CellData, CursorState, FrameData};
use ratatui::style::Modifier;
use unicode_width::UnicodeWidthChar;

fn fed(cols: u16, rows: u16, limit: usize, output: &str) -> FakePaneTerminal {
    let mut fake = FakePaneTerminal::new(cols, rows, limit);
    assert!(fake.try_feed(output.as_bytes()), "{output:?}");
    fake
}

fn client() -> TermhostClient {
    TermhostClient::connect(Event::Welcome {
        protocol_version: 1,
        error: String::new(),
        panes: vec![5],
    })
    .unwrap()
}

fn live_pane(client: &mut TermhostClient, raw: u32) -> (PaneRuntime, Command) {
    let mut cmd = CommandBuilder::new(b"/bin/sh");
    cmd.arg(b"-i");
    cmd.cwd(b"/tmp");
    cmd.env(b"K", b"v");
    PaneRuntime::spawn_command_builder(PaneId::from_raw(raw), 24, 80, cmd, client, Some("old\r\n"))
}

#[test]
fn focus_events_are_forwarded_when_enabled() {
    let mut runtime = PaneRuntime::test_with_channel(80, 24);
    assert!(runtime.try_test_process_pty_bytes(b"\x1b[?1004h"));

    assert_eq!(
        runtime.try_send_focus_event(FocusEvent::Gained),
        Some(PaneWrite::Channel(b"\x1b[I".to_vec()))
    );
}

#[test]
fn focus_events_are_suppressed_when_disabled() {
    let runtime = PaneRuntime::test_with_channel(80, 24);

    assert_eq!(runtime.try_send_focus_event(FocusEvent::Gained), None);
}

#[test]
fn written_lines_are_shown() {
    let fake = fed(20, 4, 0, "hello world");
    assert_eq!(fake.visible_text(), "hello world");
    let fake = fed(20, 4, 0, "a\r\nb\r\n\r\nc  ");
    assert_eq!(fake.visible_text(), "a\nb\n\nc");
    let fake = fed(10, 2, 0, "ab\rc\x08\x08d\te\x07");
    assert_eq!(fake.visible_text(), "db      e");
}

#[test]
fn long_lines_wrap_and_can_be_rejoined() {
    let fake = fed(4, 3, 1000, "abcdefgh\r\nxy");
    assert_eq!(fake.visible_text(), "abcd\nefgh\nxy");
    assert_eq!(fake.recent_text(10, false), "abcd\nefgh\nxy");
    assert_eq!(fake.recent_text(10, true), "abcdefgh\nxy");
    assert_eq!(fake.recent_text(1, true), "xy");
    assert_eq!(fake.recent_text(0, true), "");
}

#[test]
fn wide_characters_take_two_cells() {
    let fake = fed(4, 2, 0, "a\u{4e16}b");
    assert_eq!(fake.visible_text(), "a\u{4e16}b");
    let snapshot = fake.snapshot();
    assert_eq!(snapshot.cells[1].symbol, "\u{4e16}");
    assert_eq!(snapshot.cells[2].symbol, " ");
    assert_eq!(snapshot.cells[3].symbol, "b");
    let wrapped = fed(3, 2, 0, "ab\u{4e16}");
    assert_eq!(wrapped.visible_text(), "ab\n\u{4e16}");
}

#[test]
fn widths_are_those_of_unicode_width() {
    for c in ['a', '~', '\u{e9}', '\u{4e16}', '\u{301}', '\u{17d8}', '\u{80}', '\u{1f600}'] {
        assert_eq!(columns(c) as usize, c.width().unwrap_or(0).max(1), "{c:?}");
    }
    assert_eq!(columns('\u{4e16}'), 2);
}

#[test]
fn ill_formed_output_is_read_leniently() {
    let mut fake = FakePaneTerminal::new(10, 1, 0);
    assert!(fake.try_feed(&[b'a', 0xff, b'b']));
    assert_eq!(fake.visible_text(), "a\u{fffd}b");
}

#[test]
fn unknown_sequences_are_refused() {
    for output in ["\x1b[5Z", "\x1b[?77h", "\x1bc", "\x1b", "\x1b[12", "\x1b[ m", "\x1b[>1h"] {
        let mut fake = FakePaneTerminal::new(10, 1, 0);
        assert!(fake.try_feed(b"kept"));
        assert!(!fake.try_feed(output.as_bytes()), "{output:?}");
        assert_eq!(fake.visible_text(), "kept");
    }
}

#[test]
fn scrollback_keeps_to_its_limit() {
    let fake = fed(10, 2, 1000, "1\r\n2\r\n3\r\n4");
    assert_eq!(fake.recent_text(10, false), "1\n2\n3\n4");
    assert_eq!(fake.scroll_metrics().unwrap().max_offset_from_bottom, 2);
    let tight = fed(10, 2, 2, "1\r\n2\r\n3\r\n4");
    assert_eq!(tight.recent_text(10, false), "2\n3\n4");
    let off = fed(10, 2, 0, "1\r\n2\r\n3\r\n4");
    assert_eq!(off.recent_text(10, false), "3\n4");
}

#[test]
fn scrolling_moves_the_viewport() {
    let mut fake = fed(10, 2, 1000, "1\r\n2\r\n3\r\n4");
    fake.scroll_up(1);
    assert_eq!(fake.visible_text(), "2\n3");
    assert!(!fake.cursor_state().unwrap().visible);
    fake.scroll_up(usize::MAX);
    assert_eq!(fake.visible_text(), "1\n2");
    assert_eq!(
        fake.scroll_metrics(),
        Some(ScrollMetrics {
            offset_from_bottom: 2,
            max_offset_from_bottom: 2,
            viewport_rows: 2
        })
    );
    fake.scroll_down(1);
    assert_eq!(fake.visible_text(), "2\n3");
    fake.scroll_reset();
    assert_eq!(fake.visible_text(), "3\n4");
    fake.set_scroll_offset_from_bottom(9);
    assert_eq!(fake.visible_text(), "1\n2");
}

#[test]
fn cursors_move_and_stay_inside() {
    let fake = fed(10, 5, 0, "\x1b[3;4H");
    let c = fake.cursor_state().unwrap();
    assert_eq!((c.x, c.y, c.visible, c.shape), (3, 2, true, 0));
    let fake = fed(10, 5, 0, "\x1b[3;4H\x1b[A\x1b[2B\x1b[9C\x1b[4D\x1b[?25l\x1b[3 q");
    let c = fake.cursor_state().unwrap();
    assert_eq!((c.x, c.y, c.visible, c.shape), (5, 3, false, 3));
    let fake = fed(10, 5, 0, "\x1b[999;999H\x1b[65535B\x1b[65535C");
    let c = fake.cursor_state().unwrap();
    assert_eq!((c.x, c.y), (9, 4));
}

#[test]
fn erasing_blanks_what_it_should() {
    let fake = fed(10, 2, 0, "abcdef\x1b[3D\x1b[K");
    assert_eq!(fake.visible_text(), "abc");
    let fake = fed(10, 2, 0, "abc\r\ndef\x1b[J");
    assert_eq!(fake.visible_text(), "");
}

#[test]
fn the_alternate_screen_is_apart() {
    let mut fake = fed(10, 2, 100, "main\x1b[?1049halt");
    assert_eq!(fake.visible_text(), "alt");
    assert!(fake.mirror().input_state().unwrap().alternate_screen);
    assert!(fake.try_feed(b"\x1b[?1049l!"));
    assert_eq!(fake.visible_text(), "main!");
}

#[test]
fn styles_are_those_of_the_wire() {
    let fake = fed(10, 1, 0, "\x1b[1;3;4;7;31;44ma\x1b[38;5;200;48;2;1;2;3mb\x1b[mc\x1b[39;49md");
    let cells = fake.snapshot().cells;
    assert_eq!(
        (cells[0].fg, cells[0].bg, cells[0].modifier),
        (2, 5, BOLD | ITALIC | UNDERLINED | REVERSED)
    );
    assert_eq!((cells[1].fg, cells[1].bg), (0x01_00_00_c8, 0x02_01_02_03));
    assert_eq!((cells[2].fg, cells[2].bg, cells[2].modifier), (0, 0, 0));
    assert_eq!((cells[3].fg, cells[3].bg), (0, 0));
}

#[test]
fn style_bits_are_those_of_ratatui() {
    assert_eq!(BOLD, Modifier::BOLD.bits());
    assert_eq!(ITALIC, Modifier::ITALIC.bits());
    assert_eq!(UNDERLINED, Modifier::UNDERLINED.bits());
    assert_eq!(REVERSED, Modifier::REVERSED.bits());
}

#[test]
fn links_are_indexed_once() {
    let fake = fed(
        10,
        1,
        0,
        "\x1b]8;;u1\x07ab\x1b]8;id=1;u2\x1b\\c\x1b]8;;u1\x07d\x1b]8;;\x07e\x1b]0;title\x07",
    );
    let snapshot = fake.snapshot();
    assert_eq!(snapshot.hyperlinks, vec!["u1", "u2"]);
    let links: Vec<Option<u32>> = snapshot.cells.iter().map(|c| c.hyperlink).collect();
    assert_eq!(
        &links[..5],
        &[Some(0), Some(0), Some(1), Some(0), None]
    );
    assert_eq!(
        fake.visible_hyperlinks(3, 4, 3, 1),
        vec![
            ((3, 4), "a".to_string(), "u1".to_string()),
            ((4, 4), "b".to_string(), "u1".to_string()),
            ((5, 4), "c".to_string(), "u2".to_string())
        ]
    );
    assert_eq!(fake.visible_text(), "abcde");
}

#[test]
fn selections_read_the_whole_buffer() {
    let fake = fed(6, 2, 100, "abc\r\ndefg\r\nhi");
    assert_eq!(
        fake.extract_selection_cells(0, 1, 2, 0),
        Some("bc\ndefg\nh".to_string())
    );
    assert_eq!(
        fake.extract_selection_cells(2, 0, 0, 1),
        Some("bc\ndefg\nh".to_string())
    );
    assert_eq!(
        fake.extract_selection_cells(1, 1, 1, 2),
        Some("ef".to_string())
    );
    assert_eq!(
        fake.extract_selection_cells(2, 0, 9, 0),
        Some("hi".to_string())
    );
    assert_eq!(fake.extract_selection_cells(7, 0, 9, 0), Some(String::new()));
}

#[test]
fn resizing_keeps_what_fits() {
    let mut fake = fed(6, 3, 0, "abcdef\r\ngh\x1b[?2026h");
    assert!(fake.synchronized_output_active());
    fake.resize(2, 3);
    assert_eq!(fake.visible_text(), "abc\ngh");
    assert!(!fake.synchronized_output_active());
    assert!(!fake.mirror().synchronized_output_active());
    assert!(fake.take_dirty());
    assert!(!fake.take_dirty());
    fake.resize(0, 0);
    assert_eq!(fake.snapshot().cells.len(), 1);
}

#[test]
fn the_mirror_follows_the_output() {
    let fake = fed(
        10,
        2,
        0,
        "\x1b[?1h\x1b[?1002;1006h\x1b[?1007h\x1b[?2004h\x1b[>4;2m\x1b[>5u",
    );
    let state = fake.mirror().input_state().unwrap();
    assert!(state.application_cursor);
    assert!(state.bracketed_paste);
    assert!(state.mouse_alternate_scroll);
    assert!(state.modify_other_keys);
    assert_eq!(state.mouse_protocol_mode, MouseProtocolMode::ButtonMotion);
    assert_eq!(state.mouse_protocol_encoding, MouseProtocolEncoding::Sgr);
    assert_eq!(
        fake.mirror().keyboard_protocol(),
        Some(KeyboardProtocol::Kitty { flags: 5 })
    );
}

fn snapshot(width: u16, height: u16, text: &str) -> FrameData {
    FrameData {
        cells: text
            .chars()
            .map(|c| CellData {
                symbol: c.to_string(),
                fg: 1,
                bg: 0,
                modifier: 0,
                skip: false,
                hyperlink: None,
            })
            .collect(),
        width,
        height,
        cursor: None,
        hyperlinks: vec![],
        graphics: vec![],
    }
}

#[test]
fn renders_cover_the_area() {
    let area = Rect {
        x: 10,
        y: 20,
        width: 3,
        height: 2,
    };
    let cursor = CursorState {
        x: 1,
        y: 1,
        visible: true,
        shape: 0,
    };
    let plan = render_wire_frame(area, true, &snapshot(2, 2, "abc"), Some(cursor));
    let symbols: Vec<Vec<Option<String>>> = plan
        .rows
        .iter()
        .map(|row| row.iter().map(|c| c.as_ref().map(|c| c.symbol.clone())).collect())
        .collect();
    let some = |s: &str| Some(s.to_string());
    assert_eq!(
        symbols,
        vec![
            vec![some("a"), some("b"), None],
            vec![some("c"), None, None]
        ]
    );
    assert_eq!(plan.cursor, Some((11, 21)));
    let hidden = render_wire_frame(area, false, &snapshot(2, 2, "abc"), Some(cursor));
    assert_eq!(hidden.cursor, None);
}

#[test]
fn patches_cover_the_area() {
    assert_eq!(
        wire_dirty_patch(false, || Some(snapshot(1, 1, "a")), 1, 1),
        TerminalDirtyPatchOutcome::Clean
    );
    assert_eq!(
        wire_dirty_patch(true, || None, 1, 1),
        TerminalDirtyPatchOutcome::Clean
    );
    match wire_dirty_patch(true, || Some(snapshot(2, 1, "ab")), 3, 2) {
        TerminalDirtyPatchOutcome::Patch(patch) => {
            let rows: Vec<(u16, String)> = patch
                .rows
                .iter()
                .map(|(y, row)| (*y, row.iter().map(|c| c.symbol.as_str()).collect()))
                .collect();
            assert_eq!(rows, vec![(0, "ab ".to_string()), (1, "   ".to_string())]);
        }
        other => panic!("wrong outcome: {other:?}"),
    }
}

#[test]
fn mirrors_have_no_content() {
    let mut mirror = PaneTerminal::new_mirror();
    assert_eq!(mirror.visible_text(), "");
    assert_eq!(mirror.recent_unwrapped_ansi(5), "");
    assert_eq!(mirror.scroll_metrics(), None);
    assert_eq!(mirror.cursor_state(), None);
    assert_eq!(mirror.extract_selection(((0, 0), (1, 1))), None);
    assert_eq!(
        mirror.collect_dirty_patch(2, 2),
        TerminalDirtyPatchOutcome::Fallback
    );
    let ignored = mirror.try_process_pty_bytes(b"\x1bc").unwrap();
    assert!(!ignored.request_render);
    let mut fake = PaneTerminal::new_fake(4, 1, 0);
    assert!(fake.try_process_pty_bytes(b"ok").unwrap().request_render);
    assert_eq!(fake.try_process_pty_bytes(b"\x1bc"), None);
    assert_eq!(fake.detection_text(), "ok");
    match fake.collect_dirty_patch(2, 1) {
        TerminalDirtyPatchOutcome::Patch(patch) => assert_eq!(patch.rows[0].1[1].symbol, "k"),
        other => panic!("wrong outcome: {other:?}"),
    }
    assert_eq!(
        fake.collect_dirty_patch(2, 1),
        TerminalDirtyPatchOutcome::Clean
    );
}

#[test]
fn spawning_creates_a_pane_on_the_daemon() {
    let mut client = client();
    let (runtime, command) = live_pane(&mut client, 1);
    assert_eq!(
        command,
        Command::CreatePane {
            pane_id: 1,
            cols: 80,
            rows: 24,
            cell_width_px: 0,
            cell_height_px: 0,
            cwd: "/tmp".to_string(),
            command: "/bin/sh".to_string(),
            args: vec!["-i".to_string()],
            env: vec![("K".to_string(), "v".to_string())],
            initial_history: "old\r\n".to_string(),
        }
    );
    assert!(runtime.is_termhost());
    assert!(!runtime.adopted_live_shell());
    assert_eq!(runtime.current_size(), (24, 80));
}

#[test]
fn spawning_adopts_a_survivor_once() {
    let mut client = client();
    let (runtime, command) = live_pane(&mut client, 5);
    assert_eq!(command, Command::RequestResync { pane_id: 5 });
    assert!(runtime.adopted_live_shell());
    let (again, command) = live_pane(&mut client, 5);
    assert!(matches!(command, Command::CreatePane { pane_id: 5, .. }));
    assert!(!again.adopted_live_shell());
}

#[test]
fn argv_spawns_need_a_program() {
    let mut client = client();
    let env = PaneEnv {
        marker: (b"HERDR".to_vec(), b"1".to_vec()),
        integration: vec![],
    };
    let none = PaneRuntime::spawn_argv_command(
        PaneId::from_raw(1),
        2,
        4,
        &b"/".to_vec(),
        &vec![],
        &env,
        &mut client,
    );
    assert!(none.is_err());
    let (_, command) = PaneRuntime::spawn_shell_command(
        PaneId::from_raw(1),
        2,
        4,
        &b"/".to_vec(),
        "make",
        &vec![],
        &env,
        &mut client,
    );
    match command {
        Command::CreatePane { command, args, .. } => {
            assert_eq!(command, "/bin/sh");
            assert_eq!(args, vec!["-c", "make"]);
        }
        other => panic!("wrong command: {other:?}"),
    }
}

#[test]
fn signals_become_events() {
    let mut client = client();
    let (mut runtime, _) = live_pane(&mut client, 1);
    let pane_id = PaneId::from_raw(1);
    assert_eq!(
        runtime.handle_signal(PaneSignal::Cwd("/w".to_string()), true),
        Some(AppEvent::TerminalCwdReported {
            pane_id,
            cwd: b"/w".to_vec()
        })
    );
    assert_eq!(
        runtime.handle_signal(PaneSignal::Cwd("/w/".to_string()), true),
        None
    );
    assert_eq!(runtime.cwd(true, None), Some(b"/w".to_vec()));
    assert_eq!(
        runtime.cwd(false, Some(b"/proc".to_vec())),
        Some(b"/proc".to_vec())
    );
    let agent = |state: &str| PaneSignal::Agent {
        agent: "shellbot".to_string(),
        state: state.to_string(),
        visible_blocker: false,
        visible_working: true,
    };
    for (label, state) in [
        ("working", AgentState::Working),
        ("blocked", AgentState::Blocked),
        ("idle", AgentState::Idle),
        ("unknown", AgentState::Unknown),
        ("odd", AgentState::Unknown),
    ] {
        assert_eq!(
            runtime.handle_signal(agent(label), false),
            Some(AppEvent::StateChanged {
                pane_id,
                agent: "shellbot".to_string(),
                state,
                visible_blocker: false,
                visible_working: true,
                process_exited: false
            })
        );
    }
    assert_eq!(
        runtime.handle_signal(PaneSignal::Clipboard(vec![1, 2]), false),
        Some(AppEvent::ClipboardWrite {
            content: vec![1, 2]
        })
    );
    assert_eq!(
        runtime.handle_signal(PaneSignal::Title(String::new()), false),
        Some(AppEvent::TerminalTitleReported {
            pane_id,
            title: None
        })
    );
    let modes = PaneInputModes {
        alternate_screen: true,
        bracketed_paste: true,
        focus_reporting: true,
        mouse_alternate_scroll: true,
        kitty_keyboard_flags: 3,
        ..Default::default()
    };
    assert_eq!(runtime.handle_signal(PaneSignal::Modes(modes), false), None);
    assert_eq!(
        runtime.keyboard_protocol(),
        KeyboardProtocol::Kitty { flags: 3 }
    );
    assert_eq!(
        runtime.send_paste("hi".to_string()),
        PaneWrite::Termhost(Command::Input {
            pane_id: 1,
            data: b"\x1b[200~hi\x1b[201~".to_vec()
        })
    );
    assert_eq!(runtime.wheel_routing(), Some(WheelRouting::AlternateScroll));
    let encode = |key: TerminalKey, _: KeyboardProtocol, _: bool| match key.code {
        KeyCode::Up => b"up".to_vec(),
        _ => b"other".to_vec(),
    };
    assert_eq!(
        runtime.encode_alternate_scroll(MouseEventKind::ScrollUp, encode),
        Some(b"up".to_vec())
    );
    assert_eq!(
        runtime.encode_alternate_scroll(MouseEventKind::Moved, encode),
        None
    );
    let wheel = |_: MouseEventKind,
                 _: u16,
                 _: u16,
                 _: KeyModifiers,
                 _: MouseProtocolEncoding| Some(vec![1]);
    assert_eq!(
        runtime.encode_mouse_wheel(
            MouseEventKind::ScrollUp,
            0,
            0,
            KeyModifiers::empty(),
            wheel
        ),
        None
    );
    let state = runtime.handoff_runtime_state(1);
    assert_eq!(state.keyboard_protocol_flags, 3);
    assert_eq!(state.keyboard_protocol_ansi.as_deref(), Some("\x1b[=3u"));
    assert_eq!((state.rows, state.cols), (24, 80));
    assert_eq!(
        runtime.handoff_history_ansi(Some("text".to_string()), 100),
        None
    );
}

#[test]
fn histories_are_handed_over_within_bounds() {
    let runtime = PaneRuntime::test_with_channel(10, 2);
    assert_eq!(
        runtime.handoff_history_ansi(Some("one\ntwo\n".to_string()), 5),
        Some("two\n".to_string())
    );
    assert_eq!(
        runtime.handoff_history_ansi(Some("one\ntwo\n".to_string()), 4),
        Some(String::new())
    );
    assert_eq!(
        runtime.handoff_history_ansi(Some(" \n ".to_string()), 4),
        None
    );
    assert_eq!(runtime.snapshot_history(None), None);
}

#[test]
fn exits_are_reported() {
    let mut client = client();
    let (runtime, _) = live_pane(&mut client, 1);
    assert_eq!(runtime.exit_event(&client), None);
    client.handle_event(Event::PaneExited {
        pane_id: 1,
        exit_code: 0,
    });
    assert_eq!(
        runtime.exit_event(&client),
        Some(AppEvent::PaneDied {
            pane_id: PaneId::from_raw(1)
        })
    );
}

#[test]
fn live_panes_scroll_by_command() {
    let mut client = client();
    let (mut runtime, _) = live_pane(&mut client, 1);
    let scroll = |delta: i32| Some(Command::ScrollViewport { pane_id: 1, delta });
    assert_eq!(runtime.scroll_up(3), scroll(-3));
    assert_eq!(runtime.scroll_up(usize::MAX), scroll(-i32::MAX));
    assert_eq!(runtime.scroll_down(4), scroll(4));
    assert_eq!(runtime.scroll_reset(), scroll(i32::MAX));
    assert_eq!(runtime.set_scroll_offset_from_bottom(&client, 2), scroll(-2));
    client.handle_event(Event::PaneFrame {
        pane_id: 1,
        frame: Frame {
            cols: 1,
            rows: 1,
            full: true,
            cursor: Some(CursorState {
                x: 0,
                y: 0,
                visible: true,
                shape: 1,
            }),
            cells: vec![],
            hyperlinks: vec![],
            scroll: Some(FrameScroll {
                offset_from_bottom: 10,
                max_offset_from_bottom: 20,
                viewport_rows: 1,
            }),
        },
    });
    assert_eq!(runtime.set_scroll_offset_from_bottom(&client, 2), scroll(8));
    assert_eq!(
        runtime.set_scroll_offset_from_bottom(&client, usize::MAX),
        scroll(i32::MIN)
    );
    assert_eq!(
        runtime.scroll_metrics(&client).unwrap().offset_from_bottom,
        10
    );
    let area = Rect {
        x: 5,
        y: 6,
        width: 2,
        height: 2,
    };
    let cursor = runtime.cursor_state(&client, area, true).unwrap();
    assert_eq!((cursor.x, cursor.y, cursor.shape), (5, 6, 1));
    assert_eq!(runtime.cursor_state(&client, area, false), None);
    let beyond = Rect {
        x: u16::MAX,
        y: u16::MAX,
        width: 2,
        height: 2,
    };
    assert_eq!(runtime.cursor_state(&client, beyond, false), None);
    assert!(runtime.render(&client, area, true).is_some());
    assert!(matches!(
        runtime.collect_dirty_patch(&mut client, 1, 1),
        TerminalDirtyPatchOutcome::Patch(_)
    ));
    assert_eq!(
        runtime.collect_dirty_patch(&mut client, 1, 1),
        TerminalDirtyPatchOutcome::Clean
    );
}

#[test]
fn live_panes_ask_the_daemon_for_text() {
    let mut client = client();
    let (runtime, _) = live_pane(&mut client, 1);
    assert_eq!(
        runtime.termhost_text(&mut client, PaneRuntime::history_query()),
        Some(Command::RequestText {
            pane_id: 1,
            scope: TEXT_SCOPE_RECENT,
            lines: u32::MAX,
            ansi: true,
            unwrap: true
        })
    );
    assert_eq!(runtime.visible_text(Some("shown".to_string())), "shown");
    assert_eq!(runtime.visible_text(None), "");
    assert_eq!(
        runtime.extract_selection(((0, 0), (0, 1)), Some("s".to_string())),
        Some("s".to_string())
    );
    assert_eq!(runtime.extract_selection(((0, 0), (0, 1)), None), None);
    assert!(matches!(
        runtime.termhost_selection(&mut client, ((0, 1), (2, 3))),
        Some(Command::RequestSelection {
            rectangle: false,
            ..
        })
    ));
}

#[test]
fn resizes_are_sent_once() {
    let mut client = client();
    let (mut runtime, _) = live_pane(&mut client, 1);
    assert_eq!(runtime.resize(24, 80, 0, 0), None);
    assert_eq!(
        runtime.resize(1, 1, 0, 0),
        Some(PaneResize::Termhost(Command::Resize {
            pane_id: 1,
            cols: 4,
            rows: 2,
            cell_width_px: 0,
            cell_height_px: 0
        }))
    );
    assert_eq!(runtime.resize(2, 4, 0, 0), None);
    let mut double = PaneRuntime::test_with_channel(10, 5);
    assert_eq!(
        double.resize(3, 6, 0, 0),
        Some(PaneResize::Channel {
            rows: 3,
            cols: 6,
            cell_width_px: 0,
            cell_height_px: 0
        })
    );
    assert_eq!(double.current_size(), (3, 6));
}

#[test]
fn dropping_ends_a_pane_unless_it_is_preserved() {
    let mut client = client();
    let (mut runtime, _) = live_pane(&mut client, 1);
    runtime.preserve_for_handoff();
    assert_eq!(runtime.on_drop(&mut client, &vec![]), None);
    runtime.assume_handoff_ownership();
    runtime.child_pid = 30;
    let end = runtime.on_drop(&mut client, &vec![31, 30]).unwrap();
    assert_eq!(end.close, Some(Command::ClosePane { pane_id: 1 }));
    assert_eq!(end.pids, vec![30, 31]);
    assert!(runtime.duplicate_handoff_fd().is_err());
    let end = runtime.shutdown(&mut client, &vec![]);
    assert_eq!(end.pids, vec![30]);
}

#[test]
fn spawned_doubles_show_history_and_directory() {
    let mut cmd = CommandBuilder::new(b"/bin/sh");
    cmd.cwd(b"/work");
    let (runtime, program) =
        PaneRuntime::test_spawned_fake(PaneId::from_raw(3), 4, 20, &cmd, Some("past\r\nline"));
    assert!(program.is_none());
    assert_eq!(runtime.io, PaneRuntimeIo::TestChannel);
    assert_eq!(runtime.pane_id, PaneId::from_raw(3));
    assert_eq!(runtime.visible_text(None), "past\nline");
    assert_eq!(runtime.reported_cwd, Some(b"/work".to_vec()));
    cmd.arg(b"-c");
    let (_, program) = PaneRuntime::test_spawned_fake(PaneId::from_raw(3), 4, 20, &cmd, None);
    let program = program.unwrap();
    assert_eq!(program.argv, vec![b"/bin/sh".to_vec(), b"-c".to_vec()]);
    assert_eq!(program.cwd, Some(b"/work".to_vec()));
}

#[test]
fn doubles_can_be_made_with_output() {
    let runtime = PaneRuntime::try_test_with_scrollback_bytes(10, 2, 100, b"1\r\n2\r\n3").unwrap();
    assert_eq!(runtime.recent_text(9, None), "1\n2\n3");
    assert!(PaneRuntime::try_test_with_scrollback_bytes(10, 2, 0, b"\x1bc").is_none());
}
