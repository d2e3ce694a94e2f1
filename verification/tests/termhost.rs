use herdr::termhost::backend::{ReplyOutcome, TerminalBackend};
use herdr::termhost::base64_text::{b64_deserialize, b64_serialize, NotBase64};
use herdr::termhost::client::{
    count_sent, Delivery, HandshakeError, PaneSignal, PaneSpec, TermhostClient,
};
use herdr::termhost::grid::PaneGrid;
use herdr::termhost::proto::{
    read_event, write_command, Command, Event, Frame, FrameError, FrameScroll, SelectionPoint,
    MAX_FRAME_SIZE, PROTOCOL_VERSION, TEXT_SCOPE_RECENT,
};
use herdr::termhost::supervisor::{
    close_restored_orphans, connect_backend, connect_or_spawn, daemon_args, managed_log_path,
    managed_socket_path, shutdown, spawn_and_connect, BackendPlan, SpawnAction, SpawnEvent,
    SpawnState, BIN_ENV_VAR, SOCKET_ENV_VAR,
};
use herdr::wire::{CellData, CursorState};

fn cell(symbol: &str, hyperlink: Option<u32>) -> CellData {
    CellData {
        symbol: symbol.to_string(),
        fg: 0,
        bg: 0,
        modifier: 0,
        skip: false,
        hyperlink,
    }
}

fn skipped() -> CellData {
    let mut c = cell("?", None);
    c.skip = true;
    c
}

fn frame(cols: u16, rows: u16, cells: Vec<CellData>, hyperlinks: Vec<String>) -> Frame {
    Frame {
        cols,
        rows,
        full: true,
        cursor: None,
        cells,
        hyperlinks,
        scroll: None,
    }
}

fn welcome(panes: Vec<u32>) -> Event {
    Event::Welcome {
        protocol_version: 1,
        error: String::new(),
        panes,
    }
}

fn spec(pane_id: u32) -> PaneSpec {
    PaneSpec {
        pane_id,
        cols: 40,
        rows: 5,
        ..Default::default()
    }
}

#[test]
fn grid_visible_hyperlinks_maps_cells_to_screen_and_uri() {
    let mut grid = PaneGrid::new();
    grid.apply(frame(
        3,
        2,
        vec![
            cell("l", Some(0)),
            cell("k", Some(0)),
            cell("x", None),
            cell(" ", None),
            cell(" ", None),
            cell(" ", None),
        ],
        vec!["https://example.com".to_string()],
    ));

    let links = grid.visible_hyperlinks(5, 2, 3, 2);
    assert_eq!(
        links,
        vec![
            ((5, 2), "l".to_string(), "https://example.com".to_string()),
            ((6, 2), "k".to_string(), "https://example.com".to_string()),
        ]
    );
}

#[test]
fn grid_visible_hyperlinks_clips_to_window_and_empty_table() {
    let mut grid = PaneGrid::new();
    grid.apply(frame(
        3,
        1,
        vec![cell("a", None), cell("b", None), cell("c", Some(0))],
        vec!["https://x".to_string()],
    ));
    assert!(grid.visible_hyperlinks(0, 0, 2, 1).is_empty());

    let mut bare = PaneGrid::new();
    bare.apply(frame(1, 1, vec![cell("a", None)], vec![]));
    assert!(bare.visible_hyperlinks(0, 0, 1, 1).is_empty());
}

#[test]
fn grids_fold_diffed_frames_onto_what_they_have() {
    let mut grid = PaneGrid::new();
    assert_eq!(grid.snapshot(), None);
    grid.apply(frame(2, 1, vec![cell("a", None), cell("b", None)], vec![]));
    let mut diff = frame(2, 1, vec![skipped(), cell("c", None)], vec![]);
    diff.scroll = Some(FrameScroll {
        offset_from_bottom: 3,
        max_offset_from_bottom: 9,
        viewport_rows: 1,
    });
    grid.apply(diff);
    let shown = grid.snapshot().unwrap();
    assert_eq!(shown.cells, vec![cell("a", None), cell("c", None)]);
    assert!(grid.take_dirty());
    assert!(!grid.take_dirty());
    grid.apply(frame(2, 1, vec![skipped()], vec![]));
    assert_eq!(grid.snapshot().unwrap().cells, shown.cells);
    assert_eq!(grid.scroll.unwrap().offset_from_bottom, 3);
    grid.apply(frame(1, 2, vec![cell("z", None)], vec![]));
    assert_eq!(
        grid.snapshot().unwrap().cells,
        vec![cell("z", None), cell(" ", None)]
    );
}

#[test]
fn extract_selection_blocking_round_trips() {
    let mut client = TermhostClient::connect(welcome(vec![])).unwrap();
    let (pane, _create) = client.create_pane(spec(1), false);

    let request = pane.begin_selection(&mut client, 0, 0, 0, 4, false);
    assert_eq!(
        request,
        Command::RequestSelection {
            pane_id: 1,
            anchor: SelectionPoint { row: 0, col: 0 },
            cursor: SelectionPoint { row: 0, col: 4 },
            rectangle: false,
        }
    );
    let reply = || Event::PaneSelection {
        pane_id: 1,
        text: "HELLO".to_string(),
    };
    let delivery = client.handle_event(reply());
    assert_eq!(
        delivery,
        Delivery::Selection {
            slot: pane.slot,
            text: "HELLO".to_string()
        }
    );
    let text =
        pane.extract_selection_blocking(&mut client, ReplyOutcome::Reply("HELLO".to_string()));
    assert_eq!(text, Some("HELLO".to_string()));
    assert_eq!(client.handle_event(reply()), Delivery::Nothing);
}

#[test]
fn extract_text_blocking_round_trips() {
    let mut client = TermhostClient::connect(welcome(vec![])).unwrap();
    let (pane, _create) = client.create_pane(spec(1), false);

    let request = pane.begin_text(&mut client, TEXT_SCOPE_RECENT, 0, false, true);
    assert_eq!(
        request,
        Command::RequestText {
            pane_id: 1,
            scope: 1,
            lines: 0,
            ansi: false,
            unwrap: true,
        }
    );
    let delivery = client.handle_event(Event::PaneText {
        pane_id: 1,
        text: "row1\nrow2".to_string(),
    });
    assert_eq!(
        delivery,
        Delivery::Text {
            slot: pane.slot,
            text: "row1\nrow2".to_string()
        }
    );
    let text =
        pane.extract_text_blocking(&mut client, ReplyOutcome::Reply("row1\nrow2".to_string()));
    assert_eq!(text, Some("row1\nrow2".to_string()));
}

#[test]
fn late_replies_have_nowhere_to_go() {
    let mut client = TermhostClient::connect(welcome(vec![])).unwrap();
    let (pane, _) = client.create_pane(spec(1), false);
    pane.begin_selection(&mut client, 0, 0, 0, 4, false);
    assert_eq!(
        pane.extract_selection_blocking(&mut client, ReplyOutcome::TimedOut),
        None
    );
    pane.begin_text(&mut client, TEXT_SCOPE_RECENT, 0, false, true);
    assert_eq!(
        pane.extract_text_blocking(&mut client, ReplyOutcome::SendFailed),
        None
    );
    let late = client.handle_event(Event::PaneSelection {
        pane_id: 1,
        text: "late".to_string(),
    });
    assert_eq!(late, Delivery::Nothing);
    let late = client.handle_event(Event::PaneText {
        pane_id: 1,
        text: "late".to_string(),
    });
    assert_eq!(late, Delivery::Nothing);
}

#[test]
fn close_orphans_closes_only_unadopted_survivors() {
    let mut client = TermhostClient::connect(welcome(vec![1, 2, 3])).unwrap();
    assert_eq!(client.surviving_panes(), &vec![1, 2, 3]);
    let (_adopted, resync) = client.adopt_pane(2, false);
    assert_eq!(resync, Command::RequestResync { pane_id: 2 });

    let closed = client.close_orphans();
    assert_eq!(
        closed,
        vec![
            Command::ClosePane { pane_id: 1 },
            Command::ClosePane { pane_id: 3 }
        ]
    );
    assert_eq!(count_sent(&vec![true, true]), 2);
    assert_eq!(count_sent(&vec![true, false, true]), 2);
    assert_eq!(close_restored_orphans(Some(&client)), closed);
    assert!(close_restored_orphans(None).is_empty());
}

#[test]
fn frames_convert_to_render_frames() {
    let mut f = frame(
        2,
        1,
        vec![cell("h", None), skipped()],
        vec!["https://x".to_string()],
    );
    f.cursor = Some(CursorState {
        x: 1,
        y: 0,
        visible: true,
        shape: 6,
    });
    let data = f.into_frame_data();
    assert_eq!((data.width, data.height), (2, 1));
    assert_eq!(data.cells, vec![cell("h", None), skipped()]);
    let cursor = data.cursor.unwrap();
    assert_eq!(
        (cursor.x, cursor.y, cursor.visible, cursor.shape),
        (1, 0, true, 6)
    );
    assert!(data.hyperlinks.is_empty());
    assert!(data.graphics.is_empty());
}

#[test]
fn survivors_are_claimed_once() {
    let mut client = TermhostClient::connect(welcome(vec![4, 5])).unwrap();
    assert!(client.claim_surviving_pane(4));
    assert!(!client.claim_surviving_pane(4));
    assert!(!client.claim_surviving_pane(6));
    assert!(client.claim_surviving_pane(5));
    assert_eq!(client.surviving_panes(), &vec![4, 5]);
}

#[test]
fn survivors_listed_twice_are_claimed_once() {
    let mut client = TermhostClient::connect(welcome(vec![7, 8, 7])).unwrap();
    assert!(client.claim_surviving_pane(7));
    assert!(!client.claim_surviving_pane(7));
    assert!(client.claim_surviving_pane(8));
    assert!(!client.claim_surviving_pane(7));
    assert_eq!(client.surviving_panes(), &vec![7, 8, 7]);
}

#[test]
fn handshakes_need_a_welcome() {
    let refused = Event::Welcome {
        protocol_version: 2,
        error: "too new".to_string(),
        panes: vec![],
    };
    assert_eq!(
        TermhostClient::connect(refused).err(),
        Some(HandshakeError::Refused("too new".to_string()))
    );
    let exited = || Event::PaneExited {
        pane_id: 1,
        exit_code: 0,
    };
    assert_eq!(
        TermhostClient::connect(exited()).err(),
        Some(HandshakeError::Unexpected(exited()))
    );
    assert_eq!(
        TermhostClient::hello(),
        Command::Hello {
            protocol_version: PROTOCOL_VERSION
        }
    );
}

#[test]
fn reattaching_resyncs_every_registered_pane() {
    let mut client = TermhostClient::connect(welcome(vec![])).unwrap();
    client.create_pane(spec(1), false);
    client.create_pane(spec(9), false);
    let mut asked: Vec<u32> = client
        .reattach(welcome(vec![1, 9]))
        .unwrap()
        .iter()
        .map(|c| match c {
            Command::RequestResync { pane_id } => *pane_id,
            other => panic!("wrong command: {other:?}"),
        })
        .collect();
    asked.sort_unstable();
    assert_eq!(asked, vec![1, 9]);
    assert!(client
        .reattach(Event::Error {
            pane_id: 0,
            message: "no".to_string()
        })
        .is_err());
}

#[test]
fn events_reach_their_own_pane_only() {
    let mut client = TermhostClient::connect(welcome(vec![])).unwrap();
    let (one, create) = client.create_pane(spec(1), true);
    let (two, _) = client.create_pane(spec(2), false);
    match create {
        Command::CreatePane {
            pane_id,
            cols,
            rows,
            ..
        } => assert_eq!((pane_id, cols, rows), (1, 40, 5)),
        other => panic!("wrong command: {other:?}"),
    }
    client.handle_event(Event::PaneFrame {
        pane_id: 2,
        frame: frame(1, 1, vec![cell("q", None)], vec![]),
    });
    assert_eq!(one.latest_frame(&client), None);
    assert_eq!(
        two.latest_frame(&client).unwrap().cells,
        vec![cell("q", None)]
    );
    assert!(two.take_dirty(&mut client));
    assert!(!one.take_dirty(&mut client));
    let told = client.handle_event(Event::PaneCwd {
        pane_id: 1,
        cwd: "/tmp".to_string(),
    });
    assert_eq!(
        told,
        Delivery::Signal {
            slot: one.slot,
            signal: PaneSignal::Cwd("/tmp".to_string())
        }
    );
    let unheard = client.handle_event(Event::PaneTitle {
        pane_id: 2,
        title: "vi".to_string(),
    });
    assert_eq!(unheard, Delivery::Nothing);
    client.handle_event(Event::PaneExited {
        pane_id: 2,
        exit_code: 3,
    });
    assert_eq!(two.exit_status(&client), Some(3));
    assert_eq!(one.exit_status(&client), None);
    let complaint = client.handle_event(Event::Error {
        pane_id: 2,
        message: "bad".to_string(),
    });
    assert_eq!(
        complaint,
        Delivery::Warning {
            pane_id: 2,
            message: "bad".to_string()
        }
    );
    assert_eq!(two.close(&mut client), Command::ClosePane { pane_id: 2 });
    client.handle_event(Event::PaneExited {
        pane_id: 2,
        exit_code: 8,
    });
    assert_eq!(two.exit_status(&client), Some(3));
}

#[test]
fn handles_address_their_pane() {
    let mut client = TermhostClient::connect(welcome(vec![])).unwrap();
    let (pane, _) = client.create_pane(spec(7), false);
    assert_eq!(
        pane.write_input(b"ab"),
        Command::Input {
            pane_id: 7,
            data: b"ab".to_vec()
        }
    );
    assert_eq!(
        pane.resize(3, 4, 5, 6),
        Command::Resize {
            pane_id: 7,
            cols: 4,
            rows: 3,
            cell_width_px: 5,
            cell_height_px: 6
        }
    );
    assert_eq!(
        pane.scroll(-2),
        Command::ScrollViewport {
            pane_id: 7,
            delta: -2
        }
    );
    let mut shown = frame(1, 1, vec![cell("l", Some(0))], vec!["u".to_string()]);
    shown.cursor = Some(CursorState {
        x: 0,
        y: 0,
        visible: true,
        shape: 2,
    });
    client.handle_event(Event::PaneFrame {
        pane_id: 7,
        frame: shown,
    });
    assert_eq!(pane.cursor(&client).unwrap().shape, 2);
    assert_eq!(pane.scroll_metrics(&client), None);
    assert_eq!(
        pane.visible_hyperlinks(&client, 2, 3, 1, 1),
        vec![((2, 3), "l".to_string(), "u".to_string())]
    );
}

#[test]
fn reregistered_panes_leave_old_handles_alone() {
    let mut client = TermhostClient::connect(welcome(vec![])).unwrap();
    let (old_pane, _) = client.create_pane(spec(1), false);
    client.handle_event(Event::PaneExited {
        pane_id: 1,
        exit_code: 1,
    });
    let (new_pane, _) = client.create_pane(spec(1), false);
    assert_eq!(new_pane.exit_status(&client), None);
    client.handle_event(Event::PaneExited {
        pane_id: 1,
        exit_code: 2,
    });
    assert_eq!(old_pane.exit_status(&client), Some(1));
    assert_eq!(new_pane.exit_status(&client), Some(2));
}

#[test]
fn frames_on_the_stream_round_trip() {
    let out = write_command(b"{\"type\":\"hello\"}").unwrap();
    assert_eq!(&out[..4], &[16, 0, 0, 0]);
    let mut stream = out.clone();
    stream.extend_from_slice(b"rest");
    assert_eq!(read_event(&stream).unwrap(), b"{\"type\":\"hello\"}");
    assert_eq!(read_event(&out[..3]), Err(FrameError::UnexpectedEof));
    assert_eq!(read_event(&out[..7]), Err(FrameError::UnexpectedEof));
    assert_eq!(
        read_event(&[1, 0, 128, 0]),
        Err(FrameError::TooLarge)
    );
    assert_eq!(
        write_command(&vec![0u8; MAX_FRAME_SIZE + 1]),
        Err(FrameError::TooLarge)
    );
}

#[test]
fn bytes_travel_as_standard_base64() {
    assert_eq!(b64_serialize(b"hi"), "aGk=");
    assert_eq!(b64_serialize(b""), "");
    assert_eq!(b64_serialize(&[0xff, 0xfe, 0xfd]), "//79");
    assert_eq!(b64_deserialize("aGVsbG8="), Ok(b"hello".to_vec()));
    assert_eq!(b64_deserialize(""), Ok(vec![]));
    assert_eq!(b64_deserialize("a!"), Err(NotBase64));
    assert_eq!(b64_deserialize("aGk"), Err(NotBase64));
    let all: Vec<u8> = (0..=255).collect();
    assert_eq!(b64_deserialize(&b64_serialize(&all)), Ok(all));
}

#[test]
fn the_socket_variable_wins() {
    let some = |s: &str| Some(s.to_string());
    assert_eq!(
        connect_backend(some("/s"), some("/b")),
        BackendPlan::Attach("/s".to_string())
    );
    assert_eq!(
        connect_backend(some(""), some("/b")),
        BackendPlan::Managed("/b".to_string())
    );
    assert_eq!(connect_backend(None, some("")), BackendPlan::Disabled);
    assert_eq!(SOCKET_ENV_VAR, "HERDR_TERMHOST_SOCKET");
    assert_eq!(BIN_ENV_VAR, "HERDR_TERMHOST_BIN");
}

#[test]
fn a_spawned_daemon_is_awaited_until_the_deadline() {
    let (state, action) = connect_or_spawn();
    assert!(matches!(action, SpawnAction::Connect));
    let (state, action) = spawn_and_connect(state, SpawnEvent::ConnectFailed { elapsed_ms: 0 });
    assert!(matches!(action, SpawnAction::Launch));
    let (state, action) = spawn_and_connect(state, SpawnEvent::Launched);
    assert!(matches!(action, SpawnAction::CheckChild));
    let (state, action) = spawn_and_connect(state, SpawnEvent::ChildRunning);
    assert!(matches!(action, SpawnAction::Connect));
    let (state, action) =
        spawn_and_connect(state, SpawnEvent::ConnectFailed { elapsed_ms: 4999 });
    assert!(matches!(action, SpawnAction::WaitThenCheckChild { ms: 20 }));
    let (state, _) = spawn_and_connect(state, SpawnEvent::ChildRunning);
    let (late, action) =
        spawn_and_connect(state, SpawnEvent::ConnectFailed { elapsed_ms: 5000 });
    assert_eq!(late, SpawnState::Settled);
    assert!(matches!(action, SpawnAction::KillAndGiveUp));
    let client = TermhostClient::connect(welcome(vec![3])).unwrap();
    let (done, action) = spawn_and_connect(state, SpawnEvent::Connected(client));
    assert_eq!(done, SpawnState::Settled);
    match action {
        SpawnAction::UseSpawned(client) => assert_eq!(client.surviving_panes(), &vec![3]),
        _ => panic!("the connection should be kept"),
    }
    let (_, action) = spawn_and_connect(done, SpawnEvent::Launched);
    assert!(matches!(action, SpawnAction::Ignore));
}

#[test]
fn a_daemon_that_exits_is_given_up() {
    let (_, action) = spawn_and_connect(SpawnState::Checking, SpawnEvent::ChildExited);
    assert!(matches!(action, SpawnAction::GiveUp));
    let (_, action) = spawn_and_connect(SpawnState::Launching, SpawnEvent::LaunchFailed);
    assert!(matches!(action, SpawnAction::GiveUp));
    let client = TermhostClient::connect(welcome(vec![])).unwrap();
    let (_, action) =
        spawn_and_connect(SpawnState::Reconnecting, SpawnEvent::Connected(client));
    assert!(matches!(action, SpawnAction::UseSurvivor(_)));
}

#[test]
fn daemons_live_in_the_session_directory() {
    assert_eq!(managed_socket_path("/data"), "/data/herdr-termhost.sock");
    assert_eq!(managed_socket_path("/data/"), "/data/herdr-termhost.sock");
    assert_eq!(managed_socket_path(""), "herdr-termhost.sock");
    assert_eq!(managed_log_path("/data"), "/data/herdr-termhost.log");
    assert_eq!(
        daemon_args("/s".to_string()),
        vec!["--socket", "/s", "--persistent"]
    );
}

#[test]
fn clean_quits_stop_the_daemon() {
    let client = TermhostClient::connect(welcome(vec![])).unwrap();
    let plan = shutdown(Some(&client), true);
    assert_eq!(plan.send, Some(Command::Shutdown));
    assert!(plan.reap_child);
    let plan = shutdown(None, false);
    assert_eq!(plan.send, None);
    assert!(!plan.reap_child);
}
