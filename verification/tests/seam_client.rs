use herdr::seam_client::messages::{unpack_rgb, Cell, Command, Conn, Cursor, Event, Frame};
use herdr::seam_client::probe::{
    default_fg, frame_text, print_frame, run, start, ProbeError, ProbeNote, ProbePhase,
};
use herdr::termhost::proto::FrameError;

fn cell(symbol: &str, fg: u32, modifier: u16) -> Cell {
    Cell {
        symbol: symbol.to_string(),
        fg,
        bg: 0,
        modifier,
        skip: false,
        hyperlink: None,
    }
}

fn frame(cols: u16, rows: u16, cells: Vec<Cell>) -> Frame {
    Frame {
        cols,
        rows,
        full: true,
        cursor: Some(Cursor {
            x: 0,
            y: 0,
            visible: true,
            shape: 2,
        }),
        cells,
    }
}

fn text_frame(text: &str) -> Frame {
    let cells: Vec<Cell> = text
        .chars()
        .map(|c| cell(&c.to_string(), 0x02_aa_bb_cc, 0))
        .collect();
    frame(cells.len() as u16, 1, cells)
}

#[test]
fn unpack_rgb_works() {
    assert_eq!(unpack_rgb(0x02_12_34_56), Some((0x12, 0x34, 0x56)));
    assert_eq!(unpack_rgb(0x00_00_00_01), None);
}

#[test]
fn connections_frame_what_they_carry() {
    let framed = Conn::<Vec<u8>>::send(b"abc").unwrap();
    assert_eq!(framed, [3, 0, 0, 0, b'a', b'b', b'c']);
    assert_eq!(Conn::<Vec<u8>>::recv(&framed).unwrap(), b"abc");
    assert_eq!(
        Conn::<Vec<u8>>::recv(&framed[..5]),
        Err(FrameError::UnexpectedEof)
    );
    let mut conn = Conn::new(vec![1u8]);
    conn.get_mut().push(2);
    assert_eq!(conn.stream, vec![1, 2]);
}

fn greeted() -> ProbePhase {
    let (phase, hello) = start();
    assert_eq!(
        hello,
        Command::Hello {
            protocol_version: 1
        }
    );
    let step = run(
        phase,
        Event::Welcome {
            protocol_version: 1,
            error: String::new(),
        },
    )
    .unwrap();
    assert_eq!(
        step.notes,
        vec![ProbeNote::Connected {
            protocol_version: 1
        }]
    );
    match &step.send[..] {
        [Command::CreatePane {
            pane_id: 1,
            cols: 40,
            rows: 6,
            command,
            args,
            ..
        }] => {
            assert_eq!(command, "/bin/sh");
            assert_eq!(args[0], "-c");
            assert!(args[1].contains("RUST<->GO\\n"));
        }
        other => panic!("wrong commands: {other:?}"),
    }
    step.phase
}

#[test]
fn the_probe_runs_through() {
    let phase = greeted();
    let step = run(
        phase,
        Event::PaneFrame {
            pane_id: 1,
            frame: text_frame("hi"),
        },
    )
    .unwrap();
    assert_eq!(
        step.notes,
        vec![ProbeNote::FrameSeen {
            pane_id: 1,
            cols: 2,
            rows: 1,
            full: true,
            cells: 2
        }]
    );
    let step = run(
        step.phase,
        Event::PaneExited {
            pane_id: 1,
            exit_code: 0,
        },
    )
    .unwrap();
    assert_eq!(step.notes[1], ProbeNote::Grid(text_frame("hi")));
    assert_eq!(
        step.send[1],
        Command::Input {
            pane_id: 2,
            data: b"ping from rust\r".to_vec()
        }
    );
    let step = run(
        step.phase,
        Event::PaneFrame {
            pane_id: 1,
            frame: text_frame("ping from rust"),
        },
    )
    .unwrap();
    assert_eq!(step.phase, ProbePhase::Echo { tries: 199 });
    let step = run(
        step.phase,
        Event::PaneFrame {
            pane_id: 2,
            frame: text_frame("> ping from rust <"),
        },
    )
    .unwrap();
    assert_eq!(step.send, vec![Command::ClosePane { pane_id: 2 }]);
    let step = run(
        step.phase,
        Event::PaneExited {
            pane_id: 1,
            exit_code: 0,
        },
    )
    .unwrap();
    assert_eq!(step.phase, ProbePhase::Closing);
    let step = run(
        step.phase,
        Event::PaneExited {
            pane_id: 2,
            exit_code: 129,
        },
    )
    .unwrap();
    assert_eq!(step.phase, ProbePhase::Finished);
    assert_eq!(step.notes, vec![ProbeNote::Closed { exit_code: 129 }]);
}

#[test]
fn the_probe_fails_as_it_should() {
    let error = |message: &str| Event::Error {
        pane_id: 4,
        message: message.to_string(),
    };
    assert_eq!(
        run(
            ProbePhase::Greeting,
            Event::Welcome {
                protocol_version: 1,
                error: "no".to_string()
            }
        )
        .unwrap_err(),
        ProbeError::Welcome("no".to_string())
    );
    assert_eq!(
        run(ProbePhase::Greeting, error("x")).unwrap_err(),
        ProbeError::NotWelcome(error("x"))
    );
    assert_eq!(
        run(ProbePhase::Closing, error("x")).unwrap_err(),
        ProbeError::Pane {
            pane_id: 4,
            message: "x".to_string()
        }
    );
    assert_eq!(
        run(
            ProbePhase::FirstPane(None),
            Event::PaneExited {
                pane_id: 1,
                exit_code: 6
            }
        )
        .unwrap_err(),
        ProbeError::NoFrame {
            pane_id: 1,
            exit_code: 6
        }
    );
    assert_eq!(
        run(
            ProbePhase::Echo { tries: 1 },
            Event::PaneFrame {
                pane_id: 2,
                frame: text_frame("ping from rus")
            }
        )
        .unwrap_err(),
        ProbeError::NoEcho
    );
}

#[test]
fn frames_are_reported_row_by_row() {
    let plain = 0x02_aa_bb_cc;
    let f = frame(
        3,
        3,
        vec![
            cell("a", plain, 0),
            cell("b", 0x02_01_02_03, 0),
            cell(" ", 0x02_01_02_03, 0),
            cell(" ", plain, 0),
            cell(" ", plain, 0),
            cell(" ", plain, 0),
            cell("c", plain, 1),
            cell("d", 1, 1),
        ],
    );
    assert_eq!(frame_text(&f), "ab    cd");
    assert_eq!(default_fg(&f), (0xaa, 0xbb, 0xcc));
    let rows = print_frame(&f);
    assert_eq!(rows.len(), 2);
    assert_eq!((rows[0].row, rows[0].line.as_str()), (0, "ab"));
    assert_eq!(rows[0].notes.len(), 1);
    assert_eq!(
        (rows[0].notes[0].x, rows[0].notes[0].rgb),
        (1, (1, 2, 3))
    );
    assert_eq!((rows[1].row, rows[1].line.as_str()), (2, "cd"));
    assert_eq!(rows[1].notes.len(), 1);
    assert_eq!(rows[1].notes[0].modifier, 1);
    assert!(print_frame(&frame(2, 0, vec![])).is_empty());
    assert_eq!(default_fg(&frame(1, 0, vec![])), (0, 0, 0));
}
