//! The probe's script: what it sends, what it waits for, and what it reports.

use vstd::prelude::*;
use crate::seam_client::messages;
use crate::seam_client::messages::{Cell, Command, Event, Frame, PROTOCOL_VERSION};
use crate::text;

verus! {

/// Events the probe waits through for its input to be echoed.
pub const ECHO_TRIES: u32 = 200;

/// Where the probe stands.
#[derive(Debug, PartialEq, Eq)]
pub enum ProbePhase {
    /// The greeting is sent.
    Greeting,
    /// The first pane runs its command; the latest frame so far.
    FirstPane(Option<Frame>),
    /// The second pane has its input; how many more events to wait through.
    Echo { tries: u32 },
    /// The second pane is being closed.
    Closing,
    /// All went well.
    Finished,
}

/// What the probe reports.
#[derive(Debug, PartialEq, Eq)]
pub enum ProbeNote {
    Connected { protocol_version: i32 },
    FrameSeen { pane_id: u32, cols: u16, rows: u16, full: bool, cells: usize },
    Exited { pane_id: u32, exit_code: i32 },
    /// The last frame of the first pane, in full.
    Grid(Frame),
    Ignored(Event),
    EchoSeen,
    Closed { exit_code: i32 },
}

/// Why the probe failed.
#[derive(Debug, PartialEq, Eq)]
pub enum ProbeError {
    /// The daemon answered the greeting with an error.
    Welcome(String),
    /// The daemon answered the greeting with something else than a welcome.
    NotWelcome(Event),
    /// The daemon complained about a pane.
    Pane { pane_id: u32, message: String },
    /// The first pane exited without a frame.
    NoFrame { pane_id: u32, exit_code: i32 },
    /// The input was not echoed in time.
    NoEcho,
}

/// What one event leads to.
#[derive(Debug)]
pub struct ProbeStep {
    pub phase: ProbePhase,
    pub send: Vec<Command>,
    pub notes: Vec<ProbeNote>,
}

/// The symbols of a run of cells.
pub open spec fn symbols(cells: Seq<Cell>) -> Seq<char>
    decreases cells.len(),
{
    if cells.len() == 0 {
        Seq::empty()
    } else {
        symbols(cells.drop_last()) + cells.last().symbol@
    }
}

/// The text of a whole frame.
pub fn frame_text(f: &Frame) -> (r: String)
    ensures
        r@ == symbols(f.cells@),
{
    let n = f.cells.len();
    let out = gather(&f.cells, 0, n);
    assert(f.cells@.subrange(0, n as int) =~= f.cells@);
    text::string_of(&out)
}

fn gather(cells: &Vec<Cell>, start: usize, end: usize) -> (r: Vec<char>)
    requires
        start <= end <= cells@.len(),
    ensures
        r@ == symbols(cells@.subrange(start as int, end as int)),
{
    let mut out: Vec<char> = Vec::new();
    let mut i: usize = start;
    assert(cells@.subrange(start as int, start as int) =~= Seq::<Cell>::empty());
    while i < end
        invariant
            start <= i <= end <= cells@.len(),
            out@ == symbols(cells@.subrange(start as int, i as int)),
        decreases end - i,
    {
        proof {
            let more = cells@.subrange(start as int, i + 1);
            assert(more.drop_last() =~= cells@.subrange(start as int, i as int));
        }
        let mut symbol = text::chars_of(cells[i].symbol.as_str());
        out.append(&mut symbol);
        i += 1;
    }
    out
}

/// Whether `t` occurs in `s`.
pub open spec fn occurs(t: Seq<char>, s: Seq<char>) -> bool {
    exists|i: int| 0 <= i <= s.len() - t.len() && #[trigger] s.subrange(i, i + t.len()) == t
}

fn contains_text(s: &str, t: &str) -> (r: bool)
    ensures
        r == occurs(t@, s@),
{
    let hay = text::chars_of(s);
    let needle = text::chars_of(t);
    if needle.len() > hay.len() {
        return false;
    }
    let last = hay.len() - needle.len();
    if starts_at(&hay, &needle, last) {
        return true;
    }
    let mut i: usize = 0;
    while i < last
        invariant
            hay@ == s@,
            needle@ == t@,
            i <= last,
            last == s@.len() - t@.len(),
            forall|j: int| 0 <= j < i ==> #[trigger] s@.subrange(j, j + t@.len()) != t@,
        decreases last - i,
    {
        if starts_at(&hay, &needle, i) {
            return true;
        }
        i += 1;
    }
    false
}

fn starts_at(hay: &Vec<char>, needle: &Vec<char>, at: usize) -> (r: bool)
    requires
        at + needle@.len() <= hay@.len(),
    ensures
        r == (hay@.subrange(at as int, at + needle@.len()) == needle@),
{
    let ghost window = hay@.subrange(at as int, at + needle@.len());
    let total = hay.len();
    let mut k: usize = 0;
    while k < needle.len()
        invariant
            total == hay@.len(),
            at + needle@.len() <= total,
            k <= needle@.len(),
            window == hay@.subrange(at as int, at + needle@.len()),
            forall|j: int| 0 <= j < k ==> window[j] == needle@[j],
        decreases needle.len() - k,
    {
        if hay[at + k] != needle[k] {
            assert(window[k as int] != needle@[k as int]);
            return false;
        }
        k += 1;
    }
    assert(window =~= needle@);
    true
}

/// The text the second pane is given, without the key that ends it.
pub open spec fn echo_text() -> Seq<char> {
    "ping from rust"@
}

/// The shell command line the first pane runs.
pub open spec fn first_script() -> Seq<char> {
    "printf 'RUST<->GO\\n'; printf '\\033[31mRED\\033[0m and \\033[1mBOLD\\033[0m\\n'"@
}

/// The command that opens the first pane.
pub open spec fn is_first_pane(c: Command) -> bool {
    c matches Command::CreatePane {
        pane_id,
        cols,
        rows,
        cell_width_px,
        cell_height_px,
        cwd,
        command,
        args,
        env,
    } && pane_id == 1 && cols == 40 && rows == 6 && cell_width_px == 0 && cell_height_px == 0
        && cwd@.len() == 0 && command@ == "/bin/sh"@ && args@.len() == 2 && args@[0]@ == "-c"@
        && args@[1]@ == first_script() && env@.len() == 0
}

/// The command that opens the second pane.
pub open spec fn is_second_pane(c: Command) -> bool {
    c matches Command::CreatePane {
        pane_id,
        cols,
        rows,
        cell_width_px,
        cell_height_px,
        cwd,
        command,
        args,
        env,
    } && pane_id == 2 && cols == 40 && rows == 4 && cell_width_px == 0 && cell_height_px == 0
        && cwd@.len() == 0 && command@ == "/bin/cat"@ && args@.len() == 0 && env@.len() == 0
}

/// The command that types into the second pane.
pub open spec fn is_typing(c: Command) -> bool {
    c matches Command::Input { pane_id, data } && pane_id == 2 && data@
        == vstd::utf8::encode_utf8(echo_text()).push(0x0d)
}

/// What the probe does about an event: how it fails, or where it goes and what
/// it sends and reports.
pub open spec fn is_step(
    r: Result<ProbeStep, ProbeError>,
    phase: ProbePhase,
    event: Event,
) -> bool {
    match (phase, event) {
        (ProbePhase::Greeting, Event::Welcome { protocol_version, error }) => if error@.len() > 0 {
            r matches Err(e) && e == ProbeError::Welcome(error)
        } else {
            r matches Ok(s) && s.phase == ProbePhase::FirstPane(None) && s.send@.len() == 1
                && is_first_pane(s.send@[0]) && s.notes@ == seq![
                ProbeNote::Connected { protocol_version },
            ]
        },
        (ProbePhase::Greeting, other) => r matches Err(e) && e == ProbeError::NotWelcome(other),
        (_, Event::Error { pane_id, message }) => r matches Err(e) && e == (ProbeError::Pane {
            pane_id,
            message,
        }),
        (ProbePhase::FirstPane(_), Event::PaneFrame { pane_id, frame }) => {
            r matches Ok(s) && s.phase == ProbePhase::FirstPane(Some(frame)) && s.send@.len() == 0
                && s.notes@ == seq![
                ProbeNote::FrameSeen {
                    pane_id,
                    cols: frame.cols,
                    rows: frame.rows,
                    full: frame.full,
                    cells: frame.cells@.len() as usize,
                },
            ]
        },
        (ProbePhase::FirstPane(Some(last)), Event::PaneExited { pane_id, exit_code }) => {
            r matches Ok(s) && s.phase == (ProbePhase::Echo { tries: ECHO_TRIES }) && s.send@.len()
                == 2 && is_second_pane(s.send@[0]) && is_typing(s.send@[1]) && s.notes@ == seq![
                ProbeNote::Exited { pane_id, exit_code },
                ProbeNote::Grid(last),
            ]
        },
        (ProbePhase::FirstPane(None), Event::PaneExited { pane_id, exit_code }) => {
            r matches Err(e) && e == (ProbeError::NoFrame { pane_id, exit_code })
        },
        (ProbePhase::FirstPane(last), other) => r matches Ok(s) && s.phase == ProbePhase::FirstPane(
            last,
        ) && s.send@.len() == 0 && s.notes@ == seq![ProbeNote::Ignored(other)],
        (ProbePhase::Echo { tries }, event) => if event matches Event::PaneFrame { pane_id, frame }
            && pane_id == 2 && occurs(echo_text(), symbols(frame.cells@)) {
            r matches Ok(s) && s.phase == ProbePhase::Closing && s.send@ == seq![
                Command::ClosePane { pane_id: 2 },
            ] && s.notes@ == seq![ProbeNote::EchoSeen]
        } else if tries <= 1 {
            r matches Err(e) && e == ProbeError::NoEcho
        } else {
            r matches Ok(s) && s.phase == (ProbePhase::Echo { tries: (tries - 1) as u32 })
                && s.send@.len() == 0 && s.notes@.len() == 0
        },
        (ProbePhase::Closing, Event::PaneExited { pane_id, exit_code }) => if pane_id == 2 {
            r matches Ok(s) && s.phase == ProbePhase::Finished && s.send@.len() == 0 && s.notes@
                == seq![ProbeNote::Closed { exit_code }]
        } else {
            r matches Ok(s) && s.phase == ProbePhase::Closing && s.send@.len() == 0
                && s.notes@.len() == 0
        },
        (phase, _) => r matches Ok(s) && s.phase == phase && s.send@.len() == 0 && s.notes@.len()
            == 0,
    }
}

fn quiet(phase: ProbePhase) -> (r: ProbeStep)
    ensures
        r.phase == phase,
        r.send@.len() == 0,
        r.notes@.len() == 0,
{
    ProbeStep { phase, send: Vec::new(), notes: Vec::new() }
}

fn telling(phase: ProbePhase, note: ProbeNote) -> (r: ProbeStep)
    ensures
        r.phase == phase,
        r.send@.len() == 0,
        r.notes@ == seq![note],
{
    let mut notes: Vec<ProbeNote> = Vec::new();
    notes.push(note);
    assert(notes@ =~= seq![note]);
    ProbeStep { phase, send: Vec::new(), notes }
}

fn open_first_pane() -> (r: Command)
    ensures
        is_first_pane(r),
{
    let mut args: Vec<String> = Vec::new();
    args.push("-c".to_string());
    args.push(
        "printf 'RUST<->GO\\n'; printf '\\033[31mRED\\033[0m and \\033[1mBOLD\\033[0m\\n'".to_string(),
    );
    Command::CreatePane {
        pane_id: 1,
        cols: 40,
        rows: 6,
        cell_width_px: 0,
        cell_height_px: 0,
        cwd: String::new(),
        command: "/bin/sh".to_string(),
        args,
        env: Vec::new(),
    }
}

fn open_second_pane() -> (r: Command)
    ensures
        is_second_pane(r),
{
    Command::CreatePane {
        pane_id: 2,
        cols: 40,
        rows: 4,
        cell_width_px: 0,
        cell_height_px: 0,
        cwd: String::new(),
        command: "/bin/cat".to_string(),
        args: Vec::new(),
        env: Vec::new(),
    }
}

fn type_into_second_pane() -> (r: Command)
    ensures
        is_typing(r),
{
    let mut data = vstd::slice::slice_to_vec("ping from rust".as_bytes());
    data.push(0x0d);
    Command::Input { pane_id: 2, data }
}

/// How the probe begins.
pub fn start() -> (r: (ProbePhase, Command))
    ensures
        r.0 == ProbePhase::Greeting,
        r.1 == (Command::Hello { protocol_version: PROTOCOL_VERSION }),
{
    (ProbePhase::Greeting, Command::hello())
}

/// Moves the probe on from one event.
pub fn run(phase: ProbePhase, event: Event) -> (r: Result<ProbeStep, ProbeError>)
    ensures
        is_step(r, phase, event),
{
    match (phase, event) {
        (ProbePhase::Greeting, Event::Welcome { protocol_version, error }) => {
            if !error.as_str().is_empty() {
                return Err(ProbeError::Welcome(error));
            }
            let mut step = telling(
                ProbePhase::FirstPane(None),
                ProbeNote::Connected { protocol_version },
            );
            step.send.push(open_first_pane());
            Ok(step)
        },
        (ProbePhase::Greeting, other) => Err(ProbeError::NotWelcome(other)),
        (_, Event::Error { pane_id, message }) => Err(ProbeError::Pane { pane_id, message }),
        (ProbePhase::FirstPane(_), Event::PaneFrame { pane_id, frame }) => {
            let note = ProbeNote::FrameSeen {
                pane_id,
                cols: frame.cols,
                rows: frame.rows,
                full: frame.full,
                cells: frame.cells.len(),
            };
            Ok(telling(ProbePhase::FirstPane(Some(frame)), note))
        },
        (ProbePhase::FirstPane(Some(last)), Event::PaneExited { pane_id, exit_code }) => {
            let mut step = telling(
                ProbePhase::Echo { tries: ECHO_TRIES },
                ProbeNote::Exited { pane_id, exit_code },
            );
            step.notes.push(ProbeNote::Grid(last));
            step.send.push(open_second_pane());
            step.send.push(type_into_second_pane());
            assert(step.notes@ =~= seq![
                ProbeNote::Exited { pane_id, exit_code },
                ProbeNote::Grid(last),
            ]);
            Ok(step)
        },
        (ProbePhase::FirstPane(None), Event::PaneExited { pane_id, exit_code }) => Err(
            ProbeError::NoFrame { pane_id, exit_code },
        ),
        (ProbePhase::FirstPane(last), other) => Ok(
            telling(ProbePhase::FirstPane(last), ProbeNote::Ignored(other)),
        ),
        (ProbePhase::Echo { tries }, event) => {
            let seen = match &event {
                Event::PaneFrame { pane_id, frame } => *pane_id == 2 && contains_text(
                    frame_text(frame).as_str(),
                    "ping from rust",
                ),
                _ => false,
            };
            if seen {
                let mut step = telling(ProbePhase::Closing, ProbeNote::EchoSeen);
                step.send.push(Command::ClosePane { pane_id: 2 });
                assert(step.send@ =~= seq![Command::ClosePane { pane_id: 2 }]);
                Ok(step)
            } else if tries <= 1 {
                Err(ProbeError::NoEcho)
            } else {
                Ok(quiet(ProbePhase::Echo { tries: tries - 1 }))
            }
        },
        (ProbePhase::Closing, Event::PaneExited { pane_id, exit_code }) => {
            if pane_id == 2 {
                Ok(telling(ProbePhase::Finished, ProbeNote::Closed { exit_code }))
            } else {
                Ok(quiet(ProbePhase::Closing))
            }
        },
        (phase, _) => Ok(quiet(phase)),
    }
}

/// A cell that stands out: coloured unlike the pane's default, or styled.
#[derive(Debug, PartialEq, Eq)]
pub struct CellNote {
    pub x: usize,
    pub symbol: String,
    pub rgb: (u8, u8, u8),
    pub modifier: u16,
}

/// A row with text on it.
#[derive(Debug)]
pub struct RowReport {
    pub row: usize,
    pub line: String,
    pub notes: Vec<CellNote>,
}

/// What a row report holds.
pub struct RowReportView {
    pub row: int,
    pub line: Seq<char>,
    pub notes: Seq<(int, Seq<char>, (u8, u8, u8), u16)>,
}

impl View for RowReport {
    type V = RowReportView;

    open spec fn view(&self) -> RowReportView {
        RowReportView {
            row: self.row as int,
            line: self.line@,
            notes: notes_view(self.notes@),
        }
    }
}

/// What cell notes hold.
pub open spec fn notes_view(notes: Seq<CellNote>) -> Seq<(int, Seq<char>, (u8, u8, u8), u16)> {
    notes.map_values(|n: CellNote| (n.x as int, n.symbol@, n.rgb, n.modifier))
}

/// What row reports hold.
pub open spec fn reports_view(rows: Seq<RowReport>) -> Seq<RowReportView> {
    rows.map_values(|r: RowReport| r@)
}

/// The pane's default foreground: the first cell's, or black.
pub open spec fn default_rgb(cells: Seq<Cell>) -> (u8, u8, u8) {
    if cells.len() > 0 && messages::rgb_of(cells[0].fg) is Some {
        messages::rgb_of(cells[0].fg)->0
    } else {
        (0, 0, 0)
    }
}

/// The pane's default foreground.
pub fn default_fg(f: &Frame) -> (r: (u8, u8, u8))
    ensures
        r == default_rgb(f.cells@),
{
    if f.cells.len() > 0 {
        if let Some(rgb) = messages::unpack_rgb(f.cells[0].fg) {
            return rgb;
        }
    }
    (0, 0, 0)
}

/// A text without the spaces at its end.
pub open spec fn without_spaces(s: Seq<char>) -> Seq<char>
    decreases s.len(),
{
    if s.len() > 0 && s.last() == ' ' {
        without_spaces(s.drop_last())
    } else {
        s
    }
}

/// Whether a cell stands out.
pub open spec fn stands_out(c: Cell, default: (u8, u8, u8)) -> bool {
    c.symbol@ != " "@ && c.symbol@.len() > 0 && messages::rgb_of(c.fg) is Some && (c.modifier != 0
        || messages::rgb_of(c.fg)->0 != default)
}

/// The cells of a row that stand out, with their columns.
pub open spec fn row_notes(row: Seq<Cell>, default: (u8, u8, u8)) -> Seq<
    (int, Seq<char>, (u8, u8, u8), u16),
>
    decreases row.len(),
{
    if row.len() == 0 {
        Seq::empty()
    } else {
        let before = row_notes(row.drop_last(), default);
        let c = row.last();
        if stands_out(c, default) {
            before.push((row.len() - 1, c.symbol@, messages::rgb_of(c.fg)->0, c.modifier))
        } else {
            before
        }
    }
}

/// The cells of row `r` of a grid with `cols` columns; the last row may be
/// short.
pub open spec fn chunk(cells: Seq<Cell>, cols: int, r: int) -> Seq<Cell> {
    cells.subrange(
        r * cols,
        if (r + 1) * cols <= cells.len() {
            (r + 1) * cols
        } else {
            cells.len() as int
        },
    )
}

/// The reports of the first `n` rows: those with text on them.
pub open spec fn report(cells: Seq<Cell>, cols: int, n: int) -> Seq<RowReportView>
    decreases n,
{
    if n <= 0 {
        Seq::empty()
    } else {
        let before = report(cells, cols, n - 1);
        let row = chunk(cells, cols, n - 1);
        let line = without_spaces(symbols(row));
        if line.len() == 0 {
            before
        } else {
            before.push(
                RowReportView { row: n - 1, line, notes: row_notes(row, default_rgb(cells)) },
            )
        }
    }
}

fn note_row(cells: &Vec<Cell>, start: usize, end: usize, default: (u8, u8, u8)) -> (r: Vec<
    CellNote,
>)
    requires
        start <= end <= cells@.len(),
    ensures
        notes_view(r@) == row_notes(cells@.subrange(start as int, end as int), default),
{
    let mut out: Vec<CellNote> = Vec::new();
    let mut i: usize = start;
    assert(cells@.subrange(start as int, start as int) =~= Seq::<Cell>::empty());
    assert(notes_view(out@) =~= row_notes(cells@.subrange(start as int, start as int), default));
    while i < end
        invariant
            start <= i <= end <= cells@.len(),
            notes_view(out@) == row_notes(cells@.subrange(start as int, i as int), default),
        decreases end - i,
    {
        let ghost before = out@;
        proof {
            let more = cells@.subrange(start as int, i + 1);
            assert(more.drop_last() =~= cells@.subrange(start as int, i as int));
            assert(more.last() == cells@[i as int]);
        }
        let c = &cells[i];
        if c.symbol != " ".to_string() && !c.symbol.as_str().is_empty() {
            if let Some(rgb) = messages::unpack_rgb(c.fg) {
                if c.modifier != 0 || rgb.0 != default.0 || rgb.1 != default.1 || rgb.2
                    != default.2 {
                    let note = CellNote {
                        x: i - start,
                        symbol: c.symbol.clone(),
                        rgb,
                        modifier: c.modifier,
                    };
                    out.push(note);
                    assert(notes_view(out@) =~= notes_view(before).push(
                        (note.x as int, note.symbol@, note.rgb, note.modifier),
                    ));
                }
            }
        }
        i += 1;
    }
    out
}

/// Reports a frame's rows that have text on them, trailing spaces left out, with
/// the cells that stand out.
pub fn print_frame(f: &Frame) -> (r: Vec<RowReport>)
    requires
        f.cols > 0,
    ensures
        reports_view(r@) == report(
            f.cells@,
            f.cols as int,
            (f.cells@.len() + f.cols - 1) / (f.cols as int),
        ),
{
    let default = default_fg(f);
    let cols = f.cols as usize;
    let total = f.cells.len();
    let mut out: Vec<RowReport> = Vec::new();
    let mut row: usize = 0;
    let mut start: usize = 0;
    assert(reports_view(out@) =~= Seq::<RowReportView>::empty());
    assert(0 * cols == 0) by (nonlinear_arith);
    while start < total
        invariant
            total == f.cells@.len(),
            cols == f.cols,
            cols > 0,
            default == default_rgb(f.cells@),
            start == row * cols || (start == total && (row - 1) * cols < total <= row * cols),
            start <= total,
            start == row * cols ==> row == 0 || (row - 1) * cols < total,
            row <= start,
            reports_view(out@) == report(f.cells@, cols as int, row as int),
        decreases total - start,
    {
        proof {
            assert((row + 1) * cols == row * cols + cols) by (nonlinear_arith);
            assert(row * cols < total);
        }
        let end: usize = if total - start > cols {
            start + cols
        } else {
            total
        };
        let ghost cells = chunk(f.cells@, cols as int, row as int);
        assert(f.cells@.subrange(start as int, end as int) == cells);
        let mut line = gather(&f.cells, start, end);
        let ghost whole = line@;
        while line.len() > 0 && line[line.len() - 1] == ' '
            invariant
                without_spaces(line@) == without_spaces(whole),
            decreases line.len(),
        {
            line.pop();
        }
        if line.len() > 0 {
            let ghost before = out@;
            let report = RowReport {
                row,
                line: text::string_of(&line),
                notes: note_row(&f.cells, start, end, default),
            };
            out.push(report);
            assert(reports_view(out@) =~= reports_view(before).push(report@));
        }
        start = end;
        row += 1;
    }
    proof {
        rows_are_counted(total as int, cols as int, row as int);
    }
    out
}

proof fn rows_are_counted(total: int, cols: int, row: int)
    requires
        cols > 0,
        total >= 0,
        row >= 0,
        total <= row * cols,
        row == 0 || (row - 1) * cols < total,
    ensures
        row == (total + cols - 1) / cols,
{
    if row == 0 {
        assert(row * cols == 0) by (nonlinear_arith)
            requires
                row == 0,
        ;
        assert((cols - 1) / cols == 0) by (nonlinear_arith)
            requires
                cols > 0,
        ;
    } else {
        assert((row - 1) * cols == row * cols - cols) by (nonlinear_arith);
        let extra = total + cols - 1 - row * cols;
        assert(0 <= extra < cols);
        vstd::arithmetic::div_mod::lemma_fundamental_div_mod_converse(
            total + cols - 1,
            cols,
            row,
            extra,
        );
    }
}

/// The probe always comes to an end of its wait: an event that is no echo uses
/// up a try, and the last one fails.
pub proof fn echo_waits_end(r: Result<ProbeStep, ProbeError>, tries: u32, event: Event)
    requires
        is_step(r, ProbePhase::Echo { tries }, event),
    ensures
        r matches Ok(s) ==> s.phase == ProbePhase::Closing || (s.phase matches ProbePhase::Echo {
            tries: left,
        } && left < tries),
        tries <= 1 && r is Ok ==> r->Ok_0.phase == ProbePhase::Closing,
{
}

/// The text of a run of cells is their symbols, one after the other.
pub proof fn symbols_follow_one_another(a: Seq<Cell>, b: Seq<Cell>, c: Cell)
    ensures
        symbols(a + b) == symbols(a) + symbols(b),
        symbols(seq![c]) == c.symbol@,
        symbols(Seq::empty()) == Seq::<char>::empty(),
    decreases b.len(),
{
    reveal_with_fuel(symbols, 2);
    assert(seq![c].drop_last() =~= Seq::<Cell>::empty());
    assert(symbols(seq![c]) =~= c.symbol@);
    if b.len() == 0 {
        assert(a + b =~= a);
        assert(symbols(a + b) =~= symbols(a) + symbols(b));
    } else {
        symbols_follow_one_another(a, b.drop_last(), c);
        assert((a + b).drop_last() =~= a + b.drop_last());
        assert(symbols(a + b) =~= symbols(a) + symbols(b));
    }
}

/// What a line loses is the spaces at its end, and nothing else.
pub proof fn lines_lose_their_last_spaces(s: Seq<char>)
    ensures
        ({
            let t = without_spaces(s);
            &&& t.len() <= s.len()
            &&& t == s.take(t.len() as int)
            &&& t.len() > 0 ==> t.last() != ' '
            &&& forall|i: int| t.len() <= i < s.len() ==> #[trigger] s[i] == ' '
        }),
    decreases s.len(),
{
    if s.len() > 0 && s.last() == ' ' {
        lines_lose_their_last_spaces(s.drop_last());
        let t = without_spaces(s.drop_last());
        assert(t =~= s.take(t.len() as int));
        assert forall|i: int| t.len() <= i < s.len() implies #[trigger] s[i] == ' ' by {
            if i < s.len() - 1 {
                assert(s[i] == s.drop_last()[i]);
            }
        }
    } else {
        assert(s =~= s.take(s.len() as int));
    }
}

/// A row's notes are its visible cells that differ from the default colour or carry
/// a modifier, each once and from left to right, with the cell's symbol, colour and
/// modifier.
pub proof fn notes_are_the_cells_that_stand_out(
    row: Seq<Cell>,
    default: (u8, u8, u8),
    k: int,
    x: int,
)
    ensures
        ({
            let notes = row_notes(row, default);
            &&& 0 <= k < notes.len() ==> {
                let cell = row[notes[k].0];
                &&& 0 <= notes[k].0 < row.len()
                &&& notes[k].1 == cell.symbol@
                &&& messages::rgb_of(cell.fg) == Some(notes[k].2)
                &&& notes[k].3 == cell.modifier
                &&& cell.symbol@.len() > 0 && cell.symbol@ != seq![' ']
                &&& cell.modifier != 0 || notes[k].2 != default
            }
            &&& 0 < k < notes.len() ==> notes[k - 1].0 < notes[k].0
            &&& 0 <= x < row.len() && row[x].symbol@.len() > 0 && row[x].symbol@ != seq![' ']
                && messages::rgb_of(row[x].fg) is Some && (row[x].modifier != 0
                || messages::rgb_of(row[x].fg)->0 != default) ==> exists|j: int|
                0 <= j < notes.len() && (#[trigger] notes[j]).0 == x
        }),
    decreases row.len(),
{
    reveal_strlit(" ");
    assert(" "@ =~= seq![' ']);
    if row.len() > 0 {
        let before = row_notes(row.drop_last(), default);
        let notes = row_notes(row, default);
        notes_are_the_cells_that_stand_out(row.drop_last(), default, k, x);
        notes_are_the_cells_that_stand_out(row.drop_last(), default, k - 1, x);
        if 0 <= x < row.len() - 1 {
            assert(row.drop_last()[x] == row[x]);
            if exists|j: int| 0 <= j < before.len() && (#[trigger] before[j]).0 == x {
                let j = choose|j: int| 0 <= j < before.len() && (#[trigger] before[j]).0 == x;
                assert(notes[j].0 == x);
            }
        }
        if stands_out(row.last(), default) {
            assert(notes[before.len() as int].0 == row.len() - 1);
        }
    }
}

/// A report has an entry for every row with something visible on it, in order, and
/// for no other. The entry has the row's text without the spaces at its end, and
/// the row's notes.
pub proof fn reports_list_the_rows_with_text(
    cells: Seq<Cell>,
    cols: int,
    n: int,
    k: int,
    row: int,
)
    requires
        n >= 0,
    ensures
        ({
            let rows = report(cells, cols, n);
            &&& 0 <= k < rows.len() ==> {
                let own = chunk(cells, cols, rows[k].row);
                &&& 0 <= rows[k].row < n
                &&& rows[k].line == without_spaces(symbols(own))
                &&& rows[k].line.len() > 0
                &&& rows[k].notes == row_notes(own, default_rgb(cells))
            }
            &&& 0 < k < rows.len() ==> rows[k - 1].row < rows[k].row
            &&& 0 <= row < n && without_spaces(symbols(chunk(cells, cols, row))).len() > 0
                ==> exists|j: int| 0 <= j < rows.len() && (#[trigger] rows[j]).row == row
        }),
    decreases n,
{
    if n > 0 {
        let before = report(cells, cols, n - 1);
        let rows = report(cells, cols, n);
        reports_list_the_rows_with_text(cells, cols, n - 1, k, row);
        reports_list_the_rows_with_text(cells, cols, n - 1, k - 1, row);
        if exists|j: int| 0 <= j < before.len() && (#[trigger] before[j]).row == row {
            let j = choose|j: int| 0 <= j < before.len() && (#[trigger] before[j]).row == row;
            assert(rows[j].row == row);
        }
        if rows.len() > before.len() {
            assert(rows[before.len() as int].row == n - 1);
        }
    }
}

/// A row of a picture is its cells from the first column on, as many as there are.
pub proof fn rows_are_cut_from_the_picture(cells: Seq<Cell>, cols: int, r: int, x: int)
    requires
        cols > 0,
        0 <= r,
        0 <= x < cols,
        r * cols + x < cells.len(),
    ensures
        x < chunk(cells, cols, r).len() <= cols,
        chunk(cells, cols, r)[x] == cells[r * cols + x],
{
    assert((r + 1) * cols == r * cols + cols) by (nonlinear_arith);
    assert(r * cols >= 0) by (nonlinear_arith)
        requires
            r >= 0,
            cols > 0,
    ;
}

/// The probe goes through its phases in order: greeted, it opens the first pane;
/// that pane gone, it opens the second and types into it; the echo seen, it closes
/// that pane; the pane closed, it is done. Everything else leaves it where it is, or
/// ends it with the reason.
pub proof fn probes_go_through_their_phases(
    phase: ProbePhase,
    event: Event,
    r: Result<ProbeStep, ProbeError>,
)
    requires
        call_ensures(run, (phase, event), r),
    ensures
        phase is Greeting ==> (r is Ok <==> event is Welcome && event->Welcome_error@.len() == 0),
        phase is Greeting && r is Ok ==> r->Ok_0.phase == ProbePhase::FirstPane(None)
            && r->Ok_0.send@.len() == 1 && (r->Ok_0.send@[0] matches Command::CreatePane {
            pane_id,
            cols,
            rows,
            ..
        } && pane_id == 1 && cols == 40 && rows == 6),
        !(phase is Greeting) ==> (event matches Event::Error { pane_id, message } ==> r == Err::<
            ProbeStep,
            ProbeError,
        >(ProbeError::Pane { pane_id, message })),
        phase is FirstPane && event is PaneFrame ==> r is Ok && r->Ok_0.phase
            == ProbePhase::FirstPane(Some(event->PaneFrame_frame)) && r->Ok_0.send@.len() == 0,
        phase matches ProbePhase::FirstPane(seen) ==> event is PaneExited ==> (r is Ok
            <==> seen is Some),
        phase is FirstPane && event is PaneExited && r is Ok ==> r->Ok_0.phase == (
        ProbePhase::Echo { tries: 200 }) && r->Ok_0.send@.len() == 2 && (
        r->Ok_0.send@[0] matches Command::CreatePane { pane_id, cols, rows, .. } && pane_id == 2
            && cols == 40 && rows == 4) && (r->Ok_0.send@[1] matches Command::Input {
            pane_id,
            data,
        } && pane_id == 2 && data@.last() == 13),
        phase is Closing && r is Ok ==> (r->Ok_0.phase is Finished <==> event is PaneExited
            && event->PaneExited_pane_id == 2),
        phase is Finished && r is Ok ==> r->Ok_0.phase is Finished && r->Ok_0.send@.len() == 0,
{
}

/// The echo is seen in a frame of the second pane that shows what was typed, and
/// nowhere else; then that pane is closed.
pub proof fn echoes_are_seen_in_the_second_pane(
    tries: u32,
    event: Event,
    r: Result<ProbeStep, ProbeError>,
)
    requires
        call_ensures(run, (ProbePhase::Echo { tries }, event), r),
    ensures
        ({
            let seen = event is PaneFrame && event->PaneFrame_pane_id == 2 && exists|i: int|
                0 <= i <= symbols(event->PaneFrame_frame.cells@).len() - "ping from rust"@.len()
                    && #[trigger] symbols(event->PaneFrame_frame.cells@).subrange(
                    i,
                    i + "ping from rust"@.len(),
                ) == "ping from rust"@;
            &&& !(event is Error) ==> (r is Ok && r->Ok_0.phase is Closing <==> seen)
            &&& seen ==> r->Ok_0.send@ == seq![Command::ClosePane { pane_id: 2 }]
            &&& !(event is Error) && !seen && tries > 1 ==> r is Ok && r->Ok_0.phase == (
            ProbePhase::Echo { tries: (tries - 1) as u32 })
        }),
{
}

/// The default colour of a picture is the first cell's, and black where it has none.
pub proof fn the_first_cell_has_the_default_colour(f: Frame, r: (u8, u8, u8))
    requires
        call_ensures(default_fg, (&f,), r),
    ensures
        f.cells@.len() == 0 ==> r == (0u8, 0u8, 0u8),
        f.cells@.len() > 0 && messages::rgb_of(f.cells@[0].fg) is None ==> r == (0u8, 0u8, 0u8),
        f.cells@.len() > 0 ==> (messages::rgb_of(f.cells@[0].fg) matches Some(c) ==> r == c),
{
}

/// The first pane runs a script that prints in colour, the second one echoes what
/// is typed: a line, ended by a carriage return.
pub proof fn probe_panes_run_their_programs(
    event: Event,
    first: Result<ProbeStep, ProbeError>,
    last: Frame,
    gone: Event,
    second: Result<ProbeStep, ProbeError>,
)
    requires
        call_ensures(run, (ProbePhase::Greeting, event), first),
        call_ensures(run, (ProbePhase::FirstPane(Some(last)), gone), second),
        first is Ok,
        gone is PaneExited,
    ensures
        first->Ok_0.send@[0] matches Command::CreatePane { command, args, cwd, env, .. } && command@
            == "/bin/sh"@ && args@.len() == 2 && args@[0]@ == "-c"@ && args@[1]@
            == "printf 'RUST<->GO\\n'; printf '\\033[31mRED\\033[0m and \\033[1mBOLD\\033[0m\\n'"@
            && cwd@.len() == 0 && env@.len() == 0,
        second is Ok,
        second->Ok_0.send@[0] matches Command::CreatePane { command, args, .. } && command@
            == "/bin/cat"@ && args@.len() == 0,
        second->Ok_0.send@[1] matches Command::Input { data, .. } && data@
            == vstd::utf8::encode_utf8("ping from rust"@) + seq![13u8],
        second->Ok_0.notes@ == seq![
            ProbeNote::Exited {
                pane_id: gone->PaneExited_pane_id,
                exit_code: gone->PaneExited_exit_code,
            },
            ProbeNote::Grid(last),
        ],
{
    let typed = vstd::utf8::encode_utf8("ping from rust"@);
    assert(typed.push(0x0d) =~= typed + seq![13u8]);
}

} // verus!
