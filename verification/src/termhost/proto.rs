//! The daemon protocol: commands out, events in, each one JSON payload behind a
//! four-byte little-endian length.

use vstd::prelude::*;
use crate::wire;
use crate::wire::{CellData, CursorState, FrameData};

verus! {

/// Bumped on any breaking change to the message shapes; both ends must agree.
pub const PROTOCOL_VERSION: i32 = 1;

/// Caps a single length-prefixed frame.
pub const MAX_FRAME_SIZE: usize = 8 * 1024 * 1024;

/// Text request scope: the visible screen.
pub const TEXT_SCOPE_VISIBLE: u8 = 0;

/// Text request scope: the most recent lines of the whole buffer.
pub const TEXT_SCOPE_RECENT: u8 = 1;

/// A selection endpoint in screen-buffer coordinates.
#[derive(Debug, Clone, Copy, PartialEq, Eq, Structural)]
pub struct SelectionPoint {
    pub row: u32,
    pub col: u16,
}

/// Commands sent to the daemon.
#[derive(Debug, Clone, PartialEq, Eq)]
pub enum Command {
    Hello { protocol_version: i32 },
    CreatePane {
        pane_id: u32,
        cols: u16,
        rows: u16,
        cell_width_px: u32,
        cell_height_px: u32,
        cwd: String,
        command: String,
        args: Vec<String>,
        /// Extra environment, keys ascending.
        env: Vec<(String, String)>,
        /// VT-encoded scrollback to seed before the child runs.
        initial_history: String,
    },
    /// Raw PTY bytes.
    Input { pane_id: u32, data: Vec<u8> },
    Resize { pane_id: u32, cols: u16, rows: u16, cell_width_px: u32, cell_height_px: u32 },
    ClosePane { pane_id: u32 },
    ScrollViewport { pane_id: u32, delta: i32 },
    RequestSelection {
        pane_id: u32,
        anchor: SelectionPoint,
        cursor: SelectionPoint,
        rectangle: bool,
    },
    RequestText { pane_id: u32, scope: u8, lines: u32, ansi: bool, unwrap: bool },
    RequestResync { pane_id: u32 },
    Shutdown,
}

/// Events received from the daemon.
#[derive(Debug, Clone, PartialEq, Eq)]
pub enum Event {
    Welcome {
        protocol_version: i32,
        error: String,
        /// Panes the daemon already had live.
        panes: Vec<u32>,
    },
    PaneFrame { pane_id: u32, frame: Frame },
    PaneCwd { pane_id: u32, cwd: String },
    PaneAgent {
        pane_id: u32,
        agent: String,
        state: String,
        visible_blocker: bool,
        visible_working: bool,
    },
    /// Decoded clipboard bytes; empty is a clipboard-clear.
    PaneClipboard { pane_id: u32, data: Vec<u8> },
    /// OSC 0/2 window title; empty is a title-clear.
    PaneTitle { pane_id: u32, title: String },
    /// Reply to a selection request.
    PaneSelection { pane_id: u32, text: String },
    /// Reply to a text request.
    PaneText { pane_id: u32, text: String },
    PaneModes {
        pane_id: u32,
        alternate_screen: bool,
        application_cursor: bool,
        bracketed_paste: bool,
        focus_reporting: bool,
        mouse_mode: u8,
        mouse_encoding: u8,
        mouse_alternate_scroll: bool,
        synchronized_output: bool,
        kitty_keyboard_flags: u16,
        modify_other_keys: bool,
    },
    PaneExited { pane_id: u32, exit_code: i32 },
    Error { pane_id: u32, message: String },
}

/// Scrollback position of a pane's viewport.
#[derive(Debug, Clone, Copy, PartialEq, Eq, Structural)]
pub struct FrameScroll {
    pub offset_from_bottom: usize,
    pub max_offset_from_bottom: usize,
    pub viewport_rows: usize,
}

/// One pane's grid, full or diffed.
#[derive(Debug, Clone, PartialEq, Eq)]
pub struct Frame {
    pub cols: u16,
    pub rows: u16,
    pub full: bool,
    pub cursor: Option<CursorState>,
    pub cells: Vec<CellData>,
    /// OSC 8 URI table the cells index into.
    pub hyperlinks: Vec<String>,
    /// Left out by panes without history.
    pub scroll: Option<FrameScroll>,
}

impl Frame {
    /// Converts into a render frame. Link and graphics tables are left empty.
    pub fn into_frame_data(self) -> (r: FrameData)
        ensures
            r@ == (wire::FrameView {
                cells: wire::cells_view(self.cells@),
                width: self.cols,
                height: self.rows,
                cursor: self.cursor,
                hyperlinks: Seq::empty(),
                graphics: Seq::empty(),
            }),
    {
        let r = FrameData {
            cells: self.cells,
            width: self.cols,
            height: self.rows,
            cursor: self.cursor,
            hyperlinks: Vec::new(),
            graphics: Vec::new(),
        };
        assert(wire::texts_view(r.hyperlinks@) =~= Seq::<Seq<char>>::empty());
        r
    }
}

/// Why a frame could not be written or read.
#[derive(Debug, Clone, Copy, PartialEq, Eq, Structural)]
pub enum FrameError {
    /// The payload exceeds [`MAX_FRAME_SIZE`].
    TooLarge,
    /// The stream ended inside a frame.
    UnexpectedEof,
}

/// The four bytes of `n`, least significant first.
pub open spec fn length_header(n: nat) -> Seq<u8> {
    seq![
        (n % 256) as u8,
        (n / 256 % 256) as u8,
        (n / 65536 % 256) as u8,
        (n / 16777216 % 256) as u8,
    ]
}

/// The length a header announces.
pub open spec fn header_length(h: Seq<u8>) -> nat {
    (h[0] + 256 * h[1] + 65536 * h[2] + 16777216 * h[3]) as nat
}

/// A payload behind its length.
pub open spec fn framed(payload: Seq<u8>) -> Seq<u8> {
    length_header(payload.len()) + payload
}

/// What reading one frame off the front of `stream` gives: its payload, or why
/// there is none.
pub open spec fn unframed(stream: Seq<u8>) -> Result<Seq<u8>, FrameError> {
    if stream.len() < 4 {
        Err(FrameError::UnexpectedEof)
    } else if header_length(stream) > MAX_FRAME_SIZE {
        Err(FrameError::TooLarge)
    } else if stream.len() < 4 + header_length(stream) {
        Err(FrameError::UnexpectedEof)
    } else {
        Ok(stream.subrange(4, 4 + header_length(stream) as int))
    }
}

/// The bytes to write for one command's JSON payload.
pub fn write_command(payload: &[u8]) -> (r: Result<Vec<u8>, FrameError>)
    ensures
        match r {
            Ok(bytes) => payload@.len() <= MAX_FRAME_SIZE && bytes@ == framed(payload@),
            Err(e) => payload@.len() > MAX_FRAME_SIZE && e == FrameError::TooLarge,
        },
{
    let n = payload.len();
    if n > MAX_FRAME_SIZE {
        return Err(FrameError::TooLarge);
    }
    let mut out: Vec<u8> = Vec::new();
    out.push((n % 256) as u8);
    out.push((n / 256 % 256) as u8);
    out.push((n / 65536 % 256) as u8);
    out.push((n / 16777216 % 256) as u8);
    assert(out@ =~= length_header(n as nat));
    let mut i: usize = 0;
    while i < n
        invariant
            n == payload@.len(),
            i <= n,
            out@ == length_header(n as nat) + payload@.take(i as int),
        decreases n - i,
    {
        out.push(payload[i]);
        i += 1;
    }
    assert(payload@.take(n as int) =~= payload@);
    Ok(out)
}

/// The payload length a header announces, if it is within bounds.
pub fn frame_len(header: &[u8]) -> (r: Result<usize, FrameError>)
    requires
        header@.len() >= 4,
    ensures
        match r {
            Ok(n) => n == header_length(header@) && n <= MAX_FRAME_SIZE,
            Err(e) => header_length(header@) > MAX_FRAME_SIZE && e == FrameError::TooLarge,
        },
{
    let n = header[0] as u64 + 256 * header[1] as u64 + 65536 * header[2] as u64 + 16777216
        * header[3] as u64;
    if n > MAX_FRAME_SIZE as u64 {
        Err(FrameError::TooLarge)
    } else {
        Ok(n as usize)
    }
}

/// Reads one event's JSON payload off the front of `stream`. The size bound is
/// checked before the payload is looked at.
pub fn read_event(stream: &[u8]) -> (r: Result<Vec<u8>, FrameError>)
    ensures
        match r {
            Ok(payload) => unframed(stream@) == Ok::<Seq<u8>, FrameError>(payload@),
            Err(e) => unframed(stream@) == Err::<Seq<u8>, FrameError>(e),
        },
{
    if stream.len() < 4 {
        return Err(FrameError::UnexpectedEof);
    }
    let n = match frame_len(stream) {
        Ok(n) => n,
        Err(e) => {
            return Err(e);
        },
    };
    let total = stream.len();
    if total - 4 < n {
        return Err(FrameError::UnexpectedEof);
    }
    let mut out: Vec<u8> = Vec::new();
    let mut i: usize = 0;
    while i < n
        invariant
            total == stream@.len(),
            4 <= total,
            n <= total - 4,
            i <= n,
            out@ == stream@.subrange(4, 4 + i),
        decreases n - i,
    {
        out.push(stream[4 + i]);
        i += 1;
    }
    Ok(out)
}

/// Reading a stream that starts with a written frame gives back its payload,
/// whatever follows.
pub proof fn frame_round_trips(payload: Seq<u8>, rest: Seq<u8>)
    requires
        payload.len() <= MAX_FRAME_SIZE,
    ensures
        unframed(framed(payload) + rest) == Ok::<Seq<u8>, FrameError>(payload),
        (framed(payload) + rest).skip(4 + payload.len() as int) == rest,
{
    let s = framed(payload) + rest;
    let n = payload.len();
    assert(s[0] == (n % 256) as u8);
    assert(s[1] == (n / 256 % 256) as u8);
    assert(s[2] == (n / 65536 % 256) as u8);
    assert(s[3] == (n / 16777216 % 256) as u8);
    assert(header_length(s) == n);
    assert(s.subrange(4, 4 + n as int) =~= payload);
    assert(s.skip(4 + n as int) =~= rest);
}

/// A frame is its length, in four bytes with the least significant first, and its
/// payload as it is.
pub proof fn frames_are_length_and_payload(payload: Seq<u8>)
    requires
        payload.len() <= 0xffff_ffff,
    ensures
        ({
            let f = framed(payload);
            &&& f.len() == 4 + payload.len()
            &&& f.skip(4) == payload
            &&& f[0] + 0x100 * f[1] + 0x1_0000 * f[2] + 0x100_0000 * f[3] == payload.len()
        }),
{
    assert(framed(payload).skip(4) =~= payload);
}

/// What a frame announces is its first four bytes, the least significant first.
pub proof fn headers_are_little_endian(h: Seq<u8>)
    requires
        h.len() >= 4,
    ensures
        header_length(h) % 256 == h[0],
        header_length(h) / 256 % 256 == h[1],
        header_length(h) / 65536 % 256 == h[2],
        header_length(h) / 16777216 == h[3],
{
}

/// A payload is written if and only if it has at most eight mebibytes.
pub proof fn payloads_are_bounded(payload: &[u8], r: Result<Vec<u8>, FrameError>)
    requires
        call_ensures(write_command, (payload,), r),
    ensures
        r is Ok <==> payload@.len() <= 8388608,
        r is Err ==> r->Err_0 == FrameError::TooLarge,
        r matches Ok(bytes) ==> bytes@.len() == 4 + payload@.len() && bytes@.skip(4) == payload@,
{
    assert(framed(payload@).skip(4) =~= payload@);
}

/// Reading a stream gives the payload its header announces, as it stands behind the
/// header. A header that announces more than eight mebibytes is refused; a stream
/// that ends within the header or before the end of its payload is cut short.
pub proof fn streams_are_read_to_their_length(stream: &[u8], r: Result<Vec<u8>, FrameError>)
    requires
        call_ensures(read_event, (stream,), r),
    ensures
        ({
            let s = stream@;
            let n = s[0] + 0x100 * s[1] + 0x1_0000 * s[2] + 0x100_0000 * s[3];
            &&& s.len() < 4 ==> r == Err::<Vec<u8>, FrameError>(FrameError::UnexpectedEof)
            &&& s.len() >= 4 && n > 8388608 ==> r == Err::<Vec<u8>, FrameError>(
                FrameError::TooLarge,
            )
            &&& s.len() >= 4 && n <= 8388608 && s.len() < 4 + n ==> r == Err::<
                Vec<u8>,
                FrameError,
            >(FrameError::UnexpectedEof)
            &&& s.len() >= 4 && n <= 8388608 && s.len() >= 4 + n ==> r is Ok && r->Ok_0@
                == s.subrange(4, 4 + n)
        }),
{
}

/// A header is taken if and only if it announces at most eight mebibytes, and for
/// what it announces.
pub proof fn headers_are_bounded(header: &[u8], r: Result<usize, FrameError>)
    requires
        header@.len() >= 4,
        call_ensures(frame_len, (header,), r),
    ensures
        ({
            let h = header@;
            let n = h[0] + 0x100 * h[1] + 0x1_0000 * h[2] + 0x100_0000 * h[3];
            &&& r is Ok <==> n <= 8388608
            &&& r is Ok ==> r->Ok_0 == n
            &&& r is Err ==> r->Err_0 == FrameError::TooLarge
        }),
{
}

/// A frame becomes a picture of its size, with its cells and its cursor, and with
/// neither links nor graphics.
pub proof fn frames_become_pictures(frame: Frame, r: FrameData, i: int)
    requires
        call_ensures(Frame::into_frame_data, (frame,), r),
        0 <= i < frame.cells@.len(),
    ensures
        r.width == frame.cols,
        r.height == frame.rows,
        r.cursor == frame.cursor,
        r.cells@.len() == frame.cells@.len(),
        r.cells@[i]@ == frame.cells@[i]@,
        r.hyperlinks@.len() == 0,
        r.graphics@.len() == 0,
{
    assert(r@.cells.len() == r.cells@.len());
    assert(r@.cells[i] == r.cells@[i]@);
    assert(r@.cells[i] == wire::cells_view(frame.cells@)[i]);
    assert(r@.hyperlinks.len() == r.hyperlinks@.len());
}

} // verus!
