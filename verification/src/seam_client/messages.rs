//! The messages the small client knows: the part of the daemon's protocol that
//! a probe needs.

use vstd::prelude::*;
use crate::termhost::proto;
use crate::termhost::proto::FrameError;

verus! {

/// Bumped on any breaking change to the message shapes.
pub const PROTOCOL_VERSION: i32 = 1;

/// Caps a single length-prefixed frame.
pub const MAX_FRAME_SIZE: usize = 8388608;

/// Commands sent to the daemon.
#[derive(Debug, Clone, PartialEq, Eq)]
pub enum Command {
    Hello { protocol_version: i32 },
    CreatePane {
        pane_id: u32,
        cols: u16,
        rows: u16,
        cell_width_px: u32,
        cell_height_px: u32,
        cwd: String,
        command: String,
        args: Vec<String>,
        /// Extra environment, keys ascending.
        env: Vec<(String, String)>,
    },
    /// Raw bytes for the pane's terminal.
    Input { pane_id: u32, data: Vec<u8> },
    Resize { pane_id: u32, cols: u16, rows: u16, cell_width_px: u32, cell_height_px: u32 },
    ClosePane { pane_id: u32 },
}

impl Command {
    /// The greeting that opens a connection.
    pub fn hello() -> (r: Self)
        ensures
            r == (Command::Hello { protocol_version: PROTOCOL_VERSION }),
    {
        Command::Hello { protocol_version: PROTOCOL_VERSION }
    }
}

/// Events received from the daemon.
#[derive(Debug, Clone, PartialEq, Eq)]
pub enum Event {
    Welcome { protocol_version: i32, error: String },
    PaneFrame { pane_id: u32, frame: Frame },
    PaneExited { pane_id: u32, exit_code: i32 },
    Error { pane_id: u32, message: String },
}

/// One pane's grid, full or diffed.
#[derive(Debug, Clone, PartialEq, Eq)]
pub struct Frame {
    pub cols: u16,
    pub rows: u16,
    pub full: bool,
    pub cursor: Option<Cursor>,
    pub cells: Vec<Cell>,
}

/// One cell.
#[derive(Debug, Clone, PartialEq, Eq)]
pub struct Cell {
    pub symbol: String,
    pub fg: u32,
    pub bg: u32,
    pub modifier: u16,
    pub skip: bool,
    pub hyperlink: Option<u32>,
}

/// A cursor within a frame.
#[derive(Debug, Clone, Copy, PartialEq, Eq, Structural)]
pub struct Cursor {
    pub x: u16,
    pub y: u16,
    pub visible: bool,
    pub shape: u8,
}

/// A connection over any stream.
pub struct Conn<S> {
    pub stream: S,
}

impl<S> Conn<S> {
    pub fn new(stream: S) -> (r: Self)
        ensures
            r.stream == stream,
    {
        Conn { stream }
    }

    pub fn get_mut(&mut self) -> (r: &mut S)
        ensures
            *r == old(self).stream,
            final(self).stream == *final(r),
    {
        &mut self.stream
    }

    /// Frames an encoded command for the stream.
    pub fn send(payload: &[u8]) -> (r: Result<Vec<u8>, FrameError>)
        ensures
            match r {
                Ok(out) => payload@.len() <= MAX_FRAME_SIZE && out@ == proto::framed(payload@),
                Err(e) => payload@.len() > MAX_FRAME_SIZE && e == FrameError::TooLarge,
            },
    {
        proto::write_command(payload)
    }

    /// Takes the payload of one encoded event off what the stream has.
    pub fn recv(stream: &[u8]) -> (r: Result<Vec<u8>, FrameError>)
        ensures
            match r {
                Ok(payload) => proto::unframed(stream@) == Ok::<Seq<u8>, FrameError>(payload@),
                Err(e) => proto::unframed(stream@) == Err::<Seq<u8>, FrameError>(e),
            },
    {
        proto::read_event(stream)
    }
}

/// The red, green and blue of a packed colour; none of the colours that are
/// named or in the palette has any.
pub open spec fn rgb_of(v: u32) -> Option<(u8, u8, u8)> {
    if v / 0x100_0000 == 2 {
        Some(((v / 0x1_0000 % 0x100) as u8, (v / 0x100 % 0x100) as u8, (v % 0x100) as u8))
    } else {
        None
    }
}

/// Unpacks a colour.
pub fn unpack_rgb(v: u32) -> (r: Option<(u8, u8, u8)>)
    ensures
        r == rgb_of(v),
{
    if v / 0x100_0000 == 2 {
        Some(((v / 0x1_0000 % 0x100) as u8, (v / 0x100 % 0x100) as u8, (v % 0x100) as u8))
    } else {
        None
    }
}

/// Packing a red, a green and a blue and unpacking the colour gives them back.
pub proof fn packed_colours_unpack(r: u8, g: u8, b: u8)
    ensures
        rgb_of((0x200_0000 + r * 0x1_0000 + g * 0x100 + b) as u32) == Some((r, g, b)),
{
}

/// A colour is three bytes, red first, under a tag of two; under any other tag
/// there is none.
pub proof fn colours_are_tagged(v: u32, r: Option<(u8, u8, u8)>)
    requires
        call_ensures(unpack_rgb, (v,), r),
    ensures
        r is Some <==> 0x200_0000 <= v <= 0x2ff_ffff,
        r matches Some((red, green, blue)) ==> v == 0x200_0000 + 0x1_0000 * red + 0x100 * green
            + blue,
{
}

/// The greeting names the first version of the protocol, and what a connection
/// sends is framed, so that the other side receives it.
pub proof fn what_is_sent_is_received(
    payload: &[u8],
    sent: Result<Vec<u8>, FrameError>,
    hello: Command,
)
    requires
        call_ensures(Conn::<u8>::send, (payload,), sent),
        call_ensures(Command::hello, (), hello),
    ensures
        hello == (Command::Hello { protocol_version: 1 }),
        sent is Ok <==> payload@.len() <= 8388608,
        sent matches Ok(out) ==> proto::unframed(out@) == Ok::<Seq<u8>, FrameError>(payload@),
{
    if payload@.len() <= 8388608 {
        proto::frame_round_trips(payload@, Seq::empty());
        assert(proto::framed(payload@) + Seq::<u8>::empty() =~= proto::framed(payload@));
    }
}

} // verus!
