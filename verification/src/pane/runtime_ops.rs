//! Everything that is done with a running pane: sizing, scrolling, reading,
//! drawing, typing, handing over and tearing down.

use vstd::prelude::*;
use crate::input::{
    KeyCode, KeyModifiers, KeyboardProtocol, MouseEventKind, MouseProtocolEncoding,
    MouseProtocolMode, TerminalKey,
};
use crate::kitty_keyboard;
use crate::pane::cwd;
use crate::pane::cwd::JobMember;
use crate::pane::fake_content;
use crate::pane::fake_terminal::FakeView;
use crate::pane::handoff;
use crate::pane::handoff::HandoffRuntimeState;
use crate::pane::input_mirror;
use crate::pane::render;
use crate::pane::render::{Rect, RenderPlan};
use crate::pane::runtime;
use crate::pane::runtime::{
    NoMasterFd, PaneResize, PaneRuntime, PaneRuntimeIo, PaneWrite, RuntimeView,
};
use crate::pane::screen::ScreenView;
use crate::pane::shutdown;
use crate::pane::shutdown::ShutdownAction;
use crate::pane::terminal;
use crate::pane::terminal::{
    InputState, ScrollMetrics, TerminalCursorState, TerminalDirtyPatchOutcome, TerminalView,
    WheelRouting,
};
use crate::termhost::client::{ClientView, PaneStateView, TermhostClient, TermhostPane};
use crate::termhost::grid;
use crate::termhost::grid::GridView;
use crate::termhost::proto::{Command, SelectionPoint, TEXT_SCOPE_RECENT, TEXT_SCOPE_VISIBLE};
use crate::terminal::types;
use crate::terminal::types::{FocusEvent, KittyImageDescriptor, KittyImagePlacement};
use crate::text;
use crate::wire::{CursorState, FrameData};

verus! {

/// What ends a pane.
#[derive(Debug, PartialEq, Eq)]
pub struct Teardown {
    /// Sent to the daemon.
    pub close: Option<Command>,
    /// The processes to signal.
    pub pids: Vec<u32>,
    /// The first thing to do about them.
    pub action: ShutdownAction,
}

/// The commands and processes that end a pane.
pub open spec fn is_teardown(t: Teardown, rt: RuntimeView, session: Seq<u32>) -> bool {
    &&& t.close == match rt.pane() {
        Some(pane) => Some(Command::ClosePane { pane_id: pane.id }),
        None => None,
    }
    &&& rt.child_pid == 0 ==> t.pids@.len() == 0 && t.action == ShutdownAction::Nothing
    &&& rt.child_pid != 0 ==> t.action == (ShutdownAction::SignalAndWait {
        signal: shutdown::Signal::Hangup,
        grace_ms: shutdown::SIGNAL_GRACE_MS,
    }) && shutdown::is_sorted_set_of(
        t.pids@,
        if session.len() == 0 {
            seq![rt.child_pid]
        } else {
            session
        },
    )
}

/// The client without the pane of a runtime.
pub open spec fn released(c: ClientView, rt: RuntimeView) -> ClientView {
    match rt.pane() {
        Some(pane) => ClientView { panes: c.panes.remove(pane.id), ..c },
        None => c,
    }
}

/// A number of lines as a scroll distance.
pub open spec fn distance(lines: usize) -> i32 {
    if lines <= i32::MAX {
        lines as i32
    } else {
        i32::MAX
    }
}

fn clamp_lines(lines: usize) -> (r: i32)
    ensures
        r == distance(lines),
        0 <= r,
{
    if lines <= 0x7fff_ffff {
        lines as i32
    } else {
        i32::MAX
    }
}

/// A scroll distance cut to what a command can carry.
pub open spec fn clamped(delta: int) -> i32 {
    if delta < i32::MIN {
        i32::MIN
    } else if delta > i32::MAX {
        i32::MAX
    } else {
        delta as i32
    }
}

/// The command that scrolls a pane; none where the daemon has no pane.
pub open spec fn scroll_command(rt: RuntimeView, delta: i32) -> Option<Command> {
    match rt.pane() {
        Some(pane) => Some(Command::ScrollViewport { pane_id: pane.id, delta }),
        None => None,
    }
}

/// A kind of text to read from a pane.
#[derive(Debug, Clone, Copy, PartialEq, Eq, Structural)]
pub struct TextQuery {
    pub scope: u8,
    /// How many of the last lines; the daemon takes more than it has as all.
    pub lines: usize,
    /// With styling.
    pub ansi: bool,
    /// With wrapped lines rejoined.
    pub unwrap: bool,
}

/// A number of lines as a request carries it.
pub open spec fn request_lines(lines: usize) -> u32 {
    if lines <= u32::MAX {
        lines as u32
    } else {
        u32::MAX
    }
}

/// Text for a program that asked for pastes to be marked is bracketed; any other
/// gets it as it is.
pub open spec fn paste_bytes(t: Seq<char>, bracketed: bool) -> Seq<u8> {
    if bracketed {
        seq![0x1bu8, 0x5bu8, 0x32u8, 0x30u8, 0x30u8, 0x7eu8] + vstd::utf8::encode_utf8(t)
            + seq![0x1bu8, 0x5bu8, 0x32u8, 0x30u8, 0x31u8, 0x7eu8]
    } else {
        vstd::utf8::encode_utf8(t)
    }
}

/// A pane's cursor on the screen; none if it lies outside the area.
pub open spec fn placed(c: CursorState, area: Rect) -> Option<TerminalCursorState> {
    if render::cursor_inside(c, area) {
        Some(
            TerminalCursorState {
                x: (area.x + c.x) as u16,
                y: (area.y + c.y) as u16,
                visible: c.visible,
                shape: c.shape,
            },
        )
    } else {
        None
    }
}

/// Where a placed cursor lies, the screen has room.
pub open spec fn has_room(c: Option<CursorState>, area: Rect) -> bool {
    c matches Some(c) ==> render::cursor_inside(c, area) ==> area.x + c.x <= u16::MAX && area.y
        + c.y <= u16::MAX
}

/// A reply's text, or what the local terminal has.
pub open spec fn reply_or(reply: Option<String>, local: Seq<char>) -> Seq<char> {
    match reply {
        Some(t) => t@,
        None => local,
    }
}

fn place_cursor(x: u16, y: u16, visible: bool, shape: u8, area: Rect) -> (r: Option<
    TerminalCursorState,
>)
    requires
        has_room(Some(CursorState { x, y, visible, shape }), area),
    ensures
        r == placed(CursorState { x, y, visible, shape }, area),
{
    if x >= area.width || y >= area.height {
        return None;
    }
    Some(TerminalCursorState { x: area.x + x, y: area.y + y, visible, shape })
}

impl PaneRuntime {
    /// Ends the pane: closes it on the daemon and starts on its processes.
    pub fn shutdown(self, client: &mut TermhostClient, session: &Vec<u32>) -> (r: Teardown)
        requires
            self@.wf(old(client)@),
        ensures
            is_teardown(r, self@, session@),
            final(client)@ == released(old(client)@, self@),
            final(client)@.wf(),
    {
        let close = self.io.shutdown(client);
        let (pids, action) = shutdown::shutdown_pane_processes(self.child_pid, session);
        Teardown { close, pids, action }
    }

    /// What dropping the runtime does: it ends the pane, unless the pane is
    /// preserved for the session's continuing owner.
    pub fn on_drop(&self, client: &mut TermhostClient, session: &Vec<u32>) -> (r: Option<Teardown>)
        requires
            self@.wf(old(client)@),
        ensures
            match r {
                Some(t) => !self@.preserve && is_teardown(t, self@, session@) && final(client)@
                    == released(old(client)@, self@),
                None => self@.preserve && final(client)@ == old(client)@,
            },
            final(client)@.wf(),
    {
        if self.preserve_processes_on_drop {
            return None;
        }
        let close = self.io.shutdown(client);
        let (pids, action) = shutdown::shutdown_pane_processes(self.child_pid, session);
        Some(Teardown { close, pids, action })
    }

    /// Whether the daemon has the pane.
    pub fn is_termhost(&self) -> (r: bool)
        ensures
            r == (self@.io is Termhost),
    {
        self.io.is_termhost()
    }

    /// Whether the pane's shell outlived an earlier process and was taken over.
    pub fn adopted_live_shell(&self) -> (r: bool)
        ensures
            r == self@.adopted,
    {
        self.adopted_live_shell
    }

    /// There is never a descriptor to duplicate.
    pub fn duplicate_handoff_fd(&self) -> (r: Result<i32, NoMasterFd>)
        ensures
            r == Err::<i32, NoMasterFd>(
                match self@.io {
                    PaneRuntimeIo::Termhost(_) => NoMasterFd::Termhost,
                    PaneRuntimeIo::TestChannel => NoMasterFd::TestRuntime,
                },
            ),
    {
        self.io.duplicate_handoff_fd()
    }

    /// Leaves the pane to a replacement process: dropping the runtime will not
    /// end it.
    pub fn preserve_for_handoff(&mut self)
        ensures
            final(self)@ == (RuntimeView { preserve: true, ..old(self)@ }),
    {
        self.preserve_processes_on_drop = true;
    }

    /// Takes the pane's ownership: dropping the runtime will end it.
    pub fn assume_handoff_ownership(&mut self)
        ensures
            final(self)@ == (RuntimeView { preserve: false, ..old(self)@ }),
    {
        self.preserve_processes_on_drop = false;
    }

    /// There is no reader to pause: the daemon reads the terminal.
    pub fn set_handoff_reader_paused(&mut self, paused: bool)
        ensures
            final(self)@ == old(self)@,
    {
    }

    /// There is no reader to pause, so pausing it always works.
    pub fn pause_handoff_reader(&mut self, timeout_ms: u64) -> (r: Result<(), NoMasterFd>)
        ensures
            r is Ok,
            final(self)@ == old(self)@,
    {
        Ok(())
    }

    /// The daemon repaints after a handoff; nothing is to be done here.
    pub fn nudge_child_redraw_after_handoff(&mut self)
        ensures
            final(self)@ == old(self)@,
    {
    }

    /// Themes are the daemon's; nothing is to be done here.
    pub fn apply_host_terminal_theme<T>(&mut self, theme: T)
        ensures
            final(self)@ == old(self)@,
    {
        self.terminal.apply_host_terminal_theme(theme);
    }

    /// Agent detection is the daemon's; nothing is to be done here.
    pub fn begin_graceful_release<A>(&mut self, agent: A)
        ensures
            final(self)@ == old(self)@,
    {
    }

    /// Agent detection is the daemon's; nothing is to be done here.
    pub fn reset_agent_detection(&mut self)
        ensures
            final(self)@ == old(self)@,
    {
    }

    /// Agent detection is the daemon's; nothing is to be done here.
    pub fn set_full_lifecycle_authority_active(&mut self, active: bool)
        ensures
            final(self)@ == old(self)@,
    {
    }

    /// What a replacement process needs to know of the pane.
    pub fn handoff_runtime_state(&self, pane_id: u32) -> (r: HandoffRuntimeState)
        ensures
            r.pane_id == pane_id,
            r.child_pid == self@.child_pid,
            (r.rows, r.cols, r.cell_width_px, r.cell_height_px) == self@.size,
            r.keyboard_protocol_flags == self@.terminal.mirror().kitty.flags,
            match r.keyboard_protocol_ansi {
                Some(ansi) => self@.terminal.mirror().kitty != kitty_keyboard::kitty_fresh()
                    && ansi@ == kitty_keyboard::replay(self@.terminal.mirror().kitty),
                None => self@.terminal.mirror().kitty == kitty_keyboard::kitty_fresh(),
            },
            r.input_state == Some(self@.terminal.mirror().input_state()),
            r.initial_history_ansi is None,
    {
        let (rows, cols, cell_width_px, cell_height_px) = self.current_size;
        HandoffRuntimeState {
            pane_id,
            child_pid: self.child_pid,
            rows,
            cols,
            cell_width_px,
            cell_height_px,
            keyboard_protocol_flags: match self.keyboard_protocol() {
                KeyboardProtocol::Legacy => 0,
                KeyboardProtocol::Kitty { flags } => flags,
            },
            keyboard_protocol_ansi: self.terminal.kitty_keyboard_state_ansi(),
            input_state: self.input_state(),
            initial_history_ansi: None,
        }
    }

    /// The history to hand over: none of a full-screen program's, and no more
    /// than `max_bytes` of any other's. `reply` is what the daemon answered to
    /// [`Self::history_query`].
    pub fn handoff_history_ansi(&self, reply: Option<String>, max_bytes: usize) -> (r: Option<
        String,
    >)
        ensures
            ({
                let all = reply_or(reply, self@.terminal.recent(usize::MAX as nat, true));
                match r {
                    Some(t) => !self@.terminal.mirror().alternate_screen && text::trimmed(all).len()
                        > 0 && vstd::utf8::encode_utf8(t@) == handoff::truncated(
                        vstd::utf8::encode_utf8(all),
                        max_bytes as nat,
                    ),
                    None => self@.terminal.mirror().alternate_screen || text::trimmed(all).len()
                        == 0,
                }
            }),
    {
        if let Some(state) = self.terminal.input_state() {
            if state.alternate_screen {
                return None;
            }
        }
        match self.snapshot_history(reply) {
            Some(history) => Some(handoff::truncate_handoff_history(history, max_bytes)),
            None => None,
        }
    }

    /// Rows and columns.
    pub fn current_size(&self) -> (r: (u16, u16))
        ensures
            r == (self@.size.0, self@.size.1),
    {
        (self.current_size.0, self.current_size.1)
    }

    /// Takes a new size, at least two rows and four columns; `None` if that is
    /// the size the pane has.
    pub fn resize(&mut self, rows: u16, cols: u16, cell_width_px: u32, cell_height_px: u32) -> (r:
        Option<PaneResize>)
        ensures
            ({
                let size = pane_size(rows, cols, cell_width_px, cell_height_px);
                if old(self)@.size == size {
                    r is None && final(self)@ == old(self)@
                } else {
                    r == Some(runtime::resize_of(old(self)@.io, size.0, size.1, size.2, size.3))
                        && final(self)@ == (RuntimeView {
                        size,
                        terminal: old(self)@.terminal.resized(size.0, size.1),
                        ..old(self)@
                    })
                }
            }),
            old(self)@.terminal.wf() ==> final(self)@.terminal.wf(),
    {
        let rows: u16 = if rows < 2 {
            2
        } else {
            rows
        };
        let cols: u16 = if cols < 4 {
            4
        } else {
            cols
        };
        let (r, c, w, h) = self.current_size;
        if r == rows && c == cols && w == cell_width_px && h == cell_height_px {
            return None;
        }
        self.current_size = (rows, cols, cell_width_px, cell_height_px);
        self.terminal.resize(rows, cols);
        Some(self.io.resize(rows, cols, cell_width_px, cell_height_px))
    }

    /// Scrolls into the history.
    pub fn scroll_up(&mut self, lines: usize) -> (r: Option<Command>)
        ensures
            r == scroll_command(old(self)@, (-distance(lines)) as i32),
            final(self)@ == (RuntimeView {
                terminal: match (old(self)@.pane(), old(self)@.terminal.screen()) {
                    (None, Some(s)) => old(self)@.terminal.scrolled(
                        grid::min(s.offset + lines, s.max_offset() as int) as usize,
                    ),
                    _ => old(self)@.terminal,
                },
                ..old(self)@
            }),
    {
        if let Some(pane) = self.io.termhost_pane() {
            return Some(pane.scroll(-clamp_lines(lines)));
        }
        self.terminal.scroll_up(lines);
        None
    }

    /// Scrolls toward the live bottom.
    pub fn scroll_down(&mut self, lines: usize) -> (r: Option<Command>)
        ensures
            r == scroll_command(old(self)@, distance(lines)),
            final(self)@ == (RuntimeView {
                terminal: match (old(self)@.pane(), old(self)@.terminal.screen()) {
                    (None, Some(s)) => old(self)@.terminal.scrolled(
                        if lines <= s.offset {
                            (s.offset - lines) as usize
                        } else {
                            0
                        },
                    ),
                    _ => old(self)@.terminal,
                },
                ..old(self)@
            }),
    {
        if let Some(pane) = self.io.termhost_pane() {
            return Some(pane.scroll(clamp_lines(lines)));
        }
        self.terminal.scroll_down(lines);
        None
    }

    /// Goes back to the live bottom: for the daemon, further down than any
    /// history reaches.
    pub fn scroll_reset(&mut self) -> (r: Option<Command>)
        ensures
            r == scroll_command(old(self)@, i32::MAX),
            final(self)@ == (RuntimeView {
                terminal: match (old(self)@.pane(), old(self)@.terminal) {
                    (None, TerminalView::Fake(f)) => TerminalView::Fake(
                        FakeView { screen: ScreenView { offset: 0, ..f.screen }, ..f },
                    ),
                    _ => old(self)@.terminal,
                },
                ..old(self)@
            }),
    {
        if let Some(pane) = self.io.termhost_pane() {
            return Some(pane.scroll(i32::MAX));
        }
        self.terminal.scroll_reset();
        None
    }

    /// Puts the viewport a number of lines above the live bottom: for the daemon,
    /// by the distance from the position it last reported.
    pub fn set_scroll_offset_from_bottom(&mut self, client: &TermhostClient, lines: usize) -> (r:
        Option<Command>)
        requires
            old(self)@.wf(client@),
        ensures
            match old(self)@.pane() {
                Some(pane) => r == scroll_command(
                    old(self)@,
                    clamped(reported_offset(pane.state(client@)) - lines),
                ),
                None => r is None,
            },
            final(self)@ == (RuntimeView {
                terminal: match (old(self)@.pane(), old(self)@.terminal.screen()) {
                    (None, Some(s)) => old(self)@.terminal.scrolled(
                        grid::min(lines as int, s.max_offset() as int) as usize,
                    ),
                    _ => old(self)@.terminal,
                },
                ..old(self)@
            }),
    {
        if let Some(pane) = self.io.termhost_pane() {
            let current: usize = match pane.scroll_metrics(client) {
                Some(m) => m.offset_from_bottom,
                None => 0,
            };
            let delta: i128 = current as i128 - lines as i128;
            let delta: i32 = if delta < i32::MIN as i128 {
                i32::MIN
            } else if delta > i32::MAX as i128 {
                i32::MAX
            } else {
                delta as i32
            };
            return Some(pane.scroll(delta));
        }
        self.terminal.set_scroll_offset_from_bottom(lines);
        None
    }

    /// Where the viewport stands.
    pub fn scroll_metrics(&self, client: &TermhostClient) -> (r: Option<ScrollMetrics>)
        requires
            self@.wf(client@),
        ensures
            r == (match self@.pane() {
                Some(pane) => match pane.state(client@).grid.scroll {
                    Some(m) => Some(
                        ScrollMetrics {
                            offset_from_bottom: m.offset_from_bottom,
                            max_offset_from_bottom: m.max_offset_from_bottom,
                            viewport_rows: m.viewport_rows,
                        },
                    ),
                    None => None,
                },
                None => match self@.terminal.screen() {
                    Some(s) => Some(fake_content::metrics(s)),
                    None => None,
                },
            }),
    {
        if let Some(pane) = self.io.termhost_pane() {
            return match pane.scroll_metrics(client) {
                Some(m) => Some(
                    ScrollMetrics {
                        offset_from_bottom: m.offset_from_bottom,
                        max_offset_from_bottom: m.max_offset_from_bottom,
                        viewport_rows: m.viewport_rows,
                    },
                ),
                None => None,
            };
        }
        self.terminal.scroll_metrics()
    }

    /// The modes the layers above read.
    pub fn input_state(&self) -> (r: Option<InputState>)
        ensures
            r == Some(self@.terminal.mirror().input_state()),
    {
        self.terminal.input_state()
    }

    /// The cursor on the screen, if it is to be shown and lies in the area.
    pub fn cursor_state(&self, client: &TermhostClient, area: Rect, show_cursor: bool) -> (r: Option<
        TerminalCursorState,
    >)
        requires
            self@.wf(client@),
            show_cursor ==> has_room(self@.cursor(client@), area),
        ensures
            r == (match self@.cursor(client@) {
                Some(c) => if show_cursor {
                    placed(c, area)
                } else {
                    None
                },
                None => None,
            }),
    {
        if !show_cursor {
            return None;
        }
        if let Some(pane) = self.io.termhost_pane() {
            return match pane.cursor(client) {
                Some(c) => place_cursor(c.x, c.y, c.visible, c.shape, area),
                None => None,
            };
        }
        match self.terminal.cursor_state() {
            Some(c) => place_cursor(c.x, c.y, c.visible, c.shape, area),
            None => None,
        }
    }

    /// Whether the program holds its output back.
    pub fn synchronized_output_active(&self) -> (r: bool)
        ensures
            r == self@.terminal.synchronized_output(),
    {
        self.terminal.synchronized_output_active()
    }

    /// Asks the daemon for text: registers the waiter and gives the command to
    /// send. `None` where the daemon has no pane, and the local text counts.
    pub fn termhost_text(&self, client: &mut TermhostClient, query: TextQuery) -> (r: Option<
        Command,
    >)
        requires
            self@.wf(old(client)@),
        ensures
            match self@.pane() {
                Some(pane) => r == Some(
                    Command::RequestText {
                        pane_id: pane.id,
                        scope: query.scope,
                        lines: request_lines(query.lines),
                        ansi: query.ansi,
                        unwrap: query.unwrap,
                    },
                ) && final(client)@ == old(client)@.with_state(
                    pane.slot as int,
                    (PaneStateView { pending_text: true, ..pane.state(old(client)@) }),
                ),
                None => r is None && final(client)@ == old(client)@,
            },
            final(client)@.wf(),
    {
        match self.io.termhost_pane() {
            Some(pane) => {
                let lines: u32 = if query.lines <= 0xffff_ffff {
                    query.lines as u32
                } else {
                    u32::MAX
                };
                Some(pane.begin_text(client, query.scope, lines, query.ansi, query.unwrap))
            },
            None => None,
        }
    }

    /// The query behind [`Self::visible_text`] and [`Self::detection_text`].
    pub fn visible_query(ansi: bool) -> (r: TextQuery)
        ensures
            r == (TextQuery { scope: TEXT_SCOPE_VISIBLE, lines: 0, ansi, unwrap: false }),
    {
        TextQuery { scope: TEXT_SCOPE_VISIBLE, lines: 0, ansi, unwrap: false }
    }

    /// The query behind the recent texts.
    pub fn recent_query(lines: usize, ansi: bool, unwrap: bool) -> (r: TextQuery)
        ensures
            r == (TextQuery { scope: TEXT_SCOPE_RECENT, lines, ansi, unwrap }),
    {
        TextQuery { scope: TEXT_SCOPE_RECENT, lines, ansi, unwrap }
    }

    /// The query behind [`Self::snapshot_history`]: the whole buffer, styled,
    /// wrapped lines rejoined.
    pub fn history_query() -> (r: TextQuery)
        ensures
            r == (TextQuery {
                scope: TEXT_SCOPE_RECENT,
                lines: usize::MAX,
                ansi: true,
                unwrap: true,
            }),
    {
        TextQuery { scope: TEXT_SCOPE_RECENT, lines: usize::MAX, ansi: true, unwrap: true }
    }

    /// The text on display: the daemon's reply, or the local text without one.
    pub fn visible_text(&self, reply: Option<String>) -> (r: String)
        ensures
            r@ == reply_or(reply, self@.terminal.visible()),
    {
        match reply {
            Some(t) => t,
            None => self.terminal.visible_text(),
        }
    }

    /// The styled text on display.
    pub fn visible_ansi(&self, reply: Option<String>) -> (r: String)
        ensures
            r@ == reply_or(reply, self@.terminal.visible()),
    {
        match reply {
            Some(t) => t,
            None => self.terminal.visible_ansi(),
        }
    }

    /// The text agent detection reads: the text on display.
    pub fn detection_text(&self, reply: Option<String>) -> (r: String)
        ensures
            r@ == reply_or(reply, self@.terminal.visible()),
    {
        match reply {
            Some(t) => t,
            None => self.terminal.detection_text(),
        }
    }

    /// Title evidence for agent detection is the daemon's.
    pub fn agent_osc_title(&self) -> (r: String)
        ensures
            r@.len() == 0,
    {
        self.terminal.agent_osc_title()
    }

    /// Progress evidence for agent detection is the daemon's.
    pub fn agent_osc_progress(&self) -> (r: String)
        ensures
            r@.len() == 0,
    {
        self.terminal.agent_osc_progress()
    }

    /// The last lines.
    pub fn recent_text(&self, lines: usize, reply: Option<String>) -> (r: String)
        ensures
            r@ == reply_or(reply, self@.terminal.recent(lines as nat, false)),
    {
        match reply {
            Some(t) => t,
            None => self.terminal.recent_text(lines),
        }
    }

    /// The last lines, styled.
    pub fn recent_ansi(&self, lines: usize, reply: Option<String>) -> (r: String)
        ensures
            r@ == reply_or(reply, self@.terminal.recent(lines as nat, false)),
    {
        match reply {
            Some(t) => t,
            None => self.terminal.recent_ansi(lines),
        }
    }

    /// The last lines, wrapped ones rejoined.
    pub fn recent_unwrapped_text(&self, lines: usize, reply: Option<String>) -> (r: String)
        ensures
            r@ == reply_or(reply, self@.terminal.recent(lines as nat, true)),
    {
        match reply {
            Some(t) => t,
            None => self.terminal.recent_unwrapped_text(lines),
        }
    }

    /// The last lines, styled, wrapped ones rejoined.
    pub fn recent_unwrapped_ansi(&self, lines: usize, reply: Option<String>) -> (r: String)
        ensures
            r@ == reply_or(reply, self@.terminal.recent(lines as nat, true)),
    {
        match reply {
            Some(t) => t,
            None => self.terminal.recent_unwrapped_ansi(lines),
        }
    }

    /// The whole history, unless it is all white space. `reply` is what the
    /// daemon answered to [`Self::history_query`].
    pub fn snapshot_history(&self, reply: Option<String>) -> (r: Option<String>)
        ensures
            ({
                let all = reply_or(reply, self@.terminal.recent(usize::MAX as nat, true));
                match r {
                    Some(t) => t@ == all && text::trimmed(all).len() > 0,
                    None => text::trimmed(all).len() == 0,
                }
            }),
    {
        let ansi = self.recent_unwrapped_ansi(usize::MAX, reply);
        if text::trim(ansi.as_str()).as_str().is_empty() {
            None
        } else {
            Some(ansi)
        }
    }

    /// Asks the daemon for the text between two ordered cells: registers the
    /// waiter and gives the command to send. `None` where the daemon has no pane.
    pub fn termhost_selection(
        &self,
        client: &mut TermhostClient,
        cells: ((u32, u16), (u32, u16)),
    ) -> (r: Option<Command>)
        requires
            self@.wf(old(client)@),
        ensures
            match self@.pane() {
                Some(pane) => r == Some(
                    Command::RequestSelection {
                        pane_id: pane.id,
                        anchor: SelectionPoint { row: cells.0.0, col: cells.0.1 },
                        cursor: SelectionPoint { row: cells.1.0, col: cells.1.1 },
                        rectangle: false,
                    },
                ) && final(client)@ == old(client)@.with_state(
                    pane.slot as int,
                    (PaneStateView { pending_selection: true, ..pane.state(old(client)@) }),
                ),
                None => r is None && final(client)@ == old(client)@,
            },
            final(client)@.wf(),
    {
        match self.io.termhost_pane() {
            Some(pane) => Some(
                pane.begin_selection(client, cells.0.0, cells.0.1, cells.1.0, cells.1.1, false),
            ),
            None => None,
        }
    }

    /// The text between two ordered cells: the daemon's reply where it has the
    /// pane, even if there was none, and the local text elsewhere.
    pub fn extract_selection(
        &self,
        cells: ((u32, u16), (u32, u16)),
        reply: Option<String>,
    ) -> (r: Option<String>)
        ensures
            match self@.pane() {
                Some(_) => r == reply,
                None => match r {
                    Some(t) => self@.terminal.selection(cells) == Some(t@),
                    None => self@.terminal.selection(cells) is None,
                },
            },
    {
        if self.io.is_termhost() {
            return reply;
        }
        self.terminal.extract_selection(cells)
    }

    /// What to draw of the pane; `None` if it has nothing to show yet.
    pub fn render(&self, client: &TermhostClient, area: Rect, show_cursor: bool) -> (r: Option<
        RenderPlan,
    >)
        requires
            self@.wf(client@),
            render::on_screen(render::shown_cursor(area, show_cursor, self@.cursor(client@))),
        ensures
            match self@.pane() {
                Some(pane) => match r {
                    Some(plan) => pane.state(client@).grid.has_frame && render::is_render(
                        plan,
                        area,
                        show_cursor,
                        pane.state(client@).grid.frame(),
                        pane.state(client@).grid.cursor,
                    ),
                    None => !pane.state(client@).grid.has_frame,
                },
                None => match (r, self@.terminal.screen()) {
                    (Some(plan), Some(s)) => render::is_render(
                        plan,
                        area,
                        show_cursor,
                        fake_content::frame(s),
                        Some(fake_content::cursor(s)),
                    ),
                    (None, None) => true,
                    _ => false,
                },
            },
    {
        if let Some(pane) = self.io.termhost_pane() {
            return match pane.snapshot(client) {
                Some(snapshot) => Some(
                    render::render_wire_frame(area, show_cursor, &snapshot, pane.cursor(client)),
                ),
                None => None,
            };
        }
        self.terminal.render(area, show_cursor)
    }

    /// What changed in the pane since the last call.
    pub fn collect_dirty_patch(
        &mut self,
        client: &mut TermhostClient,
        area_width: u16,
        area_height: u16,
    ) -> (r: TerminalDirtyPatchOutcome)
        requires
            old(self)@.wf(old(client)@),
        ensures
            match old(self)@.pane() {
                Some(pane) => {
                    let state = pane.state(old(client)@);
                    &&& if state.grid.dirty && state.grid.has_frame {
                        r matches TerminalDirtyPatchOutcome::Patch(p) && terminal::rows_view(p.rows@)
                            == render::patch_rows(state.grid.frame(), area_width, area_height)
                    } else {
                        r == TerminalDirtyPatchOutcome::Clean
                    }
                    &&& final(client)@ == old(client)@.with_state(
                        pane.slot as int,
                        PaneStateView { grid: GridView { dirty: false, ..state.grid }, ..state },
                    )
                    &&& final(self)@ == old(self)@
                },
                None => {
                    &&& match old(self)@.terminal {
                        TerminalView::Fake(f) => if f.screen.dirty {
                            r matches TerminalDirtyPatchOutcome::Patch(p) && terminal::rows_view(
                                p.rows@,
                            ) == render::patch_rows(
                                fake_content::frame(f.screen),
                                area_width,
                                area_height,
                            )
                        } else {
                            r == TerminalDirtyPatchOutcome::Clean
                        },
                        TerminalView::Mirror(_) => r == TerminalDirtyPatchOutcome::Fallback,
                    }
                    &&& final(client)@ == old(client)@
                    &&& final(self)@ == (RuntimeView {
                        terminal: match old(self)@.terminal {
                            TerminalView::Fake(f) => TerminalView::Fake(
                                FakeView {
                                    screen: ScreenView { dirty: false, ..f.screen },
                                    ..f
                                },
                            ),
                            TerminalView::Mirror(m) => old(self)@.terminal,
                        },
                        ..old(self)@
                    })
                },
            },
            final(self)@.wf(final(client)@),
    {
        if let Some(pane) = self.io.termhost_pane() {
            let ghost state = pane.state(client@);
            let dirty = pane.take_dirty(client);
            let snapshot = pane.snapshot(client);
            let ghost cleared = pane.state(client@).grid;
            assert(cleared.frame() == state.grid.frame());
            let take = || -> (taken: Option<FrameData>)
                ensures
                    taken == snapshot,
            { snapshot };
            return render::wire_dirty_patch(dirty, take, area_width, area_height);
        }
        self.terminal.collect_dirty_patch(area_width, area_height)
    }

    /// The linked cells within an area, on the screen.
    pub fn visible_hyperlinks(&self, client: &TermhostClient, area: Rect) -> (r: Vec<
        ((u16, u16), String, String),
    >)
        requires
            self@.wf(client@),
            match self@.pane() {
                Some(pane) => forall|x: int, y: int|
                    0 <= x < area.width && x < pane.state(client@).grid.cols && 0 <= y < area.height
                        && y < pane.state(client@).grid.rows && #[trigger] pane.state(
                        client@,
                    ).grid.link_at(x, y) is Some ==> area.x + x <= u16::MAX && area.y + y
                        <= u16::MAX,
                None => self@.terminal.screen() matches Some(s) ==> fake_content::links_fit(
                    s.viewport(),
                    area.x as int,
                    area.y as int,
                    area.width as int,
                    area.height as int,
                ),
            },
        ensures
            grid::links_view(r@) == (match (self@.pane(), self@.terminal.screen()) {
                (Some(pane), _) => pane.state(client@).grid.links(
                    area.x as int,
                    area.y as int,
                    grid::min(area.width as int, pane.state(client@).grid.cols as int),
                    grid::min(area.height as int, pane.state(client@).grid.rows as int),
                ),
                (None, Some(s)) => fake_content::links(
                    s.viewport(),
                    area.x as int,
                    area.y as int,
                    area.width as int,
                    grid::min(area.height as int, s.rows as int),
                ),
                _ => grid::no_links(),
            }),
    {
        if let Some(pane) = self.io.termhost_pane() {
            return pane.visible_hyperlinks(client, area.x, area.y, area.width, area.height);
        }
        self.terminal.visible_hyperlinks(area)
    }

    /// Image placements travel with the daemon's frames; none are kept here.
    pub fn kitty_image_placements_with_data_filter<F>(&self, needs_data: F) -> (r: Vec<
        KittyImagePlacement,
    >) where F: FnMut(KittyImageDescriptor) -> bool
        ensures
            r@.len() == 0,
    {
        self.terminal.kitty_image_placements_with_data_filter(needs_data)
    }

    /// The keyboard protocol in force.
    pub fn keyboard_protocol(&self) -> (r: KeyboardProtocol)
        ensures
            r == self@.terminal.mirror().protocol(),
    {
        let fallback = KeyboardProtocol::from_kitty_flags(self.kitty_keyboard_flags);
        self.terminal.keyboard_protocol(fallback)
    }

    /// Encodes a key for the pane's program.
    pub fn encode_terminal_key(
        &self,
        key: TerminalKey,
        encode: impl Fn(TerminalKey, KeyboardProtocol, bool) -> Vec<u8>,
    ) -> (r: Vec<u8>)
        requires
            forall|p: KeyboardProtocol, c: bool| #[trigger] call_requires(encode, (key, p, c)),
        ensures
            ({
                let m = self@.terminal.mirror();
                if input_mirror::reports_modified_enter(m, key, m.protocol()) {
                    r@ == input_mirror::modified_enter(key.modifiers)
                } else {
                    call_ensures(encode, (key, m.protocol(), m.application_cursor), r)
                }
            }),
    {
        self.terminal.encode_terminal_key(key, self.keyboard_protocol(), encode)
    }

    /// Passes bytes to the pane's program.
    pub fn send_bytes(&self, bytes: Vec<u8>) -> (r: PaneWrite)
        ensures
            runtime::is_write_of(r, self@.io, bytes@),
    {
        self.io.send_bytes(bytes)
    }

    /// Passes bytes to the pane's program without waiting for room.
    pub fn try_send_bytes(&self, bytes: Vec<u8>) -> (r: PaneWrite)
        ensures
            runtime::is_write_of(r, self@.io, bytes@),
    {
        self.io.send_bytes(bytes)
    }

    /// Pastes text into the pane's program.
    pub fn send_paste(&self, pasted: String) -> (r: PaneWrite)
        ensures
            runtime::is_write_of(
                r,
                self@.io,
                paste_bytes(pasted@, self@.terminal.mirror().bracketed_paste),
            ),
    {
        let bracketed = match self.input_state() {
            Some(state) => state.bracketed_paste,
            None => false,
        };
        let mut body = vstd::slice::slice_to_vec(pasted.as_str().as_bytes());
        if !bracketed {
            return self.send_bytes(body);
        }
        let mut payload: Vec<u8> = vec![0x1b, 0x5b, 0x32, 0x30, 0x30, 0x7e];
        let mut end: Vec<u8> = vec![0x1b, 0x5b, 0x32, 0x30, 0x31, 0x7e];
        payload.append(&mut body);
        payload.append(&mut end);
        assert(payload@ =~= paste_bytes(pasted@, true));
        self.send_bytes(payload)
    }

    /// Reports a focus change to the pane's program; `None` if it did not ask for
    /// such reports.
    pub fn try_send_focus_event(&self, event: FocusEvent) -> (r: Option<PaneWrite>)
        ensures
            match r {
                Some(w) => self@.terminal.mirror().focus_reporting && runtime::is_write_of(
                    w,
                    self@.io,
                    types::focus_bytes(event),
                ),
                None => !self@.terminal.mirror().focus_reporting,
            },
    {
        let reporting = match self.input_state() {
            Some(state) => state.focus_reporting,
            None => false,
        };
        if !reporting {
            return None;
        }
        Some(self.try_send_bytes(types::encode_focus(event)))
    }

    /// Where wheel events go.
    pub fn wheel_routing(&self) -> (r: Option<WheelRouting>)
        ensures
            r == Some(self@.terminal.mirror().wheel()),
    {
        self.terminal.wheel_routing()
    }

    /// Encodes a button event, if the program tracks such events.
    pub fn encode_mouse_button(
        &self,
        kind: MouseEventKind,
        column: u16,
        row: u16,
        modifiers: KeyModifiers,
        encode: impl Fn(
            MouseEventKind,
            u16,
            u16,
            KeyModifiers,
            MouseProtocolEncoding,
        ) -> Option<Vec<u8>>,
    ) -> (r: Option<Vec<u8>>)
        requires
            forall|m: KeyModifiers, e: MouseProtocolEncoding| #[trigger]
                call_requires(encode, (kind, column, row, m, e)),
        ensures
            ({
                let m = self@.terminal.mirror();
                if input_mirror::mode_of(m.mouse_mode) != MouseProtocolMode::Off
                    && input_mirror::button_reported(m.mouse_mode, kind) {
                    call_ensures(
                        encode,
                        (
                            kind,
                            column,
                            row,
                            input_mirror::button_modifiers(m.mouse_mode, modifiers),
                            input_mirror::encoding_of(m.mouse_encoding),
                        ),
                        r,
                    )
                } else {
                    r is None
                }
            }),
    {
        match self.input_state() {
            Some(state) => if !state.mouse_protocol_mode.reporting_enabled() {
                return None;
            },
            None => {
                return None;
            },
        }
        self.terminal.encode_mouse_button(kind, column, row, modifiers, encode)
    }

    /// Encodes a pointer motion, if the program tracks all motion.
    pub fn encode_mouse_motion(
        &self,
        kind: MouseEventKind,
        column: u16,
        row: u16,
        modifiers: KeyModifiers,
        encode: impl Fn(u16, u16, KeyModifiers, MouseProtocolEncoding) -> Option<Vec<u8>>,
    ) -> (r: Option<Vec<u8>>)
        requires
            forall|e: MouseProtocolEncoding| #[trigger]
                call_requires(encode, (column, row, modifiers, e)),
        ensures
            ({
                let m = self@.terminal.mirror();
                if m.mouse_mode == input_mirror::MOUSE_MODE_ANY_MOTION && kind
                    == MouseEventKind::Moved {
                    call_ensures(
                        encode,
                        (column, row, modifiers, input_mirror::encoding_of(m.mouse_encoding)),
                        r,
                    )
                } else {
                    r is None
                }
            }),
    {
        self.terminal.encode_mouse_motion(kind, column, row, modifiers, encode)
    }

    /// Encodes a wheel event, if wheel events go to the program as such.
    pub fn encode_mouse_wheel(
        &self,
        kind: MouseEventKind,
        column: u16,
        row: u16,
        modifiers: KeyModifiers,
        encode: impl Fn(
            MouseEventKind,
            u16,
            u16,
            KeyModifiers,
            MouseProtocolEncoding,
        ) -> Option<Vec<u8>>,
    ) -> (r: Option<Vec<u8>>)
        requires
            forall|e: MouseProtocolEncoding| #[trigger]
                call_requires(encode, (kind, column, row, modifiers, e)),
        ensures
            ({
                let m = self@.terminal.mirror();
                if m.mouse_mode >= input_mirror::MOUSE_MODE_PRESS_RELEASE {
                    call_ensures(
                        encode,
                        (kind, column, row, modifiers, input_mirror::encoding_of(m.mouse_encoding)),
                        r,
                    )
                } else {
                    r is None
                }
            }),
    {
        match self.wheel_routing() {
            Some(WheelRouting::MouseReport) => self.terminal.encode_mouse_wheel(
                kind,
                column,
                row,
                modifiers,
                encode,
            ),
            _ => None,
        }
    }

    /// Turns a wheel event into a cursor key, if wheel events go to the program
    /// that way.
    pub fn encode_alternate_scroll(
        &self,
        kind: MouseEventKind,
        encode: impl Fn(TerminalKey, KeyboardProtocol, bool) -> Vec<u8>,
    ) -> (r: Option<Vec<u8>>)
        requires
            forall|k: TerminalKey, p: KeyboardProtocol, c: bool| #[trigger]
                call_requires(encode, (k, p, c)),
        ensures
            ({
                let m = self@.terminal.mirror();
                match (wheel_key(kind), r) {
                    (Some(code), Some(bytes)) => m.wheel() == WheelRouting::AlternateScroll
                        && call_ensures(
                        encode,
                        (
                            TerminalKey { code, modifiers: KeyModifiers::none_held() },
                            m.protocol(),
                            m.application_cursor,
                        ),
                        bytes,
                    ),
                    (Some(_), None) => m.wheel() != WheelRouting::AlternateScroll,
                    (None, None) => true,
                    (None, Some(_)) => false,
                }
            }),
    {
        match self.wheel_routing() {
            Some(WheelRouting::AlternateScroll) => {},
            _ => {
                return None;
            },
        }
        let code = match kind {
            MouseEventKind::ScrollUp => KeyCode::Up,
            MouseEventKind::ScrollDown => KeyCode::Down,
            _ => {
                return None;
            },
        };
        Some(self.encode_terminal_key(TerminalKey::new(code, KeyModifiers::empty()), encode))
    }

    /// The pane's working directory: the reported one while it can be used, else
    /// the child's. `reported_is_dir` says whether the reported one is there.
    pub fn cwd(&self, reported_is_dir: bool, process_cwd: Option<Vec<u8>>) -> (r: Option<Vec<u8>>)
        ensures
            cwd::path_view(r) == cwd::first_of(
                cwd::usable(self@.reported_cwd, reported_is_dir),
                cwd::path_view(process_cwd),
            ),
    {
        if let Some(reported) = &self.reported_cwd {
            let copy = vstd::slice::slice_to_vec(reported.as_slice());
            let usable = cwd::usable_reported_cwd(copy, reported_is_dir);
            if usable.is_some() {
                return usable;
            }
        }
        process_cwd
    }

    /// The working directory of whatever has the pane's foreground.
    pub fn foreground_cwd(
        &self,
        shell_cwd: Option<Vec<u8>>,
        leader_cwd: Option<Vec<u8>>,
        members: &Vec<JobMember>,
    ) -> (r: Option<Vec<u8>>)
        ensures
            cwd::path_view(r) == cwd::foreground(
                self@.child_pid,
                cwd::path_view(shell_cwd),
                cwd::path_view(leader_cwd),
                members@,
            ),
    {
        cwd::foreground_cwd(self.child_pid, shell_cwd, leader_cwd, members)
    }
}

/// The cursor key a wheel event stands for.
pub open spec fn wheel_key(kind: MouseEventKind) -> Option<KeyCode> {
    match kind {
        MouseEventKind::ScrollUp => Some(KeyCode::Up),
        MouseEventKind::ScrollDown => Some(KeyCode::Down),
        _ => None,
    }
}

/// The offset a pane last reported.
pub open spec fn reported_offset(p: PaneStateView) -> int {
    match p.grid.scroll {
        Some(m) => m.offset_from_bottom as int,
        None => 0,
    }
}

/// A size a pane can have: at least two rows and four columns.
pub open spec fn pane_size(rows: u16, cols: u16, cell_width_px: u32, cell_height_px: u32) -> (
    u16,
    u16,
    u32,
    u32,
) {
    (
        if rows < 2 {
            2
        } else {
            rows
        },
        if cols < 4 {
            4
        } else {
            cols
        },
        cell_width_px,
        cell_height_px,
    )
}

/// A paste is sent as its text; between `ESC [ 200 ~` and `ESC [ 201 ~` if and only
/// if the program asked for brackets.
pub proof fn pastes_are_bracketed_on_request(rt: PaneRuntime, pasted: String, w: PaneWrite)
    requires
        call_ensures(PaneRuntime::send_paste, (&rt, pasted), w),
    ensures
        ({
            let text = vstd::utf8::encode_utf8(pasted@);
            let open = seq![27u8, '[' as u8, '2' as u8, '0' as u8, '0' as u8, '~' as u8];
            let shut = seq![27u8, '[' as u8, '2' as u8, '0' as u8, '1' as u8, '~' as u8];
            &&& rt@.terminal.mirror().bracketed_paste ==> runtime::is_write_of(
                w,
                rt@.io,
                open + text + shut,
            )
            &&& !rt@.terminal.mirror().bracketed_paste ==> runtime::is_write_of(w, rt@.io, text)
        }),
{
}

/// A focus change is sent if and only if the program asked for it: `ESC [ I` when
/// focus was gained, `ESC [ O` when it was lost.
pub proof fn focus_is_told_on_request(rt: PaneRuntime, event: FocusEvent, r: Option<PaneWrite>)
    requires
        call_ensures(PaneRuntime::try_send_focus_event, (&rt, event), r),
    ensures
        r is Some <==> rt@.terminal.mirror().focus_reporting,
        r is Some && event is Gained ==> runtime::is_write_of(
            r->0,
            rt@.io,
            seq![27u8, '[' as u8, 'I' as u8],
        ),
        r is Some && event is Lost ==> runtime::is_write_of(
            r->0,
            rt@.io,
            seq![27u8, '[' as u8, 'O' as u8],
        ),
{
}

/// Scrolling a daemon's pane up asks for fewer lines, scrolling it down for more,
/// by as many as asked for as far as the protocol can say; resetting asks for as far
/// down as it goes. Nothing changes here.
pub proof fn daemon_panes_are_scrolled_by_request(
    up: &mut PaneRuntime,
    down: &mut PaneRuntime,
    reset: &mut PaneRuntime,
    lines: usize,
    r_up: Option<Command>,
    r_down: Option<Command>,
    r_reset: Option<Command>,
    pane: TermhostPane,
)
    requires
        call_ensures(PaneRuntime::scroll_up, (up, lines), r_up),
        call_ensures(PaneRuntime::scroll_down, (down, lines), r_down),
        call_ensures(PaneRuntime::scroll_reset, (reset,), r_reset),
        old(up)@.io == PaneRuntimeIo::Termhost(pane),
        old(down)@.io == PaneRuntimeIo::Termhost(pane),
        old(reset)@.io == PaneRuntimeIo::Termhost(pane),
    ensures
        lines <= 0x7fff_ffff ==> (r_up matches Some(Command::ScrollViewport { pane_id, delta })
            && pane_id == pane.id && delta == -lines) && (r_down matches Some(
            Command::ScrollViewport { pane_id, delta },
        ) && pane_id == pane.id && delta == lines),
        lines > 0x7fff_ffff ==> (r_up matches Some(Command::ScrollViewport { pane_id, delta })
            && pane_id == pane.id && delta == -0x7fff_ffff) && (r_down matches Some(
            Command::ScrollViewport { pane_id, delta },
        ) && pane_id == pane.id && delta == 0x7fff_ffff),
        r_reset == Some(Command::ScrollViewport { pane_id: pane.id, delta: 0x7fff_ffff }),
        final(up)@ == old(up)@,
        final(down)@ == old(down)@,
        final(reset)@ == old(reset)@,
{
}

/// Going to a distance from the bottom asks for the difference to the one last
/// reported, none reported being none.
pub proof fn offsets_are_reached_by_difference(
    rt: &mut PaneRuntime,
    client: &TermhostClient,
    lines: usize,
    r: Option<Command>,
    pane: TermhostPane,
    delta: int,
)
    requires
        call_ensures(PaneRuntime::set_scroll_offset_from_bottom, (rt, client, lines), r),
        old(rt)@.io == PaneRuntimeIo::Termhost(pane),
        client@.states[pane.slot as int].grid.scroll matches Some(m) ==> delta
            == m.offset_from_bottom - lines,
        client@.states[pane.slot as int].grid.scroll is None ==> delta == -lines,
    ensures
        i32::MIN <= delta <= i32::MAX ==> r == Some(
            Command::ScrollViewport { pane_id: pane.id, delta: delta as i32 },
        ),
        delta < i32::MIN ==> r == Some(
            Command::ScrollViewport { pane_id: pane.id, delta: i32::MIN },
        ),
        delta > i32::MAX ==> r == Some(
            Command::ScrollViewport { pane_id: pane.id, delta: i32::MAX },
        ),
        final(rt)@ == old(rt)@,
{
}

/// A pane never gets smaller than two rows of four columns. A size it has already
/// is not sent again; any other is remembered and sent.
pub proof fn sizes_have_a_minimum(
    rt: &mut PaneRuntime,
    rows: u16,
    cols: u16,
    cell_width_px: u32,
    cell_height_px: u32,
    r: Option<PaneResize>,
)
    requires
        call_ensures(PaneRuntime::resize, (rt, rows, cols, cell_width_px, cell_height_px), r),
    ensures
        final(rt)@.size.0 >= 2,
        final(rt)@.size.1 >= 4,
        rows >= 2 ==> final(rt)@.size.0 == rows,
        rows < 2 ==> final(rt)@.size.0 == 2,
        cols >= 4 ==> final(rt)@.size.1 == cols,
        cols < 4 ==> final(rt)@.size.1 == 4,
        final(rt)@.size.2 == cell_width_px,
        final(rt)@.size.3 == cell_height_px,
        r is None <==> final(rt)@.size == old(rt)@.size,
        r matches Some(sent) ==> (old(rt)@.io matches PaneRuntimeIo::Termhost(pane) ==> sent
            == PaneResize::Termhost(
            Command::Resize {
                pane_id: pane.id,
                cols: final(rt)@.size.1,
                rows: final(rt)@.size.0,
                cell_width_px,
                cell_height_px,
            },
        )),
        final(rt)@.pane_id == old(rt)@.pane_id,
        final(rt)@.io == old(rt)@.io,
        final(rt)@.reported_cwd == old(rt)@.reported_cwd,
{
}

/// A daemon's pane shows the scroll position last reported, field for field.
pub proof fn reported_metrics_are_shown(
    rt: PaneRuntime,
    client: &TermhostClient,
    r: Option<ScrollMetrics>,
    pane: TermhostPane,
)
    requires
        call_ensures(PaneRuntime::scroll_metrics, (&rt, client), r),
        rt@.io == PaneRuntimeIo::Termhost(pane),
    ensures
        r is Some <==> client@.states[pane.slot as int].grid.scroll is Some,
        r matches Some(m) ==> m.offset_from_bottom
            == client@.states[pane.slot as int].grid.scroll->0.offset_from_bottom
            && m.max_offset_from_bottom
            == client@.states[pane.slot as int].grid.scroll->0.max_offset_from_bottom
            && m.viewport_rows == client@.states[pane.slot as int].grid.scroll->0.viewport_rows,
{
}

/// The cursor is shown where it stands within the area, moved by the area's
/// corner, and keeps its shape; outside the area, or if it is not to be shown, there
/// is none.
pub proof fn cursors_move_with_their_area(
    rt: PaneRuntime,
    client: &TermhostClient,
    area: Rect,
    show_cursor: bool,
    r: Option<TerminalCursorState>,
)
    requires
        rt@.wf(client@),
        show_cursor ==> has_room(rt@.cursor(client@), area),
        call_ensures(PaneRuntime::cursor_state, (&rt, client, area, show_cursor), r),
    ensures
        r is Some <==> show_cursor && rt@.cursor(client@) is Some && rt@.cursor(client@)->0.x
            < area.width && rt@.cursor(client@)->0.y < area.height,
        r matches Some(c) ==> c.x == area.x + rt@.cursor(client@)->0.x && c.y == area.y
            + rt@.cursor(client@)->0.y && c.visible == rt@.cursor(client@)->0.visible && c.shape
            == rt@.cursor(client@)->0.shape,
        rt@.io matches PaneRuntimeIo::Termhost(pane) ==> rt@.cursor(client@)
            == client@.states[pane.slot as int].grid.cursor,
{
}

/// What is asked of the daemon: the screen as it is, or the last lines, joined
/// where they wrapped and with colours where that is wanted; as many lines as the
/// protocol can say.
pub proof fn texts_are_asked_for_by_scope(
    ansi: bool,
    unwrap: bool,
    lines: usize,
    visible: TextQuery,
    recent: TextQuery,
    history: TextQuery,
    rt: PaneRuntime,
    client: &mut TermhostClient,
    query: TextQuery,
    r: Option<Command>,
)
    requires
        call_ensures(PaneRuntime::visible_query, (ansi,), visible),
        call_ensures(PaneRuntime::recent_query, (lines, ansi, unwrap), recent),
        call_ensures(PaneRuntime::history_query, (), history),
        call_ensures(PaneRuntime::termhost_text, (&rt, client, query), r),
    ensures
        visible.scope == 0 && visible.ansi == ansi && !visible.unwrap,
        recent.scope == 1 && recent.lines == lines && recent.ansi == ansi && recent.unwrap
            == unwrap,
        history.scope == 1 && history.lines == usize::MAX && history.ansi && history.unwrap,
        rt@.io is TestChannel ==> r is None,
        rt@.io matches PaneRuntimeIo::Termhost(pane) ==> (r matches Some(
            Command::RequestText { pane_id, scope, lines: n, ansi: a, unwrap: u },
        ) && pane_id == pane.id && scope == query.scope && a == query.ansi && u == query.unwrap && (
        query.lines <= u32::MAX ==> n == query.lines) && (query.lines > u32::MAX ==> n
            == u32::MAX)),
{
}

/// A reply is what is read; without one, what the pane itself shows.
pub proof fn replies_are_read_first(
    rt: PaneRuntime,
    reply: Option<String>,
    lines: usize,
    visible: String,
    recent: String,
    unwrapped: String,
)
    requires
        call_ensures(PaneRuntime::visible_text, (&rt, reply), visible)
            || call_ensures(PaneRuntime::visible_ansi, (&rt, reply), visible)
            || call_ensures(PaneRuntime::detection_text, (&rt, reply), visible),
        call_ensures(PaneRuntime::recent_text, (&rt, lines, reply), recent)
            || call_ensures(PaneRuntime::recent_ansi, (&rt, lines, reply), recent),
        call_ensures(PaneRuntime::recent_unwrapped_text, (&rt, lines, reply), unwrapped)
            || call_ensures(PaneRuntime::recent_unwrapped_ansi, (&rt, lines, reply), unwrapped),
    ensures
        reply matches Some(t) ==> visible@ == t@ && recent@ == t@ && unwrapped@ == t@,
        reply is None ==> visible@ == rt@.terminal.visible() && recent@ == rt@.terminal.recent(
            lines as nat,
            false,
        ) && unwrapped@ == rt@.terminal.recent(lines as nat, true),
{
}

/// A blank history is no history. A snapshot keeps a reply as it is; a handover
/// keeps an end of it that fits, and nothing from the alternate screen.
pub proof fn blank_histories_are_none(
    rt: PaneRuntime,
    text: String,
    max_bytes: usize,
    kept: Option<String>,
    handed: Option<String>,
)
    requires
        call_ensures(PaneRuntime::snapshot_history, (&rt, Some(text)), kept),
        call_ensures(PaneRuntime::handoff_history_ansi, (&rt, Some(text), max_bytes), handed),
    ensures
        kept is None <==> forall|i: int|
            0 <= i < text@.len() ==> text::is_white_space(#[trigger] text@[i]),
        kept matches Some(t) ==> t@ == text@,
        handed is Some <==> kept is Some && !rt@.terminal.mirror().alternate_screen,
        handed matches Some(t) ==> vstd::utf8::encode_utf8(t@).len() <= max_bytes,
        handed is Some && vstd::utf8::encode_utf8(text@).len() <= max_bytes
            ==> vstd::utf8::encode_utf8(handed->0@) == vstd::utf8::encode_utf8(text@),
{
    let a = text::trims_take_white_space(text@);
    let t = text::trimmed(text@);
    if t.len() > 0 {
        assert(text@[a] == t[0]);
    }
    handoff::cut_histories_fit(vstd::utf8::encode_utf8(text@), max_bytes as nat);
}

/// A selection of a daemon's pane is asked for by its two ends, in the order given
/// and by lines; its text is the reply.
pub proof fn selections_are_asked_for_by_their_ends(
    rt: PaneRuntime,
    client: &mut TermhostClient,
    cells: ((u32, u16), (u32, u16)),
    r: Option<Command>,
    reply: Option<String>,
    text: Option<String>,
    pane: TermhostPane,
)
    requires
        call_ensures(PaneRuntime::termhost_selection, (&rt, client, cells), r),
        call_ensures(PaneRuntime::extract_selection, (&rt, cells, reply), text),
        rt@.io == PaneRuntimeIo::Termhost(pane),
    ensures
        r matches Some(Command::RequestSelection { pane_id, anchor, cursor, rectangle }) && pane_id
            == pane.id && anchor.row == (cells.0).0 && anchor.col == (cells.0).1 && cursor.row == (
        cells.1).0 && cursor.col == (cells.1).1 && !rectangle,
        text == reply,
{
}

/// Alternate scrolling turns a wheel step into the cursor key of its direction,
/// without modifiers; nothing else is turned into keys.
pub proof fn wheels_become_cursor_keys<
    F: Fn(TerminalKey, KeyboardProtocol, bool) -> Vec<u8>,
>(
    rt: PaneRuntime,
    kind: MouseEventKind,
    encode: F,
    r: Option<Vec<u8>>,
    key: TerminalKey,
)
    requires
        call_ensures(PaneRuntime::encode_alternate_scroll, (&rt, kind, encode), r),
        kind is ScrollUp ==> key.code is Up,
        kind is ScrollDown ==> key.code is Down,
        !key.modifiers.shift && !key.modifiers.control && !key.modifiers.alt,
        !key.modifiers.super_key && !key.modifiers.hyper && !key.modifiers.meta,
    ensures
        ({
            let m = rt@.terminal.mirror();
            &&& r is Some <==> (kind is ScrollUp || kind is ScrollDown) && m.mouse_mode == 0
                && m.alternate_screen && m.mouse_alternate_scroll
            &&& r matches Some(bytes) ==> call_ensures(
                encode,
                (key, m.protocol(), m.application_cursor),
                bytes,
            )
        }),
{
}

/// A pane is where its shell said it is, if that is a usable directory, and else
/// where its process is.
pub proof fn reported_directories_come_first(
    rt: PaneRuntime,
    is_dir: bool,
    process_cwd: Option<Vec<u8>>,
    r: Option<Vec<u8>>,
)
    requires
        call_ensures(PaneRuntime::cwd, (&rt, is_dir, process_cwd), r),
    ensures
        ({
            let known = rt@.reported_cwd;
            let good = is_dir && known is Some && known->0.len() > 0 && known->0[0] == '/' as u8;
            &&& good ==> r is Some && r->0@ == known->0
            &&& !good ==> cwd::path_view(r) == cwd::path_view(process_cwd)
        }),
{
}

/// Shutting a pane down closes it at the daemon and hangs its processes up.
/// Dropping it does the same, unless its processes are to be preserved: then it
/// does nothing.
pub proof fn drops_tear_down_unless_preserved(
    rt: PaneRuntime,
    client: &mut TermhostClient,
    session: Vec<u32>,
    r: Option<Teardown>,
)
    requires
        call_ensures(PaneRuntime::on_drop, (&rt, client, &session), r),
    ensures
        r is None <==> rt@.preserve,
        rt@.preserve ==> final(client)@ == old(client)@,
        r matches Some(t) ==> (rt@.io matches PaneRuntimeIo::Termhost(pane) ==> t.close == Some(
            Command::ClosePane { pane_id: pane.id },
        ) && !final(client)@.panes.contains_key(pane.id)),
        r matches Some(t) ==> (rt@.child_pid == 0 ==> t.action is Nothing && t.pids@.len() == 0),
        r matches Some(t) ==> (rt@.child_pid != 0 ==> t.action == (ShutdownAction::SignalAndWait {
            signal: shutdown::Signal::Hangup,
            grace_ms: 250,
        })),
{
}

/// A pane marked for a handover is preserved, one that was taken over is not, and
/// nothing else changes.
pub proof fn handovers_preserve(
    given: &mut PaneRuntime,
    taken: &mut PaneRuntime,
)
    requires
        call_ensures(PaneRuntime::preserve_for_handoff, (given,), ()),
        call_ensures(PaneRuntime::assume_handoff_ownership, (taken,), ()),
    ensures
        final(given)@.preserve,
        !final(taken)@.preserve,
        final(given)@ == (RuntimeView { preserve: true, ..old(given)@ }),
        final(taken)@ == (RuntimeView { preserve: false, ..old(taken)@ }),
{
}

/// What is handed over of a pane: its child, its size, its modes and its keyboard
/// register, each under its own name.
pub proof fn handovers_carry_the_state(rt: PaneRuntime, pane_id: u32, r: HandoffRuntimeState)
    requires
        call_ensures(PaneRuntime::handoff_runtime_state, (&rt, pane_id), r),
    ensures
        r.pane_id == pane_id,
        r.child_pid == rt@.child_pid,
        r.rows == rt@.size.0,
        r.cols == rt@.size.1,
        r.cell_width_px == rt@.size.2,
        r.cell_height_px == rt@.size.3,
        r.keyboard_protocol_flags == rt@.terminal.mirror().kitty.flags,
        r.keyboard_protocol_ansi is None <==> rt@.terminal.mirror().kitty.flags == 0
            && rt@.terminal.mirror().kitty.stack.len() == 0,
        r.keyboard_protocol_ansi matches Some(ansi) ==> kitty_keyboard::observed(
            kitty_keyboard::kitty_fresh(),
            ansi@,
            0,
        ) == rt@.terminal.mirror().kitty,
        r.input_state == Some(rt@.terminal.mirror().input_state()),
        r.initial_history_ansi is None,
{
    kitty_keyboard::replay_rebuilds(rt@.terminal.mirror().kitty);
    if rt@.terminal.mirror().kitty.flags == 0 && rt@.terminal.mirror().kitty.stack.len() == 0 {
        assert(rt@.terminal.mirror().kitty =~= kitty_keyboard::kitty_fresh());
    }
}

/// A pane reports the mouse as its mirror's mode says: buttons in the known modes
/// that report them, wheels from the second mode on, bare motion in the fourth
/// alone.
pub proof fn panes_report_the_mouse_by_mode<
    B: Fn(MouseEventKind, u16, u16, KeyModifiers, MouseProtocolEncoding) -> Option<Vec<u8>>,
    M: Fn(u16, u16, KeyModifiers, MouseProtocolEncoding) -> Option<Vec<u8>>,
>(
    rt: PaneRuntime,
    kind: MouseEventKind,
    column: u16,
    row: u16,
    modifiers: KeyModifiers,
    encode: B,
    encode_motion: M,
    encoding: MouseProtocolEncoding,
    button: Option<Vec<u8>>,
    wheel: Option<Vec<u8>>,
    motion: Option<Vec<u8>>,
)
    requires
        call_ensures(
            PaneRuntime::encode_mouse_button,
            (&rt, kind, column, row, modifiers, encode),
            button,
        ),
        call_ensures(
            PaneRuntime::encode_mouse_wheel,
            (&rt, kind, column, row, modifiers, encode),
            wheel,
        ),
        call_ensures(
            PaneRuntime::encode_mouse_motion,
            (&rt, kind, column, row, modifiers, encode_motion),
            motion,
        ),
        encoding is Utf8 <==> rt@.terminal.mirror().mouse_encoding == 1,
        encoding is Sgr <==> rt@.terminal.mirror().mouse_encoding == 2,
    ensures
        ({
            let mode = rt@.terminal.mirror().mouse_mode;
            &&& mode == 0 || mode > 4 ==> button is None
            &&& kind is Up && mode < 2 ==> button is None
            &&& kind is Drag && mode < 3 ==> button is None
            &&& !(kind is Down || kind is Up || kind is Drag) ==> button is None
            &&& (kind is Down || kind is Up) && 2 <= mode <= 4 || kind is Drag && 3 <= mode <= 4
                ==> call_ensures(encode, (kind, column, row, modifiers, encoding), button)
            &&& mode < 2 ==> wheel is None
            &&& mode >= 2 ==> call_ensures(encode, (kind, column, row, modifiers, encoding), wheel)
            &&& mode != 4 || !(kind is Moved) ==> motion is None
            &&& mode == 4 && kind is Moved ==> call_ensures(
                encode_motion,
                (column, row, modifiers, encoding),
                motion,
            )
        }),
{
}

} // verus!
