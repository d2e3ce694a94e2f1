//! Pane handles: what a pane's owner asks of the daemon, and what it reads from
//! the client's state.

use vstd::prelude::*;
use crate::termhost::client;
use crate::termhost::client::{PaneStateView, TermhostClient, TermhostPane};
use crate::termhost::grid;
use crate::termhost::grid::GridView;
use crate::termhost::proto::{Command, Event, FrameScroll, SelectionPoint};
use crate::wire;
use crate::wire::{CursorState, FrameData};

verus! {

broadcast use vstd::std_specs::hash::group_hash_axioms;

/// A pane's terminal runtime, abstracted over where the PTY and the emulation
/// live: feed user input, resize, pull the latest grid, observe exit, tear
/// down. What has to reach the terminal is given back as a command.
pub trait TerminalBackend {
    /// What the backend answers from.
    type Host;

    /// The pane commands are addressed to.
    spec fn pane_id(&self) -> u32;

    /// The host knows this pane.
    spec fn known(&self, host: &Self::Host) -> bool;

    /// Writes raw user input (already encoded) to the pane's PTY.
    fn write_input(&self, bytes: &[u8]) -> (r: Command)
        ensures
            r matches Command::Input { pane_id, data } && pane_id == self.pane_id() && data@
                == bytes@,
    ;

    /// Resizes the pane's PTY and emulator.
    fn resize(&self, rows: u16, cols: u16, cell_width_px: u32, cell_height_px: u32) -> (r: Command)
        ensures
            r == (Command::Resize {
                pane_id: self.pane_id(),
                cols,
                rows,
                cell_width_px,
                cell_height_px,
            }),
    ;

    /// The latest rendered grid, if one is available.
    fn latest_frame(&self, host: &Self::Host) -> (r: Option<FrameData>)
        requires
            self.known(host),
    ;

    /// The child process exit code once it has exited.
    fn exit_status(&self, host: &Self::Host) -> (r: Option<i32>)
        requires
            self.known(host),
    ;

    /// Tears the pane down and releases its registration.
    fn close(&self, host: &mut Self::Host) -> (r: Command)
        requires
            self.known(old(host)),
        ensures
            r == (Command::ClosePane { pane_id: self.pane_id() }),
    ;
}

/// How a blocking request to the daemon ended.
#[derive(Debug, PartialEq, Eq)]
pub enum ReplyOutcome {
    /// The request could not be sent.
    SendFailed,
    /// The reply arrived in time.
    Reply(String),
    /// No reply arrived in time.
    TimedOut,
}

/// Upper bound on a blocking request's round trip, in milliseconds.
pub const SEAM_REPLY_TIMEOUT_MS: u64 = 1000;

impl TermhostPane {
    /// The handle's slot exists in the client.
    pub open spec fn of(self, client: client::ClientView) -> bool {
        self.slot < client.states.len()
    }

    /// The state behind the handle.
    pub open spec fn state(self, client: client::ClientView) -> PaneStateView {
        client.states[self.slot as int]
    }

    /// The accumulated grid as a full frame, or `None` before the first frame.
    pub fn snapshot(&self, client: &TermhostClient) -> (r: Option<FrameData>)
        requires
            self.of(client@),
        ensures
            match r {
                Some(frame) => self.state(client@).grid.has_frame && frame@ == self.state(
                    client@,
                ).grid.frame(),
                None => !self.state(client@).grid.has_frame,
            },
    {
        client.states[self.slot].grid.snapshot()
    }

    /// Whether the grid changed since the last call; clears the flag.
    pub fn take_dirty(&self, client: &mut TermhostClient) -> (r: bool)
        requires
            old(client)@.wf(),
            self.of(old(client)@),
        ensures
            r == self.state(old(client)@).grid.dirty,
            final(client)@ == old(client)@.with_state(
                self.slot as int,
                (PaneStateView {
                    grid: (GridView { dirty: false, ..self.state(old(client)@).grid }),
                    ..self.state(old(client)@)
                }),
            ),
            final(client)@.wf(),
    {
        let ghost before = client@;
        let r = client.states[self.slot].grid.take_dirty();
        assert(client@.states =~= before.with_state(
            self.slot as int,
            PaneStateView {
                grid: GridView { dirty: false, ..self.state(before).grid },
                ..self.state(before)
            },
        ).states);
        r
    }

    /// The latest cursor reported.
    pub fn cursor(&self, client: &TermhostClient) -> (r: Option<CursorState>)
        requires
            self.of(client@),
        ensures
            r == self.state(client@).grid.cursor,
    {
        client.states[self.slot].grid.cursor
    }

    /// Scrolls the viewport by `delta` lines (negative is up into history).
    pub fn scroll(&self, delta: i32) -> (r: Command)
        ensures
            r == (Command::ScrollViewport { pane_id: self.id, delta }),
    {
        Command::ScrollViewport { pane_id: self.id, delta }
    }

    /// The latest scrollback position reported.
    pub fn scroll_metrics(&self, client: &TermhostClient) -> (r: Option<FrameScroll>)
        requires
            self.of(client@),
        ensures
            r == self.state(client@).grid.scroll,
    {
        client.states[self.slot].grid.scroll
    }

    /// Resolves the OSC 8 hyperlinks within a window of the accumulated grid,
    /// as `((screen_x, screen_y), cell_symbol, uri)` per linked cell.
    pub fn visible_hyperlinks(
        &self,
        client: &TermhostClient,
        origin_x: u16,
        origin_y: u16,
        width: u16,
        height: u16,
    ) -> (r: Vec<((u16, u16), String, String)>)
        requires
            self.of(client@),
            forall|x: int, y: int|
                0 <= x < width && x < self.state(client@).grid.cols && 0 <= y < height && y
                    < self.state(client@).grid.rows && #[trigger] self.state(
                    client@,
                ).grid.link_at(x, y) is Some ==> origin_x + x <= u16::MAX && origin_y + y
                    <= u16::MAX,
        ensures
            grid::links_view(r@) == self.state(client@).grid.links(
                origin_x as int,
                origin_y as int,
                grid::min(width as int, self.state(client@).grid.cols as int),
                grid::min(height as int, self.state(client@).grid.rows as int),
            ),
    {
        client.states[self.slot].grid.visible_hyperlinks(origin_x, origin_y, width, height)
    }

    /// Starts a selection request: registers the waiter and gives the command
    /// to send. The waiter stands before anything is sent, so a reply cannot
    /// race ahead of it.
    pub fn begin_selection(
        &self,
        client: &mut TermhostClient,
        anchor_row: u32,
        anchor_col: u16,
        cursor_row: u32,
        cursor_col: u16,
        rectangle: bool,
    ) -> (r: Command)
        requires
            old(client)@.wf(),
            self.of(old(client)@),
        ensures
            final(client)@ == old(client)@.with_state(
                self.slot as int,
                (PaneStateView { pending_selection: true, ..self.state(old(client)@) }),
            ),
            final(client)@.wf(),
            r == (Command::RequestSelection {
                pane_id: self.id,
                anchor: SelectionPoint { row: anchor_row, col: anchor_col },
                cursor: SelectionPoint { row: cursor_row, col: cursor_col },
                rectangle,
            }),
    {
        let ghost before = client@;
        client.states[self.slot].pending_selection = true;
        assert(client@.states =~= before.with_state(
            self.slot as int,
            PaneStateView { pending_selection: true, ..self.state(before) },
        ).states);
        Command::RequestSelection {
            pane_id: self.id,
            anchor: SelectionPoint { row: anchor_row, col: anchor_col },
            cursor: SelectionPoint { row: cursor_row, col: cursor_col },
            rectangle,
        }
    }

    /// Ends a selection request: the reply's text, or `None` after a failed send
    /// or a timeout, when the stale waiter is dropped.
    pub fn extract_selection_blocking(
        &self,
        client: &mut TermhostClient,
        outcome: ReplyOutcome,
    ) -> (r: Option<String>)
        requires
            old(client)@.wf(),
            self.of(old(client)@),
        ensures
            match outcome {
                ReplyOutcome::Reply(text) => r == Some(text) && final(client)@ == old(client)@,
                _ => r is None && final(client)@ == old(client)@.with_state(
                    self.slot as int,
                    (PaneStateView { pending_selection: false, ..self.state(old(client)@) }),
                ),
            },
            final(client)@.wf(),
    {
        let ghost before = client@;
        match outcome {
            ReplyOutcome::Reply(text) => Some(text),
            _ => {
                client.states[self.slot].pending_selection = false;
                assert(client@.states =~= before.with_state(
                    self.slot as int,
                    PaneStateView { pending_selection: false, ..self.state(before) },
                ).states);
                None
            },
        }
    }

    /// Starts a text request: registers the waiter and gives the command to
    /// send.
    pub fn begin_text(
        &self,
        client: &mut TermhostClient,
        scope: u8,
        lines: u32,
        ansi: bool,
        unwrap: bool,
    ) -> (r: Command)
        requires
            old(client)@.wf(),
            self.of(old(client)@),
        ensures
            final(client)@ == old(client)@.with_state(
                self.slot as int,
                (PaneStateView { pending_text: true, ..self.state(old(client)@) }),
            ),
            final(client)@.wf(),
            r == (Command::RequestText { pane_id: self.id, scope, lines, ansi, unwrap }),
    {
        let ghost before = client@;
        client.states[self.slot].pending_text = true;
        assert(client@.states =~= before.with_state(
            self.slot as int,
            PaneStateView { pending_text: true, ..self.state(before) },
        ).states);
        Command::RequestText { pane_id: self.id, scope, lines, ansi, unwrap }
    }

    /// Ends a text request: the reply's text, or `None` after a failed send or
    /// a timeout, when the stale waiter is dropped.
    pub fn extract_text_blocking(
        &self,
        client: &mut TermhostClient,
        outcome: ReplyOutcome,
    ) -> (r: Option<String>)
        requires
            old(client)@.wf(),
            self.of(old(client)@),
        ensures
            match outcome {
                ReplyOutcome::Reply(text) => r == Some(text) && final(client)@ == old(client)@,
                _ => r is None && final(client)@ == old(client)@.with_state(
                    self.slot as int,
                    (PaneStateView { pending_text: false, ..self.state(old(client)@) }),
                ),
            },
            final(client)@.wf(),
    {
        let ghost before = client@;
        match outcome {
            ReplyOutcome::Reply(text) => Some(text),
            _ => {
                client.states[self.slot].pending_text = false;
                assert(client@.states =~= before.with_state(
                    self.slot as int,
                    PaneStateView { pending_text: false, ..self.state(before) },
                ).states);
                None
            },
        }
    }
}

impl TerminalBackend for TermhostPane {
    type Host = TermhostClient;

    open spec fn pane_id(&self) -> u32 {
        self.id
    }

    open spec fn known(&self, host: &TermhostClient) -> bool {
        host@.wf() && self.of(host@)
    }

    fn write_input(&self, bytes: &[u8]) -> (r: Command) {
        Command::Input { pane_id: self.id, data: vstd::slice::slice_to_vec(bytes) }
    }

    fn resize(
        &self,
        rows: u16,
        cols: u16,
        cell_width_px: u32,
        cell_height_px: u32,
    ) -> (r: Command) {
        Command::Resize { pane_id: self.id, cols, rows, cell_width_px, cell_height_px }
    }

    fn latest_frame(&self, host: &TermhostClient) -> (r: Option<FrameData>)
        ensures
            match r {
                Some(frame) => self.state(host@).grid.has_frame && frame@ == self.state(
                    host@,
                ).grid.frame(),
                None => !self.state(host@).grid.has_frame,
            },
    {
        self.snapshot(host)
    }

    fn exit_status(&self, host: &TermhostClient) -> (r: Option<i32>)
        ensures
            r == self.state(host@).exit,
    {
        host.states[self.slot].exit
    }

    fn close(&self, host: &mut TermhostClient) -> (r: Command)
        ensures
            final(host)@ == (client::ClientView {
                panes: old(host)@.panes.remove(self.id),
                ..old(host)@
            }),
            final(host)@.wf(),
    {
        host.panes.remove(&self.id);
        Command::ClosePane { pane_id: self.id }
    }
}

/// A selection reply that arrives while its request waits reaches the waiter,
/// with the daemon's text.
pub proof fn selection_replies_reach_their_waiter(
    c: client::ClientView,
    pane: TermhostPane,
    text: String,
)
    requires
        c.wf(),
        c.panes.contains_key(pane.id),
        c.panes[pane.id] == pane.slot,
    ensures
        client::delivery(
            c.with_state(
                pane.slot as int,
                (PaneStateView { pending_selection: true, ..pane.state(c) }),
            ),
            Event::PaneSelection { pane_id: pane.id, text },
        ) == (client::Delivery::Selection { slot: pane.slot, text }),
{
}

/// A text reply that arrives while its request waits reaches the waiter, with
/// the daemon's text.
pub proof fn text_replies_reach_their_waiter(
    c: client::ClientView,
    pane: TermhostPane,
    text: String,
)
    requires
        c.wf(),
        c.panes.contains_key(pane.id),
        c.panes[pane.id] == pane.slot,
    ensures
        client::delivery(
            c.with_state(pane.slot as int, (PaneStateView { pending_text: true, ..pane.state(c) })),
            Event::PaneText { pane_id: pane.id, text },
        ) == (client::Delivery::Text { slot: pane.slot, text }),
{
}

/// A pane registered under an id takes over its events. A handle from before
/// keeps the state it had: no later event reaches it.
pub proof fn reregistering_leaves_old_handles_alone(
    c: client::ClientView,
    old_pane: TermhostPane,
    has_sink: bool,
    ev: Event,
)
    requires
        c.wf(),
        c.states.len() <= usize::MAX,
        old_pane.of(c),
        c.panes.contains_key(old_pane.id),
        c.panes[old_pane.id] == old_pane.slot,
    ensures
        old_pane.state(client::client_after(c.registered(old_pane.id, has_sink), ev))
            == old_pane.state(c),
{
}

/// A closed pane's id is free: no event reaches it until it is registered again.
pub proof fn closed_panes_hear_nothing(c: client::ClientView, pane: TermhostPane, ev: Event)
    requires
        c.wf(),
        client::event_pane(ev) == Some(pane.id),
    ensures
        ({
            let closed = client::ClientView { panes: c.panes.remove(pane.id), ..c };
            client::client_after(closed, ev) == closed && client::delivery(closed, ev)
                == client::Delivery::Nothing
        }),
{
}

/// Every request names the pane it is for, and carries what it was given: the
/// bytes, the size with rows as rows and columns as columns, the distance.
pub proof fn requests_name_their_pane(
    pane: TermhostPane,
    bytes: &[u8],
    input: Command,
    rows: u16,
    cols: u16,
    cell_width_px: u32,
    cell_height_px: u32,
    resize: Command,
    delta: i32,
    scroll: Command,
)
    requires
        call_ensures(TermhostPane::write_input, (&pane, bytes), input),
        call_ensures(
            TermhostPane::resize,
            (&pane, rows, cols, cell_width_px, cell_height_px),
            resize,
        ),
        call_ensures(TermhostPane::scroll, (&pane, delta), scroll),
    ensures
        input matches Command::Input { pane_id, data } && pane_id == pane.id && data@ == bytes@,
        resize == (Command::Resize { pane_id: pane.id, cols, rows, cell_width_px, cell_height_px }),
        scroll == (Command::ScrollViewport { pane_id: pane.id, delta }),
{
}

/// A pane shows its own state: the picture it accumulated once there is one, its
/// cursor, its scroll position and its exit code.
pub proof fn panes_show_their_own_state(
    pane: TermhostPane,
    client: &TermhostClient,
    frame: Option<FrameData>,
    cursor: Option<CursorState>,
    scroll: Option<FrameScroll>,
    exit: Option<i32>,
)
    requires
        call_ensures(TermhostPane::snapshot, (&pane, client), frame),
        call_ensures(TermhostPane::cursor, (&pane, client), cursor),
        call_ensures(TermhostPane::scroll_metrics, (&pane, client), scroll),
        call_ensures(TermhostPane::exit_status, (&pane, client), exit),
    ensures
        ({
            let state = client@.states[pane.slot as int];
            &&& frame is Some <==> state.grid.has_frame
            &&& frame matches Some(f) ==> f.width == state.grid.cols && f.height == state.grid.rows
                && wire::cells_view(f.cells@) == state.grid.cells && f.cursor == state.grid.cursor
            &&& cursor == state.grid.cursor
            &&& scroll == state.grid.scroll
            &&& exit == state.exit
        }),
{
}

/// Asking whether a pane changed answers so once: the flag is taken, and nothing
/// else of any pane changes.
pub proof fn changes_are_told_once(
    pane: TermhostPane,
    client: &mut TermhostClient,
    r: bool,
    k: int,
)
    requires
        call_ensures(TermhostPane::take_dirty, (&pane, client), r),
        pane.slot < old(client)@.states.len(),
        0 <= k < old(client)@.states.len(),
    ensures
        r == old(client)@.states[pane.slot as int].grid.dirty,
        !final(client)@.states[pane.slot as int].grid.dirty,
        final(client)@.states[pane.slot as int].grid.cells == old(
            client,
        )@.states[pane.slot as int].grid.cells,
        k != pane.slot ==> final(client)@.states[k] == old(client)@.states[k],
        final(client)@.panes == old(client)@.panes,
        final(client)@.surviving == old(client)@.surviving,
{
}

/// Asking for a selection hands its two ends on, each as it is, and marks the
/// request as waited for.
pub proof fn selections_are_asked_for(
    pane: TermhostPane,
    client: &mut TermhostClient,
    anchor_row: u32,
    anchor_col: u16,
    cursor_row: u32,
    cursor_col: u16,
    rectangle: bool,
    r: Command,
    k: int,
)
    requires
        call_ensures(
            TermhostPane::begin_selection,
            (&pane, client, anchor_row, anchor_col, cursor_row, cursor_col, rectangle),
            r,
        ),
        pane.slot < old(client)@.states.len(),
        0 <= k < old(client)@.states.len(),
    ensures
        r matches Command::RequestSelection { pane_id, anchor, cursor, rectangle: rect } && pane_id
            == pane.id && anchor.row == anchor_row && anchor.col == anchor_col && cursor.row
            == cursor_row && cursor.col == cursor_col && rect == rectangle,
        final(client)@.states[pane.slot as int].pending_selection,
        final(client)@.states[pane.slot as int].pending_text == old(
            client,
        )@.states[pane.slot as int].pending_text,
        k != pane.slot ==> final(client)@.states[k] == old(client)@.states[k],
{
}

/// Asking for text hands the request on field for field, and marks it as waited
/// for.
pub proof fn texts_are_asked_for(
    pane: TermhostPane,
    client: &mut TermhostClient,
    scope: u8,
    lines: u32,
    ansi: bool,
    unwrap: bool,
    r: Command,
    k: int,
)
    requires
        call_ensures(
            TermhostPane::begin_text,
            (&pane, client, scope, lines, ansi, unwrap),
            r,
        ),
        pane.slot < old(client)@.states.len(),
        0 <= k < old(client)@.states.len(),
    ensures
        r == (Command::RequestText { pane_id: pane.id, scope, lines, ansi, unwrap }),
        final(client)@.states[pane.slot as int].pending_text,
        final(client)@.states[pane.slot as int].pending_selection == old(
            client,
        )@.states[pane.slot as int].pending_selection,
        k != pane.slot ==> final(client)@.states[k] == old(client)@.states[k],
{
}

/// A blocking request gives the reply it got, and nothing where none came; then it
/// is not waited for any more.
pub proof fn blocking_requests_give_their_reply(
    pane: TermhostPane,
    client: &mut TermhostClient,
    outcome: ReplyOutcome,
    r: Option<String>,
)
    requires
        call_ensures(TermhostPane::extract_selection_blocking, (&pane, client, outcome), r)
            || call_ensures(TermhostPane::extract_text_blocking, (&pane, client, outcome), r),
        pane.slot < old(client)@.states.len(),
    ensures
        outcome matches ReplyOutcome::Reply(text) ==> r == Some(text) && final(client)@ == old(
            client,
        )@,
        outcome is SendFailed || outcome is TimedOut ==> r is None,
        call_ensures(TermhostPane::extract_selection_blocking, (&pane, client, outcome), r) && !(
        outcome is Reply) ==> !final(client)@.states[pane.slot as int].pending_selection,
        call_ensures(TermhostPane::extract_text_blocking, (&pane, client, outcome), r) && !(
        outcome is Reply) ==> !final(client)@.states[pane.slot as int].pending_text,
{
}

/// Closing a pane asks for it by its id and forgets the id, and no other.
pub proof fn closing_forgets_the_pane(
    pane: TermhostPane,
    client: &mut TermhostClient,
    r: Command,
    other: u32,
)
    requires
        call_ensures(TermhostPane::close, (&pane, client), r),
        other != pane.id,
    ensures
        r == (Command::ClosePane { pane_id: pane.id }),
        !final(client)@.panes.contains_key(pane.id),
        final(client)@.panes.contains_key(other) == old(client)@.panes.contains_key(other),
        old(client)@.panes.contains_key(other) ==> final(client)@.panes[other] == old(
            client,
        )@.panes[other],
        final(client)@.states == old(client)@.states,
        final(client)@.surviving == old(client)@.surviving,
{
}

} // verus!
