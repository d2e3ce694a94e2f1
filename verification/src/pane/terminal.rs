//! A pane's local terminal-side state and the plain data the layers above it
//! read.

use vstd::prelude::*;
use crate::input::{
    KeyModifiers, KeyboardProtocol, MouseEventKind, MouseProtocolEncoding, MouseProtocolMode,
    TerminalKey,
};
use crate::kitty_keyboard;
use crate::pane::fake_content;
use crate::pane::fake_terminal;
use crate::pane::fake_terminal::{FakePaneTerminal, FakeView};
use crate::pane::input_mirror;
use crate::pane::input_mirror::{InputMirror, MirrorView};
use crate::pane::render;
use crate::pane::render::{Rect, RenderPlan};
use crate::pane::screen::ScreenView;
use crate::termhost::client::PaneInputModes;
use crate::termhost::grid;
use crate::terminal::types::{KittyImageDescriptor, KittyImagePlacement};
use crate::wire;
use crate::wire::{CellData, FrameData};

verus! {

/// Where the viewport stands in the scrollback.
#[derive(Debug, Clone, Copy, PartialEq, Eq, Structural)]
pub struct ScrollMetrics {
    pub offset_from_bottom: usize,
    pub max_offset_from_bottom: usize,
    pub viewport_rows: usize,
}

/// A cursor on the screen.
#[derive(Debug, Clone, Copy, PartialEq, Eq, Structural)]
pub struct TerminalCursorState {
    pub x: u16,
    pub y: u16,
    pub visible: bool,
    /// DECSCUSR parameter (0–6). 0 means terminal default.
    pub shape: u8,
}

/// Rows to splice into the composed screen, each with its number.
#[derive(Debug, Clone, PartialEq, Eq)]
pub struct TerminalDirtyPatch {
    pub rows: Vec<(u16, Vec<CellData>)>,
}

/// What a [`TerminalDirtyPatch`] holds.
pub open spec fn rows_view(rows: Seq<(u16, Vec<CellData>)>) -> Seq<(u16, Seq<wire::CellView>)> {
    rows.map_values(|r: (u16, Vec<CellData>)| (r.0, wire::cells_view(r.1@)))
}

/// What there is to redraw.
#[derive(Debug, Clone, PartialEq, Eq)]
pub enum TerminalDirtyPatchOutcome {
    /// Nothing changed.
    Clean,
    /// These rows.
    Patch(TerminalDirtyPatch),
    /// Everything.
    Fallback,
}

/// The input-affecting modes a program has set.
#[derive(Debug, Clone, Copy, PartialEq, Eq, Structural)]
pub struct InputState {
    pub alternate_screen: bool,
    pub application_cursor: bool,
    pub bracketed_paste: bool,
    pub focus_reporting: bool,
    pub mouse_protocol_mode: MouseProtocolMode,
    pub mouse_protocol_encoding: MouseProtocolEncoding,
    pub mouse_alternate_scroll: bool,
    pub modify_other_keys: bool,
}

impl InputState {
    /// Whether the program asked for any mouse event.
    pub fn mouse_reporting_enabled(self) -> (r: bool)
        ensures
            r == (self.mouse_protocol_mode != MouseProtocolMode::Off),
    {
        self.mouse_protocol_mode.reporting_enabled()
    }
}

/// Where a wheel event goes.
#[derive(Debug, Clone, Copy, PartialEq, Eq, Structural)]
pub enum WheelRouting {
    /// It scrolls the host's view of the pane.
    HostScroll,
    /// It is reported to the program as a mouse event.
    MouseReport,
    /// It is turned into cursor keys.
    AlternateScroll,
}

/// What came of a chunk of output.
#[derive(Debug, Clone, PartialEq, Eq)]
pub struct ProcessBytesResult {
    pub request_render: bool,
    pub render_delay_ms: Option<u64>,
    pub clipboard_writes: Vec<Vec<u8>>,
    pub reported_cwd: Option<String>,
    pub terminal_responses: Vec<Vec<u8>>,
}

impl Default for ProcessBytesResult {
    /// Nothing came of it.
    fn default() -> (r: Self)
        ensures
            r.is_only_render(false),
    {
        ProcessBytesResult::only_render(false)
    }
}

impl ProcessBytesResult {
    /// Nothing came of it but, perhaps, a repaint.
    pub open spec fn is_only_render(self, request_render: bool) -> bool {
        &&& self.request_render == request_render
        &&& self.render_delay_ms is None
        &&& self.clipboard_writes@.len() == 0
        &&& self.reported_cwd is None
        &&& self.terminal_responses@.len() == 0
    }

    fn only_render(request_render: bool) -> (r: Self)
        ensures
            r.is_only_render(request_render),
    {
        ProcessBytesResult {
            request_render,
            render_delay_ms: None,
            clipboard_writes: Vec::new(),
            reported_cwd: None,
            terminal_responses: Vec::new(),
        }
    }
}

/// A pane's local terminal-side state: the mirrored modes of a live pane, whose
/// content only the daemon has, or a double with content of its own.
pub enum PaneTerminal {
    Mirror(InputMirror),
    Fake(FakePaneTerminal),
}

/// What a [`PaneTerminal`] holds.
pub enum TerminalView {
    Mirror(MirrorView),
    Fake(FakeView),
}

impl View for PaneTerminal {
    type V = TerminalView;

    open spec fn view(&self) -> TerminalView {
        match self {
            PaneTerminal::Mirror(m) => TerminalView::Mirror(m@),
            PaneTerminal::Fake(f) => TerminalView::Fake(f@),
        }
    }
}

impl TerminalView {
    /// A double's grids have the screen's size.
    pub open spec fn wf(self) -> bool {
        self matches TerminalView::Fake(f) ==> f.screen.wf()
    }

    /// The mirror that answers mode and encoder queries.
    pub open spec fn mirror(self) -> MirrorView {
        match self {
            TerminalView::Mirror(m) => m,
            TerminalView::Fake(f) => f.mirror,
        }
    }

    /// The state after a chunk of output, which only a double reads.
    pub open spec fn fed(self, text: Seq<char>) -> TerminalView {
        match self {
            TerminalView::Mirror(m) => self,
            TerminalView::Fake(f) => TerminalView::Fake(f.fed(text)),
        }
    }

    /// Output that can be read.
    pub open spec fn reads(self, text: Seq<char>) -> bool {
        self is Fake ==> fake_terminal::accepted(text, 0)
    }

    /// The state after the daemon reported modes.
    pub open spec fn reported(self, modes: PaneInputModes) -> TerminalView {
        match self {
            TerminalView::Mirror(m) => TerminalView::Mirror(m.reported(modes)),
            TerminalView::Fake(f) => TerminalView::Fake(f.reported(modes)),
        }
    }

    /// The state after a resize, which only a double follows.
    pub open spec fn resized(self, rows: u16, cols: u16) -> TerminalView {
        match self {
            TerminalView::Mirror(m) => self,
            TerminalView::Fake(f) => TerminalView::Fake(
                FakeView { screen: f.screen.resized(rows, cols), ..f }.synced(),
            ),
        }
    }

    /// The state with a double's viewport moved.
    pub open spec fn scrolled(self, offset: usize) -> TerminalView {
        match self {
            TerminalView::Mirror(m) => self,
            TerminalView::Fake(f) => TerminalView::Fake(f.scrolled(offset)),
        }
    }

    /// A double's screen.
    pub open spec fn screen(self) -> Option<ScreenView> {
        match self {
            TerminalView::Mirror(m) => None,
            TerminalView::Fake(f) => Some(f.screen),
        }
    }

    /// The text on display; a mirror has none.
    pub open spec fn visible(self) -> Seq<char> {
        match self.screen() {
            Some(s) => fake_content::visible(s),
            None => Seq::empty(),
        }
    }

    /// The last lines; a mirror has none.
    pub open spec fn recent(self, lines: nat, unwrap: bool) -> Seq<char> {
        match self.screen() {
            Some(s) => fake_content::recent(s, lines, unwrap),
            None => Seq::empty(),
        }
    }

    /// Whether the program holds its output back.
    pub open spec fn synchronized_output(self) -> bool {
        match self.screen() {
            Some(s) => s.modes.synchronized_output,
            None => self.mirror().synchronized_output,
        }
    }

    /// The text between two ordered cells; a mirror has none.
    pub open spec fn selection(self, cells: ((u32, u16), (u32, u16))) -> Option<Seq<char>> {
        match self.screen() {
            Some(s) => Some(
                if fake_content::cell_le(cells.0, cells.1) {
                    fake_content::selected(s.all_rows(), cells.0, cells.1)
                } else {
                    fake_content::selected(s.all_rows(), cells.1, cells.0)
                },
            ),
            None => None,
        }
    }
}

impl PaneTerminal {
    /// The mirror of a live pane whose program set nothing.
    pub fn new_mirror() -> (r: Self)
        ensures
            r@ == TerminalView::Mirror(input_mirror::mirror_fresh()),
    {
        PaneTerminal::Mirror(InputMirror::new())
    }

    /// A double on which nothing was written.
    pub fn new_fake(cols: u16, rows: u16, scrollback_limit_bytes: usize) -> (r: Self)
        ensures
            r@ == TerminalView::Fake(
                fake_terminal::fake_fresh(cols, rows, scrollback_limit_bytes),
            ),
            r@.wf(),
    {
        PaneTerminal::Fake(FakePaneTerminal::new(cols, rows, scrollback_limit_bytes))
    }

    /// The double, if this is one.
    pub fn fake(&self) -> (r: Option<&FakePaneTerminal>)
        ensures
            match r {
                Some(f) => self@ == TerminalView::Fake(f@),
                None => self@ is Mirror,
            },
    {
        match self {
            PaneTerminal::Fake(fake) => Some(fake),
            PaneTerminal::Mirror(_) => None,
        }
    }

    /// The mirror that answers mode and encoder queries.
    pub fn input_mirror(&self) -> (r: &InputMirror)
        ensures
            r@ == self@.mirror(),
    {
        match self {
            PaneTerminal::Mirror(mirror) => mirror,
            PaneTerminal::Fake(fake) => fake.mirror(),
        }
    }

    /// Reads a chunk of output. A live pane has no local byte stream, so only a
    /// double does.
    pub fn process_pty_bytes(&mut self, bytes: &[u8]) -> (r: ProcessBytesResult)
        requires
            old(self)@.wf(),
            old(self)@.reads(fake_terminal::lossy_text(bytes@)),
        ensures
            final(self)@ == old(self)@.fed(fake_terminal::lossy_text(bytes@)),
            final(self)@.wf(),
            r.is_only_render(old(self)@ is Fake),
    {
        match self {
            PaneTerminal::Fake(fake) => {
                fake.feed(bytes);
                ProcessBytesResult::only_render(true)
            },
            PaneTerminal::Mirror(_) => ProcessBytesResult::only_render(false),
        }
    }

    /// Reads a chunk of output if it can be read; `None` if it cannot.
    pub fn try_process_pty_bytes(&mut self, bytes: &[u8]) -> (r: Option<ProcessBytesResult>)
        requires
            old(self)@.wf(),
        ensures
            match r {
                Some(result) => old(self)@.reads(fake_terminal::lossy_text(bytes@)) && final(self)@
                    == old(self)@.fed(fake_terminal::lossy_text(bytes@)) && result.is_only_render(
                    old(self)@ is Fake,
                ),
                None => !old(self)@.reads(fake_terminal::lossy_text(bytes@)) && final(self)@
                    == old(self)@,
            },
            final(self)@.wf(),
    {
        if self.fake().is_some() && !FakePaneTerminal::accepts_bytes(bytes) {
            return None;
        }
        Some(self.process_pty_bytes(bytes))
    }

    /// Follows a resize. A live pane's grid is resized by the daemon, so only a
    /// double does; no answers to the program come of it.
    pub fn resize(&mut self, rows: u16, cols: u16) -> (r: Vec<Vec<u8>>)
        ensures
            final(self)@ == old(self)@.resized(rows, cols),
            old(self)@.wf() ==> final(self)@.wf(),
            r@.len() == 0,
    {
        match self {
            PaneTerminal::Fake(fake) => {
                fake.resize(rows, cols);
            },
            PaneTerminal::Mirror(_) => {},
        }
        Vec::new()
    }

    /// Scrolls a double into its history.
    pub fn scroll_up(&mut self, lines: usize)
        ensures
            final(self)@ == (match old(self)@.screen() {
                Some(s) => old(self)@.scrolled(
                    grid::min(s.offset + lines, s.max_offset() as int) as usize,
                ),
                None => old(self)@,
            }),
            old(self)@.wf() ==> final(self)@.wf(),
    {
        match self {
            PaneTerminal::Fake(fake) => {
                fake.scroll_up(lines);
            },
            PaneTerminal::Mirror(_) => {},
        }
    }

    /// Scrolls a double toward its live bottom.
    pub fn scroll_down(&mut self, lines: usize)
        ensures
            final(self)@ == (match old(self)@.screen() {
                Some(s) => old(self)@.scrolled(
                    if lines <= s.offset {
                        (s.offset - lines) as usize
                    } else {
                        0
                    },
                ),
                None => old(self)@,
            }),
            old(self)@.wf() ==> final(self)@.wf(),
    {
        match self {
            PaneTerminal::Fake(fake) => {
                fake.scroll_down(lines);
            },
            PaneTerminal::Mirror(_) => {},
        }
    }

    /// Puts a double back at its live bottom.
    pub fn scroll_reset(&mut self)
        ensures
            final(self)@ == (match old(self)@ {
                TerminalView::Fake(f) => TerminalView::Fake(
                    FakeView { screen: ScreenView { offset: 0, ..f.screen }, ..f },
                ),
                TerminalView::Mirror(m) => old(self)@,
            }),
            old(self)@.wf() ==> final(self)@.wf(),
    {
        match self {
            PaneTerminal::Fake(fake) => {
                fake.scroll_reset();
            },
            PaneTerminal::Mirror(_) => {},
        }
    }

    /// Puts a double's viewport a number of rows above its live bottom.
    pub fn set_scroll_offset_from_bottom(&mut self, lines: usize)
        ensures
            final(self)@ == (match old(self)@.screen() {
                Some(s) => old(self)@.scrolled(
                    grid::min(lines as int, s.max_offset() as int) as usize,
                ),
                None => old(self)@,
            }),
            old(self)@.wf() ==> final(self)@.wf(),
    {
        match self {
            PaneTerminal::Fake(fake) => {
                fake.set_scroll_offset_from_bottom(lines);
            },
            PaneTerminal::Mirror(_) => {},
        }
    }

    /// Where a double's viewport stands.
    pub fn scroll_metrics(&self) -> (r: Option<ScrollMetrics>)
        ensures
            r == (match self@.screen() {
                Some(s) => Some(fake_content::metrics(s)),
                None => None,
            }),
    {
        match self {
            PaneTerminal::Fake(fake) => fake.scroll_metrics(),
            PaneTerminal::Mirror(_) => None,
        }
    }

    /// The modes the layers above read.
    pub fn input_state(&self) -> (r: Option<InputState>)
        ensures
            r == Some(self@.mirror().input_state()),
    {
        self.input_mirror().input_state()
    }

    /// Mirrors the daemon's reported modes.
    pub fn apply_input_modes(&mut self, modes: &PaneInputModes)
        ensures
            final(self)@ == old(self)@.reported(*modes),
            old(self)@.wf() ==> final(self)@.wf(),
    {
        match self {
            PaneTerminal::Mirror(mirror) => {
                mirror.apply_input_modes(modes);
            },
            PaneTerminal::Fake(fake) => {
                fake.apply_input_modes(modes);
            },
        }
    }

    /// Where wheel events go.
    pub fn wheel_routing(&self) -> (r: Option<WheelRouting>)
        ensures
            r == Some(self@.mirror().wheel()),
    {
        self.input_mirror().wheel_routing()
    }

    /// A double's cursor.
    pub fn cursor_state(&self) -> (r: Option<TerminalCursorState>)
        ensures
            r == (match self@.screen() {
                Some(s) => Some(fake_content::cursor_on_screen(fake_content::cursor(s))),
                None => None,
            }),
    {
        match self {
            PaneTerminal::Fake(fake) => fake.cursor_state(),
            PaneTerminal::Mirror(_) => None,
        }
    }

    /// Whether the program holds its output back.
    pub fn synchronized_output_active(&self) -> (r: bool)
        ensures
            r == self@.synchronized_output(),
    {
        match self {
            PaneTerminal::Fake(fake) => fake.synchronized_output_active(),
            PaneTerminal::Mirror(mirror) => mirror.synchronized_output_active(),
        }
    }

    /// The text on display.
    pub fn visible_text(&self) -> (r: String)
        ensures
            r@ == self@.visible(),
    {
        match self {
            PaneTerminal::Fake(fake) => fake.visible_text(),
            PaneTerminal::Mirror(_) => String::new(),
        }
    }

    /// The text on display; a double has no styling to add.
    pub fn visible_ansi(&self) -> (r: String)
        ensures
            r@ == self@.visible(),
    {
        self.visible_text()
    }

    /// The text agent detection reads.
    pub fn detection_text(&self) -> (r: String)
        ensures
            r@ == self@.visible(),
    {
        self.visible_text()
    }

    /// The last lines.
    pub fn recent_text(&self, lines: usize) -> (r: String)
        ensures
            r@ == self@.recent(lines as nat, false),
    {
        match self {
            PaneTerminal::Fake(fake) => fake.recent_text(lines, false),
            PaneTerminal::Mirror(_) => String::new(),
        }
    }

    /// The last lines; a double has no styling to add.
    pub fn recent_ansi(&self, lines: usize) -> (r: String)
        ensures
            r@ == self@.recent(lines as nat, false),
    {
        self.recent_text(lines)
    }

    /// The last lines, wrapped ones rejoined.
    pub fn recent_unwrapped_text(&self, lines: usize) -> (r: String)
        ensures
            r@ == self@.recent(lines as nat, true),
    {
        match self {
            PaneTerminal::Fake(fake) => fake.recent_text(lines, true),
            PaneTerminal::Mirror(_) => String::new(),
        }
    }

    /// The last lines, wrapped ones rejoined; a double has no styling to add.
    pub fn recent_unwrapped_ansi(&self, lines: usize) -> (r: String)
        ensures
            r@ == self@.recent(lines as nat, true),
    {
        self.recent_unwrapped_text(lines)
    }

    /// The text between two cells of a double.
    pub fn extract_selection(&self, cells: ((u32, u16), (u32, u16))) -> (r: Option<String>)
        ensures
            match r {
                Some(t) => self@.selection(cells) == Some(t@),
                None => self@.selection(cells) is None,
            },
    {
        match self {
            PaneTerminal::Fake(fake) => fake.extract_selection_cells(
                cells.0.0,
                cells.0.1,
                cells.1.0,
                cells.1.1,
            ),
            PaneTerminal::Mirror(_) => None,
        }
    }

    /// What to draw of a double; `None` for a mirror, which has nothing to draw.
    pub fn render(&self, area: Rect, show_cursor: bool) -> (r: Option<RenderPlan>)
        requires
            self@.screen() matches Some(s) ==> render::on_screen(
                render::shown_cursor(area, show_cursor, Some(fake_content::cursor(s))),
            ),
        ensures
            match (r, self@.screen()) {
                (Some(plan), Some(s)) => render::is_render(
                    plan,
                    area,
                    show_cursor,
                    fake_content::frame(s),
                    Some(fake_content::cursor(s)),
                ),
                (None, None) => true,
                _ => false,
            },
    {
        match self {
            PaneTerminal::Fake(fake) => {
                let snapshot = fake.snapshot();
                let cursor = snapshot.cursor;
                assert(cursor == fake_content::frame(fake@.screen).cursor);
                Some(render::render_wire_frame(area, show_cursor, &snapshot, cursor))
            },
            PaneTerminal::Mirror(_) => None,
        }
    }

    /// What changed on a double since the last call. A mirror cannot tell, and
    /// asks for everything.
    pub fn collect_dirty_patch(
        &mut self,
        area_width: u16,
        area_height: u16,
    ) -> (r: TerminalDirtyPatchOutcome)
        ensures
            match old(self)@ {
                TerminalView::Fake(f) => if f.screen.dirty {
                    r matches TerminalDirtyPatchOutcome::Patch(p) && rows_view(p.rows@)
                        == render::patch_rows(
                        fake_content::frame(f.screen),
                        area_width,
                        area_height,
                    )
                } else {
                    r == TerminalDirtyPatchOutcome::Clean
                },
                TerminalView::Mirror(_) => r == TerminalDirtyPatchOutcome::Fallback,
            },
            final(self)@ == (match old(self)@ {
                TerminalView::Fake(f) => TerminalView::Fake(
                    FakeView { screen: ScreenView { dirty: false, ..f.screen }, ..f },
                ),
                TerminalView::Mirror(m) => old(self)@,
            }),
            old(self)@.wf() ==> final(self)@.wf(),
    {
        let ghost before = self@;
        match self {
            PaneTerminal::Fake(fake) => {
                let dirty = fake.take_dirty();
                let snapshot = fake.snapshot();
                assert(snapshot@ == fake_content::frame(before->Fake_0.screen)) by {
                    let s = before->Fake_0.screen;
                    let t = ScreenView { dirty: false, ..s };
                    assert(t.viewport() =~= s.viewport());
                }
                let take = || -> (taken: Option<FrameData>)
                    ensures
                        taken == Some(snapshot),
                { Some(snapshot) };
                render::wire_dirty_patch(dirty, take, area_width, area_height)
            },
            PaneTerminal::Mirror(_) => TerminalDirtyPatchOutcome::Fallback,
        }
    }

    /// The linked cells of a double within an area.
    pub fn visible_hyperlinks(&self, area: Rect) -> (r: Vec<((u16, u16), String, String)>)
        requires
            self@.screen() matches Some(s) ==> fake_content::links_fit(
                s.viewport(),
                area.x as int,
                area.y as int,
                area.width as int,
                area.height as int,
            ),
        ensures
            grid::links_view(r@) == (match self@.screen() {
                Some(s) => fake_content::links(
                    s.viewport(),
                    area.x as int,
                    area.y as int,
                    area.width as int,
                    grid::min(area.height as int, s.rows as int),
                ),
                None => grid::no_links(),
            }),
    {
        match self {
            PaneTerminal::Fake(fake) => fake.visible_hyperlinks(
                area.x,
                area.y,
                area.width,
                area.height,
            ),
            PaneTerminal::Mirror(_) => {
                let none: Vec<((u16, u16), String, String)> = Vec::new();
                assert(grid::links_view(none@) =~= grid::no_links());
                none
            },
        }
    }

    /// Image placements travel with the daemon's frames; none are kept here.
    pub fn kitty_image_placements_with_data_filter<F>(&self, needs_data: F) -> (r: Vec<
        KittyImagePlacement,
    >) where F: FnMut(KittyImageDescriptor) -> bool
        ensures
            r@.len() == 0,
    {
        Vec::new()
    }

    /// Themes are applied by the daemon's emulator; nothing is to be done here.
    pub fn apply_host_terminal_theme<T>(&mut self, theme: T)
        ensures
            final(self)@ == old(self)@,
    {
    }

    /// Title evidence for agent detection is the daemon's; none is kept here.
    pub fn agent_osc_title(&self) -> (r: String)
        ensures
            r@.len() == 0,
    {
        String::new()
    }

    /// Progress evidence for agent detection is the daemon's; none is kept here.
    pub fn agent_osc_progress(&self) -> (r: String)
        ensures
            r@.len() == 0,
    {
        String::new()
    }

    /// The keyboard protocol in force.
    pub fn keyboard_protocol(&self, fallback: KeyboardProtocol) -> (r: KeyboardProtocol)
        ensures
            r == self@.mirror().protocol(),
    {
        match self.input_mirror().keyboard_protocol() {
            Some(protocol) => protocol,
            None => fallback,
        }
    }

    /// The sequences that rebuild the keyboard register, if it is not fresh.
    pub fn kitty_keyboard_state_ansi(&self) -> (r: Option<String>)
        ensures
            match r {
                Some(ansi) => self@.mirror().kitty != kitty_keyboard::kitty_fresh() && ansi@
                    == kitty_keyboard::replay(self@.mirror().kitty),
                None => self@.mirror().kitty == kitty_keyboard::kitty_fresh(),
            },
    {
        self.input_mirror().kitty_keyboard_state_ansi()
    }

    /// Encodes a key; see [`InputMirror::encode_terminal_key`].
    pub fn encode_terminal_key(
        &self,
        key: TerminalKey,
        protocol: KeyboardProtocol,
        encode: impl Fn(TerminalKey, KeyboardProtocol, bool) -> Vec<u8>,
    ) -> (r: Vec<u8>)
        requires
            !input_mirror::reports_modified_enter(self@.mirror(), key, protocol) ==> call_requires(
                encode,
                (key, protocol, self@.mirror().application_cursor),
            ),
        ensures
            if input_mirror::reports_modified_enter(self@.mirror(), key, protocol) {
                r@ == input_mirror::modified_enter(key.modifiers)
            } else {
                call_ensures(encode, (key, protocol, self@.mirror().application_cursor), r)
            },
    {
        self.input_mirror().encode_terminal_key(key, protocol, encode)
    }

    /// Encodes a button event; see [`InputMirror::encode_mouse_button`].
    pub fn encode_mouse_button(
        &self,
        kind: MouseEventKind,
        column: u16,
        row: u16,
        modifiers: KeyModifiers,
        encode: impl Fn(
            MouseEventKind,
            u16,
            u16,
            KeyModifiers,
            MouseProtocolEncoding,
        ) -> Option<Vec<u8>>,
    ) -> (r: Option<Vec<u8>>)
        requires
            input_mirror::button_reported(self@.mirror().mouse_mode, kind) ==> call_requires(
                encode,
                (
                    kind,
                    column,
                    row,
                    input_mirror::button_modifiers(self@.mirror().mouse_mode, modifiers),
                    input_mirror::encoding_of(self@.mirror().mouse_encoding),
                ),
            ),
        ensures
            if input_mirror::button_reported(self@.mirror().mouse_mode, kind) {
                call_ensures(
                    encode,
                    (
                        kind,
                        column,
                        row,
                        input_mirror::button_modifiers(self@.mirror().mouse_mode, modifiers),
                        input_mirror::encoding_of(self@.mirror().mouse_encoding),
                    ),
                    r,
                )
            } else {
                r is None
            },
    {
        self.input_mirror().encode_mouse_button(kind, column, row, modifiers, encode)
    }

    /// Encodes a pointer motion; see [`InputMirror::encode_mouse_motion`].
    pub fn encode_mouse_motion(
        &self,
        kind: MouseEventKind,
        column: u16,
        row: u16,
        modifiers: KeyModifiers,
        encode: impl Fn(u16, u16, KeyModifiers, MouseProtocolEncoding) -> Option<Vec<u8>>,
    ) -> (r: Option<Vec<u8>>)
        requires
            self@.mirror().mouse_mode == input_mirror::MOUSE_MODE_ANY_MOTION && kind
                == MouseEventKind::Moved ==> call_requires(
                encode,
                (column, row, modifiers, input_mirror::encoding_of(self@.mirror().mouse_encoding)),
            ),
        ensures
            if self@.mirror().mouse_mode == input_mirror::MOUSE_MODE_ANY_MOTION && kind
                == MouseEventKind::Moved {
                call_ensures(
                    encode,
                    (
                        column,
                        row,
                        modifiers,
                        input_mirror::encoding_of(self@.mirror().mouse_encoding),
                    ),
                    r,
                )
            } else {
                r is None
            },
    {
        self.input_mirror().encode_mouse_motion(kind, column, row, modifiers, encode)
    }

    /// Encodes a wheel event; see [`InputMirror::encode_mouse_wheel`].
    pub fn encode_mouse_wheel(
        &self,
        kind: MouseEventKind,
        column: u16,
        row: u16,
        modifiers: KeyModifiers,
        encode: impl Fn(
            MouseEventKind,
            u16,
            u16,
            KeyModifiers,
            MouseProtocolEncoding,
        ) -> Option<Vec<u8>>,
    ) -> (r: Option<Vec<u8>>)
        requires
            self@.mirror().mouse_mode >= input_mirror::MOUSE_MODE_PRESS_RELEASE ==> call_requires(
                encode,
                (
                    kind,
                    column,
                    row,
                    modifiers,
                    input_mirror::encoding_of(self@.mirror().mouse_encoding),
                ),
            ),
        ensures
            if self@.mirror().mouse_mode >= input_mirror::MOUSE_MODE_PRESS_RELEASE {
                call_ensures(
                    encode,
                    (
                        kind,
                        column,
                        row,
                        modifiers,
                        input_mirror::encoding_of(self@.mirror().mouse_encoding),
                    ),
                    r,
                )
            } else {
                r is None
            },
    {
        self.input_mirror().encode_mouse_wheel(kind, column, row, modifiers, encode)
    }
}

/// A mirror has no screen of its own: it shows no text, no cursor, no links and no
/// selection, and everything has to be redrawn from elsewhere.
pub proof fn mirrors_have_no_screen(
    term: PaneTerminal,
    visible: String,
    recent: String,
    lines: usize,
    cursor: Option<TerminalCursorState>,
    scroll: Option<ScrollMetrics>,
    cells: ((u32, u16), (u32, u16)),
    selection: Option<String>,
    area: Rect,
    show_cursor: bool,
    plan: Option<RenderPlan>,
)
    requires
        term@ is Mirror,
        call_ensures(PaneTerminal::visible_text, (&term,), visible),
        call_ensures(PaneTerminal::recent_text, (&term, lines), recent),
        call_ensures(PaneTerminal::cursor_state, (&term,), cursor),
        call_ensures(PaneTerminal::scroll_metrics, (&term,), scroll),
        call_ensures(PaneTerminal::extract_selection, (&term, cells), selection),
        call_ensures(PaneTerminal::render, (&term, area, show_cursor), plan),
    ensures
        visible@.len() == 0,
        recent@.len() == 0,
        cursor is None,
        scroll is None,
        selection is None,
        plan is None,
{
}

/// A terminal with a screen shows it: the visible text, the recent lines, joined
/// where they wrapped if that is asked for, and the cursor.
pub proof fn screens_are_shown(
    term: PaneTerminal,
    f: FakeView,
    lines: usize,
    visible: String,
    recent: String,
    unwrapped: String,
    cursor: Option<TerminalCursorState>,
)
    requires
        term@ == TerminalView::Fake(f),
        call_ensures(PaneTerminal::visible_text, (&term,), visible)
            || call_ensures(PaneTerminal::visible_ansi, (&term,), visible)
            || call_ensures(PaneTerminal::detection_text, (&term,), visible),
        call_ensures(PaneTerminal::recent_text, (&term, lines), recent)
            || call_ensures(PaneTerminal::recent_ansi, (&term, lines), recent),
        call_ensures(PaneTerminal::recent_unwrapped_text, (&term, lines), unwrapped)
            || call_ensures(PaneTerminal::recent_unwrapped_ansi, (&term, lines), unwrapped),
        call_ensures(PaneTerminal::cursor_state, (&term,), cursor),
    ensures
        visible@ == fake_content::visible(f.screen),
        recent@ == fake_content::recent(f.screen, lines as nat, false),
        unwrapped@ == fake_content::recent(f.screen, lines as nat, true),
        cursor is Some && cursor->0.x == f.screen.cur_col && cursor->0.y == f.screen.cur_row,
{
}

/// A selection is the same from either end.
pub proof fn selections_have_no_direction(
    term: PaneTerminal,
    a: (u32, u16),
    b: (u32, u16),
    forth: Option<String>,
    back: Option<String>,
)
    requires
        call_ensures(PaneTerminal::extract_selection, (&term, (a, b)), forth),
        call_ensures(PaneTerminal::extract_selection, (&term, (b, a)), back),
    ensures
        forth is Some <==> term@ is Fake,
        forth is Some <==> back is Some,
        forth is Some ==> forth->0@ == back->0@,
{
}

/// Bytes change only a terminal with a screen, and only that asks to be redrawn;
/// resizing and mode reports reach both kinds, the size only where there is a
/// screen.
pub proof fn bytes_reach_the_screen(
    fed: &mut PaneTerminal,
    bytes: &[u8],
    result: ProcessBytesResult,
    sized: &mut PaneTerminal,
    rows: u16,
    cols: u16,
    answers: Vec<Vec<u8>>,
    told: &mut PaneTerminal,
    modes: PaneInputModes,
)
    requires
        call_ensures(PaneTerminal::process_pty_bytes, (fed, bytes), result),
        call_ensures(PaneTerminal::resize, (sized, rows, cols), answers),
        call_ensures(PaneTerminal::apply_input_modes, (told, &modes), ()),
    ensures
        result.request_render <==> old(fed)@ is Fake,
        result.render_delay_ms is None,
        result.clipboard_writes@.len() == 0,
        result.reported_cwd is None,
        result.terminal_responses@.len() == 0,
        old(fed)@ is Mirror ==> final(fed)@ == old(fed)@,
        old(fed)@ matches TerminalView::Fake(f) ==> final(fed)@ == TerminalView::Fake(
            f.fed(fake_terminal::lossy_text(bytes@)),
        ),
        old(sized)@ is Mirror ==> final(sized)@ == old(sized)@,
        old(sized)@ is Fake ==> final(sized)@ is Fake,
        old(sized)@ is Fake && rows > 0 && cols > 0 ==> final(sized)@->Fake_0.screen.rows == rows
            && final(sized)@->Fake_0.screen.cols == cols,
        answers@.len() == 0,
        final(told)@.mirror() == old(told)@.mirror().reported(modes),
{
}

/// Held output is the screen's own where there is one, and what was reported
/// otherwise.
pub proof fn held_output_is_known(term: PaneTerminal, r: bool)
    requires
        call_ensures(PaneTerminal::synchronized_output_active, (&term,), r),
    ensures
        term@ matches TerminalView::Fake(f) ==> r == f.screen.modes.synchronized_output,
        term@ matches TerminalView::Mirror(m) ==> r == m.synchronized_output,
{
}

/// The layers above see the modes and the protocol of the mirror that every terminal
/// has.
pub proof fn mirrors_speak_for_terminals(
    term: PaneTerminal,
    fallback: KeyboardProtocol,
    state: Option<InputState>,
    wheel: Option<WheelRouting>,
    protocol: KeyboardProtocol,
)
    requires
        call_ensures(PaneTerminal::input_state, (&term,), state),
        call_ensures(PaneTerminal::wheel_routing, (&term,), wheel),
        call_ensures(PaneTerminal::keyboard_protocol, (&term, fallback), protocol),
    ensures
        ({
            let m = term@.mirror();
            &&& term@ matches TerminalView::Mirror(own) ==> m == own
            &&& term@ matches TerminalView::Fake(f) ==> m == f.mirror
            &&& state is Some && state->0.bracketed_paste == m.bracketed_paste
                && state->0.application_cursor == m.application_cursor
                && state->0.focus_reporting == m.focus_reporting
            &&& wheel is Some && (wheel->0 is MouseReport <==> m.mouse_mode != 0)
            &&& protocol is Legacy <==> m.kitty.flags == 0
        }),
{
}

/// The mouse is reported in every tracking mode but none.
pub proof fn states_say_whether_the_mouse_is_reported(s: InputState, r: bool)
    requires
        call_ensures(InputState::mouse_reporting_enabled, (s,), r),
    ensures
        !r <==> s.mouse_protocol_mode is Off,
{
}

/// A terminal with a screen refuses bytes it does not understand, and then stays as
/// it was; a mirror refuses nothing.
pub proof fn only_screens_refuse_bytes(
    term: &mut PaneTerminal,
    bytes: &[u8],
    r: Option<ProcessBytesResult>,
)
    requires
        call_ensures(PaneTerminal::try_process_pty_bytes, (term, bytes), r),
    ensures
        old(term)@ is Mirror ==> r is Some,
        old(term)@ is Fake ==> (r is Some <==> fake_terminal::accepted(
            fake_terminal::lossy_text(bytes@),
            0,
        )),
        r is None ==> final(term)@ == old(term)@,
        r matches Some(result) ==> (result.request_render <==> old(term)@ is Fake),
{
}

} // verus!
