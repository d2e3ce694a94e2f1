//! A pane's input modes as its program set them, mirrored from the daemon: they
//! route wheel events, gate mouse reports and pick the key encoding.

use vstd::prelude::*;
use crate::input::{
    KeyCode, KeyModifiers, KeyboardProtocol, MouseEventKind, MouseProtocolEncoding,
    MouseProtocolMode, TerminalKey,
};
use crate::kitty_keyboard;
use crate::kitty_keyboard::{KittyKeyboardTracker, KittyOp, KittyView};
use crate::pane::terminal::{InputState, WheelRouting};
use crate::termhost::client::PaneInputModes;

verus! {

/// Wire codes for the reported mouse tracking mode.
pub const MOUSE_MODE_OFF: u8 = 0;

pub const MOUSE_MODE_X10: u8 = 1;

pub const MOUSE_MODE_PRESS_RELEASE: u8 = 2;

pub const MOUSE_MODE_BUTTON_MOTION: u8 = 3;

pub const MOUSE_MODE_ANY_MOTION: u8 = 4;

/// Wire codes for the reported mouse encoding.
pub const MOUSE_ENCODING_DEFAULT: u8 = 0;

pub const MOUSE_ENCODING_UTF8: u8 = 1;

pub const MOUSE_ENCODING_SGR: u8 = 2;

/// The tracking mode a wire code stands for; unknown codes stand for none.
pub open spec fn mode_of(code: u8) -> MouseProtocolMode {
    if code == MOUSE_MODE_X10 {
        MouseProtocolMode::Press
    } else if code == MOUSE_MODE_PRESS_RELEASE {
        MouseProtocolMode::PressRelease
    } else if code == MOUSE_MODE_BUTTON_MOTION {
        MouseProtocolMode::ButtonMotion
    } else if code == MOUSE_MODE_ANY_MOTION {
        MouseProtocolMode::AnyMotion
    } else {
        MouseProtocolMode::Off
    }
}

/// The wire code of a tracking mode.
pub open spec fn mode_code(mode: MouseProtocolMode) -> u8 {
    match mode {
        MouseProtocolMode::Off => MOUSE_MODE_OFF,
        MouseProtocolMode::Press => MOUSE_MODE_X10,
        MouseProtocolMode::PressRelease => MOUSE_MODE_PRESS_RELEASE,
        MouseProtocolMode::ButtonMotion => MOUSE_MODE_BUTTON_MOTION,
        MouseProtocolMode::AnyMotion => MOUSE_MODE_ANY_MOTION,
    }
}

/// The encoding a wire code stands for; unknown codes stand for the default.
pub open spec fn encoding_of(code: u8) -> MouseProtocolEncoding {
    if code == MOUSE_ENCODING_UTF8 {
        MouseProtocolEncoding::Utf8
    } else if code == MOUSE_ENCODING_SGR {
        MouseProtocolEncoding::Sgr
    } else {
        MouseProtocolEncoding::Default
    }
}

/// The wire code of an encoding.
pub open spec fn encoding_code(encoding: MouseProtocolEncoding) -> u8 {
    match encoding {
        MouseProtocolEncoding::Default => MOUSE_ENCODING_DEFAULT,
        MouseProtocolEncoding::Utf8 => MOUSE_ENCODING_UTF8,
        MouseProtocolEncoding::Sgr => MOUSE_ENCODING_SGR,
    }
}

/// The tracking mode a wire code stands for.
pub fn mouse_protocol_mode(mode: u8) -> (r: MouseProtocolMode)
    ensures
        r == mode_of(mode),
{
    match mode {
        1 => MouseProtocolMode::Press,
        2 => MouseProtocolMode::PressRelease,
        3 => MouseProtocolMode::ButtonMotion,
        4 => MouseProtocolMode::AnyMotion,
        _ => MouseProtocolMode::Off,
    }
}

/// The encoding a wire code stands for.
pub fn mouse_protocol_encoding(encoding: u8) -> (r: MouseProtocolEncoding)
    ensures
        r == encoding_of(encoding),
{
    match encoding {
        1 => MouseProtocolEncoding::Utf8,
        2 => MouseProtocolEncoding::Sgr,
        _ => MouseProtocolEncoding::Default,
    }
}

/// The mirrored modes of one pane.
pub struct InputMirror {
    pub alternate_screen: bool,
    pub application_cursor: bool,
    pub bracketed_paste: bool,
    pub focus_reporting: bool,
    pub mouse_mode: u8,
    pub mouse_encoding: u8,
    pub mouse_alternate_scroll: bool,
    pub synchronized_output: bool,
    pub modify_other_keys: bool,
    pub kitty_keyboard: KittyKeyboardTracker,
}

/// What an [`InputMirror`] holds.
#[verifier::ext_equal]
pub struct MirrorView {
    pub alternate_screen: bool,
    pub application_cursor: bool,
    pub bracketed_paste: bool,
    pub focus_reporting: bool,
    pub mouse_mode: u8,
    pub mouse_encoding: u8,
    pub mouse_alternate_scroll: bool,
    pub synchronized_output: bool,
    pub modify_other_keys: bool,
    pub kitty: KittyView,
}

impl View for InputMirror {
    type V = MirrorView;

    open spec fn view(&self) -> MirrorView {
        MirrorView {
            alternate_screen: self.alternate_screen,
            application_cursor: self.application_cursor,
            bracketed_paste: self.bracketed_paste,
            focus_reporting: self.focus_reporting,
            mouse_mode: self.mouse_mode,
            mouse_encoding: self.mouse_encoding,
            mouse_alternate_scroll: self.mouse_alternate_scroll,
            synchronized_output: self.synchronized_output,
            modify_other_keys: self.modify_other_keys,
            kitty: self.kitty_keyboard@,
        }
    }
}

/// The mirror of a program that set nothing.
pub open spec fn mirror_fresh() -> MirrorView {
    MirrorView {
        alternate_screen: false,
        application_cursor: false,
        bracketed_paste: false,
        focus_reporting: false,
        mouse_mode: MOUSE_MODE_OFF,
        mouse_encoding: MOUSE_ENCODING_DEFAULT,
        mouse_alternate_scroll: false,
        synchronized_output: false,
        modify_other_keys: false,
        kitty: kitty_keyboard::kitty_fresh(),
    }
}

impl MirrorView {
    /// The mirror after a mode report. The keyboard register is written in
    /// place: the registers saved below it stay.
    pub open spec fn reported(self, modes: PaneInputModes) -> MirrorView {
        MirrorView {
            alternate_screen: modes.alternate_screen,
            application_cursor: modes.application_cursor,
            bracketed_paste: modes.bracketed_paste,
            focus_reporting: modes.focus_reporting,
            mouse_mode: modes.mouse_mode,
            mouse_encoding: modes.mouse_encoding,
            mouse_alternate_scroll: modes.mouse_alternate_scroll,
            synchronized_output: modes.synchronized_output,
            modify_other_keys: modes.modify_other_keys,
            kitty: kitty_keyboard::kitty_apply(
                self.kitty,
                KittyOp::Assign { flags: modes.kitty_keyboard_flags, mode: 1 },
            ),
        }
    }

    /// The mirror after seeding the modes of a snapshot, which records neither
    /// synchronized output nor the keyboard register.
    pub open spec fn seeded(self, s: InputState) -> MirrorView {
        MirrorView {
            alternate_screen: s.alternate_screen,
            application_cursor: s.application_cursor,
            bracketed_paste: s.bracketed_paste,
            focus_reporting: s.focus_reporting,
            mouse_mode: mode_code(s.mouse_protocol_mode),
            mouse_encoding: encoding_code(s.mouse_protocol_encoding),
            mouse_alternate_scroll: s.mouse_alternate_scroll,
            modify_other_keys: s.modify_other_keys,
            ..self
        }
    }

    /// The modes the layers above read.
    pub open spec fn input_state(self) -> InputState {
        InputState {
            alternate_screen: self.alternate_screen,
            application_cursor: self.application_cursor,
            bracketed_paste: self.bracketed_paste,
            focus_reporting: self.focus_reporting,
            mouse_protocol_mode: mode_of(self.mouse_mode),
            mouse_protocol_encoding: encoding_of(self.mouse_encoding),
            mouse_alternate_scroll: self.mouse_alternate_scroll,
            modify_other_keys: self.modify_other_keys,
        }
    }

    /// Where wheel events go: to a program that tracks the mouse, else as cursor
    /// keys to a full-screen program that asked for it, else to the host.
    pub open spec fn wheel(self) -> WheelRouting {
        if self.mouse_mode != MOUSE_MODE_OFF {
            WheelRouting::MouseReport
        } else if self.alternate_screen && self.mouse_alternate_scroll {
            WheelRouting::AlternateScroll
        } else {
            WheelRouting::HostScroll
        }
    }

    /// The keyboard protocol in force.
    pub open spec fn protocol(self) -> KeyboardProtocol {
        KeyboardProtocol::of_flags(self.kitty.flags)
    }
}

/// The modifier parameter of xterm's key reports: one, and one, two and four
/// more for shift, alt and control.
pub open spec fn modifier_param(m: KeyModifiers) -> int {
    1 + (if m.shift {
        1int
    } else {
        0
    }) + (if m.alt {
        2int
    } else {
        0
    }) + (if m.control {
        4int
    } else {
        0
    })
}

/// `CSI 27 ; m ; 13 ~`: Enter with its modifiers.
pub open spec fn modified_enter(m: KeyModifiers) -> Seq<u8> {
    seq![
        0x1bu8,
        0x5bu8,
        0x32u8,
        0x37u8,
        0x3bu8,
        (0x30 + modifier_param(m)) as u8,
        0x3bu8,
        0x31u8,
        0x33u8,
        0x7eu8,
    ]
}

/// Whether Enter has to be reported with its modifiers: the program asked for
/// it, and the legacy encoding would lose them.
pub open spec fn reports_modified_enter(
    m: MirrorView,
    key: TerminalKey,
    protocol: KeyboardProtocol,
) -> bool {
    m.modify_other_keys && protocol == KeyboardProtocol::Legacy && key.code == KeyCode::Enter
        && modifier_param(key.modifiers) > 1
}

/// Whether the tracking mode reports this button event: presses always,
/// releases and drags only from the mode that adds them on.
pub open spec fn button_reported(mode: u8, kind: MouseEventKind) -> bool {
    match kind {
        MouseEventKind::Down(_) => mode >= MOUSE_MODE_X10,
        MouseEventKind::Up(_) => mode >= MOUSE_MODE_PRESS_RELEASE,
        MouseEventKind::Drag(_) => mode >= MOUSE_MODE_BUTTON_MOTION,
        _ => false,
    }
}

/// The modifiers a button report carries: X10 reports carry none.
pub open spec fn button_modifiers(mode: u8, modifiers: KeyModifiers) -> KeyModifiers {
    if mode == MOUSE_MODE_X10 {
        KeyModifiers::none_held()
    } else {
        modifiers
    }
}

impl InputMirror {
    /// The mirror of a program that set nothing.
    pub fn new() -> (r: Self)
        ensures
            r@ == mirror_fresh(),
    {
        InputMirror {
            alternate_screen: false,
            application_cursor: false,
            bracketed_paste: false,
            focus_reporting: false,
            mouse_mode: MOUSE_MODE_OFF,
            mouse_encoding: MOUSE_ENCODING_DEFAULT,
            mouse_alternate_scroll: false,
            synchronized_output: false,
            modify_other_keys: false,
            kitty_keyboard: KittyKeyboardTracker::new(),
        }
    }

    /// Mirrors the daemon's reported modes.
    pub fn apply_input_modes(&mut self, modes: &PaneInputModes)
        ensures
            final(self)@ == old(self)@.reported(*modes),
    {
        self.alternate_screen = modes.alternate_screen;
        self.application_cursor = modes.application_cursor;
        self.bracketed_paste = modes.bracketed_paste;
        self.focus_reporting = modes.focus_reporting;
        self.mouse_mode = modes.mouse_mode;
        self.mouse_encoding = modes.mouse_encoding;
        self.mouse_alternate_scroll = modes.mouse_alternate_scroll;
        self.synchronized_output = modes.synchronized_output;
        self.modify_other_keys = modes.modify_other_keys;
        self.kitty_keyboard.apply(KittyOp::Assign { flags: modes.kitty_keyboard_flags, mode: 1 });
    }

    /// Seeds modes from a handoff or restore snapshot.
    pub fn seed_handoff_input_state(&mut self, input_state: InputState)
        ensures
            final(self)@ == old(self)@.seeded(input_state),
    {
        self.alternate_screen = input_state.alternate_screen;
        self.application_cursor = input_state.application_cursor;
        self.bracketed_paste = input_state.bracketed_paste;
        self.focus_reporting = input_state.focus_reporting;
        self.mouse_mode = match input_state.mouse_protocol_mode {
            MouseProtocolMode::Off => MOUSE_MODE_OFF,
            MouseProtocolMode::Press => MOUSE_MODE_X10,
            MouseProtocolMode::PressRelease => MOUSE_MODE_PRESS_RELEASE,
            MouseProtocolMode::ButtonMotion => MOUSE_MODE_BUTTON_MOTION,
            MouseProtocolMode::AnyMotion => MOUSE_MODE_ANY_MOTION,
        };
        self.mouse_encoding = match input_state.mouse_protocol_encoding {
            MouseProtocolEncoding::Default => MOUSE_ENCODING_DEFAULT,
            MouseProtocolEncoding::Utf8 => MOUSE_ENCODING_UTF8,
            MouseProtocolEncoding::Sgr => MOUSE_ENCODING_SGR,
        };
        self.mouse_alternate_scroll = input_state.mouse_alternate_scroll;
        self.modify_other_keys = input_state.modify_other_keys;
    }

    /// Seeds the keyboard register from a snapshot that recorded its flags
    /// only: they are pushed over the current register. No flags, no push.
    pub fn seed_keyboard_protocol_flags(&mut self, flags: u16)
        ensures
            final(self)@ == (MirrorView {
                kitty: if flags == 0 {
                    old(self)@.kitty
                } else {
                    kitty_keyboard::kitty_apply(old(self)@.kitty, KittyOp::Push { flags })
                },
                ..old(self)@
            }),
    {
        if flags != 0 {
            self.kitty_keyboard.apply(KittyOp::Push { flags });
        }
    }

    /// Replays a snapshot's keyboard sequences.
    pub fn seed_keyboard_protocol_ansi(&mut self, ansi: &str)
        ensures
            final(self)@ == (MirrorView {
                kitty: kitty_keyboard::observed(
                    old(self)@.kitty,
                    kitty_keyboard::byte_chars(vstd::utf8::encode_utf8(ansi@)),
                    0,
                ),
                ..old(self)@
            }),
    {
        self.kitty_keyboard.observe(ansi.as_bytes());
    }

    /// Mirrors synchronized output alone.
    pub fn set_synchronized_output(&mut self, active: bool)
        ensures
            final(self)@ == (MirrorView { synchronized_output: active, ..old(self)@ }),
    {
        self.synchronized_output = active;
    }

    /// The keyboard protocol in force.
    pub fn keyboard_protocol(&self) -> (r: Option<KeyboardProtocol>)
        ensures
            r == Some(self@.protocol()),
    {
        Some(KeyboardProtocol::from_kitty_flags(self.kitty_keyboard.flags()))
    }

    /// The sequences that rebuild the keyboard register, if it is not fresh.
    pub fn kitty_keyboard_state_ansi(&self) -> (r: Option<String>)
        ensures
            match r {
                Some(ansi) => self@.kitty != kitty_keyboard::kitty_fresh() && ansi@
                    == kitty_keyboard::replay(self@.kitty),
                None => self@.kitty == kitty_keyboard::kitty_fresh(),
            },
    {
        self.kitty_keyboard.replay_ansi()
    }

    /// The modes the layers above read.
    pub fn input_state(&self) -> (r: Option<InputState>)
        ensures
            r == Some(self@.input_state()),
    {
        Some(
            InputState {
                alternate_screen: self.alternate_screen,
                application_cursor: self.application_cursor,
                bracketed_paste: self.bracketed_paste,
                focus_reporting: self.focus_reporting,
                mouse_protocol_mode: mouse_protocol_mode(self.mouse_mode),
                mouse_protocol_encoding: mouse_protocol_encoding(self.mouse_encoding),
                mouse_alternate_scroll: self.mouse_alternate_scroll,
                modify_other_keys: self.modify_other_keys,
            },
        )
    }

    /// Where wheel events go.
    pub fn wheel_routing(&self) -> (r: Option<WheelRouting>)
        ensures
            r == Some(self@.wheel()),
    {
        Some(
            if self.mouse_mode != MOUSE_MODE_OFF {
                WheelRouting::MouseReport
            } else if self.alternate_screen && self.mouse_alternate_scroll {
                WheelRouting::AlternateScroll
            } else {
                WheelRouting::HostScroll
            },
        )
    }

    /// Whether the program holds its output back.
    pub fn synchronized_output_active(&self) -> (r: bool)
        ensures
            r == self@.synchronized_output,
    {
        self.synchronized_output
    }

    /// Encodes a key. A modified Enter is reported with its modifiers where the
    /// program asked for that; every other key goes through `encode`, with the
    /// cursor-key mode in force.
    pub fn encode_terminal_key(
        &self,
        key: TerminalKey,
        protocol: KeyboardProtocol,
        encode: impl Fn(TerminalKey, KeyboardProtocol, bool) -> Vec<u8>,
    ) -> (r: Vec<u8>)
        requires
            !reports_modified_enter(self@, key, protocol) ==> call_requires(
                encode,
                (key, protocol, self@.application_cursor),
            ),
        ensures
            if reports_modified_enter(self@, key, protocol) {
                r@ == modified_enter(key.modifiers)
            } else {
                call_ensures(encode, (key, protocol, self@.application_cursor), r)
            },
    {
        let legacy = match protocol {
            KeyboardProtocol::Legacy => true,
            _ => false,
        };
        let enter = match key.code {
            KeyCode::Enter => true,
            _ => false,
        };
        if self.modify_other_keys && legacy && enter && !key.modifiers.is_empty() {
            let mut modifier: u8 = 1;
            if key.modifiers.shift {
                modifier += 1;
            }
            if key.modifiers.alt {
                modifier += 2;
            }
            if key.modifiers.control {
                modifier += 4;
            }
            if modifier > 1 {
                let r: Vec<u8> = vec![
                    0x1b,
                    0x5b,
                    0x32,
                    0x37,
                    0x3b,
                    0x30 + modifier,
                    0x3b,
                    0x31,
                    0x33,
                    0x7e,
                ];
                assert(r@ =~= modified_enter(key.modifiers));
                return r;
            }
        }
        encode(key, protocol, self.application_cursor)
    }

    /// Encodes a button event through `encode`, if the tracking mode reports it.
    pub fn encode_mouse_button(
        &self,
        kind: MouseEventKind,
        column: u16,
        row: u16,
        modifiers: KeyModifiers,
        encode: impl Fn(
            MouseEventKind,
            u16,
            u16,
            KeyModifiers,
            MouseProtocolEncoding,
        ) -> Option<Vec<u8>>,
    ) -> (r: Option<Vec<u8>>)
        requires
            button_reported(self@.mouse_mode, kind) ==> call_requires(
                encode,
                (
                    kind,
                    column,
                    row,
                    button_modifiers(self@.mouse_mode, modifiers),
                    encoding_of(self@.mouse_encoding),
                ),
            ),
        ensures
            if button_reported(self@.mouse_mode, kind) {
                call_ensures(
                    encode,
                    (
                        kind,
                        column,
                        row,
                        button_modifiers(self@.mouse_mode, modifiers),
                        encoding_of(self@.mouse_encoding),
                    ),
                    r,
                )
            } else {
                r is None
            },
    {
        let (mode, encoding) = match self.mouse_reporting() {
            Some(reporting) => reporting,
            None => {
                return None;
            },
        };
        let allowed = match kind {
            MouseEventKind::Down(_) => mode >= MOUSE_MODE_X10,
            MouseEventKind::Up(_) => mode >= MOUSE_MODE_PRESS_RELEASE,
            MouseEventKind::Drag(_) => mode >= MOUSE_MODE_BUTTON_MOTION,
            _ => false,
        };
        if !allowed {
            return None;
        }
        let modifiers = if mode == MOUSE_MODE_X10 {
            KeyModifiers::empty()
        } else {
            modifiers
        };
        encode(kind, column, row, modifiers, encoding)
    }

    /// Encodes a bare pointer motion through `encode`, if the program tracks
    /// all motion.
    pub fn encode_mouse_motion(
        &self,
        kind: MouseEventKind,
        column: u16,
        row: u16,
        modifiers: KeyModifiers,
        encode: impl Fn(u16, u16, KeyModifiers, MouseProtocolEncoding) -> Option<Vec<u8>>,
    ) -> (r: Option<Vec<u8>>)
        requires
            self@.mouse_mode == MOUSE_MODE_ANY_MOTION && kind == MouseEventKind::Moved
                ==> call_requires(
                encode,
                (column, row, modifiers, encoding_of(self@.mouse_encoding)),
            ),
        ensures
            if self@.mouse_mode == MOUSE_MODE_ANY_MOTION && kind == MouseEventKind::Moved {
                call_ensures(
                    encode,
                    (column, row, modifiers, encoding_of(self@.mouse_encoding)),
                    r,
                )
            } else {
                r is None
            },
    {
        let (mode, encoding) = match self.mouse_reporting() {
            Some(reporting) => reporting,
            None => {
                return None;
            },
        };
        let moved = match kind {
            MouseEventKind::Moved => true,
            _ => false,
        };
        if mode != MOUSE_MODE_ANY_MOTION || !moved {
            return None;
        }
        encode(column, row, modifiers, encoding)
    }

    /// Encodes a wheel event through `encode`; X10 tracking has no wheel
    /// buttons.
    pub fn encode_mouse_wheel(
        &self,
        kind: MouseEventKind,
        column: u16,
        row: u16,
        modifiers: KeyModifiers,
        encode: impl Fn(
            MouseEventKind,
            u16,
            u16,
            KeyModifiers,
            MouseProtocolEncoding,
        ) -> Option<Vec<u8>>,
    ) -> (r: Option<Vec<u8>>)
        requires
            self@.mouse_mode >= MOUSE_MODE_PRESS_RELEASE ==> call_requires(
                encode,
                (kind, column, row, modifiers, encoding_of(self@.mouse_encoding)),
            ),
        ensures
            if self@.mouse_mode >= MOUSE_MODE_PRESS_RELEASE {
                call_ensures(
                    encode,
                    (kind, column, row, modifiers, encoding_of(self@.mouse_encoding)),
                    r,
                )
            } else {
                r is None
            },
    {
        let (mode, encoding) = match self.mouse_reporting() {
            Some(reporting) => reporting,
            None => {
                return None;
            },
        };
        if mode < MOUSE_MODE_PRESS_RELEASE {
            return None;
        }
        encode(kind, column, row, modifiers, encoding)
    }

    /// The tracking mode and encoding while mouse reporting is on.
    pub fn mouse_reporting(&self) -> (r: Option<(u8, MouseProtocolEncoding)>)
        ensures
            r == (if self@.mouse_mode == MOUSE_MODE_OFF {
                None
            } else {
                Some((self@.mouse_mode, encoding_of(self@.mouse_encoding)))
            }),
    {
        if self.mouse_mode == MOUSE_MODE_OFF {
            return None;
        }
        Some((self.mouse_mode, mouse_protocol_encoding(self.mouse_encoding)))
    }
}

/// Seeding a snapshot and reading the modes back gives the snapshot.
pub proof fn seeded_modes_read_back(m: MirrorView, s: InputState)
    ensures
        m.seeded(s).input_state() == s,
{
}

/// A snapshot of a mirror seeded elsewhere routes wheel events alike, provided
/// the mouse mode is one of the known codes.
pub proof fn seeded_mirrors_route_wheels_alike(m: MirrorView, other: MirrorView)
    requires
        m.mouse_mode <= MOUSE_MODE_ANY_MOTION,
    ensures
        other.seeded(m.input_state()).wheel() == m.wheel(),
        other.seeded(m.input_state()).mouse_mode == m.mouse_mode,
{
}

/// Applying a report twice is applying it once.
pub proof fn reports_are_idempotent(m: MirrorView, modes: PaneInputModes)
    ensures
        m.reported(modes).reported(modes) == m.reported(modes),
        m.reported(modes).kitty.stack == m.kitty.stack,
        m.reported(modes).protocol() == KeyboardProtocol::of_flags(modes.kitty_keyboard_flags),
{
}

/// A mirror's keyboard register, written out and replayed into a fresh mirror,
/// is rebuilt: same protocol in force, same registers below it.
pub proof fn keyboard_registers_survive_a_handoff(m: MirrorView)
    ensures
        kitty_keyboard::observed(
            kitty_keyboard::kitty_fresh(),
            kitty_keyboard::byte_chars(
                vstd::utf8::encode_utf8(kitty_keyboard::replay(m.kitty)),
            ),
            0,
        ) == m.kitty,
{
    kitty_keyboard::replay_bytes_rebuild(m.kitty);
}

/// A modified Enter is ten bytes, `ESC [ 2 7 ; d ; 1 3 ~`. The digit `d`, less
/// one, is a set of three bits: the first for shift, the second for alt, the third
/// for control.
pub proof fn modified_enters_name_their_modifiers(m: KeyModifiers)
    ensures
        ({
            let report = modified_enter(m);
            let bits = report[5] - 0x31;
            &&& report.len() == 10
            &&& report.take(5) == seq![27u8, '[' as u8, '2' as u8, '7' as u8, ';' as u8]
            &&& report.skip(6) == seq![';' as u8, '1' as u8, '3' as u8, '~' as u8]
            &&& 0 <= bits < 8
            &&& bits % 2 == 1 <==> m.shift
            &&& (bits / 2) % 2 == 1 <==> m.alt
            &&& (bits / 4) % 2 == 1 <==> m.control
        }),
        m.shift && !m.alt && !m.control ==> modified_enter(m)[5] == '2' as u8,
        !m.shift && m.alt && !m.control ==> modified_enter(m)[5] == '3' as u8,
        !m.shift && !m.alt && m.control ==> modified_enter(m)[5] == '5' as u8,
{
    let report = modified_enter(m);
    assert(report.take(5) =~= seq![27u8, '[' as u8, '2' as u8, '7' as u8, ';' as u8]);
    assert(report.skip(6) =~= seq![';' as u8, '1' as u8, '3' as u8, '~' as u8]);
}

/// Enter is reported with its modifiers exactly where the program asked for it,
/// the legacy protocol is in force and shift, alt or control is held; no other key
/// ever is.
pub proof fn only_modified_enters_are_reported(
    m: MirrorView,
    key: TerminalKey,
    protocol: KeyboardProtocol,
)
    ensures
        reports_modified_enter(m, key, protocol) <==> m.modify_other_keys && protocol is Legacy
            && key.code is Enter && (key.modifiers.shift || key.modifiers.alt
            || key.modifiers.control),
{
}

/// Presses are reported in every tracking mode, releases from the second on,
/// drags from the third on, and nothing else is a button event. Only the first
/// mode leaves the modifiers out.
pub proof fn tracking_modes_add_events(mode: u8, kind: MouseEventKind, modifiers: KeyModifiers)
    ensures
        kind is Down ==> (button_reported(mode, kind) <==> mode != 0),
        kind is Up ==> (button_reported(mode, kind) <==> mode != 0 && mode != 1),
        kind is Drag ==> (button_reported(mode, kind) <==> mode != 0 && mode != 1 && mode != 2),
        !(kind is Down || kind is Up || kind is Drag) ==> !button_reported(mode, kind),
        mode != 1 ==> button_modifiers(mode, modifiers) == modifiers,
        ({
            let held = button_modifiers(1, modifiers);
            !held.shift && !held.alt && !held.control && !held.super_key && !held.hyper
                && !held.meta
        }),
{
}

/// The wire codes of the tracking modes are zero to four, in the order in which
/// they report more; those of the encodings zero to two.
pub proof fn mouse_codes_are_in_order(code: u8)
    ensures
        mode_of(0) is Off,
        mode_of(1) is Press,
        mode_of(2) is PressRelease,
        mode_of(3) is ButtonMotion,
        mode_of(4) is AnyMotion,
        code > 4 ==> mode_of(code) is Off,
        code <= 4 ==> mode_code(mode_of(code)) == code,
        encoding_of(0) is Default,
        encoding_of(1) is Utf8,
        encoding_of(2) is Sgr,
        code > 2 ==> encoding_of(code) is Default,
        code <= 2 ==> encoding_code(encoding_of(code)) == code,
{
}

/// A report sets every mode to what it says and assigns the keyboard flags,
/// leaving the registers below alone.
pub proof fn reports_set_every_mode(m: MirrorView, modes: PaneInputModes)
    ensures
        ({
            let after = m.reported(modes);
            &&& after.alternate_screen == modes.alternate_screen
            &&& after.application_cursor == modes.application_cursor
            &&& after.bracketed_paste == modes.bracketed_paste
            &&& after.focus_reporting == modes.focus_reporting
            &&& after.mouse_mode == modes.mouse_mode
            &&& after.mouse_encoding == modes.mouse_encoding
            &&& after.mouse_alternate_scroll == modes.mouse_alternate_scroll
            &&& after.synchronized_output == modes.synchronized_output
            &&& after.modify_other_keys == modes.modify_other_keys
            &&& after.kitty.flags == modes.kitty_keyboard_flags
            &&& after.kitty.stack == m.kitty.stack
        }),
{
}

/// Reading a mirror shows each mode under its own name, and a snapshot seeded
/// into a mirror sets each mode from its own field. It leaves synchronized output
/// and the keyboard register alone.
pub proof fn modes_keep_their_names(m: MirrorView, s: InputState)
    ensures
        ({
            let read = m.input_state();
            &&& read.alternate_screen == m.alternate_screen
            &&& read.application_cursor == m.application_cursor
            &&& read.bracketed_paste == m.bracketed_paste
            &&& read.focus_reporting == m.focus_reporting
            &&& read.mouse_alternate_scroll == m.mouse_alternate_scroll
            &&& read.modify_other_keys == m.modify_other_keys
            &&& read.mouse_protocol_mode is Off <==> m.mouse_mode == 0 || m.mouse_mode > 4
            &&& read.mouse_protocol_mode is Press <==> m.mouse_mode == 1
            &&& read.mouse_protocol_mode is PressRelease <==> m.mouse_mode == 2
            &&& read.mouse_protocol_mode is ButtonMotion <==> m.mouse_mode == 3
            &&& read.mouse_protocol_mode is AnyMotion <==> m.mouse_mode == 4
            &&& read.mouse_protocol_encoding is Utf8 <==> m.mouse_encoding == 1
            &&& read.mouse_protocol_encoding is Sgr <==> m.mouse_encoding == 2
        }),
        ({
            let seeded = m.seeded(s);
            &&& seeded.alternate_screen == s.alternate_screen
            &&& seeded.application_cursor == s.application_cursor
            &&& seeded.bracketed_paste == s.bracketed_paste
            &&& seeded.focus_reporting == s.focus_reporting
            &&& seeded.mouse_alternate_scroll == s.mouse_alternate_scroll
            &&& seeded.modify_other_keys == s.modify_other_keys
            &&& seeded.synchronized_output == m.synchronized_output
            &&& seeded.kitty == m.kitty
        }),
{
}

/// The wheel goes to the program exactly while it tracks the mouse; as cursor
/// keys while it does not, is on the alternate screen and asked for that; to the
/// host otherwise.
pub proof fn wheels_are_routed_by_the_modes(m: MirrorView)
    ensures
        m.wheel() is MouseReport <==> m.mouse_mode != 0,
        m.wheel() is AlternateScroll <==> m.mouse_mode == 0 && m.alternate_screen
            && m.mouse_alternate_scroll,
        m.wheel() is HostScroll <==> m.mouse_mode == 0 && !(m.alternate_screen
            && m.mouse_alternate_scroll),
{
}

/// A fresh mirror has every mode off and an empty keyboard register.
pub proof fn fresh_mirrors_are_off()
    ensures
        ({
            let m = mirror_fresh();
            &&& !m.alternate_screen && !m.application_cursor && !m.bracketed_paste
            &&& !m.focus_reporting && !m.mouse_alternate_scroll && !m.synchronized_output
            &&& !m.modify_other_keys
            &&& m.mouse_mode == 0 && m.mouse_encoding == 0
            &&& m.kitty.flags == 0 && m.kitty.stack.len() == 0
            &&& m.wheel() is HostScroll
            &&& m.protocol() is Legacy
        }),
{
}

/// Mouse reporting is on exactly while a tracking mode is set, and then in that
/// mode.
pub proof fn reporting_follows_the_mode(m: InputMirror, r: Option<(u8, MouseProtocolEncoding)>)
    requires
        call_ensures(InputMirror::mouse_reporting, (&m,), r),
    ensures
        r is None <==> m.mouse_mode == 0,
        r matches Some((mode, encoding)) ==> mode == m.mouse_mode && (encoding is Utf8 <==>
            m.mouse_encoding == 1) && (encoding is Sgr <==> m.mouse_encoding == 2),
{
}

/// A wheel event is encoded from the second tracking mode on, as it is and in the
/// encoding in force; below that there is no report.
pub proof fn wheel_reports_need_their_mode<
    F: Fn(MouseEventKind, u16, u16, KeyModifiers, MouseProtocolEncoding) -> Option<Vec<u8>>,
>(
    m: InputMirror,
    kind: MouseEventKind,
    column: u16,
    row: u16,
    modifiers: KeyModifiers,
    encode: F,
    encoding: MouseProtocolEncoding,
    r: Option<Vec<u8>>,
)
    requires
        call_ensures(
            InputMirror::encode_mouse_wheel,
            (&m, kind, column, row, modifiers, encode),
            r,
        ),
        encoding is Utf8 <==> m.mouse_encoding == 1,
        encoding is Sgr <==> m.mouse_encoding == 2,
    ensures
        m.mouse_mode == 0 || m.mouse_mode == 1 ==> r is None,
        m.mouse_mode > 1 ==> call_ensures(encode, (kind, column, row, modifiers, encoding), r),
{
}

/// A bare motion is encoded in the fourth tracking mode alone.
pub proof fn motion_reports_need_their_mode<
    F: Fn(u16, u16, KeyModifiers, MouseProtocolEncoding) -> Option<Vec<u8>>,
>(
    m: InputMirror,
    kind: MouseEventKind,
    column: u16,
    row: u16,
    modifiers: KeyModifiers,
    encode: F,
    encoding: MouseProtocolEncoding,
    r: Option<Vec<u8>>,
)
    requires
        call_ensures(
            InputMirror::encode_mouse_motion,
            (&m, kind, column, row, modifiers, encode),
            r,
        ),
        encoding is Utf8 <==> m.mouse_encoding == 1,
        encoding is Sgr <==> m.mouse_encoding == 2,
    ensures
        m.mouse_mode != 4 || !(kind is Moved) ==> r is None,
        m.mouse_mode == 4 && kind is Moved ==> call_ensures(
            encode,
            (column, row, modifiers, encoding),
            r,
        ),
{
}

/// A button event is encoded where it stands, if its tracking mode reports it;
/// the first mode strips the modifiers, the others pass them on.
pub proof fn button_reports_need_their_mode<
    F: Fn(MouseEventKind, u16, u16, KeyModifiers, MouseProtocolEncoding) -> Option<Vec<u8>>,
>(
    m: InputMirror,
    kind: MouseEventKind,
    column: u16,
    row: u16,
    modifiers: KeyModifiers,
    encode: F,
    encoding: MouseProtocolEncoding,
    r: Option<Vec<u8>>,
)
    requires
        call_ensures(
            InputMirror::encode_mouse_button,
            (&m, kind, column, row, modifiers, encode),
            r,
        ),
        encoding is Utf8 <==> m.mouse_encoding == 1,
        encoding is Sgr <==> m.mouse_encoding == 2,
    ensures
        m.mouse_mode == 0 ==> r is None,
        kind is Up && m.mouse_mode < 2 ==> r is None,
        kind is Drag && m.mouse_mode < 3 ==> r is None,
        !(kind is Down || kind is Up || kind is Drag) ==> r is None,
        (kind is Down || kind is Up) && m.mouse_mode >= 2 || kind is Drag && m.mouse_mode >= 3
            ==> call_ensures(encode, (kind, column, row, modifiers, encoding), r),
        kind is Down && m.mouse_mode == 1 ==> call_ensures(
            encode,
            (
                kind,
                column,
                row,
                (KeyModifiers {
                    shift: false,
                    control: false,
                    alt: false,
                    super_key: false,
                    hyper: false,
                    meta: false,
                }),
                encoding,
            ),
            r,
        ),
{
}

/// A key the library does not report itself goes to the encoder as it is, with
/// the protocol given and the cursor-key mode in force. A modified Enter differs in
/// one byte from its fellows, and that byte names the modifiers held.
pub proof fn keys_are_encoded_as_they_are<
    F: Fn(TerminalKey, KeyboardProtocol, bool) -> Vec<u8>,
>(
    m: InputMirror,
    key: TerminalKey,
    protocol: KeyboardProtocol,
    encode: F,
    r: Vec<u8>,
)
    requires
        call_ensures(InputMirror::encode_terminal_key, (&m, key, protocol, encode), r),
    ensures
        !m.modify_other_keys || !(protocol is Legacy) || !(key.code is Enter) ==> call_ensures(
            encode,
            (key, protocol, m.application_cursor),
            r,
        ),
        !key.modifiers.shift && !key.modifiers.alt && !key.modifiers.control ==> call_ensures(
            encode,
            (key, protocol, m.application_cursor),
            r,
        ),
        m.modify_other_keys && protocol is Legacy && key.code is Enter && (key.modifiers.shift
            || key.modifiers.alt || key.modifiers.control) ==> ({
            let bits = r@[5] - 0x31;
            &&& r@.len() == 10
            &&& r@.take(5) == seq![27u8, '[' as u8, '2' as u8, '7' as u8, ';' as u8]
            &&& r@.skip(6) == seq![';' as u8, '1' as u8, '3' as u8, '~' as u8]
            &&& 0 < bits < 8
            &&& bits % 2 == 1 <==> key.modifiers.shift
            &&& (bits / 2) % 2 == 1 <==> key.modifiers.alt
            &&& (bits / 4) % 2 == 1 <==> key.modifiers.control
        }),
{
    modified_enters_name_their_modifiers(key.modifiers);
}

} // verus!
