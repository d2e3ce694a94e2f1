//! Keys, mouse events and the input protocols a program negotiates.

use vstd::prelude::*;

verus! {

/// A key.
#[derive(Debug, Clone, Copy, PartialEq, Eq, Structural)]
pub enum KeyCode {
    Backspace,
    Enter,
    Left,
    Right,
    Up,
    Down,
    Home,
    End,
    PageUp,
    PageDown,
    Tab,
    BackTab,
    Delete,
    Insert,
    F(u8),
    Char(char),
    Null,
    Esc,
    CapsLock,
    ScrollLock,
    NumLock,
    PrintScreen,
    Pause,
    Menu,
    KeypadBegin,
    /// A media key, by its position in the terminal library's list.
    Media(u8),
    /// A bare modifier key, by its position in the terminal library's list.
    Modifier(u8),
}

/// The modifier keys held during an event.
#[derive(Debug, Clone, Copy, PartialEq, Eq, Structural)]
pub struct KeyModifiers {
    pub shift: bool,
    pub control: bool,
    pub alt: bool,
    pub super_key: bool,
    pub hyper: bool,
    pub meta: bool,
}

impl KeyModifiers {
    /// No modifier is held.
    pub open spec fn is_none(self) -> bool {
        !self.shift && !self.control && !self.alt && !self.super_key && !self.hyper && !self.meta
    }

    /// The empty set.
    pub open spec fn none_held() -> KeyModifiers {
        KeyModifiers {
            shift: false,
            control: false,
            alt: false,
            super_key: false,
            hyper: false,
            meta: false,
        }
    }

    /// The empty set.
    pub fn empty() -> (r: Self)
        ensures
            r == KeyModifiers::none_held(),
    {
        KeyModifiers {
            shift: false,
            control: false,
            alt: false,
            super_key: false,
            hyper: false,
            meta: false,
        }
    }

    /// Whether no modifier is held.
    pub fn is_empty(&self) -> (r: bool)
        ensures
            r == self.is_none(),
    {
        !self.shift && !self.control && !self.alt && !self.super_key && !self.hyper && !self.meta
    }
}

/// A key press as the terminal reports it.
#[derive(Debug, Clone, Copy, PartialEq, Eq, Structural)]
pub struct TerminalKey {
    pub code: KeyCode,
    pub modifiers: KeyModifiers,
}

impl TerminalKey {
    pub fn new(code: KeyCode, modifiers: KeyModifiers) -> (r: Self)
        ensures
            r == (TerminalKey { code, modifiers }),
    {
        TerminalKey { code, modifiers }
    }
}

#[derive(Debug, Clone, Copy, PartialEq, Eq, Structural)]
pub enum MouseButton {
    Left,
    Right,
    Middle,
}

/// What the mouse did.
#[derive(Debug, Clone, Copy, PartialEq, Eq, Structural)]
pub enum MouseEventKind {
    Down(MouseButton),
    Up(MouseButton),
    Drag(MouseButton),
    Moved,
    ScrollDown,
    ScrollUp,
    ScrollLeft,
    ScrollRight,
}

/// How keys are encoded for the program.
#[derive(Debug, Clone, Copy, PartialEq, Eq, Structural)]
pub enum KeyboardProtocol {
    Legacy,
    Kitty { flags: u16 },
}

impl KeyboardProtocol {
    /// The protocol in force under the kitty flags: none set means legacy.
    pub open spec fn of_flags(flags: u16) -> KeyboardProtocol {
        if flags == 0 {
            KeyboardProtocol::Legacy
        } else {
            KeyboardProtocol::Kitty { flags }
        }
    }

    /// The protocol in force under the kitty flags: none set means legacy.
    pub fn from_kitty_flags(flags: u16) -> (r: KeyboardProtocol)
        ensures
            r == KeyboardProtocol::of_flags(flags),
    {
        if flags == 0 {
            KeyboardProtocol::Legacy
        } else {
            KeyboardProtocol::Kitty { flags }
        }
    }
}

/// Which mouse events the program asked for.
#[derive(Debug, Clone, Copy, PartialEq, Eq, Structural)]
pub enum MouseProtocolMode {
    Off,
    Press,
    PressRelease,
    ButtonMotion,
    AnyMotion,
}

impl MouseProtocolMode {
    /// Whether any mouse event is reported.
    pub fn reporting_enabled(self) -> (r: bool)
        ensures
            r == (self != MouseProtocolMode::Off),
    {
        match self {
            MouseProtocolMode::Off => false,
            _ => true,
        }
    }
}

/// How mouse reports are encoded.
#[derive(Debug, Clone, Copy, PartialEq, Eq, Structural)]
pub enum MouseProtocolEncoding {
    Default,
    Utf8,
    Sgr,
}

/// The legacy protocol is in force exactly while no kitty flag is set; otherwise
/// the flags are what the register says.
pub proof fn protocols_follow_the_flags(flags: u16)
    ensures
        KeyboardProtocol::of_flags(flags) is Legacy <==> flags == 0,
        KeyboardProtocol::of_flags(flags) matches KeyboardProtocol::Kitty { flags: f } ==> f
            == flags,
{
}

/// Every tracking mode but `Off` reports the mouse, and no modifier goes unseen.
pub proof fn modes_and_modifiers_are_seen(
    mode: MouseProtocolMode,
    on: bool,
    held: KeyModifiers,
    none: bool,
)
    requires
        call_ensures(MouseProtocolMode::reporting_enabled, (mode,), on),
        call_ensures(KeyModifiers::is_empty, (&held,), none),
    ensures
        on <==> mode is Press || mode is PressRelease || mode is ButtonMotion || mode is AnyMotion,
        held.shift || held.control || held.alt || held.super_key || held.hyper || held.meta
            <==> !none,
{
}

/// No modifier is held where none was given, and a key is what it was made of.
pub proof fn keys_hold_what_they_were_given(
    code: KeyCode,
    modifiers: KeyModifiers,
    key: TerminalKey,
    none: KeyModifiers,
)
    requires
        call_ensures(TerminalKey::new, (code, modifiers), key),
        call_ensures(KeyModifiers::empty, (), none),
    ensures
        key.code == code,
        key.modifiers == modifiers,
        !none.shift && !none.control && !none.alt && !none.super_key && !none.hyper && !none.meta,
{
}

} // verus!
