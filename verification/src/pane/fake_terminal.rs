//! A stand-in for the daemon's pane terminal: plain text, line discipline and a
//! deliberately small set of escape sequences over a wire-shaped grid. Modes and
//! encoders are those of the real [`InputMirror`].

use vstd::prelude::*;
use crate::kitty_keyboard;
use crate::pane::input_mirror;
use crate::pane::input_mirror::{InputMirror, MirrorView};
use crate::pane::screen;
use crate::pane::screen::{Modes, Screen, ScreenView};
use crate::pane::terminal::InputState;
use crate::pane::vt;
use crate::pane::vt::{VtToken, VtTokenView};
use crate::termhost::client::PaneInputModes;
use crate::text;

verus! {

/// Style bits of written cells, as the wire has them.
pub const BOLD: u16 = 1;

pub const ITALIC: u16 = 4;

pub const UNDERLINED: u16 = 8;

pub const REVERSED: u16 = 64;

/// The text `String::from_utf8_lossy` reads from bytes.
pub uninterp spec fn lossy_text(bytes: Seq<u8>) -> Seq<char>;

/// Calls `String::from_utf8_lossy`. Well-formed UTF-8 is read as it stands;
/// what stands for ill-formed bytes is left to the standard library.
#[verifier::external_body]
pub(crate) fn decode_lossy(bytes: &[u8]) -> (r: String)
    ensures
        r@ == lossy_text(bytes@),
        vstd::utf8::valid_utf8(bytes@) ==> r@ == vstd::utf8::decode_utf8(bytes@),
{
    String::from_utf8_lossy(bytes).into_owned()
}

/// A terminal double.
pub struct FakePaneTerminal {
    pub(crate) mirror: InputMirror,
    pub(crate) screen: Screen,
}

/// What a [`FakePaneTerminal`] holds.
#[verifier::ext_equal]
pub struct FakeView {
    pub mirror: MirrorView,
    pub screen: ScreenView,
}

impl View for FakePaneTerminal {
    type V = FakeView;

    open(crate) spec fn view(&self) -> FakeView {
        FakeView { mirror: self.mirror@, screen: self.screen@ }
    }
}

/// A double on which nothing was written.
pub open spec fn fake_fresh(cols: u16, rows: u16, limit: usize) -> FakeView {
    FakeView {
        mirror: input_mirror::mirror_fresh(),
        screen: screen::screen_fresh(
            screen::at_least_one(cols),
            screen::at_least_one(rows),
            limit,
        ),
    }
}

/// The parameter at `i`, or `default`.
pub open spec fn num(nums: Seq<u16>, i: int, default: u16) -> u16 {
    if i < nums.len() {
        nums[i]
    } else {
        default
    }
}

/// The parameter at `i` as a count: at least one.
pub open spec fn count(nums: Seq<u16>, i: int) -> u16 {
    screen::at_least_one(num(nums, i, 1))
}

fn num_at(nums: &Vec<u16>, i: usize, default: u16) -> (r: u16)
    ensures
        r == num(nums@, i as int, default),
{
    if i < nums.len() {
        nums[i]
    } else {
        default
    }
}

fn count_at(nums: &Vec<u16>, i: usize) -> (r: u16)
    ensures
        r == count(nums@, i as int),
        r >= 1,
{
    let n = num_at(nums, i, 1);
    if n == 0 {
        1
    } else {
        n
    }
}

/// The private modes that are understood.
pub open spec fn known_mode(mode: u16) -> bool {
    ||| mode == 1
    ||| mode == 9
    ||| mode == 12
    ||| mode == 25
    ||| mode == 47
    ||| mode == 1000
    ||| 1002 <= mode <= 1007
    ||| mode == 1016
    ||| 1047 <= mode <= 1049
    ||| mode == 2004
    ||| mode == 2026
}

fn is_known_mode(mode: u16) -> (r: bool)
    ensures
        r == known_mode(mode),
{
    mode == 1 || mode == 9 || mode == 12 || mode == 25 || mode == 47 || mode == 1000 || (1002
        <= mode && mode <= 1007) || mode == 1016 || (1047 <= mode && mode <= 1049) || mode == 2004
        || mode == 2026
}

fn all_known(modes: &Vec<u16>) -> (r: bool)
    ensures
        r == (forall|i: int| 0 <= i < modes@.len() ==> known_mode(#[trigger] modes@[i])),
{
    let mut i: usize = 0;
    while i < modes.len()
        invariant
            i <= modes.len(),
            forall|j: int| 0 <= j < i ==> known_mode(#[trigger] modes@[j]),
        decreases modes.len() - i,
    {
        if !is_known_mode(modes[i]) {
            assert(!known_mode(modes@[i as int]));
            return false;
        }
        i += 1;
    }
    true
}

/// The code a switched mode has: `on`, or 0 when it is switched off.
pub open spec fn switched(on: u8, set: bool) -> u8 {
    if set {
        on
    } else {
        0
    }
}

/// The modes after switching one that is a mode and nothing else.
pub open spec fn flag_applied(m: Modes, mode: u16, set: bool) -> Modes {
    if mode == 1 {
        Modes { application_cursor: set, ..m }
    } else if mode == 9 {
        Modes { mouse_mode: switched(input_mirror::MOUSE_MODE_X10, set), ..m }
    } else if mode == 1000 {
        Modes { mouse_mode: switched(input_mirror::MOUSE_MODE_PRESS_RELEASE, set), ..m }
    } else if mode == 1002 {
        Modes { mouse_mode: switched(input_mirror::MOUSE_MODE_BUTTON_MOTION, set), ..m }
    } else if mode == 1003 {
        Modes { mouse_mode: switched(input_mirror::MOUSE_MODE_ANY_MOTION, set), ..m }
    } else if mode == 1004 {
        Modes { focus_reporting: set, ..m }
    } else if mode == 1005 {
        Modes { mouse_encoding: switched(input_mirror::MOUSE_ENCODING_UTF8, set), ..m }
    } else if mode == 1006 || mode == 1016 {
        Modes { mouse_encoding: switched(input_mirror::MOUSE_ENCODING_SGR, set), ..m }
    } else if mode == 1007 {
        Modes { mouse_alternate_scroll: set, ..m }
    } else if mode == 2004 {
        Modes { bracketed_paste: set, ..m }
    } else if mode == 2026 {
        Modes { synchronized_output: set, ..m }
    } else {
        m
    }
}

/// The screen after switching a private mode on or off: the cursor's
/// visibility, the alternate screen, the saved cursor, or a plain mode.
pub open spec fn mode_applied(s: ScreenView, mode: u16, set: bool) -> ScreenView {
    if mode == 25 {
        ScreenView { cursor_visible: set, ..s }
    } else if mode == 47 || mode == 1047 {
        let t = ScreenView { modes: Modes { alternate_screen: set, ..s.modes }, ..s };
        if set {
            t.clear_active()
        } else {
            t
        }
    } else if mode == 1048 {
        if set {
            ScreenView { saved_cursor: (s.cur_row, s.cur_col), ..s }
        } else {
            ScreenView { cur_row: s.saved_cursor.0, cur_col: s.saved_cursor.1, ..s }
        }
    } else if mode == 1049 {
        let t = ScreenView { modes: Modes { alternate_screen: set, ..s.modes }, ..s };
        if set {
            ScreenView {
                saved_cursor: (s.cur_row, s.cur_col),
                cur_row: 0,
                cur_col: 0,
                ..t.clear_active()
            }
        } else {
            ScreenView { cur_row: s.saved_cursor.0, cur_col: s.saved_cursor.1, ..t }
        }
    } else {
        ScreenView { modes: flag_applied(s.modes, mode, set), ..s }
    }
}

/// The screen after switching several private modes, in order.
pub open spec fn modes_applied(s: ScreenView, modes: Seq<u16>, set: bool) -> ScreenView
    decreases modes.len(),
{
    if modes.len() == 0 {
        s
    } else {
        mode_applied(modes_applied(s, modes.drop_last(), set), modes.last(), set)
    }
}

fn switch(on: u8, set: bool) -> (r: u8)
    ensures
        r == switched(on, set),
{
    if set {
        on
    } else {
        0
    }
}

fn switch_flag(m: &mut Modes, mode: u16, set: bool)
    ensures
        *final(m) == flag_applied(*old(m), mode, set),
{
    if mode == 1 {
        m.application_cursor = set;
    } else if mode == 9 {
        m.mouse_mode = switch(input_mirror::MOUSE_MODE_X10, set);
    } else if mode == 1000 {
        m.mouse_mode = switch(input_mirror::MOUSE_MODE_PRESS_RELEASE, set);
    } else if mode == 1002 {
        m.mouse_mode = switch(input_mirror::MOUSE_MODE_BUTTON_MOTION, set);
    } else if mode == 1003 {
        m.mouse_mode = switch(input_mirror::MOUSE_MODE_ANY_MOTION, set);
    } else if mode == 1004 {
        m.focus_reporting = set;
    } else if mode == 1005 {
        m.mouse_encoding = switch(input_mirror::MOUSE_ENCODING_UTF8, set);
    } else if mode == 1006 || mode == 1016 {
        m.mouse_encoding = switch(input_mirror::MOUSE_ENCODING_SGR, set);
    } else if mode == 1007 {
        m.mouse_alternate_scroll = set;
    } else if mode == 2004 {
        m.bracketed_paste = set;
    } else if mode == 2026 {
        m.synchronized_output = set;
    }
}

fn apply_dec_mode(s: &mut Screen, mode: u16, set: bool)
    requires
        known_mode(mode),
    ensures
        final(s)@ == mode_applied(old(s)@, mode, set),
{
    if mode == 25 {
        s.cursor_visible = set;
    } else if mode == 47 || mode == 1047 {
        s.modes.alternate_screen = set;
        if set {
            s.clear_active();
        }
    } else if mode == 1048 {
        if set {
            s.saved_cursor = (s.cur_row, s.cur_col);
        } else {
            s.cur_row = s.saved_cursor.0;
            s.cur_col = s.saved_cursor.1;
        }
    } else if mode == 1049 {
        if set {
            s.saved_cursor = (s.cur_row, s.cur_col);
            s.modes.alternate_screen = true;
            s.clear_active();
            s.cur_row = 0;
            s.cur_col = 0;
        } else {
            s.modes.alternate_screen = false;
            s.cur_row = s.saved_cursor.0;
            s.cur_col = s.saved_cursor.1;
        }
    } else {
        switch_flag(&mut s.modes, mode, set);
    }
}

/// Colours and style bits.
pub struct Style {
    pub fg: u32,
    pub bg: u32,
    pub modifier: u16,
}

/// The colour of an extended colour parameter at `i`, and how many further
/// parameters it takes: `5;n` is a palette index, `2;r;g;b` an RGB triple, and
/// anything else the default.
pub open spec fn extended_color(nums: Seq<u16>, i: int) -> (u32, int) {
    if i + 1 < nums.len() && nums[i + 1] == 5 {
        (0x01_00_00_00u32 | num(nums, i + 2, 0) as u32, 2)
    } else if i + 1 < nums.len() && nums[i + 1] == 2 {
        (
            0x02_00_00_00u32 | ((num(nums, i + 2, 0) as u32) << 16u32) | ((num(
                nums,
                i + 3,
                0,
            ) as u32) << 8u32) | num(nums, i + 4, 0) as u32,
            4,
        )
    } else {
        (0, 0)
    }
}

/// The style after the parameters from `i` on. Unknown ones are ignored.
pub open spec fn styled(st: Style, nums: Seq<u16>, i: int) -> Style
    decreases
            if i < nums.len() {
                nums.len() - i
            } else {
                0
            },
{
    if i < 0 || i >= nums.len() {
        st
    } else {
        let n = nums[i];
        if n == 38 || n == 48 {
            let (color, taken) = extended_color(nums, i);
            if n == 38 {
                styled(Style { fg: color, ..st }, nums, i + taken + 1)
            } else {
                styled(Style { bg: color, ..st }, nums, i + taken + 1)
            }
        } else {
            styled(style_applied(st, n), nums, i + 1)
        }
    }
}

/// The style after one plain parameter.
pub open spec fn style_applied(st: Style, n: u16) -> Style {
    if n == 0 {
        Style { fg: 0, bg: 0, modifier: 0 }
    } else if n == 1 {
        Style { modifier: st.modifier | BOLD, ..st }
    } else if n == 3 {
        Style { modifier: st.modifier | ITALIC, ..st }
    } else if n == 4 {
        Style { modifier: st.modifier | UNDERLINED, ..st }
    } else if n == 7 {
        Style { modifier: st.modifier | REVERSED, ..st }
    } else if 30 <= n <= 37 {
        Style { fg: (n - 29) as u32, ..st }
    } else if n == 39 {
        Style { fg: 0, ..st }
    } else if 40 <= n <= 47 {
        Style { bg: (n - 39) as u32, ..st }
    } else if n == 49 {
        Style { bg: 0, ..st }
    } else {
        st
    }
}

/// The screen after a style sequence. One without parameters resets the style.
pub open spec fn sgr_applied(s: ScreenView, nums: Seq<u16>) -> ScreenView {
    let st = if nums.len() == 0 {
        Style { fg: 0, bg: 0, modifier: 0 }
    } else {
        styled(Style { fg: s.fg, bg: s.bg, modifier: s.modifier }, nums, 0)
    };
    ScreenView { fg: st.fg, bg: st.bg, modifier: st.modifier, ..s }
}

fn apply_sgr(s: &mut Screen, nums: &Vec<u16>)
    ensures
        final(s)@ == sgr_applied(old(s)@, nums@),
{
    if nums.len() == 0 {
        s.fg = 0;
        s.bg = 0;
        s.modifier = 0;
        return;
    }
    let ghost whole = styled(Style { fg: s.fg, bg: s.bg, modifier: s.modifier }, nums@, 0);
    let mut i: usize = 0;
    while i < nums.len()
        invariant
            styled(Style { fg: s.fg, bg: s.bg, modifier: s.modifier }, nums@, i as int) == whole,
            s@ == (ScreenView { fg: s.fg, bg: s.bg, modifier: s.modifier, ..old(s)@ }),
        decreases nums.len() - i,
    {
        let n = nums[i];
        let mut taken: usize = 0;
        if n == 38 || n == 48 {
            let left = nums.len() - i;
            let value: u32 = if left > 1 && nums[i + 1] == 5 {
                taken = 2;
                let idx: u32 = if left > 2 {
                    nums[i + 2] as u32
                } else {
                    0
                };
                0x01_00_00_00u32 | idx
            } else if left > 1 && nums[i + 1] == 2 {
                taken = 4;
                let r: u32 = if left > 2 {
                    nums[i + 2] as u32
                } else {
                    0
                };
                let g: u32 = if left > 3 {
                    nums[i + 3] as u32
                } else {
                    0
                };
                let b: u32 = if left > 4 {
                    nums[i + 4] as u32
                } else {
                    0
                };
                0x02_00_00_00u32 | (r << 16u32) | (g << 8u32) | b
            } else {
                0
            };
            assert((value, taken as int) == extended_color(nums@, i as int));
            if n == 38 {
                s.fg = value;
            } else {
                s.bg = value;
            }
            if left <= taken + 1 {
                assert(styled(
                    Style { fg: s.fg, bg: s.bg, modifier: s.modifier },
                    nums@,
                    i + taken + 1,
                ) == Style { fg: s.fg, bg: s.bg, modifier: s.modifier });
                i = nums.len();
            } else {
                i = i + taken + 1;
            }
        } else {
            if n == 0 {
                s.fg = 0;
                s.bg = 0;
                s.modifier = 0;
            } else if n == 1 {
                s.modifier = s.modifier | BOLD;
            } else if n == 3 {
                s.modifier = s.modifier | ITALIC;
            } else if n == 4 {
                s.modifier = s.modifier | UNDERLINED;
            } else if n == 7 {
                s.modifier = s.modifier | REVERSED;
            } else if 30 <= n && n <= 37 {
                s.fg = (n - 30 + 1) as u32;
            } else if n == 39 {
                s.fg = 0;
            } else if 40 <= n && n <= 47 {
                s.bg = (n - 40 + 1) as u32;
            } else if n == 49 {
                s.bg = 0;
            }
            i += 1;
        }
    }
}

/// The text after the first separator; empty where there is none.
pub open spec fn after_first(s: Seq<char>, sep: char) -> Seq<char>
    decreases s.len(),
{
    if s.len() == 0 {
        s
    } else if s[0] == sep {
        s.skip(1)
    } else {
        after_first(s.skip(1), sep)
    }
}

/// The screen after an operating system command. Only links (`8;params;uri`)
/// matter; an empty URI closes the link.
pub open spec fn osc_applied(s: ScreenView, body: Seq<char>) -> ScreenView {
    if body.len() >= 2 && body[0] == '8' && body[1] == ';' {
        let uri = after_first(body.skip(2), ';');
        ScreenView {
            hyperlink: if uri.len() == 0 {
                None
            } else {
                Some(uri)
            },
            ..s
        }
    } else {
        s
    }
}

fn apply_osc(s: &mut Screen, body: &Vec<char>)
    ensures
        final(s)@ == osc_applied(old(s)@, body@),
{
    if body.len() < 2 || body[0] != '8' || body[1] != ';' {
        return;
    }
    let mut i: usize = 2;
    while i < body.len() && body[i] != ';'
        invariant
            2 <= i <= body.len(),
            after_first(body@.skip(i as int), ';') == after_first(body@.skip(2), ';'),
        decreases body.len() - i,
    {
        assert(body@.skip(i as int).skip(1) =~= body@.skip(i + 1));
        i += 1;
    }
    let ghost uri = after_first(body@.skip(2), ';');
    if i < body.len() {
        i += 1;
        assert(body@.skip(i - 1).skip(1) =~= body@.skip(i as int));
    }
    assert(uri =~= body@.skip(i as int));
    if i == body.len() {
        s.hyperlink = None;
        return;
    }
    let mut out: Vec<char> = Vec::new();
    let ghost start = i as int;
    while i < body.len()
        invariant
            0 <= start <= i <= body.len(),
            out@ == body@.subrange(start, i as int),
        decreases body.len() - i,
    {
        out.push(body[i]);
        i += 1;
        assert(out@ =~= body@.subrange(start, i as int));
    }
    assert(out@ =~= uri);
    s.hyperlink = Some(text::string_of(&out));
}

/// The control sequences that are understood.
pub open spec fn known_csi(prefix: Option<char>, params: Seq<char>, space: bool, fin: char) -> bool {
    match prefix {
        Some(p) => !space && (fin == 'u' && (p == '>' || p == '=' || p == '<') || fin == 'm' && p
            == '>' || (fin == 'h' || fin == 'l') && p == '?' && forall|i: int|
            0 <= i < vt::numbers(params).len() ==> known_mode(#[trigger] vt::numbers(params)[i])),
        None => if space {
            fin == 'q'
        } else {
            fin == 'm' || fin == 'H' || fin == 'f' || fin == 'A' || fin == 'B' || fin == 'C' || fin
                == 'D' || fin == 'J' || fin == 'K'
        },
    }
}

/// A control sequence written out again.
pub open spec fn csi_text(prefix: char, params: Seq<char>, fin: char) -> Seq<char> {
    seq![vt::ESC, '[', prefix] + params + seq![fin]
}

/// The double after a control sequence that is understood.
pub open spec fn csi_applied(
    f: FakeView,
    prefix: Option<char>,
    params: Seq<char>,
    space: bool,
    fin: char,
) -> FakeView {
    let nums = vt::numbers(params);
    let s = f.screen;
    match prefix {
        Some(p) => if fin == 'u' {
            FakeView {
                mirror: MirrorView {
                    kitty: kitty_keyboard::observed(
                        f.mirror.kitty,
                        kitty_keyboard::byte_chars(
                            vstd::utf8::encode_utf8(csi_text(p, params, fin)),
                        ),
                        0,
                    ),
                    ..f.mirror
                },
                ..f
            }
        } else if fin == 'm' {
            if nums.len() > 0 && nums[0] == 4 {
                FakeView {
                    screen: ScreenView {
                        modes: Modes { modify_other_keys: num(nums, 1, 0) > 0, ..s.modes },
                        ..s
                    },
                    ..f
                }
            } else {
                f
            }
        } else {
            FakeView { screen: modes_applied(s, nums, fin == 'h'), ..f }
        },
        None => FakeView {
            screen: if fin == 'q' {
                ScreenView { cursor_shape: num(nums, 0, 0) as u8, ..s }
            } else if fin == 'm' {
                sgr_applied(s, nums)
            } else if fin == 'H' || fin == 'f' {
                ScreenView {
                    cur_row: screen::capped(count(nums, 0) - 1, s.rows - 1),
                    cur_col: screen::capped(count(nums, 1) - 1, s.cols - 1),
                    ..s
                }
            } else if fin == 'A' {
                ScreenView { cur_row: back(s.cur_row, count(nums, 0)), ..s }
            } else if fin == 'B' {
                ScreenView {
                    cur_row: screen::capped(s.cur_row + count(nums, 0), s.rows - 1),
                    ..s
                }
            } else if fin == 'C' {
                ScreenView {
                    cur_col: screen::capped(s.cur_col + count(nums, 0), s.cols - 1),
                    ..s
                }
            } else if fin == 'D' {
                ScreenView { cur_col: back(s.cur_col, count(nums, 0)), ..s }
            } else if fin == 'J' {
                s.clear_active()
            } else {
                s.with_active(
                    screen::grid_erased(s.active(), s.cur_row as int, s.cur_col as int),
                )
            },
            ..f
        },
    }
}

/// A position moved back by `n`, no further than the first one.
pub open spec fn back(pos: u16, n: u16) -> u16 {
    if n <= pos {
        (pos - n) as u16
    } else {
        0
    }
}

fn backward(pos: u16, n: u16) -> (r: u16)
    ensures
        r == back(pos, n),
{
    if n <= pos {
        pos - n
    } else {
        0
    }
}

/// The screen after a character that is no part of a sequence: carriage return,
/// line feed, backspace, bell and tab move the cursor or do nothing, every other
/// one is written.
pub open spec fn plain_applied(s: ScreenView, c: char) -> ScreenView {
    if c == '\r' {
        ScreenView { cur_col: 0, ..s }
    } else if c == '\n' {
        s.newline(false)
    } else if c == '\u{8}' {
        ScreenView { cur_col: back(s.cur_col, 1), ..s }
    } else if c == vt::BEL {
        s
    } else if c == '\t' {
        ScreenView { cur_col: screen::capped((s.cur_col / 8 + 1) * 8, s.cols - 1), ..s }
    } else {
        s.put_char(c)
    }
}

/// The pieces of output that are understood.
pub open spec fn known_token(t: VtTokenView) -> bool {
    match t {
        VtTokenView::Csi { prefix, params, space, fin } => known_csi(prefix, params, space, fin),
        VtTokenView::OpenCsi => false,
        VtTokenView::Osc(_) => true,
        VtTokenView::BadEscape => false,
        VtTokenView::Plain(_) => true,
    }
}

/// The double after one piece of output that is understood.
pub open spec fn token_applied(f: FakeView, t: VtTokenView) -> FakeView {
    match t {
        VtTokenView::Csi { prefix, params, space, fin } => csi_applied(
            f,
            prefix,
            params,
            space,
            fin,
        ),
        VtTokenView::Osc(body) => FakeView { screen: osc_applied(f.screen, body), ..f },
        VtTokenView::Plain(c) => FakeView { screen: plain_applied(f.screen, c), ..f },
        _ => f,
    }
}

/// The text from `i` on holds nothing but what is understood.
pub open spec fn accepted(s: Seq<char>, i: int) -> bool
    decreases s.len() - i,
{
    if 0 <= i < s.len() {
        let (t, next) = vt::token_at(s, i);
        known_token(t) && (i < next <= s.len() ==> accepted(s, next))
    } else {
        true
    }
}

/// The double after the pieces of output from `i` on.
pub open spec fn written(f: FakeView, s: Seq<char>, i: int) -> FakeView
    decreases s.len() - i,
{
    if 0 <= i < s.len() {
        let (t, next) = vt::token_at(s, i);
        if i < next <= s.len() {
            written(token_applied(f, t), s, next)
        } else {
            f
        }
    } else {
        f
    }
}

/// A screen's modes as the layers above read them.
pub open spec fn modes_state(m: Modes) -> InputState {
    InputState {
        alternate_screen: m.alternate_screen,
        application_cursor: m.application_cursor,
        bracketed_paste: m.bracketed_paste,
        focus_reporting: m.focus_reporting,
        mouse_protocol_mode: input_mirror::mode_of(m.mouse_mode),
        mouse_protocol_encoding: input_mirror::encoding_of(m.mouse_encoding),
        mouse_alternate_scroll: m.mouse_alternate_scroll,
        modify_other_keys: m.modify_other_keys,
    }
}

impl FakeView {
    /// The double with the screen's modes carried over to the mirror.
    pub open spec fn synced(self) -> FakeView {
        FakeView {
            mirror: MirrorView {
                synchronized_output: self.screen.modes.synchronized_output,
                ..self.mirror.seeded(modes_state(self.screen.modes))
            },
            ..self
        }
    }

    /// The double after a chunk of output.
    pub open spec fn fed(self, s: Seq<char>) -> FakeView {
        let f = written(self, s, 0);
        FakeView { screen: ScreenView { dirty: true, ..f.screen }, ..f }.synced()
    }

    /// The double after the daemon reported modes.
    pub open spec fn reported(self, modes: PaneInputModes) -> FakeView {
        FakeView {
            mirror: self.mirror.reported(modes),
            screen: ScreenView {
                modes: Modes {
                    alternate_screen: modes.alternate_screen,
                    application_cursor: modes.application_cursor,
                    bracketed_paste: modes.bracketed_paste,
                    focus_reporting: modes.focus_reporting,
                    mouse_mode: modes.mouse_mode,
                    mouse_encoding: modes.mouse_encoding,
                    mouse_alternate_scroll: modes.mouse_alternate_scroll,
                    synchronized_output: modes.synchronized_output,
                    modify_other_keys: modes.modify_other_keys,
                },
                ..self.screen
            },
        }
    }
}

proof fn modes_keep_sizes(s: ScreenView, nums: Seq<u16>, set: bool)
    requires
        s.wf(),
    ensures
        modes_applied(s, nums, set).wf(),
    decreases nums.len(),
{
    if nums.len() > 0 {
        modes_keep_sizes(s, nums.drop_last(), set);
        screen::grids_keep_their_size(
            modes_applied(s, nums.drop_last(), set),
            false,
            ' ',
            1,
            1,
        );
    }
}

proof fn tokens_keep_sizes(f: FakeView, t: VtTokenView)
    requires
        f.screen.wf(),
    ensures
        token_applied(f, t).screen.wf(),
{
    match t {
        VtTokenView::Csi { prefix, params, space, fin } => {
            modes_keep_sizes(f.screen, vt::numbers(params), fin == 'h');
            screen::grids_keep_their_size(f.screen, false, ' ', 1, 1);
        },
        VtTokenView::Plain(c) => {
            screen::grids_keep_their_size(f.screen, false, c, 1, 1);
        },
        _ => {},
    }
}

impl FakePaneTerminal {
    /// A double on which nothing was written; at least one row and one column.
    pub fn new(cols: u16, rows: u16, scrollback_limit_bytes: usize) -> (r: Self)
        ensures
            r@ == fake_fresh(cols, rows, scrollback_limit_bytes),
            r@.screen.wf(),
    {
        let cols: u16 = if cols == 0 {
            1
        } else {
            cols
        };
        let rows: u16 = if rows == 0 {
            1
        } else {
            rows
        };
        FakePaneTerminal {
            mirror: InputMirror::new(),
            screen: Screen::new(cols, rows, scrollback_limit_bytes),
        }
    }

    /// Whether a text holds nothing but what is understood.
    pub fn accepts(s: &Vec<char>) -> (r: bool)
        ensures
            r == accepted(s@, 0),
    {
        let mut i: usize = 0;
        while i < s.len()
            invariant
                i <= s.len(),
                accepted(s@, i as int) == accepted(s@, 0),
            decreases s.len() - i,
        {
            let (token, next) = vt::read_token(s, i);
            proof {
                vt::csi_params_are_numeric(s@, i as int);
            }
            if !Self::understands(&token) {
                return false;
            }
            i = next;
        }
        true
    }

    fn understands(token: &VtToken) -> (r: bool)
        requires
            token@ matches VtTokenView::Csi { params, .. } ==> vt::all_params(params),
        ensures
            r == known_token(token@),
    {
        match token {
            VtToken::Csi { prefix, params, space, fin } => {
                match prefix {
                    Some(p) => {
                        if *space {
                            return false;
                        }
                        if *fin == 'u' {
                            return *p == '>' || *p == '=' || *p == '<';
                        }
                        if *fin == 'm' {
                            return *p == '>';
                        }
                        if *p != '?' || !(*fin == 'h' || *fin == 'l') {
                            return false;
                        }
                        all_known(&vt::read_numbers(params))
                    },
                    None => {
                        if *space {
                            *fin == 'q'
                        } else {
                            *fin == 'm' || *fin == 'H' || *fin == 'f' || *fin == 'A' || *fin == 'B'
                                || *fin == 'C' || *fin == 'D' || *fin == 'J' || *fin == 'K'
                        }
                    },
                }
            },
            VtToken::OpenCsi => false,
            VtToken::Osc(_) => true,
            VtToken::BadEscape => false,
            VtToken::Plain(_) => true,
        }
    }

    fn apply_csi(&mut self, prefix: Option<char>, params: &Vec<char>, space: bool, fin: char)
        requires
            old(self)@.screen.wf(),
            known_csi(prefix, params@, space, fin),
            vt::all_params(params@),
        ensures
            final(self)@ == csi_applied(old(self)@, prefix, params@, space, fin),
    {
        let nums = vt::read_numbers(params);
        match prefix {
            Some(p) => {
                if fin == 'u' {
                    self.replay_keyboard(p, params);
                } else if fin == 'm' {
                    if nums.len() > 0 && nums[0] == 4 {
                        self.screen.modes.modify_other_keys = num_at(&nums, 1, 0) > 0;
                    }
                } else {
                    self.switch_modes(&nums, fin == 'h');
                }
            },
            None => {
                if fin == 'q' {
                    self.screen.cursor_shape = #[verifier::truncate]
                    (num_at(&nums, 0, 0) as u8);
                } else if fin == 'm' {
                    apply_sgr(&mut self.screen, &nums);
                } else if fin == 'H' || fin == 'f' {
                    self.screen.cur_row = screen::forward(
                        count_at(&nums, 0) - 1,
                        0,
                        self.screen.rows,
                    );
                    self.screen.cur_col = screen::forward(
                        count_at(&nums, 1) - 1,
                        0,
                        self.screen.cols,
                    );
                } else if fin == 'A' {
                    self.screen.cur_row = backward(self.screen.cur_row, count_at(&nums, 0));
                } else if fin == 'B' {
                    self.screen.cur_row = screen::forward(
                        self.screen.cur_row,
                        count_at(&nums, 0),
                        self.screen.rows,
                    );
                } else if fin == 'C' {
                    self.screen.cur_col = screen::forward(
                        self.screen.cur_col,
                        count_at(&nums, 0),
                        self.screen.cols,
                    );
                } else if fin == 'D' {
                    self.screen.cur_col = backward(self.screen.cur_col, count_at(&nums, 0));
                } else if fin == 'J' {
                    self.screen.clear_active();
                } else {
                    self.screen.erase_to_end_of_row();
                }
            },
        }
    }

    fn replay_keyboard(&mut self, prefix: char, params: &Vec<char>)
        ensures
            final(self)@ == csi_applied(old(self)@, Some(prefix), params@, false, 'u'),
    {
        let mut seq: Vec<char> = vec![vt::ESC, '[', prefix];
        let mut i: usize = 0;
        let ghost head = seq@;
        while i < params.len()
            invariant
                i <= params.len(),
                seq@ == head + params@.take(i as int),
            decreases params.len() - i,
        {
            seq.push(params[i]);
            i += 1;
            assert(seq@ =~= head + params@.take(i as int));
        }
        seq.push('u');
        assert(seq@ =~= csi_text(prefix, params@, 'u'));
        let ansi = text::string_of(&seq);
        self.mirror.seed_keyboard_protocol_ansi(ansi.as_str());
    }

    fn switch_modes(&mut self, nums: &Vec<u16>, set: bool)
        requires
            forall|i: int| 0 <= i < nums@.len() ==> known_mode(#[trigger] nums@[i]),
        ensures
            final(self)@ == (FakeView {
                screen: modes_applied(old(self)@.screen, nums@, set),
                ..old(self)@
            }),
    {
        let mut i: usize = 0;
        assert(nums@.take(0) =~= Seq::<u16>::empty());
        while i < nums.len()
            invariant
                i <= nums.len(),
                forall|i: int| 0 <= i < nums@.len() ==> known_mode(#[trigger] nums@[i]),
                self@ == (FakeView {
                    screen: modes_applied(old(self)@.screen, nums@.take(i as int), set),
                    ..old(self)@
                }),
            decreases nums.len() - i,
        {
            assert(nums@.take(i + 1).drop_last() =~= nums@.take(i as int));
            apply_dec_mode(&mut self.screen, nums[i], set);
            i += 1;
        }
        assert(nums@.take(i as int) =~= nums@);
    }

    fn apply_plain(&mut self, c: char)
        requires
            old(self)@.screen.wf(),
        ensures
            final(self)@ == (FakeView {
                screen: plain_applied(old(self)@.screen, c),
                ..old(self)@
            }),
    {
        if c == '\r' {
            self.screen.cur_col = 0;
        } else if c == '\n' {
            self.screen.newline(false);
        } else if c == '\u{8}' {
            self.screen.cur_col = backward(self.screen.cur_col, 1);
        } else if c == '\t' {
            let stop: u32 = (self.screen.cur_col as u32 / 8 + 1) * 8;
            let last = self.screen.cols - 1;
            self.screen.cur_col = if stop <= last as u32 {
                stop as u16
            } else {
                last
            };
        } else if c != vt::BEL {
            self.screen.put_char(c);
        }
    }

    /// Writes a text that holds nothing but what is understood.
    pub fn feed_chars(&mut self, s: &Vec<char>)
        requires
            old(self)@.screen.wf(),
            accepted(s@, 0),
        ensures
            final(self)@ == old(self)@.fed(s@),
            final(self)@.screen.wf(),
    {
        let mut i: usize = 0;
        while i < s.len()
            invariant
                i <= s.len(),
                self@.screen.wf(),
                accepted(s@, i as int),
                written(self@, s@, i as int) == written(old(self)@, s@, 0),
            decreases s.len() - i,
        {
            let (token, next) = vt::read_token(s, i);
            proof {
                vt::csi_params_are_numeric(s@, i as int);
                tokens_keep_sizes(self@, token@);
            }
            match token {
                VtToken::Csi { prefix, params, space, fin } => {
                    self.apply_csi(prefix, &params, space, fin);
                },
                VtToken::Osc(body) => {
                    apply_osc(&mut self.screen, &body);
                },
                VtToken::Plain(c) => {
                    self.apply_plain(c);
                },
                _ => {},
            }
            i = next;
        }
        self.screen.dirty = true;
        self.sync_mirror();
    }

    /// Reads a chunk of output as the daemon's emulator would. The chunk holds
    /// nothing but what is understood.
    pub fn feed(&mut self, bytes: &[u8])
        requires
            old(self)@.screen.wf(),
            accepted(lossy_text(bytes@), 0),
        ensures
            final(self)@ == old(self)@.fed(lossy_text(bytes@)),
            final(self)@.screen.wf(),
    {
        let text = decode_lossy(bytes);
        self.feed_chars(&text::chars_of(text.as_str()));
    }

    /// Whether a chunk holds nothing but what is understood.
    pub fn accepts_bytes(bytes: &[u8]) -> (r: bool)
        ensures
            r == accepted(lossy_text(bytes@), 0),
            vstd::utf8::valid_utf8(bytes@) ==> lossy_text(bytes@) == vstd::utf8::decode_utf8(
                bytes@,
            ),
    {
        let text = decode_lossy(bytes);
        Self::accepts(&text::chars_of(text.as_str()))
    }

    /// Reads a chunk of output if it holds nothing but what is understood, and
    /// says whether it did.
    pub fn try_feed(&mut self, bytes: &[u8]) -> (r: bool)
        requires
            old(self)@.screen.wf(),
        ensures
            r == accepted(lossy_text(bytes@), 0),
            final(self)@ == (if r {
                old(self)@.fed(lossy_text(bytes@))
            } else {
                old(self)@
            }),
            final(self)@.screen.wf(),
    {
        let accepted = Self::accepts_bytes(bytes);
        if accepted {
            self.feed(bytes);
        }
        accepted
    }

    fn sync_mirror(&mut self)
        ensures
            final(self)@ == old(self)@.synced(),
    {
        let modes = self.screen.modes;
        self.mirror.seed_handoff_input_state(
            InputState {
                alternate_screen: modes.alternate_screen,
                application_cursor: modes.application_cursor,
                bracketed_paste: modes.bracketed_paste,
                focus_reporting: modes.focus_reporting,
                mouse_protocol_mode: input_mirror::mouse_protocol_mode(modes.mouse_mode),
                mouse_protocol_encoding: input_mirror::mouse_protocol_encoding(
                    modes.mouse_encoding,
                ),
                mouse_alternate_scroll: modes.mouse_alternate_scroll,
                modify_other_keys: modes.modify_other_keys,
            },
        );
        self.mirror.set_synchronized_output(modes.synchronized_output);
    }

    /// The mirror that answers mode and encoder queries.
    pub fn mirror(&self) -> (r: &InputMirror)
        ensures
            r@ == self@.mirror,
    {
        &self.mirror
    }

    /// Adopts modes the daemon reported, as a live pane does.
    pub fn apply_input_modes(&mut self, modes: &PaneInputModes)
        ensures
            final(self)@ == old(self)@.reported(*modes),
            old(self)@.screen.wf() ==> final(self)@.screen.wf(),
    {
        self.screen.modes = Modes {
            alternate_screen: modes.alternate_screen,
            application_cursor: modes.application_cursor,
            bracketed_paste: modes.bracketed_paste,
            focus_reporting: modes.focus_reporting,
            mouse_mode: modes.mouse_mode,
            mouse_encoding: modes.mouse_encoding,
            mouse_alternate_scroll: modes.mouse_alternate_scroll,
            synchronized_output: modes.synchronized_output,
            modify_other_keys: modes.modify_other_keys,
        };
        self.mirror.apply_input_modes(modes);
    }

    /// Brings the screen to a size.
    pub fn resize(&mut self, rows: u16, cols: u16)
        ensures
            final(self)@ == (FakeView {
                screen: old(self)@.screen.resized(rows, cols),
                ..old(self)@
            }).synced(),
            final(self)@.screen.wf(),
    {
        proof {
            screen::grids_keep_their_size(self.screen@, false, ' ', rows, cols);
        }
        self.screen.resize(rows, cols);
        self.sync_mirror();
    }
}

/// What each private mode switches: application cursor keys, the mouse's tracking
/// mode and encoding, focus reports, alternate scrolling, bracketed paste and held
/// output, each its own switch and no other.
pub proof fn modes_switch_their_own(m: Modes, set: bool)
    ensures
        flag_applied(m, 1, set) == (Modes { application_cursor: set, ..m }),
        flag_applied(m, 1004, set) == (Modes { focus_reporting: set, ..m }),
        flag_applied(m, 1007, set) == (Modes { mouse_alternate_scroll: set, ..m }),
        flag_applied(m, 2004, set) == (Modes { bracketed_paste: set, ..m }),
        flag_applied(m, 2026, set) == (Modes { synchronized_output: set, ..m }),
        flag_applied(m, 9, true) == (Modes { mouse_mode: 1, ..m }),
        flag_applied(m, 1000, true) == (Modes { mouse_mode: 2, ..m }),
        flag_applied(m, 1002, true) == (Modes { mouse_mode: 3, ..m }),
        flag_applied(m, 1003, true) == (Modes { mouse_mode: 4, ..m }),
        flag_applied(m, 1005, true) == (Modes { mouse_encoding: 1, ..m }),
        flag_applied(m, 1006, true) == (Modes { mouse_encoding: 2, ..m }),
        flag_applied(m, 1016, true) == (Modes { mouse_encoding: 2, ..m }),
        forall|mode: u16|
            mode == 9 || mode == 1000 || mode == 1002 || mode == 1003 ==> #[trigger] flag_applied(
                m,
                mode,
                false,
            ) == (Modes { mouse_mode: 0, ..m }),
        forall|mode: u16|
            mode == 1005 || mode == 1006 || mode == 1016 ==> #[trigger] flag_applied(m, mode, false)
                == (Modes { mouse_encoding: 0, ..m }),
{
}

/// Modes are switched in the order given: the last one last.
pub proof fn modes_are_switched_in_order(s: ScreenView, a: Seq<u16>, mode: u16, set: bool)
    ensures
        modes_applied(s, a.push(mode), set) == mode_applied(modes_applied(s, a, set), mode, set),
        modes_applied(s, Seq::empty(), set) == s,
        mode == 1 || mode == 9 || mode == 1000 || 1002 <= mode <= 1007 || mode == 1016 || mode
            == 2004 || mode == 2026 ==> mode_applied(s, mode, set) == (ScreenView {
            modes: flag_applied(s.modes, mode, set),
            ..s
        }),
        mode_applied(s, 25, set) == (ScreenView { cursor_visible: set, ..s }),
        mode_applied(s, 12, set) == s,
{
    assert(a.push(mode).drop_last() =~= a);
}

/// Entering the alternate screen shows it blank and keeps the primary one; leaving
/// it shows that again. The mode that saves the cursor puts it into the corner on
/// the way in and back where it was on the way out.
pub proof fn alternate_screens_come_and_go(s: ScreenView, mode: u16)
    requires
        mode == 47 || mode == 1047 || mode == 1049,
    ensures
        ({
            let there = mode_applied(s, mode, true);
            let back_again = mode_applied(there, mode, false);
            &&& there.modes.alternate_screen
            &&& there.alt == screen::grid_blank(s.cols, s.rows)
            &&& there.primary == s.primary && there.scrollback == s.scrollback
            &&& mode == 1049 ==> there.cur_row == 0 && there.cur_col == 0
            &&& mode != 1049 ==> there.cur_row == s.cur_row && there.cur_col == s.cur_col
            &&& !back_again.modes.alternate_screen
            &&& back_again.primary == s.primary
            &&& back_again.cur_row == s.cur_row && back_again.cur_col == s.cur_col
            &&& there.fg == s.fg && there.bg == s.bg && there.modifier == s.modifier
        }),
{
}

/// A saved cursor is where a restored one goes.
pub proof fn saved_cursors_are_restored(s: ScreenView, moved: ScreenView)
    requires
        moved.saved_cursor == mode_applied(s, 1048, true).saved_cursor,
    ensures
        mode_applied(s, 1048, true).cur_row == s.cur_row,
        mode_applied(s, 1048, true).cur_col == s.cur_col,
        mode_applied(moved, 1048, false).cur_row == s.cur_row,
        mode_applied(moved, 1048, false).cur_col == s.cur_col,
        mode_applied(moved, 1048, false).modes == moved.modes,
        mode_applied(moved, 1048, false).primary == moved.primary,
{
}

/// What a style number does: zero resets everything, 30 to 37 and 40 to 47 set the
/// foreground and the background to one of eight colours, 39 and 49 to the default,
/// and 1, 3, 4 and 7 add bold, italic, underline and reverse to what is there.
pub proof fn styles_are_set_by_number(st: Style, n: u16, i: u16)
    requires
        i < 16,
    ensures
        ({
            let r = style_applied(st, n);
            let was = (st.modifier >> i) & 1 == 1;
            let is = (r.modifier >> i) & 1 == 1;
            &&& n == 0 ==> r.fg == 0 && r.bg == 0 && r.modifier == 0
            &&& n == 1 ==> (is <==> was || i == 0)
            &&& n == 3 ==> (is <==> was || i == 2)
            &&& n == 4 ==> (is <==> was || i == 3)
            &&& n == 7 ==> (is <==> was || i == 6)
            &&& n != 0 && n != 1 && n != 3 && n != 4 && n != 7 ==> r.modifier == st.modifier
            &&& 30 <= n <= 37 ==> r.fg == n - 30 + 1
            &&& n == 39 ==> r.fg == 0
            &&& n != 0 && !(30 <= n <= 37) && n != 39 ==> r.fg == st.fg
            &&& 40 <= n <= 47 ==> r.bg == n - 40 + 1
            &&& n == 49 ==> r.bg == 0
            &&& n != 0 && !(40 <= n <= 47) && n != 49 ==> r.bg == st.bg
        }),
{
    let m = st.modifier;
    assert((((m | 1u16) >> i) & 1 == 1) <==> ((m >> i) & 1 == 1 || i == 0)) by (bit_vector)
        requires
            i < 16,
    ;
    assert((((m | 4u16) >> i) & 1 == 1) <==> ((m >> i) & 1 == 1 || i == 2)) by (bit_vector)
        requires
            i < 16,
    ;
    assert((((m | 8u16) >> i) & 1 == 1) <==> ((m >> i) & 1 == 1 || i == 3)) by (bit_vector)
        requires
            i < 16,
    ;
    assert((((m | 64u16) >> i) & 1 == 1) <==> ((m >> i) & 1 == 1 || i == 6)) by (bit_vector)
        requires
            i < 16,
    ;
}

proof fn styles_shift(st: Style, before: Seq<u16>, nums: Seq<u16>, i: int)
    requires
        0 <= i,
    ensures
        styled(st, before + nums, before.len() + i) == styled(st, nums, i),
    decreases
            if i < nums.len() {
                nums.len() - i
            } else {
                0
            },
{
    let all = before + nums;
    let j = before.len() + i;
    if i < nums.len() {
        let n = nums[i];
        assert(all[j] == n);
        assert(extended_color(all, j) == extended_color(nums, i));
        let (color, taken) = extended_color(nums, i);
        if n == 38 {
            styles_shift(Style { fg: color, ..st }, before, nums, i + taken + 1);
        } else if n == 48 {
            styles_shift(Style { bg: color, ..st }, before, nums, i + taken + 1);
        } else {
            styles_shift(style_applied(st, n), before, nums, i + 1);
        }
    }
}

/// Style numbers are applied from left to right. 38 and 48 take a colour from the
/// numbers behind them: after 5 one of the palette, after 2 one of red, green and
/// blue; the numbers that follow are then applied.
pub proof fn styles_are_applied_in_order(
    st: Style,
    n: u16,
    rest: Seq<u16>,
    red: u16,
    green: u16,
    blue: u16,
)
    requires
        red <= 255,
        green <= 255,
        blue <= 255,
    ensures
        n != 38 && n != 48 ==> styled(st, seq![n] + rest, 0) == styled(
            style_applied(st, n),
            rest,
            0,
        ),
        styled(st, seq![38u16, 5, n] + rest, 0) == styled(
            Style { fg: (0x100_0000 + n) as u32, ..st },
            rest,
            0,
        ),
        styled(st, seq![48u16, 5, n] + rest, 0) == styled(
            Style { bg: (0x100_0000 + n) as u32, ..st },
            rest,
            0,
        ),
        styled(st, seq![38u16, 2, red, green, blue] + rest, 0) == styled(
            Style {
                fg: (0x200_0000 + 0x1_0000 * red + 0x100 * green + blue) as u32,
                ..st
            },
            rest,
            0,
        ),
        styled(st, seq![48u16, 2, red, green, blue] + rest, 0) == styled(
            Style {
                bg: (0x200_0000 + 0x1_0000 * red + 0x100 * green + blue) as u32,
                ..st
            },
            rest,
            0,
        ),
        styled(st, Seq::empty(), 0) == st,
{
    let palette = (0x100_0000 + n) as u32;
    let direct = (0x200_0000 + 0x1_0000 * red + 0x100 * green + blue) as u32;
    assert(0x01_00_00_00u32 | n as u32 == 0x100_0000 + n) by (bit_vector);
    assert(0x02_00_00_00u32 | ((red as u32) << 16u32) | ((green as u32) << 8u32) | blue as u32
        == 0x200_0000 + 0x1_0000 * red + 0x100 * green + blue) by (bit_vector)
        requires
            red <= 255,
            green <= 255,
            blue <= 255,
    ;
    if n != 38 && n != 48 {
        styles_shift(style_applied(st, n), seq![n], rest, 0);
    }
    let a = seq![38u16, 5, n] + rest;
    assert(extended_color(a, 0) == (palette, 2int));
    styles_shift(Style { fg: palette, ..st }, seq![38u16, 5, n], rest, 0);
    let b = seq![48u16, 5, n] + rest;
    assert(extended_color(b, 0) == (palette, 2int));
    styles_shift(Style { bg: palette, ..st }, seq![48u16, 5, n], rest, 0);
    let c = seq![38u16, 2, red, green, blue] + rest;
    assert(extended_color(c, 0) == (direct, 4int));
    styles_shift(Style { fg: direct, ..st }, seq![38u16, 2, red, green, blue], rest, 0);
    let d = seq![48u16, 2, red, green, blue] + rest;
    assert(extended_color(d, 0) == (direct, 4int));
    styles_shift(Style { bg: direct, ..st }, seq![48u16, 2, red, green, blue], rest, 0);
}

/// A style sequence without numbers resets the style; any other applies its numbers
/// to the style in force. Nothing but the style changes.
pub proof fn style_sequences_change_the_style(s: ScreenView, nums: Seq<u16>)
    ensures
        nums.len() == 0 ==> sgr_applied(s, nums).fg == 0 && sgr_applied(s, nums).bg == 0
            && sgr_applied(s, nums).modifier == 0,
        nums.len() > 0 ==> ({
            let st = styled(Style { fg: s.fg, bg: s.bg, modifier: s.modifier }, nums, 0);
            sgr_applied(s, nums).fg == st.fg && sgr_applied(s, nums).bg == st.bg && sgr_applied(
                s,
                nums,
            ).modifier == st.modifier
        }),
        sgr_applied(s, nums).primary == s.primary && sgr_applied(s, nums).cur_row == s.cur_row
            && sgr_applied(s, nums).cur_col == s.cur_col && sgr_applied(s, nums).modes == s.modes,
{
}

proof fn behind_the_first(a: Seq<char>, b: Seq<char>, sep: char)
    requires
        !a.contains(sep),
    ensures
        after_first(a.push(sep) + b, sep) == b,
        after_first(a, sep).len() == 0,
    decreases a.len(),
{
    let s = a.push(sep) + b;
    if a.len() == 0 {
        assert(s[0] == sep);
        assert(s.skip(1) =~= b);
    } else {
        assert(a.contains(a[0]));
        assert forall|x: char| a.skip(1).contains(x) implies a.contains(x) by {
            let i = a.skip(1).index_of(x);
            assert(a[i + 1] == x);
        }
        behind_the_first(a.skip(1), b, sep);
        assert(s.skip(1) =~= a.skip(1).push(sep) + b);
    }
}

/// Command 8 opens the link whose address follows its parameters, and closes it
/// where there is no address. Any other command changes nothing.
pub proof fn links_are_opened_and_closed(
    s: ScreenView,
    params: Seq<char>,
    uri: Seq<char>,
    other: Seq<char>,
)
    requires
        !params.contains(';'),
        other.len() < 2 || other[0] != '8' || other[1] != ';',
    ensures
        uri.len() > 0 ==> osc_applied(s, seq!['8', ';'] + params + seq![';'] + uri) == (ScreenView {
            hyperlink: Some(uri),
            ..s
        }),
        osc_applied(s, seq!['8', ';'] + params + seq![';']) == (ScreenView { hyperlink: None, ..s }),
        osc_applied(s, other) == s,
{
    behind_the_first(params, uri, ';');
    behind_the_first(params, Seq::empty(), ';');
    let body = seq!['8', ';'] + params + seq![';'] + uri;
    assert(body.skip(2) =~= params.push(';') + uri);
    let closing = seq!['8', ';'] + params + seq![';'];
    assert(closing.skip(2) =~= params.push(';') + Seq::<char>::empty());
}

/// How the cursor moves: to a place counted from one, or by a number of rows or
/// columns, at least one; it stays on the screen.
pub proof fn cursors_move_within_the_screen(f: FakeView, params: Seq<char>, fin: char)
    requires
        f.screen.wf(),
        f.screen.cur_row < f.screen.rows,
    ensures
        ({
            let nums = vt::numbers(params);
            let s = f.screen;
            let r = csi_applied(f, None, params, false, fin).screen;
            let n = if nums.len() > 0 && nums[0] > 0 {
                nums[0] as int
            } else {
                1
            };
            let m = if nums.len() > 1 && nums[1] > 0 {
                nums[1] as int
            } else {
                1
            };
            &&& fin == 'H' || fin == 'f' ==> {
                &&& n <= s.rows ==> r.cur_row == n - 1
                &&& n > s.rows ==> r.cur_row == s.rows - 1
                &&& m <= s.cols ==> r.cur_col == m - 1
                &&& m > s.cols ==> r.cur_col == s.cols - 1
            }
            &&& fin == 'A' ==> r.cur_col == s.cur_col && (n <= s.cur_row ==> r.cur_row == s.cur_row
                - n) && (n > s.cur_row ==> r.cur_row == 0)
            &&& fin == 'B' ==> r.cur_col == s.cur_col && (s.cur_row + n < s.rows ==> r.cur_row
                == s.cur_row + n) && (s.cur_row + n >= s.rows ==> r.cur_row == s.rows - 1)
            &&& fin == 'C' ==> r.cur_row == s.cur_row && (s.cur_col + n < s.cols ==> r.cur_col
                == s.cur_col + n) && (s.cur_col + n >= s.cols ==> r.cur_col == s.cols - 1)
            &&& fin == 'D' ==> r.cur_row == s.cur_row && (n <= s.cur_col ==> r.cur_col == s.cur_col
                - n) && (n > s.cur_col ==> r.cur_col == 0)
            &&& fin == 'H' || fin == 'f' || fin == 'A' || fin == 'B' || fin == 'C' || fin == 'D'
                ==> r.primary == s.primary && r.alt == s.alt && r.modes == s.modes && r.fg == s.fg
                && r.scrollback == s.scrollback
        }),
{
}

/// What the other sequences do: `J` clears the screen, `K` erases to the end of the
/// row, `m` sets the style, `SP q` the cursor's shape, `> 4 ; n m` whether modified
/// keys are reported, `? h` and `? l` switch modes on and off.
pub proof fn sequences_do_their_own(f: FakeView, params: Seq<char>, x: int, y: int)
    requires
        f.screen.wf(),
        0 <= x < f.screen.cols,
        0 <= y < f.screen.rows,
    ensures
        ({
            let nums = vt::numbers(params);
            let s = f.screen;
            let cleared = csi_applied(f, None, params, false, 'J').screen;
            let erased = csi_applied(f, None, params, false, 'K').screen;
            let keys = csi_applied(f, Some('>'), params, false, 'm').screen;
            &&& cleared.active()[y].cells[x].symbol == seq![' ']
            &&& cleared.cur_row == s.cur_row && cleared.cur_col == s.cur_col
            &&& y == s.cur_row && x >= s.cur_col ==> erased.active()[y].cells[x].symbol == seq![' ']
            &&& y != s.cur_row || x < s.cur_col ==> erased.active()[y].cells[x]
                == s.active()[y].cells[x]
            &&& csi_applied(f, None, params, false, 'm').screen == sgr_applied(s, nums)
            &&& nums.len() > 0 && nums[0] < 256 ==> csi_applied(
                f,
                None,
                params,
                true,
                'q',
            ).screen.cursor_shape == nums[0]
            &&& nums.len() == 0 ==> csi_applied(f, None, params, true, 'q').screen.cursor_shape == 0
            &&& nums.len() > 1 && nums[0] == 4 ==> (keys.modes.modify_other_keys <==> nums[1] > 0)
            &&& nums.len() == 1 && nums[0] == 4 ==> !keys.modes.modify_other_keys
            &&& nums.len() == 0 || nums[0] != 4 ==> keys == s
            &&& csi_applied(f, Some('?'), params, false, 'h').screen == modes_applied(s, nums, true)
            &&& csi_applied(f, Some('?'), params, false, 'l').screen == modes_applied(
                s,
                nums,
                false,
            )
        }),
{
    reveal_strlit(" ");
    assert(" "@ =~= seq![' ']);
}

/// What plain characters do: a carriage return goes to the first column, a line feed
/// down, a backspace one column back, a tab to the next multiple of eight, a bell
/// nowhere; anything else is written.
pub proof fn plain_characters_do_their_own(s: ScreenView, c: char)
    requires
        s.cols >= 1,
        s.cur_col <= s.cols,
    ensures
        plain_applied(s, '\r') == (ScreenView { cur_col: 0, ..s }),
        plain_applied(s, '\n') == s.newline(false),
        s.cur_col > 0 ==> plain_applied(s, '\u{8}') == (ScreenView {
            cur_col: (s.cur_col - 1) as u16,
            ..s
        }),
        s.cur_col == 0 ==> plain_applied(s, '\u{8}') == s,
        plain_applied(s, '\u{7}') == s,
        ({
            let r = plain_applied(s, '\t');
            &&& r.cur_col < s.cols
            &&& r.cur_col == s.cols - 1 || r.cur_col % 8 == 0 && s.cur_col < r.cur_col <= s.cur_col
                + 8
            &&& r.cur_row == s.cur_row && r.primary == s.primary
        }),
        c != '\r' && c != '\n' && c != '\u{8}' && c != '\u{7}' && c != '\t' ==> plain_applied(s, c)
            == s.put_char(c),
{
}

/// Output is applied piece by piece, in order, to the screen the pieces before left.
pub proof fn output_is_applied_in_order(f: FakeView, s: Seq<char>, i: int)
    requires
        0 <= i < s.len(),
    ensures
        ({
            let (t, next) = vt::token_at(s, i);
            &&& s[i] != '\u{1b}' ==> written(f, s, i) == written(
                FakeView { screen: plain_applied(f.screen, s[i]), ..f },
                s,
                i + 1,
            )
            &&& i < next <= s.len() ==> {
                &&& t matches VtTokenView::Osc(body) ==> written(f, s, i) == written(
                    FakeView { screen: osc_applied(f.screen, body), ..f },
                    s,
                    next,
                )
                &&& t matches VtTokenView::Csi { prefix, params, space, fin } ==> written(f, s, i)
                    == written(csi_applied(f, prefix, params, space, fin), s, next)
            }
            &&& written(f, s, s.len() as int) == f
        }),
{
}

/// What is understood: plain characters, commands, the sequences listed here with
/// modes that are known. Nothing else is.
pub proof fn only_known_output_is_accepted(s: Seq<char>, i: int, params: Seq<char>, fin: char)
    requires
        0 <= i < s.len(),
    ensures
        accepted(s, s.len() as int),
        s[i] != '\u{1b}' ==> accepted(s, i) == accepted(s, i + 1),
        s[i] == '\u{1b}' && (i + 1 == s.len() || s[i + 1] != '[' && s[i + 1] != ']') ==> !accepted(
            s,
            i,
        ),
        vt::token_at(s, i).0 is OpenCsi ==> !accepted(s, i),
        known_csi(None, params, false, fin) <==> fin == 'm' || fin == 'H' || fin == 'f' || fin == 'A'
            || fin == 'B' || fin == 'C' || fin == 'D' || fin == 'J' || fin == 'K',
        known_csi(None, params, true, fin) <==> fin == 'q',
        forall|p: char| !(#[trigger] known_csi(Some(p), params, true, fin)),
        known_csi(Some('>'), params, false, fin) <==> fin == 'u' || fin == 'm',
        known_csi(Some('='), params, false, fin) <==> fin == 'u',
        known_csi(Some('<'), params, false, fin) <==> fin == 'u',
        fin != 'h' && fin != 'l' ==> !known_csi(Some('?'), params, false, fin),
        vt::numbers(params).len() == 1 && (fin == 'h' || fin == 'l') ==> (known_csi(
            Some('?'),
            params,
            false,
            fin,
        ) <==> known_mode(vt::numbers(params)[0])),
{
}

/// The modes a program can switch.
pub proof fn the_known_modes(mode: u16)
    ensures
        known_mode(mode) <==> seq![
            1u16,
            9,
            12,
            25,
            47,
            1000,
            1002,
            1003,
            1004,
            1005,
            1006,
            1007,
            1016,
            1047,
            1048,
            1049,
            2004,
            2026,
        ].contains(mode),
{
    let all = seq![
        1u16,
        9,
        12,
        25,
        47,
        1000,
        1002,
        1003,
        1004,
        1005,
        1006,
        1007,
        1016,
        1047,
        1048,
        1049,
        2004,
        2026,
    ];
    assert(all[0] == 1 && all[1] == 9 && all[2] == 12 && all[3] == 25 && all[4] == 47);
    assert(all[5] == 1000 && all[6] == 1002 && all[7] == 1003 && all[8] == 1004 && all[9] == 1005);
    assert(all[10] == 1006 && all[11] == 1007 && all[12] == 1016 && all[13] == 1047);
    assert(all[14] == 1048 && all[15] == 1049 && all[16] == 2004 && all[17] == 2026);
}

/// A mode report reaches the screen and the mirror alike, field for field; the
/// picture stays.
pub proof fn reports_reach_the_screen(f: FakeView, modes: PaneInputModes)
    ensures
        ({
            let r = f.reported(modes);
            &&& r.mirror == f.mirror.reported(modes)
            &&& r.screen.modes.alternate_screen == modes.alternate_screen
            &&& r.screen.modes.application_cursor == modes.application_cursor
            &&& r.screen.modes.bracketed_paste == modes.bracketed_paste
            &&& r.screen.modes.focus_reporting == modes.focus_reporting
            &&& r.screen.modes.mouse_mode == modes.mouse_mode
            &&& r.screen.modes.mouse_encoding == modes.mouse_encoding
            &&& r.screen.modes.mouse_alternate_scroll == modes.mouse_alternate_scroll
            &&& r.screen.modes.synchronized_output == modes.synchronized_output
            &&& r.screen.modes.modify_other_keys == modes.modify_other_keys
            &&& r.screen.primary == f.screen.primary && r.screen.alt == f.screen.alt
            &&& r.screen.cur_row == f.screen.cur_row && r.screen.cur_col == f.screen.cur_col
        }),
{
}

/// The mirror shows each of the screen's modes under its own name.
pub proof fn mirrors_show_the_screens_modes(f: FakeView)
    requires
        f.screen.modes.mouse_mode <= 4,
        f.screen.modes.mouse_encoding <= 2,
    ensures
        ({
            let m = f.synced().mirror;
            let s = f.screen.modes;
            &&& m.alternate_screen == s.alternate_screen
            &&& m.application_cursor == s.application_cursor
            &&& m.bracketed_paste == s.bracketed_paste
            &&& m.focus_reporting == s.focus_reporting
            &&& m.mouse_mode == s.mouse_mode
            &&& m.mouse_encoding == s.mouse_encoding
            &&& m.mouse_alternate_scroll == s.mouse_alternate_scroll
            &&& m.synchronized_output == s.synchronized_output
            &&& m.modify_other_keys == s.modify_other_keys
            &&& m.kitty == f.mirror.kitty
            &&& f.synced().screen == f.screen
        }),
{
}

/// Feeding text marks the screen as changed, whatever it was; refused text changes
/// nothing.
pub proof fn feeding_marks_the_screen(term: &mut FakePaneTerminal, bytes: &[u8], r: bool)
    requires
        old(term)@.screen.wf(),
        call_ensures(FakePaneTerminal::try_feed, (term, bytes), r),
    ensures
        r ==> final(term)@.screen.dirty,
        r ==> final(term)@.screen.primary == written(
            old(term)@,
            lossy_text(bytes@),
            0,
        ).screen.primary,
        !r ==> final(term)@ == old(term)@,
        r <==> accepted(lossy_text(bytes@), 0),
{
}

/// A new terminal has the size asked for, at least one by one, and a fresh mirror.
pub proof fn new_terminals_have_their_size(
    cols: u16,
    rows: u16,
    limit: usize,
    r: FakePaneTerminal,
)
    requires
        call_ensures(FakePaneTerminal::new, (cols, rows, limit), r),
    ensures
        cols > 0 ==> r@.screen.cols == cols,
        cols == 0 ==> r@.screen.cols == 1,
        rows > 0 ==> r@.screen.rows == rows,
        rows == 0 ==> r@.screen.rows == 1,
        r@.screen.limit == limit,
        r@.screen.scrollback.len() == 0,
        r@.mirror == input_mirror::mirror_fresh(),
{
}

/// A colour that is cut short has zero for what is missing; after any number but 5
/// and 2 the colour is the default, and that number is applied as a style.
pub proof fn short_colours_are_filled_up(st: Style, n: u16, red: u16, green: u16, rest: Seq<u16>)
    requires
        red <= 255,
        green <= 255,
        n != 5,
        n != 2,
    ensures
        styled(st, seq![38u16, 5], 0) == (Style { fg: 0x100_0000, ..st }),
        styled(st, seq![38u16, 2], 0) == (Style { fg: 0x200_0000, ..st }),
        styled(st, seq![38u16, 2, red], 0) == (Style {
            fg: (0x200_0000 + 0x1_0000 * red) as u32,
            ..st
        }),
        styled(st, seq![38u16, 2, red, green], 0) == (Style {
            fg: (0x200_0000 + 0x1_0000 * red + 0x100 * green) as u32,
            ..st
        }),
        styled(st, seq![38u16], 0) == (Style { fg: 0, ..st }),
        styled(st, seq![48u16], 0) == (Style { bg: 0, ..st }),
        styled(st, seq![38u16, n] + rest, 0) == styled(
            Style { fg: 0, ..st },
            seq![n] + rest,
            0,
        ),
{
    reveal_with_fuel(styled, 2);
    let zero: u16 = 0;
    assert(0x01_00_00_00u32 | zero as u32 == 0x100_0000) by (bit_vector)
        requires
            zero == 0,
    ;
    assert(0x02_00_00_00u32 | ((red as u32) << 16u32) | ((green as u32) << 8u32) | zero as u32
        == 0x200_0000 + 0x1_0000 * red + 0x100 * green) by (bit_vector)
        requires
            red <= 255,
            green <= 255,
            zero == 0,
    ;
    assert(0x02_00_00_00u32 | ((red as u32) << 16u32) | ((zero as u32) << 8u32) | zero as u32
        == 0x200_0000 + 0x1_0000 * red) by (bit_vector)
        requires
            red <= 255,
            zero == 0,
    ;
    assert(0x02_00_00_00u32 | ((zero as u32) << 16u32) | ((zero as u32) << 8u32) | zero as u32
        == 0x200_0000) by (bit_vector)
        requires
            zero == 0,
    ;
    styles_shift(Style { fg: 0, ..st }, seq![38u16], seq![n] + rest, 0);
    assert(seq![38u16] + (seq![n] + rest) =~= seq![38u16, n] + rest);
    assert(extended_color(seq![38u16, n] + rest, 0) == (0u32, 0int));
}

} // verus!
