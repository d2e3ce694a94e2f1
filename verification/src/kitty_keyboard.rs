//! The kitty keyboard protocol register: the progressive-enhancement flags a
//! program negotiated, with the stack its pushes and pops work on.

use vstd::prelude::*;
use crate::text;

verus! {

/// One keyboard-protocol sequence.
#[derive(Clone, Copy)]
pub enum KittyOp {
    /// `CSI = flags ; mode u`: write the register in place.
    Assign { flags: u16, mode: u16 },
    /// `CSI > flags u`: save the register and start a new one.
    Push { flags: u16 },
    /// `CSI < count u`: drop `count` registers.
    Pop { count: u16 },
}

/// The register and the saved registers below it, oldest first.
pub struct KittyView {
    pub flags: u16,
    pub stack: Seq<u16>,
}

/// The register of a program that negotiated nothing.
pub open spec fn kitty_fresh() -> KittyView {
    KittyView { flags: 0, stack: Seq::empty() }
}

/// What one sequence does to the register. Assigning with mode 1 replaces the
/// flags, with mode 2 sets the given bits, with mode 3 clears them; any other
/// mode changes nothing. Popping more registers than were pushed leaves the
/// fresh register.
pub open spec fn kitty_apply(k: KittyView, op: KittyOp) -> KittyView {
    match op {
        KittyOp::Assign { flags, mode } => KittyView {
            flags: if mode == 1 {
                flags
            } else if mode == 2 {
                k.flags | flags
            } else if mode == 3 {
                k.flags & !flags
            } else {
                k.flags
            },
            stack: k.stack,
        },
        KittyOp::Push { flags } => KittyView { flags, stack: k.stack.push(k.flags) },
        KittyOp::Pop { count } => if count == 0 {
            k
        } else if count <= k.stack.len() {
            KittyView {
                flags: k.stack[k.stack.len() - count],
                stack: k.stack.take(k.stack.len() - count),
            }
        } else {
            kitty_fresh()
        },
    }
}

pub const ESC: char = '\x1b';

/// A character of a CSI parameter string.
pub open spec fn is_param(c: char) -> bool {
    text::is_digit(c) || c == ';'
}

/// Where the run of parameter characters from `i` on ends.
pub open spec fn params_end(s: Seq<char>, i: int) -> int
    decreases s.len() - i,
{
    if 0 <= i < s.len() && is_param(s[i]) {
        params_end(s, i + 1)
    } else {
        i
    }
}

/// A parameter: the default when left out, nothing when it does not fit in
/// 16 bits.
pub open spec fn param(field: Seq<char>, default: u16) -> Option<u16> {
    if field.len() == 0 {
        Some(default)
    } else {
        text::small_number(field)
    }
}

/// The sequence with the given prefix character and parameter fields.
pub open spec fn kitty_op(prefix: char, fields: Seq<Seq<char>>) -> Option<KittyOp> {
    if prefix == '=' && fields.len() == 1 {
        match param(fields[0], 0) {
            Some(flags) => Some(KittyOp::Assign { flags, mode: 1 }),
            None => None,
        }
    } else if prefix == '=' && fields.len() == 2 {
        match (param(fields[0], 0), param(fields[1], 1)) {
            (Some(flags), Some(mode)) => Some(KittyOp::Assign { flags, mode }),
            _ => None,
        }
    } else if prefix == '>' && fields.len() == 1 {
        match param(fields[0], 0) {
            Some(flags) => Some(KittyOp::Push { flags }),
            None => None,
        }
    } else if prefix == '<' && fields.len() == 1 {
        match param(fields[0], 1) {
            Some(count) => Some(KittyOp::Pop { count }),
            None => None,
        }
    } else {
        None
    }
}

/// The keyboard-protocol sequence `s` starts with at `i`, and where it ends.
pub open spec fn sequence_at(s: Seq<char>, i: int) -> Option<(KittyOp, int)> {
    let e = params_end(s, i + 3);
    if i + 3 < s.len() && s[i] == ESC && s[i + 1] == '[' && e < s.len() && s[e] == 'u' {
        match kitty_op(s[i + 2], text::split_on(s.subrange(i + 3, e), ';')) {
            Some(op) => Some((op, e + 1)),
            None => None,
        }
    } else {
        None
    }
}

/// The register after a stream of terminal output from position `i` on:
/// keyboard-protocol sequences act in order, everything else passes by.
pub open spec fn observed(k: KittyView, s: Seq<char>, i: int) -> KittyView
    decreases s.len() - i,
{
    if i < 0 || i >= s.len() {
        k
    } else {
        match sequence_at(s, i) {
            Some((op, end)) => if end > i {
                observed(kitty_apply(k, op), s, end)
            } else {
                k
            },
            None => observed(k, s, i + 1),
        }
    }
}

/// The characters a byte stream stands for, one per byte.
pub open spec fn byte_chars(b: Seq<u8>) -> Seq<char> {
    b.map_values(|x: u8| x as char)
}

/// `ESC [`, a prefix, a number and `u`.
pub open spec fn numbered(prefix: char, n: u16) -> Seq<char> {
    seq![ESC, '[', prefix] + text::decimal(n as nat) + seq!['u']
}

/// Pushes for every register in `levels`, in order.
pub open spec fn pushes(levels: Seq<u16>) -> Seq<char>
    decreases levels.len(),
{
    if levels.len() == 0 {
        Seq::empty()
    } else {
        numbered('>', levels[0]) + pushes(levels.skip(1))
    }
}

/// All registers, oldest first, the current one last.
pub open spec fn levels(k: KittyView) -> Seq<u16> {
    k.stack.push(k.flags)
}

/// The sequences that rebuild the register from the fresh one: the oldest
/// register is assigned (unless it is zero, as in the fresh register), the
/// others are pushed.
pub open spec fn replay(k: KittyView) -> Seq<char> {
    let base = levels(k)[0];
    (if base == 0 {
        Seq::empty()
    } else {
        numbered('=', base)
    }) + pushes(levels(k).skip(1))
}

/// Tracks the keyboard-protocol register from observed output.
pub struct KittyKeyboardTracker {
    pub flags: u16,
    pub stack: Vec<u16>,
}

impl View for KittyKeyboardTracker {
    type V = KittyView;

    open spec fn view(&self) -> KittyView {
        KittyView { flags: self.flags, stack: self.stack@ }
    }
}

pub(crate) fn is_param_char(c: char) -> (r: bool)
    ensures
        r == is_param(c),
{
    ('0' <= c && c <= '9') || c == ';'
}

fn read_param(field: &Vec<char>, default: u16) -> (r: Option<u16>)
    requires
        text::all_digits(field@),
    ensures
        r == param(field@, default),
{
    if field.len() == 0 {
        Some(default)
    } else {
        text::parse_small(field)
    }
}

pub(crate) proof fn split_params_are_digits(s: Seq<char>)
    requires
        forall|j: int| 0 <= j < s.len() ==> is_param(#[trigger] s[j]),
    ensures
        text::split_on(s, ';').len() > 0,
        forall|j: int|
            0 <= j < text::split_on(s, ';').len() ==> text::all_digits(#[trigger] text::split_on(s, ';')[j]),
    decreases s.len(),
{
    if s.len() > 0 {
        split_params_are_digits(s.drop_last());
        let p = text::split_on(s.drop_last(), ';');
        assert(is_param(s[s.len() - 1]));
        assert forall|j: int| 0 <= j < text::split_on(s, ';').len() implies text::all_digits(
            #[trigger] text::split_on(s, ';')[j],
        ) by {
            if s.last() == ';' {
                if j < p.len() {
                    assert(text::all_digits(p[j]));
                }
            } else {
                assert(text::all_digits(p[p.len() - 1]));
                if j < p.len() - 1 {
                    assert(text::all_digits(p[j]));
                }
            }
        }
    }
}

fn read_op(prefix: char, fields: &Vec<Vec<char>>) -> (r: Option<KittyOp>)
    requires
        forall|j: int| 0 <= j < fields.len() ==> text::all_digits(#[trigger] fields[j]@),
    ensures
        r == kitty_op(prefix, text::pieces_view(fields@)),
{
    if prefix == '=' && fields.len() == 1 {
        match read_param(&fields[0], 0) {
            Some(flags) => Some(KittyOp::Assign { flags, mode: 1 }),
            None => None,
        }
    } else if prefix == '=' && fields.len() == 2 {
        match (read_param(&fields[0], 0), read_param(&fields[1], 1)) {
            (Some(flags), Some(mode)) => Some(KittyOp::Assign { flags, mode }),
            _ => None,
        }
    } else if prefix == '>' && fields.len() == 1 {
        match read_param(&fields[0], 0) {
            Some(flags) => Some(KittyOp::Push { flags }),
            None => None,
        }
    } else if prefix == '<' && fields.len() == 1 {
        match read_param(&fields[0], 1) {
            Some(count) => Some(KittyOp::Pop { count }),
            None => None,
        }
    } else {
        None
    }
}

fn read_sequence(s: &Vec<char>, i: usize) -> (r: Option<(KittyOp, usize)>)
    requires
        i < s.len(),
    ensures
        match r {
            Some((op, end)) => sequence_at(s@, i as int) == Some((op, end as int)) && i < end
                <= s.len(),
            None => sequence_at(s@, i as int) is None,
        },
{
    if s.len() - i <= 3 || s[i] != ESC || s[i + 1] != '[' {
        return None;
    }
    let mut e: usize = i + 3;
    let mut params: Vec<char> = Vec::new();
    while e < s.len() && is_param_char(s[e])
        invariant
            i + 3 <= e <= s.len(),
            params_end(s@, e as int) == params_end(s@, i + 3),
            params@ == s@.subrange(i + 3, e as int),
            forall|j: int| 0 <= j < params@.len() ==> is_param(#[trigger] params@[j]),
        decreases s.len() - e,
    {
        params.push(s[e]);
        e += 1;
    }
    if e == s.len() || s[e] != 'u' {
        return None;
    }
    let fields = text::split_chars(&params, ';');
    proof {
        split_params_are_digits(params@);
        assert forall|j: int| 0 <= j < fields.len() implies text::all_digits(#[trigger] fields[j]@) by {
            assert(text::pieces_view(fields@)[j] == fields[j]@);
        }
    }
    match read_op(s[i + 2], &fields) {
        Some(op) => Some((op, e + 1)),
        None => None,
    }
}

impl KittyKeyboardTracker {
    /// The fresh register.
    pub fn new() -> (r: Self)
        ensures
            r@ == kitty_fresh(),
    {
        KittyKeyboardTracker { flags: 0, stack: Vec::new() }
    }

    /// The flags in force.
    pub fn flags(&self) -> (r: u16)
        ensures
            r == self@.flags,
    {
        self.flags
    }

    /// Carries out one sequence.
    pub fn apply(&mut self, op: KittyOp)
        ensures
            final(self)@ == kitty_apply(old(self)@, op),
    {
        match op {
            KittyOp::Assign { flags, mode } => {
                if mode == 1 {
                    self.flags = flags;
                } else if mode == 2 {
                    self.flags = self.flags | flags;
                } else if mode == 3 {
                    self.flags = self.flags & !flags;
                }
            },
            KittyOp::Push { flags } => {
                self.stack.push(self.flags);
                self.flags = flags;
            },
            KittyOp::Pop { count } => {
                let n = self.stack.len();
                if count == 0 {
                } else if count as usize <= n {
                    self.flags = self.stack[n - count as usize];
                    self.stack.truncate(n - count as usize);
                } else {
                    self.flags = 0;
                    self.stack.clear();
                }
            },
        }
    }

    /// Feeds a chunk of terminal output.
    pub fn observe(&mut self, bytes: &[u8])
        ensures
            final(self)@ == observed(old(self)@, byte_chars(bytes@), 0),
    {
        let mut s: Vec<char> = Vec::new();
        let mut n: usize = 0;
        while n < bytes.len()
            invariant
                n <= bytes.len(),
                s@ == byte_chars(bytes@).take(n as int),
            decreases bytes.len() - n,
        {
            s.push(bytes[n] as char);
            n += 1;
        }
        assert(s@ == byte_chars(bytes@));
        let mut i: usize = 0;
        while i < s.len()
            invariant
                i <= s.len(),
                observed(self@, s@, i as int) == observed(old(self)@, s@, 0),
            decreases s.len() - i,
        {
            match read_sequence(&s, i) {
                Some((op, end)) => {
                    self.apply(op);
                    i = end;
                },
                None => {
                    i += 1;
                },
            }
        }
    }

    /// The sequences that rebuild this register from the fresh one, or `None`
    /// when it is the fresh one.
    pub fn replay_ansi(&self) -> (r: Option<String>)
        ensures
            match r {
                Some(ansi) => self@ != kitty_fresh() && ansi@ == replay(self@),
                None => self@ == kitty_fresh(),
            },
    {
        if self.flags == 0 && self.stack.len() == 0 {
            assert(self@.stack =~= Seq::<u16>::empty());
            return None;
        }
        let n = self.stack.len();
        let base = if n == 0 {
            self.flags
        } else {
            self.stack[0]
        };
        let mut out: Vec<char> = Vec::new();
        if base != 0 {
            push_numbered(&mut out, '=', base);
        }
        let ghost all = levels(self@);
        assert(all[0] == base);
        let mut i: usize = 0;
        while i < n
            invariant
                n == self.stack.len(),
                all == levels(self@),
                i <= n,
                out@ + pushes(all.skip(i + 1)) == replay(self@),
            decreases n - i,
        {
            let level = if i + 1 < n {
                self.stack[i + 1]
            } else {
                self.flags
            };
            assert(all.skip(i + 1)[0] == level);
            assert(all.skip(i + 1).skip(1) =~= all.skip(i + 2));
            let ghost before = out@;
            push_numbered(&mut out, '>', level);
            assert(out@ + pushes(all.skip(i + 2)) =~= before + pushes(all.skip(i + 1)));
            i += 1;
        }
        assert(pushes(all.skip(n + 1)) =~= Seq::<char>::empty());
        assert(out@ == replay(self@));
        Some(text::string_of(&out))
    }
}

fn push_numbered(out: &mut Vec<char>, prefix: char, n: u16)
    ensures
        final(out)@ == old(out)@ + numbered(prefix, n),
{
    let ghost start = out@;
    out.push(ESC);
    out.push('[');
    out.push(prefix);
    text::push_decimal(out, n);
    out.push('u');
    assert(out@ =~= start + numbered(prefix, n));
}

proof fn params_end_is(s: Seq<char>, i: int, e: int)
    requires
        0 <= i <= e <= s.len(),
        forall|j: int| i <= j < e ==> is_param(#[trigger] s[j]),
        e < s.len() ==> !is_param(s[e]),
    ensures
        params_end(s, i) == e,
    decreases e - i,
{
    if i < e {
        params_end_is(s, i + 1, e);
    }
}

/// A numbered sequence met in a stream is read as what its prefix says: `=`
/// assigns, `>` pushes, `<` pops.
pub proof fn numbered_is_read(s: Seq<char>, i: int, prefix: char, n: u16)
    requires
        0 <= i,
        i + numbered(prefix, n).len() <= s.len(),
        s.subrange(i, i + numbered(prefix, n).len()) == numbered(prefix, n),
    ensures
        sequence_at(s, i) == (match kitty_op(prefix, seq![text::decimal(n as nat)]) {
            Some(op) => Some((op, i + numbered(prefix, n).len())),
            None => None,
        }),
        prefix == '=' ==> kitty_op(prefix, seq![text::decimal(n as nat)]) == Some(
            KittyOp::Assign { flags: n, mode: 1 },
        ),
        prefix == '>' ==> kitty_op(prefix, seq![text::decimal(n as nat)]) == Some(
            KittyOp::Push { flags: n },
        ),
        prefix == '<' ==> kitty_op(prefix, seq![text::decimal(n as nat)]) == Some(
            KittyOp::Pop { count: n },
        ),
{
    let d = text::decimal(n as nat);
    let q = numbered(prefix, n);
    let e = i + 3 + d.len();
    text::decimal_reads_back(n as nat);
    assert forall|j: int| 0 <= j < q.len() implies s[i + j] == #[trigger] q[j] by {
        assert(s.subrange(i, i + q.len())[j] == q[j]);
    }
    assert(s[i] == q[0] && s[i + 1] == q[1] && s[i + 2] == q[2] && s[e] == q[e - i]);
    assert forall|j: int| i + 3 <= j < e implies is_param(#[trigger] s[j]) by {
        assert(q[j - i] == d[j - i - 3]);
        assert(text::is_digit(d[j - i - 3]));
    }
    params_end_is(s, i + 3, e);
    assert(s.subrange(i + 3, e) =~= d) by {
        assert forall|j: int| 0 <= j < d.len() implies s[i + 3 + j] == d[j] by {
            assert(q[3 + j] == d[j]);
        }
    }
    assert(!d.contains(';')) by {
        assert forall|j: int| 0 <= j < d.len() implies d[j] != ';' by {
            assert(text::is_digit(d[j]));
        }
    }
    text::split_without_separator(d, ';');
}

proof fn pushes_are_observed(k: KittyView, s: Seq<char>, i: int, l: Seq<u16>)
    requires
        0 <= i <= s.len(),
        s.skip(i) == pushes(l),
    ensures
        levels(observed(k, s, i)) == levels(k) + l,
    decreases l.len(),
{
    if l.len() == 0 {
        assert(s.skip(i).len() == 0);
        assert(levels(k) + l =~= levels(k));
    } else {
        let q = numbered('>', l[0]);
        assert(s.skip(i) == q + pushes(l.skip(1)));
        assert(s.skip(i).len() == s.len() - i);
        assert(s.subrange(i, i + q.len()) =~= q) by {
            assert(s.subrange(i, i + q.len()) =~= s.skip(i).take(q.len() as int));
            assert((q + pushes(l.skip(1))).take(q.len() as int) =~= q);
        }
        assert(s.skip(i + q.len()) =~= pushes(l.skip(1))) by {
            assert(s.skip(i).skip(q.len() as int) =~= s.skip(i + q.len()));
            assert((q + pushes(l.skip(1))).skip(q.len() as int) =~= pushes(l.skip(1)));
        }
        numbered_is_read(s, i, '>', l[0]);
        let next = kitty_apply(k, KittyOp::Push { flags: l[0] });
        pushes_are_observed(next, s, i + q.len(), l.skip(1));
        assert(levels(next) + l.skip(1) =~= levels(k) + l);
    }
}

proof fn levels_determine(a: KittyView, b: KittyView)
    requires
        levels(a) == levels(b),
    ensures
        a == b,
{
    assert(a.stack =~= levels(a).drop_last());
    assert(b.stack =~= levels(b).drop_last());
    assert(a.flags == levels(a).last() && b.flags == levels(b).last());
}

/// Feeding a register's replay to the fresh register rebuilds it, saved
/// registers included.
pub proof fn replay_rebuilds(k: KittyView)
    ensures
        observed(kitty_fresh(), replay(k), 0) == k,
{
    let s = replay(k);
    let base = levels(k)[0];
    let rest = levels(k).skip(1);
    if base == 0 {
        assert(s.skip(0) =~= pushes(rest));
        pushes_are_observed(kitty_fresh(), s, 0, rest);
        assert(levels(kitty_fresh()) + rest =~= levels(k));
        levels_determine(observed(kitty_fresh(), s, 0), k);
    } else {
        let q = numbered('=', base);
        assert(s.subrange(0, q.len() as int) =~= q);
        numbered_is_read(s, 0, '=', base);
        let next = kitty_apply(kitty_fresh(), KittyOp::Assign { flags: base, mode: 1 });
        assert(s.skip(q.len() as int) =~= pushes(rest));
        pushes_are_observed(next, s, q.len() as int, rest);
        assert(levels(next) + rest =~= levels(k));
        levels_determine(observed(kitty_fresh(), s, 0), k);
    }
}

proof fn numbered_is_ascii(prefix: char, n: u16)
    requires
        (prefix as u32) < 128,
    ensures
        vstd::utf8::is_ascii_chars(numbered(prefix, n)),
{
    let d = text::decimal(n as nat);
    text::decimal_reads_back(n as nat);
    assert forall|j: int| 0 <= j < numbered(prefix, n).len() implies '\0' <= #[trigger] numbered(
        prefix,
        n,
    )[j] <= '\u{7f}' by {
        if 3 <= j < 3 + d.len() {
            assert(text::is_digit(d[j - 3]));
        }
    }
}

proof fn pushes_are_ascii(l: Seq<u16>)
    ensures
        vstd::utf8::is_ascii_chars(pushes(l)),
    decreases l.len(),
{
    if l.len() > 0 {
        numbered_is_ascii('>', l[0]);
        pushes_are_ascii(l.skip(1));
        let a = numbered('>', l[0]);
        let b = pushes(l.skip(1));
        assert forall|j: int| 0 <= j < pushes(l).len() implies '\0' <= #[trigger] pushes(
            l,
        )[j] <= '\u{7f}' by {
            if j < a.len() {
                assert(pushes(l)[j] == a[j]);
            } else {
                assert(pushes(l)[j] == b[j - a.len()]);
            }
        }
    }
}

/// A register's replay survives being carried as a string: the bytes of the
/// replay text rebuild the register too.
pub proof fn replay_bytes_rebuild(k: KittyView)
    ensures
        observed(kitty_fresh(), byte_chars(vstd::utf8::encode_utf8(replay(k))), 0) == k,
{
    let r = replay(k);
    let base = levels(k)[0];
    numbered_is_ascii('=', base);
    pushes_are_ascii(levels(k).skip(1));
    assert(vstd::utf8::is_ascii_chars(r)) by {
        let a = if base == 0 {
            Seq::<char>::empty()
        } else {
            numbered('=', base)
        };
        let b = pushes(levels(k).skip(1));
        assert forall|j: int| 0 <= j < r.len() implies '\0' <= #[trigger] r[j] <= '\u{7f}' by {
            if j < a.len() {
                assert(r[j] == a[j]);
            } else {
                assert(r[j] == b[j - a.len()]);
            }
        }
    }
    vstd::utf8::is_ascii_chars_encode_utf8(r);
    assert(byte_chars(vstd::utf8::encode_utf8(r)) =~= r);
    replay_rebuilds(k);
}

/// Popping what was pushed restores the register, whatever it was.
pub proof fn pops_undo_pushes(k: KittyView, flags: u16)
    ensures
        kitty_apply(kitty_apply(k, KittyOp::Push { flags }), KittyOp::Pop { count: 1 }) == k,
        kitty_apply(k, KittyOp::Push { flags }).flags == flags,
        kitty_apply(k, KittyOp::Push { flags }).stack.len() == k.stack.len() + 1,
        kitty_apply(k, KittyOp::Pop { count: 0 }) == k,
{
    let pushed = kitty_apply(k, KittyOp::Push { flags });
    assert(pushed.stack.take(k.stack.len() as int) =~= k.stack);
}

/// Popping many registers is popping them one by one; popping more than there are
/// leaves a register with no flags.
pub proof fn pops_add_up(k: KittyView, a: u16, b: u16)
    requires
        a + b <= u16::MAX,
    ensures
        kitty_apply(kitty_apply(k, KittyOp::Pop { count: a }), KittyOp::Pop { count: b })
            == kitty_apply(k, KittyOp::Pop { count: (a + b) as u16 }),
        a > k.stack.len() ==> kitty_apply(k, KittyOp::Pop { count: a }).flags == 0 && kitty_apply(
            k,
            KittyOp::Pop { count: a },
        ).stack.len() == 0,
{
    let first = kitty_apply(k, KittyOp::Pop { count: a });
    let both = kitty_apply(k, KittyOp::Pop { count: (a + b) as u16 });
    let second = kitty_apply(first, KittyOp::Pop { count: b });
    assert(second.stack =~= both.stack);
}

/// Assigning in mode one replaces the flags, in mode two sets those given, in mode
/// three clears those given, bit by bit; any other mode does nothing. The registers
/// below stay.
pub proof fn assignments_change_flags(k: KittyView, flags: u16, mode: u16, i: u16)
    requires
        i < 16,
    ensures
        ({
            let after = kitty_apply(k, KittyOp::Assign { flags, mode });
            let was = (k.flags >> i) & 1 == 1;
            let given = (flags >> i) & 1 == 1;
            let is = (after.flags >> i) & 1 == 1;
            &&& after.stack == k.stack
            &&& mode == 1 ==> after.flags == flags
            &&& mode == 2 ==> (is <==> was || given)
            &&& mode == 3 ==> (is <==> was && !given)
            &&& mode == 0 || mode > 3 ==> after.flags == k.flags
        }),
{
    let f = k.flags;
    assert((((f | flags) >> i) & 1 == 1) <==> ((f >> i) & 1 == 1 || (flags >> i) & 1 == 1))
        by (bit_vector)
        requires
            i < 16,
    ;
    assert((((f & !flags) >> i) & 1 == 1) <==> ((f >> i) & 1 == 1 && !((flags >> i) & 1 == 1)))
        by (bit_vector)
        requires
            i < 16,
    ;
}

proof fn plain_output_is_passed_over(k: KittyView, s: Seq<char>, i: int, j: int)
    requires
        0 <= i <= j <= s.len(),
        forall|l: int| i <= l < j ==> #[trigger] s[l] != ESC,
    ensures
        observed(k, s, i) == observed(k, s, j),
    decreases j - i,
{
    if i < j {
        assert(sequence_at(s, i) is None);
        plain_output_is_passed_over(k, s, i + 1, j);
    }
}

/// Output without escapes leaves the register alone.
pub proof fn plain_output_changes_nothing(k: KittyView, s: Seq<char>)
    requires
        !s.contains('\u{1b}'),
    ensures
        observed(k, s, 0) == k,
{
    plain_output_is_passed_over(k, s, 0, s.len() as int);
}

/// `ESC [ = n u` after any plain output assigns the flags, `ESC [ > n u` pushes
/// them, `ESC [ < n u` pops that many registers.
pub proof fn sequences_are_observed(k: KittyView, before: Seq<char>, n: u16, prefix: char)
    requires
        !before.contains('\u{1b}'),
    ensures
        ({
            let s = before + seq!['\u{1b}', '[', prefix] + text::decimal(n as nat) + seq!['u'];
            &&& prefix == '=' ==> observed(k, s, 0) == (KittyView { flags: n, stack: k.stack })
            &&& prefix == '>' ==> observed(k, s, 0) == (KittyView {
                flags: n,
                stack: k.stack.push(k.flags),
            })
            &&& prefix == '<' ==> observed(k, s, 0) == kitty_apply(k, KittyOp::Pop { count: n })
        }),
{
    let tail = numbered(prefix, n);
    let s = before + seq!['\u{1b}', '[', prefix] + text::decimal(n as nat) + seq!['u'];
    let i = before.len() as int;
    assert(s =~= before + tail);
    assert(s.subrange(i, i + tail.len()) =~= tail);
    assert forall|l: int| 0 <= l < i implies #[trigger] s[l] != ESC by {
        assert(before.contains(before[l]));
    }
    plain_output_is_passed_over(k, s, 0, i);
    numbered_is_read(s, i, prefix, n);
    if prefix == '=' || prefix == '>' || prefix == '<' {
        let op = kitty_op(prefix, seq![text::decimal(n as nat)])->0;
        assert(observed(k, s, i) == observed(kitty_apply(k, op), s, s.len() as int));
    }
}

/// A field that is left out stands for no flags, for mode one, or for one
/// register. A second field of an assignment is its mode.
pub proof fn fields_have_defaults(a: Seq<char>, b: Seq<char>, prefix: char)
    requires
        text::all_digits(a),
        text::all_digits(b),
    ensures
        kitty_op('=', seq![Seq::<char>::empty()]) == Some(KittyOp::Assign { flags: 0, mode: 1 }),
        kitty_op('>', seq![Seq::<char>::empty()]) == Some(KittyOp::Push { flags: 0 }),
        kitty_op('<', seq![Seq::<char>::empty()]) == Some(KittyOp::Pop { count: 1 }),
        a.len() > 0 && b.len() > 0 ==> (kitty_op('=', seq![a, b]) matches Some(
            KittyOp::Assign { flags, mode },
        ) ==> flags == text::digits_value(a) && mode == text::digits_value(b)),
        a.len() > 0 && b.len() > 0 ==> (kitty_op('=', seq![a, b]) is Some <==> text::digits_value(
            a,
        ) <= 0xffff && text::digits_value(b) <= 0xffff),
        a.len() > 0 && b.len() == 0 ==> kitty_op('=', seq![a, b]) == kitty_op('=', seq![a]),
        kitty_op('>', seq![a, b]) is None,
        kitty_op('<', seq![a, b]) is None,
        prefix != '=' && prefix != '>' && prefix != '<' ==> kitty_op(prefix, seq![a]) is None,
{
}

} // verus!
