//! Handing a pane over to a replacement process.

use vstd::prelude::*;
use crate::pane::terminal::InputState;

verus! {

/// What a replacement process needs to know of a pane.
#[derive(Debug, PartialEq, Eq)]
pub struct HandoffRuntimeState {
    pub pane_id: u32,
    pub child_pid: u32,
    pub rows: u16,
    pub cols: u16,
    pub cell_width_px: u32,
    pub cell_height_px: u32,
    pub keyboard_protocol_flags: u16,
    /// The sequences that rebuild the keyboard register.
    pub keyboard_protocol_ansi: Option<String>,
    pub input_state: Option<InputState>,
    pub initial_history_ansi: Option<String>,
}

/// The first newline from `i` on, or the end.
pub open spec fn newline_from(b: Seq<u8>, i: int) -> int
    decreases b.len() - i,
{
    if 0 <= i < b.len() && b[i] != 0x0a {
        newline_from(b, i + 1)
    } else {
        i
    }
}

/// A history cut down to a number of bytes: what follows the first newline of its
/// last `max` bytes. Where these hold no newline, nothing is left.
pub open spec fn truncated(b: Seq<u8>, max: nat) -> Seq<u8> {
    if b.len() <= max {
        b
    } else {
        let k = newline_from(b, b.len() - max);
        if k < b.len() {
            b.skip(k + 1)
        } else {
            Seq::empty()
        }
    }
}

proof fn boundary_after_newline(b: Seq<u8>, k: int)
    requires
        vstd::utf8::valid_utf8(b),
        0 <= k < b.len(),
        b[k] == 0x0a,
    ensures
        vstd::utf8::is_char_boundary(b, k + 1),
    decreases b.len(),
{
    broadcast use vstd::utf8::is_char_boundary_iff_not_is_continuation_byte;

    let n = vstd::utf8::length_of_first_scalar(b);
    let rest = vstd::utf8::pop_first_scalar(b);
    assert(!vstd::utf8::is_continuation_byte(b[k]));
    assert(vstd::utf8::is_char_boundary(b, k));
    if k == 0 {
        assert(n == 1);
        reveal_with_fuel(vstd::utf8::is_char_boundary, 2);
    } else {
        reveal_with_fuel(vstd::utf8::is_char_boundary, 2);
        assert(k >= n);
        assert(rest[k - n] == b[k]);
        boundary_after_newline(rest, k - n);
    }
}

/// Cuts a history down to at most `max_bytes`, keeping the most recent whole
/// lines.
pub fn truncate_handoff_history(history: String, max_bytes: usize) -> (r: String)
    ensures
        vstd::utf8::encode_utf8(r@) == truncated(
            vstd::utf8::encode_utf8(history@),
            max_bytes as nat,
        ),
{
    broadcast use vstd::utf8::encode_utf8_valid_utf8;

    let bytes = history.as_str().as_bytes();
    if bytes.len() <= max_bytes {
        return history;
    }
    let start = bytes.len() - max_bytes;
    let mut i: usize = start;
    while i < bytes.len() && bytes[i] != 0x0a
        invariant
            start <= i <= bytes.len(),
            newline_from(bytes@, i as int) == newline_from(bytes@, start as int),
        decreases bytes.len() - i,
    {
        i += 1;
    }
    if i == bytes.len() {
        return String::new();
    }
    proof {
        boundary_after_newline(bytes@, i as int);
    }
    let (_, tail) = history.as_str().split_at(i + 1);
    assert(vstd::string::StringSliceAdditionalSpecFns::spec_bytes(tail) =~= bytes@.skip(i + 1));
    tail.to_owned()
}

/// What is left of a cut history fits, is an end of it, and begins a line.
pub proof fn cut_histories_fit(b: Seq<u8>, max: nat)
    ensures
        truncated(b, max).len() <= max,
        exists|k: int| 0 <= k <= b.len() && truncated(b, max) == b.skip(k),
        b.len() > max && truncated(b, max).len() > 0 ==> b[b.len() - truncated(b, max).len() - 1]
            == 0x0a,
{
    if b.len() <= max {
        assert(b.skip(0) =~= b);
    } else {
        newline_is_found(b, b.len() - max);
        let k = newline_from(b, b.len() - max);
        if k < b.len() {
            assert(truncated(b, max) == b.skip(k + 1));
        } else {
            assert(b.skip(b.len() as int) =~= Seq::<u8>::empty());
        }
    }
}

proof fn newline_is_found(b: Seq<u8>, i: int)
    requires
        0 <= i <= b.len(),
    ensures
        i <= newline_from(b, i) <= b.len(),
        newline_from(b, i) < b.len() ==> b[newline_from(b, i)] == 0x0a,
    decreases b.len() - i,
{
    if i < b.len() && b[i] != 0x0a {
        newline_is_found(b, i + 1);
    }
}

/// A history that fits is kept whole. A longer one keeps as much as whole lines
/// allow: no later part of it that begins a line and starts after a newline among
/// its last `max` bytes is longer than what is kept, and where there is such a
/// newline, what is kept begins right after one.
pub proof fn cuts_keep_as_much_as_they_can(b: Seq<u8>, max: nat, k: int)
    ensures
        b.len() <= max ==> truncated(b, max) == b,
        b.len() > max && b.len() - max <= k < b.len() && b[k] == 0x0a ==> truncated(b, max).len()
            >= b.skip(k + 1).len() && truncated(b, max) == b.skip(
            b.len() - truncated(b, max).len(),
        ) && b[b.len() - truncated(b, max).len() - 1] == 0x0a,
        b.len() > max && (forall|j: int| b.len() - max <= j < b.len() ==> b[j] != 0x0a)
            ==> truncated(b, max).len() == 0,
{
    if b.len() > max {
        newline_is_found(b, b.len() - max);
        if b.len() - max <= k < b.len() && b[k] == 0x0a {
            newline_comes_first(b, b.len() - max, k);
        }
    }
}

proof fn newline_comes_first(b: Seq<u8>, i: int, k: int)
    requires
        0 <= i <= k < b.len(),
        b[k] == 0x0a,
    ensures
        newline_from(b, i) <= k,
    decreases k - i,
{
    if b[i] != 0x0a {
        newline_comes_first(b, i + 1, k);
    }
}

/// A history that fits comes back as it is. A longer one comes back as its longest
/// end that begins right after a newline among the last `max_bytes` bytes, or empty
/// if there is no such newline.
pub proof fn histories_are_cut_at_the_first_line(
    history: String,
    max_bytes: usize,
    r: String,
    k: int,
)
    requires
        call_ensures(truncate_handoff_history, (history, max_bytes), r),
    ensures
        ({
            let before = vstd::utf8::encode_utf8(history@);
            let after = vstd::utf8::encode_utf8(r@);
            &&& before.len() <= max_bytes ==> after == before
            &&& before.len() > max_bytes && before.len() - max_bytes <= k < before.len()
                && before[k] == 0x0a ==> after.len() >= before.skip(k + 1).len() && after
                == before.skip(before.len() - after.len()) && before[before.len() - after.len() - 1]
                == 0x0a
            &&& before.len() > max_bytes ==> after.len() < max_bytes || max_bytes == 0
            &&& before.len() > max_bytes && after.len() > 0 ==> before[before.len() - after.len()
                - 1] == 0x0a
        }),
{
    let before = vstd::utf8::encode_utf8(history@);
    cuts_keep_as_much_as_they_can(before, max_bytes as nat, k);
    if before.len() > max_bytes {
        newline_is_found(before, before.len() - max_bytes);
    }
}

} // verus!
