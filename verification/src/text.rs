//! Small text vocabulary: whitespace, trimming, decimal numbers and the
//! conversions between strings and character vectors.

use vstd::prelude::*;
use vstd::string::*;

verus! {

/// The Unicode `White_Space` property.
pub open spec fn is_white_space(c: char) -> bool {
    let u = c as u32;
    ||| 0x9 <= u <= 0xD
    ||| u == 0x20
    ||| u == 0x85
    ||| u == 0xA0
    ||| u == 0x1680
    ||| 0x2000 <= u <= 0x200A
    ||| u == 0x2028
    ||| u == 0x2029
    ||| u == 0x202F
    ||| u == 0x205F
    ||| u == 0x3000
}

/// Whether `c` has the Unicode `White_Space` property.
pub fn char_is_white_space(c: char) -> (r: bool)
    ensures
        r == is_white_space(c),
{
    let u = c as u32;
    (0x9 <= u && u <= 0xD) || u == 0x20 || u == 0x85 || u == 0xA0 || u == 0x1680 || (0x2000 <= u
        && u <= 0x200A) || u == 0x2028 || u == 0x2029 || u == 0x202F || u == 0x205F || u == 0x3000
}

/// `s` without its trailing whitespace.
pub open spec fn trimmed_end(s: Seq<char>) -> Seq<char>
    decreases s.len(),
{
    if s.len() > 0 && is_white_space(s.last()) {
        trimmed_end(s.drop_last())
    } else {
        s
    }
}

/// `s` without its leading whitespace.
pub open spec fn trimmed_start(s: Seq<char>) -> Seq<char>
    decreases s.len(),
{
    if s.len() > 0 && is_white_space(s.first()) {
        trimmed_start(s.drop_first())
    } else {
        s
    }
}

/// `s` without leading and trailing whitespace.
pub open spec fn trimmed(s: Seq<char>) -> Seq<char> {
    trimmed_end(trimmed_start(s))
}

/// `String::push` appends one character.
pub assume_specification[ String::push ](s: &mut String, c: char)
    ensures
        final(s)@ == old(s)@.push(c),
;

/// The characters of a string.
pub fn chars_of(s: &str) -> (r: Vec<char>)
    ensures
        r@ == s@,
{
    let mut out: Vec<char> = Vec::new();
    for c in it: s.chars()
        invariant
            out@ == s@.take(it.index() as int),
            it.seq() == s@,
    {
        out.push(c);
    }
    out
}

/// The string made of `v`'s characters.
pub fn string_of(v: &Vec<char>) -> (r: String)
    ensures
        r@ == v@,
{
    let mut out = String::new();
    let mut i: usize = 0;
    while i < v.len()
        invariant
            i <= v.len(),
            out@ == v@.take(i as int),
        decreases v.len() - i,
    {
        out.push(v[i]);
        i += 1;
    }
    out
}

/// Drops trailing whitespace.
pub fn trim_end(v: &mut Vec<char>)
    ensures
        final(v)@ == trimmed_end(old(v)@),
{
    let ghost start = v@;
    while v.len() > 0 && char_is_white_space(v[v.len() - 1])
        invariant
            trimmed_end(v@) == trimmed_end(start),
        decreases v.len(),
    {
        v.pop();
    }
}

/// The string without leading and trailing whitespace.
pub fn trim(s: &str) -> (r: String)
    ensures
        r@ == trimmed(s@),
{
    let v = chars_of(s);
    let mut start: usize = 0;
    assert(s@.skip(0) == s@);
    while start < v.len() && char_is_white_space(v[start])
        invariant
            v@ == s@,
            start <= v.len(),
            trimmed_start(s@) == trimmed_start(s@.skip(start as int)),
        decreases v.len() - start,
    {
        start += 1;
        assert(s@.skip(start - 1).drop_first() == s@.skip(start as int));
    }
    let mut rest: Vec<char> = Vec::new();
    let mut i = start;
    while i < v.len()
        invariant
            start <= i <= v.len(),
            rest@ == v@.subrange(start as int, i as int),
        decreases v.len() - i,
    {
        rest.push(v[i]);
        i += 1;
    }
    assert(rest@ == s@.skip(start as int));
    trim_end(&mut rest);
    string_of(&rest)
}

/// Whether `c` is an ASCII decimal digit.
pub open spec fn is_digit(c: char) -> bool {
    '0' <= c <= '9'
}

/// The digit character of a value below ten.
pub open spec fn digit_char(d: nat) -> char {
    (48 + d) as char
}

/// The decimal numeral of `n`, without leading zeros.
pub open spec fn decimal(n: nat) -> Seq<char>
    decreases n,
{
    if n < 10 {
        seq![digit_char(n)]
    } else {
        decimal(n / 10).push(digit_char(n % 10))
    }
}

/// The number a run of decimal digits denotes; the empty run denotes zero.
pub open spec fn digits_value(s: Seq<char>) -> nat
    decreases s.len(),
{
    if s.len() == 0 {
        0
    } else {
        (10 * digits_value(s.drop_last()) + (s.last() as int - 48)) as nat
    }
}

/// Every character of `s` is a digit.
pub open spec fn all_digits(s: Seq<char>) -> bool {
    forall|i: int| 0 <= i < s.len() ==> is_digit(#[trigger] s[i])
}

/// Reading a printed number back gives the number.
pub proof fn decimal_reads_back(n: nat)
    ensures
        all_digits(decimal(n)),
        decimal(n).len() > 0,
        digits_value(decimal(n)) == n,
    decreases n,
{
    if n < 10 {
        reveal_with_fuel(digits_value, 2);
        assert(decimal(n).drop_last() =~= Seq::<char>::empty());
    } else {
        decimal_reads_back(n / 10);
        assert(decimal(n).drop_last() =~= decimal(n / 10));
    }
}

/// Appends the decimal numeral of `n`.
pub fn push_decimal(out: &mut Vec<char>, n: u16)
    ensures
        final(out)@ == old(out)@ + decimal(n as nat),
    decreases n,
{
    let ghost start = out@;
    if n >= 10 {
        push_decimal(out, n / 10);
    }
    let d = (n % 10) as u8;
    out.push((48 + d) as char);
    assert(out@ == start + decimal(n as nat));
}

/// The value of `s` as a 16-bit number, if it fits.
pub open spec fn small_number(s: Seq<char>) -> Option<u16> {
    if digits_value(s) <= u16::MAX {
        Some(digits_value(s) as u16)
    } else {
        None
    }
}

proof fn digits_value_grows(s: Seq<char>, i: int)
    requires
        0 <= i <= s.len(),
        all_digits(s),
    ensures
        digits_value(s.take(i)) <= digits_value(s),
    decreases s.len(),
{
    if i < s.len() {
        assert(s.drop_last().take(i) =~= s.take(i));
        digits_value_grows(s.drop_last(), i);
    } else {
        assert(s.take(i) =~= s);
    }
}

/// Reads a run of digits as a 16-bit number.
pub fn parse_small(v: &Vec<char>) -> (r: Option<u16>)
    requires
        all_digits(v@),
    ensures
        r == small_number(v@),
{
    let mut n: u32 = 0;
    let mut i: usize = 0;
    while i < v.len()
        invariant
            all_digits(v@),
            i <= v.len(),
            n == digits_value(v@.take(i as int)),
            n <= u16::MAX,
        decreases v.len() - i,
    {
        assert(is_digit(v@[i as int]));
        let d = v[i] as u32 - 48;
        n = n * 10 + d;
        proof {
            assert(v@.take(i + 1).drop_last() =~= v@.take(i as int));
            digits_value_grows(v@, i + 1);
        }
        if n > 65535 {
            return None;
        }
        i += 1;
    }
    assert(v@.take(i as int) =~= v@);
    Some(n as u16)
}

/// The pieces of `s` between the occurrences of `sep`; one empty piece when
/// `s` is empty.
pub open spec fn split_on(s: Seq<char>, sep: char) -> Seq<Seq<char>>
    decreases s.len(),
{
    if s.len() == 0 {
        seq![Seq::<char>::empty()]
    } else {
        let pieces = split_on(s.drop_last(), sep);
        if s.last() == sep {
            pieces.push(Seq::<char>::empty())
        } else {
            pieces.drop_last().push(pieces.last().push(s.last()))
        }
    }
}

/// The character sequences behind a vector of character vectors.
pub open spec fn pieces_view(v: Seq<Vec<char>>) -> Seq<Seq<char>> {
    v.map_values(|p: Vec<char>| p@)
}

/// A text without the separator is its own single piece.
pub proof fn split_without_separator(s: Seq<char>, sep: char)
    requires
        !s.contains(sep),
    ensures
        split_on(s, sep) == seq![s],
    decreases s.len(),
{
    if s.len() > 0 {
        assert forall|i: int| 0 <= i < s.drop_last().len() implies s.drop_last()[i] != sep by {
            assert(s[i] != sep);
        }
        split_without_separator(s.drop_last(), sep);
        assert(s.last() != sep) by {
            assert(s[s.len() - 1] != sep);
        }
        assert(split_on(s, sep) =~= seq![s]) by {
            assert(s.drop_last().push(s.last()) =~= s);
        }
    } else {
        assert(s =~= Seq::<char>::empty());
    }
}

/// Splits at every separator.
pub fn split_chars(v: &Vec<char>, sep: char) -> (r: Vec<Vec<char>>)
    ensures
        pieces_view(r@) == split_on(v@, sep),
{
    let mut out: Vec<Vec<char>> = Vec::new();
    let mut current: Vec<char> = Vec::new();
    let mut i: usize = 0;
    assert(v@.take(0) =~= Seq::<char>::empty());
    assert(pieces_view(out@).push(current@) =~= seq![Seq::<char>::empty()]);
    while i < v.len()
        invariant
            i <= v.len(),
            pieces_view(out@).push(current@) == split_on(v@.take(i as int), sep),
        decreases v.len() - i,
    {
        let ghost before = pieces_view(out@).push(current@);
        assert(v@.take(i + 1).drop_last() =~= v@.take(i as int));
        if v[i] == sep {
            out.push(current);
            current = Vec::new();
            assert(pieces_view(out@) =~= before);
        } else {
            current.push(v[i]);
            assert(before.drop_last() =~= pieces_view(out@));
        }
        i += 1;
        assert(pieces_view(out@).push(current@) =~= split_on(v@.take(i as int), sep));
    }
    let ghost before = pieces_view(out@).push(current@);
    out.push(current);
    assert(pieces_view(out@) =~= before);
    assert(v@.take(i as int) =~= v@);
    out
}

/// Lines joined by newlines.
pub open spec fn joined_lines(lines: Seq<Seq<char>>) -> Seq<char>
    decreases lines.len(),
{
    if lines.len() == 0 {
        Seq::empty()
    } else if lines.len() == 1 {
        lines[0]
    } else {
        joined_lines(lines.drop_last()).push('\n') + lines.last()
    }
}

/// The lines of a list of strings.
pub open spec fn lines_view(lines: Seq<String>) -> Seq<Seq<char>> {
    lines.map_values(|l: String| l@)
}

/// Joins lines by newlines.
pub fn join_lines(lines: &Vec<String>) -> (r: String)
    ensures
        r@ == joined_lines(lines_view(lines@)),
{
    let mut out: Vec<char> = Vec::new();
    let mut i: usize = 0;
    assert(lines_view(lines@).take(0) =~= Seq::<Seq<char>>::empty());
    while i < lines.len()
        invariant
            i <= lines.len(),
            out@ == joined_lines(lines_view(lines@).take(i as int)),
        decreases lines.len() - i,
    {
        let ghost done = lines_view(lines@).take(i as int);
        if i > 0 {
            out.push('\n');
        }
        let mut line = chars_of(lines[i].as_str());
        out.append(&mut line);
        proof {
            let more = lines_view(lines@).take(i + 1);
            assert(more.drop_last() =~= done);
            assert(more.last() == lines@[i as int]@);
        }
        i += 1;
    }
    assert(lines_view(lines@).take(i as int) =~= lines_view(lines@));
    string_of(&out)
}

/// Trimming the end takes the white space there and nothing else: what is left is
/// the beginning of the text, ends in something visible, and only white space
/// followed it.
pub proof fn end_trims_take_white_space(s: Seq<char>)
    ensures
        ({
            let t = trimmed_end(s);
            &&& t.len() <= s.len()
            &&& t == s.take(t.len() as int)
            &&& t.len() > 0 ==> !is_white_space(t.last())
            &&& forall|i: int| t.len() <= i < s.len() ==> is_white_space(#[trigger] s[i])
        }),
    decreases s.len(),
{
    if s.len() > 0 && is_white_space(s.last()) {
        end_trims_take_white_space(s.drop_last());
        let t = trimmed_end(s.drop_last());
        assert(t =~= s.take(t.len() as int));
        assert forall|i: int| t.len() <= i < s.len() implies is_white_space(#[trigger] s[i]) by {
            if i < s.len() - 1 {
                assert(s[i] == s.drop_last()[i]);
            }
        }
    } else {
        assert(s =~= s.take(s.len() as int));
    }
}

proof fn start_trims_take_white_space(s: Seq<char>)
    ensures
        ({
            let t = trimmed_start(s);
            let a = s.len() - t.len();
            &&& 0 <= a <= s.len()
            &&& t == s.skip(a)
            &&& t.len() > 0 ==> !is_white_space(t.first())
            &&& forall|i: int| 0 <= i < a ==> is_white_space(#[trigger] s[i])
        }),
    decreases s.len(),
{
    if s.len() > 0 && is_white_space(s.first()) {
        start_trims_take_white_space(s.drop_first());
        let t = trimmed_start(s.drop_first());
        let a = s.len() - t.len();
        assert(t =~= s.skip(a));
        assert forall|i: int| 0 <= i < a implies is_white_space(#[trigger] s[i]) by {
            if i > 0 {
                assert(s[i] == s.drop_first()[i - 1]);
            }
        }
    } else {
        assert(s =~= s.skip(0));
    }
}

/// Trimming takes the white space at both ends and nothing else: what is left is
/// a stretch of the text that begins and ends in something visible, and only white
/// space stood around it.
pub proof fn trims_take_white_space(s: Seq<char>) -> (a: int)
    ensures
        ({
            let t = trimmed(s);
            &&& 0 <= a <= a + t.len() <= s.len()
            &&& t == s.subrange(a, a + t.len())
            &&& t.len() > 0 ==> !is_white_space(t.first()) && !is_white_space(t.last())
            &&& forall|i: int|
                0 <= i < s.len() && !(a <= i < a + t.len()) ==> is_white_space(#[trigger] s[i])
        }),
{
    start_trims_take_white_space(s);
    let u = trimmed_start(s);
    end_trims_take_white_space(u);
    let t = trimmed(s);
    let a = s.len() - u.len();
    assert(t =~= s.subrange(a, a + t.len()));
    if t.len() > 0 {
        assert(t.first() == u.first());
    }
    assert forall|i: int| 0 <= i < s.len() && !(a <= i < a + t.len()) implies is_white_space(
        #[trigger] s[i],
    ) by {
        if i >= a {
            assert(s[i] == u[i - a]);
        }
    }
    a
}

/// Of the ASCII characters, the blank, the tab and the line breaks are white
/// space; nothing printable is.
pub proof fn ascii_white_space(c: char)
    requires
        c as u32 <= 0x7f,
    ensures
        is_white_space(c) <==> c == ' ' || c == '\t' || c == '\n' || c == '\r' || c as u32 == 0xb
            || c as u32 == 0xc,
{
}

/// Beyond ASCII, white space is the next line, the spaces of every width, and the
/// separators of lines and paragraphs.
pub proof fn wide_white_space(c: char)
    requires
        c as u32 > 0x7f,
    ensures
        is_white_space(c) <==> c == '\u{85}' || c == '\u{a0}' || c == '\u{1680}' || '\u{2000}' <= c
            <= '\u{200a}' || c == '\u{2028}' || c == '\u{2029}' || c == '\u{202f}' || c == '\u{205f}'
            || c == '\u{3000}',
{
}

/// Splitting cuts at every separator: the pieces of two texts with a separator
/// between them are the pieces of the one, then those of the other.
pub proof fn splits_cut_at_separators(a: Seq<char>, b: Seq<char>, sep: char)
    ensures
        split_on(a.push(sep) + b, sep) == split_on(a, sep) + split_on(b, sep),
        split_on(b, sep).len() > 0,
    decreases b.len(),
{
    let s = a.push(sep) + b;
    if b.len() == 0 {
        assert(s =~= a.push(sep));
        assert(s.drop_last() =~= a);
        assert(split_on(s, sep) =~= split_on(a, sep) + split_on(b, sep));
    } else {
        splits_cut_at_separators(a, b.drop_last(), sep);
        assert(s.drop_last() =~= a.push(sep) + b.drop_last());
        assert(s.last() == b.last());
        assert(split_on(s, sep) =~= split_on(a, sep) + split_on(b, sep));
    }
}

/// No piece of a split text holds the separator.
pub proof fn pieces_hold_no_separator(s: Seq<char>, sep: char, k: int)
    requires
        0 <= k < split_on(s, sep).len(),
    ensures
        !split_on(s, sep)[k].contains(sep),
    decreases s.len(),
{
    if s.len() > 0 {
        let pieces = split_on(s.drop_last(), sep);
        splits_cut_at_separators(Seq::empty(), s.drop_last(), sep);
        if s.last() == sep {
            if k < pieces.len() {
                pieces_hold_no_separator(s.drop_last(), sep, k);
            }
        } else {
            pieces_hold_no_separator(s.drop_last(), sep, k);
            if k == pieces.len() - 1 {
                let p = split_on(s, sep)[k];
                assert(p == pieces[k].push(s.last()));
                if p.contains(sep) {
                    let j = p.index_of(sep);
                    assert(j < pieces[k].len());
                    assert(pieces[k][j] == sep);
                }
            }
        }
    }
}

/// Joining puts one line break between two runs of lines; one line is joined to
/// itself.
pub proof fn joins_break_between_lines(a: Seq<Seq<char>>, b: Seq<Seq<char>>, line: Seq<char>)
    requires
        a.len() > 0,
        b.len() > 0,
    ensures
        joined_lines(a + b) == joined_lines(a) + seq!['\n'] + joined_lines(b),
        joined_lines(seq![line]) == line,
        joined_lines(Seq::empty()) == Seq::<char>::empty(),
    decreases b.len(),
{
    let s = a + b;
    assert(s.last() == b.last());
    if b.len() == 1 {
        assert(s.drop_last() =~= a);
        assert(joined_lines(s) =~= joined_lines(a) + seq!['\n'] + joined_lines(b));
    } else {
        joins_break_between_lines(a, b.drop_last(), line);
        assert(s.drop_last() =~= a + b.drop_last());
        assert(joined_lines(s) =~= joined_lines(a) + seq!['\n'] + joined_lines(b));
    }
}

/// Splitting at line breaks and joining the lines again gives the text back.
pub proof fn joins_undo_splits(s: Seq<char>)
    ensures
        joined_lines(split_on(s, '\n')) == s,
    decreases s.len(),
{
    if s.len() > 0 {
        let t = s.drop_last();
        joins_undo_splits(t);
        let pieces = split_on(t, '\n');
        splits_cut_at_separators(Seq::empty(), t, '\n');
        assert(s =~= t.push(s.last()));
        if s.last() == '\n' {
            let none = Seq::<char>::empty();
            assert(pieces.push(none) =~= pieces + seq![none]);
            joins_break_between_lines(pieces, seq![none], none);
            assert(joined_lines(split_on(s, '\n')) =~= s);
        } else {
            let grown = pieces.last().push(s.last());
            let head = pieces.drop_last();
            assert(split_on(s, '\n') =~= head + seq![grown]);
            assert(pieces =~= head + seq![pieces.last()]);
            if head.len() == 0 {
                joins_break_between_lines(seq![grown], seq![grown], grown);
                joins_break_between_lines(seq![grown], seq![grown], pieces.last());
                assert(head + seq![grown] =~= seq![grown]);
                assert(pieces =~= seq![pieces.last()]);
            } else {
                joins_break_between_lines(head, seq![grown], grown);
                joins_break_between_lines(head, seq![pieces.last()], pieces.last());
            }
            assert(joined_lines(split_on(s, '\n')) =~= s);
        }
    }
}

/// A decimal number is written most significant digit first and without leading
/// zeros; read back, one more digit on the right is worth ten times what stood
/// there and the digit.
pub proof fn decimals_are_place_values(n: nat, s: Seq<char>, c: char)
    ensures
        decimal(n).last() as int == '0' as int + n % 10,
        n > 0 ==> decimal(n)[0] != '0',
        n < 10 ==> decimal(n).len() == 1,
        n >= 10 ==> decimal(n).drop_last() == decimal(n / 10),
        is_digit(c) ==> digits_value(s.push(c)) == 10 * digits_value(s) + (c as int - '0' as int),
        digits_value(Seq::empty()) == 0,
    decreases n,
{
    assert(s.push(c).drop_last() =~= s);
    if n >= 10 {
        decimals_are_place_values(n / 10, s, c);
        decimal_reads_back(n / 10);
        assert(decimal(n).drop_last() =~= decimal(n / 10));
    }
}

/// A number is read where it fits sixteen bits, as what its digits are worth, and
/// any number written in decimal is read as itself.
pub proof fn small_numbers_are_read(n: nat, s: Seq<char>)
    ensures
        n <= 0xffff ==> small_number(decimal(n)) == Some(n as u16),
        n > 0xffff ==> small_number(decimal(n)) is None,
        small_number(s) matches Some(v) ==> v == digits_value(s),
        small_number(s) is None <==> digits_value(s) > 0xffff,
{
    decimal_reads_back(n);
}

} // verus!
