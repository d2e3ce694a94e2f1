//! Reading terminal output: plain characters, control sequences and operating
//! system commands.

use vstd::prelude::*;
use crate::kitty_keyboard;
use crate::text;

verus! {

/// Opens every sequence.
pub const ESC: char = '\u{1b}';

/// Ends an operating system command.
pub const BEL: char = '\u{7}';

/// One piece of output.
pub enum VtToken {
    /// `CSI`: an optional prefix, parameters, an optional space and a final
    /// character.
    Csi { prefix: Option<char>, params: Vec<char>, space: bool, fin: char },
    /// A control sequence the output ends in.
    OpenCsi,
    /// `OSC`: the text up to its terminator.
    Osc(Vec<char>),
    /// An escape that opens neither.
    BadEscape,
    /// Any other character.
    Plain(char),
}

/// What a [`VtToken`] holds.
pub enum VtTokenView {
    Csi { prefix: Option<char>, params: Seq<char>, space: bool, fin: char },
    OpenCsi,
    Osc(Seq<char>),
    BadEscape,
    Plain(char),
}

impl View for VtToken {
    type V = VtTokenView;

    open spec fn view(&self) -> VtTokenView {
        match self {
            VtToken::Csi { prefix, params, space, fin } => VtTokenView::Csi {
                prefix: *prefix,
                params: params@,
                space: *space,
                fin: *fin,
            },
            VtToken::OpenCsi => VtTokenView::OpenCsi,
            VtToken::Osc(body) => VtTokenView::Osc(body@),
            VtToken::BadEscape => VtTokenView::BadEscape,
            VtToken::Plain(c) => VtTokenView::Plain(*c),
        }
    }
}

/// The characters that may open a control sequence's parameters.
pub open spec fn is_prefix(c: char) -> bool {
    c == '?' || c == '>' || c == '=' || c == '<'
}

/// The characters between a control sequence's opening and its final one.
pub open spec fn is_inner(c: char) -> bool {
    kitty_keyboard::is_param(c) || c == ' '
}

/// Where the run of inner characters from `i` on ends.
pub open spec fn inner_end(s: Seq<char>, i: int) -> int
    decreases s.len() - i,
{
    if 0 <= i < s.len() && is_inner(s[i]) {
        inner_end(s, i + 1)
    } else {
        i
    }
}

/// The parameter characters among a run of inner ones.
pub open spec fn params_of(s: Seq<char>) -> Seq<char>
    decreases s.len(),
{
    if s.len() == 0 {
        Seq::empty()
    } else if s.last() == ' ' {
        params_of(s.drop_last())
    } else {
        params_of(s.drop_last()).push(s.last())
    }
}

/// Where the text of an operating system command from `i` on ends.
pub open spec fn osc_end(s: Seq<char>, i: int) -> int
    decreases s.len() - i,
{
    if 0 <= i < s.len() && s[i] != BEL && s[i] != ESC {
        osc_end(s, i + 1)
    } else {
        i
    }
}

/// The control sequence whose parameters begin at `j`, and where it ends.
pub open spec fn csi_at(s: Seq<char>, j: int) -> (VtTokenView, int) {
    let prefix = if j < s.len() && is_prefix(s[j]) {
        Some(s[j])
    } else {
        None
    };
    let start = if prefix is Some {
        j + 1
    } else {
        j
    };
    let e = inner_end(s, start);
    if e < s.len() {
        (
            VtTokenView::Csi {
                prefix,
                params: params_of(s.subrange(start, e)),
                space: s.subrange(start, e).contains(' '),
                fin: s[e],
            },
            e + 1,
        )
    } else {
        (VtTokenView::OpenCsi, s.len() as int)
    }
}

/// The operating system command whose text begins at `j`, and where it ends:
/// after a bell, or after an escape and a backslash that follows it.
pub open spec fn osc_at(s: Seq<char>, j: int) -> (VtTokenView, int) {
    let e = osc_end(s, j);
    let next = if e >= s.len() {
        s.len() as int
    } else if s[e] == ESC && e + 1 < s.len() && s[e + 1] == '\\' {
        e + 2
    } else {
        e + 1
    };
    (VtTokenView::Osc(s.subrange(j, e)), next)
}

/// The piece of output at `i`, and where it ends.
pub open spec fn token_at(s: Seq<char>, i: int) -> (VtTokenView, int) {
    if s[i] != ESC {
        (VtTokenView::Plain(s[i]), i + 1)
    } else if i + 1 < s.len() && s[i + 1] == '[' {
        csi_at(s, i + 2)
    } else if i + 1 < s.len() && s[i + 1] == ']' {
        osc_at(s, i + 2)
    } else {
        (VtTokenView::BadEscape, if i + 2 <= s.len() {
            i + 2
        } else {
            i + 1
        })
    }
}

fn read_csi(s: &Vec<char>, j: usize) -> (r: (VtToken, usize))
    requires
        j <= s.len(),
    ensures
        (r.0@, r.1 as int) == csi_at(s@, j as int),
        j <= r.1 <= s.len(),
{
    let prefix = if j < s.len() && (s[j] == '?' || s[j] == '>' || s[j] == '=' || s[j] == '<') {
        Some(s[j])
    } else {
        None
    };
    let start: usize = if prefix.is_some() {
        j + 1
    } else {
        j
    };
    let mut e: usize = start;
    let mut params: Vec<char> = Vec::new();
    let mut space = false;
    assert(s@.subrange(start as int, start as int) =~= Seq::<char>::empty());
    while e < s.len() && (kitty_keyboard::is_param_char(s[e]) || s[e] == ' ')
        invariant
            start <= e <= s.len(),
            inner_end(s@, e as int) == inner_end(s@, start as int),
            params@ == params_of(s@.subrange(start as int, e as int)),
            space == s@.subrange(start as int, e as int).contains(' '),
        decreases s.len() - e,
    {
        proof {
            let before = s@.subrange(start as int, e as int);
            let more = s@.subrange(start as int, e + 1);
            assert(more.drop_last() =~= before);
            assert(more =~= before.push(s@[e as int]));
            assert(more.contains(' ') == (before.contains(' ') || s@[e as int] == ' ')) by {
                if before.contains(' ') {
                    let k = before.index_of(' ');
                    assert(more[k] == ' ');
                }
                if s@[e as int] == ' ' {
                    assert(more[e - start] == ' ');
                }
                if more.contains(' ') {
                    let k = more.index_of(' ');
                    if k < before.len() {
                        assert(before[k] == ' ');
                    }
                }
            }
        }
        if s[e] == ' ' {
            space = true;
        } else {
            params.push(s[e]);
        }
        e += 1;
    }
    if e < s.len() {
        (VtToken::Csi { prefix, params, space, fin: s[e] }, e + 1)
    } else {
        (VtToken::OpenCsi, s.len())
    }
}

fn read_osc(s: &Vec<char>, j: usize) -> (r: (VtToken, usize))
    requires
        j <= s.len(),
    ensures
        (r.0@, r.1 as int) == osc_at(s@, j as int),
        j <= r.1 <= s.len(),
{
    let mut e: usize = j;
    let mut body: Vec<char> = Vec::new();
    while e < s.len() && s[e] != BEL && s[e] != ESC
        invariant
            j <= e <= s.len(),
            osc_end(s@, e as int) == osc_end(s@, j as int),
            body@ == s@.subrange(j as int, e as int),
        decreases s.len() - e,
    {
        body.push(s[e]);
        e += 1;
        assert(body@ =~= s@.subrange(j as int, e as int));
    }
    let next: usize = if e >= s.len() {
        s.len()
    } else if s[e] == ESC && s.len() - e > 1 && s[e + 1] == '\\' {
        e + 2
    } else {
        e + 1
    };
    (VtToken::Osc(body), next)
}

/// Reads the piece of output at `i`.
pub fn read_token(s: &Vec<char>, i: usize) -> (r: (VtToken, usize))
    requires
        i < s.len(),
    ensures
        (r.0@, r.1 as int) == token_at(s@, i as int),
        i < r.1 <= s.len(),
{
    if s[i] != ESC {
        (VtToken::Plain(s[i]), i + 1)
    } else if s.len() - i > 1 && s[i + 1] == '[' {
        read_csi(s, i + 2)
    } else if s.len() - i > 1 && s[i + 1] == ']' {
        read_osc(s, i + 2)
    } else if s.len() - i > 1 {
        (VtToken::BadEscape, i + 2)
    } else {
        (VtToken::BadEscape, i + 1)
    }
}

/// The number a parameter field holds; one that does not fit counts as zero.
pub open spec fn field_number(field: Seq<char>) -> u16 {
    match text::small_number(field) {
        Some(n) => n,
        None => 0,
    }
}

/// The numbers of the fields that are not empty.
pub open spec fn field_numbers(fields: Seq<Seq<char>>) -> Seq<u16>
    decreases fields.len(),
{
    if fields.len() == 0 {
        Seq::empty()
    } else if fields.last().len() == 0 {
        field_numbers(fields.drop_last())
    } else {
        field_numbers(fields.drop_last()).push(field_number(fields.last()))
    }
}

/// A control sequence's parameters. Empty ones are left out.
pub open spec fn numbers(params: Seq<char>) -> Seq<u16> {
    field_numbers(text::split_on(params, ';'))
}

/// `params` holds digits and separators only.
pub open spec fn all_params(params: Seq<char>) -> bool {
    forall|j: int| 0 <= j < params.len() ==> kitty_keyboard::is_param(#[trigger] params[j])
}

/// Reads a control sequence's parameters.
pub fn read_numbers(params: &Vec<char>) -> (r: Vec<u16>)
    requires
        all_params(params@),
    ensures
        r@ == numbers(params@),
{
    let fields = text::split_chars(params, ';');
    proof {
        kitty_keyboard::split_params_are_digits(params@);
    }
    let ghost pieces = text::pieces_view(fields@);
    let mut out: Vec<u16> = Vec::new();
    let mut i: usize = 0;
    assert(pieces.take(0) =~= Seq::<Seq<char>>::empty());
    while i < fields.len()
        invariant
            i <= fields.len(),
            pieces == text::pieces_view(fields@),
            forall|j: int| 0 <= j < pieces.len() ==> text::all_digits(#[trigger] pieces[j]),
            out@ == field_numbers(pieces.take(i as int)),
        decreases fields.len() - i,
    {
        assert(pieces[i as int] == fields@[i as int]@);
        assert(pieces.take(i + 1).drop_last() =~= pieces.take(i as int));
        if fields[i].len() > 0 {
            match text::parse_small(&fields[i]) {
                Some(n) => {
                    out.push(n);
                },
                None => {
                    out.push(0);
                },
            }
        }
        i += 1;
    }
    assert(pieces.take(i as int) =~= pieces);
    out
}

/// Every control sequence's parameters are digits and separators.
pub proof fn csi_params_are_numeric(s: Seq<char>, i: int)
    requires
        0 <= i < s.len(),
    ensures
        token_at(s, i).0 matches VtTokenView::Csi { params, .. } ==> all_params(params),
{
    let j = i + 2;
    let start = if j < s.len() && is_prefix(s[j]) {
        j + 1
    } else {
        j
    };
    if start <= s.len() {
        inner_run(s, start);
        let e = inner_end(s, start);
        if e < s.len() {
            params_of_inner(s.subrange(start, e));
        }
    }
}

proof fn inner_run(s: Seq<char>, i: int)
    requires
        0 <= i <= s.len(),
    ensures
        i <= inner_end(s, i) <= s.len(),
        forall|k: int| i <= k < inner_end(s, i) ==> is_inner(#[trigger] s[k]),
    decreases s.len() - i,
{
    if i < s.len() && is_inner(s[i]) {
        inner_run(s, i + 1);
    }
}

proof fn params_of_inner(s: Seq<char>)
    requires
        forall|k: int| 0 <= k < s.len() ==> is_inner(#[trigger] s[k]),
    ensures
        all_params(params_of(s)),
    decreases s.len(),
{
    if s.len() > 0 {
        let front = s.drop_last();
        assert forall|k: int| 0 <= k < front.len() implies is_inner(#[trigger] front[k]) by {
            assert(front[k] == s[k]);
        }
        params_of_inner(front);
        assert(is_inner(s[s.len() - 1]));
        let p = params_of(s);
        let q = params_of(front);
        assert forall|k: int| 0 <= k < p.len() implies kitty_keyboard::is_param(#[trigger] p[k]) by {
            if k < q.len() {
                assert(p[k] == q[k]);
            }
        }
    }
}

proof fn inner_end_is(s: Seq<char>, i: int, e: int)
    requires
        0 <= i <= e <= s.len(),
        forall|j: int| i <= j < e ==> is_inner(#[trigger] s[j]),
        e < s.len() ==> !is_inner(s[e]),
    ensures
        inner_end(s, i) == e,
    decreases e - i,
{
    if i < e {
        inner_end_is(s, i + 1, e);
    }
}

proof fn params_without_spaces(s: Seq<char>)
    requires
        !s.contains(' '),
    ensures
        params_of(s) == s,
    decreases s.len(),
{
    if s.len() > 0 {
        assert(s.contains(s.last()));
        assert forall|x: char| s.drop_last().contains(x) implies s.contains(x) by {
            let i = s.drop_last().index_of(x);
            assert(s[i] == x);
        }
        params_without_spaces(s.drop_last());
        assert(s.drop_last().push(s.last()) =~= s);
    }
}

/// A control sequence is `ESC [`, perhaps one of `? > = <`, digits and semicolons,
/// and a final character; it is read as these, and reading goes on right behind it.
/// One that has no final character is open to the end.
pub proof fn control_sequences_are_read(
    before: Seq<char>,
    prefix: Option<char>,
    params: Seq<char>,
    fin: char,
    after: Seq<char>,
)
    requires
        prefix matches Some(p) ==> p == '?' || p == '>' || p == '=' || p == '<',
        forall|j: int|
            0 <= j < params.len() ==> '0' <= #[trigger] params[j] <= '9' || params[j] == ';',
        !('0' <= fin <= '9') && fin != ';' && fin != ' ',
        prefix is None && params.len() == 0 ==> fin != '?' && fin != '>' && fin != '=' && fin
            != '<',
    ensures
        ({
            let head = before + seq!['\u{1b}', '['] + (if prefix is Some {
                seq![prefix->0]
            } else {
                Seq::empty()
            }) + params;
            let s = head + seq![fin] + after;
            &&& token_at(s, before.len() as int) == (
                VtTokenView::Csi { prefix, params, space: false, fin },
                (head.len() + 1) as int,
            )
            &&& token_at(head, before.len() as int) == (VtTokenView::OpenCsi, head.len() as int)
        }),
{
    let lead = before + seq!['\u{1b}', '['] + (if prefix is Some {
        seq![prefix->0]
    } else {
        Seq::empty()
    });
    let head = lead + params;
    let s = head + seq![fin] + after;
    let i = before.len() as int;
    let start = lead.len() as int;
    let e = head.len() as int;
    assert(s[i] == ESC && s[i + 1] == '[');
    assert(head[i] == ESC && head[i + 1] == '[');
    assert(s[e] == fin);
    assert(s.subrange(start, e) =~= params);
    assert forall|j: int| start <= j < e implies is_inner(#[trigger] s[j]) && is_inner(
        head[j],
    ) by {
        assert(s[j] == params[j - start]);
        assert(head[j] == params[j - start]);
    }
    assert(!params.contains(' ')) by {
        if params.contains(' ') {
            let j = params.index_of(' ');
            assert(params[j] == ' ');
        }
    }
    inner_end_is(s, start, e);
    inner_end_is(head, start, e);
    params_without_spaces(params);
    if prefix is Some {
        assert(s[i + 2] == prefix->0);
        assert(head[i + 2] == prefix->0);
    } else if params.len() > 0 {
        assert(s[i + 2] == params[0]);
        assert(head[i + 2] == params[0]);
    } else {
        assert(s[i + 2] == fin);
    }
}

proof fn osc_end_is(s: Seq<char>, i: int, e: int)
    requires
        0 <= i <= e <= s.len(),
        forall|j: int| i <= j < e ==> #[trigger] s[j] != BEL && s[j] != ESC,
        e < s.len() ==> s[e] == BEL || s[e] == ESC,
    ensures
        osc_end(s, i) == e,
    decreases e - i,
{
    if i < e {
        osc_end_is(s, i + 1, e);
    }
}

/// An operating system command is `ESC ]`, its text, and a bell or `ESC \`; its text
/// is read as it is, and reading goes on right behind the end.
pub proof fn commands_are_read(before: Seq<char>, body: Seq<char>, after: Seq<char>)
    requires
        !body.contains('\u{7}'),
        !body.contains('\u{1b}'),
    ensures
        ({
            let head = before + seq!['\u{1b}', ']'] + body;
            &&& token_at(head + seq!['\u{7}'] + after, before.len() as int) == (
                VtTokenView::Osc(body),
                (head.len() + 1) as int,
            )
            &&& token_at(head + seq!['\u{1b}', '\\'] + after, before.len() as int) == (
                VtTokenView::Osc(body),
                (head.len() + 2) as int,
            )
            &&& token_at(head, before.len() as int) == (
                VtTokenView::Osc(body),
                head.len() as int,
            )
        }),
{
    let head = before + seq!['\u{1b}', ']'] + body;
    let bell = head + seq!['\u{7}'] + after;
    let st = head + seq!['\u{1b}', '\\'] + after;
    let i = before.len() as int;
    let e = head.len() as int;
    assert forall|j: int| i + 2 <= j < e implies #[trigger] bell[j] != BEL && bell[j] != ESC
        && st[j] == bell[j] && head[j] == bell[j] by {
        assert(bell[j] == body[j - i - 2]);
        assert(body.contains(body[j - i - 2]));
    }
    assert forall|j: int| i + 2 <= j < e implies #[trigger] st[j] != BEL && st[j] != ESC by {
        assert(st[j] == bell[j]);
    }
    assert forall|j: int| i + 2 <= j < e implies #[trigger] head[j] != BEL && head[j] != ESC by {
        assert(head[j] == bell[j]);
    }
    osc_end_is(bell, i + 2, e);
    osc_end_is(st, i + 2, e);
    osc_end_is(head, i + 2, e);
    assert(bell[e] == BEL);
    assert(st[e] == ESC && st[e + 1] == '\\');
    assert(bell.subrange(i + 2, e) =~= body);
    assert(st.subrange(i + 2, e) =~= body);
    assert(head.subrange(i + 2, e) =~= body);
}

/// Anything but an escape is read as itself; an escape that begins neither a control
/// sequence nor a command is a bad one.
pub proof fn other_characters_are_plain(s: Seq<char>, i: int)
    requires
        0 <= i < s.len(),
    ensures
        s[i] != '\u{1b}' ==> token_at(s, i) == (VtTokenView::Plain(s[i]), i + 1),
        s[i] == '\u{1b}' && (i + 1 == s.len() || s[i + 1] != '[' && s[i + 1] != ']') ==> token_at(
            s,
            i,
        ).0 is BadEscape,
{
}

/// The parameters of a sequence are the numbers between its semicolons: an empty
/// one is left out, and one too large is zero.
pub proof fn parameters_are_numbers(a: Seq<char>, b: Seq<char>, n: nat)
    ensures
        numbers(a.push(';') + b) == numbers(a) + numbers(b),
        n <= 0xffff ==> numbers(text::decimal(n)) == seq![n as u16],
        n > 0xffff ==> numbers(text::decimal(n)) == seq![0u16],
        numbers(Seq::empty()).len() == 0,
{
    text::splits_cut_at_separators(a, b, ';');
    fields_follow_one_another(text::split_on(a, ';'), text::split_on(b, ';'));
    reveal_with_fuel(field_numbers, 2);
    text::decimal_reads_back(n);
    text::small_numbers_are_read(n, Seq::empty());
    let d = text::decimal(n);
    if d.contains(';') {
        assert(text::is_digit(d[d.index_of(';')]));
    }
    text::split_without_separator(d, ';');
    assert(seq![d].drop_last() =~= Seq::<Seq<char>>::empty());
    let v: u16 = if n <= 0xffff {
        n as u16
    } else {
        0
    };
    assert(numbers(d) =~= seq![v]);
    assert(seq![Seq::<char>::empty()].drop_last() =~= Seq::<Seq<char>>::empty());
}

proof fn fields_follow_one_another(a: Seq<Seq<char>>, b: Seq<Seq<char>>)
    ensures
        field_numbers(a + b) == field_numbers(a) + field_numbers(b),
    decreases b.len(),
{
    if b.len() == 0 {
        assert(a + b =~= a);
        assert(field_numbers(a + b) =~= field_numbers(a) + field_numbers(b));
    } else {
        fields_follow_one_another(a, b.drop_last());
        assert((a + b).drop_last() =~= a + b.drop_last());
        assert(field_numbers(a + b) =~= field_numbers(a) + field_numbers(b));
    }
}

} // verus!
