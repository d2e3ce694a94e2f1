//! The rendered-frame shapes a pane's grid travels in.

use vstd::prelude::*;

verus! {

/// One grid cell.
#[derive(Debug, PartialEq, Eq)]
pub struct CellData {
    pub symbol: String,
    pub fg: u32,
    pub bg: u32,
    pub modifier: u16,
    pub skip: bool,
    /// Index into the frame's hyperlink table.
    pub hyperlink: Option<u32>,
}

/// What a [`CellData`] holds.
pub struct CellView {
    pub symbol: Seq<char>,
    pub fg: u32,
    pub bg: u32,
    pub modifier: u16,
    pub skip: bool,
    pub hyperlink: Option<u32>,
}

impl View for CellData {
    type V = CellView;

    open spec fn view(&self) -> CellView {
        CellView {
            symbol: self.symbol@,
            fg: self.fg,
            bg: self.bg,
            modifier: self.modifier,
            skip: self.skip,
            hyperlink: self.hyperlink,
        }
    }
}

impl Clone for CellData {
    fn clone(&self) -> (r: Self)
        ensures
            r@ == self@,
    {
        CellData {
            symbol: self.symbol.clone(),
            fg: self.fg,
            bg: self.bg,
            modifier: self.modifier,
            skip: self.skip,
            hyperlink: self.hyperlink,
        }
    }
}

/// A cursor within a frame.
#[derive(Debug, Clone, Copy, PartialEq, Eq)]
pub struct CursorState {
    pub x: u16,
    pub y: u16,
    pub visible: bool,
    /// DECSCUSR parameter; 0 means the terminal's default.
    pub shape: u8,
}

/// A complete rendered grid, row by row.
#[derive(Debug, PartialEq, Eq)]
pub struct FrameData {
    pub cells: Vec<CellData>,
    pub width: u16,
    pub height: u16,
    pub cursor: Option<CursorState>,
    pub hyperlinks: Vec<String>,
    pub graphics: Vec<u8>,
}

/// What a [`FrameData`] holds.
#[verifier::ext_equal]
pub struct FrameView {
    pub cells: Seq<CellView>,
    pub width: u16,
    pub height: u16,
    pub cursor: Option<CursorState>,
    pub hyperlinks: Seq<Seq<char>>,
    pub graphics: Seq<u8>,
}

/// The contents of a run of cells.
pub open spec fn cells_view(cells: Seq<CellData>) -> Seq<CellView> {
    cells.map_values(|c: CellData| c@)
}

/// The contents of a run of strings.
pub open spec fn texts_view(texts: Seq<String>) -> Seq<Seq<char>> {
    texts.map_values(|t: String| t@)
}

impl View for FrameData {
    type V = FrameView;

    open spec fn view(&self) -> FrameView {
        FrameView {
            cells: cells_view(self.cells@),
            width: self.width,
            height: self.height,
            cursor: self.cursor,
            hyperlinks: texts_view(self.hyperlinks@),
            graphics: self.graphics@,
        }
    }
}

/// A space in the default colours.
pub open spec fn blank_view() -> CellView {
    CellView { symbol: " "@, fg: 0, bg: 0, modifier: 0, skip: false, hyperlink: None }
}

/// A space in the default colours.
pub fn blank_cell() -> (r: CellData)
    ensures
        r@ == blank_view(),
{
    CellData { symbol: " ".to_string(), fg: 0, bg: 0, modifier: 0, skip: false, hyperlink: None }
}

/// A row-major run of `n` blanks.
pub fn blank_cells(n: usize) -> (r: Vec<CellData>)
    ensures
        cells_view(r@) == Seq::new(n as nat, |i: int| blank_view()),
{
    let mut out: Vec<CellData> = Vec::new();
    while out.len() < n
        invariant
            out.len() <= n,
            cells_view(out@) == Seq::new(out.len() as nat, |i: int| blank_view()),
        decreases n - out.len(),
    {
        let ghost before = out@;
        out.push(blank_cell());
        assert(cells_view(out@) =~= cells_view(before).push(blank_view()));
    }
    out
}

/// Copies cells.
pub fn clone_cells(cells: &Vec<CellData>) -> (r: Vec<CellData>)
    ensures
        cells_view(r@) == cells_view(cells@),
{
    let mut out: Vec<CellData> = Vec::new();
    while out.len() < cells.len()
        invariant
            out.len() <= cells.len(),
            cells_view(out@) == cells_view(cells@).take(out.len() as int),
        decreases cells.len() - out.len(),
    {
        let ghost before = out@;
        out.push(cells[out.len()].clone());
        assert(cells_view(out@) =~= cells_view(before).push(cells@[before.len() as int]@));
    }
    out
}

/// Copies strings.
pub fn clone_texts(texts: &Vec<String>) -> (r: Vec<String>)
    ensures
        texts_view(r@) == texts_view(texts@),
{
    let mut out: Vec<String> = Vec::new();
    while out.len() < texts.len()
        invariant
            out.len() <= texts.len(),
            texts_view(out@) == texts_view(texts@).take(out.len() as int),
        decreases texts.len() - out.len(),
    {
        let ghost before = out@;
        out.push(texts[out.len()].clone());
        assert(texts_view(out@) =~= texts_view(before).push(texts@[before.len() as int]@));
    }
    out
}

/// A blank cell is one space in the default colours, without modifiers or link,
/// and it is content: it is not skipped. A run of blanks has as many as asked for.
pub proof fn blanks_are_plain_spaces(cell: CellData, n: usize, cells: Vec<CellData>, i: int)
    requires
        call_ensures(blank_cell, (), cell),
        call_ensures(blank_cells, (n,), cells),
        0 <= i < n,
    ensures
        cell.symbol@ == seq![' '],
        cell.fg == 0 && cell.bg == 0 && cell.modifier == 0,
        !cell.skip,
        cell.hyperlink is None,
        cells@.len() == n,
        cells@[i]@ == cell@,
{
    reveal_strlit(" ");
    assert(" "@ =~= seq![' ']);
    assert(cells_view(cells@).len() == cells@.len());
    assert(cells_view(cells@)[i] == cells@[i]@);
}

/// Copies hold what was copied, in its order.
pub proof fn copies_hold_what_was_copied(
    cells: Vec<CellData>,
    cells_copy: Vec<CellData>,
    texts: Vec<String>,
    texts_copy: Vec<String>,
)
    requires
        call_ensures(clone_cells, (&cells,), cells_copy),
        call_ensures(clone_texts, (&texts,), texts_copy),
    ensures
        cells_copy@.len() == cells@.len(),
        forall|i: int| 0 <= i < cells@.len() ==> (#[trigger] cells_copy@[i])@ == cells@[i]@,
        texts_copy@.len() == texts@.len(),
        forall|i: int| 0 <= i < texts@.len() ==> (#[trigger] texts_copy@[i])@ == texts@[i]@,
{
    assert(cells_view(cells_copy@).len() == cells_copy@.len());
    assert(texts_view(texts_copy@).len() == texts_copy@.len());
    assert forall|i: int| 0 <= i < cells@.len() implies (#[trigger] cells_copy@[i])@
        == cells@[i]@ by {
        assert(cells_view(cells_copy@)[i] == cells_view(cells@)[i]);
    }
    assert forall|i: int| 0 <= i < texts@.len() implies (#[trigger] texts_copy@[i])@
        == texts@[i]@ by {
        assert(texts_view(texts_copy@)[i] == texts_view(texts@)[i]);
    }
}

} // verus!
