//! A small screen model: cells, rows and the cursor, with scrollback and an
//! alternate screen.

use vstd::prelude::*;
use unicode_width::UnicodeWidthChar;
use crate::text;
use crate::wire;
use crate::wire::CellData;

verus! {

/// One cell of the screen. An empty symbol with `skip` set is the second half
/// of a wide character.
pub struct FakeCell {
    pub symbol: String,
    pub fg: u32,
    pub bg: u32,
    pub modifier: u16,
    pub skip: bool,
    pub uri: Option<String>,
}

/// What a [`FakeCell`] holds.
pub struct FakeCellView {
    pub symbol: Seq<char>,
    pub fg: u32,
    pub bg: u32,
    pub modifier: u16,
    pub skip: bool,
    pub uri: Option<Seq<char>>,
}

/// What an optional string holds.
pub open spec fn uri_view(uri: Option<String>) -> Option<Seq<char>> {
    match uri {
        Some(u) => Some(u@),
        None => None,
    }
}

impl View for FakeCell {
    type V = FakeCellView;

    open spec fn view(&self) -> FakeCellView {
        FakeCellView {
            symbol: self.symbol@,
            fg: self.fg,
            bg: self.bg,
            modifier: self.modifier,
            skip: self.skip,
            uri: uri_view(self.uri),
        }
    }
}

impl Clone for FakeCell {
    fn clone(&self) -> (r: Self)
        ensures
            r@ == self@,
    {
        FakeCell {
            symbol: self.symbol.clone(),
            fg: self.fg,
            bg: self.bg,
            modifier: self.modifier,
            skip: self.skip,
            uri: clone_uri(&self.uri),
        }
    }
}

/// Copies an optional string.
pub fn clone_uri(uri: &Option<String>) -> (r: Option<String>)
    ensures
        uri_view(r) == uri_view(*uri),
{
    match uri {
        Some(u) => Some(u.clone()),
        None => None,
    }
}

/// A space in the default colours.
pub open spec fn cell_blank() -> FakeCellView {
    FakeCellView { symbol: " "@, fg: 0, bg: 0, modifier: 0, skip: false, uri: None }
}

/// A cell on the wire. The second half of a wide character goes out as a plain
/// blank in the cell's colours.
pub open spec fn cell_wire(c: FakeCellView, link: Option<u32>) -> wire::CellView {
    if c.skip {
        wire::CellView {
            symbol: " "@,
            fg: c.fg,
            bg: c.bg,
            modifier: c.modifier,
            skip: false,
            hyperlink: None,
        }
    } else {
        wire::CellView {
            symbol: c.symbol,
            fg: c.fg,
            bg: c.bg,
            modifier: c.modifier,
            skip: false,
            hyperlink: link,
        }
    }
}

impl FakeCell {
    /// A space in the default colours.
    pub fn blank() -> (r: Self)
        ensures
            r@ == cell_blank(),
    {
        FakeCell { symbol: " ".to_string(), fg: 0, bg: 0, modifier: 0, skip: false, uri: None }
    }

    /// The cell on the wire, with its index into the frame's link table.
    pub fn to_wire(&self, uri_index: Option<u32>) -> (r: CellData)
        ensures
            r@ == cell_wire(self@, uri_index),
    {
        if self.skip {
            return CellData {
                symbol: " ".to_string(),
                fg: self.fg,
                bg: self.bg,
                modifier: self.modifier,
                skip: false,
                hyperlink: None,
            };
        }
        CellData {
            symbol: self.symbol.clone(),
            fg: self.fg,
            bg: self.bg,
            modifier: self.modifier,
            skip: false,
            hyperlink: uri_index,
        }
    }
}

/// The contents of a run of cells.
pub open spec fn row_cells(cells: Seq<FakeCell>) -> Seq<FakeCellView> {
    cells.map_values(|c: FakeCell| c@)
}

/// One row of the screen.
pub struct Row {
    pub cells: Vec<FakeCell>,
    /// The row continues the one above it: the text did not fit.
    pub wrapped: bool,
}

/// What a [`Row`] holds.
#[verifier::ext_equal]
pub struct RowView {
    pub cells: Seq<FakeCellView>,
    pub wrapped: bool,
}

impl View for Row {
    type V = RowView;

    open spec fn view(&self) -> RowView {
        RowView { cells: row_cells(self.cells@), wrapped: self.wrapped }
    }
}

/// A row of blanks.
pub open spec fn row_blank(cols: u16) -> RowView {
    RowView { cells: Seq::new(cols as nat, |i: int| cell_blank()), wrapped: false }
}

/// The symbols of a run of cells, one after the other. Second halves of wide
/// characters add nothing.
pub open spec fn shown(cells: Seq<FakeCellView>) -> Seq<char>
    decreases cells.len(),
{
    if cells.len() == 0 {
        Seq::empty()
    } else if cells.last().skip {
        shown(cells.drop_last())
    } else {
        shown(cells.drop_last()) + cells.last().symbol
    }
}

/// The text of a row, trailing white space left out.
pub open spec fn row_text(r: RowView) -> Seq<char> {
    text::trimmed_end(shown(r.cells))
}

/// The text between two columns of a row, both included, trailing white space
/// left out.
pub open spec fn row_text_between(r: RowView, start: int, end: int) -> Seq<char> {
    let last = if end + 1 <= r.cells.len() {
        end + 1
    } else {
        r.cells.len() as int
    };
    if start < last {
        text::trimmed_end(shown(r.cells.subrange(start, last)))
    } else {
        Seq::empty()
    }
}

impl Row {
    /// A row of blanks.
    pub fn blank(cols: u16) -> (r: Self)
        ensures
            r@ == row_blank(cols),
    {
        let mut cells: Vec<FakeCell> = Vec::new();
        while cells.len() < cols as usize
            invariant
                cells.len() <= cols,
                row_cells(cells@) == Seq::new(cells.len() as nat, |i: int| cell_blank()),
            decreases cols - cells.len(),
        {
            let ghost before = cells@;
            cells.push(FakeCell::blank());
            assert(row_cells(cells@) =~= row_cells(before).push(cell_blank()));
        }
        Row { cells, wrapped: false }
    }

    /// The text of the row, trailing white space left out.
    pub fn text(&self) -> (r: String)
        ensures
            r@ == row_text(self@),
    {
        let n = self.cells.len();
        let mut out = self.gather(0, n);
        assert(self@.cells.subrange(0, n as int) =~= self@.cells);
        text::trim_end(&mut out);
        text::string_of(&out)
    }

    /// The text between two columns, both included, trailing white space left
    /// out.
    pub fn text_between(&self, start: usize, end: usize) -> (r: String)
        ensures
            r@ == row_text_between(self@, start as int, end as int),
    {
        let last: usize = if end < self.cells.len() {
            end + 1
        } else {
            self.cells.len()
        };
        if start >= last {
            return String::new();
        }
        let mut out = self.gather(start, last);
        text::trim_end(&mut out);
        text::string_of(&out)
    }

    fn gather(&self, start: usize, end: usize) -> (r: Vec<char>)
        requires
            start <= end <= self.cells.len(),
        ensures
            r@ == shown(self@.cells.subrange(start as int, end as int)),
    {
        let mut out: Vec<char> = Vec::new();
        let mut i: usize = start;
        assert(self@.cells.subrange(start as int, start as int) =~= Seq::<FakeCellView>::empty());
        while i < end
            invariant
                start <= i <= end <= self.cells.len(),
                out@ == shown(self@.cells.subrange(start as int, i as int)),
            decreases end - i,
        {
            proof {
                let more = self@.cells.subrange(start as int, i + 1);
                assert(more.drop_last() =~= self@.cells.subrange(start as int, i as int));
                assert(more.last() == self.cells@[i as int]@);
            }
            if !self.cells[i].skip {
                let mut symbol = text::chars_of(self.cells[i].symbol.as_str());
                out.append(&mut symbol);
            }
            i += 1;
        }
        out
    }

    /// Gives the row `cols` cells: cells past the width are cut off, missing
    /// ones are blank.
    pub fn set_width(&mut self, cols: u16)
        ensures
            final(self)@ == row_resized(old(self)@, cols),
    {
        let ghost before = self@;
        while self.cells.len() > cols as usize
            invariant
                self@ == (RowView { cells: before.cells.take(self.cells.len() as int), ..before }),
                self.cells.len() <= before.cells.len(),
                before.cells.len() > cols ==> self.cells.len() >= cols,
                before.cells.len() <= cols ==> self.cells.len() == before.cells.len(),
            decreases self.cells.len(),
        {
            let ghost mid = self.cells@;
            self.cells.pop();
            assert(row_cells(self.cells@) =~= row_cells(mid).drop_last());
            assert(self@.cells =~= before.cells.take(self.cells.len() as int));
        }
        let ghost kept = self.cells.len();
        while self.cells.len() < cols as usize
            invariant
                kept <= self.cells.len(),
                kept == before.cells.len() || self.cells.len() == cols,
                kept <= before.cells.len(),
                self.cells.len() <= cols,
                self@ == (RowView {
                    cells: before.cells.take(kept as int) + Seq::new(
                        (self.cells.len() - kept) as nat,
                        |i: int| cell_blank(),
                    ),
                    ..before
                }),
            decreases cols - self.cells.len(),
        {
            let ghost mid = self.cells@;
            self.cells.push(FakeCell::blank());
            assert(row_cells(self.cells@) =~= row_cells(mid).push(cell_blank()));
            assert(self@.cells =~= before.cells.take(kept as int) + Seq::new(
                (self.cells.len() - kept) as nat,
                |i: int| cell_blank(),
            ));
        }
        assert(self@.cells =~= row_resized(before, cols).cells);
    }
}

/// A row brought to a width: cut off, or filled up with blanks.
pub open spec fn row_resized(r: RowView, cols: u16) -> RowView {
    RowView {
        cells: Seq::new(
            cols as nat,
            |i: int|
                if i < r.cells.len() {
                    r.cells[i]
                } else {
                    cell_blank()
                },
        ),
        ..r
    }
}

impl Clone for Row {
    fn clone(&self) -> (r: Self)
        ensures
            r@ == self@,
    {
        let mut cells: Vec<FakeCell> = Vec::new();
        while cells.len() < self.cells.len()
            invariant
                cells.len() <= self.cells.len(),
                row_cells(cells@) == self@.cells.take(cells.len() as int),
            decreases self.cells.len() - cells.len(),
        {
            let ghost before = cells@;
            cells.push(self.cells[cells.len()].clone());
            assert(row_cells(cells@) =~= row_cells(before).push(
                self.cells@[before.len() as int]@,
            ));
        }
        assert(row_cells(cells@) =~= self@.cells);
        Row { cells, wrapped: self.wrapped }
    }
}

/// The contents of a run of rows.
pub open spec fn rows_view(rows: Seq<Row>) -> Seq<RowView> {
    rows.map_values(|r: Row| r@)
}

/// A grid of blank rows.
pub open spec fn grid_blank(cols: u16, rows: u16) -> Seq<RowView> {
    Seq::new(rows as nat, |i: int| row_blank(cols))
}

/// A grid scrolled up by one row: the top row leaves, a blank one enters at the
/// bottom.
pub open spec fn grid_scrolled(g: Seq<RowView>, cols: u16) -> Seq<RowView> {
    (if g.len() == 0 {
        g
    } else {
        g.skip(1)
    }).push(row_blank(cols))
}

/// The row that leaves a grid scrolled up by one.
pub open spec fn grid_evicted(g: Seq<RowView>, cols: u16) -> RowView {
    if g.len() == 0 {
        row_blank(cols)
    } else {
        g[0]
    }
}

/// A grid with one row's wrap mark set. A row outside the grid is ignored.
pub open spec fn grid_marked(g: Seq<RowView>, row: int, wrapped: bool) -> Seq<RowView> {
    if row < g.len() {
        g.update(row, RowView { wrapped, ..g[row] })
    } else {
        g
    }
}

/// A grid with one cell replaced. A position outside the grid is ignored.
pub open spec fn grid_written(g: Seq<RowView>, row: int, col: int, cell: FakeCellView) -> Seq<
    RowView,
> {
    if row < g.len() && col < g[row].cells.len() {
        g.update(row, RowView { cells: g[row].cells.update(col, cell), ..g[row] })
    } else {
        g
    }
}

/// A grid with one row blank from a column on. A row outside the grid is
/// ignored.
pub open spec fn grid_erased(g: Seq<RowView>, row: int, col: int) -> Seq<RowView> {
    if row < g.len() {
        g.update(
            row,
            RowView {
                cells: Seq::new(
                    g[row].cells.len(),
                    |i: int|
                        if i < col {
                            g[row].cells[i]
                        } else {
                            cell_blank()
                        },
                ),
                ..g[row]
            },
        )
    } else {
        g
    }
}

/// A grid brought to a size: rows are cut off or filled up to the width, then
/// cut off or filled up at the bottom.
pub open spec fn grid_resized(g: Seq<RowView>, cols: u16, rows: u16) -> Seq<RowView> {
    Seq::new(
        rows as nat,
        |i: int|
            if i < g.len() {
                row_resized(g[i], cols)
            } else {
                row_blank(cols)
            },
    )
}

fn blank_grid(cols: u16, rows: u16) -> (r: Vec<Row>)
    ensures
        rows_view(r@) == grid_blank(cols, rows),
{
    let mut out: Vec<Row> = Vec::new();
    while out.len() < rows as usize
        invariant
            out.len() <= rows,
            rows_view(out@) == grid_blank(cols, out.len() as u16),
        decreases rows - out.len(),
    {
        let ghost before = out@;
        out.push(Row::blank(cols));
        assert(rows_view(out@) =~= rows_view(before).push(row_blank(cols)));
    }
    out
}

fn scroll_grid(grid: &mut Vec<Row>, cols: u16) -> (evicted: Row)
    ensures
        rows_view(final(grid)@) == grid_scrolled(rows_view(old(grid)@), cols),
        evicted@ == grid_evicted(rows_view(old(grid)@), cols),
{
    let ghost before = grid@;
    let evicted = if grid.len() == 0 {
        Row::blank(cols)
    } else {
        grid.remove(0)
    };
    grid.push(Row::blank(cols));
    assert(rows_view(grid@) =~= grid_scrolled(rows_view(before), cols));
    evicted
}

fn mark_wrapped(grid: &mut Vec<Row>, row: usize, wrapped: bool)
    ensures
        rows_view(final(grid)@) == grid_marked(rows_view(old(grid)@), row as int, wrapped),
{
    let ghost before = grid@;
    if row < grid.len() {
        grid[row].wrapped = wrapped;
        assert(rows_view(grid@) =~= grid_marked(rows_view(before), row as int, wrapped));
    }
}

fn write_cell(grid: &mut Vec<Row>, row: usize, col: usize, cell: FakeCell)
    ensures
        rows_view(final(grid)@) == grid_written(rows_view(old(grid)@), row as int, col as int, cell@),
{
    let ghost before = grid@;
    if row < grid.len() && col < grid[row].cells.len() {
        let ghost old_cells = grid@[row as int].cells@;
        grid[row].cells[col] = cell;
        assert(row_cells(grid@[row as int].cells@) =~= row_cells(old_cells).update(
            col as int,
            cell@,
        ));
        assert(rows_view(grid@) =~= grid_written(
            rows_view(before),
            row as int,
            col as int,
            cell@,
        ));
    }
}

fn erase_from(grid: &mut Vec<Row>, row: usize, col: usize)
    ensures
        rows_view(final(grid)@) == grid_erased(rows_view(old(grid)@), row as int, col as int),
{
    let ghost before = grid@;
    if row < grid.len() {
        let ghost old_row = before[row as int]@;
        let n = grid[row].cells.len();
        let mut i: usize = if col < n {
            col
        } else {
            n
        };
        assert(rows_view(grid@) =~= rows_view(before).update(row as int, old_row));
        assert(old_row.cells =~= Seq::new(
            n as nat,
            |j: int|
                if j < col || j >= i {
                    old_row.cells[j]
                } else {
                    cell_blank()
                },
        ));
        while i < n
            invariant
                row < grid.len(),
                grid.len() == before.len(),
                n == grid@[row as int].cells.len(),
                n == old_row.cells.len(),
                old_row == before[row as int]@,
                col <= i <= n || i == n,
                rows_view(grid@) == rows_view(before).update(
                    row as int,
                    (RowView {
                        cells: Seq::new(
                            n as nat,
                            |j: int|
                                if j < col || j >= i {
                                    old_row.cells[j]
                                } else {
                                    cell_blank()
                                },
                        ),
                        ..old_row
                    }),
                ),
            decreases n - i,
        {
            let ghost mid = grid@;
            assert(rows_view(mid)[row as int] == mid[row as int]@);
            let blank = FakeCell::blank();
            grid[row].cells[i] = blank;
            assert(row_cells(grid@[row as int].cells@) =~= row_cells(
                mid[row as int].cells@,
            ).update(i as int, cell_blank()));
            let ghost target = RowView {
                cells: Seq::new(
                    n as nat,
                    |j: int|
                        if j < col || j >= i + 1 {
                            old_row.cells[j]
                        } else {
                            cell_blank()
                        },
                ),
                ..old_row
            };
            assert(grid@[row as int]@.cells =~= target.cells);
            assert(grid@[row as int]@ == target);
            assert(rows_view(grid@) =~= rows_view(mid).update(row as int, target));
            assert(rows_view(grid@) =~= rows_view(before).update(row as int, target));
            i += 1;
        }
        assert(rows_view(grid@)[row as int].cells =~= grid_erased(
            rows_view(before),
            row as int,
            col as int,
        )[row as int].cells);
        assert(rows_view(grid@) =~= grid_erased(rows_view(before), row as int, col as int));
    }
}

fn resize_grid(grid: &mut Vec<Row>, cols: u16, rows: u16)
    ensures
        rows_view(final(grid)@) == grid_resized(rows_view(old(grid)@), cols, rows),
{
    let ghost before = rows_view(grid@);
    while grid.len() > rows as usize
        invariant
            rows_view(grid@) == before.take(grid.len() as int),
            grid.len() <= before.len(),
            before.len() > rows ==> grid.len() >= rows,
            before.len() <= rows ==> grid.len() == before.len(),
        decreases grid.len(),
    {
        let ghost mid = grid@;
        grid.pop();
        assert(rows_view(grid@) =~= rows_view(mid).drop_last());
    }
    let kept = grid.len();
    let mut i: usize = 0;
    while i < kept
        invariant
            i <= kept,
            kept == grid.len(),
            kept <= before.len(),
            rows_view(grid@) == Seq::new(
                kept as nat,
                |j: int|
                    if j < i {
                        row_resized(before[j], cols)
                    } else {
                        before[j]
                    },
            ),
        decreases kept - i,
    {
        let ghost mid = grid@;
        assert(rows_view(mid)[i as int] == mid[i as int]@);
        grid[i].set_width(cols);
        assert(rows_view(grid@) =~= rows_view(mid).update(i as int, row_resized(before[i as int], cols)));
        i += 1;
    }
    while grid.len() < rows as usize
        invariant
            kept <= grid.len() <= rows,
            kept <= before.len(),
            kept == before.len() || grid.len() == rows,
            rows_view(grid@) == Seq::new(
                grid.len() as nat,
                |j: int|
                    if j < kept {
                        row_resized(before[j], cols)
                    } else {
                        row_blank(cols)
                    },
            ),
        decreases rows - grid.len(),
    {
        let ghost mid = grid@;
        grid.push(Row::blank(cols));
        assert(rows_view(grid@) =~= rows_view(mid).push(row_blank(cols)));
    }
    assert(rows_view(grid@) =~= grid_resized(before, cols, rows));
}

fn clone_rows(rows: &Vec<Row>, out: &mut Vec<Row>)
    ensures
        rows_view(final(out)@) == rows_view(old(out)@) + rows_view(rows@),
{
    let ghost before = rows_view(out@);
    let mut i: usize = 0;
    assert(rows_view(rows@).take(0) =~= Seq::<RowView>::empty());
    while i < rows.len()
        invariant
            i <= rows.len(),
            rows_view(out@) == before + rows_view(rows@).take(i as int),
        decreases rows.len() - i,
    {
        let ghost mid = out@;
        out.push(rows[i].clone());
        assert(rows_view(out@) =~= rows_view(mid).push(rows@[i as int]@));
        assert(rows_view(rows@).take(i + 1) =~= rows_view(rows@).take(i as int).push(
            rows@[i as int]@,
        ));
        i += 1;
    }
    assert(rows_view(rows@).take(i as int) =~= rows_view(rows@));
}

/// The display width `unicode_width` gives a character.
pub uninterp spec fn char_width(c: char) -> Option<usize>;

/// Calls `unicode_width::UnicodeWidthChar::width`. Printable ASCII is one
/// column wide, control characters have no width, and no character is wider
/// than three columns; what width another character has is left to the crate's
/// tables.
#[verifier::external_body]
fn display_width(c: char) -> (r: Option<usize>)
    ensures
        r == char_width(c),
        0x20 <= c as u32 <= 0x7e ==> r == Some(1usize),
        (c as u32) < 0x20 || 0x7f <= c as u32 <= 0x9f ==> r is None,
        c as u32 >= 0xa0 ==> r is Some && r->0 <= 3,
{
    c.width()
}

/// The columns a written character takes: at least one.
pub open spec fn columns_of(c: char) -> int {
    match char_width(c) {
        Some(w) => if w == 0 {
            1
        } else {
            w as int
        },
        None => 1,
    }
}

/// The columns a written character takes.
pub fn columns(c: char) -> (r: u16)
    ensures
        r == columns_of(c),
        1 <= r <= 3,
        ' ' <= c <= '~' ==> r == 1,
{
    match display_width(c) {
        Some(w) => if w == 0 {
            1
        } else {
            w as u16
        },
        None => 1,
    }
}

/// The modes a program has set, with the mouse ones as wire codes.
#[derive(Debug, Clone, Copy, PartialEq, Eq, Structural)]
pub struct Modes {
    pub alternate_screen: bool,
    pub application_cursor: bool,
    pub bracketed_paste: bool,
    pub focus_reporting: bool,
    pub mouse_mode: u8,
    pub mouse_encoding: u8,
    pub mouse_alternate_scroll: bool,
    pub synchronized_output: bool,
    pub modify_other_keys: bool,
}

/// The modes of a program that set nothing.
pub open spec fn modes_fresh() -> Modes {
    Modes {
        alternate_screen: false,
        application_cursor: false,
        bracketed_paste: false,
        focus_reporting: false,
        mouse_mode: 0,
        mouse_encoding: 0,
        mouse_alternate_scroll: false,
        synchronized_output: false,
        modify_other_keys: false,
    }
}

/// A screen with its scrollback.
pub struct Screen {
    pub(crate) cols: u16,
    pub(crate) rows: u16,
    /// Bytes of row text the scrollback may retain; 0 turns it off.
    pub(crate) scrollback_limit_bytes: usize,
    /// Rows scrolled off the top of the primary screen, oldest first.
    pub(crate) scrollback: Vec<Row>,
    pub(crate) primary: Vec<Row>,
    pub(crate) alt: Vec<Row>,
    pub(crate) modes: Modes,
    pub(crate) cur_row: u16,
    pub(crate) cur_col: u16,
    pub(crate) saved_cursor: (u16, u16),
    pub(crate) cursor_visible: bool,
    pub(crate) cursor_shape: u8,
    /// Style of newly written cells.
    pub(crate) fg: u32,
    pub(crate) bg: u32,
    pub(crate) modifier: u16,
    /// Link of newly written cells.
    pub(crate) hyperlink: Option<String>,
    /// Rows the viewport stands above the live bottom.
    pub(crate) offset_from_bottom: usize,
    pub(crate) dirty: bool,
}

/// What a [`Screen`] holds.
#[verifier::ext_equal]
pub struct ScreenView {
    pub cols: u16,
    pub rows: u16,
    pub limit: usize,
    pub scrollback: Seq<RowView>,
    pub primary: Seq<RowView>,
    pub alt: Seq<RowView>,
    pub modes: Modes,
    pub cur_row: u16,
    pub cur_col: u16,
    pub saved_cursor: (u16, u16),
    pub cursor_visible: bool,
    pub cursor_shape: u8,
    pub fg: u32,
    pub bg: u32,
    pub modifier: u16,
    pub hyperlink: Option<Seq<char>>,
    pub offset: usize,
    pub dirty: bool,
}

impl View for Screen {
    type V = ScreenView;

    open(crate) spec fn view(&self) -> ScreenView {
        ScreenView {
            cols: self.cols,
            rows: self.rows,
            limit: self.scrollback_limit_bytes,
            scrollback: rows_view(self.scrollback@),
            primary: rows_view(self.primary@),
            alt: rows_view(self.alt@),
            modes: self.modes,
            cur_row: self.cur_row,
            cur_col: self.cur_col,
            saved_cursor: self.saved_cursor,
            cursor_visible: self.cursor_visible,
            cursor_shape: self.cursor_shape,
            fg: self.fg,
            bg: self.bg,
            modifier: self.modifier,
            hyperlink: uri_view(self.hyperlink),
            offset: self.offset_from_bottom,
            dirty: self.dirty,
        }
    }
}

/// A blank screen.
pub open spec fn screen_fresh(cols: u16, rows: u16, limit: usize) -> ScreenView {
    ScreenView {
        cols,
        rows,
        limit,
        scrollback: Seq::empty(),
        primary: grid_blank(cols, rows),
        alt: grid_blank(cols, rows),
        modes: modes_fresh(),
        cur_row: 0,
        cur_col: 0,
        saved_cursor: (0, 0),
        cursor_visible: true,
        cursor_shape: 0,
        fg: 0,
        bg: 0,
        modifier: 0,
        hyperlink: None,
        offset: 0,
        dirty: false,
    }
}

/// The bytes a scrollback retains: each row's text and a line end.
pub open spec fn retained_bytes(rows: Seq<RowView>) -> nat
    decreases rows.len(),
{
    if rows.len() == 0 {
        0
    } else {
        vstd::utf8::encode_utf8(row_text(rows[0])).len() + 1 + retained_bytes(rows.skip(1))
    }
}

/// The newest rows that stay within a byte limit: rows leave at the top until
/// the rest fits.
pub open spec fn fitting(rows: Seq<RowView>, limit: nat) -> Seq<RowView>
    decreases rows.len(),
{
    if rows.len() > 0 && retained_bytes(rows) > limit {
        fitting(rows.skip(1), limit)
    } else {
        rows
    }
}

impl ScreenView {
    /// Both grids have the screen's size.
    pub open spec fn wf(self) -> bool {
        &&& self.cols >= 1
        &&& self.rows >= 1
        &&& self.primary.len() == self.rows
        &&& self.alt.len() == self.rows
        &&& forall|i: int|
            0 <= i < self.rows ==> (#[trigger] self.primary[i]).cells.len() == self.cols
        &&& forall|i: int| 0 <= i < self.rows ==> (#[trigger] self.alt[i]).cells.len() == self.cols
    }

    /// The grid output goes to.
    pub open spec fn active(self) -> Seq<RowView> {
        if self.modes.alternate_screen {
            self.alt
        } else {
            self.primary
        }
    }

    /// The screen with the active grid replaced.
    pub open spec fn with_active(self, g: Seq<RowView>) -> ScreenView {
        if self.modes.alternate_screen {
            ScreenView { alt: g, ..self }
        } else {
            ScreenView { primary: g, ..self }
        }
    }

    /// All addressable rows: the scrollback, which the alternate screen does not
    /// have, then the active grid.
    pub open spec fn all_rows(self) -> Seq<RowView> {
        if self.modes.alternate_screen {
            self.alt
        } else {
            self.scrollback + self.primary
        }
    }

    /// How far up the viewport can go.
    pub open spec fn max_offset(self) -> nat {
        if self.modes.alternate_screen {
            0
        } else {
            self.scrollback.len()
        }
    }

    /// Where the viewport ends in [`Self::all_rows`].
    pub open spec fn view_end(self) -> int {
        if self.offset <= self.all_rows().len() {
            self.all_rows().len() - self.offset
        } else {
            0
        }
    }

    /// Where the viewport starts in [`Self::all_rows`].
    pub open spec fn view_start(self) -> int {
        if self.rows <= self.view_end() {
            self.view_end() - self.rows
        } else {
            0
        }
    }

    /// The rows on display: as many as the screen has, ending `offset` rows
    /// above the live bottom, filled up with blank rows.
    pub open spec fn viewport(self) -> Seq<RowView> {
        let window = self.all_rows().subrange(self.view_start(), self.view_end());
        Seq::new(
            self.rows as nat,
            |i: int|
                if i < window.len() {
                    window[i]
                } else {
                    row_blank(self.cols)
                },
        )
    }

    /// The screen after a line feed. On the last row the active grid scrolls,
    /// and the row that leaves the primary grid enters the scrollback.
    pub open spec fn newline(self, wrapped: bool) -> ScreenView {
        let moved = if self.cur_row + 1 < self.rows {
            ScreenView { cur_row: (self.cur_row + 1) as u16, ..self }
        } else {
            let g = self.active();
            let scrolled = self.with_active(grid_scrolled(g, self.cols));
            if !self.modes.alternate_screen && self.limit > 0 {
                ScreenView {
                    scrollback: fitting(
                        self.scrollback.push(grid_evicted(g, self.cols)),
                        self.limit as nat,
                    ),
                    ..scrolled
                }
            } else {
                scrolled
            }
        };
        moved.with_active(grid_marked(moved.active(), moved.cur_row as int, wrapped))
    }

    /// The cell a character is written as.
    pub open spec fn cell_of(self, ch: char) -> FakeCellView {
        FakeCellView {
            symbol: seq![ch],
            fg: self.fg,
            bg: self.bg,
            modifier: self.modifier,
            skip: false,
            uri: self.hyperlink,
        }
    }

    /// The second half of a wide character.
    pub open spec fn second_half(self) -> FakeCellView {
        FakeCellView {
            symbol: Seq::empty(),
            fg: self.fg,
            bg: self.bg,
            modifier: self.modifier,
            skip: true,
            uri: None,
        }
    }

    /// The screen after writing a character: one that does not fit on the row
    /// goes onto the next, which is marked as a continuation.
    pub open spec fn put_char(self, ch: char) -> ScreenView {
        let width = columns_of(ch);
        let s = if self.cur_col + width > self.cols {
            ScreenView { cur_col: 0, ..self.newline(true) }
        } else {
            self
        };
        let first = grid_written(s.active(), s.cur_row as int, s.cur_col as int, s.cell_of(ch));
        let g = if width == 2 {
            grid_written(first, s.cur_row as int, s.cur_col + 1, s.second_half())
        } else {
            first
        };
        ScreenView { cur_col: (s.cur_col + width) as u16, ..s.with_active(g) }
    }

    /// The screen with the active grid blank.
    pub open spec fn clear_active(self) -> ScreenView {
        self.with_active(grid_blank(self.cols, self.rows))
    }

    /// The screen brought to a size; at least one row and one column. The cursor
    /// stays inside, and synchronized output is interrupted.
    pub open spec fn resized(self, rows: u16, cols: u16) -> ScreenView {
        let r: u16 = at_least_one(rows);
        let c: u16 = at_least_one(cols);
        ScreenView {
            rows: r,
            cols: c,
            primary: grid_resized(self.primary, c, r),
            alt: grid_resized(self.alt, c, r),
            cur_row: capped(self.cur_row as int, r - 1),
            cur_col: capped(self.cur_col as int, c - 1),
            modes: Modes { synchronized_output: false, ..self.modes },
            dirty: true,
            ..self
        }
    }
}

/// The larger of a size and one.
pub open spec fn at_least_one(n: u16) -> u16 {
    if n == 0 {
        1
    } else {
        n
    }
}

/// `n`, or `max` where it is smaller.
pub open spec fn capped(n: int, max: int) -> u16 {
    if n <= max {
        n as u16
    } else {
        max as u16
    }
}

/// A position moved forward by `n`, no further than the last one of `size`.
pub fn forward(pos: u16, n: u16, size: u16) -> (r: u16)
    requires
        size >= 1,
    ensures
        r == capped(pos + n, size - 1),
{
    let target: u32 = pos as u32 + n as u32;
    if target <= (size - 1) as u32 {
        target as u16
    } else {
        size - 1
    }
}

impl Screen {
    /// A blank screen.
    pub fn new(cols: u16, rows: u16, scrollback_limit_bytes: usize) -> (r: Self)
        ensures
            r@ == screen_fresh(cols, rows, scrollback_limit_bytes),
    {
        let r = Screen {
            cols,
            rows,
            scrollback_limit_bytes,
            scrollback: Vec::new(),
            primary: blank_grid(cols, rows),
            alt: blank_grid(cols, rows),
            modes: Modes {
                alternate_screen: false,
                application_cursor: false,
                bracketed_paste: false,
                focus_reporting: false,
                mouse_mode: 0,
                mouse_encoding: 0,
                mouse_alternate_scroll: false,
                synchronized_output: false,
                modify_other_keys: false,
            },
            cur_row: 0,
            cur_col: 0,
            saved_cursor: (0, 0),
            cursor_visible: true,
            cursor_shape: 0,
            fg: 0,
            bg: 0,
            modifier: 0,
            hyperlink: None,
            offset_from_bottom: 0,
            dirty: false,
        };
        assert(r@.scrollback =~= Seq::<RowView>::empty());
        r
    }

    /// All addressable rows, scrollback first.
    pub fn all_rows(&self) -> (r: Vec<Row>)
        ensures
            rows_view(r@) == self@.all_rows(),
    {
        let mut out: Vec<Row> = Vec::new();
        assert(rows_view(out@) =~= Seq::<RowView>::empty());
        if self.modes.alternate_screen {
            clone_rows(&self.alt, &mut out);
        } else {
            clone_rows(&self.scrollback, &mut out);
            clone_rows(&self.primary, &mut out);
        }
        assert(rows_view(out@) =~= self@.all_rows());
        out
    }

    /// The rows on display.
    pub fn viewport(&self) -> (r: Vec<Row>)
        ensures
            rows_view(r@) == self@.viewport(),
    {
        let all = self.all_rows();
        let end: usize = if self.offset_from_bottom <= all.len() {
            all.len() - self.offset_from_bottom
        } else {
            0
        };
        let start: usize = if self.rows as usize <= end {
            end - self.rows as usize
        } else {
            0
        };
        assert(all.len() == self@.all_rows().len());
        assert(start == self@.view_start() && end == self@.view_end());
        let ghost window = self@.all_rows().subrange(start as int, end as int);
        let mut out: Vec<Row> = Vec::new();
        let mut i: usize = start;
        while i < end
            invariant
                start <= i <= end <= all.len(),
                rows_view(all@) == self@.all_rows(),
                window == self@.all_rows().subrange(start as int, end as int),
                rows_view(out@) == window.take(i - start),
            decreases end - i,
        {
            let ghost before = out@;
            assert(rows_view(all@)[i as int] == all@[i as int]@);
            out.push(all[i].clone());
            assert(rows_view(out@) =~= rows_view(before).push(window[i - start]));
            i += 1;
        }
        assert(rows_view(out@) =~= self@.viewport().take(out.len() as int));
        while out.len() < self.rows as usize
            invariant
                window.len() <= out.len() <= self.rows,
                window == self@.all_rows().subrange(self@.view_start(), self@.view_end()),
                rows_view(out@) == self@.viewport().take(out.len() as int),
            decreases self.rows - out.len(),
        {
            let ghost before = out@;
            out.push(Row::blank(self.cols));
            assert(rows_view(out@) =~= rows_view(before).push(row_blank(self.cols)));
        }
        assert(rows_view(out@) =~= self@.viewport());
        out
    }

    /// How far up the viewport can go.
    pub fn max_offset(&self) -> (r: usize)
        ensures
            r == self@.max_offset(),
    {
        if self.modes.alternate_screen {
            0
        } else {
            self.scrollback.len()
        }
    }

    /// Drops the oldest rows until the scrollback fits its limit.
    fn trim_scrollback(&mut self)
        ensures
            final(self)@ == (ScreenView {
                scrollback: fitting(old(self)@.scrollback, old(self)@.limit as nat),
                ..old(self)@
            }),
    {
        let mut used: u128 = 0;
        let mut i: usize = self.scrollback.len();
        assert(self@.scrollback.skip(i as int) =~= Seq::<RowView>::empty());
        while i > 0
            invariant
                i <= self.scrollback.len(),
                self@ == old(self)@,
                used == retained_bytes(self@.scrollback.skip(i as int)),
                used <= (self.scrollback.len() - i) * 0x1_0000_0000_0000_0000,
            decreases i,
        {
            i -= 1;
            let text = self.scrollback[i].text();
            let n = text.as_str().as_bytes().len();
            proof {
                let rest = self@.scrollback.skip(i as int);
                assert(rest[0] == self.scrollback@[i as int]@);
                assert(rest.skip(1) =~= self@.scrollback.skip(i + 1));
                assert(n == vstd::utf8::encode_utf8(row_text(rest[0])).len());
            }
            used = used + n as u128 + 1;
        }
        assert(self@.scrollback.skip(0) =~= self@.scrollback);
        while used > self.scrollback_limit_bytes as u128 && self.scrollback.len() > 0
            invariant
                used == retained_bytes(self@.scrollback),
                fitting(self@.scrollback, self@.limit as nat) == fitting(
                    old(self)@.scrollback,
                    old(self)@.limit as nat,
                ),
                self@ == (ScreenView { scrollback: self@.scrollback, ..old(self)@ }),
            decreases self.scrollback.len(),
        {
            let ghost before = self.scrollback@;
            let text = self.scrollback[0].text();
            let n = text.as_str().as_bytes().len();
            assert(self@.scrollback[0] == before[0]@);
            used = used - (n as u128 + 1);
            self.scrollback.remove(0);
            assert(self@.scrollback =~= rows_view(before).skip(1));
        }
    }

    /// Feeds a line: moves down, or scrolls on the last row.
    pub fn newline(&mut self, wrapped: bool)
        ensures
            final(self)@ == old(self)@.newline(wrapped),
    {
        if (self.cur_row as usize) + 1 < self.rows as usize {
            self.cur_row += 1;
        } else {
            let cols = self.cols;
            let evicted = if self.modes.alternate_screen {
                scroll_grid(&mut self.alt, cols)
            } else {
                scroll_grid(&mut self.primary, cols)
            };
            if !self.modes.alternate_screen && self.scrollback_limit_bytes > 0 {
                let ghost before = self.scrollback@;
                self.scrollback.push(evicted);
                assert(self@.scrollback =~= rows_view(before).push(evicted@));
                self.trim_scrollback();
            }
        }
        let row = self.cur_row as usize;
        if self.modes.alternate_screen {
            mark_wrapped(&mut self.alt, row, wrapped);
        } else {
            mark_wrapped(&mut self.primary, row, wrapped);
        }
    }

    /// Writes a character at the cursor and moves past it.
    pub fn put_char(&mut self, ch: char)
        ensures
            final(self)@ == old(self)@.put_char(ch),
    {
        let width = columns(ch);
        if self.cur_col as u32 + width as u32 > self.cols as u32 {
            self.newline(true);
            self.cur_col = 0;
        }
        let ghost s = self@;
        let mut symbol = String::new();
        symbol.push(ch);
        let cell = FakeCell {
            symbol,
            fg: self.fg,
            bg: self.bg,
            modifier: self.modifier,
            skip: false,
            uri: clone_uri(&self.hyperlink),
        };
        assert(cell@.symbol =~= seq![ch]);
        assert(cell@ == s.cell_of(ch));
        let skip_cell = FakeCell {
            symbol: String::new(),
            fg: self.fg,
            bg: self.bg,
            modifier: self.modifier,
            skip: true,
            uri: None,
        };
        assert(skip_cell@ == s.second_half());
        let row = self.cur_row as usize;
        let col = self.cur_col as usize;
        if self.modes.alternate_screen {
            write_cell(&mut self.alt, row, col, cell);
            if width == 2 {
                write_cell(&mut self.alt, row, col + 1, skip_cell);
            }
        } else {
            write_cell(&mut self.primary, row, col, cell);
            if width == 2 {
                write_cell(&mut self.primary, row, col + 1, skip_cell);
            }
        }
        self.cur_col += width;
    }

    /// Blanks the active grid.
    pub fn clear_active(&mut self)
        ensures
            final(self)@ == old(self)@.clear_active(),
    {
        if self.modes.alternate_screen {
            self.alt = blank_grid(self.cols, self.rows);
        } else {
            self.primary = blank_grid(self.cols, self.rows);
        }
    }

    /// Blanks the cursor's row from the cursor on.
    pub fn erase_to_end_of_row(&mut self)
        ensures
            final(self)@ == old(self)@.with_active(
                grid_erased(old(self)@.active(), old(self)@.cur_row as int, old(self)@.cur_col as int),
            ),
    {
        let row = self.cur_row as usize;
        let col = self.cur_col as usize;
        if self.modes.alternate_screen {
            erase_from(&mut self.alt, row, col);
        } else {
            erase_from(&mut self.primary, row, col);
        }
    }

    /// Brings the screen to a size.
    pub fn resize(&mut self, rows: u16, cols: u16)
        ensures
            final(self)@ == old(self)@.resized(rows, cols),
    {
        let rows: u16 = if rows == 0 {
            1
        } else {
            rows
        };
        let cols: u16 = if cols == 0 {
            1
        } else {
            cols
        };
        self.rows = rows;
        self.cols = cols;
        resize_grid(&mut self.primary, cols, rows);
        resize_grid(&mut self.alt, cols, rows);
        self.cur_row = forward(self.cur_row, 0, rows);
        self.cur_col = forward(self.cur_col, 0, cols);
        self.modes.synchronized_output = false;
        self.dirty = true;
    }
}

/// Whatever is written, both grids keep the screen's size; a resize gives them
/// the new one.
pub proof fn grids_keep_their_size(s: ScreenView, wrapped: bool, ch: char, rows: u16, cols: u16)
    ensures
        s.wf() ==> s.newline(wrapped).wf(),
        s.wf() ==> s.put_char(ch).wf(),
        s.wf() ==> s.clear_active().wf(),
        s.resized(rows, cols).wf(),
{
    if s.wf() {
        assert(s.newline(true).wf());
    }
}

/// The scrollback never retains more than its limit, and it loses rows at the
/// top only.
pub proof fn the_scrollback_keeps_its_limit(rows: Seq<RowView>, limit: nat)
    ensures
        retained_bytes(fitting(rows, limit)) <= limit,
        exists|k: int| 0 <= k <= rows.len() && fitting(rows, limit) == rows.skip(k),
        retained_bytes(rows) <= limit ==> fitting(rows, limit) == rows,
    decreases rows.len(),
{
    if rows.len() > 0 && retained_bytes(rows) > limit {
        the_scrollback_keeps_its_limit(rows.skip(1), limit);
        let k = choose|k: int|
            0 <= k <= rows.skip(1).len() && fitting(rows.skip(1), limit) == rows.skip(1).skip(k);
        assert(rows.skip(1).skip(k) =~= rows.skip(k + 1));
    } else {
        assert(rows.skip(0) =~= rows);
    }
}

/// At the live bottom the viewport is the active grid, row for row.
pub proof fn the_live_viewport_is_the_active_grid(s: ScreenView)
    requires
        s.wf(),
        s.offset == 0,
    ensures
        s.viewport() == s.active(),
{
    assert(s.viewport() =~= s.active());
}

/// A cell is sent as it looks: the second half of a wide character as a plain space
/// without a link, any other with its symbol and the link given; colours and
/// modifiers stay, and nothing is marked to be skipped.
pub proof fn cells_are_sent_as_they_look(cell: FakeCell, link: Option<u32>, r: CellData)
    requires
        call_ensures(FakeCell::to_wire, (&cell, link), r),
    ensures
        r.fg == cell.fg && r.bg == cell.bg && r.modifier == cell.modifier,
        !r.skip,
        cell.skip ==> r.symbol@ == seq![' '] && r.hyperlink is None,
        !cell.skip ==> r.symbol@ == cell.symbol@ && r.hyperlink == link,
{
    reveal_strlit(" ");
    assert(" "@ =~= seq![' ']);
}

/// A blank cell is one space in the default colours; a blank row is as wide as
/// asked for, and no continuation.
pub proof fn blanks_are_spaces(cols: u16, cell: FakeCell, row: Row, i: int)
    requires
        call_ensures(FakeCell::blank, (), cell),
        call_ensures(Row::blank, (cols,), row),
        0 <= i < cols,
    ensures
        cell.symbol@ == seq![' '] && cell.fg == 0 && cell.bg == 0 && cell.modifier == 0
            && !cell.skip && cell.uri is None,
        row.cells@.len() == cols,
        row.cells@[i]@ == cell@,
        !row.wrapped,
{
    reveal_strlit(" ");
    assert(" "@ =~= seq![' ']);
    assert(row@.cells.len() == row.cells@.len());
    assert(row@.cells[i] == row.cells@[i]@);
}

/// What cells show is their symbols one after the other, second halves left out.
pub proof fn cells_show_their_symbols(a: Seq<FakeCellView>, b: Seq<FakeCellView>, c: FakeCellView)
    ensures
        shown(a + b) == shown(a) + shown(b),
        c.skip ==> shown(seq![c]).len() == 0,
        !c.skip ==> shown(seq![c]) == c.symbol,
        shown(Seq::empty()).len() == 0,
    decreases b.len(),
{
    reveal_with_fuel(shown, 2);
    assert(seq![c].drop_last() =~= Seq::<FakeCellView>::empty());
    if !c.skip {
        assert(shown(seq![c]) =~= c.symbol);
    }
    if b.len() == 0 {
        assert(a + b =~= a);
        assert(shown(a + b) =~= shown(a) + shown(b));
    } else {
        cells_show_their_symbols(a, b.drop_last(), c);
        assert((a + b).drop_last() =~= a + b.drop_last());
        assert(shown(a + b) =~= shown(a) + shown(b));
    }
}

/// A row reads as what its cells show, without the white space at the end; between
/// two columns it reads as what stands there, both columns counted.
pub proof fn rows_read_as_they_show(row: Row, start: usize, end: usize, all: String, part: String)
    requires
        call_ensures(Row::text, (&row,), all),
        call_ensures(Row::text_between, (&row, start, end), part),
    ensures
        all@ == text::trimmed_end(shown(row@.cells)),
        start <= end < row.cells@.len() ==> part@ == text::trimmed_end(
            shown(row@.cells.subrange(start as int, end + 1)),
        ),
        start < row.cells@.len() <= end ==> part@ == text::trimmed_end(
            shown(row@.cells.subrange(start as int, row.cells@.len() as int)),
        ),
        start >= row.cells@.len() || start > end ==> part@.len() == 0,
{
    assert(row@.cells.len() == row.cells@.len());
}

/// Resizing keeps what stands at a place that is still there, and what is new is
/// blank.
pub proof fn resizing_keeps_places(g: Seq<RowView>, cols: u16, rows: u16, x: int, y: int)
    requires
        0 <= x < cols,
        0 <= y < rows,
    ensures
        grid_resized(g, cols, rows).len() == rows,
        grid_resized(g, cols, rows)[y].cells.len() == cols,
        y < g.len() && x < g[y].cells.len() ==> grid_resized(g, cols, rows)[y].cells[x]
            == g[y].cells[x],
        y >= g.len() || x >= g[y].cells.len() ==> grid_resized(g, cols, rows)[y].cells[x].symbol
            == seq![' '] && grid_resized(g, cols, rows)[y].cells[x].fg == 0 && grid_resized(
            g,
            cols,
            rows,
        )[y].cells[x].bg == 0 && grid_resized(g, cols, rows)[y].cells[x].uri is None,
        y < g.len() ==> grid_resized(g, cols, rows)[y].wrapped == g[y].wrapped,
{
    reveal_strlit(" ");
    assert(" "@ =~= seq![' ']);
}

/// A resized screen has the size asked for, at least one by one. Both grids keep
/// their places, the cursor stays on the screen, output is not held back any more,
/// and the scrollback, the style and the saved cursor stay.
pub proof fn screens_take_their_size(s: ScreenView, rows: u16, cols: u16)
    ensures
        ({
            let r = s.resized(rows, cols);
            &&& rows > 0 ==> r.rows == rows
            &&& rows == 0 ==> r.rows == 1
            &&& cols > 0 ==> r.cols == cols
            &&& cols == 0 ==> r.cols == 1
            &&& r.primary == grid_resized(s.primary, r.cols, r.rows)
            &&& r.alt == grid_resized(s.alt, r.cols, r.rows)
            &&& r.cur_row < r.rows && r.cur_col < r.cols
            &&& s.cur_row < r.rows ==> r.cur_row == s.cur_row
            &&& s.cur_row >= r.rows ==> r.cur_row == r.rows - 1
            &&& s.cur_col < r.cols ==> r.cur_col == s.cur_col
            &&& s.cur_col >= r.cols ==> r.cur_col == r.cols - 1
            &&& !r.modes.synchronized_output
            &&& r.modes.alternate_screen == s.modes.alternate_screen
            &&& r.modes.mouse_mode == s.modes.mouse_mode
            &&& r.dirty
            &&& r.scrollback == s.scrollback && r.fg == s.fg && r.bg == s.bg && r.modifier
                == s.modifier && r.saved_cursor == s.saved_cursor && r.offset == s.offset
        }),
{
}

/// The alternate screen has no history; the primary one has its scrollback above
/// it.
pub proof fn histories_stand_above(s: ScreenView, i: int)
    ensures
        s.modes.alternate_screen ==> s.all_rows() == s.alt && s.max_offset() == 0,
        !s.modes.alternate_screen ==> s.max_offset() == s.scrollback.len() && s.all_rows().len()
            == s.scrollback.len() + s.primary.len(),
        !s.modes.alternate_screen && 0 <= i < s.scrollback.len() ==> s.all_rows()[i]
            == s.scrollback[i],
        !s.modes.alternate_screen && 0 <= i < s.primary.len() ==> s.all_rows()[s.scrollback.len()
            + i] == s.primary[i],
{
}

/// The viewport shows as many rows as the screen has. Scrolled back, it shows the
/// rows that end so far above the last one; where there are none left, blank ones.
pub proof fn viewports_look_back(s: ScreenView, i: int, x: int)
    requires
        s.wf(),
        0 <= i < s.rows,
        0 <= x < s.cols,
    ensures
        ({
            let n = s.all_rows().len();
            &&& s.viewport().len() == s.rows
            &&& s.offset + s.rows <= n ==> s.viewport()[i] == s.all_rows()[n - s.offset - s.rows
                + i]
            &&& s.offset + s.rows > n && s.offset + i < n ==> s.viewport()[i] == s.all_rows()[i]
            &&& s.offset + s.rows > n && s.offset + i >= n ==> s.viewport()[i].cells.len() == s.cols
                && s.viewport()[i].cells[x].symbol == seq![' '] && !s.viewport()[i].wrapped
            &&& s.offset <= s.max_offset() ==> s.offset + s.rows <= n
        }),
{
    reveal_strlit(" ");
    assert(" "@ =~= seq![' ']);
}

/// A line feed above the last row moves the cursor down and marks how the row it
/// reaches began. Nothing else changes.
pub proof fn line_feeds_move_down(s: ScreenView, wrapped: bool, y: int)
    requires
        s.wf(),
        s.cur_row + 1 < s.rows,
        0 <= y < s.rows,
    ensures
        ({
            let r = s.newline(wrapped);
            &&& r.cur_row == s.cur_row + 1
            &&& r.cur_col == s.cur_col
            &&& r.active()[y].cells == s.active()[y].cells
            &&& r.active()[s.cur_row + 1].wrapped == wrapped
            &&& y != s.cur_row + 1 ==> r.active()[y].wrapped == s.active()[y].wrapped
            &&& r.scrollback == s.scrollback
            &&& r.modes == s.modes
        }),
{
}

/// A line feed on the last row moves every row up and leaves a blank one at the
/// bottom. The row at the top of the primary screen joins the scrollback, where one
/// is kept, as far as that has room; the other screen stays.
pub proof fn line_feeds_scroll(s: ScreenView, wrapped: bool, y: int, x: int)
    requires
        s.wf(),
        s.cur_row + 1 == s.rows,
        0 <= y < s.rows,
        0 <= x < s.cols,
    ensures
        ({
            let r = s.newline(wrapped);
            &&& r.cur_row == s.cur_row && r.cur_col == s.cur_col
            &&& y + 1 < s.rows ==> r.active()[y] == s.active()[y + 1]
            &&& r.active()[s.rows - 1].cells.len() == s.cols
            &&& r.active()[s.rows - 1].cells[x].symbol == seq![' ']
            &&& r.active()[s.rows - 1].cells[x].fg == 0
            &&& r.active()[s.rows - 1].wrapped == wrapped
            &&& s.modes.alternate_screen || s.limit == 0 ==> r.scrollback == s.scrollback
            &&& !s.modes.alternate_screen && s.limit > 0 ==> r.scrollback == fitting(
                s.scrollback.push(s.primary[0]),
                s.limit as nat,
            )
            &&& s.modes.alternate_screen ==> r.primary == s.primary
            &&& !s.modes.alternate_screen ==> r.alt == s.alt
        }),
{
    reveal_strlit(" ");
    assert(" "@ =~= seq![' ']);
}

/// The scrollback drops rows from the top, and no more than it has to.
pub proof fn the_scrollback_drops_as_little_as_it_can(rows: Seq<RowView>, limit: nat, k: int)
    requires
        0 <= k <= rows.len(),
    ensures
        retained_bytes(rows.skip(k)) <= limit ==> fitting(rows, limit).len() >= rows.len() - k,
    decreases rows.len(),
{
    if rows.len() > 0 && retained_bytes(rows) > limit {
        if k == 0 {
            assert(rows.skip(0) =~= rows);
        } else {
            assert(rows.skip(1).skip(k - 1) =~= rows.skip(k));
            the_scrollback_drops_as_little_as_it_can(rows.skip(1), limit, k - 1);
        }
    }
}

/// A row costs its text and one byte more, and rows cost what each costs.
pub proof fn rows_cost_their_text(a: Seq<RowView>, b: Seq<RowView>, row: RowView)
    ensures
        retained_bytes(a + b) == retained_bytes(a) + retained_bytes(b),
        retained_bytes(seq![row]) == vstd::utf8::encode_utf8(row_text(row)).len() + 1,
        retained_bytes(Seq::empty()) == 0,
    decreases a.len(),
{
    reveal_with_fuel(retained_bytes, 2);
    assert(seq![row].skip(1) =~= Seq::<RowView>::empty());
    if a.len() == 0 {
        assert(a + b =~= b);
    } else {
        rows_cost_their_text(a.skip(1), b, row);
        assert((a + b).skip(1) =~= a.skip(1) + b);
        assert((a + b)[0] == a[0]);
    }
}

/// A character that fits is written where the cursor is, in the current style, and
/// the cursor moves on by its width. A wide one takes the next cell too; every other
/// cell stays.
pub proof fn characters_are_written_at_the_cursor(s: ScreenView, ch: char, x: int, y: int)
    requires
        s.wf(),
        s.cur_row < s.rows,
        s.cur_col + columns_of(ch) <= s.cols,
        0 <= x < s.cols,
        0 <= y < s.rows,
    ensures
        ({
            let r = s.put_char(ch);
            let cell = r.active()[s.cur_row as int].cells[s.cur_col as int];
            let next = r.active()[s.cur_row as int].cells[s.cur_col + 1];
            &&& r.cur_row == s.cur_row
            &&& r.cur_col == s.cur_col + columns_of(ch)
            &&& cell.symbol == seq![ch]
            &&& cell.fg == s.fg && cell.bg == s.bg && cell.modifier == s.modifier
            &&& cell.uri == s.hyperlink
            &&& !cell.skip
            &&& columns_of(ch) == 2 ==> next.skip && next.symbol.len() == 0 && next.uri is None
                && next.fg == s.fg && next.bg == s.bg
            &&& y != s.cur_row || x < s.cur_col || x > s.cur_col + 1 || x == s.cur_col + 1
                && columns_of(ch) != 2 ==> r.active()[y].cells[x] == s.active()[y].cells[x]
            &&& r.active()[y].wrapped == s.active()[y].wrapped
            &&& r.scrollback == s.scrollback
        }),
{
    let g = s.active();
    let first = grid_written(g, s.cur_row as int, s.cur_col as int, s.cell_of(ch));
    assert(columns_of(ch) >= 1);
    assert(first[s.cur_row as int].cells.len() == s.cols);
}

/// A character that does not fit in its row goes to the beginning of the next, which
/// is marked as its continuation.
pub proof fn characters_wrap_to_the_next_row(s: ScreenView, ch: char)
    requires
        s.cur_col + columns_of(ch) > s.cols,
        columns_of(ch) <= s.cols,
    ensures
        s.put_char(ch) == (ScreenView { cur_col: 0, ..s.newline(true) }).put_char(ch),
{
}

/// Printable characters take one column, and what has no width takes one too.
pub proof fn widths_are_at_least_one(c: char, w: u16)
    requires
        call_ensures(columns, (c,), w),
    ensures
        1 <= w <= 3,
        ' ' <= c <= '~' ==> w == 1,
        char_width(c) is None || char_width(c) == Some(0usize) ==> w == 1,
        char_width(c) matches Some(n) ==> n > 0 ==> w == n,
{
}

/// Erasing to the end of a row blanks the cells from the cursor on, and no other.
pub proof fn erasing_stops_at_the_cursor(screen: &mut Screen, x: int, y: int)
    requires
        old(screen)@.wf(),
        call_ensures(Screen::erase_to_end_of_row, (screen,), ()),
        0 <= x < old(screen)@.cols,
        0 <= y < old(screen)@.rows,
    ensures
        ({
            let s = old(screen)@;
            let cell = final(screen)@.active()[y].cells[x];
            &&& y == s.cur_row && x >= s.cur_col ==> cell.symbol == seq![' '] && cell.fg == 0
                && cell.bg == 0 && cell.modifier == 0 && cell.uri is None
            &&& y != s.cur_row || x < s.cur_col ==> cell == s.active()[y].cells[x]
            &&& final(screen)@.cur_row == s.cur_row && final(screen)@.cur_col == s.cur_col
        }),
{
    reveal_strlit(" ");
    assert(" "@ =~= seq![' ']);
}

/// Clearing blanks every cell of the screen in use, and leaves the other and the
/// cursor alone.
pub proof fn clearing_blanks_the_screen(s: ScreenView, x: int, y: int)
    requires
        0 <= x < s.cols,
        0 <= y < s.rows,
    ensures
        ({
            let r = s.clear_active();
            let cell = r.active()[y].cells[x];
            &&& cell.symbol == seq![' '] && cell.fg == 0 && cell.bg == 0 && cell.modifier == 0
            &&& cell.uri is None && !cell.skip
            &&& !r.active()[y].wrapped
            &&& s.modes.alternate_screen ==> r.primary == s.primary
            &&& !s.modes.alternate_screen ==> r.alt == s.alt
            &&& r.cur_row == s.cur_row && r.cur_col == s.cur_col && r.scrollback == s.scrollback
        }),
{
    reveal_strlit(" ");
    assert(" "@ =~= seq![' ']);
}

/// A fresh screen is blank, has its cursor in the corner, shown, and no mode, style
/// or history.
pub proof fn fresh_screens_are_blank(cols: u16, rows: u16, limit: usize, r: Screen)
    requires
        call_ensures(Screen::new, (cols, rows, limit), r),
    ensures
        r@.cols == cols && r@.rows == rows && r@.limit == limit,
        r@.primary.len() == rows && r@.alt.len() == rows,
        r@.scrollback.len() == 0,
        r@.cur_row == 0 && r@.cur_col == 0 && r@.saved_cursor == (0u16, 0u16),
        r@.cursor_visible && r@.cursor_shape == 0,
        r@.fg == 0 && r@.bg == 0 && r@.modifier == 0 && r@.hyperlink is None,
        r@.offset == 0,
        !r@.modes.alternate_screen && !r@.modes.application_cursor && !r@.modes.bracketed_paste,
        !r@.modes.focus_reporting && !r@.modes.mouse_alternate_scroll,
        !r@.modes.synchronized_output && !r@.modes.modify_other_keys,
        r@.modes.mouse_mode == 0 && r@.modes.mouse_encoding == 0,
{
}

/// Moving forward stops at the last place.
pub proof fn moves_stop_at_the_edge(pos: u16, n: u16, size: u16, r: u16)
    requires
        size >= 1,
        call_ensures(forward, (pos, n, size), r),
    ensures
        r < size,
        pos + n < size ==> r == pos + n,
        pos + n >= size ==> r == size - 1,
{
}

} // verus!
