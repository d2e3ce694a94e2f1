//! What can be read off a terminal double: text, scroll position, cursor,
//! frames, links and selections.

use vstd::prelude::*;
use crate::pane::fake_terminal;
use crate::pane::fake_terminal::{FakePaneTerminal, FakeView};
use crate::pane::screen;
use crate::pane::screen::{FakeCell, FakeCellView, Row, RowView, ScreenView};
use crate::pane::terminal::{ScrollMetrics, TerminalCursorState};
use crate::pane::vt;
use crate::termhost::grid;
use crate::text;
use crate::wire;
use crate::wire::{CellData, CursorState, FrameData};

verus! {

/// The texts of a run of rows.
pub open spec fn row_texts(rows: Seq<RowView>) -> Seq<Seq<char>> {
    rows.map_values(|r: RowView| screen::row_text(r))
}

/// Lines without the empty ones at the end.
pub open spec fn without_trailing_empty(lines: Seq<Seq<char>>) -> Seq<Seq<char>>
    decreases lines.len(),
{
    if lines.len() > 0 && lines.last().len() == 0 {
        without_trailing_empty(lines.drop_last())
    } else {
        lines
    }
}

/// Rows without those at the end that have no text.
pub open spec fn without_trailing_blank(rows: Seq<RowView>) -> Seq<RowView>
    decreases rows.len(),
{
    if rows.len() > 0 && screen::row_text(rows.last()).len() == 0 {
        without_trailing_blank(rows.drop_last())
    } else {
        rows
    }
}

/// The lines of a run of rows. With `unwrap`, a row that continues the one above
/// it is part of that one's line.
pub open spec fn lines_of(rows: Seq<RowView>, unwrap: bool) -> Seq<Seq<char>>
    decreases rows.len(),
{
    if rows.len() == 0 {
        Seq::empty()
    } else {
        let before = lines_of(rows.drop_last(), unwrap);
        let line = screen::row_text(rows.last());
        if unwrap && rows.last().wrapped && before.len() > 0 {
            before.drop_last().push(before.last() + line)
        } else {
            before.push(line)
        }
    }
}

/// The last `n` lines, or all of them where there are fewer.
pub open spec fn last_lines(lines: Seq<Seq<char>>, n: nat) -> Seq<Seq<char>> {
    if n < lines.len() {
        lines.skip(lines.len() - n)
    } else {
        lines
    }
}

/// The text on display.
pub open spec fn visible(s: ScreenView) -> Seq<char> {
    text::joined_lines(without_trailing_empty(row_texts(s.viewport())))
}

/// The last `n` lines of scrollback and screen.
pub open spec fn recent(s: ScreenView, n: nat, unwrap: bool) -> Seq<char> {
    text::joined_lines(last_lines(lines_of(without_trailing_blank(s.all_rows()), unwrap), n))
}

/// The cursor as a frame reports it: hidden while the viewport is scrolled up.
pub open spec fn cursor(s: ScreenView) -> CursorState {
    CursorState {
        x: s.cur_col,
        y: s.cur_row,
        visible: s.cursor_visible && s.offset == 0,
        shape: s.cursor_shape,
    }
}

/// The cells of a run of rows, one row after the other.
pub open spec fn flat(rows: Seq<RowView>) -> Seq<FakeCellView>
    decreases rows.len(),
{
    if rows.len() == 0 {
        Seq::empty()
    } else {
        flat(rows.drop_last()) + rows.last().cells
    }
}

/// The URIs of a run of cells, each once, in order of appearance.
pub open spec fn link_table(cells: Seq<FakeCellView>) -> Seq<Seq<char>>
    decreases cells.len(),
{
    if cells.len() == 0 {
        Seq::empty()
    } else {
        let before = link_table(cells.drop_last());
        match cells.last().uri {
            Some(uri) => if before.contains(uri) {
                before
            } else {
                before.push(uri)
            },
            None => before,
        }
    }
}

/// A URI's index in the table.
pub open spec fn link_index(uri: Option<Seq<char>>, table: Seq<Seq<char>>) -> Option<u32> {
    match uri {
        Some(u) => Some(table.index_of(u) as u32),
        None => None,
    }
}

/// The viewport as a frame.
pub open spec fn frame(s: ScreenView) -> wire::FrameView {
    let cells = flat(s.viewport());
    let table = link_table(cells);
    wire::FrameView {
        cells: cells.map_values(
            |c: FakeCellView| screen::cell_wire(c, link_index(c.uri, table)),
        ),
        width: s.cols,
        height: s.rows,
        cursor: Some(cursor(s)),
        hyperlinks: table,
        graphics: Seq::empty(),
    }
}

/// The links among the first `w` cells of a row on screen line `y`.
pub open spec fn row_links(cells: Seq<FakeCellView>, ox: int, y: int, w: int) -> Seq<
    ((int, int), Seq<char>, Seq<char>),
>
    decreases w,
{
    if w <= 0 {
        Seq::empty()
    } else {
        let before = row_links(cells, ox, y, w - 1);
        match cells[w - 1].uri {
            Some(uri) => before.push(((ox + w - 1, y), cells[w - 1].symbol, uri)),
            None => before,
        }
    }
}

/// The links within the top-left `w` by `h` window of some rows.
pub open spec fn links(rows: Seq<RowView>, ox: int, oy: int, w: int, h: int) -> Seq<
    ((int, int), Seq<char>, Seq<char>),
>
    decreases h,
{
    if h <= 0 {
        Seq::empty()
    } else {
        let cells = rows[h - 1].cells;
        links(rows, ox, oy, w, h - 1) + row_links(
            cells,
            ox,
            oy + h - 1,
            grid::min(w, cells.len() as int),
        )
    }
}

/// Whether one cell comes before another, or is the same.
pub open spec fn cell_le(a: (u32, u16), b: (u32, u16)) -> bool {
    a.0 < b.0 || a.0 == b.0 && a.1 <= b.1
}

/// The text of row `i` within the selection from `start` to `end`.
pub open spec fn selected_line(
    rows: Seq<RowView>,
    start: (u32, u16),
    end: (u32, u16),
    i: int,
) -> Seq<char> {
    let from = if i == start.0 {
        start.1 as int
    } else {
        0
    };
    let to = if i == end.0 {
        end.1 as int
    } else if rows[i].cells.len() > 0 {
        rows[i].cells.len() - 1
    } else {
        0
    };
    screen::row_text_between(rows[i], from, to)
}

/// The text of the selection from `start` to `end`, both cells included; rows
/// past the last one add nothing.
pub open spec fn selected(rows: Seq<RowView>, start: (u32, u16), end: (u32, u16)) -> Seq<char> {
    let last = if end.0 < rows.len() {
        end.0 + 1
    } else {
        rows.len() as int
    };
    let n = if start.0 < last {
        (last - start.0) as nat
    } else {
        0
    };
    text::joined_lines(Seq::new(n, |k: int| selected_line(rows, start, end, start.0 + k)))
}

fn position(table: &Vec<String>, uri: &String) -> (r: Option<usize>)
    ensures
        match r {
            Some(i) => i < table.len() && table@[i as int]@ == uri@,
            None => !text::lines_view(table@).contains(uri@),
        },
{
    let mut i: usize = 0;
    while i < table.len()
        invariant
            i <= table.len(),
            forall|j: int| 0 <= j < i ==> (#[trigger] table@[j])@ != uri@,
        decreases table.len() - i,
    {
        if table[i] == *uri {
            return Some(i);
        }
        i += 1;
    }
    assert forall|j: int| 0 <= j < table@.len() implies text::lines_view(table@)[j] != uri@ by {
        assert(table@[j]@ != uri@);
    }
    None
}

proof fn table_has_every_uri(cells: Seq<FakeCellView>)
    ensures
        link_table(cells).no_duplicates(),
        forall|i: int|
            0 <= i < cells.len() && (#[trigger] cells[i]).uri is Some ==> link_table(
                cells,
            ).contains(cells[i].uri->0),
    decreases cells.len(),
{
    if cells.len() > 0 {
        let front = cells.drop_last();
        table_has_every_uri(front);
        let before = link_table(front);
        let table = link_table(cells);
        assert forall|i: int| 0 <= i < cells.len() && (#[trigger] cells[i]).uri is Some implies
            table.contains(cells[i].uri->0) by {
            if i < front.len() {
                assert(front[i] == cells[i]);
                let k = before.index_of(cells[i].uri->0);
                assert(table[k] == before[k]);
            } else if !before.contains(cells[i].uri->0) {
                assert(table[before.len() as int] == cells[i].uri->0);
            }
        }
    }
}

proof fn flat_grows(rows: Seq<RowView>, i: int)
    requires
        0 <= i < rows.len(),
    ensures
        flat(rows.take(i + 1)) == flat(rows.take(i)) + rows[i].cells,
{
    assert(rows.take(i + 1).drop_last() =~= rows.take(i));
}

fn flatten(rows: Vec<Row>) -> (r: Vec<FakeCell>)
    ensures
        screen::row_cells(r@) == flat(screen::rows_view(rows@)),
{
    let ghost all = screen::rows_view(rows@);
    let mut out: Vec<FakeCell> = Vec::new();
    let mut i: usize = 0;
    assert(all.take(0) =~= Seq::<RowView>::empty());
    assert(screen::row_cells(out@) =~= flat(all.take(0)));
    while i < rows.len()
        invariant
            i <= rows.len(),
            all == screen::rows_view(rows@),
            screen::row_cells(out@) == flat(all.take(i as int)),
        decreases rows.len() - i,
    {
        proof {
            flat_grows(all, i as int);
        }
        let ghost start = screen::row_cells(out@);
        let ghost cells = all[i as int].cells;
        let mut j: usize = 0;
        assert(start + cells.take(0) =~= start);
        while j < rows[i].cells.len()
            invariant
                i < rows.len(),
                j <= cells.len(),
                cells == screen::row_cells(rows@[i as int].cells@),
                screen::row_cells(out@) == start + cells.take(j as int),
            decreases cells.len() - j,
        {
            let ghost before = out@;
            out.push(rows[i].cells[j].clone());
            assert(screen::row_cells(out@) =~= screen::row_cells(before).push(cells[j as int]));
            assert(start + cells.take(j + 1) =~= (start + cells.take(j as int)).push(
                cells[j as int],
            ));
            j += 1;
        }
        assert(cells.take(j as int) =~= cells);
        i += 1;
    }
    assert(all.take(i as int) =~= all);
    out
}

fn collect_links(cells: &Vec<FakeCell>) -> (r: Vec<String>)
    ensures
        text::lines_view(r@) == link_table(screen::row_cells(cells@)),
{
    let ghost all = screen::row_cells(cells@);
    let mut table: Vec<String> = Vec::new();
    let mut i: usize = 0;
    assert(all.take(0) =~= Seq::<FakeCellView>::empty());
    assert(text::lines_view(table@) =~= Seq::<Seq<char>>::empty());
    while i < cells.len()
        invariant
            i <= cells.len(),
            all == screen::row_cells(cells@),
            text::lines_view(table@) == link_table(all.take(i as int)),
        decreases cells.len() - i,
    {
        let ghost before = table@;
        assert(all.take(i + 1).drop_last() =~= all.take(i as int));
        assert(all.take(i + 1).last() == cells@[i as int]@);
        if let Some(uri) = &cells[i].uri {
            match position(&table, uri) {
                Some(k) => {
                    assert(text::lines_view(table@)[k as int] == uri@);
                },
                None => {
                    table.push(uri.clone());
                    assert(text::lines_view(table@) =~= text::lines_view(before).push(uri@));
                },
            }
        }
        i += 1;
    }
    assert(all.take(i as int) =~= all);
    table
}

impl FakePaneTerminal {
    /// The text on display, rows joined by newlines, empty rows at the end left
    /// out.
    pub fn visible_text(&self) -> (r: String)
        ensures
            r@ == visible(self@.screen),
    {
        let rows = self.screen.viewport();
        let ghost all = screen::rows_view(rows@);
        let mut lines: Vec<String> = Vec::new();
        let mut i: usize = 0;
        while i < rows.len()
            invariant
                i <= rows.len(),
                all == screen::rows_view(rows@),
                text::lines_view(lines@) == row_texts(all).take(i as int),
            decreases rows.len() - i,
        {
            let ghost before = lines@;
            assert(all[i as int] == rows@[i as int]@);
            lines.push(rows[i].text());
            assert(text::lines_view(lines@) =~= text::lines_view(before).push(
                row_texts(all)[i as int],
            ));
            i += 1;
        }
        assert(text::lines_view(lines@) =~= row_texts(all));
        while lines.len() > 0 && lines[lines.len() - 1].as_str().is_empty()
            invariant
                without_trailing_empty(text::lines_view(lines@)) == without_trailing_empty(
                    row_texts(all),
                ),
            decreases lines.len(),
        {
            let ghost before = lines@;
            assert(text::lines_view(before).last() == before.last()@);
            lines.pop();
            assert(text::lines_view(lines@) =~= text::lines_view(before).drop_last());
        }
        proof {
            if lines.len() > 0 {
                assert(text::lines_view(lines@).last() == lines@.last()@);
            }
        }
        text::join_lines(&lines)
    }

    /// The last lines of scrollback and screen, blank rows at the end left out.
    /// With `unwrap`, rows that continue the one above join its line.
    pub fn recent_text(&self, lines: usize, unwrap: bool) -> (r: String)
        ensures
            r@ == recent(self@.screen, lines as nat, unwrap),
    {
        let mut rows = self.screen.all_rows();
        let ghost all = screen::rows_view(rows@);
        while rows.len() > 0 && rows[rows.len() - 1].text().as_str().is_empty()
            invariant
                without_trailing_blank(screen::rows_view(rows@)) == without_trailing_blank(all),
            decreases rows.len(),
        {
            let ghost before = rows@;
            assert(screen::rows_view(before).last() == before.last()@);
            rows.pop();
            assert(screen::rows_view(rows@) =~= screen::rows_view(before).drop_last());
        }
        let ghost kept = screen::rows_view(rows@);
        proof {
            if rows.len() > 0 {
                assert(kept.last() == rows@.last()@);
            }
            assert(kept == without_trailing_blank(all));
        }
        let mut out: Vec<String> = Vec::new();
        let mut i: usize = 0;
        assert(kept.take(0) =~= Seq::<RowView>::empty());
        assert(text::lines_view(out@) =~= Seq::<Seq<char>>::empty());
        while i < rows.len()
            invariant
                i <= rows.len(),
                kept == screen::rows_view(rows@),
                text::lines_view(out@) == lines_of(kept.take(i as int), unwrap),
            decreases rows.len() - i,
        {
            let ghost before = text::lines_view(out@);
            proof {
                assert(kept.take(i + 1).drop_last() =~= kept.take(i as int));
                assert(kept.take(i + 1).last() == rows@[i as int]@);
            }
            let line = rows[i].text();
            if unwrap && rows[i].wrapped && out.len() > 0 {
                let ghost last = before.last();
                let joined = match out.pop() {
                    Some(mut above) => {
                        above.append(line.as_str());
                        above
                    },
                    None => line,
                };
                assert(text::lines_view(out@) =~= before.drop_last());
                assert(joined@ == last + screen::row_text(rows@[i as int]@));
                let ghost short = out@;
                out.push(joined);
                assert(text::lines_view(out@) =~= text::lines_view(short).push(joined@));
            } else {
                let ghost short = out@;
                out.push(line);
                assert(text::lines_view(out@) =~= text::lines_view(short).push(line@));
            }
            i += 1;
        }
        assert(kept.take(i as int) =~= kept);
        let ghost lines_all = text::lines_view(out@);
        let tail = if lines < out.len() {
            let n = out.len();
            let rest = out.split_off(n - lines);
            assert(text::lines_view(rest@) =~= lines_all.skip(n - lines));
            rest
        } else {
            out
        };
        assert(text::lines_view(tail@) == last_lines(lines_all, lines as nat));
        text::join_lines(&tail)
    }

    /// Scrolls into the history.
    pub fn scroll_up(&mut self, lines: usize)
        ensures
            final(self)@ == old(self)@.scrolled(
                grid::min(
                    old(self)@.screen.offset + lines,
                    old(self)@.screen.max_offset() as int,
                ) as usize,
            ),
    {
        let max = self.screen.max_offset();
        self.screen.offset_from_bottom = if self.screen.offset_from_bottom <= max && lines <= max
            - self.screen.offset_from_bottom {
            self.screen.offset_from_bottom + lines
        } else {
            max
        };
        self.screen.dirty = true;
    }

    /// Scrolls toward the live bottom.
    pub fn scroll_down(&mut self, lines: usize)
        ensures
            final(self)@ == old(self)@.scrolled(
                (if lines <= old(self)@.screen.offset {
                    (old(self)@.screen.offset - lines) as usize
                } else {
                    0
                }),
            ),
    {
        self.screen.offset_from_bottom = if lines <= self.screen.offset_from_bottom {
            self.screen.offset_from_bottom - lines
        } else {
            0
        };
        self.screen.dirty = true;
    }

    /// Goes back to the live bottom.
    pub fn scroll_reset(&mut self)
        ensures
            final(self)@ == (FakeView {
                screen: ScreenView { offset: 0, ..old(self)@.screen },
                ..old(self)@
            }),
    {
        self.screen.offset_from_bottom = 0;
    }

    /// Puts the viewport `lines` rows above the live bottom, or at the top of the
    /// history.
    pub fn set_scroll_offset_from_bottom(&mut self, lines: usize)
        ensures
            final(self)@ == old(self)@.scrolled(
                grid::min(lines as int, old(self)@.screen.max_offset() as int) as usize,
            ),
    {
        let max = self.screen.max_offset();
        self.screen.offset_from_bottom = if lines <= max {
            lines
        } else {
            max
        };
        self.screen.dirty = true;
    }

    /// Where the viewport stands.
    pub fn scroll_metrics(&self) -> (r: Option<ScrollMetrics>)
        ensures
            r == Some(metrics(self@.screen)),
    {
        Some(
            ScrollMetrics {
                offset_from_bottom: self.screen.offset_from_bottom,
                max_offset_from_bottom: self.screen.max_offset(),
                viewport_rows: self.screen.rows as usize,
            },
        )
    }

    /// The cursor; hidden while the viewport is scrolled up.
    pub fn cursor_state(&self) -> (r: Option<TerminalCursorState>)
        ensures
            r == Some(cursor_on_screen(cursor(self@.screen))),
    {
        Some(
            TerminalCursorState {
                x: self.screen.cur_col,
                y: self.screen.cur_row,
                visible: self.screen.cursor_visible && self.screen.offset_from_bottom == 0,
                shape: self.screen.cursor_shape,
            },
        )
    }

    /// Whether the program holds its output back.
    pub fn synchronized_output_active(&self) -> (r: bool)
        ensures
            r == self@.screen.modes.synchronized_output,
    {
        self.screen.modes.synchronized_output
    }

    /// The viewport as the daemon would report it.
    pub fn snapshot(&self) -> (r: FrameData)
        ensures
            r@ == frame(self@.screen),
    {
        let cells = flatten(self.screen.viewport());
        let ghost all = screen::row_cells(cells@);
        let hyperlinks = collect_links(&cells);
        let ghost table = link_table(all);
        proof {
            table_has_every_uri(all);
        }
        let mut out: Vec<CellData> = Vec::new();
        let ghost to_wire = |c: FakeCellView| screen::cell_wire(c, link_index(c.uri, table));
        let mut i: usize = 0;
        while i < cells.len()
            invariant
                i <= cells.len(),
                all == screen::row_cells(cells@),
                table == link_table(all),
                text::lines_view(hyperlinks@) == table,
                table.no_duplicates(),
                forall|i: int|
                    0 <= i < all.len() && (#[trigger] all[i]).uri is Some ==> table.contains(
                        all[i].uri->0,
                    ),
                to_wire == (|c: FakeCellView|
                    screen::cell_wire(c, link_index(c.uri, table))),
                wire::cells_view(out@) == all.map_values(to_wire).take(i as int),
            decreases cells.len() - i,
        {
            assert(all[i as int] == cells@[i as int]@);
            let index: Option<u32> = match &cells[i].uri {
                Some(uri) => match position(&hyperlinks, uri) {
                    Some(k) => {
                        assert(table[k as int] == uri@);
                        Some(
                            #[verifier::truncate]
                            (k as u32),
                        )
                    },
                    None => None,
                },
                None => None,
            };
            let ghost before = out@;
            out.push(cells[i].to_wire(index));
            assert(wire::cells_view(out@) =~= wire::cells_view(before).push(to_wire(all[i as int])));
            i += 1;
        }
        let ghost s = self@.screen;
        assert(wire::cells_view(out@) =~= frame(s).cells);
        assert(wire::texts_view(hyperlinks@) =~= text::lines_view(hyperlinks@));
        let r = FrameData {
            cells: out,
            width: self.screen.cols,
            height: self.screen.rows,
            cursor: Some(
                CursorState {
                    x: self.screen.cur_col,
                    y: self.screen.cur_row,
                    visible: self.screen.cursor_visible && self.screen.offset_from_bottom == 0,
                    shape: self.screen.cursor_shape,
                },
            ),
            hyperlinks,
            graphics: Vec::new(),
        };
        assert(r@ =~= frame(s));
        r
    }

    /// Whether anything changed since the last call; clears the flag.
    pub fn take_dirty(&mut self) -> (r: bool)
        ensures
            r == old(self)@.screen.dirty,
            final(self)@ == (FakeView {
                screen: ScreenView { dirty: false, ..old(self)@.screen },
                ..old(self)@
            }),
    {
        let dirty = self.screen.dirty;
        self.screen.dirty = false;
        dirty
    }

    /// The linked cells within a window of the viewport, as `((screen_x,
    /// screen_y), cell_symbol, uri)`.
    pub fn visible_hyperlinks(
        &self,
        origin_x: u16,
        origin_y: u16,
        width: u16,
        height: u16,
    ) -> (r: Vec<((u16, u16), String, String)>)
        requires
            links_fit(
                self@.screen.viewport(),
                origin_x as int,
                origin_y as int,
                width as int,
                height as int,
            ),
        ensures
            grid::links_view(r@) == links(
                self@.screen.viewport(),
                origin_x as int,
                origin_y as int,
                width as int,
                grid::min(height as int, self@.screen.rows as int),
            ),
    {
        let rows = self.screen.viewport();
        let ghost all = self@.screen.viewport();
        assert(all.len() == self.screen.rows);
        assert(rows.len() == all.len());
        let h: u16 = if height <= self.screen.rows {
            height
        } else {
            self.screen.rows
        };
        let mut out: Vec<((u16, u16), String, String)> = Vec::new();
        let mut y: u16 = 0;
        assert(grid::links_view(out@) =~= Seq::<((int, int), Seq<char>, Seq<char>)>::empty());
        while y < h
            invariant
                y <= h <= rows.len(),
                h <= height,
                all == screen::rows_view(rows@),
                links_fit(all, origin_x as int, origin_y as int, width as int, height as int),
                grid::links_view(out@) == links(
                    all,
                    origin_x as int,
                    origin_y as int,
                    width as int,
                    y as int,
                ),
            decreases h - y,
        {
            let cells = &rows[y as usize].cells;
            let ghost view = all[y as int].cells;
            assert(view == screen::row_cells(cells@));
            let w: u16 = if (width as usize) < cells.len() {
                width
            } else {
                cells.len() as u16
            };
            let ghost above = grid::links_view(out@);
            let mut x: u16 = 0;
            assert(above + row_links(view, origin_x as int, origin_y + y, 0) =~= above);
            while x < w
                invariant
                    y < h <= rows.len(),
                    h <= height,
                    x <= w <= cells.len(),
                    w <= width,
                    view == screen::row_cells(cells@),
                    view == all[y as int].cells,
                    all == screen::rows_view(rows@),
                    links_fit(all, origin_x as int, origin_y as int, width as int, height as int),
                    grid::links_view(out@) == above + row_links(
                        view,
                        origin_x as int,
                        origin_y + y,
                        x as int,
                    ),
                decreases w - x,
            {
                let ghost before = out@;
                assert(view[x as int] == cells@[x as int]@);
                if let Some(uri) = &cells[x as usize].uri {
                    assert(all[y as int].cells[x as int].uri is Some);
                    let link = (
                        (origin_x + x, origin_y + y),
                        cells[x as usize].symbol.clone(),
                        uri.clone(),
                    );
                    out.push(link);
                    assert(grid::links_view(out@) =~= grid::links_view(before).push(
                        grid::link_view(link),
                    ));
                }
                x += 1;
                assert(grid::links_view(out@) =~= above + row_links(
                    view,
                    origin_x as int,
                    origin_y + y,
                    x as int,
                ));
            }
            y += 1;
        }
        out
    }

    /// The text between two cells of the whole buffer (row 0 is the top of the
    /// scrollback), both included, rows joined by newlines. The two may come in
    /// either order.
    pub fn extract_selection_cells(
        &self,
        anchor_row: u32,
        anchor_col: u16,
        cursor_row: u32,
        cursor_col: u16,
    ) -> (r: Option<String>)
        ensures
            r is Some,
            r->0@ == (if cell_le((anchor_row, anchor_col), (cursor_row, cursor_col)) {
                selected(
                    self@.screen.all_rows(),
                    (anchor_row, anchor_col),
                    (cursor_row, cursor_col),
                )
            } else {
                selected(
                    self@.screen.all_rows(),
                    (cursor_row, cursor_col),
                    (anchor_row, anchor_col),
                )
            }),
    {
        let forward = anchor_row < cursor_row || (anchor_row == cursor_row && anchor_col
            <= cursor_col);
        let (start_row, start_col, end_row, end_col) = if forward {
            (anchor_row, anchor_col, cursor_row, cursor_col)
        } else {
            (cursor_row, cursor_col, anchor_row, anchor_col)
        };
        let rows = self.screen.all_rows();
        let ghost all = self@.screen.all_rows();
        let ghost start = (start_row, start_col);
        let ghost end = (end_row, end_col);
        let mut out: Vec<String> = Vec::new();
        let mut i: u64 = start_row as u64;
        assert(rows.len() == all.len());
        let ghost line = |k: int| selected_line(all, start, end, start_row + k);
        assert(text::lines_view(out@) =~= Seq::new(0, line));
        while i <= end_row as u64 && i < rows.len() as u64
            invariant
                all == screen::rows_view(rows@),
                start == (start_row, start_col),
                end == (end_row, end_col),
                line == (|k: int| selected_line(all, start, end, start_row + k)),
                start_row <= i,
                i <= end_row + 1 || i == start_row,
                i <= rows.len() || i == start_row,
                text::lines_view(out@) == Seq::new((i - start_row) as nat, line),
            decreases end_row + 1 - i,
        {
            let row = &rows[i as usize];
            assert(all[i as int] == row@);
            let from: usize = if i == start_row as u64 {
                start_col as usize
            } else {
                0
            };
            let to: usize = if i == end_row as u64 {
                end_col as usize
            } else if row.cells.len() > 0 {
                row.cells.len() - 1
            } else {
                0
            };
            let ghost before = out@;
            out.push(row.text_between(from, to));
            assert(text::lines_view(out@) =~= text::lines_view(before).push(line(i - start_row)));
            i += 1;
        }
        assert(text::joined_lines(text::lines_view(out@)) == selected(all, start, end));
        Some(text::join_lines(&out))
    }
}

/// The linked cells of a window have screen positions.
pub open spec fn links_fit(rows: Seq<RowView>, ox: int, oy: int, w: int, h: int) -> bool {
    forall|x: int, y: int|
        0 <= y < h && y < rows.len() && 0 <= x < w && x < rows[y].cells.len() && (
        #[trigger] rows[y].cells[x]).uri is Some ==> ox + x <= u16::MAX && oy + y <= u16::MAX
}

/// Where the viewport stands.
pub open spec fn metrics(s: ScreenView) -> ScrollMetrics {
    ScrollMetrics {
        offset_from_bottom: s.offset,
        max_offset_from_bottom: s.max_offset() as usize,
        viewport_rows: s.rows as usize,
    }
}

/// A frame's cursor as a screen cursor.
pub open spec fn cursor_on_screen(c: CursorState) -> TerminalCursorState {
    TerminalCursorState { x: c.x, y: c.y, visible: c.visible, shape: c.shape }
}

impl FakeView {
    /// The double with the viewport moved.
    pub open spec fn scrolled(self, offset: usize) -> FakeView {
        FakeView { screen: ScreenView { offset, dirty: true, ..self.screen }, ..self }
    }
}

/// A live frame is complete: one cell per position.
pub proof fn live_frames_are_complete(s: ScreenView)
    requires
        s.wf(),
        s.offset == 0,
    ensures
        frame(s).cells.len() == s.cols * s.rows,
{
    screen::the_live_viewport_is_the_active_grid(s);
    assert forall|i: int| 0 <= i < s.rows implies (#[trigger] s.active()[i]).cells.len()
        == s.cols by {
        assert(s.primary[i].cells.len() == s.cols);
        assert(s.alt[i].cells.len() == s.cols);
    }
    flat_of_even_rows(s.active(), s.cols as nat);
    assert(s.active().len() * s.cols == s.cols * s.rows) by (nonlinear_arith)
        requires
            s.active().len() == s.rows,
    ;
}

proof fn flat_of_even_rows(rows: Seq<RowView>, n: nat)
    requires
        forall|i: int| 0 <= i < rows.len() ==> (#[trigger] rows[i]).cells.len() == n,
    ensures
        flat(rows).len() == rows.len() * n,
    decreases rows.len(),
{
    if rows.len() > 0 {
        let front = rows.drop_last();
        assert forall|i: int| 0 <= i < front.len() implies (#[trigger] front[i]).cells.len() == n by {
            assert(front[i] == rows[i]);
        }
        flat_of_even_rows(front, n);
        assert(rows[rows.len() - 1].cells.len() == n);
        assert(front.len() * n + n == rows.len() * n) by (nonlinear_arith)
            requires
                front.len() + 1 == rows.len(),
        ;
    } else {
        assert(rows.len() * n == 0) by (nonlinear_arith)
            requires
                rows.len() == 0,
        ;
    }
}

/// Every link index of a live frame points at the URI its cell was written
/// with.
pub proof fn live_frames_index_their_links(s: ScreenView, i: int)
    requires
        s.wf(),
        s.offset == 0,
        0 <= i < frame(s).cells.len(),
    ensures
        frame(s).cells[i].hyperlink matches Some(k) ==> k < frame(s).hyperlinks.len()
            && flat(s.viewport())[i].uri == Some(frame(s).hyperlinks[k as int]),
{
    live_frames_are_complete(s);
    let cells = flat(s.viewport());
    table_has_every_uri(cells);
    table_is_no_longer(cells);
    assert(s.cols * s.rows <= 0xffff * 0xffff) by (nonlinear_arith)
        requires
            s.cols <= 0xffff,
            s.rows <= 0xffff,
    ;
    if cells[i].uri is Some {
        let k = link_table(cells).index_of(cells[i].uri->0);
        assert(0 <= k < link_table(cells).len());
        assert(k as u32 == k);
    }
}

proof fn table_is_no_longer(cells: Seq<FakeCellView>)
    ensures
        link_table(cells).len() <= cells.len(),
    decreases cells.len(),
{
    if cells.len() > 0 {
        table_is_no_longer(cells.drop_last());
    }
}

/// Wherever the viewport is sent, it stays within the history, and scrolling
/// down undoes scrolling up that was not cut short.
pub proof fn scrolling_stays_within_the_history(s: ScreenView, lines: nat)
    requires
        s.offset <= s.max_offset(),
    ensures
        grid::min(s.offset + lines, s.max_offset() as int) <= s.max_offset(),
        s.offset + lines <= s.max_offset() ==> grid::min(
            s.offset + lines,
            s.max_offset() as int,
        ) - lines == s.offset,
{
}

/// After every chunk of output the mirror answers with the modes the output
/// set.
pub proof fn the_mirror_follows_the_output(f: FakeView, s: Seq<char>)
    ensures
        f.fed(s).mirror.input_state() == fake_terminal::modes_state(f.fed(s).screen.modes),
        f.fed(s).mirror.synchronized_output == f.fed(s).screen.modes.synchronized_output,
{
}

/// Characters that are written as they stand, each one column wide.
pub open spec fn narrow(c: char) -> bool {
    &&& c != vt::ESC
    &&& c != vt::BEL
    &&& c != '\r'
    &&& c != '\n'
    &&& c != '\t'
    &&& c != '\u{8}'
    &&& screen::columns_of(c) == 1
}

/// A line written on a blank screen that is wide enough for it, and that does
/// not end in white space, is what the screen shows.
pub proof fn written_lines_read_back(cols: u16, rows: u16, limit: usize, s: Seq<char>)
    requires
        cols >= 1,
        rows >= 1,
        s.len() <= cols,
        forall|i: int| 0 <= i < s.len() ==> narrow(#[trigger] s[i]),
        s.len() > 0 ==> !text::is_white_space(s.last()),
    ensures
        fake_terminal::accepted(s, 0),
        visible(fake_terminal::fake_fresh(cols, rows, limit).fed(s).screen) == s,
{
    narrow_is_accepted(s, 0);
    typing(cols, rows, limit, s, 0);
    let fresh = fake_terminal::fake_fresh(cols, rows, limit);
    assert(typed(cols, rows, limit, s, 0).screen.primary =~= fresh.screen.primary) by {
        assert(typed_row(cols, s, 0).cells =~= screen::row_blank(cols).cells);
    }
    assert(typed(cols, rows, limit, s, 0) =~= fresh);
    let shown_screen = fresh.fed(s).screen;
    let done = typed(cols, rows, limit, s, s.len() as int).screen;
    assert(shown_screen =~= ScreenView { dirty: true, ..done });
    assert(shown_screen.viewport() =~= shown_screen.primary);
    let lines = row_texts(shown_screen.viewport());
    typed_row_text(cols, s);
    assert(lines[0] == s);
    assert forall|i: int| 1 <= i < lines.len() implies (#[trigger] lines[i]).len() == 0 by {
        blank_row_text(cols);
        assert(shown_screen.viewport()[i] == screen::row_blank(cols));
    }
    only_first_line(lines);
    if s.len() > 0 {
        assert(without_trailing_empty(lines) =~= seq![s]);
    } else {
        assert(s =~= Seq::<char>::empty());
        assert(without_trailing_empty(lines) =~= Seq::<Seq<char>>::empty());
    }
}

/// The first row with the first `n` characters of `s` written on it.
spec fn typed_row(cols: u16, s: Seq<char>, n: int) -> RowView {
    RowView {
        cells: Seq::new(
            cols as nat,
            |k: int|
                if k < n {
                    screen::screen_fresh(cols, 1, 0).cell_of(s[k])
                } else {
                    screen::cell_blank()
                },
        ),
        wrapped: false,
    }
}

/// A fresh double with the first `n` characters of `s` written on it.
spec fn typed(cols: u16, rows: u16, limit: usize, s: Seq<char>, n: int) -> FakeView {
    let fresh = fake_terminal::fake_fresh(cols, rows, limit);
    FakeView {
        screen: ScreenView {
            primary: fresh.screen.primary.update(0, typed_row(cols, s, n)),
            cur_col: n as u16,
            ..fresh.screen
        },
        ..fresh
    }
}

proof fn narrow_is_accepted(s: Seq<char>, i: int)
    requires
        0 <= i <= s.len(),
        forall|i: int| 0 <= i < s.len() ==> narrow(#[trigger] s[i]),
    ensures
        fake_terminal::accepted(s, i),
    decreases s.len() - i,
{
    if i < s.len() {
        assert(narrow(s[i]));
        narrow_is_accepted(s, i + 1);
    }
}

proof fn typing(cols: u16, rows: u16, limit: usize, s: Seq<char>, i: int)
    requires
        cols >= 1,
        rows >= 1,
        0 <= i <= s.len() <= cols,
        forall|i: int| 0 <= i < s.len() ==> narrow(#[trigger] s[i]),
    ensures
        fake_terminal::written(typed(cols, rows, limit, s, i), s, i) == typed(
            cols,
            rows,
            limit,
            s,
            s.len() as int,
        ),
    decreases s.len() - i,
{
    if i < s.len() {
        assert(narrow(s[i]));
        let f = typed(cols, rows, limit, s, i);
        let next = typed(cols, rows, limit, s, i + 1);
        let put = f.screen.put_char(s[i]);
        assert(f.screen.primary[0] == typed_row(cols, s, i));
        assert(put.primary[0].cells =~= typed_row(cols, s, i + 1).cells);
        assert(put.primary =~= next.screen.primary);
        assert(put =~= next.screen);
        typing(cols, rows, limit, s, i + 1);
    }
}

proof fn trailing_spaces_go(s: Seq<char>, t: Seq<char>)
    requires
        forall|i: int| 0 <= i < t.len() ==> text::is_white_space(#[trigger] t[i]),
        s.len() > 0 ==> !text::is_white_space(s.last()),
    ensures
        text::trimmed_end(s + t) == s,
    decreases t.len(),
{
    if t.len() == 0 {
        assert(s + t =~= s);
    } else {
        assert(text::is_white_space(t[t.len() - 1]));
        assert((s + t).drop_last() =~= s + t.drop_last());
        trailing_spaces_go(s, t.drop_last());
    }
}

proof fn shown_typed(cols: u16, s: Seq<char>, n: int, k: int)
    requires
        0 <= n <= s.len() <= cols,
        0 <= k <= cols,
    ensures
        shown_of(cols, s, n, k).len() >= 0,
        k <= n ==> shown_of(cols, s, n, k) == s.take(k),
        k > n ==> shown_of(cols, s, n, k).len() == k && shown_of(cols, s, n, k).take(n) == s.take(n)
            && forall|j: int| n <= j < k ==> #[trigger] shown_of(cols, s, n, k)[j] == ' ',
    decreases k,
{
    let cells = typed_row(cols, s, n).cells;
    if k > 0 {
        shown_typed(cols, s, n, k - 1);
        assert(cells.take(k).drop_last() =~= cells.take(k - 1));
        reveal_strlit(" ");
        assert(" "@ =~= seq![' ']);
        if k <= n {
            assert(s.take(k) =~= s.take(k - 1).push(s[k - 1]));
            assert(shown_of(cols, s, n, k) =~= s.take(k));
        } else {
            let before = shown_of(cols, s, n, k - 1);
            let after = shown_of(cols, s, n, k);
            assert(after =~= before.push(' '));
            assert(before.len() == k - 1);
            assert(after.take(n) =~= before.take(n));
            assert(before.take(n) =~= s.take(n));
            assert forall|j: int| n <= j < k implies #[trigger] after[j] == ' ' by {
                if j < k - 1 {
                    assert(after[j] == before[j]);
                }
            }
        }
    } else {
        assert(shown_of(cols, s, n, k) =~= s.take(0));
    }
}

spec fn shown_of(cols: u16, s: Seq<char>, n: int, k: int) -> Seq<char> {
    screen::shown(typed_row(cols, s, n).cells.take(k))
}

proof fn typed_row_text(cols: u16, s: Seq<char>)
    requires
        s.len() <= cols,
        s.len() > 0 ==> !text::is_white_space(s.last()),
    ensures
        screen::row_text(typed_row(cols, s, s.len() as int)) == s,
{
    let n = s.len() as int;
    let cells = typed_row(cols, s, n).cells;
    shown_typed(cols, s, n, cols as int);
    assert(cells.take(cols as int) =~= cells);
    let all = screen::shown(cells);
    assert(s.take(n) =~= s);
    assert(all =~= s + all.skip(n));
    trailing_spaces_go(s, all.skip(n));
}

proof fn blank_row_text(cols: u16)
    ensures
        screen::row_text(screen::row_blank(cols)).len() == 0,
{
    let none = Seq::<char>::empty();
    assert(typed_row(cols, none, 0).cells =~= screen::row_blank(cols).cells);
    typed_row_text(cols, none);
}

proof fn only_first_line(lines: Seq<Seq<char>>)
    requires
        lines.len() > 0,
        forall|i: int| 1 <= i < lines.len() ==> (#[trigger] lines[i]).len() == 0,
    ensures
        without_trailing_empty(lines) == (if lines[0].len() == 0 {
            Seq::<Seq<char>>::empty()
        } else {
            seq![lines[0]]
        }),
    decreases lines.len(),
{
    if lines.len() == 1 {
        reveal_with_fuel(without_trailing_empty, 2);
        assert(lines =~= seq![lines[0]]);
        assert(lines.drop_last() =~= Seq::<Seq<char>>::empty());
    } else {
        assert(lines[lines.len() - 1].len() == 0);
        let front = lines.drop_last();
        assert forall|i: int| 1 <= i < front.len() implies (#[trigger] front[i]).len() == 0 by {
            assert(front[i] == lines[i]);
        }
        only_first_line(front);
    }
}

/// Dropping the empty lines at the end drops those and nothing else.
pub proof fn empty_lines_go_from_the_end(lines: Seq<Seq<char>>)
    ensures
        ({
            let kept = without_trailing_empty(lines);
            &&& kept.len() <= lines.len()
            &&& kept == lines.take(kept.len() as int)
            &&& kept.len() > 0 ==> kept.last().len() > 0
            &&& forall|i: int| kept.len() <= i < lines.len() ==> (#[trigger] lines[i]).len() == 0
        }),
    decreases lines.len(),
{
    if lines.len() > 0 && lines.last().len() == 0 {
        empty_lines_go_from_the_end(lines.drop_last());
        let kept = without_trailing_empty(lines.drop_last());
        assert(kept =~= lines.take(kept.len() as int));
        assert forall|i: int| kept.len() <= i < lines.len() implies (#[trigger] lines[i]).len()
            == 0 by {
            if i < lines.len() - 1 {
                assert(lines[i] == lines.drop_last()[i]);
            }
        }
    } else {
        assert(lines =~= lines.take(lines.len() as int));
    }
}

/// Dropping the blank rows at the end drops those and nothing else.
pub proof fn blank_rows_go_from_the_end(rows: Seq<RowView>)
    ensures
        ({
            let kept = without_trailing_blank(rows);
            &&& kept.len() <= rows.len()
            &&& kept == rows.take(kept.len() as int)
            &&& kept.len() > 0 ==> screen::row_text(kept.last()).len() > 0
            &&& forall|i: int|
                kept.len() <= i < rows.len() ==> screen::row_text(#[trigger] rows[i]).len() == 0
        }),
    decreases rows.len(),
{
    if rows.len() > 0 && screen::row_text(rows.last()).len() == 0 {
        blank_rows_go_from_the_end(rows.drop_last());
        let kept = without_trailing_blank(rows.drop_last());
        assert(kept =~= rows.take(kept.len() as int));
        assert forall|i: int| kept.len() <= i < rows.len() implies screen::row_text(
            #[trigger] rows[i],
        ).len() == 0 by {
            if i < rows.len() - 1 {
                assert(rows[i] == rows.drop_last()[i]);
            }
        }
    } else {
        assert(rows =~= rows.take(rows.len() as int));
    }
}

/// Every row is a line of its own; unwrapped, a row that continues the one above is
/// part of its line.
pub proof fn rows_become_lines(rows: Seq<RowView>, row: RowView, unwrap: bool)
    ensures
        ({
            let before = lines_of(rows, unwrap);
            let all = lines_of(rows.push(row), unwrap);
            let text = screen::row_text(row);
            &&& !unwrap || !row.wrapped || before.len() == 0 ==> all == before.push(text)
            &&& unwrap && row.wrapped && before.len() > 0 ==> all.len() == before.len()
                && all.last() == before.last() + text && all.drop_last() == before.drop_last()
            &&& lines_of(Seq::empty(), unwrap).len() == 0
            &&& !unwrap ==> before.len() == rows.len()
        }),
    decreases rows.len(),
{
    assert(rows.push(row).drop_last() =~= rows);
    let before = lines_of(rows, unwrap);
    let all = lines_of(rows.push(row), unwrap);
    if unwrap && row.wrapped && before.len() > 0 {
        assert(all.drop_last() =~= before.drop_last());
    }
    if rows.len() > 0 {
        rows_become_lines(rows.drop_last(), rows.last(), unwrap);
        assert(rows.drop_last().push(rows.last()) =~= rows);
    }
}

/// The last lines are as many as asked for, if there are that many, from the end.
pub proof fn last_lines_come_from_the_end(lines: Seq<Seq<char>>, n: nat, i: int)
    ensures
        ({
            let last = last_lines(lines, n);
            &&& lines.len() >= n ==> last.len() == n
            &&& lines.len() <= n ==> last == lines
            &&& 0 <= i < last.len() ==> last[i] == lines[lines.len() - last.len() + i]
        }),
{
}

/// What is visible is the text of the viewport's rows, one line each, up to the last
/// that is not empty.
pub proof fn visible_text_is_the_viewport(s: ScreenView) -> (n: int)
    ensures
        ({
            let rows = s.viewport();
            let lines = Seq::new(n as nat, |i: int| screen::row_text(rows[i]));
            &&& 0 <= n <= rows.len()
            &&& n > 0 ==> screen::row_text(rows[n - 1]).len() > 0
            &&& forall|i: int| n <= i < rows.len() ==> screen::row_text(#[trigger] rows[i]).len()
                == 0
            &&& visible(s) == text::joined_lines(lines)
        }),
{
    let rows = s.viewport();
    let texts = row_texts(rows);
    empty_lines_go_from_the_end(texts);
    let kept = without_trailing_empty(texts);
    let n = kept.len() as int;
    assert(kept =~= Seq::new(n as nat, |i: int| screen::row_text(rows[i])));
    assert forall|i: int| n <= i < rows.len() implies screen::row_text(#[trigger] rows[i]).len()
        == 0 by {
        assert(texts[i].len() == 0);
    }
    if n > 0 {
        assert(kept.last() == screen::row_text(rows[n - 1]));
    }
    n
}

/// What is recent is the end of everything there is, up to the last row that is not
/// blank, in so many lines.
pub proof fn recent_text_is_the_end(s: ScreenView, n: nat, unwrap: bool) -> (k: int)
    ensures
        ({
            let rows = s.all_rows();
            let lines = lines_of(rows.take(k), unwrap);
            &&& 0 <= k <= rows.len()
            &&& k > 0 ==> screen::row_text(rows[k - 1]).len() > 0
            &&& forall|i: int| k <= i < rows.len() ==> screen::row_text(#[trigger] rows[i]).len()
                == 0
            &&& lines.len() <= n ==> recent(s, n, unwrap) == text::joined_lines(lines)
            &&& lines.len() > n ==> recent(s, n, unwrap) == text::joined_lines(
                lines.skip(lines.len() - n),
            )
        }),
{
    let rows = s.all_rows();
    blank_rows_go_from_the_end(rows);
    without_trailing_blank(rows).len() as int
}

/// The cursor is shown where it is, in its shape, unless it is switched off or the
/// view is scrolled back; the scroll position is shown as it is.
pub proof fn cursors_and_positions_are_shown(
    term: FakePaneTerminal,
    cursor: Option<TerminalCursorState>,
    scroll: Option<ScrollMetrics>,
    frame: FrameData,
)
    requires
        call_ensures(FakePaneTerminal::cursor_state, (&term,), cursor),
        call_ensures(FakePaneTerminal::scroll_metrics, (&term,), scroll),
        call_ensures(FakePaneTerminal::snapshot, (&term,), frame),
        term@.screen.scrollback.len() <= usize::MAX,
    ensures
        ({
            let s = term@.screen;
            &&& cursor is Some && cursor->0.x == s.cur_col && cursor->0.y == s.cur_row
                && cursor->0.shape == s.cursor_shape && (cursor->0.visible <==> s.cursor_visible
                && s.offset == 0)
            &&& frame.cursor is Some && frame.cursor->0.x == s.cur_col && frame.cursor->0.y
                == s.cur_row && (frame.cursor->0.visible <==> s.cursor_visible && s.offset == 0)
            &&& frame.width == s.cols && frame.height == s.rows
            &&& scroll is Some && scroll->0.offset_from_bottom == s.offset
                && scroll->0.viewport_rows == s.rows
            &&& s.modes.alternate_screen ==> scroll->0.max_offset_from_bottom == 0
            &&& !s.modes.alternate_screen ==> scroll->0.max_offset_from_bottom
                == s.scrollback.len()
        }),
{
}

/// Scrolling up goes back by so many lines, down comes forward, and both stop at the
/// ends of the history; resetting goes to the bottom. The content stays.
pub proof fn scrolling_moves_the_view(
    up: &mut FakePaneTerminal,
    down: &mut FakePaneTerminal,
    to: &mut FakePaneTerminal,
    reset: &mut FakePaneTerminal,
    lines: usize,
)
    requires
        call_ensures(FakePaneTerminal::scroll_up, (up, lines), ()),
        call_ensures(FakePaneTerminal::scroll_down, (down, lines), ()),
        call_ensures(FakePaneTerminal::set_scroll_offset_from_bottom, (to, lines), ()),
        call_ensures(FakePaneTerminal::scroll_reset, (reset,), ()),
        old(up)@.screen.max_offset() <= usize::MAX,
        old(to)@.screen.max_offset() <= usize::MAX,
    ensures
        ({
            let max = old(up)@.screen.max_offset();
            let was = old(up)@.screen.offset;
            &&& was + lines <= max ==> final(up)@.screen.offset == was + lines
            &&& was + lines > max ==> final(up)@.screen.offset == max
            &&& final(up)@.screen.all_rows() == old(up)@.screen.all_rows()
        }),
        lines <= old(down)@.screen.offset ==> final(down)@.screen.offset == old(
            down,
        )@.screen.offset - lines,
        lines > old(down)@.screen.offset ==> final(down)@.screen.offset == 0,
        lines <= old(to)@.screen.max_offset() ==> final(to)@.screen.offset == lines,
        lines > old(to)@.screen.max_offset() ==> final(to)@.screen.offset == old(
            to,
        )@.screen.max_offset(),
        final(reset)@.screen.offset == 0,
        final(reset)@.screen.all_rows() == old(reset)@.screen.all_rows(),
{
}

proof fn flat_is_row_by_row(rows: Seq<RowView>, cols: nat, x: int, y: int)
    requires
        forall|i: int| 0 <= i < rows.len() ==> (#[trigger] rows[i]).cells.len() == cols,
        0 <= x < cols,
        0 <= y < rows.len(),
    ensures
        flat(rows).len() == rows.len() * cols,
        0 <= y * cols + x < flat(rows).len(),
        flat(rows)[y * cols + x] == rows[y].cells[x],
    decreases rows.len(),
{
    let before = rows.drop_last();
    let n = before.len();
    assert(rows.len() * cols == n * cols + cols) by (nonlinear_arith)
        requires
            rows.len() == n + 1,
    ;
    if n == 0 {
        assert(flat(before).len() == 0);
        assert(0 * cols == 0) by (nonlinear_arith);
    } else if y < n {
        flat_is_row_by_row(before, cols, x, y);
        assert(before[y] == rows[y]);
    } else {
        flat_is_row_by_row(before, cols, x, 0);
    }
}

/// A picture of the live screen shows every cell in its place: its symbol, or a
/// space for the second half of a wide one, its colours and modifiers, and a link
/// where it has one.
pub proof fn pictures_show_the_live_screen(s: ScreenView, x: int, y: int)
    requires
        s.wf(),
        s.offset == 0,
        0 <= x < s.cols,
        0 <= y < s.rows,
    ensures
        ({
            let cell = s.active()[y].cells[x];
            let i = y * s.cols + x;
            let shown = frame(s).cells[i];
            &&& 0 <= i < frame(s).cells.len()
            &&& shown.fg == cell.fg && shown.bg == cell.bg && shown.modifier == cell.modifier
            &&& !shown.skip
            &&& cell.skip ==> shown.symbol == seq![' '] && shown.hyperlink is None
            &&& !cell.skip ==> shown.symbol == cell.symbol && (shown.hyperlink is Some
                <==> cell.uri is Some)
        }),
{
    reveal_strlit(" ");
    assert(" "@ =~= seq![' ']);
    screen::the_live_viewport_is_the_active_grid(s);
    flat_is_row_by_row(s.viewport(), s.cols as nat, x, y);
}

/// The links of a picture are the addresses of its cells, each once, in the order in
/// which they first appear.
pub proof fn link_tables_list_each_address_once(cells: Seq<FakeCellView>, uri: Seq<char>, n: int)
    requires
        0 <= n <= cells.len(),
    ensures
        link_table(cells).no_duplicates(),
        link_table(cells).contains(uri) <==> exists|i: int|
            0 <= i < cells.len() && (#[trigger] cells[i]).uri == Some(uri),
        link_table(cells.take(n)).len() <= link_table(cells).len(),
        link_table(cells).take(link_table(cells.take(n)).len() as int) == link_table(
            cells.take(n),
        ),
    decreases cells.len(),
{
    let table = link_table(cells);
    if cells.len() == 0 {
        assert(cells.take(n) =~= cells);
        assert(table.take(0) =~= table);
    } else {
        let before = cells.drop_last();
        let old_table = link_table(before);
        if n == cells.len() {
            assert(cells.take(n) =~= cells);
            assert(table.take(table.len() as int) =~= table);
            link_tables_list_each_address_once(before, uri, 0);
        } else {
            assert(before.take(n) =~= cells.take(n));
            link_tables_list_each_address_once(before, uri, n);
            assert(table.take(link_table(cells.take(n)).len() as int) =~= old_table.take(
                link_table(cells.take(n)).len() as int,
            ));
        }
        if let Some(last) = cells.last().uri {
            if !old_table.contains(last) {
                assert(table == old_table.push(last));
                assert(table[old_table.len() as int] == last);
            }
        }
        if table.contains(uri) {
            let j = table.index_of(uri);
            if j < old_table.len() {
                assert(old_table[j] == uri);
                let i = choose|i: int| 0 <= i < before.len() && (#[trigger] before[i]).uri
                    == Some(uri);
                assert(cells[i].uri == Some(uri));
            } else {
                assert(cells[cells.len() - 1].uri == Some(uri));
            }
        }
        if exists|i: int| 0 <= i < cells.len() && (#[trigger] cells[i]).uri == Some(uri) {
            let i = choose|i: int| 0 <= i < cells.len() && (#[trigger] cells[i]).uri == Some(uri);
            if i < cells.len() - 1 {
                assert(before[i].uri == Some(uri));
                assert(old_table.contains(uri));
                let j = old_table.index_of(uri);
                assert(table[j] == uri);
            } else if old_table.contains(uri) {
                let j = old_table.index_of(uri);
                assert(table[j] == uri);
            }
        }
    }
}

/// A row's links are its cells with an address, from left to right, each at its
/// place on the screen with its symbol and address.
pub proof fn row_links_are_its_linked_cells(
    cells: Seq<FakeCellView>,
    ox: int,
    y: int,
    w: int,
    k: int,
    x: int,
)
    requires
        0 <= w <= cells.len(),
    ensures
        ({
            let found = row_links(cells, ox, y, w);
            &&& 0 <= k < found.len() ==> {
                let at = (found[k].0).0 - ox;
                &&& 0 <= at < w
                &&& (found[k].0).1 == y
                &&& found[k].1 == cells[at].symbol
                &&& cells[at].uri == Some(found[k].2)
            }
            &&& 0 < k < found.len() ==> (found[k - 1].0).0 < (found[k].0).0
            &&& 0 <= x < w && cells[x].uri is Some ==> found.contains(
                ((ox + x, y), cells[x].symbol, cells[x].uri->0),
            )
        }),
    decreases w,
{
    if w > 0 {
        let before = row_links(cells, ox, y, w - 1);
        let found = row_links(cells, ox, y, w);
        row_links_are_its_linked_cells(cells, ox, y, w - 1, k, x);
        row_links_are_its_linked_cells(cells, ox, y, w - 1, k - 1, x);
        if 0 <= x < w && cells[x].uri is Some {
            let e = ((ox + x, y), cells[x].symbol, cells[x].uri->0);
            if x < w - 1 {
                let j = before.index_of(e);
                assert(found[j] == e);
            } else {
                assert(found[found.len() - 1] == e);
            }
        }
    }
}

/// The links of a window are the links of its rows, from the top down, each row's
/// moved by the window's corner.
pub proof fn links_go_from_the_top_down(rows: Seq<RowView>, ox: int, oy: int, w: int, h: int)
    requires
        0 <= h < rows.len(),
        0 <= w,
    ensures
        ({
            let cells = rows[h].cells;
            let n = if w <= cells.len() {
                w
            } else {
                cells.len() as int
            };
            links(rows, ox, oy, w, h + 1) == links(rows, ox, oy, w, h) + row_links(
                cells,
                ox,
                oy + h,
                n,
            )
        }),
        links(rows, ox, oy, w, 0).len() == 0,
{
}

/// A selection reads the same from either end. Within one row it is the text between
/// the two columns; over several, the first row from its column on, whole rows, and
/// the last row up to its column, a line each.
pub proof fn selections_read_from_either_end(
    term: FakePaneTerminal,
    row: u32,
    col: u16,
    to_row: u32,
    to_col: u16,
    forth: Option<String>,
    back: Option<String>,
)
    requires
        call_ensures(
            FakePaneTerminal::extract_selection_cells,
            (&term, row, col, to_row, to_col),
            forth,
        ),
        call_ensures(
            FakePaneTerminal::extract_selection_cells,
            (&term, to_row, to_col, row, col),
            back,
        ),
    ensures
        forth is Some && back is Some,
        forth->0@ == back->0@,
        ({
            let rows = term@.screen.all_rows();
            &&& row == to_row && col <= to_col && row < rows.len() ==> forth->0@
                == screen::row_text_between(rows[row as int], col as int, to_col as int)
            &&& row >= rows.len() && row <= to_row ==> forth->0@.len() == 0
        }),
{
    let rows = term@.screen.all_rows();
    if row == to_row && col <= to_col && row < rows.len() {
        let line = selected_line(rows, (row, col), (to_row, to_col), row as int);
        assert(selected(rows, (row, col), (to_row, to_col)) == line) by {
            let lines = Seq::new(
                1,
                |k: int| selected_line(rows, (row, col), (to_row, to_col), row + k),
            );
            assert(lines =~= seq![line]);
        }
    }
}

/// Of a selection over several rows, each row is a line.
pub proof fn selections_take_whole_rows_between(
    rows: Seq<RowView>,
    start: (u32, u16),
    end: (u32, u16),
    i: int,
)
    requires
        start.0 < end.0,
        end.0 < rows.len(),
        start.0 <= i <= end.0,
        rows[i].cells.len() > 0,
    ensures
        ({
            let lines = Seq::new(
                (end.0 - start.0 + 1) as nat,
                |k: int| selected_line(rows, start, end, start.0 + k),
            );
            let line = lines[i - start.0];
            let last = rows[i].cells.len() - 1;
            &&& selected(rows, start, end) == text::joined_lines(lines)
            &&& i == start.0 ==> line == screen::row_text_between(rows[i], start.1 as int, last)
            &&& start.0 < i < end.0 ==> line == screen::row_text_between(rows[i], 0, last)
            &&& i == end.0 ==> line == screen::row_text_between(rows[i], 0, end.1 as int)
        }),
{
}

/// Asking whether the screen changed answers so once.
pub proof fn screen_changes_are_told_once(term: &mut FakePaneTerminal, r: bool)
    requires
        call_ensures(FakePaneTerminal::take_dirty, (term,), r),
    ensures
        r == old(term)@.screen.dirty,
        !final(term)@.screen.dirty,
        final(term)@.screen.primary == old(term)@.screen.primary,
        final(term)@.mirror == old(term)@.mirror,
{
}

} // verus!
