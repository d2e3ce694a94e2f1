//! A pane's accumulated grid: the daemon's full and diffed frames folded into
//! one complete picture.

use vstd::prelude::*;
use crate::wire;
use crate::wire::{CellData, CellView, CursorState, FrameData};
use crate::termhost::proto::{Frame, FrameScroll};

verus! {

/// Accumulated full grid for one pane. The daemon sends the whole grid each
/// frame with `skip` marking unchanged cells; folding them in keeps a complete
/// grid to render from.
pub struct PaneGrid {
    pub cols: u16,
    pub rows: u16,
    pub cells: Vec<CellData>,
    pub cursor: Option<CursorState>,
    /// OSC 8 URI table for the current grid.
    pub hyperlinks: Vec<String>,
    /// Latest scrollback position reported.
    pub scroll: Option<FrameScroll>,
    /// Set when a frame changed the grid; cleared by the render path.
    pub dirty: bool,
    /// True once at least one frame has been folded in.
    pub has_frame: bool,
}

/// What a [`PaneGrid`] holds.
#[verifier::ext_equal]
pub struct GridView {
    pub cols: u16,
    pub rows: u16,
    pub cells: Seq<CellView>,
    pub cursor: Option<CursorState>,
    pub hyperlinks: Seq<Seq<char>>,
    pub scroll: Option<FrameScroll>,
    pub dirty: bool,
    pub has_frame: bool,
}

impl View for PaneGrid {
    type V = GridView;

    open spec fn view(&self) -> GridView {
        GridView {
            cols: self.cols,
            rows: self.rows,
            cells: wire::cells_view(self.cells@),
            cursor: self.cursor,
            hyperlinks: wire::texts_view(self.hyperlinks@),
            scroll: self.scroll,
            dirty: self.dirty,
            has_frame: self.has_frame,
        }
    }
}

/// The grid before any frame.
pub open spec fn grid_fresh() -> GridView {
    GridView {
        cols: 0,
        rows: 0,
        cells: Seq::empty(),
        cursor: None,
        hyperlinks: Seq::empty(),
        scroll: None,
        dirty: false,
        has_frame: false,
    }
}

impl GridView {
    /// The grid is complete: one cell per position.
    pub open spec fn wf(self) -> bool {
        self.cells.len() == self.cols * self.rows
    }

    /// The cells a frame of the given size is folded onto: the current ones, or
    /// blanks on the first frame and after a resize.
    pub open spec fn base(self, cols: u16, rows: u16) -> Seq<CellView> {
        if self.cols == cols && self.rows == rows && self.cells.len() == cols * rows {
            self.cells
        } else {
            Seq::new((cols * rows) as nat, |i: int| wire::blank_view())
        }
    }

    /// The grid after one frame: cells the frame marks `skip` or leaves out keep
    /// their content, the scroll position is kept when the frame reports none.
    pub open spec fn folded(self, frame: Frame) -> GridView {
        let base = self.base(frame.cols, frame.rows);
        GridView {
            cols: frame.cols,
            rows: frame.rows,
            cells: Seq::new(
                base.len(),
                |i: int|
                    if i < frame.cells@.len() && !frame.cells@[i].skip {
                        frame.cells@[i]@
                    } else {
                        base[i]
                    },
            ),
            cursor: frame.cursor,
            hyperlinks: wire::texts_view(frame.hyperlinks@),
            scroll: if frame.scroll is Some {
                frame.scroll
            } else {
                self.scroll
            },
            dirty: true,
            has_frame: true,
        }
    }

    /// The symbol and URI of a linked cell.
    pub open spec fn link_at(self, x: int, y: int) -> Option<(Seq<char>, Seq<char>)> {
        let i = y * self.cols + x;
        if 0 <= i < self.cells.len() && self.cells[i].hyperlink is Some
            && self.cells[i].hyperlink->0 < self.hyperlinks.len() {
            Some((self.cells[i].symbol, self.hyperlinks[self.cells[i].hyperlink->0 as int]))
        } else {
            None
        }
    }

    /// The links among the first `w` cells of row `y`, in screen coordinates.
    pub open spec fn row_links(self, ox: int, oy: int, y: int, w: int) -> Seq<
        ((int, int), Seq<char>, Seq<char>),
    >
        decreases w,
    {
        if w <= 0 {
            Seq::empty()
        } else {
            let before = self.row_links(ox, oy, y, w - 1);
            match self.link_at(w - 1, y) {
                Some((symbol, uri)) => before.push(((ox + w - 1, oy + y), symbol, uri)),
                None => before,
            }
        }
    }

    /// The links within the top-left `w` by `h` window, row by row.
    pub open spec fn links(self, ox: int, oy: int, w: int, h: int) -> Seq<
        ((int, int), Seq<char>, Seq<char>),
    >
        decreases h,
    {
        if h <= 0 {
            Seq::empty()
        } else {
            self.links(ox, oy, w, h - 1) + self.row_links(ox, oy, h - 1, w)
        }
    }

    /// The grid as a render frame.
    pub open spec fn frame(self) -> wire::FrameView {
        wire::FrameView {
            cells: self.cells,
            width: self.cols,
            height: self.rows,
            cursor: self.cursor,
            hyperlinks: self.hyperlinks,
            graphics: Seq::empty(),
        }
    }
}

/// The smaller of two numbers.
pub open spec fn min(a: int, b: int) -> int {
    if a <= b {
        a
    } else {
        b
    }
}

/// What a resolved link holds.
pub open spec fn link_view(l: ((u16, u16), String, String)) -> (
    (int, int),
    Seq<char>,
    Seq<char>,
) {
    ((l.0.0 as int, l.0.1 as int), l.1@, l.2@)
}

/// What a list of resolved links holds.
pub open spec fn links_view(v: Seq<((u16, u16), String, String)>) -> Seq<
    ((int, int), Seq<char>, Seq<char>),
> {
    v.map_values(|l: ((u16, u16), String, String)| link_view(l))
}

/// No link at all.
pub open spec fn no_links() -> Seq<((int, int), Seq<char>, Seq<char>)> {
    Seq::empty()
}

/// Folding keeps a grid complete, whatever size the frame has and however many
/// cells it carries.
pub proof fn folding_keeps_grids_complete(g: GridView, frame: Frame)
    ensures
        g.folded(frame).wf(),
{
    assert(frame.cols * frame.rows >= 0) by (nonlinear_arith)
        requires
            frame.cols >= 0,
            frame.rows >= 0,
    ;
}

/// A frame that carries every cell and skips none replaces the picture: what
/// was there before does not show through.
pub proof fn full_frames_replace_the_picture(g: GridView, frame: Frame)
    requires
        frame.cells@.len() >= frame.cols * frame.rows,
        forall|i: int|
            0 <= i < frame.cols * frame.rows ==> !(#[trigger] frame.cells@[i]).skip,
    ensures
        g.folded(frame).cells == wire::cells_view(frame.cells@).take(frame.cols * frame.rows),
{
    folding_keeps_grids_complete(g, frame);
    assert(g.folded(frame).cells =~= wire::cells_view(frame.cells@).take(
        frame.cols * frame.rows,
    ));
}

/// A frame of the grid's own size that skips every cell keeps the picture.
pub proof fn skipped_cells_are_kept(g: GridView, frame: Frame)
    requires
        g.wf(),
        frame.cols == g.cols,
        frame.rows == g.rows,
        forall|i: int| 0 <= i < frame.cells@.len() ==> (#[trigger] frame.cells@[i]).skip,
    ensures
        g.folded(frame).cells == g.cells,
{
    assert(g.folded(frame).cells =~= g.cells);
}

proof fn no_table_no_links(g: GridView, ox: int, oy: int, w: int, h: int)
    requires
        g.hyperlinks.len() == 0,
    ensures
        g.links(ox, oy, w, h) == Seq::<((int, int), Seq<char>, Seq<char>)>::empty(),
    decreases h,
{
    if h > 0 {
        no_table_no_links(g, ox, oy, w, h - 1);
        no_table_no_row_links(g, ox, oy, h - 1, w);
    }
}

proof fn no_table_no_row_links(g: GridView, ox: int, oy: int, y: int, w: int)
    requires
        g.hyperlinks.len() == 0,
    ensures
        g.row_links(ox, oy, y, w) == Seq::<((int, int), Seq<char>, Seq<char>)>::empty(),
    decreases w,
{
    if w > 0 {
        no_table_no_row_links(g, ox, oy, y, w - 1);
    }
}

proof fn cell_count_fits(cols: u16, rows: u16)
    ensures
        0 <= cols * rows <= u32::MAX,
{
    assert(0 <= cols * rows <= 65535 * 65535) by (nonlinear_arith)
        requires
            0 <= cols <= 65535,
            0 <= rows <= 65535,
    ;
}

impl PaneGrid {
    /// The grid before any frame.
    pub fn new() -> (r: Self)
        ensures
            r@ == grid_fresh(),
            r@.wf(),
    {
        let r = PaneGrid {
            cols: 0,
            rows: 0,
            cells: Vec::new(),
            cursor: None,
            hyperlinks: Vec::new(),
            scroll: None,
            dirty: false,
            has_frame: false,
        };
        assert(r@ =~= grid_fresh());
        r
    }

    /// Folds one incoming frame into the accumulated grid.
    pub fn apply(&mut self, frame: Frame)
        ensures
            final(self)@ == old(self)@.folded(frame),
            final(self)@.wf(),
    {
        proof {
            cell_count_fits(frame.cols, frame.rows);
        }
        let n = frame.cols as usize * frame.rows as usize;
        if self.cols != frame.cols || self.rows != frame.rows || self.cells.len() != n {
            self.cells = wire::blank_cells(n);
            self.cols = frame.cols;
            self.rows = frame.rows;
        }
        let ghost base = old(self)@.base(frame.cols, frame.rows);
        let ghost incoming = frame.cells@;
        assert(wire::cells_view(self.cells@) =~= base);
        let mut i: usize = 0;
        while i < n && i < frame.cells.len()
            invariant
                self.cols == frame.cols,
                self.rows == frame.rows,
                incoming == frame.cells@,
                n == frame.cols * frame.rows,
                base.len() == n,
                self.cells@.len() == n,
                i <= n,
                i <= incoming.len(),
                self.scroll == old(self).scroll,
                forall|j: int|
                    0 <= j < n ==> (#[trigger] self.cells@[j])@ == (if j < i
                        && !incoming[j].skip {
                        incoming[j]@
                    } else {
                        base[j]
                    }),
            decreases n - i,
        {
            if !frame.cells[i].skip {
                self.cells.set(i, frame.cells[i].clone());
            }
            i += 1;
        }
        self.cursor = frame.cursor;
        self.hyperlinks = frame.hyperlinks;
        if frame.scroll.is_some() {
            self.scroll = frame.scroll;
        }
        self.dirty = true;
        self.has_frame = true;
        assert(self@ =~= old(self)@.folded(frame));
    }

    /// Resolves the OSC 8 hyperlinks within the `width` by `height` window, as
    /// `((screen_x, screen_y), cell_symbol, uri)` per linked cell, with the
    /// window's top-left at screen position (`origin_x`, `origin_y`). Screen
    /// positions of linked cells must fit 16 bits.
    pub fn visible_hyperlinks(
        &self,
        origin_x: u16,
        origin_y: u16,
        width: u16,
        height: u16,
    ) -> (r: Vec<((u16, u16), String, String)>)
        requires
            forall|x: int, y: int|
                0 <= x < width && x < self.cols && 0 <= y < height && y < self.rows
                    && #[trigger] self@.link_at(x, y) is Some ==> origin_x + x <= u16::MAX
                    && origin_y + y <= u16::MAX,
        ensures
            links_view(r@) == self@.links(
                origin_x as int,
                origin_y as int,
                min(width as int, self.cols as int),
                min(height as int, self.rows as int),
            ),
    {
        let mut links: Vec<((u16, u16), String, String)> = Vec::new();
        let cols = self.cols;
        let w = if width <= cols {
            width
        } else {
            cols
        };
        let h = if height <= self.rows {
            height
        } else {
            self.rows
        };
        assert(links_view(links@) =~= Seq::<((int, int), Seq<char>, Seq<char>)>::empty());
        if self.hyperlinks.is_empty() {
            proof {
                no_table_no_links(self@, origin_x as int, origin_y as int, w as int, h as int);
            }
            return links;
        }
        let ghost g = self@;
        let ghost ox = origin_x as int;
        let ghost oy = origin_y as int;
        let mut y: u16 = 0;
        while y < h
            invariant
                g == self@,
                ox == origin_x,
                oy == origin_y,
                cols == self.cols,
                w <= cols,
                w <= width,
                h <= self.rows,
                h <= height,
                y <= h,
                links_view(links@) == g.links(ox, oy, w as int, y as int),
                forall|x: int, y: int|
                    0 <= x < width && x < self.cols && 0 <= y < height && y < self.rows
                        && #[trigger] self@.link_at(x, y) is Some ==> origin_x + x <= u16::MAX
                        && origin_y + y <= u16::MAX,
            decreases h - y,
        {
            let ghost done = g.links(ox, oy, w as int, y as int);
            let mut x: u16 = 0;
            assert(done + g.row_links(ox, oy, y as int, 0) =~= done);
            while x < w
                invariant
                    g == self@,
                    ox == origin_x,
                    oy == origin_y,
                    cols == self.cols,
                    w <= cols,
                    w <= width,
                    h <= self.rows,
                    h <= height,
                    y < h,
                    x <= w,
                    links_view(links@) == done + g.row_links(ox, oy, y as int, x as int),
                    forall|x: int, y: int|
                        0 <= x < width && x < self.cols && 0 <= y < height && y < self.rows
                            && #[trigger] self@.link_at(x, y) is Some ==> origin_x + x
                            <= u16::MAX && origin_y + y <= u16::MAX,
                decreases w - x,
            {
                proof {
                    cell_count_fits(cols, self.rows);
                    assert(y * cols + x < cols * self.rows) by (nonlinear_arith)
                        requires
                            0 <= y < self.rows,
                            0 <= x < cols,
                    ;
                    assert(0 <= y * cols) by (nonlinear_arith)
                        requires
                            0 <= y,
                            0 <= cols,
                    ;
                }
                let idx = y as usize * cols as usize + x as usize;
                let ghost before = links_view(links@);
                let ghost row = g.row_links(ox, oy, y as int, x as int);
                if idx < self.cells.len() {
                    assert(g.cells[idx as int] == self.cells@[idx as int]@);
                    if let Some(h) = self.cells[idx].hyperlink {
                        if (h as usize) < self.hyperlinks.len() {
                            assert(g.hyperlinks[h as int] == self.hyperlinks@[h as int]@);
                            assert(g.link_at(x as int, y as int) is Some);
                            links.push(
                                (
                                    (origin_x + x, origin_y + y),
                                    self.cells[idx].symbol.clone(),
                                    self.hyperlinks[h as usize].clone(),
                                ),
                            );
                            assert(links_view(links@) =~= before.push(
                                link_view(links@[links@.len() - 1]),
                            ));
                            assert(before.push(link_view(links@[links@.len() - 1])) =~= done
                                + row.push(link_view(links@[links@.len() - 1])));
                        }
                    }
                }
                assert(g.row_links(ox, oy, y as int, x + 1) == (match g.link_at(
                    x as int,
                    y as int,
                ) {
                    Some((symbol, uri)) => row.push(((ox + x, oy + y), symbol, uri)),
                    None => row,
                }));
                x += 1;
            }
            y += 1;
        }
        links
    }

    /// The grid as a render frame, once a frame has arrived.
    pub fn snapshot(&self) -> (r: Option<FrameData>)
        ensures
            match r {
                Some(frame) => self@.has_frame && frame@ == self@.frame(),
                None => !self@.has_frame,
            },
    {
        if !self.has_frame {
            return None;
        }
        Some(
            FrameData {
                cells: wire::clone_cells(&self.cells),
                width: self.cols,
                height: self.rows,
                cursor: self.cursor,
                hyperlinks: wire::clone_texts(&self.hyperlinks),
                graphics: Vec::new(),
            },
        )
    }

    /// Whether the grid changed since the last call; clears the flag.
    pub fn take_dirty(&mut self) -> (r: bool)
        ensures
            r == old(self)@.dirty,
            final(self)@ == (GridView { dirty: false, ..old(self)@ }),
    {
        let was = self.dirty;
        self.dirty = false;
        was
    }
}

/// A frame is folded in cell by cell. A cell the frame carries and does not mark
/// `skip` is what the grid has afterwards, whatever stands beside it and however
/// much the frame redraws. Any other cell stays on a grid of the same size and is
/// blank on one of a new size.
pub proof fn frames_are_folded_cell_by_cell(g: GridView, frame: Frame, i: int)
    requires
        0 <= i < frame.cols * frame.rows,
    ensures
        ({
            let after = g.folded(frame);
            let sent = i < frame.cells@.len() && !frame.cells@[i].skip;
            &&& after.cols == frame.cols
            &&& after.rows == frame.rows
            &&& after.cells.len() == frame.cols * frame.rows
            &&& sent ==> after.cells[i] == frame.cells@[i]@
            &&& !sent && g.wf() && g.cols == frame.cols && g.rows == frame.rows ==> after.cells[i]
                == g.cells[i]
            &&& !sent && (g.cols != frame.cols || g.rows != frame.rows) ==> after.cells[i]
                == (CellView {
                symbol: seq![' '],
                fg: 0,
                bg: 0,
                modifier: 0,
                skip: false,
                hyperlink: None,
            })
        }),
{
    reveal_strlit(" ");
    assert(" "@ =~= seq![' ']);
}

/// A frame brings its own cursor and link table. It brings its own scroll
/// position too, unless it reports none: then the last one stays. After it there
/// is something to show that was not shown yet.
pub proof fn frames_bring_their_own(g: GridView, frame: Frame)
    ensures
        ({
            let after = g.folded(frame);
            &&& after.cursor == frame.cursor
            &&& after.hyperlinks.len() == frame.hyperlinks@.len()
            &&& forall|k: int|
                0 <= k < frame.hyperlinks@.len() ==> #[trigger] after.hyperlinks[k]
                    == frame.hyperlinks@[k]@
            &&& frame.scroll is Some ==> after.scroll == frame.scroll
            &&& frame.scroll is None ==> after.scroll == g.scroll
            &&& after.dirty
            &&& after.has_frame
        }),
{
}

/// A snapshot is the grid as it stands: its size, its cells, its cursor and its
/// links, and no graphics.
pub proof fn snapshots_show_the_grid(g: GridView)
    ensures
        g.frame().width == g.cols,
        g.frame().height == g.rows,
        g.frame().cells == g.cells,
        g.frame().cursor == g.cursor,
        g.frame().hyperlinks == g.hyperlinks,
        g.frame().graphics.len() == 0,
{
}

proof fn row_links_are_its_linked_cells(g: GridView, ox: int, oy: int, y: int, w: int)
    requires
        0 <= w,
    ensures
        forall|j: int|
            #![trigger g.row_links(ox, oy, y, w)[j]]
            0 <= j < g.row_links(ox, oy, y, w).len() ==> {
                let ((sx, sy), symbol, uri) = g.row_links(ox, oy, y, w)[j];
                &&& ox <= sx < ox + w
                &&& sy == oy + y
                &&& g.link_at(sx - ox, y) == Some((symbol, uri))
            },
        forall|x: int|
            0 <= x < w && #[trigger] g.link_at(x, y) is Some ==> {
                let (symbol, uri) = g.link_at(x, y)->0;
                g.row_links(ox, oy, y, w).contains(((ox + x, oy + y), symbol, uri))
            },
        forall|i: int, j: int|
            #![trigger g.row_links(ox, oy, y, w)[i], g.row_links(ox, oy, y, w)[j]]
            0 <= i < j < g.row_links(ox, oy, y, w).len() ==> {
                let (ix, iy) = g.row_links(ox, oy, y, w)[i].0;
                let (jx, jy) = g.row_links(ox, oy, y, w)[j].0;
                ix < jx
            },
    decreases w,
{
    if w > 0 {
        row_links_are_its_linked_cells(g, ox, oy, y, w - 1);
        let before = g.row_links(ox, oy, y, w - 1);
        let all = g.row_links(ox, oy, y, w);
        assert forall|x: int| 0 <= x < w && #[trigger] g.link_at(x, y) is Some implies {
            let (symbol, uri) = g.link_at(x, y)->0;
            all.contains(((ox + x, oy + y), symbol, uri))
        } by {
            let (symbol, uri) = g.link_at(x, y)->0;
            let entry = ((ox + x, oy + y), symbol, uri);
            if x < w - 1 {
                assert(before.contains(entry));
                assert(all[before.index_of(entry)] == entry);
            } else {
                assert(all[all.len() - 1] == entry);
            }
        }
        assert forall|i: int, j: int| #![trigger all[i], all[j]] 0 <= i < j < all.len() implies {
            let (ix, iy) = all[i].0;
            let (jx, jy) = all[j].0;
            ix < jx
        } by {
            assert(all[i] == before[i]);
            if j < before.len() {
                assert(all[j] == before[j]);
            }
        }
        assert forall|j: int| #![trigger all[j]] 0 <= j < all.len() implies {
            let ((sx, sy), symbol, uri) = all[j];
            &&& ox <= sx < ox + w
            &&& sy == oy + y
            &&& g.link_at(sx - ox, y) == Some((symbol, uri))
        } by {
            if j < before.len() {
                assert(all[j] == before[j]);
            }
        }
    }
}

/// The links of a window are its linked cells and nothing else. Each entry is a
/// cell of the window that has a link index within the table: where it is on the
/// screen, what it shows, and the URI at that index. Every such cell has an
/// entry, and the entries go row by row and from left to right.
pub proof fn links_are_the_linked_cells(g: GridView, ox: int, oy: int, w: int, h: int)
    requires
        g.wf(),
        0 <= w <= g.cols,
        0 <= h <= g.rows,
    ensures
        forall|j: int|
            #![trigger g.links(ox, oy, w, h)[j]]
            0 <= j < g.links(ox, oy, w, h).len() ==> {
                let ((sx, sy), symbol, uri) = g.links(ox, oy, w, h)[j];
                let cell = g.cells[(sy - oy) * g.cols + (sx - ox)];
                &&& ox <= sx < ox + w
                &&& oy <= sy < oy + h
                &&& cell.hyperlink is Some
                &&& cell.hyperlink->0 < g.hyperlinks.len()
                &&& symbol == cell.symbol
                &&& uri == g.hyperlinks[cell.hyperlink->0 as int]
            },
        forall|x: int, y: int|
            #![trigger g.cells[y * g.cols + x]]
            0 <= x < w && 0 <= y < h && g.cells[y * g.cols + x].hyperlink is Some
                && g.cells[y * g.cols + x].hyperlink->0 < g.hyperlinks.len() ==> g.links(
                ox,
                oy,
                w,
                h,
            ).contains(
                (
                    (ox + x, oy + y),
                    g.cells[y * g.cols + x].symbol,
                    g.hyperlinks[g.cells[y * g.cols + x].hyperlink->0 as int],
                ),
            ),
        forall|i: int, j: int|
            #![trigger g.links(ox, oy, w, h)[i], g.links(ox, oy, w, h)[j]]
            0 <= i < j < g.links(ox, oy, w, h).len() ==> {
                let (ix, iy) = g.links(ox, oy, w, h)[i].0;
                let (jx, jy) = g.links(ox, oy, w, h)[j].0;
                iy < jy || iy == jy && ix < jx
            },
    decreases h,
{
    if h > 0 {
        links_are_the_linked_cells(g, ox, oy, w, h - 1);
        row_links_are_its_linked_cells(g, ox, oy, h - 1, w);
        let above = g.links(ox, oy, w, h - 1);
        let row = g.row_links(ox, oy, h - 1, w);
        let all = g.links(ox, oy, w, h);
        assert(all == above + row);
        assert forall|j: int| #![trigger all[j]] 0 <= j < all.len() implies {
            let ((sx, sy), symbol, uri) = all[j];
            let cell = g.cells[(sy - oy) * g.cols + (sx - ox)];
            &&& ox <= sx < ox + w
            &&& oy <= sy < oy + h
            &&& cell.hyperlink is Some
            &&& cell.hyperlink->0 < g.hyperlinks.len()
            &&& symbol == cell.symbol
            &&& uri == g.hyperlinks[cell.hyperlink->0 as int]
        } by {
            if j < above.len() {
                assert(all[j] == above[j]);
            } else {
                assert(all[j] == row[j - above.len()]);
            }
        }
        assert forall|x: int, y: int|
            #![trigger g.cells[y * g.cols + x]]
            0 <= x < w && 0 <= y < h && g.cells[y * g.cols + x].hyperlink is Some
                && g.cells[y * g.cols + x].hyperlink->0 < g.hyperlinks.len() implies all.contains(
            (
                (ox + x, oy + y),
                g.cells[y * g.cols + x].symbol,
                g.hyperlinks[g.cells[y * g.cols + x].hyperlink->0 as int],
            ),
        ) by {
            let cell = g.cells[y * g.cols + x];
            let entry = (
                (ox + x, oy + y),
                cell.symbol,
                g.hyperlinks[cell.hyperlink->0 as int],
            );
            if y < h - 1 {
                assert(above.contains(entry));
                let j = above.index_of(entry);
                assert(all[j] == entry);
            } else {
                cell_is_in_the_grid(g.cols, g.rows, x, y);
                assert(g.link_at(x, h - 1) is Some);
                assert(row.contains(entry));
                let j = row.index_of(entry);
                assert(all[above.len() + j] == entry);
            }
        }
        assert forall|i: int, j: int| #![trigger all[i], all[j]] 0 <= i < j < all.len() implies {
            let (ix, iy) = all[i].0;
            let (jx, jy) = all[j].0;
            iy < jy || iy == jy && ix < jx
        } by {
            if j < above.len() {
                assert(all[i] == above[i] && all[j] == above[j]);
            } else if i >= above.len() {
                assert(all[i] == row[i - above.len()] && all[j] == row[j - above.len()]);
            } else {
                assert(all[i] == above[i] && all[j] == row[j - above.len()]);
            }
        }
    }
}

proof fn cell_is_in_the_grid(cols: u16, rows: u16, x: int, y: int)
    requires
        0 <= x < cols,
        0 <= y < rows,
    ensures
        0 <= y * cols + x < cols * rows,
{
    assert(0 <= y * cols + x < cols * rows) by (nonlinear_arith)
        requires
            0 <= x < cols,
            0 <= y < rows,
    ;
}

/// Taking a frame in, cell by cell: a cell the frame brings and does not mark to be
/// skipped is what the grid shows from then on, wherever it stands and whatever
/// stands around it. Any other keeps what it was, if the size is still the same, and
/// is blank if it is not.
pub proof fn applied_frames_replace_cell_by_cell(grid: &mut PaneGrid, frame: Frame, i: int)
    requires
        call_ensures(PaneGrid::apply, (grid, frame), ()),
        0 <= i < frame.cols * frame.rows,
    ensures
        ({
            let before = old(grid)@;
            let after = final(grid)@;
            let brought = i < frame.cells@.len() && !frame.cells@[i].skip;
            let same = before.cols == frame.cols && before.rows == frame.rows
                && before.cells.len() == frame.cols * frame.rows;
            &&& after.cells.len() == frame.cols * frame.rows
            &&& brought ==> after.cells[i] == frame.cells@[i]@
            &&& !brought && same ==> after.cells[i] == before.cells[i]
            &&& !brought && !same ==> after.cells[i].symbol == seq![' '] && after.cells[i].fg == 0
                && after.cells[i].bg == 0 && after.cells[i].modifier == 0
                && after.cells[i].hyperlink is None
            &&& after.cols == frame.cols && after.rows == frame.rows
            &&& after.cursor == frame.cursor
            &&& frame.scroll is Some ==> after.scroll == frame.scroll
            &&& frame.scroll is None ==> after.scroll == before.scroll
            &&& after.dirty && after.has_frame
        }),
{
    reveal_strlit(" ");
    assert(" "@ =~= seq![' ']);
}

/// A grid that has taken in no frame shows nothing and has nothing to tell.
pub proof fn fresh_grids_show_nothing(r: PaneGrid, frame: Option<FrameData>)
    requires
        call_ensures(PaneGrid::new, (), r),
        call_ensures(PaneGrid::snapshot, (&r,), frame),
    ensures
        r@.cols == 0 && r@.rows == 0 && r@.cells.len() == 0,
        r@.cursor is None && r@.scroll is None && r@.hyperlinks.len() == 0,
        !r@.dirty && !r@.has_frame,
        frame is None,
{
}

/// Asking whether a grid changed answers so once, and changes nothing else.
pub proof fn grid_changes_are_told_once(grid: &mut PaneGrid, r: bool)
    requires
        call_ensures(PaneGrid::take_dirty, (grid,), r),
    ensures
        r == old(grid)@.dirty,
        !final(grid)@.dirty,
        final(grid)@ == (GridView { dirty: false, ..old(grid)@ }),
{
}

} // verus!
