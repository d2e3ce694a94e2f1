//! Putting frames on the screen: full renders and dirty patches.

use vstd::prelude::*;
use crate::pane::terminal;
use crate::pane::terminal::{TerminalDirtyPatch, TerminalDirtyPatchOutcome};
use crate::wire;
use crate::wire::{CellData, CellView, CursorState, FrameData, FrameView};

verus! {

/// A rectangle of the screen.
#[derive(Debug, Clone, Copy, PartialEq, Eq, Structural)]
pub struct Rect {
    pub x: u16,
    pub y: u16,
    pub width: u16,
    pub height: u16,
}

/// What to draw in a rectangle.
pub struct RenderPlan {
    /// One entry per position, row by row: reset the position, then draw the
    /// cell if there is one.
    pub rows: Vec<Vec<Option<CellData>>>,
    /// Where to put the cursor, on the screen.
    pub cursor: Option<(u16, u16)>,
}

/// The cell a frame has at a position.
pub open spec fn frame_cell(f: FrameView, x: int, y: int) -> Option<CellView> {
    if 0 <= x < f.width && 0 <= y < f.height && y * f.width + x < f.cells.len() {
        Some(f.cells[y * f.width + x])
    } else {
        None
    }
}

/// What an optional cell holds.
pub open spec fn slot_view(c: Option<CellData>) -> Option<CellView> {
    match c {
        Some(c) => Some(c@),
        None => None,
    }
}

/// What a row of optional cells holds.
pub open spec fn slots_view(row: Seq<Option<CellData>>) -> Seq<Option<CellView>> {
    row.map_values(|c: Option<CellData>| slot_view(c))
}

/// What rows of optional cells hold.
pub open spec fn plan_view(rows: Seq<Vec<Option<CellData>>>) -> Seq<Seq<Option<CellView>>> {
    rows.map_values(|r: Vec<Option<CellData>>| slots_view(r@))
}

/// One row of a render.
pub open spec fn render_row(f: FrameView, y: int, w: nat) -> Seq<Option<CellView>> {
    Seq::new(w, |x: int| frame_cell(f, x, y))
}

/// Whether a cursor lies in an area of the given size.
pub open spec fn cursor_inside(c: CursorState, area: Rect) -> bool {
    c.x < area.width && c.y < area.height
}

/// Where the cursor goes: nowhere if it is not to be shown, is hidden, or lies
/// outside the area.
pub open spec fn shown_cursor(
    area: Rect,
    show_cursor: bool,
    cursor: Option<CursorState>,
) -> Option<(int, int)> {
    match cursor {
        Some(c) => if show_cursor && c.visible && cursor_inside(c, area) {
            Some((area.x + c.x, area.y + c.y))
        } else {
            None
        },
        None => None,
    }
}

/// The cursor position lies on the screen.
pub open spec fn on_screen(pos: Option<(int, int)>) -> bool {
    pos matches Some((x, y)) ==> x <= u16::MAX && y <= u16::MAX
}

/// `plan` lays the frame out in the area and puts the cursor where it goes.
pub open spec fn is_render(
    plan: RenderPlan,
    area: Rect,
    show_cursor: bool,
    f: FrameView,
    cursor: Option<CursorState>,
) -> bool {
    &&& plan_view(plan.rows@) == Seq::new(
        area.height as nat,
        |y: int| render_row(f, y, area.width as nat),
    )
    &&& match (plan.cursor, shown_cursor(area, show_cursor, cursor)) {
        (Some((x, y)), Some((sx, sy))) => x == sx && y == sy,
        (None, None) => true,
        _ => false,
    }
}

proof fn cell_index_fits(x: u16, y: u16, w: u16, h: u16)
    requires
        x < w,
        y < h,
    ensures
        0 <= y * w + x <= u32::MAX,
{
    assert(y * w + x <= 0xfffe * 0xffff + 0xfffe) by (nonlinear_arith)
        requires
            y <= 0xfffe,
            w <= 0xffff,
            x <= 0xfffe,
    ;
    assert(y * w >= 0) by (nonlinear_arith);
}

fn cell_of(f: &FrameData, x: u16, y: u16) -> (r: Option<CellData>)
    ensures
        slot_view(r) == frame_cell(f@, x as int, y as int),
{
    if x < f.width && y < f.height {
        proof {
            cell_index_fits(x, y, f.width, f.height);
            assert(y as usize * f.width as usize <= y * f.width + x) by (nonlinear_arith);
        }
        let i = y as usize * f.width as usize + x as usize;
        if i < f.cells.len() {
            assert(f@.cells[i as int] == f.cells@[i as int]@);
            return Some(f.cells[i].clone());
        }
    }
    None
}

/// Lays a frame out in an area. Positions the frame does not cover are reset
/// and left empty.
pub fn render_wire_frame(
    area: Rect,
    show_cursor: bool,
    snapshot: &FrameData,
    cursor: Option<CursorState>,
) -> (r: RenderPlan)
    requires
        on_screen(shown_cursor(area, show_cursor, cursor)),
    ensures
        is_render(r, area, show_cursor, snapshot@, cursor),
{
    let mut rows: Vec<Vec<Option<CellData>>> = Vec::new();
    let ghost line = |y: int| render_row(snapshot@, y, area.width as nat);
    let mut y: u16 = 0;
    while y < area.height
        invariant
            y <= area.height,
            line == (|y: int| render_row(snapshot@, y, area.width as nat)),
            plan_view(rows@) == Seq::new(y as nat, line),
        decreases area.height - y,
    {
        let mut row: Vec<Option<CellData>> = Vec::new();
        let mut x: u16 = 0;
        while x < area.width
            invariant
                x <= area.width,
                slots_view(row@) == render_row(snapshot@, y as int, x as nat),
            decreases area.width - x,
        {
            let ghost before = row@;
            let cell = cell_of(snapshot, x, y);
            row.push(cell);
            assert(slots_view(row@) =~= slots_view(before).push(slot_view(cell)));
            x += 1;
            assert(slots_view(row@) =~= render_row(snapshot@, y as int, x as nat));
        }
        let ghost before = rows@;
        rows.push(row);
        assert(plan_view(rows@) =~= plan_view(before).push(slots_view(row@)));
        y += 1;
        assert(plan_view(rows@) =~= Seq::new(y as nat, line));
    }
    let position = match cursor {
        Some(c) => if show_cursor && c.visible && c.x < area.width && c.y < area.height {
            Some((area.x + c.x, area.y + c.y))
        } else {
            None
        },
        None => None,
    };
    RenderPlan { rows, cursor: position }
}

/// One row of a patch: blanks where the frame has no cell.
pub open spec fn patch_row(f: FrameView, y: int, w: nat) -> Seq<CellView> {
    Seq::new(
        w,
        |x: int|
            match frame_cell(f, x, y) {
                Some(c) => c,
                None => wire::blank_view(),
            },
    )
}

/// The rows of a patch, each exactly as wide as the area, with their numbers.
pub open spec fn patch_rows(f: FrameView, w: u16, h: u16) -> Seq<(u16, Seq<CellView>)> {
    Seq::new(h as nat, |y: int| (y as u16, patch_row(f, y, w as nat)))
}

/// The patch a frame, if there is one, gives for an area.
pub open spec fn is_patch_of(
    r: TerminalDirtyPatchOutcome,
    snapshot: Option<FrameData>,
    w: u16,
    h: u16,
) -> bool {
    match (snapshot, r) {
        (None, TerminalDirtyPatchOutcome::Clean) => true,
        (Some(f), TerminalDirtyPatchOutcome::Patch(p)) => terminal::rows_view(p.rows@)
            == patch_rows(f@, w, h),
        _ => false,
    }
}

/// A space in the default colours.
pub fn wire_blank_cell() -> (r: CellData)
    ensures
        r@ == wire::blank_view(),
{
    wire::blank_cell()
}

/// Builds a dirty patch from a frame, when it changed since the last one and
/// there is one at all.
pub fn wire_dirty_patch(
    dirty: bool,
    snapshot: impl FnOnce() -> Option<FrameData>,
    area_width: u16,
    area_height: u16,
) -> (r: TerminalDirtyPatchOutcome)
    requires
        dirty ==> call_requires(snapshot, ()),
    ensures
        !dirty ==> r == TerminalDirtyPatchOutcome::Clean,
        dirty ==> exists|f: Option<FrameData>| #[trigger]
            call_ensures(snapshot, (), f) && is_patch_of(r, f, area_width, area_height),
{
    if !dirty {
        return TerminalDirtyPatchOutcome::Clean;
    }
    let taken = snapshot();
    let f = match taken {
        Some(f) => f,
        None => {
            assert(is_patch_of(TerminalDirtyPatchOutcome::Clean, taken, area_width, area_height));
            return TerminalDirtyPatchOutcome::Clean;
        },
    };
    let mut rows: Vec<(u16, Vec<CellData>)> = Vec::new();
    let mut y: u16 = 0;
    assert(terminal::rows_view(rows@) =~= patch_rows(f@, area_width, 0));
    while y < area_height
        invariant
            y <= area_height,
            terminal::rows_view(rows@) == patch_rows(f@, area_width, y),
        decreases area_height - y,
    {
        let mut row: Vec<CellData> = Vec::new();
        let mut x: u16 = 0;
        while x < area_width
            invariant
                x <= area_width,
                wire::cells_view(row@) == patch_row(f@, y as int, x as nat),
            decreases area_width - x,
        {
            let ghost before = row@;
            let cell = match cell_of(&f, x, y) {
                Some(cell) => cell,
                None => wire_blank_cell(),
            };
            row.push(cell);
            assert(wire::cells_view(row@) =~= wire::cells_view(before).push(cell@));
            x += 1;
            assert(wire::cells_view(row@) =~= patch_row(f@, y as int, x as nat));
        }
        let ghost before = rows@;
        rows.push((y, row));
        assert(terminal::rows_view(rows@) =~= terminal::rows_view(before).push(
            (y, wire::cells_view(row@)),
        ));
        y += 1;
        assert(terminal::rows_view(rows@) =~= patch_rows(f@, area_width, y));
    }
    let r = TerminalDirtyPatchOutcome::Patch(TerminalDirtyPatch { rows });
    assert(is_patch_of(r, taken, area_width, area_height));
    r
}

/// A patch covers exactly the area: a row for every line, a cell for every
/// column.
pub proof fn patches_cover_their_area(f: FrameView, w: u16, h: u16, y: int)
    requires
        0 <= y < h,
    ensures
        patch_rows(f, w, h).len() == h,
        patch_rows(f, w, h)[y].0 == y,
        patch_rows(f, w, h)[y].1.len() == w,
{
}

/// A patch and a full render show the same cells; where a render leaves a
/// position empty, the patch has a blank.
pub proof fn patches_agree_with_renders(f: FrameView, w: u16, h: u16, x: int, y: int)
    requires
        0 <= x < w,
        0 <= y < h,
    ensures
        patch_rows(f, w, h)[y].1[x] == (match render_row(f, y, w as nat)[x] {
            Some(c) => c,
            None => wire::blank_view(),
        }),
{
}

/// A render places the cursor if and only if it is to be shown, there is one, it
/// is visible and it lies in the area; then it is as far from the screen's corner
/// as the area is and the cursor is within it.
pub proof fn cursors_are_placed_where_they_show(
    area: Rect,
    show_cursor: bool,
    snapshot: FrameData,
    cursor: Option<CursorState>,
    plan: RenderPlan,
)
    requires
        call_ensures(render_wire_frame, (area, show_cursor, &snapshot, cursor), plan),
    ensures
        plan.cursor is Some <==> show_cursor && cursor is Some && cursor->0.visible && cursor->0.x
            < area.width && cursor->0.y < area.height,
        plan.cursor matches Some((x, y)) ==> x == area.x + cursor->0.x && y == area.y + cursor->0.y,
{
}

/// A render has an entry for every position of the area. A position the frame has
/// a cell for shows the cell of that row and column, any other shows none.
pub proof fn renders_show_the_frame(
    area: Rect,
    show_cursor: bool,
    snapshot: FrameData,
    cursor: Option<CursorState>,
    plan: RenderPlan,
    x: int,
    y: int,
)
    requires
        call_ensures(render_wire_frame, (area, show_cursor, &snapshot, cursor), plan),
        0 <= x < area.width,
        0 <= y < area.height,
    ensures
        plan.rows@.len() == area.height,
        plan.rows@[y]@.len() == area.width,
        plan.rows@[y]@[x] is Some <==> x < snapshot.width && y < snapshot.height && y
            * snapshot.width + x < snapshot.cells@.len(),
        plan.rows@[y]@[x] matches Some(c) ==> c@ == snapshot.cells@[y * snapshot.width + x]@,
{
    assert(plan_view(plan.rows@).len() == plan.rows@.len());
    assert(plan_view(plan.rows@)[y] == slots_view(plan.rows@[y]@));
    assert(plan_view(plan.rows@)[y] == render_row(snapshot@, y, area.width as nat));
    assert(slots_view(plan.rows@[y]@)[x] == slot_view(plan.rows@[y]@[x]));
    assert(slots_view(plan.rows@[y]@).len() == plan.rows@[y]@.len());
}

/// A patch has a row for every line of the area, numbered from the top. Where the
/// frame has a cell, the row has it; everywhere else it has a plain space in the
/// default colours.
pub proof fn patches_show_the_frame(
    f: FrameData,
    w: u16,
    h: u16,
    r: TerminalDirtyPatchOutcome,
    x: int,
    y: int,
)
    requires
        is_patch_of(r, Some(f), w, h),
        0 <= x < w,
        0 <= y < h,
    ensures
        r matches TerminalDirtyPatchOutcome::Patch(p) && {
            let row = p.rows@[y].1@;
            let at = y * f.width + x;
            let covered = x < f.width && y < f.height && at < f.cells@.len();
            &&& p.rows@.len() == h
            &&& p.rows@[y].0 == y
            &&& row.len() == w
            &&& covered ==> row[x]@ == f.cells@[at]@
            &&& !covered ==> row[x]@.symbol == seq![' '] && row[x].fg == 0 && row[x].bg == 0
                && row[x].modifier == 0 && !row[x].skip && row[x].hyperlink is None
        },
{
    reveal_strlit(" ");
    assert(" "@ =~= seq![' ']);
    if let TerminalDirtyPatchOutcome::Patch(p) = r {
        let seen = terminal::rows_view(p.rows@);
        assert(seen.len() == p.rows@.len());
        assert(seen[y] == patch_rows(f@, w, h)[y]);
        assert(seen[y].1.len() == p.rows@[y].1@.len());
        assert(seen[y].1[x] == p.rows@[y].1@[x]@);
    }
}

/// No frame, no patch: there is nothing to show.
pub proof fn missing_frames_give_no_patch(w: u16, h: u16, r: TerminalDirtyPatchOutcome)
    requires
        is_patch_of(r, None, w, h),
    ensures
        r is Clean,
{
}

} // verus!
