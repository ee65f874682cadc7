//! Mapping a pointer position in the text area back to display points, over
//! the lines shaped for one frame.

use vstd::prelude::*;
use crate::cursor::Cursor;
use crate::display::{clip, Bias, DisplayLines, DisplayPoint};
use crate::selection::{CursorShape, SelectionLayout};
use crate::highlight::{HighlightedRange, HighlightedRangeLine, MAX_COORD, MAX_ROWS};

verus! {

/// A shaped line: the x at which each column's glyph starts, left to right,
/// and the line's width.
#[derive(Debug, Clone)]
pub struct ShapedLine {
    pub glyph_x: Vec<i64>,
    pub width: i64,
}

impl ShapedLine {
    pub open spec fn wf(&self) -> bool {
        &&& self.glyph_x@.len() < u32::MAX
        &&& 0 <= self.width <= MAX_COORD
        &&& forall|i: int| 0 <= i < self.glyph_x@.len() ==> 0 <= #[trigger] self.glyph_x@[i] <= self.width
        &&& forall|i: int, j: int|
            0 <= i <= j < self.glyph_x@.len() ==> self.glyph_x@[i] <= self.glyph_x@[j]
        &&& self.glyph_x@.len() > 0 ==> self.glyph_x@[0] == 0
        &&& self.glyph_x@.len() == 0 ==> self.width == 0
    }

    /// Where the glyph of `column` starts; the line's width past its end.
    pub open spec fn x_for_index(&self, column: int) -> int {
        if column < self.glyph_x@.len() {
            self.glyph_x@[column] as int
        } else {
            self.width as int
        }
    }

    /// The column whose glyph holds `x`: the last one starting at or before
    /// it, or the first; none at or past the line's width.
    pub open spec fn index_for_x_spec(&self, x: int) -> Option<int> {
        if x >= self.width {
            None
        } else {
            Some(last_at_or_before(self.glyph_x@, x, self.glyph_x@.len() as int))
        }
    }

    pub fn index_for_x(&self, x: i64) -> (r: Option<u32>)
        requires
            self.wf(),
        ensures
            r matches Some(i) ==> self.index_for_x_spec(x as int) == Some(i as int),
            r is None ==> self.index_for_x_spec(x as int) is None,
    {
        if x >= self.width {
            return None;
        }
        let mut k: usize = self.glyph_x.len();
        while k > 0
            invariant
                k <= self.glyph_x@.len() < u32::MAX,
                x < self.width,
                last_at_or_before(self.glyph_x@, x as int, self.glyph_x@.len() as int)
                    == last_at_or_before(self.glyph_x@, x as int, k as int),
            decreases k,
        {
            if self.glyph_x[k - 1] <= x {
                return Some((k - 1) as u32);
            }
            k = k - 1;
        }
        Some(0)
    }
}

/// Where the glyph of `column` starts, as `x_for_index` says.
fn x_for_index(line: &ShapedLine, column: u32) -> (r: i64)
    requires
        line.wf(),
    ensures
        r == line.x_for_index(column as int),
        0 <= r <= MAX_COORD,
{
    if (column as usize) < line.glyph_x.len() {
        line.glyph_x[column as usize]
    } else {
        line.width
    }
}

/// The last of the first `k` glyphs that starts at or before `x`, or 0.
pub open spec fn last_at_or_before(xs: Seq<i64>, x: int, k: int) -> int
    decreases k,
{
    if k <= 0 {
        0
    } else if xs[k - 1] <= x {
        k - 1
    } else {
        last_at_or_before(xs, x, k - 1)
    }
}

proof fn lemma_last_at_or_before(xs: Seq<i64>, x: int, k: int)
    requires
        0 <= k <= xs.len(),
        xs.len() > 0 ==> xs[0] == 0,
        0 <= x,
    ensures
        xs.len() > 0 ==> 0 <= last_at_or_before(xs, x, k) < xs.len() && xs[last_at_or_before(
            xs,
            x,
            k,
        )] <= x,
    decreases k,
{
    if k > 0 && !(xs[k - 1] <= x) {
        lemma_last_at_or_before(xs, x, k - 1);
    }
}

proof fn lemma_before_bounds(rows: Seq<crate::display::DisplayRow>, r: int)
    ensures
        crate::display::text_at_or_before(rows, r) matches Some(q) ==> 0 <= q <= r,
    decreases r + 1,
{
    if r >= 0 && r < rows.len() && !crate::display::is_text(rows, r) {
        lemma_before_bounds(rows, r - 1);
    }
}

proof fn lemma_after_bounds(rows: Seq<crate::display::DisplayRow>, r: int)
    ensures
        crate::display::text_at_or_after(rows, r) matches Some(q) ==> r <= q,
    decreases rows.len() - r,
{
    if r >= 0 && r < rows.len() && !crate::display::is_text(rows, r) {
        lemma_after_bounds(rows, r + 1);
    }
}

proof fn lemma_x_for_index_monotonic(line: ShapedLine, a: int, b: int)
    requires
        line.wf(),
        0 <= a <= b,
    ensures
        line.x_for_index(a) <= line.x_for_index(b),
{
}

/// A pointer at or right of the text's left edge, over a row with a shaped
/// line, resolves to a previous valid point whose glyph starts at or before
/// the pointer, wherever that point is on the pointer's row.
pub proof fn lemma_previous_valid_starts_at_or_before_pointer(map: PositionMap, x: int, y: int)
    requires
        map.wf(),
        0 <= x,
        0 <= map.row_at(y) - map.scroll_row < map.line_layouts@.len(),
        clip(
            map.lines.rows@,
            DisplayPoint { row: map.row_at(y) as u32, column: map.column_at(map.row_at(y), x).0 as u32 },
            Bias::Left,
        ).row == map.row_at(y),
    ensures
        ({
            let row = map.row_at(y);
            let line = map.line_layouts@[row - map.scroll_row];
            let unclipped = DisplayPoint { row: row as u32, column: map.column_at(row, x).0 as u32 };
            let previous = clip(map.lines.rows@, unclipped, Bias::Left);
            line.x_for_index(previous.column as int) <= x
        }),
{
    let rows = map.lines.rows@;
    let row = map.row_at(y);
    let line = map.line_layouts@[row - map.scroll_row];
    assert(line.wf());
    lemma_last_at_or_before(line.glyph_x@, x, line.glyph_x@.len() as int);
    let column = map.column_at(row, x).0;
    assert(line.x_for_index(column) <= x);
    lemma_before_bounds(rows, row - 1);
    lemma_after_bounds(rows, row + 1);
    lemma_before_bounds(rows, rows.len() - 2);
    lemma_after_bounds(rows, rows.len() as int);
    let previous = clip(rows, DisplayPoint { row: row as u32, column: column as u32 }, Bias::Left);
    if row < rows.len() && crate::display::is_text(rows, row) {
        lemma_x_for_index_monotonic(line, previous.column as int, column);
    }
}

/// The rows of `start..end` that get a highlight, within the visible rows
/// `first..last`: an end at a row's start leaves that row out.
pub open spec fn highlight_rows(start: DisplayPoint, end: DisplayPoint, first: int, last: int) -> (int, int) {
    let lo = if start.row >= first {
        start.row as int
    } else {
        first
    };
    let end_row = if end.column == 0 {
        end.row as int
    } else {
        end.row + 1
    };
    let hi = if end_row <= last {
        end_row
    } else {
        last
    };
    (lo, hi)
}

/// Where a pointer lands: the nearest display points on either side, the
/// unclipped point, and how many columns past the end of its line it is.
#[derive(Debug, Clone, Copy, PartialEq, Eq, Structural)]
pub struct PointForPosition {
    pub previous_valid: DisplayPoint,
    pub next_valid: DisplayPoint,
    pub exact_unclipped: DisplayPoint,
    pub column_overshoot_after_line_end: u32,
}

impl PointForPosition {
    /// A position that falls exactly on `valid`.
    pub fn valid(valid: DisplayPoint) -> (r: PointForPosition)
        ensures
            r.previous_valid == valid && r.next_valid == valid && r.exact_unclipped == valid,
            r.column_overshoot_after_line_end == 0,
    {
        PointForPosition {
            previous_valid: valid,
            next_valid: valid,
            exact_unclipped: valid,
            column_overshoot_after_line_end: 0,
        }
    }

    /// The point, where the position fell on one.
    pub fn as_valid(&self) -> (r: Option<DisplayPoint>)
        ensures
            r == if self.previous_valid == self.exact_unclipped && self.next_valid
                == self.exact_unclipped {
                Some(self.previous_valid)
            } else {
                None
            },
    {
        if self.previous_valid == self.exact_unclipped && self.next_valid == self.exact_unclipped {
            Some(self.previous_valid)
        } else {
            None
        }
    }
}

/// The geometry of one frame's text area: row height, visible height, the
/// first visible row, the horizontal scroll, the advance of a character,
/// and the shaped lines from the first visible row down.
#[derive(Debug, Clone)]
pub struct PositionMap {
    pub line_height: i64,
    pub height: i64,
    pub scroll_row: u32,
    pub scroll_x: i64,
    pub em_advance: i64,
    pub line_layouts: Vec<ShapedLine>,
    pub lines: DisplayLines,
}

pub open spec fn cap_u32(v: int) -> int {
    if v > u32::MAX {
        u32::MAX as int
    } else {
        v
    }
}

impl PositionMap {
    pub open spec fn wf(&self) -> bool {
        &&& self.lines.wf()
        &&& 0 < self.line_height <= MAX_COORD
        &&& 0 <= self.height <= MAX_COORD
        &&& 0 <= self.scroll_x <= MAX_COORD
        &&& 0 < self.em_advance <= MAX_COORD
        &&& self.scroll_row + self.height / self.line_height < u32::MAX
        &&& forall|i: int| 0 <= i < self.line_layouts@.len() ==> (#[trigger] self.line_layouts@[i]).wf()
    }

    /// The display row under a vertical offset into the text area, held to
    /// the visible height.
    pub open spec fn row_at(&self, y: int) -> int {
        let clamped = if y < 0 {
            0
        } else if y > self.height {
            self.height as int
        } else {
            y
        };
        clamped / (self.line_height as int) + self.scroll_row
    }

    /// The column under `x` (scrolled) on a row, and how far past the
    /// line's end it lies.
    pub open spec fn column_at(&self, row: int, x: int) -> (int, int) {
        let i = row - self.scroll_row;
        if 0 <= i < self.line_layouts@.len() {
            let line = self.line_layouts@[i];
            match line.index_for_x_spec(x) {
                Some(ix) => (ix, 0),
                None => (line.glyph_x@.len() as int, if x - line.width > 0 { x - line.width } else { 0 }),
            }
        } else {
            (0, if x > 0 { x } else { 0 })
        }
    }

    /// The span of row `row` that `start..end` covers, in the coordinates
    /// of the text whose origin is `origin`: from the start's glyph on its
    /// row, else from the line's start; to the end's glyph on its row, else
    /// past the line's width by `line_end_overshoot`.
    pub open spec fn span_of(
        &self,
        row: int,
        start: DisplayPoint,
        end: DisplayPoint,
        origin_x: int,
        line_end_overshoot: int,
    ) -> HighlightedRangeLine {
        let line = self.line_layouts@[row - self.scroll_row];
        let left = origin_x - self.scroll_x;
        HighlightedRangeLine {
            start_x: (if row == start.row {
                left + line.x_for_index(start.column as int)
            } else {
                left
            }) as i64,
            end_x: (if row == end.row {
                left + line.x_for_index(end.column as int)
            } else {
                left + line.width + line_end_overshoot
            }) as i64,
        }
    }

    /// The highlight of `start..end` over the visible rows from the scroll
    /// row to `last_row`; none for an empty range or one with no visible
    /// row.
    pub fn highlighted_range(
        &self,
        start: DisplayPoint,
        end: DisplayPoint,
        last_row: u32,
        origin: (i64, i64),
        scroll_top: i64,
        corner_radius: i64,
        line_end_overshoot: i64,
    ) -> (r: Option<HighlightedRange>)
        requires
            self.wf(),
            self.scroll_row <= last_row,
            last_row - self.scroll_row <= self.line_layouts@.len(),
            last_row - self.scroll_row <= MAX_ROWS,
            last_row * self.line_height <= MAX_COORD,
            -MAX_COORD <= origin.0 <= MAX_COORD,
            -MAX_COORD <= origin.1 <= MAX_COORD,
            0 <= scroll_top <= MAX_COORD,
            0 <= line_end_overshoot <= MAX_COORD,
            0 <= corner_radius <= MAX_COORD,
        ensures
            r is Some <==> start != end && highlight_rows(
                start,
                end,
                self.scroll_row as int,
                last_row as int,
            ).0 < highlight_rows(start, end, self.scroll_row as int, last_row as int).1,
            r matches Some(h) ==> ({
                let (lo, hi) = highlight_rows(start, end, self.scroll_row as int, last_row as int);
                &&& h.start_y == origin.1 + lo * self.line_height - scroll_top
                &&& h.line_height == self.line_height
                &&& h.corner_radius == corner_radius
                &&& h.lines@.len() == hi - lo
                &&& forall|k: int|
                    0 <= k < h.lines@.len() ==> #[trigger] h.lines@[k] == self.span_of(
                        lo + k,
                        start,
                        end,
                        origin.0 as int,
                        line_end_overshoot as int,
                    )
            }),
    {
        if start == end {
            return None;
        }
        let first = self.scroll_row;
        let lo = if start.row >= first {
            start.row
        } else {
            first
        };
        let end_row: u64 = if end.column == 0 {
            end.row as u64
        } else {
            end.row as u64 + 1
        };
        let hi = if end_row <= last_row as u64 {
            end_row as u32
        } else {
            last_row
        };
        let ghost bounds = highlight_rows(start, end, first as int, last_row as int);
        assert(bounds.0 == lo && bounds.1 == hi);
        if lo >= hi {
            return None;
        }
        let left = origin.0 - self.scroll_x;
        let mut lines: Vec<HighlightedRangeLine> = Vec::new();
        let mut row = lo;
        while row < hi
            invariant
                self.wf(),
                first == self.scroll_row,
                first <= lo,
                hi <= last_row,
                last_row - first <= self.line_layouts@.len(),
                left == origin.0 - self.scroll_x,
                -MAX_COORD <= origin.0 <= MAX_COORD,
                0 <= line_end_overshoot <= MAX_COORD,
                lo <= row,
                lo < hi,
                row <= hi,
                lines@.len() == row - lo,
                forall|k: int|
                    0 <= k < lines@.len() ==> #[trigger] lines@[k] == self.span_of(
                        lo + k,
                        start,
                        end,
                        origin.0 as int,
                        line_end_overshoot as int,
                    ),
            decreases hi - row,
        {
            let line = &self.line_layouts[(row - first) as usize];
            assert(line.wf());
            let start_x = if row == start.row {
                left + x_for_index(line, start.column)
            } else {
                left
            };
            let end_x = if row == end.row {
                left + x_for_index(line, end.column)
            } else {
                left + line.width + line_end_overshoot
            };
            lines.push(HighlightedRangeLine { start_x, end_x });
            row = row + 1;
        }
        proof {
            assert(0 <= lo * self.line_height <= last_row * self.line_height) by (nonlinear_arith)
                requires
                    lo <= last_row,
                    0 < self.line_height,
            ;
        }
        Some(
            HighlightedRange {
                start_y: origin.1 + (lo as i64) * self.line_height - scroll_top,
                line_height: self.line_height,
                lines,
                corner_radius,
            },
        )
    }

    /// Whether `c` is the cursor at `head`: at the glyph of its column, as
    /// wide as that glyph, or `em_width` where the glyph has no width.
    pub open spec fn is_cursor_at(
        &self,
        c: Cursor,
        head: DisplayPoint,
        shape: CursorShape,
        scroll_top: int,
        em_width: int,
    ) -> bool {
        let line = self.line_layouts@[head.row - self.scroll_row];
        let x = line.x_for_index(head.column as int);
        let advance = line.x_for_index(head.column + 1) - x;
        &&& c.origin_x == x - self.scroll_x
        &&& c.origin_y == head.row * self.line_height - scroll_top
        &&& c.block_width == if advance == 0 {
            em_width
        } else {
            advance
        }
        &&& c.line_height == self.line_height
        &&& c.shape == shape
        &&& c.fits()
    }

    /// The cursor drawn for a selection: none for a local one while local
    /// cursors are hidden, else the cursor at its head where that row is
    /// visible.
    pub fn selection_cursor(
        &self,
        layout: &SelectionLayout,
        show_local_cursors: bool,
        last_row: u32,
        scroll_top: i64,
        em_width: i64,
    ) -> (r: Option<Cursor>)
        requires
            self.wf(),
            self.scroll_row <= last_row,
            last_row - self.scroll_row <= self.line_layouts@.len(),
            last_row * self.line_height <= MAX_COORD,
            0 <= scroll_top <= MAX_COORD,
            0 <= em_width <= MAX_COORD,
        ensures
            r is Some <==> (!layout.is_local || show_local_cursors) && self.scroll_row
                <= layout.head.row < last_row,
            r matches Some(c) ==> self.is_cursor_at(
                c,
                layout.head,
                layout.cursor_shape,
                scroll_top as int,
                em_width as int,
            ),
    {
        if layout.is_local && !show_local_cursors {
            None
        } else {
            self.cursor_for(layout.head, layout.cursor_shape, last_row, scroll_top, em_width)
        }
    }

    /// Where the newest selection's cursor is centred, in the coordinates
    /// of the text area whose origin is `origin`: the centre of the last
    /// drawn cursor of a selection marked newest, if any is drawn.
    pub fn newest_cursor_position(
        &self,
        layouts: &Vec<SelectionLayout>,
        show_local_cursors: bool,
        last_row: u32,
        scroll_top: i64,
        em_width: i64,
        origin: (i64, i64),
    ) -> (r: Option<(i64, i64)>)
        requires
            self.wf(),
            self.scroll_row <= last_row,
            last_row - self.scroll_row <= self.line_layouts@.len(),
            last_row * self.line_height <= MAX_COORD,
            0 <= scroll_top <= MAX_COORD,
            0 <= em_width <= MAX_COORD,
            -MAX_COORD <= origin.0 <= MAX_COORD,
            -MAX_COORD <= origin.1 <= MAX_COORD,
        ensures
            r is Some <==> exists|k: int|
                0 <= k < layouts@.len() && #[trigger] layouts@[k].is_newest && (!layouts@[k].is_local
                    || show_local_cursors) && self.scroll_row <= layouts@[k].head.row < last_row,
            r matches Some(p) ==> exists|k: int, c: Cursor|
                #![trigger self.is_cursor_at(c, layouts@[k].head, layouts@[k].cursor_shape, scroll_top as int, em_width as int)]
                0 <= k < layouts@.len() && layouts@[k].is_newest && self.is_cursor_at(
                    c,
                    layouts@[k].head,
                    layouts@[k].cursor_shape,
                    scroll_top as int,
                    em_width as int,
                ) && p == c.center_at(origin.0 as int, origin.1 as int) && (!layouts@[k].is_local
                    || show_local_cursors) && forall|j: int|
                    k < j < layouts@.len() && (#[trigger] layouts@[j]).is_newest ==> !((
                    !layouts@[j].is_local || show_local_cursors) && self.scroll_row
                        <= layouts@[j].head.row < last_row),
    {
        let mut found: Option<(i64, i64)> = None;
        let ghost mut found_at: int = -1;
        let mut i: usize = 0;
        while i < layouts.len()
            invariant
                self.wf(),
                self.scroll_row <= last_row,
                last_row - self.scroll_row <= self.line_layouts@.len(),
                last_row * self.line_height <= MAX_COORD,
                0 <= scroll_top <= MAX_COORD,
                0 <= em_width <= MAX_COORD,
                -MAX_COORD <= origin.0 <= MAX_COORD,
                -MAX_COORD <= origin.1 <= MAX_COORD,
                i <= layouts@.len(),
                found is Some <==> 0 <= found_at,
                found_at < i,
                found is None ==> forall|k: int|
                    0 <= k < i && #[trigger] layouts@[k].is_newest ==> !((!layouts@[k].is_local
                        || show_local_cursors) && self.scroll_row <= layouts@[k].head.row < last_row),
                found matches Some(p) ==> exists|c: Cursor|
                    #![trigger self.is_cursor_at(c, layouts@[found_at].head, layouts@[found_at].cursor_shape, scroll_top as int, em_width as int)]
                    layouts@[found_at].is_newest && self.is_cursor_at(
                        c,
                        layouts@[found_at].head,
                        layouts@[found_at].cursor_shape,
                        scroll_top as int,
                        em_width as int,
                    ) && p == c.center_at(origin.0 as int, origin.1 as int) && (
                    !layouts@[found_at].is_local || show_local_cursors) && self.scroll_row
                        <= layouts@[found_at].head.row < last_row,
                0 <= found_at ==> forall|j: int|
                    found_at < j < i && #[trigger] layouts@[j].is_newest ==> !((
                    !layouts@[j].is_local || show_local_cursors) && self.scroll_row
                        <= layouts@[j].head.row < last_row),
            decreases layouts@.len() - i,
        {
            if layouts[i].is_newest {
                match self.selection_cursor(&layouts[i], show_local_cursors, last_row, scroll_top, em_width) {
                    Some(c) => {
                        found = Some(c.center(origin.0, origin.1));
                        proof {
                            found_at = i as int;
                        }
                    },
                    None => {},
                }
            }
            i = i + 1;
        }
        proof {
            if found is Some {
                assert(layouts@[found_at].is_newest);
            }
        }
        found
    }

    /// The cursor drawn at `head` where its row is visible (from the scroll
    /// row to `last_row`): at the glyph of its column, as wide as that glyph,
    /// or `em_width` where the glyph has no width (past the line's end).
    pub fn cursor_for(
        &self,
        head: DisplayPoint,
        shape: CursorShape,
        last_row: u32,
        scroll_top: i64,
        em_width: i64,
    ) -> (r: Option<Cursor>)
        requires
            self.wf(),
            self.scroll_row <= last_row,
            last_row - self.scroll_row <= self.line_layouts@.len(),
            last_row * self.line_height <= MAX_COORD,
            0 <= scroll_top <= MAX_COORD,
            0 <= em_width <= MAX_COORD,
        ensures
            r is Some <==> self.scroll_row <= head.row < last_row,
            r matches Some(c) ==> self.is_cursor_at(c, head, shape, scroll_top as int, em_width as int),
    {
        if head.row < self.scroll_row || head.row >= last_row {
            return None;
        }
        let line = &self.line_layouts[(head.row - self.scroll_row) as usize];
        assert(line.wf());
        let x = x_for_index(line, head.column);
        let next = if head.column < u32::MAX {
            x_for_index(line, head.column + 1)
        } else {
            line.width
        };
        proof {
            if head.column < u32::MAX {
            } else {
                assert(line.glyph_x@.len() < u32::MAX);
            }
            assert(0 <= x <= next) by {
                if (head.column as int) < line.glyph_x@.len() && (head.column + 1) < line.glyph_x@.len() {
                    assert(line.glyph_x@[head.column as int] <= line.glyph_x@[head.column + 1]);
                }
            }
            assert(0 <= head.row * self.line_height <= last_row * self.line_height) by (nonlinear_arith)
                requires
                    head.row < last_row,
                    0 < self.line_height,
            ;
        }
        let advance = next - x;
        let block_width = if advance == 0 {
            em_width
        } else {
            advance
        };
        let y = (head.row as i64) * self.line_height - scroll_top;
        Some(Cursor::new(x - self.scroll_x, y, block_width, self.line_height, shape))
    }

    /// Resolves a pointer at `position`, in the coordinates of the text
    /// area's origin `origin`.
    pub fn point_for_position(&self, origin: (i64, i64), position: (i64, i64)) -> (r: PointForPosition)
        requires
            self.wf(),
            -MAX_COORD <= origin.0 <= MAX_COORD,
            -MAX_COORD <= origin.1 <= MAX_COORD,
            -MAX_COORD <= position.0 <= MAX_COORD,
            -MAX_COORD <= position.1 <= MAX_COORD,
        ensures
            ({
                let x = position.0 - origin.0 + self.scroll_x;
                let row = self.row_at(position.1 - origin.1);
                let (column, overshoot) = self.column_at(row, x);
                let unclipped = DisplayPoint { row: row as u32, column: column as u32 };
                let columns_past = cap_u32(overshoot / (self.em_advance as int));
                &&& r.previous_valid == clip(self.lines.rows@, unclipped, Bias::Left)
                &&& r.next_valid == clip(self.lines.rows@, unclipped, Bias::Right)
                &&& r.column_overshoot_after_line_end == columns_past
                &&& r.exact_unclipped.row == row
                &&& r.exact_unclipped.column == cap_u32(column + columns_past)
            }),
    {
        let x = position.0 - origin.0 + self.scroll_x;
        let dy = position.1 - origin.1;
        let y = if dy < 0 {
            0
        } else if dy > self.height {
            self.height
        } else {
            dy
        };
        proof {
            vstd::arithmetic::div_mod::lemma_div_is_ordered(y as int, self.height as int, self.line_height as int);
        }
        let offset = (y / self.line_height) as u32;
        let row = offset + self.scroll_row;
        let (column, overshoot): (u32, i64) = if (offset as usize) < self.line_layouts.len() {
            let line = &self.line_layouts[offset as usize];
            assert(line.wf());
            match line.index_for_x(x) {
                Some(ix) => (ix, 0),
                None => (
                    line.glyph_x.len() as u32,
                    if x - line.width > 0 {
                        x - line.width
                    } else {
                        0
                    },
                ),
            }
        } else {
            (0, if x > 0 {
                x
            } else {
                0
            })
        };
        let unclipped = DisplayPoint { row, column };
        let previous_valid = self.lines.clip_point(unclipped, Bias::Left);
        let next_valid = self.lines.clip_point(unclipped, Bias::Right);
        let past = overshoot / self.em_advance;
        let columns_past: u32 = if past > u32::MAX as i64 {
            u32::MAX
        } else {
            past as u32
        };
        let exact_unclipped = DisplayPoint { row, column: column.saturating_add(columns_past) };
        PointForPosition {
            previous_valid,
            next_valid,
            exact_unclipped,
            column_overshoot_after_line_end: columns_past,
        }
    }
}

} // verus!
