//! Display-space geometry of one selection: where its cursor is drawn, which
//! span is highlighted, and which rows count as active.

use vstd::prelude::*;
use crate::display::{
    clip, line_end_of, line_start_of, max_point_of, next_line_start, point_le, text_at_or_before,
    Bias, DisplayLines, DisplayPoint,
};
use std::ops::Range;

verus! {

#[derive(Debug, Clone, Copy, PartialEq, Eq, Structural)]
pub enum CursorShape {
    Bar,
    Block,
    Underscore,
    Hollow,
}

/// A selection already mapped to display space. Its head is `end`, or
/// `start` where it is reversed.
#[derive(Debug, Clone, Copy, PartialEq, Eq, Structural)]
pub struct Selection {
    pub id: usize,
    pub start: DisplayPoint,
    pub end: DisplayPoint,
    pub reversed: bool,
}

pub open spec fn head_of(s: Selection) -> DisplayPoint {
    if s.reversed {
        s.start
    } else {
        s.end
    }
}

/// Whether a point lies on a text row, at most at the row's end.
pub open spec fn on_text(rows: Seq<crate::display::DisplayRow>, p: DisplayPoint) -> bool {
    &&& p.row < rows.len()
    &&& crate::display::is_text(rows, p.row as int)
    &&& p.column <= rows[p.row as int].len
}

/// Whether a selection lies on the rows' text, start before end, as every
/// selection mapped from the buffer does.
pub open spec fn selection_fits(rows: Seq<crate::display::DisplayRow>, s: Selection) -> bool {
    &&& point_le(s.start, s.end)
    &&& on_text(rows, s.start)
    &&& on_text(rows, s.end)
}

/// The whole buffer lines that hold `start..end`, together with the line
/// break after the last of them; where that is the last line, the break
/// before the first of them, if any.
pub open spec fn expand_to_lines(
    rows: Seq<crate::display::DisplayRow>,
    start: DisplayPoint,
    end: DisplayPoint,
) -> (DisplayPoint, DisplayPoint) {
    let first = line_start_of(rows, start.row as int);
    let last = line_end_of(rows, end.row as int);
    let new_start = DisplayPoint { row: first as u32, column: 0 };
    let new_end = DisplayPoint { row: last as u32, column: rows[last].len };
    match next_line_start(rows, last) {
        Some(n) => (new_start, DisplayPoint { row: n as u32, column: 0 }),
        None => match text_at_or_before(rows, first - 1) {
            Some(p) => (DisplayPoint { row: p as u32, column: rows[p].len }, new_end),
            None => (new_start, new_end),
        },
    }
}

/// Where a block cursor is drawn for a forward selection: one column left of
/// the head, or at the end of the row above where the head starts a row.
/// Any other head stays.
pub open spec fn block_head(rows: Seq<crate::display::DisplayRow>, head: DisplayPoint) -> DisplayPoint {
    if head.column > 0 {
        clip(rows, DisplayPoint { row: head.row, column: (head.column - 1) as u32 }, Bias::Left)
    } else if head.row > 0 && head != max_point_of(rows) {
        clip(
            rows,
            DisplayPoint { row: (head.row - 1) as u32, column: rows[head.row - 1].len },
            Bias::Left,
        )
    } else {
        head
    }
}

proof fn lemma_text_at_or_before_bounds(rows: Seq<crate::display::DisplayRow>, r: int)
    ensures
        text_at_or_before(rows, r) matches Some(q) ==> 0 <= q <= r && q < rows.len()
            && crate::display::is_text(rows, q),
    decreases r + 1,
{
    if r >= 0 && r < rows.len() && !crate::display::is_text(rows, r) {
        lemma_text_at_or_before_bounds(rows, r - 1);
    }
}

proof fn lemma_block_head_moves_back(rows: Seq<crate::display::DisplayRow>, head: DisplayPoint)
    requires
        0 < rows.len() < u32::MAX,
        head.row < rows.len(),
        head.column <= rows[head.row as int].len,
        crate::display::is_text(rows, head.row as int),
        head.column > 0 || (head.row > 0 && head != max_point_of(rows) && text_at_or_before(
            rows,
            head.row - 1,
        ) is Some),
    ensures
        block_head(rows, head) != head,
        (block_head(rows, head).row == head.row && block_head(rows, head).column < head.column)
            || block_head(rows, head).row < head.row,
        head.column == 0 && crate::display::is_text(rows, head.row - 1) ==> block_head(
            rows,
            head,
        ).row == head.row - 1,
{
    if head.column == 0 {
        lemma_text_at_or_before_bounds(rows, head.row - 2);
        lemma_text_at_or_before_bounds(rows, head.row - 1);
    }
}

/// Whether `r` is the layout of `selection`: the head, range and active
/// rows as the selection and the shape give them, with the block cursor's
/// move back where it applies.
pub open spec fn is_layout_of(
    r: SelectionLayout,
    rows: Seq<crate::display::DisplayRow>,
    selection: Selection,
    line_mode: bool,
    cursor_shape: CursorShape,
    is_newest: bool,
    is_local: bool,
) -> bool {
    let head = head_of(selection);
    let range = if line_mode {
        expand_to_lines(rows, selection.start, selection.end)
    } else {
        (selection.start, selection.end)
    };
    let active_start = line_start_of(rows, selection.start.row as int);
    let active_end = line_end_of(rows, selection.end.row as int);
    let moves = cursor_shape == CursorShape::Block && range.0 != range.1 && !selection.reversed;
    let moved_up = moves && head.column == 0 && head.row > 0 && head != max_point_of(rows);
    &&& r.cursor_shape == cursor_shape
    &&& r.is_newest == is_newest
    &&& r.is_local == is_local
    &&& r.head == if moves {
        block_head(rows, head)
    } else {
        head
    }
    &&& r.range.start == range.0
    &&& r.active_rows.start == active_start
    &&& if moved_up {
        &&& r.range.end == DisplayPoint { row: (r.head.row + 1) as u32, column: 0 }
        &&& r.active_rows.end == r.head.row
    } else {
        &&& r.range.end == range.1
        &&& r.active_rows.end == active_end
    }
}

/// A block cursor of a forward, non-empty selection is never drawn at the
/// head: it moves to an earlier column of the head's row, or, from a row's
/// start, to a row above, with the range and the active rows ending at that
/// row; to the end of the row right above where that row holds text. This
/// holds wherever the head can move: off a row's start it needs a text row
/// somewhere above (an excerpt header at the top leaves it in place), and
/// it stays at the very end of the text.
pub proof fn lemma_block_cursor_moves_back(
    r: SelectionLayout,
    rows: Seq<crate::display::DisplayRow>,
    selection: Selection,
    line_mode: bool,
    is_newest: bool,
    is_local: bool,
)
    requires
        0 < rows.len() < u32::MAX,
        selection_fits(rows, selection),
        is_layout_of(r, rows, selection, line_mode, CursorShape::Block, is_newest, is_local),
        !selection.reversed,
        (if line_mode {
            expand_to_lines(rows, selection.start, selection.end)
        } else {
            (selection.start, selection.end)
        }).0 != (if line_mode {
            expand_to_lines(rows, selection.start, selection.end)
        } else {
            (selection.start, selection.end)
        }).1,
        head_of(selection).column > 0 || (head_of(selection).row > 0 && head_of(selection)
            != max_point_of(rows) && text_at_or_before(rows, head_of(selection).row - 1) is Some),
    ensures
        ({
            let h = head_of(selection);
            &&& r.head != h
            &&& (r.head.row == h.row && r.head.column < h.column) || r.head.row < h.row
            &&& h.column == 0 ==> r.range.end == (DisplayPoint { row: (r.head.row + 1) as u32, column: 0 })
                && r.active_rows.end == r.head.row
            &&& h.column == 0 && crate::display::is_text(rows, h.row - 1) ==> r.head == (DisplayPoint {
                row: (h.row - 1) as u32,
                column: rows[h.row - 1].len,
            })
        }),
{
    lemma_block_head_moves_back(rows, head_of(selection));
}

pub struct SelectionLayout {
    pub head: DisplayPoint,
    pub cursor_shape: CursorShape,
    pub is_newest: bool,
    pub is_local: bool,
    pub range: Range<DisplayPoint>,
    pub active_rows: Range<u32>,
}

impl SelectionLayout {
    pub fn new(
        selection: Selection,
        line_mode: bool,
        cursor_shape: CursorShape,
        map: &DisplayLines,
        is_newest: bool,
        is_local: bool,
    ) -> (r: SelectionLayout)
        requires
            map.wf(),
            selection_fits(map.rows@, selection),
        ensures
            is_layout_of(r, map.rows@, selection, line_mode, cursor_shape, is_newest, is_local),
    {
        let mut head = if selection.reversed {
            selection.start
        } else {
            selection.end
        };
        let mut active_rows = map.line_start_row(selection.start.row)..map.line_end_row(
            selection.end.row,
        );
        let mut range = selection.start..selection.end;
        if line_mode {
            range = map.expand_to_line(selection.start, selection.end);
        }
        if cursor_shape == CursorShape::Block && range.start != range.end && !selection.reversed {
            if head.column > 0 {
                head = map.clip_point(DisplayPoint::new(head.row, head.column - 1), Bias::Left);
            } else if head.row > 0 && head != map.max_point() {
                head = map.clip_point(
                    DisplayPoint::new(head.row - 1, map.line_len(head.row - 1)),
                    Bias::Left,
                );
                // Clipping off a block row moves the head up further; the
                // range and the active rows follow the head, not the row
                // above the original one.
                range.end = DisplayPoint::new(head.row + 1, 0);
                active_rows.end = head.row;
            }
        }
        SelectionLayout { head, cursor_shape, is_newest, is_local, range, active_rows }
    }
}

impl DisplayLines {
    /// Expands `start..end` to whole buffer lines, as `expand_to_lines` says.
    pub fn expand_to_line(&self, start: DisplayPoint, end: DisplayPoint) -> (r: Range<DisplayPoint>)
        requires
            self.wf(),
            start.row < self.rows@.len(),
            end.row < self.rows@.len(),
        ensures
            (r.start, r.end) == expand_to_lines(self.rows@, start, end),
    {
        let first = self.line_start_row(start.row);
        let last = self.line_end_row(end.row);
        match self.next_line_start_row(last) {
            Some(n) => DisplayPoint::new(first, 0)..DisplayPoint::new(n, 0),
            None => {
                let new_end = DisplayPoint::new(last, self.line_len(last));
                if first == 0 {
                    DisplayPoint::new(first, 0)..new_end
                } else {
                    match self.text_row_before(first) {
                        Some(p) => DisplayPoint::new(p, self.line_len(p))..new_end,
                        None => DisplayPoint::new(first, 0)..new_end,
                    }
                }
            },
        }
    }
}

} // verus!
