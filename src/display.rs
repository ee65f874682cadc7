//! The rows of a display snapshot as the layout reads them: each row's length
//! in columns and whether it starts a buffer line, continues a soft-wrapped
//! one, or belongs to a block (a header or spacer with no text).

use vstd::prelude::*;

verus! {

/// A position in wrapped and folded display space.
#[derive(Debug, Clone, Copy, PartialEq, Eq, Structural)]
pub struct DisplayPoint {
    pub row: u32,
    pub column: u32,
}

impl DisplayPoint {
    pub fn new(row: u32, column: u32) -> (r: DisplayPoint)
        ensures
            r.row == row && r.column == column,
    {
        DisplayPoint { row, column }
    }
}

/// Row-major order on display points.
pub open spec fn point_le(a: DisplayPoint, b: DisplayPoint) -> bool {
    a.row < b.row || (a.row == b.row && a.column <= b.column)
}

/// Which way a clipped point moves when it falls where no text is.
#[derive(Debug, Clone, Copy, PartialEq, Eq, Structural)]
pub enum Bias {
    Left,
    Right,
}

/// What a display row shows.
#[derive(Debug, Clone, Copy, PartialEq, Eq, Structural)]
pub enum RowKind {
    /// The first row of the buffer line with this index.
    Line(u32),
    /// A further row of a soft-wrapped buffer line.
    Wrap,
    /// A row of a block, which holds no text.
    Block,
}

#[derive(Debug, Clone, Copy, PartialEq, Eq, Structural)]
pub struct DisplayRow {
    pub len: u32,
    pub kind: RowKind,
}

/// The display rows of a snapshot, top to bottom.
#[derive(Debug, Clone)]
pub struct DisplayLines {
    pub rows: Vec<DisplayRow>,
}

pub open spec fn is_text(rows: Seq<DisplayRow>, r: int) -> bool {
    !(rows[r].kind is Block)
}

/// The last text row at or above `r`.
pub open spec fn text_at_or_before(rows: Seq<DisplayRow>, r: int) -> Option<int>
    decreases r + 1,
{
    if r < 0 || r >= rows.len() {
        None
    } else if is_text(rows, r) {
        Some(r)
    } else {
        text_at_or_before(rows, r - 1)
    }
}

/// The first text row at or below `r`.
pub open spec fn text_at_or_after(rows: Seq<DisplayRow>, r: int) -> Option<int>
    decreases rows.len() - r,
{
    if r < 0 || r >= rows.len() {
        None
    } else if is_text(rows, r) {
        Some(r)
    } else {
        text_at_or_after(rows, r + 1)
    }
}

/// The first row of the buffer line that holds row `r`.
pub open spec fn line_start_of(rows: Seq<DisplayRow>, r: int) -> int
    decreases r,
{
    if r <= 0 || !(rows[r].kind is Wrap) {
        r
    } else {
        line_start_of(rows, r - 1)
    }
}

/// The last row of the buffer line that holds row `r`.
pub open spec fn line_end_of(rows: Seq<DisplayRow>, r: int) -> int
    decreases rows.len() - r,
{
    if r + 1 >= rows.len() || !(rows[r + 1].kind is Wrap) {
        r
    } else {
        line_end_of(rows, r + 1)
    }
}

/// The first row below `r` that starts a buffer line.
pub open spec fn next_line_start(rows: Seq<DisplayRow>, r: int) -> Option<int>
    decreases rows.len() - r,
{
    if r + 1 >= rows.len() {
        None
    } else if rows[r + 1].kind is Line {
        Some(r + 1)
    } else {
        next_line_start(rows, r + 1)
    }
}

pub open spec fn max_point_of(rows: Seq<DisplayRow>) -> DisplayPoint {
    DisplayPoint { row: (rows.len() - 1) as u32, column: rows[rows.len() - 1].len }
}

/// Where a point lands once moved onto text: its row is capped at the last
/// row and its column at the row's length; on a block row it moves to the
/// nearest text row in the direction of the bias (the end of a row above, the
/// start of a row below), or the other way where there is none.
pub open spec fn clip(rows: Seq<DisplayRow>, p: DisplayPoint, bias: Bias) -> DisplayPoint {
    let q = if p.row < rows.len() {
        p
    } else {
        max_point_of(rows)
    };
    let r = q.row as int;
    if is_text(rows, r) {
        DisplayPoint { row: q.row, column: if q.column <= rows[r].len { q.column } else { rows[r].len } }
    } else {
        let above = text_at_or_before(rows, r - 1);
        let below = text_at_or_after(rows, r + 1);
        let end_above = DisplayPoint { row: above->0 as u32, column: rows[above->0].len };
        let start_below = DisplayPoint { row: below->0 as u32, column: 0 };
        match bias {
            Bias::Left => if above is Some {
                end_above
            } else if below is Some {
                start_below
            } else {
                DisplayPoint { row: q.row, column: 0 }
            },
            Bias::Right => if below is Some {
                start_below
            } else if above is Some {
                end_above
            } else {
                DisplayPoint { row: q.row, column: 0 }
            },
        }
    }
}

impl DisplayLines {
    pub open spec fn wf(&self) -> bool {
        0 < self.rows@.len() < u32::MAX
    }

    pub fn line_len(&self, row: u32) -> (r: u32)
        requires
            self.wf(),
            row < self.rows@.len(),
        ensures
            r == self.rows@[row as int].len,
    {
        self.rows[row as usize].len
    }

    /// The end of the last row.
    pub fn max_point(&self) -> (r: DisplayPoint)
        requires
            self.wf(),
        ensures
            r == max_point_of(self.rows@),
    {
        let last = self.rows.len() - 1;
        DisplayPoint { row: last as u32, column: self.rows[last].len }
    }

    /// The last text row above `row`.
    pub(crate) fn text_row_before(&self, row: u32) -> (r: Option<u32>)
        requires
            self.wf(),
            row < self.rows@.len(),
        ensures
            r matches Some(q) ==> text_at_or_before(self.rows@, row - 1) == Some(q as int) && q
                < row,
            r is None ==> text_at_or_before(self.rows@, row - 1) is None,
    {
        let mut i: u32 = row;
        while i > 0
            invariant
                self.wf(),
                i <= row < self.rows@.len(),
                text_at_or_before(self.rows@, row - 1) == text_at_or_before(self.rows@, i - 1),
            decreases i,
        {
            if !matches!(self.rows[(i - 1) as usize].kind, RowKind::Block) {
                return Some(i - 1);
            }
            i = i - 1;
        }
        None
    }

    /// The first text row below `row`.
    fn text_row_after(&self, row: u32) -> (r: Option<u32>)
        requires
            self.wf(),
            row < self.rows@.len(),
        ensures
            r matches Some(q) ==> text_at_or_after(self.rows@, row + 1) == Some(q as int) && row < q
                < self.rows@.len(),
            r is None ==> text_at_or_after(self.rows@, row + 1) is None,
    {
        let mut i: u32 = row + 1;
        while i < self.rows.len() as u32
            invariant
                self.wf(),
                row < i <= self.rows@.len(),
                text_at_or_after(self.rows@, row + 1) == text_at_or_after(self.rows@, i as int),
            decreases self.rows@.len() - i,
        {
            if !matches!(self.rows[i as usize].kind, RowKind::Block) {
                return Some(i);
            }
            i = i + 1;
        }
        None
    }

    /// Moves a point onto text, as `clip` says.
    pub fn clip_point(&self, p: DisplayPoint, bias: Bias) -> (r: DisplayPoint)
        requires
            self.wf(),
        ensures
            r == clip(self.rows@, p, bias),
            r.row < self.rows@.len(),
    {
        let q = if (p.row as usize) < self.rows.len() {
            p
        } else {
            self.max_point()
        };
        let row = &self.rows[q.row as usize];
        if !matches!(row.kind, RowKind::Block) {
            let column = if q.column <= row.len {
                q.column
            } else {
                row.len
            };
            return DisplayPoint { row: q.row, column };
        }
        let above = self.text_row_before(q.row);
        let below = self.text_row_after(q.row);
        match bias {
            Bias::Left => match above {
                Some(a) => DisplayPoint { row: a, column: self.rows[a as usize].len },
                None => match below {
                    Some(b) => DisplayPoint { row: b, column: 0 },
                    None => DisplayPoint { row: q.row, column: 0 },
                },
            },
            Bias::Right => match below {
                Some(b) => DisplayPoint { row: b, column: 0 },
                None => match above {
                    Some(a) => DisplayPoint { row: a, column: self.rows[a as usize].len },
                    None => DisplayPoint { row: q.row, column: 0 },
                },
            },
        }
    }

    /// The first row of the buffer line that holds `row`.
    pub fn line_start_row(&self, row: u32) -> (r: u32)
        requires
            self.wf(),
            row < self.rows@.len(),
        ensures
            r == line_start_of(self.rows@, row as int),
            r <= row,
    {
        let mut i: u32 = row;
        while i > 0 && matches!(self.rows[i as usize].kind, RowKind::Wrap)
            invariant
                self.wf(),
                i <= row < self.rows@.len(),
                line_start_of(self.rows@, row as int) == line_start_of(self.rows@, i as int),
            decreases i,
        {
            i = i - 1;
        }
        i
    }

    /// The last row of the buffer line that holds `row`.
    pub fn line_end_row(&self, row: u32) -> (r: u32)
        requires
            self.wf(),
            row < self.rows@.len(),
        ensures
            r == line_end_of(self.rows@, row as int),
            row <= r < self.rows@.len(),
    {
        let mut i: u32 = row;
        while i + 1 < self.rows.len() as u32 && matches!(self.rows[(i + 1) as usize].kind, RowKind::Wrap)
            invariant
                self.wf(),
                row <= i < self.rows@.len(),
                line_end_of(self.rows@, row as int) == line_end_of(self.rows@, i as int),
            decreases self.rows@.len() - i,
        {
            i = i + 1;
        }
        i
    }

    /// The first row below `row` that starts a buffer line.
    pub fn next_line_start_row(&self, row: u32) -> (r: Option<u32>)
        requires
            self.wf(),
            row < self.rows@.len(),
        ensures
            r matches Some(q) ==> next_line_start(self.rows@, row as int) == Some(q as int),
            r is None ==> next_line_start(self.rows@, row as int) is None,
    {
        let mut i: u32 = row;
        while i + 1 < self.rows.len() as u32
            invariant
                self.wf(),
                row <= i < self.rows@.len(),
                next_line_start(self.rows@, row as int) == next_line_start(self.rows@, i as int),
            decreases self.rows@.len() - i,
        {
            if matches!(self.rows[(i + 1) as usize].kind, RowKind::Line(_)) {
                return Some(i + 1);
            }
            i = i + 1;
        }
        None
    }
}

} // verus!
