//! Outlines of highlighted ranges (selections, folds, search matches) that
//! cover several rows: one closed path around the stack of row spans, with
//! rounded corners. Coordinates are integer device units.

use vstd::prelude::*;

verus! {

/// The largest magnitude of a coordinate that a highlighted range may hold.
pub const MAX_COORD: i64 = 1099511627776;

/// The largest row height, and the largest number of rows, of a range.
pub const MAX_ROWS: i64 = 1048576;

#[derive(Debug, Clone, Copy, PartialEq, Eq, Structural)]
pub struct PathPoint {
    pub x: i64,
    pub y: i64,
}

#[derive(Debug, Clone, Copy, PartialEq, Eq, Structural)]
pub enum PathSegment {
    /// A straight line to the point.
    LineTo(PathPoint),
    /// A quadratic curve to `to`, bent towards `control`.
    CurveTo { to: PathPoint, control: PathPoint },
}

/// A closed outline: it starts at `start` and follows `segments` back to it.
#[derive(Debug, Clone)]
pub struct HighlightPath {
    pub start: PathPoint,
    pub segments: Vec<PathSegment>,
}

/// The horizontal extent of one row of a highlighted range.
#[derive(Debug, Clone, Copy, PartialEq, Eq, Structural)]
pub struct HighlightedRangeLine {
    pub start_x: i64,
    pub end_x: i64,
}

/// Rows of spans, the first at `start_y`, each `line_height` tall.
#[derive(Debug, Clone)]
pub struct HighlightedRange {
    pub start_y: i64,
    pub line_height: i64,
    pub lines: Vec<HighlightedRangeLine>,
    pub corner_radius: i64,
}

/// How the right edge goes on from one row to the next.
#[derive(Debug, Clone, Copy, PartialEq, Eq, Structural)]
pub enum EdgeTransition {
    /// Both rows end at the same x: the edge drops straight down.
    Straight,
    /// The next row ends further left: the edge steps in, then down.
    Inward,
    /// The next row ends further right: the edge steps down, then out.
    Outward,
}

pub open spec fn transition_of(current_end: int, next_end: int) -> EdgeTransition {
    if next_end == current_end {
        EdgeTransition::Straight
    } else if next_end < current_end {
        EdgeTransition::Inward
    } else {
        EdgeTransition::Outward
    }
}

/// How the right edge goes on from a row ending at `current_end` to one
/// ending at `next_end`.
pub fn edge_transition(current_end: i64, next_end: i64) -> (r: EdgeTransition)
    ensures
        r == transition_of(current_end as int, next_end as int),
{
    if next_end == current_end {
        EdgeTransition::Straight
    } else if next_end < current_end {
        EdgeTransition::Inward
    } else {
        EdgeTransition::Outward
    }
}

pub open spec fn pt(x: int, y: int) -> PathPoint {
    PathPoint { x: x as i64, y: y as i64 }
}

/// The width of a corner on a step from `a` to `b` (`a <= b`): the radius,
/// but no more than half the step, so that two corners never overlap.
pub open spec fn curve_width(a: int, b: int, radius: int) -> int {
    let half = (b - a) / 2;
    if half < radius {
        half
    } else {
        radius
    }
}

/// A line to `corner`, then, where corners are rounded, a curve to `to`.
pub open spec fn turn(corner: PathPoint, to: PathPoint, control: PathPoint, radius: int) -> Seq<
    PathSegment,
> {
    if radius > 0 {
        seq![PathSegment::LineTo(corner), PathSegment::CurveTo { to, control }]
    } else {
        seq![PathSegment::LineTo(corner)]
    }
}

/// The right edge where row `i` meets row `i + 1`.
pub open spec fn right_step(
    lines: Seq<HighlightedRangeLine>,
    start_y: int,
    line_height: int,
    radius: int,
    i: int,
) -> Seq<PathSegment> {
    let y = start_y + (i + 1) * line_height;
    let x = lines[i].end_x as int;
    let nx = lines[i + 1].end_x as int;
    match transition_of(x, nx) {
        EdgeTransition::Straight => seq![PathSegment::LineTo(pt(x, y))],
        EdgeTransition::Inward => {
            let cw = curve_width(nx, x, radius);
            turn(pt(x, y - radius), pt(x - cw, y), pt(x, y), radius) + turn(
                pt(nx + cw, y),
                pt(nx, y + radius),
                pt(nx, y),
                radius,
            )
        },
        EdgeTransition::Outward => {
            let cw = curve_width(x, nx, radius);
            turn(pt(x, y - radius), pt(x + cw, y), pt(x, y), radius) + turn(
                pt(nx - cw, y),
                pt(nx, y + radius),
                pt(nx, y),
                radius,
            )
        },
    }
}

/// The right edge down to the foot of row `k - 1`, less its bottom corner.
pub open spec fn right_steps(
    lines: Seq<HighlightedRangeLine>,
    start_y: int,
    line_height: int,
    radius: int,
    k: int,
) -> Seq<PathSegment>
    decreases k,
{
    if k <= 0 {
        seq![]
    } else {
        right_steps(lines, start_y, line_height, radius, k - 1) + right_step(
            lines,
            start_y,
            line_height,
            radius,
            k - 1,
        )
    }
}

/// The two bottom corners of the last row.
pub open spec fn bottom(
    lines: Seq<HighlightedRangeLine>,
    start_y: int,
    line_height: int,
    radius: int,
) -> Seq<PathSegment> {
    let n = lines.len() as int;
    let y = start_y + n * line_height;
    let s = lines[n - 1].start_x as int;
    let e = lines[n - 1].end_x as int;
    let cw = curve_width(s, e, radius);
    turn(pt(e, y - radius), pt(e - cw, y), pt(e, y), radius) + turn(
        pt(s + cw, y),
        pt(s, y - radius),
        pt(s, y),
        radius,
    )
}

/// The left edge where row `i` meets row `i - 1`, going up.
pub open spec fn left_step(
    lines: Seq<HighlightedRangeLine>,
    start_y: int,
    line_height: int,
    radius: int,
    i: int,
) -> Seq<PathSegment> {
    let y = start_y + i * line_height;
    let s = lines[i].start_x as int;
    let ps = lines[i - 1].start_x as int;
    if ps == s {
        seq![PathSegment::LineTo(pt(s, y))]
    } else if ps > s {
        let cw = curve_width(s, ps, radius);
        turn(pt(s, y + radius), pt(s + cw, y), pt(s, y), radius) + turn(
            pt(ps - cw, y),
            pt(ps, y - radius),
            pt(ps, y),
            radius,
        )
    } else {
        let cw = curve_width(ps, s, radius);
        turn(pt(s, y + radius), pt(s - cw, y), pt(s, y), radius) + turn(
            pt(ps + cw, y),
            pt(ps, y - radius),
            pt(ps, y),
            radius,
        )
    }
}

/// The left edge from the last row up to row `k`, less the top corner.
pub open spec fn left_steps(
    lines: Seq<HighlightedRangeLine>,
    start_y: int,
    line_height: int,
    radius: int,
    k: int,
) -> Seq<PathSegment>
    decreases lines.len() - k,
{
    if k < 1 || k >= lines.len() {
        seq![]
    } else {
        left_steps(lines, start_y, line_height, radius, k + 1) + left_step(
            lines,
            start_y,
            line_height,
            radius,
            k,
        )
    }
}

pub open spec fn top_curve_width(lines: Seq<HighlightedRangeLine>, radius: int) -> int {
    curve_width(lines[0].start_x as int, lines[0].end_x as int, radius)
}

/// The top-left corner and the top edge back to the start.
pub open spec fn close(lines: Seq<HighlightedRangeLine>, start_y: int, radius: int) -> Seq<
    PathSegment,
> {
    let s = lines[0].start_x as int;
    let e = lines[0].end_x as int;
    let tcw = top_curve_width(lines, radius);
    turn(pt(s, start_y + radius), pt(s + tcw, start_y), pt(s, start_y), radius) + seq![
        PathSegment::LineTo(pt(e - tcw, start_y)),
    ]
}

pub open spec fn outline_start(lines: Seq<HighlightedRangeLine>, start_y: int, radius: int) -> PathPoint {
    pt(lines[0].end_x - top_curve_width(lines, radius), start_y)
}

/// The outline of a stack of row spans: the top-right corner, the right edge
/// down, the bottom corners, the left edge up, the top-left corner.
pub open spec fn outline_segments(
    lines: Seq<HighlightedRangeLine>,
    start_y: int,
    line_height: int,
    radius: int,
) -> Seq<PathSegment> {
    let n = lines.len() as int;
    let e = lines[0].end_x as int;
    seq![PathSegment::CurveTo { to: pt(e, start_y + radius), control: pt(e, start_y) }]
        + right_steps(lines, start_y, line_height, radius, n - 1) + bottom(
        lines,
        start_y,
        line_height,
        radius,
    ) + left_steps(lines, start_y, line_height, radius, 1) + close(lines, start_y, radius)
}

pub open spec fn spans_fit(lines: Seq<HighlightedRangeLine>) -> bool {
    &&& lines.len() <= MAX_ROWS
    &&& forall|i: int|
        0 <= i < lines.len() ==> -MAX_COORD <= (#[trigger] lines[i]).start_x <= lines[i].end_x
            <= MAX_COORD
}

pub open spec fn path_is(p: HighlightPath, lines: Seq<HighlightedRangeLine>, start_y: int, line_height: int, radius: int) -> bool {
    &&& p.start == outline_start(lines, start_y, radius)
    &&& p.segments@ == outline_segments(lines, start_y, line_height, radius)
}

/// Two stacked rows with the same span are outlined as one rectangle: a
/// single path, whose right edge drops straight past the row boundary and
/// whose left edge rises straight past it, so no fill overlaps another.
pub proof fn lemma_equal_rows_one_rectangle(
    lines: Seq<HighlightedRangeLine>,
    start_y: int,
    line_height: int,
    radius: int,
)
    requires
        lines.len() == 2,
        lines[0] == lines[1],
        lines[0].start_x <= lines[0].end_x,
    ensures
        !(lines[0].start_x > lines[1].end_x),
        outline_segments(lines, start_y, line_height, radius) == seq![
            PathSegment::CurveTo {
                to: pt(lines[0].end_x as int, start_y + radius),
                control: pt(lines[0].end_x as int, start_y),
            },
            PathSegment::LineTo(pt(lines[0].end_x as int, start_y + line_height)),
        ] + bottom(lines, start_y, line_height, radius) + seq![
            PathSegment::LineTo(pt(lines[1].start_x as int, start_y + line_height)),
        ] + close(lines, start_y, radius),
{
    assert(right_steps(lines, start_y, line_height, radius, 0) =~= seq![]);
    assert(right_steps(lines, start_y, line_height, radius, 1) =~= seq![
        PathSegment::LineTo(pt(lines[0].end_x as int, start_y + line_height)),
    ]);
    assert(left_steps(lines, start_y, line_height, radius, 2) =~= seq![]);
    assert(left_steps(lines, start_y, line_height, radius, 1) =~= seq![
        PathSegment::LineTo(pt(lines[1].start_x as int, start_y + line_height)),
    ]);
    assert(outline_segments(lines, start_y, line_height, radius) =~= seq![
        PathSegment::CurveTo {
            to: pt(lines[0].end_x as int, start_y + radius),
            control: pt(lines[0].end_x as int, start_y),
        },
        PathSegment::LineTo(pt(lines[0].end_x as int, start_y + line_height)),
    ] + bottom(lines, start_y, line_height, radius) + seq![
        PathSegment::LineTo(pt(lines[1].start_x as int, start_y + line_height)),
    ] + close(lines, start_y, radius));
}

impl HighlightedRange {
    pub open spec fn fits(&self) -> bool {
        &&& spans_fit(self.lines@)
        &&& -MAX_COORD <= self.start_y <= MAX_COORD
        &&& 0 <= self.line_height <= MAX_ROWS
        &&& 0 <= self.corner_radius <= MAX_COORD
    }

    /// The outlines to fill: none for no rows; two where the first row starts
    /// right of where the second ends, so that no outline crosses itself;
    /// else one around all rows.
    pub fn paths(&self) -> (r: Vec<HighlightPath>)
        requires
            self.fits(),
        ensures
            ({
                let lines = self.lines@;
                let n = lines.len();
                let (y, h, rad) = (
                    self.start_y as int,
                    self.line_height as int,
                    self.corner_radius as int,
                );
                if n == 0 {
                    r@.len() == 0
                } else if n >= 2 && lines[0].start_x > lines[1].end_x {
                    &&& r@.len() == 2
                    &&& path_is(r@[0], lines.subrange(0, 1), y, h, rad)
                    &&& path_is(r@[1], lines.subrange(1, n as int), y + h, h, rad)
                } else {
                    &&& r@.len() == 1
                    &&& path_is(r@[0], lines, y, h, rad)
                }
            }),
    {
        let mut paths: Vec<HighlightPath> = Vec::new();
        let n = self.lines.len();
        if n == 0 {
            return paths;
        }
        if n >= 2 && self.lines[0].start_x > self.lines[1].end_x {
            paths.push(self.outline(self.start_y, 0, 1));
            paths.push(self.outline(self.start_y + self.line_height, 1, n));
        } else {
            assert(self.lines@.subrange(0, n as int) =~= self.lines@);
            paths.push(self.outline(self.start_y, 0, n));
        }
        paths
    }

    /// The outline of rows `from..to`, the first of them at `start_y`.
    fn outline(&self, start_y: i64, from: usize, to: usize) -> (r: HighlightPath)
        requires
            self.fits(),
            from < to <= self.lines@.len(),
            -2 * MAX_COORD <= start_y <= 2 * MAX_COORD,
        ensures
            path_is(
                r,
                self.lines@.subrange(from as int, to as int),
                start_y as int,
                self.line_height as int,
                self.corner_radius as int,
            ),
    {
        let ghost lines = self.lines@.subrange(from as int, to as int);
        let radius = self.corner_radius;
        let lh = self.line_height;
        let n = to - from;
        let first = self.lines[from];
        let last = self.lines[to - 1];
        let top_cw = corner_width(first.start_x, first.end_x, radius);
        let start = PathPoint { x: first.end_x - top_cw, y: start_y };
        let mut segments: Vec<PathSegment> = Vec::new();
        segments.push(
            PathSegment::CurveTo {
                to: PathPoint { x: first.end_x, y: start_y + radius },
                control: PathPoint { x: first.end_x, y: start_y },
            },
        );
        let ghost head = segments@;
        // The right edge, top to bottom.
        let mut i: usize = 0;
        while i + 1 < n
            invariant
                self.fits(),
                from < to <= self.lines@.len(),
                n == to - from,
                lines == self.lines@.subrange(from as int, to as int),
                -2 * MAX_COORD <= start_y <= 2 * MAX_COORD,
                radius == self.corner_radius,
                lh == self.line_height,
                i < n,
                segments@ == head + right_steps(lines, start_y as int, lh as int, radius as int, i as int),
            decreases n - i,
        {
            let y = start_y + row_offset(i + 1, lh);
            let x = self.lines[from + i].end_x;
            let nx = self.lines[from + i + 1].end_x;
            assert(lines[i as int] == self.lines@[(from + i) as int]);
            assert(lines[i + 1] == self.lines@[(from + i + 1) as int]);
            match edge_transition(x, nx) {
                EdgeTransition::Straight => {
                    segments.push(PathSegment::LineTo(PathPoint { x, y }));
                },
                EdgeTransition::Inward => {
                    let cw = corner_width(nx, x, radius);
                    push_turn(
                        &mut segments,
                        PathPoint { x, y: y - radius },
                        PathPoint { x: x - cw, y },
                        PathPoint { x, y },
                        radius,
                    );
                    push_turn(
                        &mut segments,
                        PathPoint { x: nx + cw, y },
                        PathPoint { x: nx, y: y + radius },
                        PathPoint { x: nx, y },
                        radius,
                    );
                },
                EdgeTransition::Outward => {
                    let cw = corner_width(x, nx, radius);
                    push_turn(
                        &mut segments,
                        PathPoint { x, y: y - radius },
                        PathPoint { x: x + cw, y },
                        PathPoint { x, y },
                        radius,
                    );
                    push_turn(
                        &mut segments,
                        PathPoint { x: nx - cw, y },
                        PathPoint { x: nx, y: y + radius },
                        PathPoint { x: nx, y },
                        radius,
                    );
                },
            }
            i = i + 1;
        }
        // The bottom corners of the last row.
        let y = start_y + row_offset(n, lh);
        let cw = corner_width(last.start_x, last.end_x, radius);
        push_turn(
            &mut segments,
            PathPoint { x: last.end_x, y: y - radius },
            PathPoint { x: last.end_x - cw, y },
            PathPoint { x: last.end_x, y },
            radius,
        );
        push_turn(
            &mut segments,
            PathPoint { x: last.start_x + cw, y },
            PathPoint { x: last.start_x, y: y - radius },
            PathPoint { x: last.start_x, y },
            radius,
        );
        let ghost middle = segments@;
        assert(lines[0] == first);
        assert(lines[n - 1] == last);
        assert(middle == head + right_steps(lines, start_y as int, lh as int, radius as int, n - 1)
            + bottom(lines, start_y as int, lh as int, radius as int));
        // The left edge, bottom to top.
        let mut k: usize = n;
        while k > 1
            invariant
                self.fits(),
                from < to <= self.lines@.len(),
                n == to - from,
                lines == self.lines@.subrange(from as int, to as int),
                -2 * MAX_COORD <= start_y <= 2 * MAX_COORD,
                radius == self.corner_radius,
                lh == self.line_height,
                1 <= k <= n,
                segments@ == middle + left_steps(lines, start_y as int, lh as int, radius as int, k as int),
            decreases k,
        {
            k = k - 1;
            let y = start_y + row_offset(k, lh);
            let s = self.lines[from + k].start_x;
            let ps = self.lines[from + k - 1].start_x;
            assert(lines[k as int] == self.lines@[(from + k) as int]);
            assert(lines[k - 1] == self.lines@[(from + k - 1) as int]);
            if ps == s {
                segments.push(PathSegment::LineTo(PathPoint { x: s, y }));
            } else if ps > s {
                let cw = corner_width(s, ps, radius);
                push_turn(
                    &mut segments,
                    PathPoint { x: s, y: y + radius },
                    PathPoint { x: s + cw, y },
                    PathPoint { x: s, y },
                    radius,
                );
                push_turn(
                    &mut segments,
                    PathPoint { x: ps - cw, y },
                    PathPoint { x: ps, y: y - radius },
                    PathPoint { x: ps, y },
                    radius,
                );
            } else {
                let cw = corner_width(ps, s, radius);
                push_turn(
                    &mut segments,
                    PathPoint { x: s, y: y + radius },
                    PathPoint { x: s - cw, y },
                    PathPoint { x: s, y },
                    radius,
                );
                push_turn(
                    &mut segments,
                    PathPoint { x: ps + cw, y },
                    PathPoint { x: ps, y: y - radius },
                    PathPoint { x: ps, y },
                    radius,
                );
            }
        }
        // The top-left corner and the top edge.
        push_turn(
            &mut segments,
            PathPoint { x: first.start_x, y: start_y + radius },
            PathPoint { x: first.start_x + top_cw, y: start_y },
            PathPoint { x: first.start_x, y: start_y },
            radius,
        );
        segments.push(PathSegment::LineTo(start));
        assert(segments@ =~= outline_segments(lines, start_y as int, lh as int, radius as int));
        HighlightPath { start, segments }
    }
}

/// The width of a corner on a step from `a` to `b`, as `curve_width` says.
fn corner_width(a: i64, b: i64, radius: i64) -> (r: i64)
    requires
        -MAX_COORD <= a <= b <= MAX_COORD,
        0 <= radius,
    ensures
        r == curve_width(a as int, b as int, radius as int),
        0 <= r <= radius,
        2 * r <= b - a,
{
    let half = (b - a) / 2;
    if half < radius {
        half
    } else {
        radius
    }
}

/// How far below the first row the top of row `i` lies.
fn row_offset(i: usize, line_height: i64) -> (r: i64)
    requires
        i <= MAX_ROWS,
        0 <= line_height <= MAX_ROWS,
    ensures
        r == i * line_height,
        0 <= r <= MAX_COORD,
{
    proof {
        lemma_row_offset_bound(i as int, line_height as int);
    }
    (i as i64) * line_height
}

proof fn lemma_row_offset_bound(i: int, h: int)
    requires
        0 <= i <= MAX_ROWS,
        0 <= h <= MAX_ROWS,
    ensures
        0 <= i * h <= MAX_COORD,
{
    assert(0 <= i * h <= MAX_ROWS * MAX_ROWS) by (nonlinear_arith)
        requires
            0 <= i <= MAX_ROWS,
            0 <= h <= MAX_ROWS,
    ;
}

fn push_turn(
    path: &mut Vec<PathSegment>,
    corner: PathPoint,
    to: PathPoint,
    control: PathPoint,
    radius: i64,
)
    ensures
        final(path)@ == old(path)@ + turn(corner, to, control, radius as int),
{
    path.push(PathSegment::LineTo(corner));
    if radius > 0 {
        path.push(PathSegment::CurveTo { to, control });
    }
    proof {
        assert(final(path)@ =~= old(path)@ + turn(corner, to, control, radius as int));
    }
}

} // verus!
