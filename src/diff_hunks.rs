//! Version-control change markers in the gutter: the hunks shown for the
//! visible rows, with repeats merged, and the box each is drawn in.

use vstd::prelude::*;
use crate::cursor::Rect;
use crate::highlight::{MAX_COORD, MAX_ROWS};

verus! {

#[derive(Debug, Clone, Copy, PartialEq, Eq, Structural)]
pub enum DiffHunkStatus {
    Added,
    Modified,
    Removed,
}

/// A changed region as the display shows it: inside a fold, one row; else
/// its display rows `start_row..end_row`.
#[derive(Debug, Clone, Copy, PartialEq, Eq, Structural)]
pub enum DisplayDiffHunk {
    Folded { display_row: u32 },
    Unfolded { start_row: u32, end_row: u32, status: DiffHunkStatus },
}

/// A sequence with each run of equal neighbours cut to its first item.
pub open spec fn dedup_runs<T>(s: Seq<T>) -> Seq<T>
    decreases s.len(),
{
    if s.len() <= 1 {
        s
    } else if s.last() == s[s.len() - 2] {
        dedup_runs(s.drop_last())
    } else {
        dedup_runs(s.drop_last()).push(s.last())
    }
}

/// Relies on `itertools::Itertools::dedup`, which removes each item equal to
/// the one before it, here over integer triples compared by `==`.
#[verifier::external_body]
fn dedup_keys(keys: Vec<(u8, u32, u32)>) -> (r: Vec<(u8, u32, u32)>)
    ensures
        r@ == dedup_runs(keys@),
{
    itertools::Itertools::dedup(keys.into_iter()).collect()
}

pub open spec fn status_code(s: DiffHunkStatus) -> u8 {
    match s {
        DiffHunkStatus::Added => 1,
        DiffHunkStatus::Modified => 2,
        DiffHunkStatus::Removed => 3,
    }
}

/// A hunk written as integers, one for one.
pub open spec fn hunk_key(h: DisplayDiffHunk) -> (u8, u32, u32) {
    match h {
        DisplayDiffHunk::Folded { display_row } => (0, display_row, 0),
        DisplayDiffHunk::Unfolded { start_row, end_row, status } => (
            status_code(status),
            start_row,
            end_row,
        ),
    }
}

pub open spec fn hunk_of_key(k: (u8, u32, u32)) -> DisplayDiffHunk {
    if k.0 == 0 {
        DisplayDiffHunk::Folded { display_row: k.1 }
    } else {
        DisplayDiffHunk::Unfolded {
            start_row: k.1,
            end_row: k.2,
            status: if k.0 == 1 {
                DiffHunkStatus::Added
            } else if k.0 == 2 {
                DiffHunkStatus::Modified
            } else {
                DiffHunkStatus::Removed
            },
        }
    }
}

fn key_of(h: DisplayDiffHunk) -> (r: (u8, u32, u32))
    ensures
        r == hunk_key(h),
{
    match h {
        DisplayDiffHunk::Folded { display_row } => (0, display_row, 0),
        DisplayDiffHunk::Unfolded { start_row, end_row, status } => {
            let code: u8 = match status {
                DiffHunkStatus::Added => 1,
                DiffHunkStatus::Modified => 2,
                DiffHunkStatus::Removed => 3,
            };
            (code, start_row, end_row)
        },
    }
}

fn hunk_from(k: (u8, u32, u32)) -> (r: DisplayDiffHunk)
    ensures
        r == hunk_of_key(k),
{
    if k.0 == 0 {
        DisplayDiffHunk::Folded { display_row: k.1 }
    } else {
        let status = if k.0 == 1 {
            DiffHunkStatus::Added
        } else if k.0 == 2 {
            DiffHunkStatus::Modified
        } else {
            DiffHunkStatus::Removed
        };
        DisplayDiffHunk::Unfolded { start_row: k.1, end_row: k.2, status }
    }
}

proof fn lemma_key_round_trip(h: DisplayDiffHunk)
    ensures
        hunk_of_key(hunk_key(h)) == h,
{
}

proof fn lemma_dedup_through_keys(s: Seq<DisplayDiffHunk>)
    ensures
        dedup_runs(s.map_values(|h: DisplayDiffHunk| hunk_key(h))).map_values(
            |k: (u8, u32, u32)| hunk_of_key(k),
        ) == dedup_runs(s),
    decreases s.len(),
{
    let keys = s.map_values(|h: DisplayDiffHunk| hunk_key(h));
    if s.len() <= 1 {
        assert forall|i: int| 0 <= i < s.len() implies hunk_of_key(keys[i]) == s[i] by {
            lemma_key_round_trip(s[i]);
        }
        assert(keys.map_values(|k: (u8, u32, u32)| hunk_of_key(k)) =~= s);
    } else {
        lemma_dedup_through_keys(s.drop_last());
        assert(keys.drop_last() =~= s.drop_last().map_values(|h: DisplayDiffHunk| hunk_key(h)));
        lemma_key_round_trip(s.last());
        lemma_key_round_trip(s[s.len() - 2]);
        let d = dedup_runs(keys.drop_last());
        if keys.last() != keys[keys.len() - 2] {
            assert(d.push(keys.last()).map_values(|k: (u8, u32, u32)| hunk_of_key(k)) =~= d.map_values(
                |k: (u8, u32, u32)| hunk_of_key(k),
            ).push(hunk_of_key(keys.last())));
        }
    }
}

/// The hunks with each run of equal neighbours cut to its first.
pub fn dedup_hunks(hunks: &Vec<DisplayDiffHunk>) -> (r: Vec<DisplayDiffHunk>)
    ensures
        r@ == dedup_runs(hunks@),
{
    let mut keys: Vec<(u8, u32, u32)> = Vec::new();
    let mut i: usize = 0;
    while i < hunks.len()
        invariant
            i <= hunks@.len(),
            keys@ == hunks@.subrange(0, i as int).map_values(|h: DisplayDiffHunk| hunk_key(h)),
        decreases hunks@.len() - i,
    {
        keys.push(key_of(hunks[i]));
        i = i + 1;
        assert(keys@ =~= hunks@.subrange(0, i as int).map_values(|h: DisplayDiffHunk| hunk_key(h)));
    }
    assert(hunks@.subrange(0, hunks@.len() as int) =~= hunks@);
    let merged = dedup_keys(keys);
    let mut result: Vec<DisplayDiffHunk> = Vec::new();
    let mut j: usize = 0;
    while j < merged.len()
        invariant
            j <= merged@.len(),
            result@ == merged@.subrange(0, j as int).map_values(|k: (u8, u32, u32)| hunk_of_key(k)),
        decreases merged@.len() - j,
    {
        result.push(hunk_from(merged[j]));
        j = j + 1;
        assert(result@ =~= merged@.subrange(0, j as int).map_values(|k: (u8, u32, u32)| hunk_of_key(k)));
    }
    proof {
        assert(merged@.subrange(0, merged@.len() as int) =~= merged@);
        lemma_dedup_through_keys(hunks@);
    }
    result
}

/// The box of a change marker and the radius of its corners.
#[derive(Debug, Clone, Copy, PartialEq, Eq, Structural)]
pub struct HunkMarker {
    pub bounds: Rect,
    pub corner_radius: i64,
    pub status: Option<DiffHunkStatus>,
}

/// Half the width of a marker: eleven fortieths of a row, straddling the
/// gutter's edge.
pub open spec fn marker_half_width(line_height: int) -> int {
    11 * line_height / 40
}

/// Where a hunk's marker is drawn, with the gutter's edge at `origin_x`,
/// its top at `origin_y`, and the content scrolled down by `scroll_top`. A
/// folded hunk gets a round marker on its row; a removal one on the
/// boundary above its row, a row tall; an addition or a change a slightly
/// rounded bar over its rows. The status is none for a folded hunk.
pub fn hunk_marker(
    hunk: DisplayDiffHunk,
    line_height: i64,
    scroll_top: i64,
    origin_x: i64,
    origin_y: i64,
) -> (r: HunkMarker)
    requires
        0 < line_height <= MAX_ROWS,
        0 <= scroll_top <= MAX_COORD,
        -MAX_COORD <= origin_x <= MAX_COORD,
        -MAX_COORD <= origin_y <= MAX_COORD,
    ensures
        ({
            let half = marker_half_width(line_height as int);
            let (top, height, radius, status) = match hunk {
                DisplayDiffHunk::Folded { display_row } => (
                    display_row * line_height - scroll_top,
                    line_height as int,
                    line_height as int,
                    None,
                ),
                DisplayDiffHunk::Unfolded { start_row, end_row, status } => match status {
                    DiffHunkStatus::Removed => (
                        start_row * line_height - line_height / 2 - scroll_top,
                        line_height as int,
                        line_height as int,
                        Some(status),
                    ),
                    _ => (
                        start_row * line_height - scroll_top,
                        (end_row - start_row) * line_height,
                        line_height / 20,
                        Some(status),
                    ),
                },
            };
            &&& r.bounds == Rect {
                x: (origin_x - half) as i64,
                y: (origin_y + top) as i64,
                width: (2 * half) as i64,
                height: height as i64,
            }
            &&& r.corner_radius == radius
            &&& r.status == status
        }),
{
    let half = 11 * line_height / 40;
    match hunk {
        DisplayDiffHunk::Folded { display_row } => {
            let top = row_top(display_row, line_height);
            HunkMarker {
                bounds: Rect {
                    x: origin_x - half,
                    y: origin_y + top - scroll_top,
                    width: 2 * half,
                    height: line_height,
                },
                corner_radius: line_height,
                status: None,
            }
        },
        DisplayDiffHunk::Unfolded { start_row, end_row, status } => {
            let top = row_top(start_row, line_height);
            match status {
                DiffHunkStatus::Removed => HunkMarker {
                    bounds: Rect {
                        x: origin_x - half,
                        y: origin_y + top - line_height / 2 - scroll_top,
                        width: 2 * half,
                        height: line_height,
                    },
                    corner_radius: line_height,
                    status: Some(status),
                },
                _ => {
                    let bottom = row_top(end_row, line_height);
                    assert(bottom - top == (end_row - start_row) * line_height) by (nonlinear_arith)
                        requires
                            bottom == end_row * line_height,
                            top == start_row * line_height,
                    ;
                    HunkMarker {
                        bounds: Rect {
                            x: origin_x - half,
                            y: origin_y + top - scroll_top,
                            width: 2 * half,
                            height: bottom - top,
                        },
                        corner_radius: line_height / 20,
                        status: Some(status),
                    }
                },
            }
        },
    }
}

/// The top of display row `row`, below the first row.
fn row_top(row: u32, line_height: i64) -> (r: i64)
    requires
        0 < line_height <= MAX_ROWS,
    ensures
        r == row * line_height,
        0 <= r <= (u32::MAX as int) * MAX_ROWS,
{
    proof {
        assert(0 <= row * line_height <= (u32::MAX as int) * MAX_ROWS) by (nonlinear_arith)
            requires
                0 <= row <= u32::MAX,
                0 < line_height <= MAX_ROWS,
        ;
    }
    (row as i64) * line_height
}

} // verus!
