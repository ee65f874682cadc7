//! Line numbers in the gutter: distances from a reference row counted in
//! buffer lines, and the width that the largest number needs.

use vstd::prelude::*;
use crate::display::{DisplayLines, DisplayRow, RowKind};
use std::collections::HashMap;
use std::ops::Range;

verus! {

broadcast use vstd::std_specs::hash::group_hash_axioms;

/// How many rows in `a..b` start a buffer line.
pub open spec fn count_lines(rows: Seq<DisplayRow>, a: int, b: int) -> int
    decreases b - a,
{
    if b <= a {
        0
    } else {
        count_lines(rows, a, b - 1) + if rows[b - 1].kind is Line {
            1int
        } else {
            0
        }
    }
}

/// The row that starts the line which holds row `h`, searched no higher than
/// `floor`; `floor` itself where none lies between.
pub open spec fn line_anchor(rows: Seq<DisplayRow>, floor: int, h: int) -> int
    decreases h - floor,
{
    if h <= floor || rows[h].kind is Line {
        h
    } else {
        line_anchor(rows, floor, h - 1)
    }
}

/// The number shown beside row `k` when line numbers count from `target`
/// over the window `lo..hi`, or `None` where none is shown. Only rows that
/// start a buffer line get one; rows below count the lines after the target
/// row, rows above the lines before the target's line, which gets none.
pub open spec fn relative_number(rows: Seq<DisplayRow>, lo: int, hi: int, target: int, k: int) -> Option<int> {
    let start = if lo <= target {
        lo
    } else {
        target
    };
    let end = if hi >= target {
        hi
    } else {
        target
    };
    let limit = if end + 1 <= rows.len() {
        end + 1
    } else {
        rows.len() as int
    };
    let h = if target <= limit - 1 {
        target
    } else {
        limit - 1
    };
    let anchor = line_anchor(rows, start, h);
    if !(lo <= k < hi) || k >= limit || !(rows[k].kind is Line) {
        None
    } else if k > target {
        Some(count_lines(rows, target + 1, k + 1))
    } else if k < anchor {
        Some(count_lines(rows, k, anchor))
    } else {
        None
    }
}

proof fn lemma_count_lines_step(rows: Seq<DisplayRow>, a: int, b: int)
    requires
        a <= b,
    ensures
        count_lines(rows, a, b + 1) == count_lines(rows, a, b) + if rows[b].kind is Line {
            1int
        } else {
            0
        },
{
}

proof fn lemma_count_lines_front(rows: Seq<DisplayRow>, a: int, b: int)
    requires
        a < b,
    ensures
        count_lines(rows, a, b) == count_lines(rows, a + 1, b) + if rows[a].kind is Line {
            1int
        } else {
            0
        },
    decreases b - a,
{
    if a + 1 < b {
        lemma_count_lines_front(rows, a, b - 1);
    } else {
        assert(count_lines(rows, a, a) == 0);
        assert(count_lines(rows, a + 1, b) == 0);
    }
}

proof fn lemma_count_lines_split(rows: Seq<DisplayRow>, a: int, b: int, c: int)
    requires
        a <= b <= c,
    ensures
        count_lines(rows, a, c) == count_lines(rows, a, b) + count_lines(rows, b, c),
    decreases c - b,
{
    if b < c {
        lemma_count_lines_split(rows, a, b, c - 1);
    }
}

proof fn lemma_count_lines_bound(rows: Seq<DisplayRow>, a: int, b: int)
    requires
        a <= b,
    ensures
        0 <= count_lines(rows, a, b) <= b - a,
    decreases b - a,
{
    if a < b {
        lemma_count_lines_bound(rows, a, b - 1);
    }
}

proof fn lemma_anchor_facts(rows: Seq<DisplayRow>, floor: int, h: int)
    requires
        floor <= h,
    ensures
        floor <= line_anchor(rows, floor, h) <= h,
        count_lines(rows, line_anchor(rows, floor, h) + 1, h + 1) == 0,
        line_anchor(rows, floor, h) > floor ==> rows[line_anchor(rows, floor, h)].kind is Line,
    decreases h - floor,
{
    if !(h <= floor || rows[h].kind is Line) {
        lemma_anchor_facts(rows, floor, h - 1);
        lemma_count_lines_step(rows, line_anchor(rows, floor, h) + 1, h);
    }
}

/// The index of the buffer line that holds row `k`: how many rows at or
/// above it start a line, less one.
pub open spec fn line_index(rows: Seq<DisplayRow>, k: int) -> int {
    count_lines(rows, 0, k + 1) - 1
}

/// Each number shown beside a row is the distance in buffer lines between
/// that row's line and the reference row's line, and the reference row shows
/// none.
pub proof fn lemma_relative_number_is_line_distance(
    rows: Seq<DisplayRow>,
    lo: int,
    hi: int,
    target: int,
    k: int,
)
    requires
        0 <= lo,
        0 <= target < rows.len(),
        0 <= k,
    ensures
        relative_number(rows, lo, hi, target, target) is None,
        relative_number(rows, lo, hi, target, k) matches Some(d) ==> d == if line_index(rows, k)
            >= line_index(rows, target) {
            line_index(rows, k) - line_index(rows, target)
        } else {
            line_index(rows, target) - line_index(rows, k)
        },
{
    let start = if lo <= target {
        lo
    } else {
        target
    };
    lemma_anchor_facts(rows, start, target);
    let anchor = line_anchor(rows, start, target);
    if relative_number(rows, lo, hi, target, k) is Some {
        if k > target {
            lemma_count_lines_split(rows, 0, target + 1, k + 1);
            lemma_count_lines_bound(rows, target + 1, k + 1);
        } else {
            lemma_count_lines_split(rows, 0, anchor, anchor + 1);
            lemma_count_lines_split(rows, 0, anchor + 1, target + 1);
            lemma_count_lines_split(rows, 0, k, k + 1);
            lemma_count_lines_split(rows, 0, k, anchor);
            lemma_count_lines_bound(rows, k, anchor);
        }
    }
}

/// For each row of `rows` that starts a buffer line, its distance in buffer
/// lines from `relative_to`, as `relative_number` says; nothing without a
/// reference row.
pub fn calculate_relative_line_numbers(
    map: &DisplayLines,
    rows: &Range<u32>,
    relative_to: Option<u32>,
) -> (r: HashMap<u32, u32>)
    requires
        map.wf(),
        relative_to matches Some(t) ==> rows.start < map.rows@.len() || t < map.rows@.len(),
    ensures
        relative_to is None ==> r@ == Map::<u32, u32>::empty(),
        relative_to matches Some(t) ==> forall|k: u32|
            #![trigger r@.contains_key(k)]
            {
                let d = relative_number(map.rows@, rows.start as int, rows.end as int, t as int, k as int);
                &&& r@.contains_key(k) <==> d is Some
                &&& r@.contains_key(k) ==> r@[k] == d->0
            },
{
    let mut relative_rows: HashMap<u32, u32> = HashMap::new();
    let target = match relative_to {
        None => {
            return relative_rows;
        },
        Some(t) => t,
    };
    let ghost lines = map.rows@;
    let ghost lo = rows.start as int;
    let ghost hi = rows.end as int;
    let start = if rows.start <= target {
        rows.start
    } else {
        target
    };
    let end = if rows.end >= target {
        rows.end
    } else {
        target
    };
    let n = map.rows.len() as u32;
    let limit = if end < n {
        end + 1
    } else {
        n
    };
    let h = if target <= limit - 1 {
        target
    } else {
        limit - 1
    };
    // Rows below the reference row.
    let mut delta: u32 = 1;
    let mut i: u32 = h + 1;
    while i < limit
        invariant
            map.wf(),
            lines == map.rows@,
            lo == rows.start,
            hi == rows.end,
            start == if rows.start <= target { rows.start as int } else { target as int },
            end == if rows.end >= target { rows.end as int } else { target as int },
            limit == if end + 1 <= lines.len() { end + 1 } else { lines.len() as int },
            h == if target <= limit - 1 { target as int } else { limit - 1 },
            limit <= lines.len(),
            h <= target,
            h < limit,
            target < limit ==> h == target,
            h + 1 <= i <= limit,
            target < limit ==> delta == 1 + count_lines(lines, target + 1, i as int),
            target >= limit ==> i == limit,
            forall|k: u32|
                #![trigger relative_rows@.contains_key(k)]
                relative_rows@.contains_key(k) <==> (relative_number(lines, lo, hi, target as int, k as int) is Some && target < k < i),
            forall|k: u32|
                #![trigger relative_rows@.contains_key(k)]
                relative_rows@.contains_key(k) ==> relative_rows@[k] == relative_number(lines, lo, hi, target as int, k as int)->0,
        decreases limit - i,
    {
        proof {
            lemma_count_lines_step(lines, target + 1, i as int);
            lemma_count_lines_bound(lines, target + 1, i as int);
            let d = relative_number(lines, lo, hi, target as int, i as int);
            if lines[i as int].kind is Line && lo <= i < hi {
                assert(d == Some(delta as int));
            } else {
                assert(d is None);
            }
        }
        if matches!(map.rows[i as usize].kind, RowKind::Line(_)) {
            if rows.start <= i && i < rows.end {
                relative_rows.insert(i, delta);
            }
            delta = delta + 1;
        }
        i = i + 1;
    }
    // Rows above the reference row's line.
    let mut i: u32 = h;
    while i > start && !matches!(map.rows[i as usize].kind, RowKind::Line(_))
        invariant
            map.wf(),
            lines == map.rows@,
            lo == rows.start,
            hi == rows.end,
            start == if rows.start <= target { rows.start as int } else { target as int },
            end == if rows.end >= target { rows.end as int } else { target as int },
            limit == if end + 1 <= lines.len() { end + 1 } else { lines.len() as int },
            h == if target <= limit - 1 { target as int } else { limit - 1 },
            start <= i <= h < limit <= lines.len(),
            line_anchor(lines, start as int, h as int) == line_anchor(lines, start as int, i as int),
        decreases i,
    {
        i = i - 1;
    }
    let ghost anchor = i as int;
    let mut delta: u32 = 1;
    while i > start
        invariant
            map.wf(),
            lines == map.rows@,
            lo == rows.start,
            hi == rows.end,
            start == if rows.start <= target { rows.start as int } else { target as int },
            end == if rows.end >= target { rows.end as int } else { target as int },
            limit == if end + 1 <= lines.len() { end + 1 } else { lines.len() as int },
            h == if target <= limit - 1 { target as int } else { limit - 1 },
            start <= i <= anchor <= h < limit <= lines.len(),
            anchor == line_anchor(lines, start as int, h as int),
            delta == 1 + count_lines(lines, i as int, anchor),
            forall|k: u32|
                #![trigger relative_rows@.contains_key(k)]
                relative_rows@.contains_key(k) <==> (relative_number(lines, lo, hi, target as int, k as int) is Some && (k > target || i <= k < anchor)),
            forall|k: u32|
                #![trigger relative_rows@.contains_key(k)]
                relative_rows@.contains_key(k) ==> relative_rows@[k] == relative_number(lines, lo, hi, target as int, k as int)->0,
        decreases i,
    {
        proof {
            lemma_count_lines_front(lines, i - 1, anchor);
            lemma_count_lines_bound(lines, i - 1, anchor);
            let d = relative_number(lines, lo, hi, target as int, i - 1);
            if lines[i - 1].kind is Line && lo <= i - 1 < hi {
                assert(d == Some(delta as int));
            } else {
                assert(d is None);
            }
        }
        i = i - 1;
        if matches!(map.rows[i as usize].kind, RowKind::Line(_)) {
            if rows.start <= i && i < rows.end {
                relative_rows.insert(i, delta);
            }
            delta = delta + 1;
        }
    }
    relative_rows
}

/// The number shown beside row `k` of the window `lo..hi`: for a row that
/// starts a buffer line, its distance from the reference row where one is
/// given and shows one, else the line's number counted from one; nothing
/// for other rows.
pub open spec fn line_number_label(
    rows: Seq<DisplayRow>,
    lo: int,
    hi: int,
    relative_to: Option<u32>,
    k: int,
) -> Option<int> {
    match rows[k].kind {
        RowKind::Line(b) => Some(
            match relative_to {
                Some(t) => match relative_number(rows, lo, hi, t as int, k) {
                    Some(d) => d,
                    None => b + 1,
                },
                None => b + 1,
            },
        ),
        _ => None,
    }
}

/// The numbers beside the rows `rows` that the snapshot has, top to bottom.
pub fn line_number_labels(map: &DisplayLines, rows: &Range<u32>, relative_to: Option<u32>) -> (r: Vec<
    Option<u64>,
>)
    requires
        map.wf(),
    ensures
        r@.len() == if rows.start >= map.rows@.len() {
            0
        } else if rows.end <= map.rows@.len() {
            if rows.start <= rows.end {
                rows.end - rows.start
            } else {
                0
            }
        } else {
            map.rows@.len() - rows.start
        },
        forall|i: int|
            0 <= i < r@.len() ==> match #[trigger] r@[i] {
                Some(v) => line_number_label(
                    map.rows@,
                    rows.start as int,
                    rows.end as int,
                    relative_to,
                    rows.start + i,
                ) == Some(v as int),
                None => line_number_label(
                    map.rows@,
                    rows.start as int,
                    rows.end as int,
                    relative_to,
                    rows.start + i,
                ) is None,
            },
{
    let n = map.rows.len() as u32;
    if rows.start >= n {
        return Vec::new();
    }
    let relative = calculate_relative_line_numbers(map, rows, relative_to);
    let end = if rows.end <= n {
        rows.end
    } else {
        n
    };
    let mut labels: Vec<Option<u64>> = Vec::new();
    let mut row = rows.start;
    while row < end
        invariant
            map.wf(),
            n == map.rows@.len(),
            rows.start <= row,
            row <= if rows.start <= end { end } else { rows.start },
            end <= n,
            end == if rows.end <= n { rows.end } else { n },
            labels@.len() == row - rows.start,
            relative_to is None ==> relative@ == Map::<u32, u32>::empty(),
            relative_to matches Some(t) ==> forall|k: u32|
                #![trigger relative@.contains_key(k)]
                {
                    let d = relative_number(map.rows@, rows.start as int, rows.end as int, t as int, k as int);
                    &&& relative@.contains_key(k) <==> d is Some
                    &&& relative@.contains_key(k) ==> relative@[k] == d->0
                },
            forall|i: int|
                0 <= i < labels@.len() ==> match #[trigger] labels@[i] {
                    Some(v) => line_number_label(
                        map.rows@,
                        rows.start as int,
                        rows.end as int,
                        relative_to,
                        rows.start + i,
                    ) == Some(v as int),
                    None => line_number_label(
                        map.rows@,
                        rows.start as int,
                        rows.end as int,
                        relative_to,
                        rows.start + i,
                    ) is None,
                },
        decreases end - row,
    {
        let label = match map.rows[row as usize].kind {
            RowKind::Line(b) => {
                let number = match relative.get(&row) {
                    Some(d) => *d as u64,
                    None => b as u64 + 1,
                };
                Some(number)
            },
            _ => None,
        };
        proof {
            if relative_to is None {
                assert(!relative@.contains_key(row));
            }
        }
        labels.push(label);
        row = row + 1;
    }
    labels
}

} // verus!
