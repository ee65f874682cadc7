use editor_element::display::{Bias, DisplayLines, DisplayPoint, DisplayRow, RowKind};
use editor_element::highlight::{
    EdgeTransition, HighlightedRange, HighlightedRangeLine, PathPoint, PathSegment,
    edge_transition,
};
use editor_element::line_numbers::calculate_relative_line_numbers;
use editor_element::selection::{CursorShape, Selection, SelectionLayout};
use std::collections::HashMap;

fn line(index: u32, len: u32) -> DisplayRow {
    DisplayRow { len, kind: RowKind::Line(index) }
}

fn wrap(len: u32) -> DisplayRow {
    DisplayRow { len, kind: RowKind::Wrap }
}

fn block() -> DisplayRow {
    DisplayRow { len: 0, kind: RowKind::Block }
}

fn plain_lines(lens: &[u32]) -> DisplayLines {
    DisplayLines { rows: lens.iter().enumerate().map(|(i, &l)| line(i as u32, l)).collect() }
}

fn pt(row: u32, column: u32) -> DisplayPoint {
    DisplayPoint::new(row, column)
}

fn forward(start: DisplayPoint, end: DisplayPoint) -> Selection {
    Selection { id: 0, start, end, reversed: false }
}

#[test]
fn relative_numbers_around_reference_row() {
    let map = plain_lines(&[4, 4, 4, 4, 4, 4]);
    let numbers = calculate_relative_line_numbers(&map, &(0..6), Some(3));
    let expected: HashMap<u32, u32> = [(0, 3), (1, 2), (2, 1), (4, 1), (5, 2)].into_iter().collect();
    assert_eq!(numbers, expected);
    assert!(!numbers.contains_key(&3));
}

#[test]
fn relative_numbers_skip_wrapped_and_block_rows() {
    // line 0, its wrap, a block, line 1, line 2 with a wrap, line 3
    let map = DisplayLines {
        rows: vec![line(0, 5), wrap(3), block(), line(1, 2), line(2, 8), wrap(1), line(3, 0)],
    };
    let numbers = calculate_relative_line_numbers(&map, &(0..7), Some(4));
    let expected: HashMap<u32, u32> = [(0, 2), (3, 1), (6, 1)].into_iter().collect();
    assert_eq!(numbers, expected);
    // a reference row inside a wrapped line counts from that line
    let numbers = calculate_relative_line_numbers(&map, &(0..7), Some(5));
    assert_eq!(numbers, expected);
}

#[test]
fn relative_numbers_only_inside_window() {
    let map = plain_lines(&[1, 1, 1, 1, 1, 1, 1, 1]);
    let numbers = calculate_relative_line_numbers(&map, &(5..8), Some(1));
    let expected: HashMap<u32, u32> = [(5, 4), (6, 5), (7, 6)].into_iter().collect();
    assert_eq!(numbers, expected);
    assert!(calculate_relative_line_numbers(&map, &(0..8), None).is_empty());
}

#[test]
fn block_cursor_on_visual_selection_moves_to_end_of_previous_row() {
    let map = plain_lines(&[6, 6, 6]);
    let layout =
        SelectionLayout::new(forward(pt(0, 0), pt(1, 0)), false, CursorShape::Block, &map, true, true);
    assert_eq!(layout.head, pt(0, 6));
    assert_eq!(layout.range, pt(0, 0)..pt(1, 0));
    assert_eq!(layout.active_rows, 0..0);
}

#[test]
fn block_cursor_moves_one_column_left() {
    let map = plain_lines(&[6, 6, 6]);
    let layout =
        SelectionLayout::new(forward(pt(0, 2), pt(1, 3)), false, CursorShape::Block, &map, false, true);
    assert_eq!(layout.head, pt(1, 2));
    assert_eq!(layout.range, pt(0, 2)..pt(1, 3));
    assert_eq!(layout.active_rows, 0..1);
    assert!(!layout.is_newest);
}

#[test]
fn bar_cursor_and_reversed_selections_keep_the_head() {
    let map = plain_lines(&[6, 6, 6]);
    let bar =
        SelectionLayout::new(forward(pt(0, 2), pt(1, 3)), false, CursorShape::Bar, &map, true, true);
    assert_eq!(bar.head, pt(1, 3));
    let reversed = Selection { id: 1, start: pt(0, 2), end: pt(1, 3), reversed: true };
    let layout = SelectionLayout::new(reversed, false, CursorShape::Block, &map, true, false);
    assert_eq!(layout.head, pt(0, 2));
    assert!(!layout.is_local);
}

#[test]
fn block_cursor_over_a_block_row_jumps_an_extra_row() {
    // an excerpt header between two lines
    let map = DisplayLines { rows: vec![line(0, 4), block(), line(1, 4), line(2, 4)] };
    let layout =
        SelectionLayout::new(forward(pt(0, 1), pt(2, 0)), false, CursorShape::Block, &map, true, true);
    assert_eq!(layout.head, pt(0, 4));
    assert_eq!(layout.range, pt(0, 1)..pt(1, 0));
    assert_eq!(layout.active_rows, 0..0);
}

#[test]
fn line_mode_expands_to_whole_lines() {
    let map = DisplayLines { rows: vec![line(0, 4), line(1, 7), wrap(2), line(2, 3)] };
    let layout =
        SelectionLayout::new(forward(pt(1, 2), pt(1, 5)), true, CursorShape::Bar, &map, true, true);
    assert_eq!(layout.range, pt(1, 0)..pt(3, 0));
    assert_eq!(layout.active_rows, 1..2);
    // on the last line the break before it is taken instead
    let layout =
        SelectionLayout::new(forward(pt(3, 1), pt(3, 2)), true, CursorShape::Bar, &map, true, true);
    assert_eq!(layout.range, pt(2, 2)..pt(3, 3));
}

#[test]
fn clipping_points() {
    let map = DisplayLines { rows: vec![block(), line(0, 4), block(), line(1, 2)] };
    assert_eq!(map.clip_point(pt(1, 9), Bias::Left), pt(1, 4));
    assert_eq!(map.clip_point(pt(2, 0), Bias::Left), pt(1, 4));
    assert_eq!(map.clip_point(pt(2, 0), Bias::Right), pt(3, 0));
    assert_eq!(map.clip_point(pt(0, 0), Bias::Left), pt(1, 0));
    assert_eq!(map.clip_point(pt(9, 9), Bias::Left), pt(3, 2));
    assert_eq!(map.max_point(), pt(3, 2));
}

fn range(start_y: i64, spans: &[(i64, i64)], radius: i64) -> HighlightedRange {
    HighlightedRange {
        start_y,
        line_height: 20,
        lines: spans.iter().map(|&(start_x, end_x)| HighlightedRangeLine { start_x, end_x }).collect(),
        corner_radius: radius,
    }
}

fn p(x: i64, y: i64) -> PathPoint {
    PathPoint { x, y }
}

#[test]
fn wider_next_row_takes_outward_corner() {
    assert_eq!(edge_transition(50, 80), EdgeTransition::Outward);
    assert_eq!(edge_transition(80, 50), EdgeTransition::Inward);
    assert_eq!(edge_transition(50, 50), EdgeTransition::Straight);
    let paths = range(0, &[(10, 50), (10, 80)], 4).paths();
    assert_eq!(paths.len(), 1);
    let segments = &paths[0].segments;
    // past the top-right corner the right edge steps down, then out
    assert_eq!(segments[1], PathSegment::LineTo(p(50, 16)));
    assert_eq!(segments[2], PathSegment::CurveTo { to: p(54, 20), control: p(50, 20) });
    assert_eq!(segments[3], PathSegment::LineTo(p(76, 20)));
    assert_eq!(segments[4], PathSegment::CurveTo { to: p(80, 24), control: p(80, 20) });
}

#[test]
fn equal_rows_make_one_rectangle() {
    let paths = range(100, &[(10, 50), (10, 50)], 0).paths();
    assert_eq!(paths.len(), 1);
    assert_eq!(paths[0].start, p(50, 100));
    assert_eq!(
        paths[0].segments,
        vec![
            PathSegment::CurveTo { to: p(50, 100), control: p(50, 100) },
            PathSegment::LineTo(p(50, 120)),
            PathSegment::LineTo(p(50, 140)),
            PathSegment::LineTo(p(10, 140)),
            PathSegment::LineTo(p(10, 120)),
            PathSegment::LineTo(p(10, 100)),
            PathSegment::LineTo(p(50, 100)),
        ]
    );
}

#[test]
fn corner_radius_is_capped_by_half_the_step() {
    let paths = range(0, &[(10, 50), (10, 52)], 8).paths();
    let segments = &paths[0].segments;
    assert_eq!(segments[2], PathSegment::CurveTo { to: p(51, 20), control: p(50, 20) });
    // the top corners are capped by half the first row's width only
    assert_eq!(paths[0].start, p(42, 0));
}

#[test]
fn start_right_of_next_end_splits_the_outline() {
    let paths = range(0, &[(60, 90), (0, 40), (0, 20)], 2).paths();
    assert_eq!(paths.len(), 2);
    assert_eq!(paths[0].start, p(88, 0));
    assert_eq!(paths[1].start, p(38, 20));
    assert!(range(0, &[], 2).paths().is_empty());
}
