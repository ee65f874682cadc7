use editor_element::display::{DisplayLines, DisplayPoint, DisplayRow, RowKind};
use editor_element::metrics::{
    gutter_dimensions, horizontal_scroll_max, line_number_digits, wrap_width, ActiveRows, SoftWrap,
};
use editor_element::overlay::{
    context_menu_origin, hover_popover_origins, OverlayPoint, OverlaySize,
};
use editor_element::position::{PointForPosition, PositionMap, ShapedLine};
use editor_element::scroll::{
    autoscroll_margin, autoscroll_overshoot, clamp_scroll_position, scroll_by, visible_rows,
    ScrollPosition, Scrollbar, ScrollbarThumb,
};

fn sp(x: i64, y: i64) -> ScrollPosition {
    ScrollPosition { x, y }
}

#[test]
fn scroll_stays_within_bounds_after_overshooting_deltas() {
    let max = sp(300, 2000);
    let mut position = sp(10, 10);
    for delta in [sp(-50, -50), sp(1000, 5000), sp(7, -3), sp(-400, 100)] {
        position = scroll_by(position, delta, max);
        assert!(0 <= position.x && position.x <= max.x);
        assert!(0 <= position.y && position.y <= max.y);
    }
    assert_eq!(position, sp(0, 2000));
    assert_eq!(scroll_by(sp(i64::MAX, 0), sp(i64::MAX, 0), max), sp(300, 0));
    assert_eq!(clamp_scroll_position(sp(-1, 2001), max), sp(0, 2000));
    assert_eq!(clamp_scroll_position(sp(150, 20), max), sp(150, 20));
}

#[test]
fn autoscroll_band() {
    assert_eq!(autoscroll_margin(20, 300), 20);
    assert_eq!(autoscroll_margin(20, 30), 10);
    // a text area from y = 100, 300 tall, with a 20 margin
    assert_eq!(autoscroll_overshoot(90, 100, 300, 20), -30);
    assert_eq!(autoscroll_overshoot(150, 100, 300, 20), 0);
    assert_eq!(autoscroll_overshoot(395, 100, 300, 20), 15);
}

#[test]
fn visible_row_window() {
    // scrolled 2.5 rows down, 4 rows tall
    assert_eq!(visible_rows(50, 80, 20, 100), 2..8);
    // never past the last row
    assert_eq!(visible_rows(50, 80, 20, 4), 2..5);
    assert_eq!(visible_rows(0, 0, 20, 10), 0..1);
}

#[test]
fn scrollbar_thumb_and_drag() {
    let bar = Scrollbar {
        track_top: 0,
        track_height: 1000,
        visible_height: 500,
        content_height: 5000,
        min_thumb_height: 20,
    };
    assert_eq!(bar.thumb(1000), ScrollbarThumb { top: 200, bottom: 300 });
    assert_eq!(bar.drag_scroll_top(1000, 10, 4500), 1050);
    assert_eq!(bar.drag_scroll_top(1000, -300, 4500), 0);
    assert_eq!(bar.drag_scroll_top(1000, 900, 4500), 4500);
    assert_eq!(bar.scroll_top_for_click(500, 4500), 2250);
    assert_eq!(bar.scroll_top_for_click(0, 4500), 0);
    // a short thumb grows to the least height
    let long = Scrollbar {
        track_top: 10,
        track_height: 1000,
        visible_height: 10,
        content_height: 10000,
        min_thumb_height: 21,
    };
    assert_eq!(long.thumb(0), ScrollbarThumb { top: 10, bottom: 10 + 21 });
    assert_eq!(long.thumb(5000), ScrollbarThumb { top: 10 + 500, bottom: 10 + 500 + 21 });
    let short = Scrollbar {
        track_top: 0,
        track_height: 100,
        visible_height: 1,
        content_height: 100,
        min_thumb_height: 10,
    };
    let thumb = short.thumb(0);
    assert_eq!(thumb.bottom - thumb.top, 10);
}

fn shaped(xs: &[i64], width: i64) -> ShapedLine {
    ShapedLine { glyph_x: xs.to_vec(), width }
}

fn map() -> PositionMap {
    PositionMap {
        line_height: 20,
        height: 60,
        scroll_row: 1,
        scroll_x: 0,
        em_advance: 10,
        line_layouts: vec![shaped(&[0, 10, 20], 30), shaped(&[], 0), shaped(&[0, 10], 20)],
        lines: DisplayLines {
            rows: vec![
                DisplayRow { len: 2, kind: RowKind::Line(0) },
                DisplayRow { len: 3, kind: RowKind::Line(1) },
                DisplayRow { len: 0, kind: RowKind::Block },
                DisplayRow { len: 2, kind: RowKind::Line(2) },
            ],
        },
    }
}

#[test]
fn pointer_inside_a_line() {
    let p = map().point_for_position((100, 100), (115, 105));
    assert_eq!(p.previous_valid, DisplayPoint::new(1, 1));
    assert_eq!(p.next_valid, DisplayPoint::new(1, 1));
    assert_eq!(p.exact_unclipped, DisplayPoint::new(1, 1));
    assert_eq!(p.column_overshoot_after_line_end, 0);
    assert_eq!(p.as_valid(), Some(DisplayPoint::new(1, 1)));
}

#[test]
fn pointer_past_line_end_reports_overshoot() {
    let p = map().point_for_position((0, 0), (57, 10));
    assert_eq!(p.previous_valid, DisplayPoint::new(1, 3));
    assert_eq!(p.exact_unclipped, DisplayPoint::new(1, 5));
    assert_eq!(p.column_overshoot_after_line_end, 2);
    assert_eq!(p.as_valid(), None);
}

#[test]
fn pointer_over_block_row_and_below_text() {
    let p = map().point_for_position((0, 0), (5, 25));
    assert_eq!(p.previous_valid, DisplayPoint::new(1, 3));
    assert_eq!(p.next_valid, DisplayPoint::new(3, 0));
    // held to the visible height: the last visible row
    let p = map().point_for_position((0, 0), (5, 500));
    assert_eq!(p.exact_unclipped.row, 4);
    assert_eq!(p.previous_valid, DisplayPoint::new(3, 2));
    let v = PointForPosition::valid(DisplayPoint::new(2, 2));
    assert_eq!(v.as_valid(), Some(DisplayPoint::new(2, 2)));
}

#[test]
fn context_menu_flips_and_snaps() {
    let size = OverlaySize { width: 100, height: 50 };
    let origin = context_menu_origin(OverlayPoint { x: 10, y: 40 }, size, 20, 500, 400);
    assert_eq!(origin, OverlayPoint { x: 10, y: 40 });
    let origin = context_menu_origin(OverlayPoint { x: 450, y: 380 }, size, 20, 500, 400);
    assert_eq!(origin, OverlayPoint { x: 400, y: 310 });
    let origin = context_menu_origin(OverlayPoint { x: 450, y: 0 }, OverlaySize { width: 600, height: 5 }, 20, 500, 400);
    assert_eq!(origin.x, 0);
}

#[test]
fn hover_popovers_stack_above_or_below() {
    let sizes = vec![OverlaySize { width: 50, height: 30 }, OverlaySize { width: 80, height: 10 }];
    let above = hover_popover_origins(OverlayPoint { x: 10, y: 200 }, 20, &sizes, 100, 70, 5);
    assert_eq!(above, vec![OverlayPoint { x: 10, y: 170 }, OverlayPoint { x: -10, y: 155 }]);
    let below = hover_popover_origins(OverlayPoint { x: 10, y: 50 }, 20, &sizes, 100, 1000, 5);
    assert_eq!(below, vec![OverlayPoint { x: 10, y: 70 }, OverlayPoint { x: 10, y: 105 }]);
}

#[test]
fn line_number_digit_counts() {
    assert_eq!(line_number_digits(0), 1);
    assert_eq!(line_number_digits(8), 1);
    assert_eq!(line_number_digits(9), 2);
    assert_eq!(line_number_digits(998), 3);
    assert_eq!(line_number_digits(999), 4);
    assert_eq!(line_number_digits(u32::MAX), 10);
}

#[test]
fn gutter_and_wrap_widths() {
    let g = gutter_dimensions(true, 30, 9, -4);
    assert_eq!((g.padding, g.width, g.margin), (32, 94, 4));
    let none = gutter_dimensions(false, 30, 9, -4);
    assert_eq!((none.padding, none.width, none.margin), (0, 0, 0));
    assert_eq!(wrap_width(SoftWrap::EditorWidth, 500, 4, 9, 10), 478);
    assert_eq!(wrap_width(SoftWrap::Column(40), 500, 4, 9, 10), 400);
    assert_eq!(wrap_width(SoftWrap::Column(80), 500, 4, 9, 10), 478);
    assert_eq!(wrap_width(SoftWrap::Unwrapped, 500, 4, 9, 10), 5120);
    assert_eq!(horizontal_scroll_max(700, 650, 9, 500), 209);
    assert_eq!(horizontal_scroll_max(100, 150, 9, 500), 0);
}

#[test]
fn active_rows_and_background_bands() {
    let mut rows = ActiveRows::new(10..19);
    rows.mark(8..12, false);
    rows.mark(12..13, true);
    rows.mark(15..16, false);
    rows.mark(18..40, false);
    assert_eq!(rows.marks[0], Some(false));
    assert_eq!(rows.marks[2], Some(true));
    assert_eq!(rows.marks[4], None);
    assert_eq!(rows.background_bands(), vec![10..12, 15..17, 18..20]);
}

use editor_element::cursor::Rect;
use editor_element::diff_hunks::{dedup_hunks, hunk_marker, DiffHunkStatus, DisplayDiffHunk};

#[test]
fn repeated_hunks_are_merged() {
    let folded = DisplayDiffHunk::Folded { display_row: 4 };
    let added = DisplayDiffHunk::Unfolded { start_row: 6, end_row: 8, status: DiffHunkStatus::Added };
    let removed = DisplayDiffHunk::Unfolded { start_row: 6, end_row: 8, status: DiffHunkStatus::Removed };
    let hunks = vec![folded, folded, folded, added, removed, removed, folded];
    assert_eq!(dedup_hunks(&hunks), vec![folded, added, removed, folded]);
    assert!(dedup_hunks(&vec![]).is_empty());
}

#[test]
fn hunk_markers_by_status() {
    let m = hunk_marker(
        DisplayDiffHunk::Unfolded { start_row: 3, end_row: 5, status: DiffHunkStatus::Modified },
        40,
        20,
        100,
        0,
    );
    assert_eq!(m.bounds, Rect { x: 89, y: 100, width: 22, height: 80 });
    assert_eq!(m.corner_radius, 2);
    assert_eq!(m.status, Some(DiffHunkStatus::Modified));
    let m = hunk_marker(
        DisplayDiffHunk::Unfolded { start_row: 3, end_row: 3, status: DiffHunkStatus::Removed },
        40,
        20,
        100,
        0,
    );
    assert_eq!(m.bounds, Rect { x: 89, y: 80, width: 22, height: 40 });
    assert_eq!(m.corner_radius, 40);
    let m = hunk_marker(DisplayDiffHunk::Folded { display_row: 1 }, 40, 0, 0, 10);
    assert_eq!(m.bounds, Rect { x: -11, y: 50, width: 22, height: 40 });
    assert_eq!(m.status, None);
}
