use editor_element::cursor::{Cursor, Rect};
use editor_element::display::{DisplayLines, DisplayPoint, DisplayRow, RowKind};
use editor_element::frame::{compute_layout, FrameInput};
use editor_element::line_numbers::line_number_labels;
use editor_element::metrics::{
    auto_height, mode_features, show_scrollbars, EditorMode, ScrollbarSettings, ShowScrollbar,
    SoftWrap,
};
use editor_element::scroll::ScrollPosition;
use editor_element::selection::{CursorShape, Selection};

fn lines(n: u32) -> DisplayLines {
    DisplayLines { rows: (0..n).map(|i| DisplayRow { len: 10, kind: RowKind::Line(i) }).collect() }
}

fn input() -> FrameInput {
    FrameInput {
        width: 800,
        height: 100,
        line_height: 20,
        em_width: 8,
        em_advance: 8,
        descent: -4,
        digit_width: 8,
        show_gutter: true,
        soft_wrap: SoftWrap::EditorWidth,
        max_buffer_row: 99,
        scroll: ScrollPosition { x: 50, y: 10_000 },
        longest_line_width: 1000,
        max_visible_line_width: 600,
        relative_line_numbers: true,
        line_mode: false,
        cursor_shape: CursorShape::Bar,
        mode: EditorMode::Full,
        scrollbar: ScrollbarSettings { show: ShowScrollbar::Auto, git_diff: true, selections: true },
        is_singleton: true,
        has_git_diffs: false,
        has_highlighted_ranges: true,
        recently_scrolled: false,
    }
}

#[test]
fn frame_layout_clamps_scroll_and_numbers_rows() {
    let map = lines(100);
    let selections = vec![
        Selection { id: 0, start: DisplayPoint::new(97, 0), end: DisplayPoint::new(97, 0), reversed: false },
        Selection { id: 1, start: DisplayPoint::new(95, 2), end: DisplayPoint::new(96, 1), reversed: false },
    ];
    let layout = compute_layout(&input(), &map, &selections, 0);
    // three digits of 8, padded by round(3.5 * 8) on each side
    assert_eq!((layout.gutter.padding, layout.gutter.width, layout.gutter.margin), (28, 80, 4));
    assert_eq!(layout.text_width, 720);
    assert_eq!(layout.wrap_width, 720 - 4 - 16);
    assert_eq!(layout.scroll_max, ScrollPosition { x: 1000 + 8 - 720, y: 99 * 20 });
    assert_eq!(layout.scroll, ScrollPosition { x: 50, y: 1980 });
    assert_eq!(layout.rows, 99..100);
    assert_eq!(layout.selections.len(), 2);
    assert!(layout.selections[0].is_newest && !layout.selections[1].is_newest);
    assert_eq!(layout.line_numbers, vec![Some(2)]);
    assert_eq!(layout.active_rows.marks, vec![None, None]);
    assert_eq!(layout.scrollbar_range, 1980..2080);
    assert!(layout.show_scrollbars);
    assert!(layout.features.scrollbar_track && layout.features.invisibles);
}

#[test]
fn frame_layout_outside_a_full_editor() {
    let map = lines(3);
    let mut frame = input();
    frame.mode = EditorMode::SingleLine;
    frame.scrollbar.show = ShowScrollbar::Never;
    frame.scroll = ScrollPosition { x: 0, y: 0 };
    let layout = compute_layout(&frame, &map, &vec![], 0);
    assert!(!layout.show_scrollbars);
    assert!(!layout.features.scrollbar && !layout.features.invisibles && !layout.features.line_numbers);
    assert_eq!(layout.rows, 0..3);
    assert_eq!(layout.line_numbers.len(), 3);
}

#[test]
fn scrollbar_visibility_policy() {
    let s = |show| ScrollbarSettings { show, git_diff: true, selections: false };
    assert!(show_scrollbars(s(ShowScrollbar::Always), false, false, false, false));
    assert!(!show_scrollbars(s(ShowScrollbar::Never), true, true, true, true));
    assert!(show_scrollbars(s(ShowScrollbar::System), false, false, false, true));
    assert!(!show_scrollbars(s(ShowScrollbar::System), true, true, true, false));
    assert!(show_scrollbars(s(ShowScrollbar::Auto), true, true, false, false));
    // search results mark the bar only where that is switched on
    assert!(!show_scrollbars(s(ShowScrollbar::Auto), true, false, true, false));
    assert!(!show_scrollbars(s(ShowScrollbar::Auto), false, true, false, false));
    let f = mode_features(EditorMode::AutoHeight { max_lines: 3 }, true);
    assert!(!f.scrollbar && !f.scrollbar_track && !f.active_line_background);
    assert!(mode_features(EditorMode::Full, false).scrollbar);
    assert!(!mode_features(EditorMode::Full, false).scrollbar_track);
}

#[test]
fn frame_layout_marks_active_rows() {
    let map = lines(10);
    let mut frame = input();
    frame.scroll = ScrollPosition { x: 0, y: 0 };
    frame.relative_line_numbers = false;
    let selections = vec![
        Selection { id: 0, start: DisplayPoint::new(1, 0), end: DisplayPoint::new(1, 0), reversed: false },
        Selection { id: 1, start: DisplayPoint::new(2, 2), end: DisplayPoint::new(3, 1), reversed: true },
    ];
    let layout = compute_layout(&frame, &map, &selections, 1);
    assert_eq!(layout.rows, 0..6);
    assert_eq!(
        layout.active_rows.marks,
        vec![None, Some(false), Some(true), Some(true), None, None, None]
    );
    assert_eq!(layout.active_rows.background_bands(), vec![1..2]);
    assert_eq!(
        layout.line_numbers,
        vec![Some(1), Some(2), Some(3), Some(4), Some(5), Some(6)]
    );
}

#[test]
fn line_number_labels_mix_relative_and_absolute() {
    let map = DisplayLines {
        rows: vec![
            DisplayRow { len: 3, kind: RowKind::Line(0) },
            DisplayRow { len: 3, kind: RowKind::Wrap },
            DisplayRow { len: 0, kind: RowKind::Block },
            DisplayRow { len: 3, kind: RowKind::Line(1) },
            DisplayRow { len: 3, kind: RowKind::Line(2) },
        ],
    };
    assert_eq!(line_number_labels(&map, &(0..5), Some(3)), vec![Some(1), None, None, Some(2), Some(1)]);
    assert_eq!(line_number_labels(&map, &(0..9), None), vec![Some(1), None, None, Some(2), Some(3)]);
    // a window just past the last row shows nothing
    assert!(line_number_labels(&map, &(5..6), Some(2)).is_empty());
}

#[test]
fn cursor_quads_by_shape() {
    let mut cursor = Cursor::new(10, 20, 8, 18, CursorShape::Bar);
    assert_eq!(cursor.bounding_rect(100, 200), Rect { x: 110, y: 220, width: 8, height: 18 });
    assert_eq!(cursor.paint_rect(100, 200), Rect { x: 110, y: 220, width: 2, height: 18 });
    cursor.shape = CursorShape::Underscore;
    assert_eq!(cursor.paint_rect(0, 0), Rect { x: 10, y: 36, width: 8, height: 2 });
    cursor.shape = CursorShape::Hollow;
    assert_eq!(cursor.paint_rect(0, 0), Rect { x: 10, y: 20, width: 8, height: 18 });
    assert!(cursor.is_outlined());
    assert_eq!(cursor.shape(), CursorShape::Hollow);
}

#[test]
fn auto_height_grows_with_content_up_to_a_cap() {
    assert_eq!(auto_height(0, 20, 10), 20);
    assert_eq!(auto_height(4, 20, 10), 100);
    assert_eq!(auto_height(40, 20, 10), 200);
    assert_eq!(auto_height(u32::MAX, 20, 3), 60);
}

use editor_element::metrics::{truncate_line, MAX_LINE_LEN};

#[test]
fn long_lines_are_cut_at_a_character_boundary() {
    assert_eq!(truncate_line("hello", 10), "hello");
    assert_eq!(truncate_line("hello", 3), "hel");
    // 'é' takes two bytes: a cut inside it moves back before it
    assert_eq!(truncate_line("aéb", 2), "a");
    assert_eq!(truncate_line("aéb", 3), "aé");
    assert_eq!(truncate_line("日本", 2), "");
    let long = "x".repeat(2000);
    assert_eq!(truncate_line(&long, MAX_LINE_LEN as usize).len(), 1024);
}
