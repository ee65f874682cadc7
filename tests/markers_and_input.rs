use editor_element::display::{DisplayLines, DisplayPoint, DisplayRow, RowKind};
use editor_element::interaction::{
    drag_update, left_down_phase, modifiers_changed_action, mouse_up_action,
    right_down_menu_point, wheel_scroll, GoToDefinition, LinkAction, Modifiers, SelectPhase,
};
use editor_element::invisibles::{
    drawn_invisibles, invisibles_for_mode, line_invisibles, split_lines, Invisible, LineChunk,
    ShowWhitespaceSetting,
};
use editor_element::metrics::EditorMode;
use editor_element::selection::SelectionLayout;
use editor_element::position::{PointForPosition, PositionMap, ShapedLine};
use editor_element::scroll::ScrollPosition;

fn mods(shift: bool, alt: bool, control: bool, command: bool) -> Modifiers {
    Modifiers { shift, alt, control, command }
}

fn pfp(row: u32, column: u32, exact_column: u32) -> PointForPosition {
    PointForPosition {
        previous_valid: DisplayPoint::new(row, column),
        next_valid: DisplayPoint::new(row, column),
        exact_unclipped: DisplayPoint::new(row, exact_column),
        column_overshoot_after_line_end: exact_column - column,
    }
}

#[test]
fn left_press_phases() {
    let p = pfp(2, 4, 6);
    let pos = DisplayPoint::new(2, 4);
    assert_eq!(
        left_down_phase(false, true, true, 1, mods(false, false, false, false), p),
        Some(SelectPhase::Begin { position: pos, add: false, click_count: 1 })
    );
    assert_eq!(
        left_down_phase(false, true, true, 2, mods(false, true, false, false), p),
        Some(SelectPhase::Begin { position: pos, add: true, click_count: 2 })
    );
    assert_eq!(
        left_down_phase(false, true, true, 1, mods(true, true, false, false), p),
        Some(SelectPhase::BeginColumnar { position: pos, goal_column: 6 })
    );
    assert_eq!(
        left_down_phase(false, true, true, 1, mods(true, false, false, false), p),
        Some(SelectPhase::Extend { position: pos, click_count: 1 })
    );
    // shift with command is no extension
    assert_eq!(
        left_down_phase(false, true, true, 1, mods(true, false, false, true), p),
        Some(SelectPhase::Begin { position: pos, add: false, click_count: 1 })
    );
    // the gutter selects lines
    assert_eq!(
        left_down_phase(true, false, true, 1, mods(false, false, false, false), p),
        Some(SelectPhase::Begin { position: pos, add: false, click_count: 3 })
    );
    assert_eq!(left_down_phase(false, false, true, 1, mods(false, false, false, false), p), None);
    assert_eq!(left_down_phase(false, true, false, 1, mods(false, false, false, false), p), None);
}

#[test]
fn right_press_and_release() {
    let p = pfp(1, 3, 3);
    assert_eq!(right_down_menu_point(true, p), Some(DisplayPoint::new(1, 3)));
    assert_eq!(right_down_menu_point(false, p), None);

    let up = mouse_up_action(true, false, mods(false, false, false, false), true, true, p);
    assert!(up.end_selection && up.go_to.is_none() && up.stop_propagation);

    let up = mouse_up_action(false, false, mods(false, true, false, true), true, true, p);
    assert_eq!(up.go_to, Some(GoToDefinition { type_definition: false, split: true }));
    // past the end of a line the point may be an inlay: its type is shown
    let up = mouse_up_action(false, false, mods(false, false, false, true), true, true, pfp(1, 3, 5));
    assert_eq!(up.go_to, Some(GoToDefinition { type_definition: true, split: false }));
    let up = mouse_up_action(false, true, mods(false, false, false, true), true, true, p);
    assert!(up.go_to.is_none() && !up.stop_propagation && !up.end_selection);
}

#[test]
fn drags_and_wheel_keep_scroll_in_bounds() {
    let max = ScrollPosition { x: 100, y: 100 };
    let update = drag_update(pfp(0, 1, 2), ScrollPosition { x: 90, y: 5 }, ScrollPosition { x: 30, y: -30 }, max);
    assert_eq!(
        update,
        SelectPhase::Update {
            position: DisplayPoint::new(0, 1),
            goal_column: 2,
            scroll_position: ScrollPosition { x: 100, y: 0 },
        }
    );
    assert_eq!(
        wheel_scroll(ScrollPosition { x: 10, y: 50 }, ScrollPosition { x: 20, y: -20 }, max),
        ScrollPosition { x: 0, y: 70 }
    );
}

fn text(s: &str) -> LineChunk {
    LineChunk { text: s.chars().collect(), is_tab: false }
}

fn tab() -> LineChunk {
    LineChunk { text: vec![' ', ' '], is_tab: true }
}

#[test]
fn all_invisibles_of_a_line() {
    // "\t \t|\t| a b" with tabs two columns wide
    let chunks = vec![tab(), text(" "), tab(), text("|"), tab(), text("| a b")];
    assert_eq!(
        line_invisibles(&chunks, 100, false),
        vec![
            Invisible::Tab { line_start_offset: 0 },
            Invisible::Whitespace { line_offset: 2 },
            Invisible::Tab { line_start_offset: 3 },
            Invisible::Tab { line_start_offset: 6 },
            Invisible::Whitespace { line_offset: 9 },
            Invisible::Whitespace { line_offset: 11 },
        ]
    );
}

#[test]
fn wrapped_line_padding_gets_no_markers() {
    let chunks = vec![text("  a\u{3000}b "), tab()];
    assert_eq!(
        line_invisibles(&chunks, 100, true),
        vec![
            Invisible::Whitespace { line_offset: 3 },
            Invisible::Whitespace { line_offset: 5 },
            Invisible::Tab { line_start_offset: 6 },
        ]
    );
}

#[test]
fn markers_stop_at_the_length_limit() {
    let chunks = vec![text("a b c"), text(" d")];
    assert_eq!(line_invisibles(&chunks, 4, false), vec![Invisible::Whitespace { line_offset: 1 }, Invisible::Whitespace { line_offset: 3 }]);
    assert!(line_invisibles(&chunks, 0, false).is_empty());
}

#[test]
fn drawn_markers_follow_the_setting() {
    let marks = vec![
        Invisible::Whitespace { line_offset: 1 },
        Invisible::Tab { line_start_offset: 4 },
        Invisible::Whitespace { line_offset: 8 },
    ];
    let ranges = vec![(DisplayPoint::new(0, 5), DisplayPoint::new(3, 2))];
    assert_eq!(drawn_invisibles(&marks, ShowWhitespaceSetting::All, &ranges, 3), marks);
    assert!(drawn_invisibles(&marks, ShowWhitespaceSetting::Hidden, &ranges, 3).is_empty());
    assert_eq!(
        drawn_invisibles(&marks, ShowWhitespaceSetting::Selection, &ranges, 3),
        vec![Invisible::Whitespace { line_offset: 1 }]
    );
    assert_eq!(drawn_invisibles(&marks, ShowWhitespaceSetting::Selection, &ranges, 1), marks);
}

#[test]
fn highlight_spans_over_visible_rows() {
    let map = PositionMap {
        line_height: 10,
        height: 30,
        scroll_row: 1,
        scroll_x: 5,
        em_advance: 4,
        line_layouts: vec![
            ShapedLine { glyph_x: vec![0, 4, 8], width: 12 },
            ShapedLine { glyph_x: vec![0, 4], width: 8 },
            ShapedLine { glyph_x: vec![0, 4, 8, 12], width: 16 },
        ],
        lines: DisplayLines {
            rows: (0..5).map(|i| DisplayRow { len: 3, kind: RowKind::Line(i) }).collect(),
        },
    };
    let h = map
        .highlighted_range(DisplayPoint::new(0, 1), DisplayPoint::new(3, 2), 4, (100, 200), 10, 2, 3)
        .expect("rows 1 to 3 are visible");
    assert_eq!(h.start_y, 200 + 10 - 10);
    let spans: Vec<(i64, i64)> = h.lines.iter().map(|l| (l.start_x, l.end_x)).collect();
    assert_eq!(spans, vec![(95, 95 + 12 + 3), (95, 95 + 8 + 3), (95, 95 + 8)]);
    // a range ending at a row's start leaves that row out
    let h = map
        .highlighted_range(DisplayPoint::new(1, 2), DisplayPoint::new(2, 0), 4, (0, 0), 10, 2, 3)
        .expect("row 1 is visible");
    let spans: Vec<(i64, i64)> = h.lines.iter().map(|l| (l.start_x, l.end_x)).collect();
    assert_eq!(spans, vec![(3, -5 + 12 + 3)]);
    assert!(map
        .highlighted_range(DisplayPoint::new(2, 1), DisplayPoint::new(2, 1), 4, (0, 0), 0, 2, 3)
        .is_none());
}

use editor_element::selection::CursorShape;

#[test]
fn cursor_placed_on_its_glyph() {
    let map = PositionMap {
        line_height: 10,
        height: 30,
        scroll_row: 2,
        scroll_x: 3,
        em_advance: 4,
        line_layouts: vec![
            ShapedLine { glyph_x: vec![0, 4, 9], width: 12 },
            ShapedLine { glyph_x: vec![], width: 0 },
        ],
        lines: DisplayLines {
            rows: (0..4).map(|i| DisplayRow { len: 3, kind: RowKind::Line(i) }).collect(),
        },
    };
    let c = map.cursor_for(DisplayPoint::new(2, 1), CursorShape::Block, 4, 15, 6).expect("row 2 is visible");
    assert_eq!((c.origin_x, c.origin_y, c.block_width, c.line_height), (1, 5, 5, 10));
    // past the end of an empty line the cursor is a character wide
    let c = map.cursor_for(DisplayPoint::new(3, 0), CursorShape::Bar, 4, 15, 6).expect("row 3 is visible");
    assert_eq!((c.origin_x, c.origin_y, c.block_width), (-3, 15, 6));
    assert!(map.cursor_for(DisplayPoint::new(1, 0), CursorShape::Bar, 4, 15, 6).is_none());
    assert!(map.cursor_for(DisplayPoint::new(4, 0), CursorShape::Bar, 4, 15, 6).is_none());
}

#[test]
fn modifier_changes_show_or_clear_links() {
    assert_eq!(
        modifiers_changed_action(true, false, mods(true, false, false, true)),
        LinkAction::Show { shift: true }
    );
    assert_eq!(modifiers_changed_action(true, true, mods(false, false, false, true)), LinkAction::Clear);
    assert_eq!(modifiers_changed_action(false, false, mods(false, false, false, true)), LinkAction::Clear);
    assert_eq!(modifiers_changed_action(true, false, mods(false, false, false, false)), LinkAction::Clear);
}

fn texts(lines: &[Vec<LineChunk>]) -> Vec<Vec<(String, bool)>> {
    lines
        .iter()
        .map(|l| l.iter().map(|c| (c.text.iter().collect::<String>(), c.is_tab)).collect())
        .collect()
}

#[test]
fn chunks_split_into_lines() {
    let chunks = vec![text("ab\ncd"), tab(), text("e\n\nf")];
    let lines = split_lines(&chunks, 10);
    assert_eq!(
        texts(&lines),
        vec![
            vec![("ab".to_string(), false)],
            vec![("cd".to_string(), false), ("  ".to_string(), true), ("e".to_string(), false)],
            vec![],
            vec![("f".to_string(), false)],
        ]
    );
    // capped at the line count
    assert_eq!(split_lines(&chunks, 2).len(), 2);
    assert_eq!(split_lines(&vec![], 3).len(), 1);
    assert_eq!(split_lines(&vec![text("x\n")], 5).len(), 2);
}

#[test]
fn markers_only_in_full_editors() {
    let chunks = vec![text("a b")];
    assert_eq!(invisibles_for_mode(EditorMode::Full, &chunks, 10, false), vec![Invisible::Whitespace { line_offset: 1 }]);
    assert!(invisibles_for_mode(EditorMode::SingleLine, &chunks, 10, false).is_empty());
    assert!(invisibles_for_mode(EditorMode::AutoHeight { max_lines: 100 }, &chunks, 10, false).is_empty());
}

fn cursor_map() -> PositionMap {
    PositionMap {
        line_height: 10,
        height: 30,
        scroll_row: 0,
        scroll_x: 0,
        em_advance: 4,
        line_layouts: vec![ShapedLine { glyph_x: vec![0, 4, 8], width: 12 }],
        lines: DisplayLines { rows: vec![DisplayRow { len: 3, kind: RowKind::Line(0) }] },
    }
}

fn sel_layout(column: u32, is_local: bool, is_newest: bool) -> SelectionLayout {
    SelectionLayout {
        head: DisplayPoint::new(0, column),
        cursor_shape: CursorShape::Bar,
        is_newest,
        is_local,
        range: DisplayPoint::new(0, column)..DisplayPoint::new(0, column),
        active_rows: 0..0,
    }
}

#[test]
fn hidden_local_cursors_are_skipped() {
    let map = cursor_map();
    assert!(map.selection_cursor(&sel_layout(1, true, true), false, 1, 0, 6).is_none());
    assert!(map.selection_cursor(&sel_layout(1, false, true), false, 1, 0, 6).is_some());
    assert!(map.selection_cursor(&sel_layout(1, true, true), true, 1, 0, 6).is_some());
}

#[test]
fn newest_cursor_is_centred() {
    let map = cursor_map();
    let layouts = vec![sel_layout(2, true, false), sel_layout(1, true, true)];
    // the glyph at column 1 spans 4..8, the row 0..10
    assert_eq!(map.newest_cursor_position(&layouts, true, 1, 0, 6, (100, 50)), Some((106, 55)));
    assert_eq!(map.newest_cursor_position(&layouts, false, 1, 0, 6, (100, 50)), None);
}
