//! One frame's layout, computed from the display rows, the selections, the
//! settings and the scroll state: gutter and text widths, the wrap width,
//! the scroll extent and the position held to it, the visible rows, the
//! selections' layouts, the active rows and the line numbers.

use vstd::prelude::*;
use crate::display::DisplayLines;
use crate::highlight::{MAX_COORD, MAX_ROWS};
use crate::line_numbers::{line_number_label, line_number_labels};
use crate::metrics::{
    decimal_digits, gutter_dimensions, horizontal_scroll_max, line_number_digits, mode_features,
    scroll_extent_of, scrollbars_shown, show_scrollbars, wrap_width, wrap_width_of, ActiveRows,
    EditorMode, GutterDimensions, ModeFeatures, ScrollbarSettings, SoftWrap,
};
use crate::scroll::{clamp_scroll_position, clamp_to, visible_rows, visible_rows_of, ScrollPosition};
use crate::selection::{is_layout_of, selection_fits, CursorShape, Selection, SelectionLayout};
use std::ops::Range;

verus! {

/// What a frame is laid out from, besides the display rows and selections.
/// Widths are in device units; `digit_width` is the width of one digit of
/// the line numbers' font.
#[derive(Debug, Clone, Copy)]
pub struct FrameInput {
    pub width: i64,
    pub height: i64,
    pub line_height: i64,
    pub em_width: i64,
    pub em_advance: i64,
    pub descent: i64,
    pub digit_width: i64,
    pub show_gutter: bool,
    pub soft_wrap: SoftWrap,
    pub max_buffer_row: u32,
    pub scroll: ScrollPosition,
    pub longest_line_width: i64,
    pub max_visible_line_width: i64,
    pub relative_line_numbers: bool,
    pub line_mode: bool,
    pub cursor_shape: CursorShape,
    pub mode: EditorMode,
    pub scrollbar: ScrollbarSettings,
    pub is_singleton: bool,
    pub has_git_diffs: bool,
    pub has_highlighted_ranges: bool,
    pub recently_scrolled: bool,
}

impl FrameInput {
    pub open spec fn fits(&self) -> bool {
        &&& 0 <= self.width <= MAX_COORD
        &&& 0 <= self.height <= MAX_COORD
        &&& 0 < self.line_height <= MAX_ROWS
        &&& 0 <= self.em_width <= MAX_ROWS
        &&& 0 <= self.em_advance <= MAX_ROWS
        &&& -MAX_ROWS <= self.descent <= 0
        &&& 0 <= self.digit_width <= MAX_ROWS
        &&& 0 <= self.longest_line_width <= MAX_COORD
        &&& 0 <= self.max_visible_line_width <= MAX_COORD
    }
}

pub struct FrameLayout {
    pub gutter: GutterDimensions,
    pub text_width: i64,
    pub wrap_width: i64,
    pub scroll_max: ScrollPosition,
    pub scroll: ScrollPosition,
    pub rows: Range<u32>,
    pub selections: Vec<SelectionLayout>,
    pub active_rows: ActiveRows,
    pub line_numbers: Vec<Option<u64>>,
    pub show_scrollbars: bool,
    pub features: ModeFeatures,
    /// The content span the scrollbar's thumb stands for: from the scroll
    /// offset, one view tall.
    pub scrollbar_range: Range<i64>,
}

/// Whether a selection marks `row` as active.
pub open spec fn touches(l: SelectionLayout, row: int) -> bool {
    l.active_rows.start <= row <= l.active_rows.end
}

/// The mark on `row` after the first `k` selections: whether any touches it,
/// and whether a non-empty one does.
pub open spec fn active_mark(
    layouts: Seq<SelectionLayout>,
    selections: Seq<Selection>,
    k: int,
    row: int,
) -> Option<bool>
    decreases k,
{
    if k <= 0 {
        None
    } else {
        let m = active_mark(layouts, selections, k - 1, row);
        let non_empty = selections[k - 1].start != selections[k - 1].end;
        if touches(layouts[k - 1], row) {
            Some(
                match m {
                    Some(b) => b || non_empty,
                    None => non_empty,
                },
            )
        } else {
            m
        }
    }
}

/// Lays out one frame.
pub fn compute_layout(
    input: &FrameInput,
    map: &DisplayLines,
    selections: &Vec<Selection>,
    newest: usize,
) -> (r: FrameLayout)
    requires
        input.fits(),
        map.wf(),
        map.rows@.len() * input.line_height <= MAX_COORD,
        forall|i: int| 0 <= i < selections@.len() ==> selection_fits(map.rows@, #[trigger] selections@[i]),
    ensures
        ({
            let rows = map.rows@;
            let max_row = rows.len() - 1;
            let number_width = decimal_digits(input.max_buffer_row as nat + 1) * input.digit_width;
            &&& input.show_gutter ==> r.gutter.padding == (7 * input.em_width + 1) / 2
                && r.gutter.width == number_width + 2 * r.gutter.padding && r.gutter.margin
                == -input.descent
            &&& !input.show_gutter ==> r.gutter.padding == 0 && r.gutter.width == 0
                && r.gutter.margin == 0
            &&& r.text_width == input.width - r.gutter.width
            &&& r.wrap_width == wrap_width_of(
                input.soft_wrap,
                r.text_width as int,
                r.gutter.margin as int,
                input.em_width as int,
                input.em_advance as int,
            )
            &&& r.scroll_max.x == scroll_extent_of(
                input.longest_line_width as int,
                input.max_visible_line_width as int,
                input.em_width as int,
                r.text_width as int,
            )
            &&& r.scroll_max.y == max_row * input.line_height
            &&& r.scroll.x == clamp_to(input.scroll.x as int, r.scroll_max.x as int)
            &&& r.scroll.y == clamp_to(input.scroll.y as int, r.scroll_max.y as int)
            &&& (r.rows.start as int, r.rows.end as int) == visible_rows_of(
                r.scroll.y as int,
                input.height as int,
                input.line_height as int,
                max_row,
            )
            &&& r.selections@.len() == selections@.len()
            &&& forall|i: int|
                0 <= i < selections@.len() ==> is_layout_of(
                    #[trigger] r.selections@[i],
                    rows,
                    selections@[i],
                    input.line_mode,
                    input.cursor_shape,
                    i == newest,
                    true,
                )
            &&& r.show_scrollbars == scrollbars_shown(
                input.scrollbar,
                input.is_singleton,
                input.has_git_diffs,
                input.has_highlighted_ranges,
                input.recently_scrolled,
            )
            &&& r.features.invisibles == (input.mode == EditorMode::Full)
            &&& r.features.active_line_background == (input.mode == EditorMode::Full)
            &&& r.features.line_numbers == (input.mode == EditorMode::Full)
            &&& r.features.scrollbar == (input.mode == EditorMode::Full)
            &&& r.features.scrollbar_track == (input.mode == EditorMode::Full && r.show_scrollbars)
            &&& r.scrollbar_range.start == r.scroll.y
            &&& r.scrollbar_range.end == r.scroll.y + input.height
            &&& r.line_numbers@.len() == r.rows.end - r.rows.start
            &&& r.active_rows.wf()
            &&& r.active_rows.window == r.rows
            &&& forall|i: int|
                0 <= i < r.active_rows.marks@.len() ==> #[trigger] r.active_rows.marks@[i]
                    == active_mark(r.selections@, selections@, selections@.len() as int, r.rows.start + i)
            &&& forall|i: int|
                0 <= i < r.line_numbers@.len() ==> match #[trigger] r.line_numbers@[i] {
                    Some(v) => line_number_label(
                        rows,
                        r.rows.start as int,
                        r.rows.end as int,
                        if input.relative_line_numbers && newest < selections@.len() {
                            Some(r.selections@[newest as int].head.row)
                        } else {
                            None
                        },
                        r.rows.start + i,
                    ) == Some(v as int),
                    None => line_number_label(
                        rows,
                        r.rows.start as int,
                        r.rows.end as int,
                        if input.relative_line_numbers && newest < selections@.len() {
                            Some(r.selections@[newest as int].head.row)
                        } else {
                            None
                        },
                        r.rows.start + i,
                    ) is None,
                }
        }),
{
    let digits = line_number_digits(input.max_buffer_row);
    proof {
        assert(digits <= 11) by {
            crate::metrics::lemma_digits_at_most_ten(input.max_buffer_row as nat + 1);
        }
        assert(0 <= digits * input.digit_width <= 11 * MAX_ROWS) by (nonlinear_arith)
            requires
                0 <= digits <= 11,
                0 <= input.digit_width <= MAX_ROWS,
        ;
    }
    let number_width = (digits as i64) * input.digit_width;
    let gutter = gutter_dimensions(input.show_gutter, number_width, input.em_width, input.descent);
    let text_width = input.width - gutter.width;
    let wrap = wrap_width(input.soft_wrap, text_width, gutter.margin, input.em_width, input.em_advance);
    let max_row = (map.rows.len() - 1) as u32;
    proof {
        assert(0 <= max_row * input.line_height <= map.rows@.len() * input.line_height) by (nonlinear_arith)
            requires
                max_row < map.rows@.len(),
                0 < input.line_height,
        ;
    }
    let scroll_max = ScrollPosition {
        x: horizontal_scroll_max(
            input.longest_line_width,
            input.max_visible_line_width,
            input.em_width,
            text_width,
        ),
        y: (max_row as i64) * input.line_height,
    };
    let scroll = clamp_scroll_position(input.scroll, scroll_max);
    proof {
        assert(scroll.y / input.line_height <= max_row) by (nonlinear_arith)
            requires
                0 <= scroll.y <= max_row * input.line_height,
                0 < input.line_height,
        ;
    }
    let rows = visible_rows(scroll.y, input.height, input.line_height, max_row);
    let mut layouts: Vec<SelectionLayout> = Vec::new();
    let mut active = ActiveRows::new(rows.start..rows.end);
    let mut i: usize = 0;
    while i < selections.len()
        invariant
            map.wf(),
            forall|j: int| 0 <= j < selections@.len() ==> selection_fits(map.rows@, #[trigger] selections@[j]),
            i <= selections@.len(),
            layouts@.len() == i,
            forall|j: int|
                0 <= j < i ==> is_layout_of(
                    #[trigger] layouts@[j],
                    map.rows@,
                    selections@[j],
                    input.line_mode,
                    input.cursor_shape,
                    j == newest,
                    true,
                ),
            active.wf(),
            active.window == rows,
            forall|j: int|
                0 <= j < active.marks@.len() ==> #[trigger] active.marks@[j] == active_mark(
                    layouts@,
                    selections@,
                    i as int,
                    rows.start + j,
                ),
        decreases selections@.len() - i,
    {
        let selection = selections[i];
        let layout = SelectionLayout::new(
            selection,
            input.line_mode,
            input.cursor_shape,
            map,
            i == newest,
            true,
        );
        let ghost before = active.marks@;
        let ghost layouts_before = layouts@;
        active.mark(layout.active_rows.start..layout.active_rows.end, selection.start != selection.end);
        layouts.push(layout);
        proof {
            assert forall|j: int| 0 <= j < active.marks@.len() implies #[trigger] active.marks@[j]
                == active_mark(layouts@, selections@, i + 1, rows.start + j) by {
                assert(layouts@[i as int] == layout);
                assert(active_mark(layouts@, selections@, i as int, rows.start + j) == active_mark(
                    layouts_before,
                    selections@,
                    i as int,
                    rows.start + j,
                )) by {
                    lemma_active_mark_prefix(layouts_before, layouts@, selections@, i as int, rows.start + j);
                }
            }
        }
        i = i + 1;
    }
    let relative_to = if input.relative_line_numbers && newest < layouts.len() {
        Some(layouts[newest].head.row)
    } else {
        None
    };
    let line_numbers = line_number_labels(map, &rows, relative_to);
    let shown = show_scrollbars(
        input.scrollbar,
        input.is_singleton,
        input.has_git_diffs,
        input.has_highlighted_ranges,
        input.recently_scrolled,
    );
    let features = mode_features(input.mode, shown);
    let scrollbar_range = scroll.y..scroll.y + input.height;
    FrameLayout {
        gutter,
        text_width,
        wrap_width: wrap,
        scroll_max,
        scroll,
        rows,
        selections: layouts,
        active_rows: active,
        line_numbers,
        show_scrollbars: shown,
        features,
        scrollbar_range,
    }
}

proof fn lemma_active_mark_prefix(
    a: Seq<SelectionLayout>,
    b: Seq<SelectionLayout>,
    selections: Seq<Selection>,
    k: int,
    row: int,
)
    requires
        k <= a.len() <= b.len(),
        forall|j: int| 0 <= j < k ==> a[j] == b[j],
    ensures
        active_mark(a, selections, k, row) == active_mark(b, selections, k, row),
    decreases k,
{
    if k > 0 {
        lemma_active_mark_prefix(a, b, selections, k - 1, row);
    }
}

} // verus!
