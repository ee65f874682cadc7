//! Widths of the gutter and text area, the wrap width, the horizontal
//! scroll extent, and which visible rows get the active-line background.

use vstd::prelude::*;
use vstd::string::StringSliceAdditionalSpecFns;
use vstd::utf8::{encode_utf8_valid_utf8, is_char_boundary};
use crate::highlight::{MAX_COORD, MAX_ROWS};
use std::ops::Range;

verus! {

/// Lines of more bytes than this are cut before shaping.
pub const MAX_LINE_LEN: i64 = 1024;

pub open spec fn decimal_digits(n: nat) -> nat
    decreases n,
{
    if n < 10 {
        1
    } else {
        1 + decimal_digits(n / 10)
    }
}

/// How many digits the largest line number takes: the number of the last
/// buffer row, counted from one.
pub fn line_number_digits(max_buffer_row: u32) -> (r: u32)
    ensures
        r == decimal_digits(max_buffer_row as nat + 1),
{
    let ghost total = max_buffer_row as nat + 1;
    let mut n: u64 = max_buffer_row as u64 + 1;
    let mut digits: u32 = 1;
    proof {
        lemma_digits_bound(total);
    }
    while n >= 10
        invariant
            1 <= n <= total,
            total <= u32::MAX + 1,
            decimal_digits(total) <= 1 + total / 10,
            digits + decimal_digits(n as nat) == 1 + decimal_digits(total),
        decreases n,
    {
        proof {
            lemma_digits_positive((n / 10) as nat);
        }
        n = n / 10;
        digits = digits + 1;
    }
    digits
}

proof fn lemma_digits_positive(n: nat)
    ensures
        decimal_digits(n) >= 1,
    decreases n,
{
    if n >= 10 {
        lemma_digits_positive(n / 10);
    }
}

/// A number below 2^32 + 1 has at most ten digits.
pub proof fn lemma_digits_at_most_ten(n: nat)
    requires
        n <= u32::MAX + 1,
    ensures
        decimal_digits(n) <= 10,
{
    reveal_with_fuel(decimal_digits, 11);
}

proof fn lemma_digits_bound(n: nat)
    ensures
        decimal_digits(n) <= 1 + n / 10,
    decreases n,
{
    if n >= 10 {
        lemma_digits_bound(n / 10);
        let q = n / 10;
        assert(q / 10 + 1 <= q);
    }
}

/// The last character boundary of `bytes` at or before `m`.
pub open spec fn boundary_at_or_before(bytes: Seq<u8>, m: int) -> int
    decreases m,
{
    if m <= 0 || is_char_boundary(bytes, m) {
        if m <= 0 {
            0
        } else {
            m
        }
    } else {
        boundary_at_or_before(bytes, m - 1)
    }
}

/// A line's text as it is shaped: cut to at most `max_len` bytes, at the
/// last character boundary that allows.
pub fn truncate_line(line: &str, max_len: usize) -> (r: &str)
    ensures
        ({
            let bytes = line.spec_bytes();
            let limit = if bytes.len() <= max_len {
                bytes.len() as int
            } else {
                max_len as int
            };
            r.spec_bytes() == bytes.subrange(0, boundary_at_or_before(bytes, limit))
        }),
{
    let ghost bytes = line.spec_bytes();
    proof {
        encode_utf8_valid_utf8(line@);
    }
    let total = line.as_bytes().len();
    let mut len = if total <= max_len {
        total
    } else {
        max_len
    };
    let ghost limit = len as int;
    while !line.is_char_boundary(len)
        invariant
            len <= bytes.len(),
            bytes == line.spec_bytes(),
            vstd::utf8::valid_utf8(bytes),
            limit == if bytes.len() <= max_len { bytes.len() as int } else { max_len as int },
            boundary_at_or_before(bytes, limit) == boundary_at_or_before(bytes, len as int),
        decreases len,
    {
        len = len - 1;
    }
    assert(boundary_at_or_before(bytes, len as int) == len);
    let parts = line.split_at(len);
    assert(parts.0.spec_bytes() =~= bytes.subrange(0, len as int));
    parts.0
}

/// What kind of editor is laid out: a single line, a box that grows with its
/// content up to a number of lines, or a full editor.
#[derive(Debug, Clone, Copy, PartialEq, Eq, Structural)]
pub enum EditorMode {
    SingleLine,
    AutoHeight { max_lines: u32 },
    Full,
}

/// When the scrollbar shows.
#[derive(Debug, Clone, Copy, PartialEq, Eq, Structural)]
pub enum ShowScrollbar {
    /// Where there is something to mark on it, or the view scrolled lately.
    Auto,
    /// As the host shows scrollbars.
    System,
    Always,
    Never,
}

/// The scrollbar settings: when it shows, and whether it marks version
/// control changes and search results.
#[derive(Debug, Clone, Copy, PartialEq, Eq, Structural)]
pub struct ScrollbarSettings {
    pub show: ShowScrollbar,
    pub git_diff: bool,
    pub selections: bool,
}

pub open spec fn scrollbars_shown(
    settings: ScrollbarSettings,
    is_singleton: bool,
    has_git_diffs: bool,
    has_highlighted_ranges: bool,
    recently_scrolled: bool,
) -> bool {
    match settings.show {
        ShowScrollbar::Auto => (is_singleton && settings.git_diff && has_git_diffs) || (is_singleton
            && settings.selections && has_highlighted_ranges) || recently_scrolled,
        ShowScrollbar::System => recently_scrolled,
        ShowScrollbar::Always => true,
        ShowScrollbar::Never => false,
    }
}

/// Whether the scrollbar shows this frame. `recently_scrolled` is whether
/// the scroll state holds scrollbars visible after a scroll.
pub fn show_scrollbars(
    settings: ScrollbarSettings,
    is_singleton: bool,
    has_git_diffs: bool,
    has_highlighted_ranges: bool,
    recently_scrolled: bool,
) -> (r: bool)
    ensures
        r == scrollbars_shown(
            settings,
            is_singleton,
            has_git_diffs,
            has_highlighted_ranges,
            recently_scrolled,
        ),
{
    match settings.show {
        ShowScrollbar::Auto => (is_singleton && settings.git_diff && has_git_diffs) || (is_singleton
            && settings.selections && has_highlighted_ranges) || recently_scrolled,
        ShowScrollbar::System => recently_scrolled,
        ShowScrollbar::Always => true,
        ShowScrollbar::Never => false,
    }
}

/// What a full editor alone draws: whitespace markers, the active-line
/// background, line numbers and a scrollbar (its track only where it
/// shows).
#[derive(Debug, Clone, Copy, PartialEq, Eq, Structural)]
pub struct ModeFeatures {
    pub invisibles: bool,
    pub active_line_background: bool,
    pub line_numbers: bool,
    pub scrollbar: bool,
    pub scrollbar_track: bool,
}

pub fn mode_features(mode: EditorMode, show_scrollbars: bool) -> (r: ModeFeatures)
    ensures
        r.invisibles == (mode == EditorMode::Full),
        r.active_line_background == (mode == EditorMode::Full),
        r.line_numbers == (mode == EditorMode::Full),
        r.scrollbar == (mode == EditorMode::Full),
        r.scrollbar_track == (mode == EditorMode::Full && show_scrollbars),
{
    let full = matches!(mode, EditorMode::Full);
    ModeFeatures {
        invisibles: full,
        active_line_background: full,
        line_numbers: full,
        scrollbar: full,
        scrollbar_track: full && show_scrollbars,
    }
}

/// How soft wrapping is set for the editor.
#[derive(Debug, Clone, Copy, PartialEq, Eq, Structural)]
pub enum SoftWrap {
    Unwrapped,
    EditorWidth,
    Column(u32),
}

/// The gutter's inner padding, its width and the margin between it and the
/// text.
#[derive(Debug, Clone, Copy, PartialEq, Eq, Structural)]
pub struct GutterDimensions {
    pub padding: i64,
    pub width: i64,
    pub margin: i64,
}

/// The gutter for line numbers `number_width` wide: padded on each side by
/// three and a half `em_width`, rounded, with a margin of the font's descent
/// below the baseline; nothing where no gutter is shown.
pub fn gutter_dimensions(show_gutter: bool, number_width: i64, em_width: i64, descent: i64) -> (r:
    GutterDimensions)
    requires
        0 <= number_width <= MAX_COORD,
        0 <= em_width <= MAX_COORD,
        -MAX_COORD <= descent <= 0,
    ensures
        show_gutter ==> r.padding == (7 * em_width + 1) / 2 && r.width == number_width + 2
            * r.padding && r.margin == -descent,
        !show_gutter ==> r.padding == 0 && r.width == 0 && r.margin == 0,
{
    if show_gutter {
        let padding = (7 * em_width + 1) / 2;
        GutterDimensions { padding, width: number_width + 2 * padding, margin: -descent }
    } else {
        GutterDimensions { padding: 0, width: 0, margin: 0 }
    }
}

pub open spec fn wrap_width_of(
    mode: SoftWrap,
    text_width: int,
    gutter_margin: int,
    em_width: int,
    em_advance: int,
) -> int {
    let editor_width = text_width - gutter_margin - 2 * em_width;
    match mode {
        SoftWrap::Unwrapped => (MAX_LINE_LEN / 2) * em_advance,
        SoftWrap::EditorWidth => editor_width,
        SoftWrap::Column(c) => if editor_width <= c * em_advance {
            editor_width
        } else {
            c * em_advance
        },
    }
}

/// The width at which lines wrap: with no soft wrap, half the longest line
/// that is shaped; to the editor, the text width less the gutter margin, a
/// character of overscroll and one more; at a column, that many characters
/// or the editor's width, whichever is less.
pub fn wrap_width(
    mode: SoftWrap,
    text_width: i64,
    gutter_margin: i64,
    em_width: i64,
    em_advance: i64,
) -> (r: i64)
    requires
        -MAX_COORD <= text_width <= MAX_COORD,
        0 <= gutter_margin <= MAX_COORD,
        0 <= em_width <= MAX_COORD,
        0 <= em_advance <= MAX_COORD,
    ensures
        r == wrap_width_of(mode, text_width as int, gutter_margin as int, em_width as int, em_advance as int),
{
    let editor_width = text_width - gutter_margin - em_width - em_width;
    proof {
        assert(0 <= (MAX_LINE_LEN / 2) * em_advance <= 512 * MAX_COORD) by (nonlinear_arith)
            requires
                0 <= em_advance <= MAX_COORD,
                MAX_LINE_LEN / 2 == 512,
        ;
    }
    match mode {
        SoftWrap::Unwrapped => (MAX_LINE_LEN / 2) * em_advance,
        SoftWrap::EditorWidth => editor_width,
        SoftWrap::Column(c) => {
            proof {
                assert(0 <= c * em_advance <= u32::MAX * MAX_COORD) by (nonlinear_arith)
                    requires
                        0 <= c <= u32::MAX,
                        0 <= em_advance <= MAX_COORD,
                ;
            }
            let columns = (c as i128) * (em_advance as i128);
            if (editor_width as i128) <= columns {
                editor_width
            } else {
                columns as i64
            }
        },
    }
}

pub open spec fn scroll_extent_of(longest: int, widest_visible: int, em_width: int, text_width: int) -> int {
    let widest = if longest >= widest_visible {
        longest
    } else {
        widest_visible
    };
    let over = widest + em_width - text_width;
    if over > 0 {
        over
    } else {
        0
    }
}

/// How far the text scrolls right: the wider of the longest line and the
/// widest visible one, plus a character of overscroll, beyond the text
/// area's width; zero where all of it fits.
pub fn horizontal_scroll_max(
    longest_line_width: i64,
    max_visible_line_width: i64,
    em_width: i64,
    text_width: i64,
) -> (r: i64)
    requires
        0 <= longest_line_width <= MAX_COORD,
        0 <= max_visible_line_width <= MAX_COORD,
        0 <= em_width <= MAX_COORD,
        -MAX_COORD <= text_width <= MAX_COORD,
    ensures
        r == scroll_extent_of(
            longest_line_width as int,
            max_visible_line_width as int,
            em_width as int,
            text_width as int,
        ),
        r >= 0,
{
    let widest = if longest_line_width >= max_visible_line_width {
        longest_line_width
    } else {
        max_visible_line_width
    };
    let over = widest + em_width - text_width;
    if over > 0 {
        over
    } else {
        0
    }
}

/// The height of an editor that grows with its content: one row per display
/// row, at least one row, and at most `max_lines` rows.
pub fn auto_height(max_row: u32, line_height: i64, max_lines: u32) -> (r: i64)
    requires
        0 <= line_height <= MAX_COORD,
        max_lines <= MAX_ROWS,
    ensures
        ({
            let content = (max_row + 1) * line_height;
            let at_least_one = if content >= line_height {
                content
            } else {
                line_height as int
            };
            let cap = line_height * max_lines;
            r == if at_least_one <= cap {
                at_least_one
            } else {
                cap
            }
        }),
{
    proof {
        assert(0 <= (max_row + 1) * line_height) by (nonlinear_arith)
            requires
                0 <= line_height,
        ;
        assert(0 <= line_height * max_lines <= MAX_COORD * MAX_ROWS) by (nonlinear_arith)
            requires
                0 <= line_height <= MAX_COORD,
                0 <= max_lines <= MAX_ROWS,
        ;
        assert(0 <= (max_row + 1) * line_height <= (u32::MAX + 1) * MAX_COORD) by (nonlinear_arith)
            requires
                0 <= line_height <= MAX_COORD,
                0 <= max_row <= u32::MAX,
        ;
    }
    let content = (max_row as i128 + 1) * (line_height as i128);
    let at_least_one = if content >= line_height as i128 {
        content
    } else {
        line_height as i128
    };
    let cap = (line_height as i128) * (max_lines as i128);
    if at_least_one <= cap {
        at_least_one as i64
    } else {
        cap as i64
    }
}

/// Marks on the visible rows `window.start..=window.end`: whether any
/// selection touches a row (`Some`) and whether one that does is non-empty.
pub struct ActiveRows {
    pub window: Range<u32>,
    pub marks: Vec<Option<bool>>,
}

impl ActiveRows {
    pub open spec fn wf(&self) -> bool {
        &&& self.window.start <= self.window.end < u32::MAX
        &&& self.marks@.len() == self.window.end - self.window.start + 1
    }

    /// No marks on the rows `window.start..=window.end`.
    pub fn new(window: Range<u32>) -> (r: ActiveRows)
        requires
            window.start <= window.end < u32::MAX,
        ensures
            r.wf(),
            r.window == window,
            forall|i: int| 0 <= i < r.marks@.len() ==> r.marks@[i] is None,
    {
        let count = (window.end - window.start + 1) as usize;
        let mut marks: Vec<Option<bool>> = Vec::new();
        while marks.len() < count
            invariant
                marks@.len() <= count,
                forall|i: int| 0 <= i < marks@.len() ==> marks@[i] is None,
            decreases count - marks@.len(),
        {
            marks.push(None);
        }
        ActiveRows { window, marks }
    }

    /// Marks the visible rows among a selection's active rows
    /// `rows.start..=rows.end`, noting whether the selection is non-empty.
    pub fn mark(&mut self, rows: Range<u32>, non_empty: bool)
        requires
            old(self).wf(),
        ensures
            final(self).wf(),
            final(self).window == old(self).window,
            forall|i: int|
                0 <= i < old(self).marks@.len() ==> #[trigger] final(self).marks@[i] == if rows.start
                    <= old(self).window.start + i <= rows.end {
                    Some(
                        match old(self).marks@[i] {
                            Some(b) => b || non_empty,
                            None => non_empty,
                        },
                    )
                } else {
                    old(self).marks@[i]
                },
    {
        let from = if rows.start > self.window.start {
            rows.start
        } else {
            self.window.start
        };
        let to = if rows.end < self.window.end {
            rows.end
        } else {
            self.window.end
        };
        let ghost before = self.marks@;
        let mut row = from;
        while row <= to
            invariant
                self.wf(),
                self.window == old(self).window,
                before == old(self).marks@,
                before.len() == self.marks@.len(),
                self.window.start <= from,
                to <= self.window.end,
                from == if rows.start > self.window.start { rows.start } else { self.window.start },
                to == if rows.end < self.window.end { rows.end } else { self.window.end },
                from <= row,
                row <= if from <= to { to + 1 } else { from as int },
                forall|i: int|
                    0 <= i < before.len() ==> #[trigger] self.marks@[i] == if from
                        <= self.window.start + i < row {
                        Some(
                            match before[i] {
                                Some(b) => b || non_empty,
                                None => non_empty,
                            },
                        )
                    } else {
                        before[i]
                    },
            decreases to + 1 - row,
        {
            let i = (row - self.window.start) as usize;
            let mark = match self.marks[i] {
                Some(b) => b || non_empty,
                None => non_empty,
            };
            let ghost marks_before = self.marks@;
            self.marks.set(i, Some(mark));
            proof {
                assert forall|j: int| 0 <= j < before.len() implies #[trigger] self.marks@[j] == if from
                    <= self.window.start + j < row + 1 {
                    Some(
                        match before[j] {
                            Some(b) => b || non_empty,
                            None => non_empty,
                        },
                    )
                } else {
                    before[j]
                } by {
                    if j == i {
                        assert(marks_before[j] == before[j]);
                    } else {
                        assert(self.marks@[j] == marks_before[j]);
                    }
                }
            }
            row = row + 1;
        }
    }

    /// The runs of consecutive rows that a selection touches and no
    /// non-empty one does: the rows that get the active-line background.
    pub fn background_bands(&self) -> (r: Vec<Range<u32>>)
        requires
            self.wf(),
        ensures
            forall|k: int|
                0 <= k < r@.len() ==> self.window.start <= (#[trigger] r@[k]).start < r@[k].end
                    <= self.window.end + 1,
            forall|k: int| 0 < k < r@.len() ==> r@[k - 1].end < (#[trigger] r@[k]).start,
            forall|i: int|
                0 <= i < self.marks@.len() ==> (#[trigger] self.marks@[i] == Some(false) <==> exists|
                    k: int,
                |
                    0 <= k < r@.len() && (#[trigger] r@[k]).start <= self.window.start + i
                        < r@[k].end),
    {
        let mut bands: Vec<Range<u32>> = Vec::new();
        let n = self.marks.len();
        let base = self.window.start;
        let mut i: usize = 0;
        while i < n
            invariant
                self.wf(),
                n == self.marks@.len(),
                base == self.window.start,
                i <= n,
                forall|k: int|
                    0 <= k < bands@.len() ==> base <= (#[trigger] bands@[k]).start < bands@[k].end
                        <= base + i,
                forall|k: int| 0 < k < bands@.len() ==> bands@[k - 1].end < (#[trigger] bands@[k]).start,
                bands@.len() > 0 && i < n ==> bands@[bands@.len() - 1].end < base + i || self.marks@[i as int] != Some(false),
                forall|j: int|
                    0 <= j < i ==> (#[trigger] self.marks@[j] == Some(false) <==> exists|k: int|
                        0 <= k < bands@.len() && (#[trigger] bands@[k]).start <= base + j < bands@[k].end),
            decreases n - i,
        {
            if self.marks[i] == Some(false) {
                let start = i;
                while i < n && self.marks[i] == Some(false)
                    invariant
                        self.wf(),
                        n == self.marks@.len(),
                        start <= i <= n,
                        forall|j: int| start <= j < i ==> self.marks@[j] == Some(false),
                    decreases n - i,
                {
                    i = i + 1;
                }
                let ghost old_bands = bands@;
                bands.push((base + start as u32)..(base + i as u32));
                proof {
                    assert forall|j: int|
                        0 <= j < i implies (#[trigger] self.marks@[j] == Some(false)
                            <==> exists|k: int|
                            0 <= k < bands@.len() && (#[trigger] bands@[k]).start <= base + j
                                < bands@[k].end) by {
                        let row = base + j;
                        if j < start {
                            if self.marks@[j] == Some(false) {
                                let k = choose|k: int|
                                    0 <= k < old_bands.len() && (#[trigger] old_bands[k]).start <= row
                                        < old_bands[k].end;
                                assert(bands@[k] == old_bands[k]);
                            } else {
                                assert forall|k: int| 0 <= k < bands@.len() implies !((#[trigger] bands@[k]).start <= row < bands@[k].end) by {
                                    if k < old_bands.len() {
                                        assert(bands@[k] == old_bands[k]);
                                    }
                                }
                            }
                        } else {
                            assert(bands@[bands@.len() - 1].start <= row < bands@[bands@.len() - 1].end);
                        }
                    }
                }
            } else {
                i = i + 1;
            }
        }
        bands
    }
}

} // verus!
