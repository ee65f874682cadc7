//! Scroll state of the view in integer device units: clamping into the
//! scrollable extent, the band near the edges where a drag scrolls, and the
//! rows that a scroll offset shows.

use vstd::prelude::*;
use crate::highlight::MAX_COORD;
use std::ops::Range;

verus! {

/// How far the content is scrolled, left and down.
#[derive(Debug, Clone, Copy, PartialEq, Eq, Structural)]
pub struct ScrollPosition {
    pub x: i64,
    pub y: i64,
}

pub open spec fn clamp_to(v: int, max: int) -> int {
    if v < 0 {
        0
    } else if v > max {
        max
    } else {
        v
    }
}

pub open spec fn within(p: ScrollPosition, max: ScrollPosition) -> bool {
    0 <= p.x <= max.x && 0 <= p.y <= max.y
}

/// The position reached from `p` by `delta`, held to `0..=max` on each axis.
pub open spec fn step(p: ScrollPosition, delta: ScrollPosition, max: ScrollPosition) -> ScrollPosition {
    ScrollPosition {
        x: clamp_to(p.x + delta.x, max.x as int) as i64,
        y: clamp_to(p.y + delta.y, max.y as int) as i64,
    }
}

/// The position after scrolling by each delta in turn.
pub open spec fn scroll_after(
    start: ScrollPosition,
    deltas: Seq<ScrollPosition>,
    max: ScrollPosition,
) -> ScrollPosition
    decreases deltas.len(),
{
    if deltas.len() == 0 {
        start
    } else {
        step(scroll_after(start, deltas.drop_last(), max), deltas.last(), max)
    }
}

fn clamp_axis(v: i128, max: i64) -> (r: i64)
    requires
        max >= 0,
    ensures
        r == clamp_to(v as int, max as int),
{
    if v < 0 {
        0
    } else if v > max as i128 {
        max
    } else {
        v as i64
    }
}

/// Holds a position to the scrollable extent `0..=max`.
pub fn clamp_scroll_position(position: ScrollPosition, max: ScrollPosition) -> (r: ScrollPosition)
    requires
        max.x >= 0,
        max.y >= 0,
    ensures
        r.x == clamp_to(position.x as int, max.x as int),
        r.y == clamp_to(position.y as int, max.y as int),
        within(r, max),
{
    ScrollPosition { x: clamp_axis(position.x as i128, max.x), y: clamp_axis(position.y as i128, max.y) }
}

/// Scrolls by `delta` and holds the result to `0..=max`, however far the
/// delta overshoots.
pub fn scroll_by(position: ScrollPosition, delta: ScrollPosition, max: ScrollPosition) -> (r:
    ScrollPosition)
    requires
        max.x >= 0,
        max.y >= 0,
    ensures
        r == step(position, delta, max),
        within(r, max),
{
    ScrollPosition {
        x: clamp_axis(position.x as i128 + delta.x as i128, max.x),
        y: clamp_axis(position.y as i128 + delta.y as i128, max.y),
    }
}

/// Whatever deltas autoscroll and drags produce, overshooting or not, the
/// position after them lies in `0..=max`.
pub proof fn lemma_scroll_after_stays_within(
    start: ScrollPosition,
    deltas: Seq<ScrollPosition>,
    max: ScrollPosition,
)
    requires
        max.x >= 0,
        max.y >= 0,
        deltas.len() > 0 || within(start, max),
    ensures
        within(scroll_after(start, deltas, max), max),
{
}

/// The width of the band along an edge in which a drag scrolls: a line
/// height, but no more than a third of the extent.
pub fn autoscroll_margin(line_height: i64, extent: i64) -> (r: i64)
    requires
        0 <= line_height,
        0 <= extent,
    ensures
        r == if line_height <= extent / 3 {
            line_height as int
        } else {
            extent / 3
        },
{
    let third = extent / 3;
    if line_height <= third {
        line_height
    } else {
        third
    }
}

/// How far `position` lies outside `origin + margin ..= origin + extent -
/// margin`: negative before the band, positive past it, zero within.
pub fn autoscroll_overshoot(position: i64, origin: i64, extent: i64, margin: i64) -> (r: i64)
    requires
        -MAX_COORD <= position <= MAX_COORD,
        -MAX_COORD <= origin <= MAX_COORD,
        0 <= margin <= MAX_COORD,
        0 <= extent <= MAX_COORD,
    ensures
        r == if position > origin + extent - margin {
            position - (origin + extent - margin)
        } else if position < origin + margin {
            position - (origin + margin)
        } else {
            0
        },
{
    let low = origin + margin;
    let high = origin + extent - margin;
    if position > high {
        position - high
    } else if position < low {
        position - low
    } else {
        0
    }
}

pub open spec fn ceil_div(a: int, b: int) -> int {
    (a + b - 1) / b
}

pub open spec fn visible_rows_of(scroll_top: int, height: int, line_height: int, max_row: int) -> (
    int,
    int,
) {
    let bottom = ceil_div(scroll_top + height, line_height);
    (scroll_top / line_height, 1 + if bottom <= max_row {
        bottom
    } else {
        max_row
    })
}

/// The display rows to lay out for a scroll offset: from the row at the top
/// through the row cut by the bottom edge, plus one so that selections
/// running off the bottom are drawn, and no further than the last row.
pub fn visible_rows(scroll_top: i64, height: i64, line_height: i64, max_row: u32) -> (r: Range<u32>)
    requires
        0 <= scroll_top <= MAX_COORD,
        0 <= height <= MAX_COORD,
        0 < line_height <= MAX_COORD,
        scroll_top / line_height <= max_row,
        max_row < u32::MAX,
    ensures
        (r.start as int, r.end as int) == visible_rows_of(
            scroll_top as int,
            height as int,
            line_height as int,
            max_row as int,
        ),
        r.start <= r.end <= max_row + 1,
{
    proof {
        vstd::arithmetic::div_mod::lemma_div_is_ordered(
            scroll_top as int,
            scroll_top + height + line_height - 1,
            line_height as int,
        );
    }
    let start = (scroll_top / line_height) as u32;
    let bottom = (scroll_top + height + line_height - 1) / line_height;
    let last = if bottom <= max_row as i64 {
        bottom as u32
    } else {
        max_row
    };
    start..last + 1
}

/// A vertical scrollbar: its track, how much of the content shows, how
/// much there is (the scrollable extent plus one view), and the least height
/// of a thumb.
#[derive(Debug, Clone, Copy, PartialEq, Eq, Structural)]
pub struct Scrollbar {
    pub track_top: i64,
    pub track_height: i64,
    pub visible_height: i64,
    pub content_height: i64,
    pub min_thumb_height: i64,
}

/// The thumb's extent on the track.
#[derive(Debug, Clone, Copy, PartialEq, Eq, Structural)]
pub struct ScrollbarThumb {
    pub top: i64,
    pub bottom: i64,
}

impl Scrollbar {
    /// What a thumb lacks of the least height. Drags and clicks map over a
    /// track shortened by that much.
    pub open spec fn thumb_growth(&self) -> int {
        let natural = self.visible_height * self.track_height / (self.content_height as int);
        if natural < self.min_thumb_height {
            self.min_thumb_height - natural
        } else {
            0
        }
    }

    /// The length of track over which drags and clicks map to content.
    pub open spec fn scaled_height(&self) -> int {
        self.track_height - self.thumb_growth()
    }

    /// The track position of a content position.
    pub open spec fn track_offset(&self, p: int) -> int {
        p * self.track_height / (self.content_height as int)
    }

    /// The thumb's height: the view's share of the track, but no less than
    /// the least height.
    pub open spec fn thumb_height(&self) -> int {
        let natural = self.visible_height * self.track_height / (self.content_height as int);
        if natural < self.min_thumb_height {
            self.min_thumb_height as int
        } else {
            natural
        }
    }

    pub open spec fn fits(&self) -> bool {
        &&& -MAX_COORD <= self.track_top <= MAX_COORD
        &&& 0 < self.track_height <= MAX_COORD
        &&& 0 <= self.visible_height <= self.content_height <= MAX_COORD
        &&& 0 < self.content_height
        &&& 0 <= self.min_thumb_height <= MAX_COORD
        &&& self.scaled_height() > 0
    }

    fn scaled(&self) -> (r: i64)
        requires
            self.fits(),
        ensures
            r == self.scaled_height(),
            0 < r <= MAX_COORD,
    {
        proof {
            lemma_scale_bound(self.visible_height as int, self.track_height as int, self.content_height as int);
        }
        let natural = ((self.visible_height as i128) * (self.track_height as i128)
            / (self.content_height as i128)) as i64;
        if natural < self.min_thumb_height {
            self.track_height - (self.min_thumb_height - natural)
        } else {
            self.track_height
        }
    }

    /// The thumb for content scrolled to `scroll_top`: it starts at that
    /// position's place on the track and is as tall as the view's share of
    /// the track, or the least height where that is less.
    pub fn thumb(&self, scroll_top: i64) -> (r: ScrollbarThumb)
        requires
            self.fits(),
            0 <= scroll_top <= self.content_height - self.visible_height,
        ensures
            r.top == self.track_top + self.track_offset(scroll_top as int),
            r.bottom - r.top == self.thumb_height(),
            self.thumb_height() >= self.min_thumb_height,
    {
        proof {
            lemma_scale_bound(scroll_top as int, self.track_height as int, self.content_height as int);
            lemma_scale_bound(
                self.visible_height as int,
                self.track_height as int,
                self.content_height as int,
            );
        }
        let top_offset = ((scroll_top as i128) * (self.track_height as i128)
            / (self.content_height as i128)) as i64;
        let natural = ((self.visible_height as i128) * (self.track_height as i128)
            / (self.content_height as i128)) as i64;
        let height = if natural < self.min_thumb_height {
            self.min_thumb_height
        } else {
            natural
        };
        let top = self.track_top + top_offset;
        ScrollbarThumb { top, bottom: top + height }
    }

    /// The scroll offset after the thumb is dragged by `dy` from
    /// `scroll_top`: the drag scaled from track to content, held to
    /// `0..=max_scroll`.
    pub fn drag_scroll_top(&self, scroll_top: i64, dy: i64, max_scroll: i64) -> (r: i64)
        requires
            self.fits(),
            -MAX_COORD <= dy <= MAX_COORD,
            -MAX_COORD <= scroll_top <= MAX_COORD,
            0 <= max_scroll,
        ensures
            r == clamp_to(
                scroll_top + scale_toward_zero(dy as int, self.content_height as int, self.scaled_height()),
                max_scroll as int,
            ),
    {
        let scaled = self.scaled();
        let magnitude = if dy >= 0 {
            dy
        } else {
            -dy
        };
        proof {
            lemma_drag_bound(magnitude as int, self.content_height as int, scaled as int);
        }
        let moved = (magnitude as i128) * (self.content_height as i128) / (scaled as i128);
        let delta = if dy >= 0 {
            moved
        } else {
            -moved
        };
        clamp_axis(scroll_top as i128 + delta, max_scroll)
    }

    /// The scroll offset after a click at `y` on the track outside the
    /// thumb: the clicked content position, rounded, less half a view, held
    /// to `0..=max_scroll`.
    pub fn scroll_top_for_click(&self, y: i64, max_scroll: i64) -> (r: i64)
        requires
            self.fits(),
            self.track_top <= y <= self.track_top + self.track_height,
            0 <= max_scroll,
        ensures
            r == clamp_to(
                (2 * (y - self.track_top) * self.content_height + self.scaled_height()) / (2
                    * self.scaled_height()) - self.visible_height / 2,
                max_scroll as int,
            ),
    {
        let scaled = self.scaled();
        let v = (y - self.track_top) as i128;
        proof {
            lemma_click_bound(v as int, self.content_height as int, scaled as int);
        }
        let center = (2 * v * (self.content_height as i128) + scaled as i128) / (2 * scaled as i128);
        clamp_axis(center - (self.visible_height / 2) as i128, max_scroll)
    }
}

/// `a * b / c` with the quotient rounded toward zero.
pub open spec fn scale_toward_zero(a: int, b: int, c: int) -> int {
    if a >= 0 {
        a * b / c
    } else {
        -((-a) * b / c)
    }
}

proof fn lemma_scale_bound(a: int, b: int, c: int)
    requires
        0 <= a <= c,
        0 < c,
        0 <= b <= MAX_COORD,
    ensures
        0 <= a * b <= c * MAX_COORD,
        0 <= a * b / c <= b,
{
    assert(0 <= a * b <= c * b) by (nonlinear_arith)
        requires
            0 <= a <= c,
            0 <= b,
    ;
    assert(c * b <= c * MAX_COORD) by (nonlinear_arith)
        requires
            0 < c,
            b <= MAX_COORD,
    ;
    assert(a * b / c <= c * b / c) by (nonlinear_arith)
        requires
            0 <= a * b <= c * b,
            0 < c,
    ;
    assert(c * b / c == b) by (nonlinear_arith)
        requires
            0 < c,
    ;
    assert(0 <= a * b / c) by (nonlinear_arith)
        requires
            0 <= a * b,
            0 < c,
    ;
}

proof fn lemma_drag_bound(dy: int, c: int, h: int)
    requires
        0 <= dy <= MAX_COORD,
        0 < c <= MAX_COORD,
        0 < h,
    ensures
        0 <= dy * c <= MAX_COORD * MAX_COORD,
        0 <= dy * c / h <= MAX_COORD * MAX_COORD,
{
    assert(0 <= dy * c <= MAX_COORD * MAX_COORD) by (nonlinear_arith)
        requires
            0 <= dy <= MAX_COORD,
            0 < c <= MAX_COORD,
    ;
    assert(0 <= dy * c / h <= dy * c) by (nonlinear_arith)
        requires
            0 <= dy * c,
            0 < h,
    ;
}

proof fn lemma_click_bound(v: int, c: int, h: int)
    requires
        0 <= v <= 2 * MAX_COORD,
        0 < c <= MAX_COORD,
        0 < h <= MAX_COORD,
    ensures
        0 <= 2 * v * c + h <= 8 * MAX_COORD * MAX_COORD,
        0 <= (2 * v * c + h) / (2 * h) <= 8 * MAX_COORD * MAX_COORD,
{
    assert(0 <= 2 * v * c + h <= 8 * MAX_COORD * MAX_COORD) by (nonlinear_arith)
        requires
            0 <= v <= 2 * MAX_COORD,
            0 < c <= MAX_COORD,
            0 < h <= MAX_COORD,
    ;
    assert(0 <= (2 * v * c + h) / (2 * h) <= 2 * v * c + h) by (nonlinear_arith)
        requires
            0 <= 2 * v * c + h,
            0 < h,
    ;
}

} // verus!
