//! Cursor geometry: the box a cursor occupies, and the quad drawn for each
//! cursor shape.

use vstd::prelude::*;
use crate::highlight::MAX_COORD;
use crate::selection::CursorShape;

verus! {

/// An axis-aligned box in device units.
#[derive(Debug, Clone, Copy, PartialEq, Eq, Structural)]
pub struct Rect {
    pub x: i64,
    pub y: i64,
    pub width: i64,
    pub height: i64,
}

/// The thickness of a bar or underscore cursor.
pub const CURSOR_STROKE: i64 = 2;

/// A cursor placed at `origin_x, origin_y` relative to the text's origin.
#[derive(Debug, Clone, Copy, PartialEq, Eq, Structural)]
pub struct Cursor {
    pub origin_x: i64,
    pub origin_y: i64,
    pub block_width: i64,
    pub line_height: i64,
    pub shape: CursorShape,
}

impl Cursor {
    pub open spec fn fits(&self) -> bool {
        &&& -MAX_COORD <= self.origin_x <= MAX_COORD
        &&& -MAX_COORD <= self.origin_y <= MAX_COORD
        &&& 0 <= self.block_width <= MAX_COORD
        &&& 0 <= self.line_height <= MAX_COORD
    }

    pub fn new(origin_x: i64, origin_y: i64, block_width: i64, line_height: i64, shape: CursorShape) -> (r:
        Cursor)
        ensures
            r == (Cursor { origin_x, origin_y, block_width, line_height, shape }),
    {
        Cursor { origin_x, origin_y, block_width, line_height, shape }
    }

    /// The box of a full-width cursor, with the text's origin at `x, y`.
    pub fn bounding_rect(&self, x: i64, y: i64) -> (r: Rect)
        requires
            self.fits(),
            -MAX_COORD <= x <= MAX_COORD,
            -MAX_COORD <= y <= MAX_COORD,
        ensures
            r == (Rect {
                x: (self.origin_x + x) as i64,
                y: (self.origin_y + y) as i64,
                width: self.block_width,
                height: self.line_height,
            }),
    {
        Rect { x: self.origin_x + x, y: self.origin_y + y, width: self.block_width, height: self.line_height }
    }

    /// The quad drawn for the cursor: a thin bar at its left, a full box for
    /// a block or a hollow cursor, a thin line along its foot for an
    /// underscore.
    pub fn paint_rect(&self, x: i64, y: i64) -> (r: Rect)
        requires
            self.fits(),
            -MAX_COORD <= x <= MAX_COORD,
            -MAX_COORD <= y <= MAX_COORD,
        ensures
            r == match self.shape {
                CursorShape::Bar => Rect {
                    x: (self.origin_x + x) as i64,
                    y: (self.origin_y + y) as i64,
                    width: CURSOR_STROKE,
                    height: self.line_height,
                },
                CursorShape::Block | CursorShape::Hollow => Rect {
                    x: (self.origin_x + x) as i64,
                    y: (self.origin_y + y) as i64,
                    width: self.block_width,
                    height: self.line_height,
                },
                CursorShape::Underscore => Rect {
                    x: (self.origin_x + x) as i64,
                    y: (self.origin_y + y + self.line_height - CURSOR_STROKE) as i64,
                    width: self.block_width,
                    height: CURSOR_STROKE,
                },
            },
    {
        let left = self.origin_x + x;
        let top = self.origin_y + y;
        match self.shape {
            CursorShape::Bar => Rect { x: left, y: top, width: CURSOR_STROKE, height: self.line_height },
            CursorShape::Block | CursorShape::Hollow => Rect {
                x: left,
                y: top,
                width: self.block_width,
                height: self.line_height,
            },
            CursorShape::Underscore => Rect {
                x: left,
                y: top + self.line_height - CURSOR_STROKE,
                width: self.block_width,
                height: CURSOR_STROKE,
            },
        }
    }

    /// The cursor's centre, with the text's origin at `x, y`.
    pub open spec fn center_at(&self, x: int, y: int) -> (i64, i64) {
        (
            (x + self.origin_x + self.block_width / 2) as i64,
            (y + self.origin_y + self.line_height / 2) as i64,
        )
    }

    /// The cursor's centre, with the text's origin at `x, y`.
    pub fn center(&self, x: i64, y: i64) -> (r: (i64, i64))
        requires
            self.fits(),
            -MAX_COORD <= x <= MAX_COORD,
            -MAX_COORD <= y <= MAX_COORD,
        ensures
            r == self.center_at(x as int, y as int),
    {
        (x + self.origin_x + self.block_width / 2, y + self.origin_y + self.line_height / 2)
    }

    /// Whether the cursor is drawn as an outline rather than filled.
    pub fn is_outlined(&self) -> (r: bool)
        ensures
            r == (self.shape == CursorShape::Hollow),
    {
        matches!(self.shape, CursorShape::Hollow)
    }

    pub fn shape(&self) -> (r: CursorShape)
        ensures
            r == self.shape,
    {
        self.shape
    }
}

} // verus!
