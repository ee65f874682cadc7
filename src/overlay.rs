//! Placement of menus and popovers next to the cursor, flipped above or
//! below the cursor's row by the room there is.

use vstd::prelude::*;
use crate::highlight::{MAX_COORD, MAX_ROWS};

verus! {

#[derive(Debug, Clone, Copy, PartialEq, Eq, Structural)]
pub struct OverlayPoint {
    pub x: i64,
    pub y: i64,
}

#[derive(Debug, Clone, Copy, PartialEq, Eq, Structural)]
pub struct OverlaySize {
    pub width: i64,
    pub height: i64,
}

pub open spec fn coord_fits(v: int) -> bool {
    -MAX_COORD <= v <= MAX_COORD
}

pub open spec fn size_fits(s: OverlaySize) -> bool {
    0 <= s.width <= MAX_COORD && 0 <= s.height <= MAX_COORD
}

/// Where a context menu opens: at `below_cursor`, the foot of the cursor's
/// row; moved left to end at the viewport's right edge (no further than its
/// left edge) where it would overflow it, and above the row where it would
/// overflow the text area's bottom.
pub fn context_menu_origin(
    below_cursor: OverlayPoint,
    size: OverlaySize,
    line_height: i64,
    viewport_width: i64,
    text_bottom: i64,
) -> (r: OverlayPoint)
    requires
        coord_fits(below_cursor.x as int),
        coord_fits(below_cursor.y as int),
        size_fits(size),
        0 <= line_height <= MAX_COORD,
        0 <= viewport_width <= MAX_COORD,
        coord_fits(text_bottom as int),
    ensures
        r.x == if below_cursor.x + size.width > viewport_width {
            if viewport_width - size.width > 0 {
                viewport_width - size.width
            } else {
                0
            }
        } else {
            below_cursor.x as int
        },
        r.y == if below_cursor.y + size.height > text_bottom {
            below_cursor.y - (line_height + size.height)
        } else {
            below_cursor.y as int
        },
{
    let mut origin = below_cursor;
    if origin.x + size.width > viewport_width {
        origin.x = if viewport_width - size.width > 0 {
            viewport_width - size.width
        } else {
            0
        };
    }
    if origin.y + size.height > text_bottom {
        origin.y = origin.y - (line_height + size.height);
    }
    origin
}

/// Whether popovers go above the hovered point: where the room above it
/// exceeds the height to reserve.
pub open spec fn popovers_above(hovered: OverlayPoint, reserve: int) -> bool {
    hovered.y - reserve > 0
}

/// The top of popover `i`'s slot: popovers stack upward from the hovered
/// point, or downward from the foot of its row, `gap` apart.
pub open spec fn popover_y(
    sizes: Seq<OverlaySize>,
    hovered: OverlayPoint,
    line_height: int,
    reserve: int,
    gap: int,
    i: int,
) -> int
    decreases i,
{
    if popovers_above(hovered, reserve) {
        if i <= 0 {
            hovered.y - sizes[0].height
        } else {
            popover_y(sizes, hovered, line_height, reserve, gap, i - 1) - gap - sizes[i].height
        }
    } else {
        if i <= 0 {
            hovered.y + line_height
        } else {
            popover_y(sizes, hovered, line_height, reserve, gap, i - 1) + sizes[i - 1].height + gap
        }
    }
}

/// The left of a popover: at the hovered point, moved left so as not to pass
/// the text area's right edge.
pub open spec fn popover_x(size: OverlaySize, hovered: OverlayPoint, text_right: int) -> int {
    let out = text_right - (hovered.x + size.width);
    if out < 0 {
        hovered.x + out
    } else {
        hovered.x as int
    }
}

/// The origins of hover popovers of the given sizes, in order.
pub fn hover_popover_origins(
    hovered: OverlayPoint,
    line_height: i64,
    sizes: &Vec<OverlaySize>,
    reserve: i64,
    text_right: i64,
    gap: i64,
) -> (r: Vec<OverlayPoint>)
    requires
        coord_fits(hovered.x as int),
        coord_fits(hovered.y as int),
        0 <= line_height <= MAX_COORD,
        0 <= reserve <= MAX_COORD,
        coord_fits(text_right as int),
        0 <= gap <= MAX_COORD,
        sizes@.len() <= MAX_ROWS,
        forall|i: int| 0 <= i < sizes@.len() ==> size_fits(#[trigger] sizes@[i]),
    ensures
        r@.len() == sizes@.len(),
        forall|i: int|
            0 <= i < sizes@.len() ==> (#[trigger] r@[i]).x == popover_x(
                sizes@[i],
                hovered,
                text_right as int,
            ) && r@[i].y == popover_y(
                sizes@,
                hovered,
                line_height as int,
                reserve as int,
                gap as int,
                i,
            ),
{
    let above = hovered.y - reserve > 0;
    let mut origins: Vec<OverlayPoint> = Vec::new();
    let mut current_y: i64 = if above {
        hovered.y
    } else {
        hovered.y + line_height
    };
    let mut i: usize = 0;
    while i < sizes.len()
        invariant
            above == popovers_above(hovered, reserve as int),
            coord_fits(hovered.x as int),
            coord_fits(hovered.y as int),
            0 <= line_height <= MAX_COORD,
            0 <= gap <= MAX_COORD,
            coord_fits(text_right as int),
            sizes@.len() <= MAX_ROWS,
            forall|j: int| 0 <= j < sizes@.len() ==> size_fits(#[trigger] sizes@[j]),
            i <= sizes@.len(),
            origins@.len() == i,
            -(3 * MAX_COORD * (i + 1)) <= current_y <= 3 * MAX_COORD * (i + 1),
            i > 0 ==> current_y == if above {
                popover_y(sizes@, hovered, line_height as int, reserve as int, gap as int, i - 1) - gap
            } else {
                popover_y(sizes@, hovered, line_height as int, reserve as int, gap as int, i - 1)
                    + sizes@[i - 1].height + gap
            },
            i == 0 ==> current_y == if above {
                hovered.y as int
            } else {
                hovered.y + line_height
            },
            forall|j: int|
                0 <= j < i ==> (#[trigger] origins@[j]).x == popover_x(
                    sizes@[j],
                    hovered,
                    text_right as int,
                ) && origins@[j].y == popover_y(
                    sizes@,
                    hovered,
                    line_height as int,
                    reserve as int,
                    gap as int,
                    j,
                ),
        decreases sizes@.len() - i,
    {
        let size = sizes[i];
        assert(size_fits(sizes@[i as int]));
        assert(3 * MAX_COORD * (i + 2) <= 3 * MAX_COORD * (MAX_ROWS + 1)) by (nonlinear_arith)
            requires
                i < MAX_ROWS,
        ;
        assert(3 * MAX_COORD * (i + 1) <= 3 * MAX_COORD * (MAX_ROWS + 1)) by (nonlinear_arith)
            requires
                i < MAX_ROWS,
        ;
        assert(3 * MAX_COORD * (i + 1) >= 0) by (nonlinear_arith);
        assert(3 * MAX_COORD * (MAX_ROWS + 1) + 3 * MAX_COORD < i64::MAX);
        let y = if above {
            current_y - size.height
        } else {
            current_y
        };
        let out = text_right - (hovered.x + size.width);
        let x = if out < 0 {
            hovered.x + out
        } else {
            hovered.x
        };
        origins.push(OverlayPoint { x, y });
        current_y = if above {
            y - gap
        } else {
            y + size.height + gap
        };
        proof {
            assert(3 * MAX_COORD * (i + 1) + 3 * MAX_COORD == 3 * MAX_COORD * ((i + 1) + 1)) by (nonlinear_arith);
        }
        i = i + 1;
    }
    origins
}

} // verus!
