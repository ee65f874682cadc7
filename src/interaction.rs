//! What pointer events do to the selection and the scroll position: each
//! handler decides from the event and the frame's geometry, and the caller
//! applies the result before the next frame.

use vstd::prelude::*;
use crate::display::DisplayPoint;
use crate::position::PointForPosition;
use crate::scroll::{clamp_to, step, ScrollPosition};

verus! {

#[derive(Debug, Clone, Copy, PartialEq, Eq, Structural)]
pub struct Modifiers {
    pub shift: bool,
    pub alt: bool,
    pub control: bool,
    pub command: bool,
}

/// A step of a drag gesture on the selection.
#[derive(Debug, Clone, Copy, PartialEq, Eq, Structural)]
pub enum SelectPhase {
    Begin { position: DisplayPoint, add: bool, click_count: u32 },
    BeginColumnar { position: DisplayPoint, goal_column: u32 },
    Extend { position: DisplayPoint, click_count: u32 },
    Update { position: DisplayPoint, goal_column: u32, scroll_position: ScrollPosition },
    End,
}

/// The phase a left button press starts. A press in the gutter selects
/// whole lines, as a triple click does; one outside the text area, or under
/// another layer, starts nothing. Shift with alt starts a rectangular
/// selection; shift alone extends the current one; else a selection begins,
/// added to the others where alt is held.
pub fn left_down_phase(
    in_gutter: bool,
    in_text: bool,
    on_top: bool,
    click_count: u32,
    modifiers: Modifiers,
    point: PointForPosition,
) -> (r: Option<SelectPhase>)
    ensures
        ({
            let clicks = if in_gutter {
                3
            } else {
                click_count
            };
            let position = point.previous_valid;
            if !(in_gutter || in_text) || !on_top {
                r is None
            } else if modifiers.shift && modifiers.alt {
                r == Some(
                    SelectPhase::BeginColumnar {
                        position,
                        goal_column: point.exact_unclipped.column,
                    },
                )
            } else if modifiers.shift && !modifiers.control && !modifiers.alt && !modifiers.command {
                r == Some(SelectPhase::Extend { position, click_count: clicks })
            } else {
                r == Some(SelectPhase::Begin { position, add: modifiers.alt, click_count: clicks })
            }
        }),
{
    let clicks = if in_gutter {
        3
    } else {
        if !in_text {
            return None;
        }
        click_count
    };
    if !on_top {
        return None;
    }
    let position = point.previous_valid;
    if modifiers.shift && modifiers.alt {
        Some(SelectPhase::BeginColumnar { position, goal_column: point.exact_unclipped.column })
    } else if modifiers.shift && !modifiers.control && !modifiers.alt && !modifiers.command {
        Some(SelectPhase::Extend { position, click_count: clicks })
    } else {
        Some(SelectPhase::Begin { position, add: modifiers.alt, click_count: clicks })
    }
}

/// Where a right button press opens the context menu: at the point under it,
/// where it is in the text area. The selection is left as it is.
pub fn right_down_menu_point(in_text: bool, point: PointForPosition) -> (r: Option<DisplayPoint>)
    ensures
        r == if in_text {
            Some(point.previous_valid)
        } else {
            None
        },
{
    if in_text {
        Some(point.previous_valid)
    } else {
        None
    }
}

/// Which definition a command-click goes to, and whether in a split.
#[derive(Debug, Clone, Copy, PartialEq, Eq, Structural)]
pub struct GoToDefinition {
    pub type_definition: bool,
    pub split: bool,
}

/// What a button release does.
#[derive(Debug, Clone, Copy, PartialEq, Eq, Structural)]
pub struct MouseUpAction {
    pub end_selection: bool,
    pub go_to: Option<GoToDefinition>,
    pub stop_propagation: bool,
}

/// A release ends a pending selection. With command held, over the text
/// area's top layer, and no non-empty selection pending, it goes to the
/// definition under the pointer: the type's where shift is held or the
/// pointer is on no valid point (an inlay), in a split where alt is held.
pub fn mouse_up_action(
    has_pending_selection: bool,
    pending_nonempty_selection: bool,
    modifiers: Modifiers,
    in_text: bool,
    on_top: bool,
    point: PointForPosition,
) -> (r: MouseUpAction)
    ensures
        r.end_selection == has_pending_selection,
        ({
            let goes = !pending_nonempty_selection && modifiers.command && in_text && on_top;
            let on_valid = point.previous_valid == point.exact_unclipped && point.next_valid
                == point.exact_unclipped;
            &&& r.go_to == if goes {
                Some(
                    GoToDefinition {
                        type_definition: modifiers.shift || !on_valid,
                        split: modifiers.alt,
                    },
                )
            } else {
                None
            }
            &&& r.stop_propagation == (goes || has_pending_selection)
        }),
{
    let goes = !pending_nonempty_selection && modifiers.command && in_text && on_top;
    let go_to = if goes {
        let could_be_inlay = point.as_valid().is_none();
        Some(GoToDefinition { type_definition: modifiers.shift || could_be_inlay, split: modifiers.alt })
    } else {
        None
    };
    MouseUpAction {
        end_selection: has_pending_selection,
        go_to,
        stop_propagation: goes || has_pending_selection,
    }
}

/// What a change of modifier keys does to the go-to-definition link.
#[derive(Debug, Clone, Copy, PartialEq, Eq, Structural)]
pub enum LinkAction {
    /// Show the link at the last hovered point; shift asks for the type's
    /// definition.
    Show { shift: bool },
    /// Drop any link shown.
    Clear,
}

/// With command held, no selection pending and a point hovered before, the
/// link under that point is shown; otherwise any link goes.
pub fn modifiers_changed_action(
    has_trigger_point: bool,
    pending_selection: bool,
    modifiers: Modifiers,
) -> (r: LinkAction)
    ensures
        r == if has_trigger_point && modifiers.command && !pending_selection {
            LinkAction::Show { shift: modifiers.shift }
        } else {
            LinkAction::Clear
        },
{
    if has_trigger_point && modifiers.command && !pending_selection {
        LinkAction::Show { shift: modifiers.shift }
    } else {
        LinkAction::Clear
    }
}

/// The update a drag sends while a selection is pending: the point under
/// the pointer, its unclipped column as the goal, and the scroll position
/// moved by the autoscroll delta and held to `0..=max`.
pub fn drag_update(
    point: PointForPosition,
    scroll_position: ScrollPosition,
    autoscroll_delta: ScrollPosition,
    max: ScrollPosition,
) -> (r: SelectPhase)
    requires
        max.x >= 0,
        max.y >= 0,
    ensures
        r == (SelectPhase::Update {
            position: point.previous_valid,
            goal_column: point.exact_unclipped.column,
            scroll_position: step(scroll_position, autoscroll_delta, max),
        }),
{
    SelectPhase::Update {
        position: point.previous_valid,
        goal_column: point.exact_unclipped.column,
        scroll_position: crate::scroll::scroll_by(scroll_position, autoscroll_delta, max),
    }
}

/// The scroll position after a wheel turn: content moves with the wheel, so
/// the position moves against its delta, held to `0..=max`.
pub fn wheel_scroll(
    position: ScrollPosition,
    wheel_delta: ScrollPosition,
    max: ScrollPosition,
) -> (r: ScrollPosition)
    requires
        max.x >= 0,
        max.y >= 0,
    ensures
        r.x == clamp_to(position.x - wheel_delta.x, max.x as int),
        r.y == clamp_to(position.y - wheel_delta.y, max.y as int),
{
    ScrollPosition {
        x: clamp_wide(position.x as i128 - wheel_delta.x as i128, max.x),
        y: clamp_wide(position.y as i128 - wheel_delta.y as i128, max.y),
    }
}

fn clamp_wide(v: i128, max: i64) -> (r: i64)
    requires
        max >= 0,
    ensures
        r == clamp_to(v as int, max as int),
{
    if v < 0 {
        0
    } else if v > max as i128 {
        max
    } else {
        v as i64
    }
}

} // verus!
