//! Raw pointer input as the window host delivers it: a position in
//! window-client coordinates plus modifier flags, re-expressed in each
//! node's local coordinate space as it travels down the tree.

use vstd::prelude::*;

use crate::geometry::{clamp_coord, coord_sub, Point};

verus! {

#[derive(Clone, Copy, Debug, PartialEq, Eq, Hash)]
pub enum MouseEventType {
    MouseDown,
    MouseUp,
    MouseMove,
    DoubleClick,
}

/// Modifier bit for the control key.
pub const MODIFIER_CONTROL: u32 = 1;

/// Modifier bit for the shift key.
pub const MODIFIER_SHIFT: u32 = 2;

/// Modifier bit for the right mouse button.
pub const MODIFIER_RIGHT_MOUSE: u32 = 4;

#[derive(Clone, Copy, Debug, PartialEq, Eq, Structural)]
pub struct MouseEvent {
    pub modifiers: u32,
    pub global_position: Point,
    pub local_position: Point,
    pub delta_position: Point,
}

/// What `to_local` returns: the same event with the local position
/// translated by `-position` (clamped back into coordinate range).
pub open spec fn spec_to_local(e: MouseEvent, position: Point) -> MouseEvent {
    MouseEvent {
        local_position: Point {
            x: clamp_coord(e.local_position.x - position.x) as i64,
            y: clamp_coord(e.local_position.y - position.y) as i64,
        },
        ..e
    }
}

impl MouseEvent {
    pub open spec fn wf(self) -> bool {
        self.global_position.wf() && self.local_position.wf() && self.delta_position.wf()
    }

    pub open spec fn spec_local_position(self) -> Point {
        self.local_position
    }

    pub open spec fn spec_modifiers(self) -> u32 {
        self.modifiers
    }

    pub open spec fn spec_delta_position(self) -> Point {
        self.delta_position
    }

    pub fn new(modifiers: u32, global_position: &Point, local_position: &Point) -> (r: MouseEvent)
        ensures
            r == (MouseEvent {
                modifiers,
                global_position: *global_position,
                local_position: *local_position,
                delta_position: Point { x: 0, y: 0 },
            }),
    {
        MouseEvent {
            modifiers,
            global_position: *global_position,
            local_position: *local_position,
            delta_position: Point { x: 0, y: 0 },
        }
    }

    pub fn new_with_delta(
        modifiers: u32,
        global_position: &Point,
        local_position: &Point,
        delta_position: &Point,
    ) -> (r: MouseEvent)
        ensures
            r == (MouseEvent {
                modifiers,
                global_position: *global_position,
                local_position: *local_position,
                delta_position: *delta_position,
            }),
    {
        MouseEvent {
            modifiers,
            global_position: *global_position,
            local_position: *local_position,
            delta_position: *delta_position,
        }
    }

    /// The same event translated into the coordinate space of a child
    /// positioned at `position`.
    pub fn to_local(&self, position: &Point) -> (r: MouseEvent)
        requires
            self.wf(),
            position.wf(),
        ensures
            r == spec_to_local(*self, *position),
            r.wf(),
    {
        MouseEvent {
            local_position: Point {
                x: coord_sub(self.local_position.x, position.x),
                y: coord_sub(self.local_position.y, position.y),
            },
            ..*self
        }
    }

    pub fn is_control_down(&self) -> (r: bool)
        ensures
            r == ((self.modifiers & MODIFIER_CONTROL) != 0),
    {
        (self.modifiers & MODIFIER_CONTROL) != 0
    }

    pub fn is_shift_down(&self) -> (r: bool)
        ensures
            r == ((self.modifiers & MODIFIER_SHIFT) != 0),
    {
        (self.modifiers & MODIFIER_SHIFT) != 0
    }

    pub fn is_right_mouse(&self) -> (r: bool)
        ensures
            r == ((self.modifiers & MODIFIER_RIGHT_MOUSE) != 0),
    {
        (self.modifiers & MODIFIER_RIGHT_MOUSE) != 0
    }

    pub fn global_position(&self) -> (r: &Point)
        ensures
            r == self.global_position,
    {
        &self.global_position
    }

    pub fn local_position(&self) -> (r: &Point)
        ensures
            r == self.local_position,
    {
        &self.local_position
    }

    pub fn delta_position(&self) -> (r: &Point)
        ensures
            r == self.delta_position,
    {
        &self.delta_position
    }
}

} // verus!
