//! The event model a widget sees: pointer events wrapped with their kind,
//! and keyboard input reduced to the keys the toolkit reacts to.

use vstd::prelude::*;

use crate::geometry::Point;
use crate::window_event;

verus! {

/// A pointer event tagged with its kind. Each variant carries the raw
/// event, whose local position is expressed in the coordinate space of the
/// node receiving it.
#[derive(Clone, Copy, Debug, PartialEq, Eq, Structural)]
pub enum MouseEvent {
    MouseMove(window_event::MouseEvent),
    MouseEnter(window_event::MouseEvent),
    MouseLeave(window_event::MouseEvent),
    MouseUp(window_event::MouseEvent),
    MouseDown(window_event::MouseEvent),
    MouseDrag(window_event::MouseEvent),
}

/// The keys the toolkit's own widgets react to; everything else arrives as
/// `Other` and is ignored by them.
#[derive(Clone, Copy, Debug, PartialEq, Eq, Structural)]
pub enum Key {
    Left,
    Right,
    Backspace,
    Enter,
    Other,
}

/// One keyboard notification: which key, and whether it went down or up.
#[derive(Clone, Copy, Debug, PartialEq, Eq, Structural)]
pub struct KeyInput {
    pub key: Key,
    pub pressed: bool,
}

/// Keyboard input: either a raw key transition or a typed character.
#[derive(Clone, Copy, Debug, PartialEq, Eq, Structural)]
pub enum KeyEvent {
    Input(KeyInput),
    Char(char),
}

/// Any input event a widget can receive.
#[derive(Clone, Copy, Debug, PartialEq, Eq, Structural)]
pub enum Event {
    Mouse(MouseEvent),
    Key(KeyEvent),
}

impl MouseEvent {
    /// The raw pointer event inside, whatever the kind.
    pub open spec fn spec_raw(self) -> window_event::MouseEvent {
        match self {
            MouseEvent::MouseMove(e) => e,
            MouseEvent::MouseEnter(e) => e,
            MouseEvent::MouseLeave(e) => e,
            MouseEvent::MouseUp(e) => e,
            MouseEvent::MouseDown(e) => e,
            MouseEvent::MouseDrag(e) => e,
        }
    }

    pub open spec fn wf(self) -> bool {
        self.spec_raw().wf()
    }

    /// The same kind of event wrapping `raw` instead.
    pub open spec fn spec_with_raw(self, raw: window_event::MouseEvent) -> MouseEvent {
        match self {
            MouseEvent::MouseMove(_) => MouseEvent::MouseMove(raw),
            MouseEvent::MouseEnter(_) => MouseEvent::MouseEnter(raw),
            MouseEvent::MouseLeave(_) => MouseEvent::MouseLeave(raw),
            MouseEvent::MouseUp(_) => MouseEvent::MouseUp(raw),
            MouseEvent::MouseDown(_) => MouseEvent::MouseDown(raw),
            MouseEvent::MouseDrag(_) => MouseEvent::MouseDrag(raw),
        }
    }

    /// The raw pointer event inside, whatever the kind.
    pub fn raw(&self) -> (r: &window_event::MouseEvent)
        ensures
            *r == self.spec_raw(),
    {
        match self {
            MouseEvent::MouseMove(e) => e,
            MouseEvent::MouseEnter(e) => e,
            MouseEvent::MouseLeave(e) => e,
            MouseEvent::MouseUp(e) => e,
            MouseEvent::MouseDown(e) => e,
            MouseEvent::MouseDrag(e) => e,
        }
    }

    /// The position of the event in the receiving node's coordinates.
    pub fn local_position(&self) -> (r: &Point)
        ensures
            *r == self.spec_raw().local_position,
    {
        match self {
            MouseEvent::MouseMove(e) => e.local_position(),
            MouseEvent::MouseEnter(e) => e.local_position(),
            MouseEvent::MouseLeave(e) => e.local_position(),
            MouseEvent::MouseUp(e) => e.local_position(),
            MouseEvent::MouseDown(e) => e.local_position(),
            MouseEvent::MouseDrag(e) => e.local_position(),
        }
    }

    /// The same event translated into the space of a child at `position`.
    pub fn to_local(&self, position: &Point) -> (r: MouseEvent)
        requires
            self.wf(),
            position.wf(),
        ensures
            r == self.spec_with_raw(window_event::spec_to_local(self.spec_raw(), *position)),
            r.wf(),
    {
        match self {
            MouseEvent::MouseMove(e) => MouseEvent::MouseMove(e.to_local(position)),
            MouseEvent::MouseEnter(e) => MouseEvent::MouseEnter(e.to_local(position)),
            MouseEvent::MouseLeave(e) => MouseEvent::MouseLeave(e.to_local(position)),
            MouseEvent::MouseUp(e) => MouseEvent::MouseUp(e.to_local(position)),
            MouseEvent::MouseDown(e) => MouseEvent::MouseDown(e.to_local(position)),
            MouseEvent::MouseDrag(e) => MouseEvent::MouseDrag(e.to_local(position)),
        }
    }
}

impl Event {
    pub open spec fn wf(self) -> bool {
        match self {
            Event::Mouse(me) => me.wf(),
            Event::Key(_) => true,
        }
    }
}

} // verus!
