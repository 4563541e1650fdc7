//! A transparent wrapper that gives its child a flex factor without any
//! other behaviour of its own.

use vstd::prelude::*;

use crate::widget::{ChildSlot, Widget, MAX_FLEX};

verus! {

pub struct FlexBox<M> {
    pub child: ChildSlot<M>,
    pub flex: i64,
}

impl<M> FlexBox<M> {
    /// Wrap `child` with the given flex factor (clamped to
    /// `[0, MAX_FLEX]`).
    pub fn new(child: Widget<M>, flex: i64) -> (r: FlexBox<M>)
        ensures
            *r.child.widget == child,
            r.flex == if flex < 0 {
                0i64
            } else if flex > MAX_FLEX {
                MAX_FLEX
            } else {
                flex
            },
            r.child.properties.position == (crate::geometry::Point { x: 0, y: 0 }),
            r.child.properties.size == (crate::geometry::Size { width: 0, height: 0 }),
            !r.child.properties.has_mouse,
            r.child.uid == 0,
    {
        let f = if flex < 0 {
            0
        } else if flex > MAX_FLEX {
            MAX_FLEX
        } else {
            flex
        };
        FlexBox { child: ChildSlot::new(child), flex: f }
    }
}

} // verus!
