//! A flexible filler: inside a flex container it takes a share of the
//! leftover main-axis space in proportion to its flex factor, and forces
//! its child to fill exactly the size it resolves.

use vstd::prelude::*;

use crate::geometry::{clamp_dim, clamp_dim_exec};
use crate::widget::{ChildSlot, Widget, MAX_FLEX};

verus! {

pub struct Expanded<M> {
    pub child: ChildSlot<M>,
    pub width: Option<i64>,
    pub height: Option<i64>,
    pub flex: i64,
}

impl<M> Expanded<M> {
    /// Expand `child` with the default flex factor of one.
    pub fn new(child: Widget<M>) -> (r: Expanded<M>)
        ensures
            *r.child.widget == child,
            r.width is None,
            r.height is None,
            r.flex == 1,
            r.child.properties.position == (crate::geometry::Point { x: 0, y: 0 }),
            r.child.properties.size == (crate::geometry::Size { width: 0, height: 0 }),
            !r.child.properties.has_mouse,
            r.child.uid == 0,
    {
        Expanded { child: ChildSlot::new(child), width: None, height: None, flex: 1 }
    }

    /// Replace the flex factor, clamped to `[0, MAX_FLEX]`.
    pub fn with_flex(self, flex: i64) -> (r: Expanded<M>)
        ensures
            r == (Expanded {
                flex: if flex < 0 {
                    0i64
                } else if flex > MAX_FLEX {
                    MAX_FLEX
                } else {
                    flex
                },
                ..self
            }),
    {
        let f = if flex < 0 {
            0
        } else if flex > MAX_FLEX {
            MAX_FLEX
        } else {
            flex
        };
        Expanded { flex: f, ..self }
    }

    /// Fix the width instead of resolving it from the constraints.
    pub fn with_width(self, w: i64) -> (r: Expanded<M>)
        ensures
            r == (Expanded { width: Some(clamp_dim(w as int) as i64), ..self }),
    {
        Expanded { width: Some(clamp_dim_exec(w)), ..self }
    }

    /// Fix the height instead of resolving it from the constraints.
    pub fn with_height(self, h: i64) -> (r: Expanded<M>)
        ensures
            r == (Expanded { height: Some(clamp_dim(h as int) as i64), ..self }),
    {
        Expanded { height: Some(clamp_dim_exec(h)), ..self }
    }
}

} // verus!
