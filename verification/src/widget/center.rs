//! Centers one child inside the space the parent offers: the child is
//! offered that space as a maximum and then placed with equal gaps on
//! both sides of each axis.

use vstd::prelude::*;

use crate::geometry::Size;
use crate::widget::{ChildSlot, Widget};

verus! {

pub struct Center<M> {
    pub child: ChildSlot<M>,
    pub size: Option<Size>,
}

impl<M> Center<M> {
    /// Center `child` inside the parent's space.
    pub fn new(child: Widget<M>) -> (r: Center<M>)
        ensures
            *r.child.widget == child,
            r.size is None,
            r.child.properties.position == (crate::geometry::Point { x: 0, y: 0 }),
            r.child.properties.size == (Size { width: 0, height: 0 }),
            !r.child.properties.has_mouse,
            r.child.uid == 0,
    {
        Center { child: ChildSlot::new(child), size: None }
    }
}

/// The centered offset of a child extent inside a parent extent: half the
/// slack, rounded toward the parent's origin; when the child overflows,
/// half the overflow in the other direction.
pub open spec fn center_offset(parent: int, child: int) -> int {
    if child <= parent {
        (parent - child) / 2
    } else {
        -((child - parent) / 2)
    }
}

/// Compute a centered offset.
pub fn center_offset_exec(parent: i64, child: i64) -> (r: i64)
    requires
        crate::geometry::valid_dim(parent as int),
        crate::geometry::valid_dim(child as int),
    ensures
        r == center_offset(parent as int, child as int),
        crate::geometry::valid_coord(r as int),
{
    if child <= parent {
        (parent - child) / 2
    } else {
        -((child - parent) / 2)
    }
}

} // verus!
