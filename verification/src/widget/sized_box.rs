//! A box of a fixed size: it reports exactly its configured size whatever
//! the parent offers, and forces its child to that size.

use vstd::prelude::*;

use crate::geometry::{clamp_dim, clamp_dim_exec, Size};
use crate::widget::{ChildSlot, Widget};

verus! {

pub struct SizedBox<M> {
    pub size: Size,
    pub child: ChildSlot<M>,
}

impl<M> SizedBox<M> {
    /// A box forcing `child` to `size` (clamped into range).
    pub fn new(size: Size, child: Widget<M>) -> (r: SizedBox<M>)
        ensures
            r.size == (Size {
                width: clamp_dim(size.width as int) as i64,
                height: clamp_dim(size.height as int) as i64,
            }),
            r.size.wf(),
            *r.child.widget == child,
            r.child.properties.position == (crate::geometry::Point { x: 0, y: 0 }),
            r.child.properties.size == (Size { width: 0, height: 0 }),
            !r.child.properties.has_mouse,
            r.child.uid == 0,
    {
        let clamped = Size {
            width: clamp_dim_exec(size.width),
            height: clamp_dim_exec(size.height),
        };
        SizedBox { size: clamped, child: ChildSlot::new(child) }
    }
}

} // verus!
