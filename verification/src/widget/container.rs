//! A shrink-to-fit box around one child: padding, margin and border are
//! reserved symmetrically around the child, and an optional fill colour is
//! painted behind it.

use vstd::prelude::*;

use crate::display::Paint;
use crate::geometry::{clamp_dim, clamp_dim_exec, MAX_DIM};
use crate::style::Color;
use crate::widget::{ChildSlot, Widget};

verus! {

pub struct Container<M> {
    pub padding: i64,
    pub margin: i64,
    pub border: i64,
    pub width: Option<i64>,
    pub height: Option<i64>,
    pub child: ChildSlot<M>,
    pub paint: Option<Paint>,
}

impl<M> Container<M> {
    /// A bare container around `child`: no insets, no fixed size, no fill.
    pub fn new(child: Widget<M>) -> (r: Container<M>)
        ensures
            r.padding == 0,
            r.margin == 0,
            r.border == 0,
            r.width is None,
            r.height is None,
            r.paint is None,
            *r.child.widget == child,
            r.child.properties.position == (crate::geometry::Point { x: 0, y: 0 }),
            r.child.properties.size == (crate::geometry::Size { width: 0, height: 0 }),
            !r.child.properties.has_mouse,
            r.child.uid == 0,
    {
        Container {
            padding: 0,
            margin: 0,
            border: 0,
            width: None,
            height: None,
            child: ChildSlot::new(child),
            paint: None,
        }
    }

    /// Fill the container's own rectangle with `color` before the child
    /// paints.
    pub fn with_color(self, color: &Color) -> (r: Container<M>)
        ensures
            r == (Container { paint: Some(Paint { color: *color, stroke: false }), ..self }),
    {
        Container { paint: Some(Paint::new(*color)), ..self }
    }

    /// Reserve `padding` pixels (clamped into range) around the child.
    pub fn with_padding(self, padding: i64) -> (r: Container<M>)
        ensures
            r == (Container { padding: clamp_dim(padding as int) as i64, ..self }),
    {
        let p = clamp_dim_exec(padding);
        Container { padding: p, ..self }
    }

    /// Reserve `margin` pixels (clamped into range) around the child.
    pub fn with_margin(self, margin: i64) -> (r: Container<M>)
        ensures
            r == (Container { margin: clamp_dim(margin as int) as i64, ..self }),
    {
        let m = clamp_dim_exec(margin);
        Container { margin: m, ..self }
    }

    /// The space reserved on each side of the child.
    pub open spec fn spec_space_around(self) -> int {
        clamp_dim(self.padding + self.margin + self.border)
    }

    /// The space reserved on each side of the child.
    pub fn space_around(&self) -> (r: i64)
        requires
            0 <= self.padding <= MAX_DIM,
            0 <= self.margin <= MAX_DIM,
            0 <= self.border <= MAX_DIM,
        ensures
            r == self.spec_space_around(),
    {
        clamp_dim_exec(clamp_dim_exec(self.padding + self.margin) + self.border)
    }
}

} // verus!
