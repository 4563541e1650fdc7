//! Horizontal and vertical flex containers. Inflexible children are laid
//! out first at their natural size; the space that remains on the main
//! axis, after the fixed children and the inter-item spacing, is then
//! divided among the flexible children in proportion to their flex
//! factors; children are finally placed in insertion order.

use vstd::prelude::*;

use crate::geometry::{clamp_dim, clamp_dim_exec};
use crate::widget::{ChildSlot, Widget};

verus! {

/// A row: children side by side, the main axis horizontal.
pub struct Row<M> {
    pub children: Vec<ChildSlot<M>>,
    pub spacing: i64,
}

impl<M> Row<M> {
    /// An empty row with no spacing.
    pub fn new() -> (r: Row<M>)
        ensures
            r.children@.len() == 0,
            r.spacing == 0,
    {
        Row { children: Vec::new(), spacing: 0 }
    }

    /// Append a child.
    pub fn push(self, child: Widget<M>) -> (r: Row<M>)
        ensures
            r.spacing == self.spacing,
            r.children@.len() == self.children@.len() + 1,
            r.children@.subrange(0, self.children@.len() as int) == self.children@,
            *r.children@.last().widget == child,
            r.children@.last().properties.position == (crate::geometry::Point { x: 0, y: 0 }),
            r.children@.last().properties.size == (crate::geometry::Size { width: 0, height: 0 }),
            !r.children@.last().properties.has_mouse,
            r.children@.last().uid == 0,
    {
        let mut children = self.children;
        children.push(ChildSlot::new(child));
        proof {
            assert(children@.subrange(0, self.children@.len() as int) =~= self.children@);
        }
        Row { children, spacing: self.spacing }
    }

    /// Replace the inter-item spacing (clamped into range).
    pub fn with_spacing(self, spacing: i64) -> (r: Row<M>)
        ensures
            r.children == self.children,
            r.spacing == clamp_dim(spacing as int),
    {
        Row { spacing: clamp_dim_exec(spacing), ..self }
    }
}

impl<M> Default for Row<M> {
    fn default() -> (r: Row<M>)
        ensures
            r.children@.len() == 0,
            r.spacing == 0,
    {
        Row::new()
    }
}

/// A column: children stacked, the main axis vertical.
pub struct Column<M> {
    pub children: Vec<ChildSlot<M>>,
    pub spacing: i64,
}

impl<M> Column<M> {
    /// An empty column with no spacing.
    pub fn new() -> (r: Column<M>)
        ensures
            r.children@.len() == 0,
            r.spacing == 0,
    {
        Column { children: Vec::new(), spacing: 0 }
    }

    /// Append a child.
    pub fn push(self, child: Widget<M>) -> (r: Column<M>)
        ensures
            r.spacing == self.spacing,
            r.children@.len() == self.children@.len() + 1,
            r.children@.subrange(0, self.children@.len() as int) == self.children@,
            *r.children@.last().widget == child,
            r.children@.last().properties.position == (crate::geometry::Point { x: 0, y: 0 }),
            r.children@.last().properties.size == (crate::geometry::Size { width: 0, height: 0 }),
            !r.children@.last().properties.has_mouse,
            r.children@.last().uid == 0,
    {
        let mut children = self.children;
        children.push(ChildSlot::new(child));
        proof {
            assert(children@.subrange(0, self.children@.len() as int) =~= self.children@);
        }
        Column { children, spacing: self.spacing }
    }

    /// Replace the inter-item spacing (clamped into range).
    pub fn with_spacing(self, spacing: i64) -> (r: Column<M>)
        ensures
            r.children == self.children,
            r.spacing == clamp_dim(spacing as int),
    {
        Column { spacing: clamp_dim_exec(spacing), ..self }
    }
}

impl<M> Default for Column<M> {
    fn default() -> (r: Column<M>)
        ensures
            r.children@.len() == 0,
            r.spacing == 0,
    {
        Column::new()
    }
}

} // verus!
