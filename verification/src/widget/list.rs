//! A vertical sequence of children stacked top to bottom with spacing
//! between them, filling the space the parent offers. A builder callback
//! can populate it once per index over a range; an item size forces a
//! uniform height.

use vstd::prelude::*;

use crate::geometry::{clamp_dim, clamp_dim_exec};
use crate::widget::{ChildSlot, Widget};

verus! {

pub struct List<M> {
    pub spacing: i64,
    pub item_size: Option<i64>,
    pub children: Vec<ChildSlot<M>>,
}

impl<M> List<M> {
    /// An empty list with no spacing and natural item heights.
    pub fn new() -> (r: List<M>)
        ensures
            r.spacing == 0,
            r.item_size is None,
            r.children@.len() == 0,
    {
        List { spacing: 0, item_size: None, children: Vec::new() }
    }

    /// Populate the list by calling `builder` once per index in
    /// `0..item_count`, in index order.
    pub fn with_builder<F: Fn(usize) -> Widget<M>>(self, item_count: usize, builder: F) -> (r:
        List<M>)
        requires
            forall|i: usize| i < item_count ==> #[trigger] builder.requires((i,)),
        ensures
            r.spacing == self.spacing,
            r.item_size == self.item_size,
            r.children@.len() == item_count,
            forall|i: int|
                0 <= i < item_count ==> call_ensures(
                    builder,
                    (i as usize,),
                    *(#[trigger] r.children@[i]).widget,
                ),
            forall|i: int|
                0 <= i < item_count ==> !(#[trigger] r.children@[i]).properties.has_mouse && r.children@[
                    i
                ].uid == 0 && r.children@[i].properties.position == (crate::geometry::Point {
                    x: 0,
                    y: 0,
                }) && r.children@[i].properties.size == (crate::geometry::Size {
                    width: 0,
                    height: 0,
                }),
    {
        let mut children: Vec<ChildSlot<M>> = Vec::new();
        let mut i: usize = 0;
        while i < item_count
            invariant
                0 <= i <= item_count,
                children@.len() == i,
                forall|j: usize| j < item_count ==> #[trigger] builder.requires((j,)),
                forall|j: int|
                    0 <= j < i ==> call_ensures(
                        builder,
                        (j as usize,),
                        *(#[trigger] children@[j]).widget,
                    ),
                forall|j: int|
                    0 <= j < i ==> !(#[trigger] children@[j]).properties.has_mouse && children@[
                        j
                    ].uid == 0 && children@[j].properties.position == (crate::geometry::Point {
                        x: 0,
                        y: 0,
                    }) && children@[j].properties.size == (crate::geometry::Size {
                        width: 0,
                        height: 0,
                    }),
            decreases item_count - i,
        {
            let widget = builder(i);
            children.push(ChildSlot::new(widget));
            i += 1;
        }
        List { spacing: self.spacing, item_size: self.item_size, children }
    }

    /// A list over already-built children.
    pub fn new_with_children(children: Vec<Widget<M>>) -> (r: List<M>)
        ensures
            r.spacing == 0,
            r.item_size is None,
            r.children@.len() == children@.len(),
            forall|i: int|
                0 <= i < children@.len() ==> *(#[trigger] r.children@[i]).widget == children@[i],
            forall|i: int|
                0 <= i < children@.len() ==> !(#[trigger] r.children@[i]).properties.has_mouse
                    && r.children@[i].uid == 0 && r.children@[i].properties.position == (
                crate::geometry::Point { x: 0, y: 0 }) && r.children@[i].properties.size == (
                crate::geometry::Size { width: 0, height: 0 }),
    {
        let mut slots: Vec<ChildSlot<M>> = Vec::new();
        let mut rest = children;
        let ghost orig = rest@;
        loop
            invariant_except_break
                orig == slots@.map_values(|s: ChildSlot<M>| *s.widget) + rest@,
                forall|i: int|
                    0 <= i < slots@.len() ==> !(#[trigger] slots@[i]).properties.has_mouse
                        && slots@[i].uid == 0 && slots@[i].properties.position == (
                    crate::geometry::Point { x: 0, y: 0 }) && slots@[i].properties.size == (
                    crate::geometry::Size { width: 0, height: 0 }),
            ensures
                orig == slots@.map_values(|s: ChildSlot<M>| *s.widget),
                forall|i: int|
                    0 <= i < slots@.len() ==> !(#[trigger] slots@[i]).properties.has_mouse
                        && slots@[i].uid == 0 && slots@[i].properties.position == (
                    crate::geometry::Point { x: 0, y: 0 }) && slots@[i].properties.size == (
                    crate::geometry::Size { width: 0, height: 0 }),
            decreases rest@.len(),
        {
            if rest.len() == 0 {
                proof {
                    assert(orig =~= slots@.map_values(|s: ChildSlot<M>| *s.widget));
                }
                break ;
            }
            let w = rest.remove(0);
            slots.push(ChildSlot::new(w));
            proof {
                assert(orig =~= slots@.map_values(|s: ChildSlot<M>| *s.widget) + rest@);
            }
        }
        List { spacing: 0, item_size: None, children: slots }
    }

    /// Force every item to this height (clamped into range).
    pub fn with_item_size(self, size: i64) -> (r: List<M>)
        ensures
            r == (List { item_size: Some(clamp_dim(size as int) as i64), ..self }),
    {
        List { item_size: Some(clamp_dim_exec(size)), ..self }
    }

    /// Replace the inter-item spacing (clamped into range).
    pub fn with_spacing(self, spacing: i64) -> (r: List<M>)
        ensures
            r == (List { spacing: clamp_dim(spacing as int) as i64, ..self }),
    {
        List { spacing: clamp_dim_exec(spacing), ..self }
    }

    /// Append a child.
    pub fn push(self, child: Widget<M>) -> (r: List<M>)
        ensures
            r.spacing == self.spacing,
            r.item_size == self.item_size,
            r.children@.len() == self.children@.len() + 1,
            r.children@.subrange(0, self.children@.len() as int) == self.children@,
            *r.children@.last().widget == child,
            !r.children@.last().properties.has_mouse,
            r.children@.last().uid == 0,
            r.children@.last().properties.position == (crate::geometry::Point { x: 0, y: 0 }),
            r.children@.last().properties.size == (crate::geometry::Size {
                width: 0,
                height: 0,
            }),
    {
        let mut children = self.children;
        children.push(ChildSlot::new(child));
        proof {
            assert(children@.subrange(0, self.children@.len() as int) =~= self.children@);
        }
        List { children, ..self }
    }
}

impl<M> Default for List<M> {
    fn default() -> (r: List<M>)
        ensures
            r.spacing == 0,
            r.item_size is None,
            r.children@.len() == 0,
    {
        List::new()
    }
}

} // verus!
