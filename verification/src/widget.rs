//! The widget tree: the polymorphic node contract, the `ChildSlot` wrapper
//! that owns a child's geometry and hover state, and the recursive layout,
//! event-dispatch and paint engines.
//!
//! A node is one variant of the [`Widget`] enum; composite variants own
//! their children through [`ChildSlot`], so the tree is a strict hierarchy
//! with no sharing. Layout walks the tree top-down handing constraints in
//! and sizes out; events walk it top-down with hit testing and early
//! consumption; painting appends drawing commands to a display list.

pub mod button;
pub mod center;
pub mod container;
pub mod event;
pub mod expanded;
pub mod flex;
pub mod flex_box;
pub mod label;
pub mod list;
pub mod popup;
pub mod sized_box;
pub mod slider;
pub mod switch;
pub mod text_editor;

use vstd::prelude::*;

use crate::geometry::{Point, Size};

verus! {

broadcast use crate::display::lemma_cmds_view_push;

/// The cursor icons a widget can request from the host.
#[derive(Clone, Copy, Debug, PartialEq, Eq, Structural)]
pub enum CursorIcon {
    Arrow,
    Text,
    Hand,
}

/// A value-change notification a control pushes upward when the user
/// operates it. The `tag` is the identifier the application registered
/// with the control; the host routes the change by it.
#[derive(Clone, Debug)]
pub struct Change {
    pub tag: u64,
    pub value: ChangeValue,
}

/// What kind of value changed.
#[derive(Clone, Debug)]
pub enum ChangeValue {
    /// A switch was toggled to the given state.
    Toggled(bool),
    /// A slider moved to the given value.
    Slid(i64),
    /// A text box committed its content.
    Committed(Vec<char>),
}

/// An action a widget can hand back to the application layer.
pub enum Action<State> {
    Nothing,
    Layout { nodes: Vec<String> },
    TriggerPopupMenu { menu: usize, sub_menu: usize },
    PopupRequest { request: crate::widget::popup::PopupRequest<State>, position: Point },
}

/// An undoable application action.
pub trait AppAction<State> {
    fn undo(&self, state: &State);

    fn redo(&self, state: &State);
}

/// Per-node geometry and hover bookkeeping, owned by the node's
/// `ChildSlot`: where the parent placed it, the size layout gave it,
/// whether the pointer is currently inside it, and the ids of the children
/// registered during the latest layout pass.
#[derive(Debug)]
pub struct Properties {
    pub position: Point,
    pub size: Size,
    pub has_mouse: bool,
    pub children: Vec<usize>,
}

impl Properties {
    pub open spec fn geometry_wf(self) -> bool {
        self.position.wf() && self.size.wf()
    }

    /// Fresh properties: zero geometry, pointer outside, no children.
    pub fn new() -> (r: Properties)
        ensures
            r.position == (Point { x: 0, y: 0 }),
            r.size == (Size { width: 0, height: 0 }),
            !r.has_mouse,
            r.children@ == Seq::<usize>::empty(),
    {
        Properties {
            position: Point { x: 0, y: 0 },
            size: Size { width: 0, height: 0 },
            has_mouse: false,
            children: Vec::new(),
        }
    }
}

impl Default for Properties {
    fn default() -> (r: Properties)
        ensures
            r.position == (Point { x: 0, y: 0 }),
            r.size == (Size { width: 0, height: 0 }),
            !r.has_mouse,
            r.children@ == Seq::<usize>::empty(),
    {
        Properties::new()
    }
}

/// Collects the ids of the children a composite lays out, so the owning
/// slot can scope later event delivery to the subtree actually present.
pub struct LayoutCtx {
    pub children: Vec<usize>,
}

impl LayoutCtx {
    pub fn new() -> (r: LayoutCtx)
        ensures
            r.children@ == Seq::<usize>::empty(),
    {
        LayoutCtx { children: Vec::new() }
    }

    /// Record a child id laid out in this pass.
    pub fn register_child(&mut self, child: usize)
        ensures
            final(self).children@ == old(self).children@.push(child),
    {
        self.children.push(child)
    }
}

/// What event dispatch may read and write besides the tree itself: the
/// receiving node's size, the requested cursor, the consumer and target
/// ids, and the messages and value changes published so far.
pub struct EventCtx<M> {
    pub size: Size,
    pub cursor: CursorIcon,
    pub consumer: Option<usize>,
    pub target: Option<usize>,
    pub messages: Vec<M>,
    pub changes: Vec<Change>,
}

impl<M> EventCtx<M> {
    /// A fresh context for one event delivered to a node of `size`.
    pub fn new(size: Size) -> (r: EventCtx<M>)
        ensures
            r.size == size,
            r.cursor == CursorIcon::Arrow,
            r.consumer is None,
            r.target is None,
            r.messages@ == Seq::<M>::empty(),
            r.changes@ == Seq::<Change>::empty(),
    {
        EventCtx {
            size,
            cursor: CursorIcon::Arrow,
            consumer: None,
            target: None,
            messages: Vec::new(),
            changes: Vec::new(),
        }
    }

    pub fn size(&self) -> (r: &Size)
        ensures
            *r == self.size,
    {
        &self.size
    }

    /// Enqueue an application message for the host to drain.
    pub fn publish(&mut self, message: M)
        ensures
            *final(self) == (EventCtx { messages: final(self).messages, ..*old(self) }),
            final(self).messages@ == old(self).messages@.push(message),
    {
        self.messages.push(message)
    }

    /// Record a value change for the host to drain.
    pub fn push_change(&mut self, change: Change)
        ensures
            *final(self) == (EventCtx { changes: final(self).changes, ..*old(self) }),
            final(self).changes@ == old(self).changes@.push(change),
    {
        self.changes.push(change)
    }

    /// Request the host switch the cursor icon; the last writer in a pass
    /// wins.
    pub fn change_cursor(&mut self, icon: CursorIcon)
        ensures
            *final(self) == (EventCtx { cursor: icon, ..*old(self) }),
    {
        self.cursor = icon
    }

    pub fn cursor(&self) -> (r: CursorIcon)
        ensures
            r == self.cursor,
    {
        self.cursor
    }

    /// Record which node consumed the event.
    pub fn set_consumer(&mut self, uid: usize)
        ensures
            *final(self) == (EventCtx { consumer: Some(uid), ..*old(self) }),
    {
        self.consumer = Some(uid)
    }

    pub fn consumer(&self) -> (r: Option<usize>)
        ensures
            r == self.consumer,
    {
        self.consumer
    }

    /// Address a synthetic follow-up event at a specific node, bypassing
    /// hit testing.
    pub fn set_target(&mut self, uid: usize)
        ensures
            *final(self) == (EventCtx { target: Some(uid), ..*old(self) }),
    {
        self.target = Some(uid)
    }

    pub fn target(&self) -> (r: Option<usize>)
        ensures
            r == self.target,
    {
        self.target
    }
}

/// The size a node was given, handed to its paint call.
pub struct PaintCtx {
    pub size: Size,
}

impl PaintCtx {
    pub fn new(size: Size) -> (r: PaintCtx)
        ensures
            r.size == size,
    {
        PaintCtx { size }
    }

    pub fn size(&self) -> (r: &Size)
        ensures
            *r == self.size,
    {
        &self.size
    }

    /// The node's own rectangle in local coordinates.
    pub fn rect(&self) -> (r: crate::geometry::Rect)
        ensures
            r.origin == (Point { x: 0, y: 0 }),
            r.size == self.size,
    {
        crate::geometry::Rect::from_size(self.size)
    }
}

/// Draw the next id from a counter. The tree assigns one to every slot in
/// a depth-first walk when it is handed to a `UserInterface`.
pub fn next_uid(counter: &mut usize) -> (r: usize)
    requires
        *old(counter) < usize::MAX,
    ensures
        r == *old(counter),
        *final(counter) == *old(counter) + 1,
{
    let id = *counter;
    *counter += 1;
    id
}


/// Largest flex factor a widget accepts.
pub const MAX_FLEX: i64 = 0x10_0000;

/// One node of the user-interface tree.
pub enum Widget<M> {
    Label(label::Label),
    Button(button::TextButton<M>),
    Slider(slider::Slider),
    Switch(switch::Switch),
    TextBox(text_editor::TextBox),
    Container(container::Container<M>),
    Center(center::Center<M>),
    Expanded(expanded::Expanded<M>),
    SizedBox(sized_box::SizedBox<M>),
    Row(flex::Row<M>),
    Column(flex::Column<M>),
    FlexBox(flex_box::FlexBox<M>),
    List(list::List<M>),
}

/// Wraps one widget together with its geometry and hover state. The slot
/// is the only place where coordinates are translated and where pointer
/// enter/leave transitions are detected.
pub struct ChildSlot<M> {
    pub uid: usize,
    pub widget: Box<Widget<M>>,
    pub properties: Properties,
}

/// The flex factor a node reports to an enclosing flex container.
pub open spec fn spec_flex<M>(w: Widget<M>) -> i64 {
    match w {
        Widget::Expanded(e) => e.flex,
        Widget::FlexBox(f) => f.flex,
        _ => 0,
    }
}

/// The value of an optional bound, taking an absent bound as zero.
pub open spec fn opt_or0(o: Option<i64>) -> int {
    match o {
        Some(v) => v as int,
        None => 0,
    }
}

/// The main-axis extent of a size.
pub open spec fn main_of(sz: Size, horizontal: bool) -> int {
    if horizontal {
        sz.width as int
    } else {
        sz.height as int
    }
}

/// The cross-axis extent of a size.
pub open spec fn cross_of(sz: Size, horizontal: bool) -> int {
    if horizontal {
        sz.height as int
    } else {
        sz.width as int
    }
}

/// The unconstrained constraints.
pub open spec fn unconstrained() -> crate::constraints::BoxConstraints {
    crate::constraints::BoxConstraints {
        min_width: None,
        max_width: None,
        min_height: None,
        max_height: None,
    }
}

/// Tight constraints forcing exactly `sz`.
pub open spec fn tight_bc(sz: Size) -> crate::constraints::BoxConstraints {
    crate::constraints::BoxConstraints {
        min_width: Some(sz.width),
        max_width: Some(sz.width),
        min_height: Some(sz.height),
        max_height: Some(sz.height),
    }
}

/// Every numeric field in the tree lies in its range.
pub open spec fn widget_wf<M>(w: Widget<M>) -> bool
    decreases w,
{
    match w {
        Widget::Label(_) => true,
        Widget::Button(b) => b.wf(),
        Widget::Slider(s) => s.wf(),
        Widget::Switch(_) => true,
        Widget::TextBox(t) => t.wf(),
        Widget::Container(c) => {
            &&& 0 <= c.padding <= crate::geometry::MAX_DIM
            &&& 0 <= c.margin <= crate::geometry::MAX_DIM
            &&& 0 <= c.border <= crate::geometry::MAX_DIM
            &&& crate::constraints::bound_wf(c.width)
            &&& crate::constraints::bound_wf(c.height)
            &&& slot_wf(c.child)
        },
        Widget::Center(c) => {
            &&& (c.size matches Some(sz) ==> sz.wf())
            &&& slot_wf(c.child)
        },
        Widget::Expanded(e) => {
            &&& crate::constraints::bound_wf(e.width)
            &&& crate::constraints::bound_wf(e.height)
            &&& 0 <= e.flex <= MAX_FLEX
            &&& slot_wf(e.child)
        },
        Widget::SizedBox(b) => b.size.wf() && slot_wf(b.child),
        Widget::Row(r) => {
            &&& 0 <= r.spacing <= crate::geometry::MAX_DIM
            &&& forall|i: int|
                0 <= i < r.children@.len() ==> slot_wf(#[trigger] r.children@[i])
        },
        Widget::Column(c) => {
            &&& 0 <= c.spacing <= crate::geometry::MAX_DIM
            &&& forall|i: int|
                0 <= i < c.children@.len() ==> slot_wf(#[trigger] c.children@[i])
        },
        Widget::FlexBox(f) => 0 <= f.flex <= MAX_FLEX && slot_wf(f.child),
        Widget::List(l) => {
            &&& 0 <= l.spacing <= crate::geometry::MAX_DIM
            &&& crate::constraints::bound_wf(l.item_size)
            &&& forall|i: int|
                0 <= i < l.children@.len() ==> slot_wf(#[trigger] l.children@[i])
        },
    }
}

/// A slot is well formed when its geometry and its widget are.
pub open spec fn slot_wf<M>(s: ChildSlot<M>) -> bool
    decreases s,
{
    s.properties.geometry_wf() && widget_wf(*s.widget)
}

/// One pass over a flex container's children, front to back: the
/// accumulated main-axis extent of the inflexible children including the
/// spacing before every child after the first, the largest inflexible
/// cross-axis extent, and the clamped sum of the flex factors.
pub open spec fn flex_scan<M>(
    s: Seq<ChildSlot<M>>,
    horizontal: bool,
    spacing: i64,
    first: bool,
    main: int,
    cross: int,
    tflex: int,
) -> (int, int, int)
    decreases s, 0int,
{
    if s.len() == 0 {
        (main, cross, tflex)
    } else {
        let m1 = if first {
            main
        } else {
            crate::geometry::clamp_dim(main + spacing)
        };
        let f = spec_flex(*s[0].widget) as int;
        let sz = measure(*s[0].widget, unconstrained());
        let m2 = if f == 0 {
            crate::geometry::clamp_dim(m1 + main_of(sz, horizontal))
        } else {
            m1
        };
        let c2 = if f == 0 && cross_of(sz, horizontal) > cross {
            cross_of(sz, horizontal)
        } else {
            cross
        };
        let t2 = if tflex + f > crate::geometry::MAX_DIM {
            crate::geometry::MAX_DIM as int
        } else {
            tflex + f
        };
        flex_scan(s.drop_first(), horizontal, spacing, false, m2, c2, t2)
    }
}

/// The share of `remaining` main-axis space a flex factor `f` receives
/// out of a total of `total`.
pub open spec fn flex_share(remaining: int, f: int, total: int) -> int {
    if total <= 0 {
        0
    } else {
        remaining * f / total
    }
}

/// The constraints a flexible child is laid out with: its share, tight on
/// the main axis, and the container's maximum on the cross axis.
pub open spec fn flex_child_bc(
    c: crate::constraints::BoxConstraints,
    horizontal: bool,
    share: int,
) -> crate::constraints::BoxConstraints {
    if horizontal {
        crate::constraints::BoxConstraints {
            min_width: Some(share as i64),
            max_width: Some(share as i64),
            min_height: None,
            max_height: Some(opt_or0(c.max_height) as i64),
        }
    } else {
        crate::constraints::BoxConstraints {
            min_width: None,
            max_width: Some(opt_or0(c.max_width) as i64),
            min_height: Some(share as i64),
            max_height: Some(share as i64),
        }
    }
}

/// The size a flex container reports: the full offered maximum when any
/// child is flexible, else the packed extent of its children.
pub open spec fn flex_measure<M>(
    s: Seq<ChildSlot<M>>,
    horizontal: bool,
    spacing: i64,
    c: crate::constraints::BoxConstraints,
) -> Size
    decreases s, 1int,
{
    let scan = flex_scan(s, horizontal, spacing, true, 0, 0, 0);
    if scan.2 > 0 {
        Size { width: opt_or0(c.max_width) as i64, height: opt_or0(c.max_height) as i64 }
    } else {
        if horizontal {
            Size { width: scan.0 as i64, height: scan.1 as i64 }
        } else {
            Size { width: scan.1 as i64, height: scan.0 as i64 }
        }
    }
}

/// The constraints a container passes to its child: the parent's
/// constraints shrunk by the reserved space, or, when the parent left an
/// axis unbounded, the container's own fixed size shrunk likewise, or no
/// constraints at all.
pub open spec fn container_child_bc<M>(
    c: container::Container<M>,
    bc: crate::constraints::BoxConstraints,
) -> crate::constraints::BoxConstraints {
    let space = c.spec_space_around();
    let dspace = crate::geometry::clamp_dim(2 * space);
    if bc.max_width is None || bc.max_height is None {
        if c.width is None || c.height is None {
            unconstrained()
        } else {
            let own = crate::constraints::BoxConstraints {
                min_width: None,
                max_width: Some(crate::geometry::clamp_dim(opt_or0(c.width)) as i64),
                min_height: None,
                max_height: Some(crate::geometry::clamp_dim(opt_or0(c.height)) as i64),
            };
            crate::constraints::spec_shrunk(own, space, space)
        }
    } else {
        crate::constraints::spec_shrunk(bc, dspace, dspace)
    }
}

/// The size a center reports as its own: its fixed size when it has one,
/// else the full offered maximum.
pub open spec fn center_my_size<M>(
    c: center::Center<M>,
    bc: crate::constraints::BoxConstraints,
) -> Size {
    match c.size {
        Some(sz) => sz,
        None => Size {
            width: opt_or0(bc.max_width) as i64,
            height: opt_or0(bc.max_height) as i64,
        },
    }
}

/// The size an expanded node resolves for itself: its fixed extents where
/// present, else the offered maxima.
pub open spec fn expanded_size<M>(
    e: expanded::Expanded<M>,
    bc: crate::constraints::BoxConstraints,
) -> Size {
    Size {
        width: match e.width {
            Some(w) => w,
            None => opt_or0(bc.max_width) as i64,
        },
        height: match e.height {
            Some(h) => h,
            None => opt_or0(bc.max_height) as i64,
        },
    }
}

/// The constraints a list lays its items out with: the list's maximum
/// width, and the fixed item height when one is set.
pub open spec fn list_child_bc<M>(
    l: list::List<M>,
    bc: crate::constraints::BoxConstraints,
) -> crate::constraints::BoxConstraints {
    crate::constraints::BoxConstraints {
        min_width: None,
        max_width: Some(opt_or0(bc.max_width) as i64),
        min_height: None,
        max_height: l.item_size,
    }
}

/// The size layout gives a node under the given constraints. This is the
/// definitional size semantics of the toolkit; the executable layout
/// returns exactly this size.
pub open spec fn measure<M>(w: Widget<M>, c: crate::constraints::BoxConstraints) -> Size
    decreases w, 2int,
{
    match w {
        Widget::Label(_) => Size {
            width: opt_or0(c.max_width) as i64,
            height: opt_or0(c.max_height) as i64,
        },
        Widget::Button(b) => button::button_measure(b, c),
        Widget::Slider(_) => Size {
            width: opt_or0(c.max_width) as i64,
            height: opt_or0(c.max_height) as i64,
        },
        Widget::Switch(_) => Size {
            width: opt_or0(c.max_width) as i64,
            height: opt_or0(c.max_height) as i64,
        },
        Widget::TextBox(_) => Size {
            width: opt_or0(c.max_width) as i64,
            height: match c.max_height {
                Some(mh) => if mh < text_editor::TEXT_LINE_HEIGHT {
                    mh
                } else {
                    text_editor::TEXT_LINE_HEIGHT
                },
                None => text_editor::TEXT_LINE_HEIGHT,
            },
        },
        Widget::Container(cont) => {
            let space = cont.spec_space_around();
            let dspace = crate::geometry::clamp_dim(2 * space);
            let child = measure(*cont.child.widget, container_child_bc(cont, c));
            let base_w = crate::geometry::clamp_dim(child.width + dspace);
            let base_h = crate::geometry::clamp_dim(child.height + dspace);
            let w2 = if opt_or0(c.min_width) > base_w {
                opt_or0(c.min_width)
            } else {
                base_w
            };
            let h2 = if opt_or0(c.min_height) > base_h {
                opt_or0(c.min_height)
            } else {
                base_h
            };
            Size { width: w2 as i64, height: h2 as i64 }
        },
        Widget::Center(cen) => center_my_size(cen, c),
        Widget::Expanded(e) => expanded_size(e, c),
        Widget::SizedBox(b) => b.size,
        Widget::Row(r) => flex_measure(r.children@, true, r.spacing, c),
        Widget::Column(col) => flex_measure(col.children@, false, col.spacing, c),
        Widget::FlexBox(f) => measure(*f.child.widget, c),
        Widget::List(_) => Size {
            width: opt_or0(c.max_width) as i64,
            height: opt_or0(c.max_height) as i64,
        },
    }
}

/// The constraints a center offers its child: its own size as a maximum.
pub open spec fn center_child_bc(my: Size) -> crate::constraints::BoxConstraints {
    crate::constraints::BoxConstraints {
        min_width: None,
        max_width: Some(my.width),
        min_height: None,
        max_height: Some(my.height),
    }
}

/// Whether layout is defined for the node under the given constraints.
/// Nodes that fill their offered space demand a bounded maximum, and the
/// demand recurses into children with the constraints they will be
/// offered. Handing a node constraints outside this precondition is a
/// caller error, as is asking a flex container to distribute unbounded
/// space.
pub open spec fn layout_ok<M>(w: Widget<M>, c: crate::constraints::BoxConstraints) -> bool
    decreases w, 2int,
{
    match w {
        Widget::Label(_) => c.spec_has_max(),
        Widget::Button(_) => true,
        Widget::Slider(_) => c.spec_has_max(),
        Widget::Switch(_) => c.spec_has_max(),
        Widget::TextBox(_) => c.max_width is Some,
        Widget::Container(cont) => layout_ok(*cont.child.widget, container_child_bc(cont, c)),
        Widget::Center(cen) => {
            &&& (cen.size is Some || c.spec_has_max())
            &&& layout_ok(*cen.child.widget, center_child_bc(center_my_size(cen, c)))
        },
        Widget::Expanded(e) => {
            &&& (e.width is Some || c.max_width is Some)
            &&& (e.height is Some || c.max_height is Some)
            &&& layout_ok(*e.child.widget, tight_bc(expanded_size(e, c)))
        },
        Widget::SizedBox(b) => layout_ok(*b.child.widget, tight_bc(b.size)),
        Widget::Row(r) => {
            let scan = flex_scan(r.children@, true, r.spacing, true, 0, 0, 0);
            let remaining = crate::geometry::clamp_dim(opt_or0(c.max_width) - scan.0);
            &&& c.spec_has_max()
            &&& forall|i: int|
                0 <= i < r.children@.len() ==> layout_ok(
                    *(#[trigger] r.children@[i]).widget,
                    if spec_flex(*r.children@[i].widget) == 0 {
                        unconstrained()
                    } else {
                        flex_child_bc(
                            c,
                            true,
                            flex_share(
                                remaining,
                                spec_flex(*r.children@[i].widget) as int,
                                scan.2,
                            ),
                        )
                    },
                )
        },
        Widget::Column(col) => {
            let scan = flex_scan(col.children@, false, col.spacing, true, 0, 0, 0);
            let remaining = crate::geometry::clamp_dim(opt_or0(c.max_height) - scan.0);
            &&& c.spec_has_max()
            &&& forall|i: int|
                0 <= i < col.children@.len() ==> layout_ok(
                    *(#[trigger] col.children@[i]).widget,
                    if spec_flex(*col.children@[i].widget) == 0 {
                        unconstrained()
                    } else {
                        flex_child_bc(
                            c,
                            false,
                            flex_share(
                                remaining,
                                spec_flex(*col.children@[i].widget) as int,
                                scan.2,
                            ),
                        )
                    },
                )
        },
        Widget::FlexBox(f) => layout_ok(*f.child.widget, c),
        Widget::List(l) => {
            &&& c.spec_has_max()
            &&& forall|i: int|
                0 <= i < l.children@.len() ==> layout_ok(
                    *(#[trigger] l.children@[i]).widget,
                    list_child_bc(l, c),
                )
        },
    }
}


impl<M> ChildSlot<M> {
    /// Wrap a widget in a fresh slot. Unique ids are assigned when the
    /// tree is handed to a `UserInterface`.
    pub fn new(widget: Widget<M>) -> (r: ChildSlot<M>)
        ensures
            r.uid == 0,
            *r.widget == widget,
            r.properties.position == (Point { x: 0, y: 0 }),
            r.properties.size == (Size { width: 0, height: 0 }),
            !r.properties.has_mouse,
            r.properties.children@ == Seq::<usize>::empty(),
    {
        ChildSlot { uid: 0, widget: Box::new(widget), properties: Properties::new() }
    }

    /// Wrap an already boxed widget in a fresh slot.
    pub fn new_with_box(widget: Box<Widget<M>>) -> (r: ChildSlot<M>)
        ensures
            r.uid == 0,
            r.widget == widget,
            r.properties.position == (Point { x: 0, y: 0 }),
            r.properties.size == (Size { width: 0, height: 0 }),
            !r.properties.has_mouse,
            r.properties.children@ == Seq::<usize>::empty(),
    {
        ChildSlot { uid: 0, widget, properties: Properties::new() }
    }

    /// Store the size layout gave this node.
    pub fn set_size(&mut self, size: &Size)
        ensures
            *final(self) == (ChildSlot {
                properties: Properties { size: *size, ..old(self).properties },
                ..*old(self)
            }),
    {
        self.properties.size = *size
    }

    pub fn size(&self) -> (r: &Size)
        ensures
            *r == self.properties.size,
    {
        &self.properties.size
    }

    /// Store the position the parent placed this node at.
    pub fn set_position(&mut self, position: &Point)
        ensures
            *final(self) == (ChildSlot {
                properties: Properties { position: *position, ..old(self).properties },
                ..*old(self)
            }),
    {
        self.properties.position = *position
    }

    pub fn position(&self) -> (r: &Point)
        ensures
            *r == self.properties.position,
    {
        &self.properties.position
    }

    pub fn uid(&self) -> (r: usize)
        ensures
            r == self.uid,
    {
        self.uid
    }

    /// Whether `point` falls inside this node's rectangle.
    pub fn hit_test(&self, point: &Point) -> (r: bool)
        requires
            point.wf(),
            self.properties.geometry_wf(),
        ensures
            r == crate::geometry::point_in_rect(
                *point,
                self.properties.position,
                self.properties.size,
            ),
    {
        crate::geometry::hit_test_point(point, &self.properties.position, &self.properties.size)
    }
}

/// The value of an optional bound, taking an absent bound as zero.
pub fn opt_dim_or0(o: Option<i64>) -> (r: i64)
    ensures
        r == opt_or0(o),
{
    match o {
        Some(v) => v,
        None => 0,
    }
}

impl<M> Widget<M> {
    /// The flex factor this node reports to an enclosing flex container.
    pub fn flex(&self) -> (r: i64)
        ensures
            r == spec_flex(*self),
    {
        match self {
            Widget::Expanded(e) => e.flex,
            Widget::FlexBox(f) => f.flex,
            _ => 0,
        }
    }
}



/// Structurally equal trees are interchangeable for layout: they report
/// the same flex factor, measure to the same size under any constraints,
/// and accept exactly the same constraints. Together with layout
/// preserving structure, this is what makes a second layout pass behave
/// exactly like the first.
pub proof fn lemma_same_structure_measure<M>(
    a: Widget<M>,
    b: Widget<M>,
    c: crate::constraints::BoxConstraints,
)
    requires
        same_structure(a, b),
    ensures
        spec_flex(a) == spec_flex(b),
        measure(a, c) == measure(b, c),
        layout_ok(a, c) == layout_ok(b, c),
    decreases a, 2int,
{
    match (a, b) {
        (Widget::Container(x), Widget::Container(y)) => {
            assert(container_child_bc(x, c) == container_child_bc(y, c));
            lemma_same_structure_measure(*x.child.widget, *y.child.widget, container_child_bc(x, c));
        },
        (Widget::Center(x), Widget::Center(y)) => {
            lemma_same_structure_measure(
                *x.child.widget,
                *y.child.widget,
                center_child_bc(center_my_size(x, c)),
            );
        },
        (Widget::Expanded(x), Widget::Expanded(y)) => {
            lemma_same_structure_measure(
                *x.child.widget,
                *y.child.widget,
                tight_bc(expanded_size(x, c)),
            );
        },
        (Widget::SizedBox(x), Widget::SizedBox(y)) => {
            lemma_same_structure_measure(*x.child.widget, *y.child.widget, tight_bc(x.size));
        },
        (Widget::FlexBox(x), Widget::FlexBox(y)) => {
            lemma_same_structure_measure(*x.child.widget, *y.child.widget, c);
        },
        (Widget::Row(x), Widget::Row(y)) => {
            lemma_flex_scan_congruence(x.children@, y.children@, true, x.spacing, true, 0, 0, 0);
            let scan = flex_scan(x.children@, true, x.spacing, true, 0, 0, 0);
            let remaining = crate::geometry::clamp_dim(opt_or0(c.max_width) - scan.0);
            assert(measure(a, c) == flex_measure(x.children@, true, x.spacing, c));
            assert(measure(b, c) == flex_measure(y.children@, true, y.spacing, c));
            assert(flex_measure(x.children@, true, x.spacing, c) == flex_measure(
                y.children@,
                true,
                y.spacing,
                c,
            ));
            assert forall|i: int|
                0 <= i < x.children@.len() implies spec_flex(
                *(#[trigger] x.children@[i]).widget,
            ) == spec_flex(*y.children@[i].widget) by {
                lemma_same_structure_measure(
                    *x.children@[i].widget,
                    *y.children@[i].widget,
                    unconstrained(),
                );
            }
            assert forall|i: int| 0 <= i < x.children@.len() implies layout_ok(
                *(#[trigger] x.children@[i]).widget,
                if spec_flex(*x.children@[i].widget) == 0 {
                    unconstrained()
                } else {
                    flex_child_bc(
                        c,
                        true,
                        flex_share(remaining, spec_flex(*x.children@[i].widget) as int, scan.2),
                    )
                },
            ) == layout_ok(
                *y.children@[i].widget,
                if spec_flex(*y.children@[i].widget) == 0 {
                    unconstrained()
                } else {
                    flex_child_bc(
                        c,
                        true,
                        flex_share(remaining, spec_flex(*y.children@[i].widget) as int, scan.2),
                    )
                },
            ) by {
                lemma_same_structure_measure(
                    *x.children@[i].widget,
                    *y.children@[i].widget,
                    unconstrained(),
                );
                lemma_same_structure_measure(
                    *x.children@[i].widget,
                    *y.children@[i].widget,
                    flex_child_bc(
                        c,
                        true,
                        flex_share(remaining, spec_flex(*x.children@[i].widget) as int, scan.2),
                    ),
                );
            }
            assert(layout_ok(a, c) ==> layout_ok(b, c)) by {
                if layout_ok(a, c) {
                    assert forall|i: int| 0 <= i < y.children@.len() implies layout_ok(
                        *(#[trigger] y.children@[i]).widget,
                        if spec_flex(*y.children@[i].widget) == 0 {
                            unconstrained()
                        } else {
                            flex_child_bc(
                                c,
                                true,
                                flex_share(
                                    remaining,
                                    spec_flex(*y.children@[i].widget) as int,
                                    scan.2,
                                ),
                            )
                        },
                    ) by {
                        assert(layout_ok(
                            *(#[trigger] x.children@[i]).widget,
                            if spec_flex(*x.children@[i].widget) == 0 {
                                unconstrained()
                            } else {
                                flex_child_bc(
                                    c,
                                    true,
                                    flex_share(
                                        remaining,
                                        spec_flex(*x.children@[i].widget) as int,
                                        scan.2,
                                    ),
                                )
                            },
                        ));
                    }
                }
            }
            assert(layout_ok(b, c) ==> layout_ok(a, c)) by {
                if layout_ok(b, c) {
                    assert forall|i: int| 0 <= i < x.children@.len() implies layout_ok(
                        *(#[trigger] x.children@[i]).widget,
                        if spec_flex(*x.children@[i].widget) == 0 {
                            unconstrained()
                        } else {
                            flex_child_bc(
                                c,
                                true,
                                flex_share(
                                    remaining,
                                    spec_flex(*x.children@[i].widget) as int,
                                    scan.2,
                                ),
                            )
                        },
                    ) by {
                        assert(layout_ok(
                            *(#[trigger] y.children@[i]).widget,
                            if spec_flex(*y.children@[i].widget) == 0 {
                                unconstrained()
                            } else {
                                flex_child_bc(
                                    c,
                                    true,
                                    flex_share(
                                        remaining,
                                        spec_flex(*y.children@[i].widget) as int,
                                        scan.2,
                                    ),
                                )
                            },
                        ));
                    }
                }
            }
        },
        (Widget::Column(x), Widget::Column(y)) => {
            lemma_flex_scan_congruence(x.children@, y.children@, false, x.spacing, true, 0, 0, 0);
            let scan = flex_scan(x.children@, false, x.spacing, true, 0, 0, 0);
            let remaining = crate::geometry::clamp_dim(opt_or0(c.max_height) - scan.0);
            assert(measure(a, c) == flex_measure(x.children@, false, x.spacing, c));
            assert(measure(b, c) == flex_measure(y.children@, false, y.spacing, c));
            assert(flex_measure(x.children@, false, x.spacing, c) == flex_measure(
                y.children@,
                false,
                y.spacing,
                c,
            ));
            assert forall|i: int|
                0 <= i < x.children@.len() implies spec_flex(
                *(#[trigger] x.children@[i]).widget,
            ) == spec_flex(*y.children@[i].widget) by {
                lemma_same_structure_measure(
                    *x.children@[i].widget,
                    *y.children@[i].widget,
                    unconstrained(),
                );
            }
            assert forall|i: int| 0 <= i < x.children@.len() implies layout_ok(
                *(#[trigger] x.children@[i]).widget,
                if spec_flex(*x.children@[i].widget) == 0 {
                    unconstrained()
                } else {
                    flex_child_bc(
                        c,
                        false,
                        flex_share(remaining, spec_flex(*x.children@[i].widget) as int, scan.2),
                    )
                },
            ) == layout_ok(
                *y.children@[i].widget,
                if spec_flex(*y.children@[i].widget) == 0 {
                    unconstrained()
                } else {
                    flex_child_bc(
                        c,
                        false,
                        flex_share(remaining, spec_flex(*y.children@[i].widget) as int, scan.2),
                    )
                },
            ) by {
                lemma_same_structure_measure(
                    *x.children@[i].widget,
                    *y.children@[i].widget,
                    unconstrained(),
                );
                lemma_same_structure_measure(
                    *x.children@[i].widget,
                    *y.children@[i].widget,
                    flex_child_bc(
                        c,
                        false,
                        flex_share(remaining, spec_flex(*x.children@[i].widget) as int, scan.2),
                    ),
                );
            }
            assert(layout_ok(a, c) ==> layout_ok(b, c)) by {
                if layout_ok(a, c) {
                    assert forall|i: int| 0 <= i < y.children@.len() implies layout_ok(
                        *(#[trigger] y.children@[i]).widget,
                        if spec_flex(*y.children@[i].widget) == 0 {
                            unconstrained()
                        } else {
                            flex_child_bc(
                                c,
                                false,
                                flex_share(
                                    remaining,
                                    spec_flex(*y.children@[i].widget) as int,
                                    scan.2,
                                ),
                            )
                        },
                    ) by {
                        assert(layout_ok(
                            *(#[trigger] x.children@[i]).widget,
                            if spec_flex(*x.children@[i].widget) == 0 {
                                unconstrained()
                            } else {
                                flex_child_bc(
                                    c,
                                    false,
                                    flex_share(
                                        remaining,
                                        spec_flex(*x.children@[i].widget) as int,
                                        scan.2,
                                    ),
                                )
                            },
                        ));
                    }
                }
            }
            assert(layout_ok(b, c) ==> layout_ok(a, c)) by {
                if layout_ok(b, c) {
                    assert forall|i: int| 0 <= i < x.children@.len() implies layout_ok(
                        *(#[trigger] x.children@[i]).widget,
                        if spec_flex(*x.children@[i].widget) == 0 {
                            unconstrained()
                        } else {
                            flex_child_bc(
                                c,
                                false,
                                flex_share(
                                    remaining,
                                    spec_flex(*x.children@[i].widget) as int,
                                    scan.2,
                                ),
                            )
                        },
                    ) by {
                        assert(layout_ok(
                            *(#[trigger] y.children@[i]).widget,
                            if spec_flex(*y.children@[i].widget) == 0 {
                                unconstrained()
                            } else {
                                flex_child_bc(
                                    c,
                                    false,
                                    flex_share(
                                        remaining,
                                        spec_flex(*y.children@[i].widget) as int,
                                        scan.2,
                                    ),
                                )
                            },
                        ));
                    }
                }
            }
        },
        (Widget::List(x), Widget::List(y)) => {
            assert(list_child_bc(x, c) == list_child_bc(y, c));
            assert forall|i: int| 0 <= i < x.children@.len() implies layout_ok(
                *(#[trigger] x.children@[i]).widget,
                list_child_bc(x, c),
            ) == layout_ok(*y.children@[i].widget, list_child_bc(y, c)) by {
                lemma_same_structure_measure(
                    *x.children@[i].widget,
                    *y.children@[i].widget,
                    list_child_bc(x, c),
                );
            }
            assert(layout_ok(a, c) ==> layout_ok(b, c)) by {
                if layout_ok(a, c) {
                    assert forall|i: int| 0 <= i < y.children@.len() implies layout_ok(
                        *(#[trigger] y.children@[i]).widget,
                        list_child_bc(y, c),
                    ) by {
                        assert(layout_ok(*(#[trigger] x.children@[i]).widget, list_child_bc(x, c)));
                    }
                }
            }
            assert(layout_ok(b, c) ==> layout_ok(a, c)) by {
                if layout_ok(b, c) {
                    assert forall|i: int| 0 <= i < x.children@.len() implies layout_ok(
                        *(#[trigger] x.children@[i]).widget,
                        list_child_bc(x, c),
                    ) by {
                        assert(layout_ok(*(#[trigger] y.children@[i]).widget, list_child_bc(y, c)));
                    }
                }
            }
        },
        _ => {},
    }
}

/// Structurally equal child sequences scan identically.
pub proof fn lemma_flex_scan_congruence<M>(
    s1: Seq<ChildSlot<M>>,
    s2: Seq<ChildSlot<M>>,
    horizontal: bool,
    spacing: i64,
    first: bool,
    main: int,
    cross: int,
    tflex: int,
)
    requires
        s1.len() == s2.len(),
        forall|i: int| 0 <= i < s1.len() ==> slot_same(#[trigger] s1[i], s2[i]),
    ensures
        flex_scan(s1, horizontal, spacing, first, main, cross, tflex) == flex_scan(
            s2,
            horizontal,
            spacing,
            first,
            main,
            cross,
            tflex,
        ),
    decreases s1, 0int,
{
    if s1.len() > 0 {
        lemma_same_structure_measure(*s1[0].widget, *s2[0].widget, unconstrained());
        assert(forall|i: int|
            0 <= i < s1.drop_first().len() ==> s1.drop_first()[i] == s1[i + 1]
                && s2.drop_first()[i] == s2[i + 1]);
        let f = spec_flex(*s1[0].widget) as int;
        let sz = measure(*s1[0].widget, unconstrained());
        let m1 = if first {
            main
        } else {
            crate::geometry::clamp_dim(main + spacing)
        };
        let m2 = if f == 0 {
            crate::geometry::clamp_dim(m1 + main_of(sz, horizontal))
        } else {
            m1
        };
        let c2 = if f == 0 && cross_of(sz, horizontal) > cross {
            cross_of(sz, horizontal)
        } else {
            cross
        };
        let t2 = if tflex + f > crate::geometry::MAX_DIM {
            crate::geometry::MAX_DIM as int
        } else {
            tflex + f
        };
        lemma_flex_scan_congruence(
            s1.drop_first(),
            s2.drop_first(),
            horizontal,
            spacing,
            false,
            m2,
            c2,
            t2,
        );
    }
}

/// The main-axis coordinate of a slot\'s stored position.
pub open spec fn main_pos<M>(s: ChildSlot<M>, horizontal: bool) -> int {
    if horizontal {
        s.properties.position.x as int
    } else {
        s.properties.position.y as int
    }
}

/// The cross-axis coordinate of a slot\'s stored position.
pub open spec fn cross_pos<M>(s: ChildSlot<M>, horizontal: bool) -> int {
    if horizontal {
        s.properties.position.y as int
    } else {
        s.properties.position.x as int
    }
}

/// The flex factor of a well-formed widget is in range.
pub proof fn lemma_flex_bound<M>(w: Widget<M>)
    requires
        widget_wf(w),
    ensures
        0 <= spec_flex(w) <= MAX_FLEX,
{
}

/// Bounds of one flex scan: the accumulated extents stay in range, the
/// total never drops, and every child\'s flex factor is covered by it.
pub proof fn lemma_flex_scan_bounds<M>(
    s: Seq<ChildSlot<M>>,
    horizontal: bool,
    spacing: i64,
    first: bool,
    main: int,
    cross: int,
    tflex: int,
)
    requires
        forall|i: int| 0 <= i < s.len() ==> slot_wf(#[trigger] s[i]),
        0 <= spacing <= crate::geometry::MAX_DIM,
        0 <= main <= crate::geometry::MAX_DIM,
        0 <= cross <= crate::geometry::MAX_DIM,
        0 <= tflex <= crate::geometry::MAX_DIM,
    ensures
        ({
            let scan = flex_scan(s, horizontal, spacing, first, main, cross, tflex);
            &&& 0 <= scan.0 <= crate::geometry::MAX_DIM
            &&& 0 <= scan.1 <= crate::geometry::MAX_DIM
            &&& tflex <= scan.2 <= crate::geometry::MAX_DIM
            &&& forall|i: int|
                0 <= i < s.len() ==> scan.2 >= spec_flex(*(#[trigger] s[i]).widget)
        }),
    decreases s, 0int,
{
    if s.len() == 0 {
    } else {
        let sz = measure(*s[0].widget, unconstrained());
        lemma_measure_wf(*s[0].widget, unconstrained());
        lemma_flex_bound(*s[0].widget);
        let m1 = if first {
            main
        } else {
            crate::geometry::clamp_dim(main + spacing)
        };
        let f = spec_flex(*s[0].widget) as int;
        let m2 = if f == 0 {
            crate::geometry::clamp_dim(m1 + main_of(sz, horizontal))
        } else {
            m1
        };
        let c2 = if f == 0 && cross_of(sz, horizontal) > cross {
            cross_of(sz, horizontal)
        } else {
            cross
        };
        let t2 = if tflex + f > crate::geometry::MAX_DIM {
            crate::geometry::MAX_DIM as int
        } else {
            tflex + f
        };
        assert(forall|i: int| 0 <= i < s.drop_first().len() ==> slot_wf(#[trigger] s.drop_first()[i]));
        lemma_flex_scan_bounds(s.drop_first(), horizontal, spacing, false, m2, c2, t2);
        assert forall|i: int| 0 <= i < s.len() implies flex_scan(
            s,
            horizontal,
            spacing,
            first,
            main,
            cross,
            tflex,
        ).2 >= spec_flex(*(#[trigger] s[i]).widget) by {
            if i > 0 {
                assert(s.drop_first()[i - 1] == s[i]);
            }
        }
    }
}

/// A well-formed widget measured under well-formed constraints reports a
/// well-formed size.
pub proof fn lemma_measure_wf<M>(w: Widget<M>, c: crate::constraints::BoxConstraints)
    requires
        widget_wf(w),
        c.wf(),
    ensures
        measure(w, c).wf(),
    decreases w, 2int,
{
    match w {
        Widget::Container(cont) => {
            lemma_container_child_bc_wf(cont, c);
            lemma_measure_wf(*cont.child.widget, container_child_bc(cont, c));
            let child = measure(*cont.child.widget, container_child_bc(cont, c));
            assert(child.wf());
            let space = cont.spec_space_around();
            let dspace = crate::geometry::clamp_dim(2 * space);
            let base_w = crate::geometry::clamp_dim(child.width + dspace);
            let base_h = crate::geometry::clamp_dim(child.height + dspace);
            let w2 = if opt_or0(c.min_width) > base_w {
                opt_or0(c.min_width)
            } else {
                base_w
            };
            let h2 = if opt_or0(c.min_height) > base_h {
                opt_or0(c.min_height)
            } else {
                base_h
            };
            assert(0 <= w2 <= crate::geometry::MAX_DIM);
            assert(0 <= h2 <= crate::geometry::MAX_DIM);
            assert(measure(w, c) == (Size { width: w2 as i64, height: h2 as i64 }));
            assert(measure(w, c).wf());
        },
        Widget::Row(r) => {
            lemma_flex_scan_bounds(r.children@, true, r.spacing, true, 0, 0, 0);
            assert(measure(w, c) == flex_measure(r.children@, true, r.spacing, c));
            assert(flex_measure(r.children@, true, r.spacing, c).wf());
        },
        Widget::Column(col) => {
            lemma_flex_scan_bounds(col.children@, false, col.spacing, true, 0, 0, 0);
            assert(measure(w, c) == flex_measure(col.children@, false, col.spacing, c));
            assert(flex_measure(col.children@, false, col.spacing, c).wf());
        },
        Widget::FlexBox(f) => {
            lemma_measure_wf(*f.child.widget, c);
            assert(measure(w, c) == measure(*f.child.widget, c));
            assert(measure(w, c).wf());
        },
        _ => {},
    }
}

/// The constraints a container derives for its child are well formed.
pub proof fn lemma_container_child_bc_wf<M>(
    cont: container::Container<M>,
    c: crate::constraints::BoxConstraints,
)
    requires
        widget_wf(Widget::<M>::Container(cont)),
        c.wf(),
    ensures
        container_child_bc(cont, c).wf(),
{
}



/// Whether two trees have the same structure: the same variants, the same
/// widget-own fields and child ids everywhere, differing at most in the
/// geometry and hover bookkeeping their slots store. Layout preserves
/// this relation, which is what makes repeated layout passes
/// reproducible.
pub open spec fn same_structure<M>(a: Widget<M>, b: Widget<M>) -> bool
    decreases a, 1int,
{
    match (a, b) {
        (Widget::Label(x), Widget::Label(y)) => x == y,
        (Widget::Button(x), Widget::Button(y)) => x == y,
        (Widget::Slider(x), Widget::Slider(y)) => x == y,
        (Widget::Switch(x), Widget::Switch(y)) => x == y,
        (Widget::TextBox(x), Widget::TextBox(y)) => x == y,
        (Widget::Container(x), Widget::Container(y)) => {
            &&& x.padding == y.padding
            &&& x.margin == y.margin
            &&& x.border == y.border
            &&& x.width == y.width
            &&& x.height == y.height
            &&& x.paint == y.paint
            &&& slot_same(x.child, y.child)
        },
        (Widget::Center(x), Widget::Center(y)) => x.size == y.size && slot_same(x.child, y.child),
        (Widget::Expanded(x), Widget::Expanded(y)) => {
            &&& x.width == y.width
            &&& x.height == y.height
            &&& x.flex == y.flex
            &&& slot_same(x.child, y.child)
        },
        (Widget::SizedBox(x), Widget::SizedBox(y)) => x.size == y.size && slot_same(
            x.child,
            y.child,
        ),
        (Widget::FlexBox(x), Widget::FlexBox(y)) => x.flex == y.flex && slot_same(
            x.child,
            y.child,
        ),
        (Widget::Row(x), Widget::Row(y)) => {
            &&& x.spacing == y.spacing
            &&& x.children@.len() == y.children@.len()
            &&& forall|i: int|
                0 <= i < x.children@.len() ==> slot_same(
                    #[trigger] x.children@[i],
                    y.children@[i],
                )
        },
        (Widget::Column(x), Widget::Column(y)) => {
            &&& x.spacing == y.spacing
            &&& x.children@.len() == y.children@.len()
            &&& forall|i: int|
                0 <= i < x.children@.len() ==> slot_same(
                    #[trigger] x.children@[i],
                    y.children@[i],
                )
        },
        (Widget::List(x), Widget::List(y)) => {
            &&& x.spacing == y.spacing
            &&& x.item_size == y.item_size
            &&& x.children@.len() == y.children@.len()
            &&& forall|i: int|
                0 <= i < x.children@.len() ==> slot_same(
                    #[trigger] x.children@[i],
                    y.children@[i],
                )
        },
        _ => false,
    }
}

/// Two slots with the same id wrapping structurally equal widgets.
pub open spec fn slot_same<M>(a: ChildSlot<M>, b: ChildSlot<M>) -> bool
    decreases a, 2int,
{
    a.uid == b.uid && same_structure(*a.widget, *b.widget)
}

/// Structural equality is reflexive.
pub proof fn lemma_same_structure_refl<M>(w: Widget<M>)
    ensures
        same_structure(w, w),
    decreases w, 1int,
{
    match w {
        Widget::Container(c) => lemma_slot_same_refl(c.child),
        Widget::Center(c) => lemma_slot_same_refl(c.child),
        Widget::Expanded(e) => lemma_slot_same_refl(e.child),
        Widget::SizedBox(b) => lemma_slot_same_refl(b.child),
        Widget::FlexBox(f) => lemma_slot_same_refl(f.child),
        Widget::Row(r) => {
            assert forall|i: int| 0 <= i < r.children@.len() implies slot_same(
                #[trigger] r.children@[i],
                r.children@[i],
            ) by {
                lemma_slot_same_refl(r.children@[i]);
            }
        },
        Widget::Column(c) => {
            assert forall|i: int| 0 <= i < c.children@.len() implies slot_same(
                #[trigger] c.children@[i],
                c.children@[i],
            ) by {
                lemma_slot_same_refl(c.children@[i]);
            }
        },
        Widget::List(l) => {
            assert forall|i: int| 0 <= i < l.children@.len() implies slot_same(
                #[trigger] l.children@[i],
                l.children@[i],
            ) by {
                lemma_slot_same_refl(l.children@[i]);
            }
        },
        _ => {},
    }
}

/// Slot structural equality is reflexive.
pub proof fn lemma_slot_same_refl<M>(s: ChildSlot<M>)
    ensures
        slot_same(s, s),
    decreases s, 2int,
{
    lemma_same_structure_refl(*s.widget);
}

/// The ids a node registers with its layout context during one pass: one
/// per direct child slot, in order.
pub open spec fn registered_uids<M>(w: Widget<M>) -> Seq<usize> {
    match w {
        Widget::Label(_) => Seq::empty(),
        Widget::Button(_) => Seq::empty(),
        Widget::Slider(_) => Seq::empty(),
        Widget::Switch(_) => Seq::empty(),
        Widget::TextBox(_) => Seq::empty(),
        Widget::Container(c) => seq![c.child.uid],
        Widget::Center(c) => seq![c.child.uid],
        Widget::Expanded(e) => seq![e.child.uid],
        Widget::SizedBox(b) => seq![b.child.uid],
        Widget::FlexBox(f) => seq![f.child.uid],
        Widget::Row(r) => r.children@.map_values(|s: ChildSlot<M>| s.uid),
        Widget::Column(c) => c.children@.map_values(|s: ChildSlot<M>| s.uid),
        Widget::List(l) => l.children@.map_values(|s: ChildSlot<M>| s.uid),
    }
}

impl<M> ChildSlot<M> {
    /// Lay the inner widget out and record which children it registered;
    /// the parent stores the returned size afterwards.
    pub fn layout(&mut self, constraints: &crate::constraints::BoxConstraints) -> (r: Size)
        requires
            slot_wf(*old(self)),
            constraints.wf(),
            layout_ok(*old(self).widget, *constraints),
        ensures
            r == measure(*old(self).widget, *constraints),
            r.wf(),
            slot_wf(*final(self)),
            spec_flex(*final(self).widget) == spec_flex(*old(self).widget),
            final(self).uid == old(self).uid,
            final(self).properties.position == old(self).properties.position,
            final(self).properties.size == old(self).properties.size,
            final(self).properties.has_mouse == old(self).properties.has_mouse,
            final(self).properties.children@ == registered_uids(*old(self).widget),
            same_structure(*old(self).widget, *final(self).widget),
        decreases *old(self),
    {
        let mut inner = LayoutCtx::new();
        let size = self.widget.layout(constraints, &mut inner);
        self.properties.children = inner.children;
        proof {
            assert(self.properties.children@ =~= registered_uids(*old(self).widget));
        }
        size
    }
}

impl<M> Widget<M> {
    /// Lay this node out under `constraints`: recursively size and place
    /// its children, register them with `ctx`, and return its own size,
    /// which is exactly `measure` of the node.
    pub fn layout(
        &mut self,
        constraints: &crate::constraints::BoxConstraints,
        ctx: &mut LayoutCtx,
    ) -> (r: Size)
        requires
            widget_wf(*old(self)),
            constraints.wf(),
            layout_ok(*old(self), *constraints),
        ensures
            r == measure(*old(self), *constraints),
            r.wf(),
            widget_wf(*final(self)),
            spec_flex(*final(self)) == spec_flex(*old(self)),
            same_structure(*old(self), *final(self)),
            final(ctx).children@ == old(ctx).children@ + registered_uids(*old(self)),
            (*old(self) is Label || *old(self) is Button || *old(self) is Slider || *old(
                self,
            ) is Switch || *old(self) is TextBox) ==> *final(self) == *old(self),
            *old(self) is Container ==> {
                let cont = old(self)->Container_0;
                let space = cont.spec_space_around();
                &&& *final(self) is Container
                &&& final(self)->Container_0.child.properties.position == (Point {
                    x: space as i64,
                    y: space as i64,
                })
                &&& final(self)->Container_0.child.properties.size == measure(
                    *cont.child.widget,
                    container_child_bc(cont, *constraints),
                )
            },
            *old(self) is Center ==> {
                let cen = old(self)->Center_0;
                let my = center_my_size(cen, *constraints);
                let child_size = measure(*cen.child.widget, center_child_bc(my));
                &&& *final(self) is Center
                &&& final(self)->Center_0.child.properties.size == child_size
                &&& final(self)->Center_0.child.properties.position == (Point {
                    x: crate::widget::center::center_offset(
                        my.width as int,
                        child_size.width as int,
                    ) as i64,
                    y: crate::widget::center::center_offset(
                        my.height as int,
                        child_size.height as int,
                    ) as i64,
                })
            },
            *old(self) is SizedBox ==> *final(self) is SizedBox
                && final(self)->SizedBox_0.child.properties.size == old(self)->SizedBox_0.size,
            *old(self) is Expanded ==> *final(self) is Expanded
                && final(self)->Expanded_0.child.properties.size == measure(
                *old(self)->Expanded_0.child.widget,
                tight_bc(expanded_size(old(self)->Expanded_0, *constraints)),
            ),
            *old(self) is FlexBox ==> *final(self) is FlexBox
                && final(self)->FlexBox_0.child.properties.size == measure(
                *old(self)->FlexBox_0.child.widget,
                *constraints,
            ),
            *old(self) is Row ==> *final(self) is Row && flex_layout_post(
                old(self)->Row_0.children@,
                final(self)->Row_0.children@,
                true,
                old(self)->Row_0.spacing,
                *constraints,
            ),
            *old(self) is Column ==> *final(self) is Column && flex_layout_post(
                old(self)->Column_0.children@,
                final(self)->Column_0.children@,
                false,
                old(self)->Column_0.spacing,
                *constraints,
            ),
            *old(self) is List ==> *final(self) is List && list_layout_post(
                old(self)->List_0.children@,
                final(self)->List_0.children@,
                old(self)->List_0.spacing,
                old(self)->List_0.item_size,
                *constraints,
            ),
        decreases *old(self),
    {
        match self {
            Widget::Label(l) => {
                let size = l.layout(constraints);
                proof {
                    assert(ctx.children@ =~= old(ctx).children@ + registered_uids(*old(self)));
                    lemma_same_structure_refl(*old(self));
                }
                size
            },
            Widget::Button(b) => {
                let size = b.layout(constraints);
                proof {
                    assert(ctx.children@ =~= old(ctx).children@ + registered_uids(*old(self)));
                    lemma_same_structure_refl(*old(self));
                }
                size
            },
            Widget::Slider(s) => {
                let size = s.layout(constraints);
                proof {
                    assert(ctx.children@ =~= old(ctx).children@ + registered_uids(*old(self)));
                    lemma_same_structure_refl(*old(self));
                }
                size
            },
            Widget::Switch(s) => {
                let size = s.layout(constraints);
                proof {
                    assert(ctx.children@ =~= old(ctx).children@ + registered_uids(*old(self)));
                    lemma_same_structure_refl(*old(self));
                }
                size
            },
            Widget::TextBox(t) => {
                let size = t.layout(constraints);
                proof {
                    assert(ctx.children@ =~= old(ctx).children@ + registered_uids(*old(self)));
                    lemma_same_structure_refl(*old(self));
                }
                size
            },
            Widget::Container(cont) => {
                ctx.register_child(cont.child.uid());
                let space = cont.space_around();
                let dspace = crate::geometry::dim_add(space, space);
                let cc = if constraints.max_width().is_none()
                    || constraints.max_height().is_none() {
                    if cont.width.is_none() || cont.height.is_none() {
                        crate::constraints::BoxConstraints::new()
                    } else {
                        let w = opt_dim_or0(cont.width);
                        let h = opt_dim_or0(cont.height);
                        crate::constraints::BoxConstraints::new().with_max_width(
                            w,
                        ).with_max_height(h).shrunk(space, space)
                    }
                } else {
                    constraints.shrunk(dspace, dspace)
                };
                proof {
                    assert(cc == container_child_bc(old(self)->Container_0, *constraints));
                }
                let child_size = cont.child.layout(&cc);
                cont.child.set_position(&Point { x: space, y: space });
                cont.child.set_size(&child_size);
                let base_w = crate::geometry::dim_add(child_size.width, dspace);
                let base_h = crate::geometry::dim_add(child_size.height, dspace);
                let min_w = opt_dim_or0(constraints.min_width());
                let min_h = opt_dim_or0(constraints.min_height());
                proof {
                    assert(ctx.children@ =~= old(ctx).children@ + registered_uids(*old(self)));
                }
                Size {
                    width: crate::geometry::dim_max(base_w, min_w),
                    height: crate::geometry::dim_max(base_h, min_h),
                }
            },
            Widget::Center(cen) => {
                ctx.register_child(cen.child.uid());
                let my = match cen.size {
                    Some(sz) => sz,
                    None => Size {
                        width: opt_dim_or0(constraints.max_width()),
                        height: opt_dim_or0(constraints.max_height()),
                    },
                };
                let cc = crate::constraints::BoxConstraints::new().with_max_width(
                    my.width,
                ).with_max_height(my.height);
                proof {
                    assert(cc == center_child_bc(my));
                }
                let child_size = cen.child.layout(&cc);
                cen.child.set_size(&child_size);
                let x_offset = crate::widget::center::center_offset_exec(
                    my.width,
                    child_size.width,
                );
                let y_offset = crate::widget::center::center_offset_exec(
                    my.height,
                    child_size.height,
                );
                cen.child.set_position(&Point { x: x_offset, y: y_offset });
                proof {
                    assert(ctx.children@ =~= old(ctx).children@ + registered_uids(*old(self)));
                }
                my
            },
            Widget::Expanded(e) => {
                ctx.register_child(e.child.uid());
                let size = Size {
                    width: match e.width {
                        Some(w) => w,
                        None => opt_dim_or0(constraints.max_width()),
                    },
                    height: match e.height {
                        Some(h) => h,
                        None => opt_dim_or0(constraints.max_height()),
                    },
                };
                let cc = crate::constraints::BoxConstraints::new().with_tight_constraints(
                    size.width,
                    size.height,
                );
                proof {
                    assert(size.wf());
                    assert(cc == tight_bc(size));
                }
                let child_size = e.child.layout(&cc);
                e.child.set_size(&child_size);
                proof {
                    assert(ctx.children@ =~= old(ctx).children@ + registered_uids(*old(self)));
                    lemma_same_structure_refl(*old(self));
                }
                size
            },
            Widget::SizedBox(b) => {
                ctx.register_child(b.child.uid());
                let size = b.size;
                let cc = crate::constraints::BoxConstraints::new().with_tight_constraints(
                    size.width,
                    size.height,
                );
                proof {
                    assert(cc == tight_bc(size));
                }
                let _ = b.child.layout(&cc);
                b.child.set_size(&size);
                proof {
                    assert(ctx.children@ =~= old(ctx).children@ + registered_uids(*old(self)));
                    lemma_same_structure_refl(*old(self));
                }
                size
            },
            Widget::Row(r) => {
                let size = flex_layout(&mut r.children, true, r.spacing, constraints, ctx);
                proof {
                    assert(ctx.children@ =~= old(ctx).children@ + registered_uids(*old(self)));
                    lemma_same_structure_refl(*old(self));
                }
                size
            },
            Widget::Column(col) => {
                let size = flex_layout(&mut col.children, false, col.spacing, constraints, ctx);
                proof {
                    assert(ctx.children@ =~= old(ctx).children@ + registered_uids(*old(self)));
                    lemma_same_structure_refl(*old(self));
                }
                size
            },
            Widget::FlexBox(f) => {
                ctx.register_child(f.child.uid());
                let size = f.child.layout(constraints);
                f.child.set_size(&size);
                proof {
                    assert(ctx.children@ =~= old(ctx).children@ + registered_uids(*old(self)));
                    lemma_same_structure_refl(*old(self));
                }
                size
            },
            Widget::List(l) => {
                let size = list_layout(&mut l.children, l.spacing, l.item_size, constraints, ctx);
                proof {
                    assert(ctx.children@ =~= old(ctx).children@ + registered_uids(*old(self)));
                    lemma_same_structure_refl(*old(self));
                }
                size
            },
        }
    }
}

/// What a flex layout pass guarantees about the children afterwards:
/// counts, identity and hover kept per slot; inflexible children sized at
/// their natural measure; flexible children sized at their share; and
/// every child placed at the running main-axis offset with the cross axis
/// at zero.
pub open spec fn flex_layout_post<M>(
    orig: Seq<ChildSlot<M>>,
    now: Seq<ChildSlot<M>>,
    horizontal: bool,
    spacing: i64,
    c: crate::constraints::BoxConstraints,
) -> bool {
    let scan = flex_scan(orig, horizontal, spacing, true, 0, 0, 0);
    let max_main = if horizontal {
        opt_or0(c.max_width)
    } else {
        opt_or0(c.max_height)
    };
    let remaining = crate::geometry::clamp_dim(max_main - scan.0);
    &&& now.len() == orig.len()
    &&& forall|i: int|
        0 <= i < now.len() ==> (#[trigger] now[i]).uid == orig[i].uid
            && now[i].properties.has_mouse == orig[i].properties.has_mouse
    &&& forall|i: int|
        0 <= i < now.len() && spec_flex(*orig[i].widget) == 0 ==> (
        #[trigger] now[i]).properties.size == measure(*orig[i].widget, unconstrained())
    &&& forall|i: int|
        0 <= i < now.len() && spec_flex(*orig[i].widget) != 0 ==> (
        #[trigger] now[i]).properties.size == measure(
            *orig[i].widget,
            flex_child_bc(
                c,
                horizontal,
                flex_share(remaining, spec_flex(*orig[i].widget) as int, scan.2),
            ),
        )
    &&& forall|i: int| 0 <= i < now.len() ==> cross_pos(#[trigger] now[i], horizontal) == 0
    &&& (now.len() > 0 ==> main_pos(now[0], horizontal) == 0)
    &&& forall|i: int|
        1 <= i < now.len() ==> main_pos(#[trigger] now[i], horizontal)
            == crate::geometry::clamp_dim(
            crate::geometry::clamp_dim(
                main_pos(now[i - 1], horizontal) + main_of(now[i - 1].properties.size, horizontal),
            ) + spacing,
        )
}

/// What a list layout pass guarantees about the children afterwards:
/// counts and identity kept; every child as wide as its measure under the
/// list\'s item constraints, with the forced item height when one is set;
/// children stacked at the running vertical offset.
pub open spec fn list_layout_post<M>(
    orig: Seq<ChildSlot<M>>,
    now: Seq<ChildSlot<M>>,
    spacing: i64,
    item_size: Option<i64>,
    c: crate::constraints::BoxConstraints,
) -> bool {
    let bc = crate::constraints::BoxConstraints {
        min_width: None,
        max_width: Some(opt_or0(c.max_width) as i64),
        min_height: None,
        max_height: item_size,
    };
    &&& now.len() == orig.len()
    &&& forall|i: int|
        0 <= i < now.len() ==> (#[trigger] now[i]).uid == orig[i].uid
            && now[i].properties.has_mouse == orig[i].properties.has_mouse
    &&& forall|i: int|
        0 <= i < now.len() ==> (#[trigger] now[i]).properties.size == (Size {
            width: measure(*orig[i].widget, bc).width,
            height: match item_size {
                Some(h) => h,
                None => measure(*orig[i].widget, bc).height,
            },
        })
    &&& forall|i: int| 0 <= i < now.len() ==> (#[trigger] now[i]).properties.position.x == 0
    &&& (now.len() > 0 ==> now[0].properties.position.y == 0)
    &&& forall|i: int|
        1 <= i < now.len() ==> (#[trigger] now[i]).properties.position.y as int
            == crate::geometry::clamp_dim(
            crate::geometry::clamp_dim(
                now[i - 1].properties.position.y + now[i - 1].properties.size.height,
            ) + spacing,
        )
}


/// Lay out the children of a flex container: first the inflexible
/// children at their natural size while the main-axis extent, cross
/// extent and total flex are scanned; then the flexible children, each
/// with a tight share of the remaining main-axis space; then every child
/// placed at the running main-axis offset.
#[verifier::rlimit(100)]
fn flex_layout<M>(
    children: &mut Vec<ChildSlot<M>>,
    horizontal: bool,
    spacing: i64,
    c: &crate::constraints::BoxConstraints,
    ctx: &mut LayoutCtx,
) -> (r: Size)
    requires
        c.wf(),
        c.spec_has_max(),
        0 <= spacing <= crate::geometry::MAX_DIM,
        forall|i: int| 0 <= i < old(children)@.len() ==> slot_wf(#[trigger] old(children)@[i]),
        ({
            let scan = flex_scan(old(children)@, horizontal, spacing, true, 0, 0, 0);
            let max_main = if horizontal {
                opt_or0(c.max_width)
            } else {
                opt_or0(c.max_height)
            };
            let remaining = crate::geometry::clamp_dim(max_main - scan.0);
            forall|i: int|
                0 <= i < old(children)@.len() ==> layout_ok(
                    *(#[trigger] old(children)@[i]).widget,
                    if spec_flex(*old(children)@[i].widget) == 0 {
                        unconstrained()
                    } else {
                        flex_child_bc(
                            *c,
                            horizontal,
                            flex_share(
                                remaining,
                                spec_flex(*old(children)@[i].widget) as int,
                                scan.2,
                            ),
                        )
                    },
                )
        }),
    ensures
        r == flex_measure(old(children)@, horizontal, spacing, *c),
        r.wf(),
        forall|i: int|
            0 <= i < final(children)@.len() ==> slot_wf(#[trigger] final(children)@[i]),
        flex_layout_post(old(children)@, final(children)@, horizontal, spacing, *c),
        forall|i: int|
            0 <= i < final(children)@.len() ==> slot_same(
                old(children)@[i],
                #[trigger] final(children)@[i],
            ),
        final(ctx).children@ == old(ctx).children@ + old(children)@.map_values(
            |s: ChildSlot<M>| s.uid,
        ),
    decreases old(children)@,
{
    let ghost orig = children@;
    let ghost whole = flex_scan(orig, horizontal, spacing, true, 0, 0, 0);
    proof {
        lemma_flex_scan_bounds(orig, horizontal, spacing, true, 0, 0, 0);
    }
    let unc = crate::constraints::BoxConstraints::new();
    let mut main: i64 = 0;
    let mut cross: i64 = 0;
    let mut total: i64 = 0;
    let mut done: Vec<ChildSlot<M>> = Vec::new();
    loop
        invariant_except_break
            c.wf(),
            c.spec_has_max(),
            0 <= spacing <= crate::geometry::MAX_DIM,
            unc == unconstrained(),
            orig == old(children)@,
            whole == flex_scan(orig, horizontal, spacing, true, 0, 0, 0),
            done@.len() + children@.len() == orig.len(),
            children@ == orig.skip(done@.len() as int),
            0 <= main <= crate::geometry::MAX_DIM,
            0 <= cross <= crate::geometry::MAX_DIM,
            0 <= total <= crate::geometry::MAX_DIM,
            whole == flex_scan(
                children@,
                horizontal,
                spacing,
                done@.len() == 0,
                main as int,
                cross as int,
                total as int,
            ),
            forall|i: int| 0 <= i < orig.len() ==> slot_wf(#[trigger] orig[i]),
            forall|i: int| 0 <= i < orig.len() ==> decreases_to!(orig => #[trigger] orig[i]),
            ({
                let remaining0 = crate::geometry::clamp_dim(
                    (if horizontal {
                        opt_or0(c.max_width)
                    } else {
                        opt_or0(c.max_height)
                    }) - whole.0,
                );
                forall|i: int|
                    0 <= i < orig.len() ==> layout_ok(
                        *(#[trigger] orig[i]).widget,
                        if spec_flex(*orig[i].widget) == 0 {
                            unconstrained()
                        } else {
                            flex_child_bc(
                                *c,
                                horizontal,
                                flex_share(remaining0, spec_flex(*orig[i].widget) as int, whole.2),
                            )
                        },
                    )
            }),
            forall|j: int|
                0 <= j < done@.len() ==> (#[trigger] done@[j]).uid == orig[j].uid && done@[
                    j
                ].properties.has_mouse == orig[j].properties.has_mouse && done@[
                    j
                ].properties.position == orig[j].properties.position && slot_wf(done@[j])
                    && spec_flex(*done@[j].widget) == spec_flex(*orig[j].widget),
            forall|j: int|
                0 <= j < done@.len() && spec_flex(*orig[j].widget) == 0 ==> (
                #[trigger] done@[j]).properties.size == measure(*orig[j].widget, unconstrained()),
            forall|j: int|
                0 <= j < done@.len() && spec_flex(*orig[j].widget) != 0 ==> #[trigger] done@[j]
                    == orig[j],
            forall|j: int| 0 <= j < done@.len() ==> slot_same(orig[j], #[trigger] done@[j]),
            ctx.children@ == old(ctx).children@ + orig.take(done@.len() as int).map_values(
                |s: ChildSlot<M>| s.uid,
            ),
        ensures
            children@.len() == 0,
            done@.len() == orig.len(),
            main as int == whole.0 && cross as int == whole.1 && total as int == whole.2,
            0 <= main <= crate::geometry::MAX_DIM,
            0 <= cross <= crate::geometry::MAX_DIM,
            0 <= total <= crate::geometry::MAX_DIM,
            forall|j: int|
                0 <= j < done@.len() ==> (#[trigger] done@[j]).uid == orig[j].uid && done@[
                    j
                ].properties.has_mouse == orig[j].properties.has_mouse && done@[
                    j
                ].properties.position == orig[j].properties.position && slot_wf(done@[j])
                    && spec_flex(*done@[j].widget) == spec_flex(*orig[j].widget),
            forall|j: int|
                0 <= j < done@.len() && spec_flex(*orig[j].widget) == 0 ==> (
                #[trigger] done@[j]).properties.size == measure(*orig[j].widget, unconstrained()),
            forall|j: int|
                0 <= j < done@.len() && spec_flex(*orig[j].widget) != 0 ==> #[trigger] done@[j]
                    == orig[j],
            forall|j: int| 0 <= j < done@.len() ==> slot_same(orig[j], #[trigger] done@[j]),
            ctx.children@ == old(ctx).children@ + orig.map_values(|s: ChildSlot<M>| s.uid),
        decreases children@.len(),
    {
        if children.len() == 0 {
            proof {
                assert(orig.take(done@.len() as int) =~= orig);
            }
            break ;
        }
        proof {
            assert(children@[0] == orig[done@.len() as int]);
        }
        let mut slot = children.remove(0);
        ctx.register_child(slot.uid());
        proof {
            assert(orig.take(done@.len() as int + 1).map_values(|s: ChildSlot<M>| s.uid) =~= orig.take(
                done@.len() as int,
            ).map_values(|s: ChildSlot<M>| s.uid).push(slot.uid));
        }
        if done.len() > 0 {
            main = crate::geometry::dim_add(main, spacing);
        }
        let f = slot.widget.flex();
        proof {
            lemma_flex_bound(*slot.widget);
            lemma_measure_wf(*slot.widget, unconstrained());
        }
        if f == 0 {
            let sz = slot.layout(&unc);
            slot.set_size(&sz);
            let m = if horizontal {
                sz.width
            } else {
                sz.height
            };
            let cr = if horizontal {
                sz.height
            } else {
                sz.width
            };
            main = crate::geometry::dim_add(main, m);
            if cr > cross {
                cross = cr;
            }
        }
        if total + f > crate::geometry::MAX_DIM {
            total = crate::geometry::MAX_DIM;
        } else {
            total = total + f;
        }
        done.push(slot);
        proof {
            assert(children@ =~= orig.skip(done@.len() as int));
            if f != 0 {
                lemma_slot_same_refl(orig[done@.len() - 1]);
            }
        }
    }
    let max_main = if horizontal {
        opt_dim_or0(c.max_width())
    } else {
        opt_dim_or0(c.max_height())
    };
    let remaining = crate::geometry::dim_sub(max_main, main);
    let ghost stage1 = done@;
    // Second pass: flexible children receive a tight share of the
    // remaining main-axis space.
    let mut mid: Vec<ChildSlot<M>> = Vec::new();
    loop
        invariant_except_break
            c.wf(),
            c.spec_has_max(),
            orig == old(children)@,
            whole == flex_scan(orig, horizontal, spacing, true, 0, 0, 0),
            whole.2 == total as int,
            0 <= total <= crate::geometry::MAX_DIM,
            0 <= remaining <= crate::geometry::MAX_DIM,
            remaining as int == crate::geometry::clamp_dim(
                (if horizontal {
                    opt_or0(c.max_width)
                } else {
                    opt_or0(c.max_height)
                }) - whole.0,
            ),
            stage1.len() == orig.len(),
            mid@.len() + done@.len() == orig.len(),
            done@ == stage1.skip(mid@.len() as int),
            forall|i: int| 0 <= i < orig.len() ==> slot_wf(#[trigger] orig[i]),
            forall|i: int| 0 <= i < orig.len() ==> decreases_to!(orig => #[trigger] orig[i]),
            forall|i: int|
                0 <= i < orig.len() ==> layout_ok(
                    *(#[trigger] orig[i]).widget,
                    if spec_flex(*orig[i].widget) == 0 {
                        unconstrained()
                    } else {
                        flex_child_bc(
                            *c,
                            horizontal,
                            flex_share(remaining as int, spec_flex(*orig[i].widget) as int, whole.2),
                        )
                    },
                ),
            forall|i: int| 0 <= i < orig.len() ==> whole.2 >= spec_flex(*(#[trigger] orig[i]).widget),
            forall|j: int|
                0 <= j < stage1.len() ==> (#[trigger] stage1[j]).uid == orig[j].uid && stage1[
                    j
                ].properties.has_mouse == orig[j].properties.has_mouse && stage1[
                    j
                ].properties.position == orig[j].properties.position && slot_wf(stage1[j])
                    && spec_flex(*stage1[j].widget) == spec_flex(*orig[j].widget),
            forall|j: int|
                0 <= j < stage1.len() && spec_flex(*orig[j].widget) == 0 ==> (
                #[trigger] stage1[j]).properties.size == measure(*orig[j].widget, unconstrained()),
            forall|j: int|
                0 <= j < stage1.len() && spec_flex(*orig[j].widget) != 0 ==> #[trigger] stage1[j]
                    == orig[j],
            forall|j: int| 0 <= j < stage1.len() ==> slot_same(orig[j], #[trigger] stage1[j]),
            forall|j: int|
                0 <= j < mid@.len() ==> (#[trigger] mid@[j]).uid == orig[j].uid && mid@[
                    j
                ].properties.has_mouse == orig[j].properties.has_mouse && mid@[
                    j
                ].properties.position == orig[j].properties.position && slot_wf(mid@[j]),
            forall|j: int|
                0 <= j < mid@.len() && spec_flex(*orig[j].widget) == 0 ==> #[trigger] mid@[j]
                    == stage1[j],
            forall|j: int| 0 <= j < mid@.len() ==> slot_same(orig[j], #[trigger] mid@[j]),
            forall|j: int|
                0 <= j < mid@.len() && spec_flex(*orig[j].widget) != 0 ==> (
                #[trigger] mid@[j]).properties.size == measure(
                    *orig[j].widget,
                    flex_child_bc(
                        *c,
                        horizontal,
                        flex_share(remaining as int, spec_flex(*orig[j].widget) as int, whole.2),
                    ),
                ),
        ensures
            mid@.len() == orig.len(),
            forall|j: int|
                0 <= j < mid@.len() ==> (#[trigger] mid@[j]).uid == orig[j].uid && mid@[
                    j
                ].properties.has_mouse == orig[j].properties.has_mouse && slot_wf(mid@[j]),
            forall|j: int|
                0 <= j < mid@.len() && spec_flex(*orig[j].widget) == 0 ==> (
                #[trigger] mid@[j]).properties.size == measure(*orig[j].widget, unconstrained()),
            forall|j: int| 0 <= j < mid@.len() ==> slot_same(orig[j], #[trigger] mid@[j]),
            forall|j: int|
                0 <= j < mid@.len() && spec_flex(*orig[j].widget) != 0 ==> (
                #[trigger] mid@[j]).properties.size == measure(
                    *orig[j].widget,
                    flex_child_bc(
                        *c,
                        horizontal,
                        flex_share(remaining as int, spec_flex(*orig[j].widget) as int, whole.2),
                    ),
                ),
        decreases done@.len(),
    {
        if done.len() == 0 {
            break ;
        }
        proof {
            assert(done@[0] == stage1[mid@.len() as int]);
        }
        let mut slot = done.remove(0);
        let f = slot.widget.flex();
        proof {
            lemma_flex_bound(*slot.widget);
        }
        if f != 0 {
            proof {
                assert(slot == orig[mid@.len() as int]);
                assert(whole.2 >= f);
            }
            let fi: i64 = f;
            proof {
                let ri = remaining as int;
                let f2 = fi as int;
                let ti = total as int;
                assert(0 <= ri * f2 <= ri * ti) by (nonlinear_arith)
                    requires
                        0 <= ri,
                        0 <= f2 <= ti,
                ;
                assert(ri * f2 <= 0x100_0000_0000i64 * 0x10_0000i64) by (nonlinear_arith)
                    requires
                        0 <= ri <= 0x100_0000_0000i64,
                        0 <= f2 <= 0x10_0000i64,
                ;
                assert(ri * f2 / ti <= ri) by (nonlinear_arith)
                    requires
                        0 < ti,
                        0 <= ri,
                        ri * f2 <= ri * ti,
                ;
            }
            let share: i64 = remaining * fi / total;
            proof {
                assert(share as int == flex_share(remaining as int, fi as int, total as int));
            }
            let bc = if horizontal {
                crate::constraints::BoxConstraints {
                    min_width: Some(share),
                    max_width: Some(share),
                    min_height: None,
                    max_height: Some(opt_dim_or0(c.max_height())),
                }
            } else {
                crate::constraints::BoxConstraints {
                    min_width: None,
                    max_width: Some(opt_dim_or0(c.max_width())),
                    min_height: Some(share),
                    max_height: Some(share),
                }
            };
            proof {
                assert(bc == flex_child_bc(
                    *c,
                    horizontal,
                    flex_share(remaining as int, f as int, whole.2),
                ));
                assert(bc.wf());
            }
            let sz = slot.layout(&bc);
            slot.set_size(&sz);
        }
        mid.push(slot);
        proof {
            assert(done@ =~= stage1.skip(mid@.len() as int));
        }
    }
    // Third pass: place every child at the running main-axis offset.
    let ghost stage2 = mid@;
    let mut offset: i64 = 0;
    let mut out: Vec<ChildSlot<M>> = Vec::new();
    loop
        invariant_except_break
            0 <= spacing <= crate::geometry::MAX_DIM,
            stage2.len() == orig.len(),
            out@.len() + mid@.len() == orig.len(),
            mid@ == stage2.skip(out@.len() as int),
            0 <= offset <= crate::geometry::MAX_DIM,
            forall|j: int|
                0 <= j < stage2.len() ==> slot_wf(#[trigger] stage2[j]),
            forall|j: int| 0 <= j < stage2.len() ==> slot_same(orig[j], #[trigger] stage2[j]),
            forall|j: int|
                0 <= j < out@.len() ==> *(#[trigger] out@[j]).widget == *stage2[j].widget && out@[
                    j
                ].uid == stage2[j].uid && out@[j].properties.size == stage2[j].properties.size
                    && out@[j].properties.has_mouse == stage2[j].properties.has_mouse && out@[
                    j
                ].properties.children == stage2[j].properties.children && slot_wf(out@[j]),
            forall|j: int| 0 <= j < out@.len() ==> cross_pos(#[trigger] out@[j], horizontal) == 0,
            (out@.len() > 0 ==> main_pos(out@[0], horizontal) == 0),
            forall|j: int|
                1 <= j < out@.len() ==> main_pos(#[trigger] out@[j], horizontal)
                    == crate::geometry::clamp_dim(
                    crate::geometry::clamp_dim(
                        main_pos(out@[j - 1], horizontal) + main_of(
                            out@[j - 1].properties.size,
                            horizontal,
                        ),
                    ) + spacing,
                ),
            offset as int == if out@.len() == 0 {
                0int
            } else {
                crate::geometry::clamp_dim(
                    crate::geometry::clamp_dim(
                        main_pos(out@[out@.len() - 1], horizontal) + main_of(
                            out@[out@.len() - 1].properties.size,
                            horizontal,
                        ),
                    ) + spacing,
                )
            },
        ensures
            out@.len() == orig.len(),
            forall|j: int|
                0 <= j < out@.len() ==> *(#[trigger] out@[j]).widget == *stage2[j].widget && out@[
                    j
                ].uid == stage2[j].uid && out@[j].properties.size == stage2[j].properties.size
                    && out@[j].properties.has_mouse == stage2[j].properties.has_mouse && slot_wf(
                    out@[j],
                ),
            forall|j: int| 0 <= j < out@.len() ==> cross_pos(#[trigger] out@[j], horizontal) == 0,
            (out@.len() > 0 ==> main_pos(out@[0], horizontal) == 0),
            forall|j: int|
                1 <= j < out@.len() ==> main_pos(#[trigger] out@[j], horizontal)
                    == crate::geometry::clamp_dim(
                    crate::geometry::clamp_dim(
                        main_pos(out@[j - 1], horizontal) + main_of(
                            out@[j - 1].properties.size,
                            horizontal,
                        ),
                    ) + spacing,
                ),
            forall|j: int| 0 <= j < out@.len() ==> slot_same(orig[j], #[trigger] out@[j]),
        decreases mid@.len(),
    {
        if mid.len() == 0 {
            break ;
        }
        proof {
            assert(mid@[0] == stage2[out@.len() as int]);
        }
        let mut slot = mid.remove(0);
        let position = if horizontal {
            Point { x: offset, y: 0 }
        } else {
            Point { x: 0, y: offset }
        };
        slot.set_position(&position);
        let m = if horizontal {
            slot.size().width
        } else {
            slot.size().height
        };
        offset = crate::geometry::dim_add(crate::geometry::dim_add(offset, m), spacing);
        out.push(slot);
        proof {
            assert(mid@ =~= stage2.skip(out@.len() as int));
        }
    }
    *children = out;
    let r = if total > 0 {
        Size {
            width: opt_dim_or0(c.max_width()),
            height: opt_dim_or0(c.max_height()),
        }
    } else {
        if horizontal {
            Size { width: main, height: cross }
        } else {
            Size { width: cross, height: main }
        }
    };
    proof {
        assert(r == flex_measure(orig, horizontal, spacing, *c));
    }
    r
}


/// Lay out the children of a list: each is offered the list\'s maximum
/// width (and the fixed item height when one is set), given that height,
/// and stacked at the running vertical offset.
fn list_layout<M>(
    children: &mut Vec<ChildSlot<M>>,
    spacing: i64,
    item_size: Option<i64>,
    c: &crate::constraints::BoxConstraints,
    ctx: &mut LayoutCtx,
) -> (r: Size)
    requires
        c.wf(),
        c.spec_has_max(),
        0 <= spacing <= crate::geometry::MAX_DIM,
        crate::constraints::bound_wf(item_size),
        forall|i: int| 0 <= i < old(children)@.len() ==> slot_wf(#[trigger] old(children)@[i]),
        forall|i: int|
            0 <= i < old(children)@.len() ==> layout_ok(
                *(#[trigger] old(children)@[i]).widget,
                crate::constraints::BoxConstraints {
                    min_width: None,
                    max_width: Some(opt_or0(c.max_width) as i64),
                    min_height: None,
                    max_height: item_size,
                },
            ),
    ensures
        r == (Size { width: opt_or0(c.max_width) as i64, height: opt_or0(c.max_height) as i64 }),
        r.wf(),
        forall|i: int|
            0 <= i < final(children)@.len() ==> slot_wf(#[trigger] final(children)@[i]),
        list_layout_post(old(children)@, final(children)@, spacing, item_size, *c),
        forall|i: int|
            0 <= i < final(children)@.len() ==> slot_same(
                old(children)@[i],
                #[trigger] final(children)@[i],
            ),
        final(ctx).children@ == old(ctx).children@ + old(children)@.map_values(
            |s: ChildSlot<M>| s.uid,
        ),
    decreases old(children)@,
{
    let ghost orig = children@;
    let bc = crate::constraints::BoxConstraints {
        min_width: None,
        max_width: Some(opt_dim_or0(c.max_width())),
        min_height: None,
        max_height: item_size,
    };
    let mut y: i64 = 0;
    let mut out: Vec<ChildSlot<M>> = Vec::new();
    loop
        invariant_except_break
            c.wf(),
            c.spec_has_max(),
            0 <= spacing <= crate::geometry::MAX_DIM,
            crate::constraints::bound_wf(item_size),
            bc == (crate::constraints::BoxConstraints {
                min_width: None,
                max_width: Some(opt_or0(c.max_width) as i64),
                min_height: None,
                max_height: item_size,
            }),
            orig == old(children)@,
            out@.len() + children@.len() == orig.len(),
            children@ == orig.skip(out@.len() as int),
            0 <= y <= crate::geometry::MAX_DIM,
            forall|i: int| 0 <= i < orig.len() ==> slot_wf(#[trigger] orig[i]),
            forall|i: int| 0 <= i < orig.len() ==> decreases_to!(orig => #[trigger] orig[i]),
            forall|i: int| 0 <= i < orig.len() ==> layout_ok(*(#[trigger] orig[i]).widget, bc),
            forall|j: int|
                0 <= j < out@.len() ==> (#[trigger] out@[j]).uid == orig[j].uid && out@[
                    j
                ].properties.has_mouse == orig[j].properties.has_mouse && slot_wf(out@[j]),
            forall|j: int| 0 <= j < out@.len() ==> slot_same(orig[j], #[trigger] out@[j]),
            forall|j: int|
                0 <= j < out@.len() ==> (#[trigger] out@[j]).properties.size == (Size {
                    width: measure(*orig[j].widget, bc).width,
                    height: match item_size {
                        Some(h) => h,
                        None => measure(*orig[j].widget, bc).height,
                    },
                }),
            forall|j: int| 0 <= j < out@.len() ==> (#[trigger] out@[j]).properties.position.x == 0,
            (out@.len() > 0 ==> out@[0].properties.position.y == 0),
            forall|j: int|
                1 <= j < out@.len() ==> (#[trigger] out@[j]).properties.position.y as int
                    == crate::geometry::clamp_dim(
                    crate::geometry::clamp_dim(
                        out@[j - 1].properties.position.y + out@[j - 1].properties.size.height,
                    ) + spacing,
                ),
            y as int == if out@.len() == 0 {
                0int
            } else {
                crate::geometry::clamp_dim(
                    crate::geometry::clamp_dim(
                        out@[out@.len() - 1].properties.position.y + out@[out@.len()
                            - 1].properties.size.height,
                    ) + spacing,
                )
            },
            ctx.children@ == old(ctx).children@ + orig.take(out@.len() as int).map_values(
                |s: ChildSlot<M>| s.uid,
            ),
        ensures
            out@.len() == orig.len(),
            forall|j: int|
                0 <= j < out@.len() ==> (#[trigger] out@[j]).uid == orig[j].uid && out@[
                    j
                ].properties.has_mouse == orig[j].properties.has_mouse && slot_wf(out@[j]),
            forall|j: int| 0 <= j < out@.len() ==> slot_same(orig[j], #[trigger] out@[j]),
            forall|j: int|
                0 <= j < out@.len() ==> (#[trigger] out@[j]).properties.size == (Size {
                    width: measure(*orig[j].widget, bc).width,
                    height: match item_size {
                        Some(h) => h,
                        None => measure(*orig[j].widget, bc).height,
                    },
                }),
            forall|j: int| 0 <= j < out@.len() ==> (#[trigger] out@[j]).properties.position.x == 0,
            (out@.len() > 0 ==> out@[0].properties.position.y == 0),
            forall|j: int|
                1 <= j < out@.len() ==> (#[trigger] out@[j]).properties.position.y as int
                    == crate::geometry::clamp_dim(
                    crate::geometry::clamp_dim(
                        out@[j - 1].properties.position.y + out@[j - 1].properties.size.height,
                    ) + spacing,
                ),
            ctx.children@ == old(ctx).children@ + orig.map_values(|s: ChildSlot<M>| s.uid),
        decreases children@.len(),
    {
        if children.len() == 0 {
            proof {
                assert(orig.take(out@.len() as int) =~= orig);
            }
            break ;
        }
        proof {
            assert(children@[0] == orig[out@.len() as int]);
        }
        let mut slot = children.remove(0);
        ctx.register_child(slot.uid());
        proof {
            assert(orig.take(out@.len() as int + 1).map_values(|s: ChildSlot<M>| s.uid) =~= orig.take(
                out@.len() as int,
            ).map_values(|s: ChildSlot<M>| s.uid).push(slot.uid));
            lemma_measure_wf(*slot.widget, bc);
        }
        let measured = slot.layout(&bc);
        let height = match item_size {
            Some(h) => h,
            None => measured.height,
        };
        let size = Size { width: measured.width, height };
        slot.set_size(&size);
        slot.set_position(&Point { x: 0, y });
        y = crate::geometry::dim_add(crate::geometry::dim_add(y, height), spacing);
        out.push(slot);
        proof {
            assert(children@ =~= orig.skip(out@.len() as int));
        }
    }
    *children = out;
    Size {
        width: opt_dim_or0(c.max_width()),
        height: opt_dim_or0(c.max_height()),
    }
}



/// The structural depth of a node: leaves are at depth zero and every
/// slot adds one level. Events never change it, which is what lets a slot
/// dispatch both a synthesized edge event and the real one to its child.
pub open spec fn widget_depth<M>(w: Widget<M>) -> nat
    decreases w, 1int,
{
    match w {
        Widget::Label(_) => 0,
        Widget::Button(_) => 0,
        Widget::Slider(_) => 0,
        Widget::Switch(_) => 0,
        Widget::TextBox(_) => 0,
        Widget::Container(c) => slot_depth(c.child),
        Widget::Center(c) => slot_depth(c.child),
        Widget::Expanded(e) => slot_depth(e.child),
        Widget::SizedBox(b) => slot_depth(b.child),
        Widget::FlexBox(f) => slot_depth(f.child),
        Widget::Row(r) => slots_depth(r.children@),
        Widget::Column(c) => slots_depth(c.children@),
        Widget::List(l) => slots_depth(l.children@),
    }
}

/// The structural depth of a slot: one more than its widget.
pub open spec fn slot_depth<M>(s: ChildSlot<M>) -> nat
    decreases s, 2int,
{
    1 + widget_depth(*s.widget)
}

/// The largest depth among a sequence of slots.
pub open spec fn slots_depth<M>(s: Seq<ChildSlot<M>>) -> nat
    decreases s, 0int,
{
    if s.len() == 0 {
        0
    } else {
        let d0 = slot_depth(s[0]);
        let dr = slots_depth(s.drop_first());
        if d0 >= dr {
            d0
        } else {
            dr
        }
    }
}

/// Every slot in a sequence stays within the sequence\'s depth.
pub proof fn lemma_slots_depth_ge<M>(s: Seq<ChildSlot<M>>, i: int)
    requires
        0 <= i < s.len(),
    ensures
        slots_depth(s) >= slot_depth(s[i]),
    decreases s,
{
    if i > 0 {
        lemma_slots_depth_ge(s.drop_first(), i - 1);
        assert(s.drop_first()[i - 1] == s[i]);
    }
}

/// Sequences of slots with pointwise equal depths have equal depth.
pub proof fn lemma_slots_depth_pointwise<M>(a: Seq<ChildSlot<M>>, b: Seq<ChildSlot<M>>)
    requires
        a.len() == b.len(),
        forall|i: int| 0 <= i < a.len() ==> slot_depth(#[trigger] a[i]) == slot_depth(b[i]),
    ensures
        slots_depth(a) == slots_depth(b),
    decreases a,
{
    if a.len() > 0 {
        assert(forall|i: int|
            0 <= i < a.drop_first().len() ==> slot_depth(#[trigger] a.drop_first()[i])
                == slot_depth(b.drop_first()[i])) by {
            assert(forall|i: int|
                0 <= i < a.drop_first().len() ==> a.drop_first()[i] == a[i + 1]
                    && b.drop_first()[i] == b[i + 1]);
        }
        lemma_slots_depth_pointwise(a.drop_first(), b.drop_first());
    }
}

/// The hover flag of a slot after a pointer event that hit (`hit`) or
/// missed it: movement tracks the hit test, and a mouse-up outside the
/// slot heals a stale flag; nothing else changes it.
pub open spec fn hover_after(has_mouse: bool, hit: bool, me: event::MouseEvent) -> bool {
    match me {
        event::MouseEvent::MouseMove(_) => hit,
        event::MouseEvent::MouseUp(_) => if hit {
            has_mouse
        } else {
            false
        },
        _ => has_mouse,
    }
}

/// Whether a slot synthesizes a `MouseEnter` for its widget: exactly on a
/// movement that hits while the pointer was outside.
pub open spec fn enter_fired(has_mouse: bool, hit: bool, me: event::MouseEvent) -> bool {
    me is MouseMove && hit && !has_mouse
}

/// Whether a slot synthesizes a `MouseLeave` for its widget: exactly on a
/// movement or mouse-up that misses while the pointer was inside.
pub open spec fn leave_fired(has_mouse: bool, hit: bool, me: event::MouseEvent) -> bool {
    (me is MouseMove || me is MouseUp) && !hit && has_mouse
}

/// Whether a pointer event neither hits a slot nor finds its hover flag
/// set, so that dispatch leaves the slot and the context untouched.
pub open spec fn slot_inert<M>(s: ChildSlot<M>, e: event::Event, target: Option<usize>) -> bool {
    &&& target is None
    &&& e is Mouse
    &&& !crate::geometry::point_in_rect(
        e->Mouse_0.spec_raw().local_position,
        s.properties.position,
        s.properties.size,
    )
    &&& !s.properties.has_mouse
}

/// Whether a node consumes an event. Consumption depends only on the kind
/// of event and on the stored geometry: a slot consumes a pointer event
/// exactly when the event hits it and its widget consumes the translated
/// event, and a flex container consumes through its first consuming child.
pub open spec fn event_consumed<M>(w: Widget<M>, e: event::Event, target: Option<usize>) -> bool
    decreases w,
{
    match w {
        Widget::Label(_) => false,
        Widget::Button(_) => button::button_consumes(e),
        Widget::Slider(_) => slider::slider_consumes(e),
        Widget::Switch(_) => switch::switch_consumes(e),
        Widget::TextBox(_) => text_editor::textbox_consumes(e),
        Widget::Container(c) => slot_consumed(c.child, e, target),
        Widget::Center(c) => slot_consumed(c.child, e, target),
        Widget::Expanded(x) => slot_consumed(x.child, e, target),
        Widget::SizedBox(b) => slot_consumed(b.child, e, target),
        Widget::FlexBox(f) => slot_consumed(f.child, e, target),
        Widget::Row(r) => consumed_prefix(r.children@, e, target) < r.children@.len(),
        Widget::Column(c) => consumed_prefix(c.children@, e, target) < c.children@.len(),
        Widget::List(l) => consumed_prefix(l.children@, e, target) < l.children@.len(),
    }
}

/// Whether a slot consumes an event: a keyboard event is consumed when the
/// widget consumes it; a pointer event when no explicit target is set, the
/// event hits the slot, and the widget consumes it translated into the
/// slot\'s space.
pub open spec fn slot_consumed<M>(s: ChildSlot<M>, e: event::Event, target: Option<usize>) -> bool
    decreases s,
{
    match e {
        event::Event::Key(_) => event_consumed(*s.widget, e, target),
        event::Event::Mouse(me) => {
            if target is Some {
                false
            } else {
                let hit = crate::geometry::point_in_rect(
                    me.spec_raw().local_position,
                    s.properties.position,
                    s.properties.size,
                );
                hit && event_consumed(
                    *s.widget,
                    event::Event::Mouse(
                        me.spec_with_raw(
                            crate::window_event::spec_to_local(
                                me.spec_raw(),
                                s.properties.position,
                            ),
                        ),
                    ),
                    target,
                )
            }
        },
    }
}

/// The index of the first child slot that consumes the event, or the
/// number of children when none does. Dispatch stops scanning there.
pub open spec fn consumed_prefix<M>(
    s: Seq<ChildSlot<M>>,
    e: event::Event,
    target: Option<usize>,
) -> int
    decreases s,
{
    if s.len() == 0 {
        0
    } else if slot_consumed(s[0], e, target) {
        0
    } else {
        1 + consumed_prefix(s.drop_first(), e, target)
    }
}


/// Child sequences that consume events identically have the same first
/// consumer.
pub proof fn lemma_consumed_prefix_pointwise<M>(
    a: Seq<ChildSlot<M>>,
    b: Seq<ChildSlot<M>>,
    e: event::Event,
    t: Option<usize>,
)
    requires
        a.len() == b.len(),
        forall|j: int|
            0 <= j < a.len() ==> slot_consumed(#[trigger] a[j], e, t) == slot_consumed(b[j], e, t),
    ensures
        consumed_prefix(a, e, t) == consumed_prefix(b, e, t),
    decreases a,
{
    if a.len() > 0 {
        assert(forall|j: int|
            0 <= j < a.drop_first().len() ==> a.drop_first()[j] == a[j + 1] && b.drop_first()[j]
                == b[j + 1]);
        lemma_consumed_prefix_pointwise(a.drop_first(), b.drop_first(), e, t);
    }
}


/// The first consumer index lies between zero and the child count.
pub proof fn lemma_consumed_prefix_bounds<M>(
    s: Seq<ChildSlot<M>>,
    e: event::Event,
    t: Option<usize>,
)
    ensures
        0 <= consumed_prefix(s, e, t) <= s.len(),
    decreases s,
{
    if s.len() > 0 && !slot_consumed(s[0], e, t) {
        lemma_consumed_prefix_bounds(s.drop_first(), e, t);
    }
}


/// Slots with the same geometry whose widgets consume identically consume
/// identically themselves.
pub proof fn lemma_slot_consumed_congruence<M>(
    a: ChildSlot<M>,
    b: ChildSlot<M>,
    e: event::Event,
    t: Option<usize>,
)
    requires
        a.properties.position == b.properties.position,
        a.properties.size == b.properties.size,
        forall|e3: event::Event, t3: Option<usize>|
            #[trigger] event_consumed(*a.widget, e3, t3) == event_consumed(*b.widget, e3, t3),
    ensures
        slot_consumed(a, e, t) == slot_consumed(b, e, t),
{
    match e {
        event::Event::Key(_) => {
            assert(event_consumed(*a.widget, e, t) == event_consumed(*b.widget, e, t));
        },
        event::Event::Mouse(me) => {
            let le = event::Event::Mouse(
                me.spec_with_raw(
                    crate::window_event::spec_to_local(me.spec_raw(), a.properties.position),
                ),
            );
            assert(event_consumed(*a.widget, le, t) == event_consumed(*b.widget, le, t));
        },
    }
}

/// Option equality on node ids.
fn opt_usize_eq(a: Option<usize>, b: Option<usize>) -> (r: bool)
    ensures
        r == (a == b),
{
    match (a, b) {
        (Some(x), Some(y)) => x == y,
        (None, None) => true,
        _ => false,
    }
}




/// A context with the consumer recorded when the delivery was consumed.
pub open spec fn consumer_noted<M>(c: EventCtx<M>, consumed: bool, uid: usize) -> EventCtx<M> {
    if consumed {
        EventCtx { consumer: Some(uid), ..c }
    } else {
        c
    }
}

/// The context a slot hands back after a consuming hit: the receiving
/// size restored, and the slot recorded as the consumer unless the
/// dispatch below already recorded a deeper one.
pub open spec fn slot_wrapup<M>(
    cb: EventCtx<M>,
    outer_size: Size,
    consumed: bool,
    pre: Option<usize>,
    uid: usize,
) -> EventCtx<M> {
    if consumed && cb.consumer == pre {
        EventCtx { consumer: Some(uid), size: outer_size, ..cb }
    } else {
        EventCtx { size: outer_size, ..cb }
    }
}

/// A context with its receiving-node size replaced, as a slot does before
/// forwarding a pointer event.
pub open spec fn ctx_with_size<M>(c: EventCtx<M>, size: Size) -> EventCtx<M> {
    EventCtx { size, ..c }
}

/// What one delivery of an event through a node does to the node and the
/// context: the dispatch relation. `fuel` bounds the nesting depth the
/// relation can speak about; the executable dispatch establishes it at
/// every fuel at least the node\'s structural depth.
pub open spec fn event_step<M>(
    fuel: nat,
    w0: Widget<M>,
    e: event::Event,
    c0: EventCtx<M>,
    w1: Widget<M>,
    c1: EventCtx<M>,
) -> bool
    decreases fuel, 2int, 0int,
{
    match w0 {
        Widget::Label(_) => w1 == w0 && c1 == c0,
        Widget::Button(b) => {
            &&& w1 == Widget::Button(
                button::TextButton { state: button::button_state_after(b.state, e), ..b },
            )
            &&& c1.messages@ == c0.messages@ + button::button_published(b.on_click, e)
            &&& c1 == (EventCtx { messages: c1.messages, ..c0 })
        },
        Widget::Slider(sl) => {
            &&& w1 is Slider
            &&& {
                let s1 = w1->Slider_0;
                &&& s1.state == slider::slider_state_after(sl.state, e)
                &&& s1.min == sl.min
                &&& s1.max == sl.max
                &&& s1.discrete == sl.discrete
                &&& s1.tag == sl.tag
                &&& (slider::slider_tracks(e) ==> s1.last_position == slider::track_clamp(
                    e->Mouse_0.spec_raw().local_position.x as int,
                    c0.size.width as int,
                ) && s1.value == slider::slider_value_at(
                    sl.min as int,
                    sl.max as int,
                    e->Mouse_0.spec_raw().local_position.x as int,
                    c0.size.width as int,
                    sl.discrete,
                ))
                &&& (!slider::slider_tracks(e) ==> s1.last_position == sl.last_position
                    && s1.value == sl.value)
                &&& c1.changes@ == c0.changes@ + slider::slider_changes(
                    sl.tag,
                    s1.value as int,
                    e,
                )
                &&& c1 == (EventCtx { changes: c1.changes, ..c0 })
            }
        },
        Widget::Switch(sw) => {
            &&& w1 == Widget::<M>::Switch(
                switch::Switch {
                    state: switch::switch_state_after(sw.state, e),
                    active: switch::switch_active_after(sw.active, e),
                    ..sw
                },
            )
            &&& c1.changes@ == c0.changes@ + switch::switch_changes(sw.tag, sw.active, e)
            &&& c1 == (EventCtx { changes: c1.changes, ..c0 })
        },
        Widget::TextBox(t) => {
            &&& w1 is TextBox
            &&& {
                let t1 = w1->TextBox_0;
                &&& t1.state == (text_editor::EditorState {
                    text: t1.state.text,
                    ..text_editor::editor_after(t.state, e)
                })
                &&& t1.state.text@ == text_editor::editor_text_after(t.state, e)
                &&& t1.placeholder == t.placeholder
                &&& t1.tag == t.tag
                &&& c1.cursor == text_editor::textbox_cursor_after(c0.cursor, e)
                &&& (text_editor::textbox_commits(e) && t.tag is Some ==> c1.changes@.len()
                    == c0.changes@.len() + 1 && c1.changes@.take(c0.changes@.len() as int)
                    == c0.changes@ && c1.changes@.last().tag == t.tag->0 && (
                c1.changes@.last().value matches ChangeValue::Committed(tt) && tt@
                    == t.state.text@))
                &&& (!(text_editor::textbox_commits(e) && t.tag is Some) ==> c1.changes@
                    == c0.changes@)
                &&& c1 == (EventCtx { changes: c1.changes, cursor: c1.cursor, ..c0 })
            }
        },
        Widget::Container(ct) => {
            &&& w1 is Container
            &&& w1 == Widget::Container(
                container::Container { child: w1->Container_0.child, ..ct },
            )
            &&& slot_event_step(fuel, ct.child, e, c0, w1->Container_0.child, c1)
        },
        Widget::Center(cen) => {
            &&& w1 is Center
            &&& w1 == Widget::Center(center::Center { child: w1->Center_0.child, ..cen })
            &&& slot_event_step(fuel, cen.child, e, c0, w1->Center_0.child, c1)
        },
        Widget::Expanded(x) => {
            &&& w1 is Expanded
            &&& w1 == Widget::Expanded(
                expanded::Expanded { child: w1->Expanded_0.child, ..x },
            )
            &&& slot_event_step(fuel, x.child, e, c0, w1->Expanded_0.child, c1)
        },
        Widget::SizedBox(b) => {
            &&& w1 is SizedBox
            &&& w1 == Widget::SizedBox(
                sized_box::SizedBox { child: w1->SizedBox_0.child, ..b },
            )
            &&& slot_event_step(fuel, b.child, e, c0, w1->SizedBox_0.child, c1)
        },
        Widget::FlexBox(fx) => {
            &&& w1 is FlexBox
            &&& w1 == Widget::FlexBox(
                flex_box::FlexBox { child: w1->FlexBox_0.child, ..fx },
            )
            &&& slot_event_step(fuel, fx.child, e, c0, w1->FlexBox_0.child, c1)
        },
        Widget::Row(r) => {
            &&& w1 is Row
            &&& w1->Row_0.spacing == r.spacing
            &&& flex_event_post(r.children@, w1->Row_0.children@, e, c0.target)
            &&& slots_event_step(fuel, r.children@, e, c0, w1->Row_0.children@, c1)
            &&& c1.target == c0.target
            &&& c1.size == c0.size
        },
        Widget::Column(col) => {
            &&& w1 is Column
            &&& w1->Column_0.spacing == col.spacing
            &&& flex_event_post(col.children@, w1->Column_0.children@, e, c0.target)
            &&& slots_event_step(fuel, col.children@, e, c0, w1->Column_0.children@, c1)
            &&& c1.target == c0.target
            &&& c1.size == c0.size
        },
        Widget::List(l) => {
            &&& w1 is List
            &&& w1->List_0.spacing == l.spacing
            &&& w1->List_0.item_size == l.item_size
            &&& flex_event_post(l.children@, w1->List_0.children@, e, c0.target)
            &&& slots_event_step(fuel, l.children@, e, c0, w1->List_0.children@, c1)
            &&& c1.target == c0.target
            &&& c1.size == c0.size
        },
    }
}


/// Sequential delivery of one event to a sequence of child slots, as a
/// flex container or list performs it: each child in turn takes a slot
/// dispatch step with the context the previous one handed on (its
/// receiving size restored between siblings), and the scan stops at the
/// first consuming child, leaving the rest untouched.
pub open spec fn slots_event_step<M>(
    fuel: nat,
    s0: Seq<ChildSlot<M>>,
    e: event::Event,
    c0: EventCtx<M>,
    s1: Seq<ChildSlot<M>>,
    c1: EventCtx<M>,
) -> bool
    decreases fuel, 1int, s0.len(),
{
    if s0.len() == 0 {
        s1 == s0 && c1 == c0
    } else {
        &&& s1.len() == s0.len()
        &&& exists|cm: EventCtx<M>|
            {
                &&& slot_event_step(fuel, s0[0], e, c0, s1[0], cm)
                &&& cm == #[trigger] ctx_with_size(cm, c0.size)
                &&& if slot_consumed(s0[0], e, c0.target) {
                    s1.drop_first() == s0.drop_first() && c1 == cm
                } else {
                    slots_event_step(fuel, s0.drop_first(), e, cm, s1.drop_first(), c1)
                }
            }
    }
}

/// What one delivery through a slot does: target routing, hit testing and
/// translation, the synthesized hover edges, and consumer recording. Each
/// delivery to the wrapped widget is an `event_step`, so the relation
/// states exactly which events the widget receives and in what order.
pub open spec fn slot_event_step<M>(
    fuel: nat,
    s0: ChildSlot<M>,
    e: event::Event,
    c0: EventCtx<M>,
    s1: ChildSlot<M>,
    c1: EventCtx<M>,
) -> bool
    decreases fuel, 0int, 0int,
{
    &&& fuel > 0
    &&& s1.uid == s0.uid
    &&& s1.properties.position == s0.properties.position
    &&& s1.properties.size == s0.properties.size
    &&& s1.properties.children == s0.properties.children
    &&& match e {
        event::Event::Key(_) => {
            &&& s1.properties.has_mouse == s0.properties.has_mouse
            &&& exists|ca: EventCtx<M>|
                event_step((fuel - 1) as nat, *s0.widget, e, c0, *s1.widget, ca) && c1
                    == #[trigger] consumer_noted(
                    ca,
                    event_consumed(*s0.widget, e, c0.target),
                    s0.uid,
                )
        },
        event::Event::Mouse(me) => {
            let raw_t = crate::window_event::spec_to_local(
                me.spec_raw(),
                s0.properties.position,
            );
            let le = event::Event::Mouse(me.spec_with_raw(raw_t));
            if c0.target is Some {
                &&& s1.properties.has_mouse == s0.properties.has_mouse
                &&& if c0.target->0 == s0.uid || s0.properties.children@.len() > 0 {
                    exists|ca: EventCtx<M>|
                        event_step(
                            (fuel - 1) as nat,
                            *s0.widget,
                            le,
                            ctx_with_size(c0, s0.properties.size),
                            *s1.widget,
                            ca,
                        ) && c1 == #[trigger] ctx_with_size(ca, c0.size)
                } else {
                    *s1.widget == *s0.widget && c1 == c0
                }
            } else {
                let hit = crate::geometry::point_in_rect(
                    me.spec_raw().local_position,
                    s0.properties.position,
                    s0.properties.size,
                );
                let consumed = event_consumed(*s0.widget, le, c0.target);
                &&& s1.properties.has_mouse == hover_after(s0.properties.has_mouse, hit, me)
                &&& if hit {
                    if enter_fired(s0.properties.has_mouse, hit, me) {
                        exists|wmid: Widget<M>, ca: EventCtx<M>, cb: EventCtx<M>|
                            #![trigger event_consumed(wmid, le, c0.target), slot_wrapup(
                                cb,
                                c0.size,
                                consumed,
                                ca.consumer,
                                s0.uid,
                            )]
                            {
                                &&& event_step(
                                    (fuel - 1) as nat,
                                    *s0.widget,
                                    event::Event::Mouse(event::MouseEvent::MouseEnter(raw_t)),
                                    ctx_with_size(c0, s0.properties.size),
                                    wmid,
                                    ca,
                                )
                                &&& event_step(
                                    (fuel - 1) as nat,
                                    wmid,
                                    le,
                                    ctx_with_size(ca, s0.properties.size),
                                    *s1.widget,
                                    cb,
                                )
                                &&& event_consumed(wmid, le, c0.target) == consumed
                                &&& c1 == slot_wrapup(cb, c0.size, consumed, ca.consumer, s0.uid)
                            }
                    } else {
                        exists|cb: EventCtx<M>|
                            event_step(
                                (fuel - 1) as nat,
                                *s0.widget,
                                le,
                                ctx_with_size(c0, s0.properties.size),
                                *s1.widget,
                                cb,
                            ) && c1 == #[trigger] slot_wrapup(
                                cb,
                                c0.size,
                                consumed,
                                c0.consumer,
                                s0.uid,
                            )
                    }
                } else {
                    if leave_fired(s0.properties.has_mouse, hit, me) {
                        exists|ca: EventCtx<M>|
                            event_step(
                                (fuel - 1) as nat,
                                *s0.widget,
                                event::Event::Mouse(event::MouseEvent::MouseLeave(raw_t)),
                                ctx_with_size(c0, s0.properties.size),
                                *s1.widget,
                                ca,
                            ) && c1 == #[trigger] ctx_with_size(ca, c0.size)
                    } else {
                        *s1.widget == *s0.widget && c1 == c0
                    }
                }
            }
        },
    }
}


impl<M: Copy> ChildSlot<M> {
    /// Route an event to the wrapped widget. Pointer events are hit-tested
    /// against the stored geometry and translated into the widget\'s own
    /// space; a movement entering the slot synthesizes a `MouseEnter`
    /// first, and a movement or mouse-up leaving it synthesizes a
    /// `MouseLeave` instead of forwarding. An explicitly targeted event
    /// bypasses hit testing.
    pub fn event(&mut self, event: &event::Event, ctx: &mut EventCtx<M>) -> (r: bool)
        requires
            slot_wf(*old(self)),
            event.wf(),
            old(ctx).size.wf(),
        ensures
            r == slot_consumed(*old(self), *event, old(ctx).target),
            slot_wf(*final(self)),
            final(self).uid == old(self).uid,
            final(self).properties.position == old(self).properties.position,
            final(self).properties.size == old(self).properties.size,
            final(self).properties.children == old(self).properties.children,
            spec_flex(*final(self).widget) == spec_flex(*old(self).widget),
            final(self).properties.has_mouse == (match *event {
                event::Event::Key(_) => old(self).properties.has_mouse,
                event::Event::Mouse(me) => {
                    if old(ctx).target is Some {
                        old(self).properties.has_mouse
                    } else {
                        hover_after(
                            old(self).properties.has_mouse,
                            crate::geometry::point_in_rect(
                                me.spec_raw().local_position,
                                old(self).properties.position,
                                old(self).properties.size,
                            ),
                            me,
                        )
                    }
                },
            }),
            final(ctx).target == old(ctx).target,
            final(ctx).size == old(ctx).size,
            slot_depth(*final(self)) == slot_depth(*old(self)),
            forall|e2: event::Event, t2: Option<usize>|
                #[trigger] slot_consumed(*final(self), e2, t2) == slot_consumed(*old(self), e2, t2),
            forall|f: nat|
                f >= slot_depth(*old(self)) ==> #[trigger] slot_event_step(
                    f,
                    *old(self),
                    *event,
                    *old(ctx),
                    *final(self),
                    *final(ctx),
                ),
            slot_inert(*old(self), *event, old(ctx).target) ==> *final(self) == *old(self)
                && *final(ctx) == *old(ctx),
        decreases slot_depth(*old(self)), 0nat,
    {
        match event {
            event::Event::Key(_) => {
                let r = self.widget.event(event, ctx);
                let ghost ca = *ctx;
                if r {
                    ctx.set_consumer(self.uid);
                }
                proof {
                    assert forall|e2: event::Event, t2: Option<usize>|
                        #[trigger] slot_consumed(*self, e2, t2) == slot_consumed(
                            *old(self),
                            e2,
                            t2,
                        ) by {
                        lemma_slot_consumed_congruence(*self, *old(self), e2, t2);
                    }
                    assert forall|f: nat|
                        f >= slot_depth(*old(self)) implies #[trigger] slot_event_step(
                        f,
                        *old(self),
                        *event,
                        *old(ctx),
                        *self,
                        *ctx,
                    ) by {
                        assert(event_step(
                            (f - 1) as nat,
                            *old(self).widget,
                            *event,
                            *old(ctx),
                            *self.widget,
                            ca,
                        ));
                        assert(*ctx == consumer_noted(
                            ca,
                            event_consumed(*old(self).widget, *event, old(ctx).target),
                            old(self).uid,
                        ));
                    }
                }
                r
            },
            event::Event::Mouse(me) => {
                match ctx.target() {
                    Some(t) => {
                        let forwarded = t == self.uid || self.properties.children.len() > 0;
                        let ghost mut ca = *ctx;
                        if forwarded {
                            let le = event::Event::Mouse(
                                me.to_local(&self.properties.position),
                            );
                            let prev_size = *ctx.size();
                            ctx.size = self.properties.size;
                            let _ = self.widget.event(&le, ctx);
                            proof {
                                ca = *ctx;
                            }
                            ctx.size = prev_size;
                        }
                        proof {
                            assert forall|e2: event::Event, t2: Option<usize>|
                                #[trigger] slot_consumed(*self, e2, t2) == slot_consumed(
                                    *old(self),
                                    e2,
                                    t2,
                                ) by {
                                lemma_slot_consumed_congruence(*self, *old(self), e2, t2);
                            }
                            assert forall|f: nat|
                                f >= slot_depth(*old(self)) implies #[trigger] slot_event_step(
                                f,
                                *old(self),
                                *event,
                                *old(ctx),
                                *self,
                                *ctx,
                            ) by {
                                if forwarded {
                                    let le2 = event::Event::Mouse(
                                        me.spec_with_raw(
                                            crate::window_event::spec_to_local(
                                                me.spec_raw(),
                                                old(self).properties.position,
                                            ),
                                        ),
                                    );
                                    assert(event_step(
                                        (f - 1) as nat,
                                        *old(self).widget,
                                        le2,
                                        ctx_with_size(*old(ctx), old(self).properties.size),
                                        *self.widget,
                                        ca,
                                    ));
                                    assert(*ctx == ctx_with_size(ca, old(ctx).size));
                                }
                            }
                        }
                        false
                    },
                    None => {
                        let hit = self.hit_test(me.local_position());
                        if hit {
                            let is_move = match me {
                                event::MouseEvent::MouseMove(_) => true,
                                _ => false,
                            };
                            let entered = is_move && !self.properties.has_mouse;
                            let ghost mut wmid = *self.widget;
                            let ghost mut cmid = *ctx;
                            if entered {
                                self.properties.has_mouse = true;
                                let raw_t = me.raw().to_local(&self.properties.position);
                                let enter = event::Event::Mouse(
                                    event::MouseEvent::MouseEnter(raw_t),
                                );
                                let prev_size = *ctx.size();
                                ctx.size = self.properties.size;
                                let _ = self.widget.event(&enter, ctx);
                                proof {
                                    wmid = *self.widget;
                                    cmid = *ctx;
                                }
                                ctx.size = prev_size;
                            }
                            let le = event::Event::Mouse(me.to_local(&self.properties.position));
                            let prev_size = *ctx.size();
                            ctx.size = self.properties.size;
                            let pre = ctx.consumer();
                            let r = self.widget.event(&le, ctx);
                            let ghost cb = *ctx;
                            ctx.size = prev_size;
                            if r {
                                if opt_usize_eq(ctx.consumer(), pre) {
                                    ctx.set_consumer(self.uid);
                                }
                            }
                            proof {
                                assert forall|e2: event::Event, t2: Option<usize>|
                                    #[trigger] slot_consumed(*self, e2, t2) == slot_consumed(
                                        *old(self),
                                        e2,
                                        t2,
                                    ) by {
                                    lemma_slot_consumed_congruence(*self, *old(self), e2, t2);
                                }
                                let le2 = event::Event::Mouse(
                                    me.spec_with_raw(
                                        crate::window_event::spec_to_local(
                                            me.spec_raw(),
                                            old(self).properties.position,
                                        ),
                                    ),
                                );
                                assert forall|f: nat|
                                    f >= slot_depth(*old(self)) implies #[trigger] slot_event_step(
                                    f,
                                    *old(self),
                                    *event,
                                    *old(ctx),
                                    *self,
                                    *ctx,
                                ) by {
                                    if entered {
                                        assert(event_step(
                                            (f - 1) as nat,
                                            *old(self).widget,
                                            event::Event::Mouse(
                                                event::MouseEvent::MouseEnter(
                                                    crate::window_event::spec_to_local(
                                                        me.spec_raw(),
                                                        old(self).properties.position,
                                                    ),
                                                ),
                                            ),
                                            ctx_with_size(*old(ctx), old(self).properties.size),
                                            wmid,
                                            cmid,
                                        ));
                                        assert(event_step(
                                            (f - 1) as nat,
                                            wmid,
                                            le2,
                                            ctx_with_size(cmid, old(self).properties.size),
                                            *self.widget,
                                            cb,
                                        ));
                                        assert(event_consumed(wmid, le2, old(ctx).target)
                                            == event_consumed(
                                            *old(self).widget,
                                            le2,
                                            old(ctx).target,
                                        ));
                                        assert(*ctx == slot_wrapup(
                                            cb,
                                            old(ctx).size,
                                            event_consumed(*old(self).widget, le2, old(ctx).target),
                                            cmid.consumer,
                                            old(self).uid,
                                        ));
                                    } else {
                                        assert(event_step(
                                            (f - 1) as nat,
                                            *old(self).widget,
                                            le2,
                                            ctx_with_size(*old(ctx), old(self).properties.size),
                                            *self.widget,
                                            cb,
                                        ));
                                        assert(*ctx == slot_wrapup(
                                            cb,
                                            old(ctx).size,
                                            event_consumed(*old(self).widget, le2, old(ctx).target),
                                            old(ctx).consumer,
                                            old(self).uid,
                                        ));
                                    }
                                }
                            }
                            r
                        } else {
                            let heals = match me {
                                event::MouseEvent::MouseMove(_) => true,
                                event::MouseEvent::MouseUp(_) => true,
                                _ => false,
                            };
                            let healed = heals && self.properties.has_mouse;
                            let ghost mut ca = *ctx;
                            if healed {
                                self.properties.has_mouse = false;
                                let raw_t = me.raw().to_local(&self.properties.position);
                                let leave = event::Event::Mouse(
                                    event::MouseEvent::MouseLeave(raw_t),
                                );
                                let prev_size = *ctx.size();
                                ctx.size = self.properties.size;
                                let _ = self.widget.event(&leave, ctx);
                                proof {
                                    ca = *ctx;
                                }
                                ctx.size = prev_size;
                            }
                            proof {
                                assert forall|e2: event::Event, t2: Option<usize>|
                                    #[trigger] slot_consumed(*self, e2, t2) == slot_consumed(
                                        *old(self),
                                        e2,
                                        t2,
                                    ) by {
                                    lemma_slot_consumed_congruence(*self, *old(self), e2, t2);
                                }
                                assert forall|f: nat|
                                    f >= slot_depth(*old(self)) implies #[trigger] slot_event_step(
                                    f,
                                    *old(self),
                                    *event,
                                    *old(ctx),
                                    *self,
                                    *ctx,
                                ) by {
                                    if healed {
                                        assert(event_step(
                                            (f - 1) as nat,
                                            *old(self).widget,
                                            event::Event::Mouse(
                                                event::MouseEvent::MouseLeave(
                                                    crate::window_event::spec_to_local(
                                                        me.spec_raw(),
                                                        old(self).properties.position,
                                                    ),
                                                ),
                                            ),
                                            ctx_with_size(*old(ctx), old(self).properties.size),
                                            *self.widget,
                                            ca,
                                        ));
                                        assert(*ctx == ctx_with_size(ca, old(ctx).size));
                                    }
                                }
                            }
                            false
                        }
                    },
                }
            },
        }
    }
}

impl<M: Copy> Widget<M> {
    /// Dispatch an event through this node. Returns whether the event was
    /// consumed; in flex containers and lists the scan stops at the first
    /// consuming child, and children the pointer neither hits nor hovers
    /// are left untouched.
    pub fn event(&mut self, event: &event::Event, ctx: &mut EventCtx<M>) -> (r: bool)
        requires
            widget_wf(*old(self)),
            event.wf(),
            old(ctx).size.wf(),
        ensures
            r == event_consumed(*old(self), *event, old(ctx).target),
            widget_wf(*final(self)),
            spec_flex(*final(self)) == spec_flex(*old(self)),
            final(ctx).target == old(ctx).target,
            final(ctx).size == old(ctx).size,
            *old(self) is Row ==> *final(self) is Row && flex_event_post(
                old(self)->Row_0.children@,
                final(self)->Row_0.children@,
                *event,
                old(ctx).target,
            ),
            *old(self) is Column ==> *final(self) is Column && flex_event_post(
                old(self)->Column_0.children@,
                final(self)->Column_0.children@,
                *event,
                old(ctx).target,
            ),
            *old(self) is List ==> *final(self) is List && flex_event_post(
                old(self)->List_0.children@,
                final(self)->List_0.children@,
                *event,
                old(ctx).target,
            ),
            *old(self) is Label ==> *final(self) == *old(self) && *final(ctx) == *old(ctx),
            *old(self) is Button ==> *final(self) is Button && final(self)->Button_0
                == (button::TextButton {
                state: button::button_state_after(old(self)->Button_0.state, *event),
                ..old(self)->Button_0
            }) && final(ctx).messages@ == old(ctx).messages@ + button::button_published(
                old(self)->Button_0.on_click,
                *event,
            ) && *final(ctx) == (EventCtx { messages: final(ctx).messages, ..*old(ctx) }),
            *old(self) is Switch ==> *final(self) is Switch && final(self)->Switch_0
                == (switch::Switch {
                state: switch::switch_state_after(old(self)->Switch_0.state, *event),
                active: switch::switch_active_after(old(self)->Switch_0.active, *event),
                ..old(self)->Switch_0
            }) && final(ctx).changes@ == old(ctx).changes@ + switch::switch_changes(
                old(self)->Switch_0.tag,
                old(self)->Switch_0.active,
                *event,
            ) && *final(ctx) == (EventCtx { changes: final(ctx).changes, ..*old(ctx) }),
            *old(self) is Slider ==> *final(self) is Slider && final(self)->Slider_0.state
                == slider::slider_state_after(old(self)->Slider_0.state, *event) && (
            slider::slider_tracks(*event) ==> final(self)->Slider_0.value
                == slider::slider_value_at(
                old(self)->Slider_0.min as int,
                old(self)->Slider_0.max as int,
                event->Mouse_0.spec_raw().local_position.x as int,
                old(ctx).size.width as int,
                old(self)->Slider_0.discrete,
            )) && final(ctx).changes@ == old(ctx).changes@ + slider::slider_changes(
                old(self)->Slider_0.tag,
                final(self)->Slider_0.value as int,
                *event,
            ),
            *old(self) is TextBox ==> *final(self) is TextBox && final(self)->TextBox_0.state
                == (text_editor::EditorState {
                text: final(self)->TextBox_0.state.text,
                ..text_editor::editor_after(old(self)->TextBox_0.state, *event)
            }) && final(self)->TextBox_0.state.text@ == text_editor::editor_text_after(
                old(self)->TextBox_0.state,
                *event,
            ) && final(ctx).cursor == text_editor::textbox_cursor_after(
                old(ctx).cursor,
                *event,
            ),
            widget_depth(*final(self)) == widget_depth(*old(self)),
            forall|e2: event::Event, t2: Option<usize>|
                #[trigger] event_consumed(*final(self), e2, t2) == event_consumed(
                    *old(self),
                    e2,
                    t2,
                ),
            forall|f: nat|
                f >= widget_depth(*old(self)) ==> #[trigger] event_step(
                    f,
                    *old(self),
                    *event,
                    *old(ctx),
                    *final(self),
                    *final(ctx),
                ),
        decreases widget_depth(*old(self)), 2nat,
    {
        match self {
            Widget::Label(_) => {
                proof {
                    assert forall|e2: event::Event, t2: Option<usize>|
                        #[trigger] event_consumed(*self, e2, t2) == event_consumed(
                            *old(self),
                            e2,
                            t2,
                        ) by {}
                    assert forall|f: nat|
                        f >= widget_depth(*old(self)) implies #[trigger] event_step(
                        f,
                        *old(self),
                        *event,
                        *old(ctx),
                        *self,
                        *ctx,
                    ) by {}
                }
                false
            },
            Widget::Button(b) => {
                let consumed = b.event(event, ctx);
                proof {
                    assert forall|e2: event::Event, t2: Option<usize>|
                        #[trigger] event_consumed(*self, e2, t2) == event_consumed(
                            *old(self),
                            e2,
                            t2,
                        ) by {}
                    assert forall|f: nat|
                        f >= widget_depth(*old(self)) implies #[trigger] event_step(
                        f,
                        *old(self),
                        *event,
                        *old(ctx),
                        *self,
                        *ctx,
                    ) by {}
                }
                consumed
            },
            Widget::Slider(s) => {
                let consumed = s.event(event, ctx);
                proof {
                    assert forall|e2: event::Event, t2: Option<usize>|
                        #[trigger] event_consumed(*self, e2, t2) == event_consumed(
                            *old(self),
                            e2,
                            t2,
                        ) by {}
                    assert forall|f: nat|
                        f >= widget_depth(*old(self)) implies #[trigger] event_step(
                        f,
                        *old(self),
                        *event,
                        *old(ctx),
                        *self,
                        *ctx,
                    ) by {}
                }
                consumed
            },
            Widget::Switch(s) => {
                let consumed = s.event(event, ctx);
                proof {
                    assert forall|e2: event::Event, t2: Option<usize>|
                        #[trigger] event_consumed(*self, e2, t2) == event_consumed(
                            *old(self),
                            e2,
                            t2,
                        ) by {}
                    assert forall|f: nat|
                        f >= widget_depth(*old(self)) implies #[trigger] event_step(
                        f,
                        *old(self),
                        *event,
                        *old(ctx),
                        *self,
                        *ctx,
                    ) by {}
                }
                consumed
            },
            Widget::TextBox(t) => {
                let consumed = t.event(event, ctx);
                proof {
                    assert forall|e2: event::Event, t2: Option<usize>|
                        #[trigger] event_consumed(*self, e2, t2) == event_consumed(
                            *old(self),
                            e2,
                            t2,
                        ) by {}
                    assert forall|f: nat|
                        f >= widget_depth(*old(self)) implies #[trigger] event_step(
                        f,
                        *old(self),
                        *event,
                        *old(ctx),
                        *self,
                        *ctx,
                    ) by {}
                }
                consumed
            },
            Widget::Container(c) => {
                let consumed = c.child.event(event, ctx);
                proof {
                    assert forall|e2: event::Event, t2: Option<usize>|
                        #[trigger] event_consumed(*self, e2, t2) == event_consumed(
                            *old(self),
                            e2,
                            t2,
                        ) by {
                        assert(slot_consumed(c.child, e2, t2) == slot_consumed(
                            old(self)->Container_0.child,
                            e2,
                            t2,
                        ));
                    }
                    assert forall|f2: nat|
                        f2 >= widget_depth(*old(self)) implies #[trigger] event_step(
                        f2,
                        *old(self),
                        *event,
                        *old(ctx),
                        *self,
                        *ctx,
                    ) by {
                        assert(slot_event_step(
                            f2,
                            old(self)->Container_0.child,
                            *event,
                            *old(ctx),
                            c.child,
                            *ctx,
                        ));
                    }
                }
                consumed
            },
            Widget::Center(c) => {
                let consumed = c.child.event(event, ctx);
                proof {
                    assert forall|e2: event::Event, t2: Option<usize>|
                        #[trigger] event_consumed(*self, e2, t2) == event_consumed(
                            *old(self),
                            e2,
                            t2,
                        ) by {
                        assert(slot_consumed(c.child, e2, t2) == slot_consumed(
                            old(self)->Center_0.child,
                            e2,
                            t2,
                        ));
                    }
                    assert forall|f2: nat|
                        f2 >= widget_depth(*old(self)) implies #[trigger] event_step(
                        f2,
                        *old(self),
                        *event,
                        *old(ctx),
                        *self,
                        *ctx,
                    ) by {
                        assert(slot_event_step(
                            f2,
                            old(self)->Center_0.child,
                            *event,
                            *old(ctx),
                            c.child,
                            *ctx,
                        ));
                    }
                }
                consumed
            },
            Widget::Expanded(e) => {
                let consumed = e.child.event(event, ctx);
                proof {
                    assert forall|e2: event::Event, t2: Option<usize>|
                        #[trigger] event_consumed(*self, e2, t2) == event_consumed(
                            *old(self),
                            e2,
                            t2,
                        ) by {
                        assert(slot_consumed(e.child, e2, t2) == slot_consumed(
                            old(self)->Expanded_0.child,
                            e2,
                            t2,
                        ));
                    }
                    assert forall|f2: nat|
                        f2 >= widget_depth(*old(self)) implies #[trigger] event_step(
                        f2,
                        *old(self),
                        *event,
                        *old(ctx),
                        *self,
                        *ctx,
                    ) by {
                        assert(slot_event_step(
                            f2,
                            old(self)->Expanded_0.child,
                            *event,
                            *old(ctx),
                            e.child,
                            *ctx,
                        ));
                    }
                }
                consumed
            },
            Widget::SizedBox(b) => {
                let consumed = b.child.event(event, ctx);
                proof {
                    assert forall|e2: event::Event, t2: Option<usize>|
                        #[trigger] event_consumed(*self, e2, t2) == event_consumed(
                            *old(self),
                            e2,
                            t2,
                        ) by {
                        assert(slot_consumed(b.child, e2, t2) == slot_consumed(
                            old(self)->SizedBox_0.child,
                            e2,
                            t2,
                        ));
                    }
                    assert forall|f2: nat|
                        f2 >= widget_depth(*old(self)) implies #[trigger] event_step(
                        f2,
                        *old(self),
                        *event,
                        *old(ctx),
                        *self,
                        *ctx,
                    ) by {
                        assert(slot_event_step(
                            f2,
                            old(self)->SizedBox_0.child,
                            *event,
                            *old(ctx),
                            b.child,
                            *ctx,
                        ));
                    }
                }
                consumed
            },
            Widget::FlexBox(f) => {
                let consumed = f.child.event(event, ctx);
                proof {
                    assert forall|e2: event::Event, t2: Option<usize>|
                        #[trigger] event_consumed(*self, e2, t2) == event_consumed(
                            *old(self),
                            e2,
                            t2,
                        ) by {
                        assert(slot_consumed(f.child, e2, t2) == slot_consumed(
                            old(self)->FlexBox_0.child,
                            e2,
                            t2,
                        ));
                    }
                    assert forall|f2: nat|
                        f2 >= widget_depth(*old(self)) implies #[trigger] event_step(
                        f2,
                        *old(self),
                        *event,
                        *old(ctx),
                        *self,
                        *ctx,
                    ) by {
                        assert(slot_event_step(
                            f2,
                            old(self)->FlexBox_0.child,
                            *event,
                            *old(ctx),
                            f.child,
                            *ctx,
                        ));
                    }
                }
                consumed
            },
            Widget::Row(r) => {
                let consumed = flex_event(&mut r.children, event, ctx);
                proof {
                    assert forall|e2: event::Event, t2: Option<usize>|
                        #[trigger] event_consumed(*self, e2, t2) == event_consumed(
                            *old(self),
                            e2,
                            t2,
                        ) by {
                        lemma_consumed_prefix_pointwise(
                            self->Row_0.children@,
                            old(self)->Row_0.children@,
                            e2,
                            t2,
                        );
                    }
                    assert forall|f2: nat|
                        f2 >= widget_depth(*old(self)) implies #[trigger] event_step(
                        f2,
                        *old(self),
                        *event,
                        *old(ctx),
                        *self,
                        *ctx,
                    ) by {
                        assert(slots_event_step(
                            f2,
                            old(self)->Row_0.children@,
                            *event,
                            *old(ctx),
                            self->Row_0.children@,
                            *ctx,
                        ));
                    }
                }
                consumed
            },
            Widget::Column(c) => {
                let consumed = flex_event(&mut c.children, event, ctx);
                proof {
                    assert forall|e2: event::Event, t2: Option<usize>|
                        #[trigger] event_consumed(*self, e2, t2) == event_consumed(
                            *old(self),
                            e2,
                            t2,
                        ) by {
                        lemma_consumed_prefix_pointwise(
                            self->Column_0.children@,
                            old(self)->Column_0.children@,
                            e2,
                            t2,
                        );
                    }
                    assert forall|f2: nat|
                        f2 >= widget_depth(*old(self)) implies #[trigger] event_step(
                        f2,
                        *old(self),
                        *event,
                        *old(ctx),
                        *self,
                        *ctx,
                    ) by {
                        assert(slots_event_step(
                            f2,
                            old(self)->Column_0.children@,
                            *event,
                            *old(ctx),
                            self->Column_0.children@,
                            *ctx,
                        ));
                    }
                }
                consumed
            },
            Widget::List(l) => {
                let consumed = flex_event(&mut l.children, event, ctx);
                proof {
                    assert forall|e2: event::Event, t2: Option<usize>|
                        #[trigger] event_consumed(*self, e2, t2) == event_consumed(
                            *old(self),
                            e2,
                            t2,
                        ) by {
                        lemma_consumed_prefix_pointwise(
                            self->List_0.children@,
                            old(self)->List_0.children@,
                            e2,
                            t2,
                        );
                    }
                    assert forall|f2: nat|
                        f2 >= widget_depth(*old(self)) implies #[trigger] event_step(
                        f2,
                        *old(self),
                        *event,
                        *old(ctx),
                        *self,
                        *ctx,
                    ) by {
                        assert(slots_event_step(
                            f2,
                            old(self)->List_0.children@,
                            *event,
                            *old(ctx),
                            self->List_0.children@,
                            *ctx,
                        ));
                    }
                }
                consumed
            },
        }
    }
}

/// What dispatching an event through a sequence of child slots guarantees:
/// children after the first consumer are untouched, and children the
/// pointer neither hits nor hovers are untouched wherever they stand.
pub open spec fn flex_event_post<M>(
    orig: Seq<ChildSlot<M>>,
    now: Seq<ChildSlot<M>>,
    e: event::Event,
    target: Option<usize>,
) -> bool {
    &&& now.len() == orig.len()
    &&& forall|j: int|
        0 <= j < now.len() && consumed_prefix(orig, e, target) < j ==> #[trigger] now[j] == orig[j]
    &&& forall|j: int|
        0 <= j < now.len() && slot_inert(#[trigger] orig[j], e, target) ==> now[j] == orig[j]
    &&& forall|j: int|
        0 <= j < now.len() ==> (#[trigger] now[j]).uid == orig[j].uid && now[j].properties.position
            == orig[j].properties.position && now[j].properties.size == orig[j].properties.size
}

/// Dispatch an event to child slots in order, stopping at the first one
/// that consumes it.
fn flex_event<M: Copy>(
    children: &mut Vec<ChildSlot<M>>,
    event: &event::Event,
    ctx: &mut EventCtx<M>,
) -> (r: bool)
    requires
        forall|i: int| 0 <= i < old(children)@.len() ==> slot_wf(#[trigger] old(children)@[i]),
        event.wf(),
        old(ctx).size.wf(),
    ensures
        r == (consumed_prefix(old(children)@, *event, old(ctx).target) < old(children)@.len()),
        forall|i: int|
            0 <= i < final(children)@.len() ==> slot_wf(#[trigger] final(children)@[i]),
        flex_event_post(old(children)@, final(children)@, *event, old(ctx).target),
        final(ctx).target == old(ctx).target,
        final(ctx).size == old(ctx).size,
        slots_depth(final(children)@) == slots_depth(old(children)@),
        final(children)@.len() == old(children)@.len(),
        forall|j: int, e2: event::Event, t2: Option<usize>|
            0 <= j < final(children)@.len() ==> #[trigger] slot_consumed(
                final(children)@[j],
                e2,
                t2,
            ) == slot_consumed(old(children)@[j], e2, t2),
        forall|f: nat|
            f >= slots_depth(old(children)@) ==> #[trigger] slots_event_step(
                f,
                old(children)@,
                *event,
                *old(ctx),
                final(children)@,
                *final(ctx),
            ),
    decreases slots_depth(old(children)@), 1nat,
{
    let ghost orig = children@;
    let ghost tgt = old(ctx).target;
    let ghost c_start = *old(ctx);
    let ghost depth_all = slots_depth(orig);
    let mut consumed = false;
    let mut done: Vec<ChildSlot<M>> = Vec::new();
    loop
        invariant_except_break
            orig == old(children)@,
            tgt == old(ctx).target,
            c_start == *old(ctx),
            depth_all == slots_depth(orig),
            event.wf(),
            done@.len() + children@.len() == orig.len(),
            children@ == orig.skip(done@.len() as int),
            forall|i: int| 0 <= i < orig.len() ==> slot_wf(#[trigger] orig[i]),
            forall|i: int| 0 <= i < orig.len() ==> decreases_to!(orig => #[trigger] orig[i]),
            forall|j: int| 0 <= j < done@.len() ==> slot_wf(#[trigger] done@[j]),
            forall|j: int|
                0 <= j < done@.len() ==> slot_depth(#[trigger] done@[j]) == slot_depth(orig[j]),
            forall|j: int, e2: event::Event, t2: Option<usize>|
                0 <= j < done@.len() ==> #[trigger] slot_consumed(done@[j], e2, t2)
                    == slot_consumed(orig[j], e2, t2),
            !consumed ==> consumed_prefix(orig, *event, tgt) == done@.len() + consumed_prefix(
                children@,
                *event,
                tgt,
            ),
            consumed ==> consumed_prefix(orig, *event, tgt) < done@.len(),
            forall|j: int|
                0 <= j < done@.len() && consumed_prefix(orig, *event, tgt) < j ==> #[trigger] done@[
                    j
                ] == orig[j],
            forall|j: int|
                0 <= j < done@.len() && slot_inert(#[trigger] orig[j], *event, tgt) ==> done@[j]
                    == orig[j],
            forall|j: int|
                0 <= j < done@.len() ==> (#[trigger] done@[j]).uid == orig[j].uid && done@[
                    j
                ].properties.position == orig[j].properties.position && done@[
                    j
                ].properties.size == orig[j].properties.size,
            ctx.target == old(ctx).target,
            ctx.size == old(ctx).size,
            old(ctx).size.wf(),
            !consumed ==> forall|f: nat, tail1: Seq<ChildSlot<M>>, cend: EventCtx<M>|
                f >= depth_all && #[trigger] slots_event_step(
                    f,
                    children@,
                    *event,
                    *ctx,
                    tail1,
                    cend,
                ) ==> slots_event_step(f, orig, *event, c_start, done@ + tail1, cend),
            consumed ==> forall|f: nat|
                f >= depth_all ==> #[trigger] slots_event_step(
                    f,
                    orig,
                    *event,
                    c_start,
                    done@ + children@,
                    *ctx,
                ),
        ensures
            done@.len() == orig.len(),
            consumed == (consumed_prefix(orig, *event, tgt) < orig.len()),
            forall|j: int| 0 <= j < done@.len() ==> slot_wf(#[trigger] done@[j]),
            forall|j: int|
                0 <= j < done@.len() ==> slot_depth(#[trigger] done@[j]) == slot_depth(orig[j]),
            forall|j: int, e2: event::Event, t2: Option<usize>|
                0 <= j < done@.len() ==> #[trigger] slot_consumed(done@[j], e2, t2)
                    == slot_consumed(orig[j], e2, t2),
            forall|j: int|
                0 <= j < done@.len() && consumed_prefix(orig, *event, tgt) < j ==> #[trigger] done@[
                    j
                ] == orig[j],
            forall|j: int|
                0 <= j < done@.len() && slot_inert(#[trigger] orig[j], *event, tgt) ==> done@[j]
                    == orig[j],
            forall|j: int|
                0 <= j < done@.len() ==> (#[trigger] done@[j]).uid == orig[j].uid && done@[
                    j
                ].properties.position == orig[j].properties.position && done@[
                    j
                ].properties.size == orig[j].properties.size,
            ctx.target == old(ctx).target,
            ctx.size == old(ctx).size,
            forall|f: nat|
                f >= depth_all ==> #[trigger] slots_event_step(
                    f,
                    orig,
                    *event,
                    c_start,
                    done@,
                    *ctx,
                ),
        decreases children@.len(),
    {
        if children.len() == 0 {
            proof {
                if !consumed {
                    assert(consumed_prefix(children@, *event, tgt) == 0);
                    assert forall|f: nat| f >= depth_all implies #[trigger] slots_event_step(
                        f,
                        orig,
                        *event,
                        c_start,
                        done@,
                        *ctx,
                    ) by {
                        assert(children@ =~= Seq::<ChildSlot<M>>::empty());
                        assert(slots_event_step(
                            f,
                            children@,
                            *event,
                            *ctx,
                            Seq::<ChildSlot<M>>::empty(),
                            *ctx,
                        ));
                        assert(done@ + Seq::<ChildSlot<M>>::empty() =~= done@);
                    }
                } else {
                    assert forall|f: nat| f >= depth_all implies #[trigger] slots_event_step(
                        f,
                        orig,
                        *event,
                        c_start,
                        done@,
                        *ctx,
                    ) by {
                        assert(slots_event_step(f, orig, *event, c_start, done@ + children@, *ctx));
                        assert(done@ + children@ =~= done@);
                    }
                }
            }
            break ;
        }
        let ghost rem_pre = children@;
        let ghost idx = done@.len() as int;
        let ghost done_pre = done@;
        let ghost ctx_pre = *ctx;
        let ghost was_consumed = consumed;
        proof {
            assert(rem_pre[0] == orig[idx]);
        }
        let mut slot = children.remove(0);
        if !consumed {
            proof {
                lemma_slots_depth_ge(orig, idx);
            }
            let rs = slot.event(event, ctx);
            if rs {
                consumed = true;
                proof {
                    assert(consumed_prefix(rem_pre, *event, tgt) == 0);
                    assert(consumed_prefix(orig, *event, tgt) == idx);
                }
            } else {
                proof {
                    lemma_consumed_prefix_bounds(children@, *event, tgt);
                    assert(consumed_prefix(rem_pre, *event, tgt) == 1 + consumed_prefix(
                        children@,
                        *event,
                        tgt,
                    ));
                }
            }
        }
        let ghost slot_now = slot;
        let ghost ctx_post = *ctx;
        done.push(slot);
        proof {
            assert(children@ =~= orig.skip(done@.len() as int));
            if !was_consumed {
                if consumed {
                    assert forall|f: nat| f >= depth_all implies #[trigger] slots_event_step(
                        f,
                        orig,
                        *event,
                        c_start,
                        done@ + children@,
                        *ctx,
                    ) by {
                        lemma_slots_depth_ge(orig, idx);
                        assert(slot_event_step(f, orig[idx], *event, ctx_pre, slot_now, ctx_post));
                        assert(ctx_post == ctx_with_size(ctx_post, ctx_pre.size));
                        assert(slot_consumed(orig[idx], *event, tgt));
                        assert((seq![slot_now] + children@).drop_first() =~= children@);
                        assert(rem_pre.drop_first() =~= children@);
                        assert((seq![slot_now] + children@)[0] == slot_now);
                        assert(slots_event_step(
                            f,
                            rem_pre,
                            *event,
                            ctx_pre,
                            seq![slot_now] + children@,
                            ctx_post,
                        ));
                        assert(slots_event_step(
                            f,
                            orig,
                            *event,
                            c_start,
                            done_pre + (seq![slot_now] + children@),
                            ctx_post,
                        ));
                        assert(done_pre + (seq![slot_now] + children@) =~= done@ + children@);
                    }
                } else {
                    assert forall|f: nat, tail1: Seq<ChildSlot<M>>, cend: EventCtx<M>|
                        f >= depth_all && #[trigger] slots_event_step(
                            f,
                            children@,
                            *event,
                            *ctx,
                            tail1,
                            cend,
                        ) implies slots_event_step(
                        f,
                        orig,
                        *event,
                        c_start,
                        done@ + tail1,
                        cend,
                    ) by {
                        lemma_slots_depth_ge(orig, idx);
                        assert(slot_event_step(f, orig[idx], *event, ctx_pre, slot_now, ctx_post));
                        assert(ctx_post == ctx_with_size(ctx_post, ctx_pre.size));
                        assert(!slot_consumed(orig[idx], *event, tgt));
                        assert((seq![slot_now] + tail1).drop_first() =~= tail1);
                        assert(rem_pre.drop_first() =~= children@);
                        assert((seq![slot_now] + tail1)[0] == slot_now);
                        assert(slots_event_step(
                            f,
                            rem_pre,
                            *event,
                            ctx_pre,
                            seq![slot_now] + tail1,
                            cend,
                        ));
                        assert(slots_event_step(
                            f,
                            orig,
                            *event,
                            c_start,
                            done_pre + (seq![slot_now] + tail1),
                            cend,
                        ));
                        assert(done_pre + (seq![slot_now] + tail1) =~= done@ + tail1);
                    }
                }
            } else {
                assert forall|f: nat| f >= depth_all implies #[trigger] slots_event_step(
                    f,
                    orig,
                    *event,
                    c_start,
                    done@ + children@,
                    *ctx,
                ) by {
                    assert(slots_event_step(f, orig, *event, c_start, done_pre + rem_pre, ctx_pre));
                    assert(done_pre + rem_pre =~= done@ + children@);
                    assert(*ctx == ctx_pre);
                }
            }
        }
    }
    proof {
        lemma_slots_depth_pointwise(done@, orig);
    }
    *children = done;
    consumed
}


/// The drawing commands a node emits when painted at `size`, in order.
/// This is the definitional paint semantics; the executable paint appends
/// exactly this sequence.
pub open spec fn paint_spec<M>(
    w: Widget<M>,
    theme: crate::style::Theme,
    size: Size,
) -> Seq<crate::display::CmdV>
    decreases w, 1int,
{
    match w {
        Widget::Label(l) => label::label_paint(l, theme, size),
        Widget::Button(b) => button::button_paint(b, theme, size),
        Widget::Slider(s) => slider::slider_paint(s, theme, size),
        Widget::Switch(s) => switch::switch_paint(s, theme, size),
        Widget::TextBox(t) => text_editor::textbox_paint(t, theme, size),
        Widget::Container(c) => {
            let fill = match c.paint {
                Some(p) => seq![
                    crate::display::CmdV::Rect(
                        crate::geometry::Rect { origin: Point { x: 0, y: 0 }, size },
                        p,
                    ),
                ],
                None => Seq::<crate::display::CmdV>::empty(),
            };
            fill + slot_paint_spec(c.child, theme)
        },
        Widget::Center(c) => slot_paint_spec(c.child, theme),
        Widget::Expanded(e) => slot_paint_spec(e.child, theme),
        Widget::SizedBox(b) => slot_paint_spec(b.child, theme),
        Widget::FlexBox(f) => slot_paint_spec(f.child, theme),
        Widget::Row(r) => slots_paint_spec(r.children@, theme),
        Widget::Column(c) => slots_paint_spec(c.children@, theme),
        Widget::List(l) => slots_paint_spec(l.children@, theme),
    }
}

/// The commands a slot emits: a saved canvas state, a translation to the
/// slot\'s position, the widget\'s own commands at the stored size, and the
/// restore — which is what lets every widget paint in local coordinates.
pub open spec fn slot_paint_spec<M>(
    s: ChildSlot<M>,
    theme: crate::style::Theme,
) -> Seq<crate::display::CmdV>
    decreases s, 2int,
{
    seq![
        crate::display::CmdV::Save,
        crate::display::CmdV::Translate(s.properties.position),
    ] + paint_spec(*s.widget, theme, s.properties.size) + seq![crate::display::CmdV::Restore]
}

/// The commands a sequence of slots emits, in order.
pub open spec fn slots_paint_spec<M>(
    s: Seq<ChildSlot<M>>,
    theme: crate::style::Theme,
) -> Seq<crate::display::CmdV>
    decreases s, 0int,
{
    if s.len() == 0 {
        Seq::empty()
    } else {
        slot_paint_spec(s[0], theme) + slots_paint_spec(s.drop_first(), theme)
    }
}

impl<M> ChildSlot<M> {
    /// Paint the wrapped widget at its stored position and size.
    pub fn paint(&self, theme: &crate::style::Theme, out: &mut Vec<crate::display::DrawCmd>)
        requires
            slot_wf(*self),
        ensures
            crate::display::cmds_view(final(out)@) == crate::display::cmds_view(old(out)@)
                + slot_paint_spec(*self, *theme),
        decreases *self, 2int,
    {
        let ghost base = crate::display::cmds_view(out@);
        out.push(crate::display::DrawCmd::Save);
        out.push(crate::display::DrawCmd::Translate(self.properties.position));
        self.widget.paint(theme, self.properties.size, out);
        out.push(crate::display::DrawCmd::Restore);
        proof {
            assert(crate::display::cmds_view(out@) =~= base + slot_paint_spec(*self, *theme));
        }
    }
}

impl<M> Widget<M> {
    /// Append this node\'s drawing commands for the given size.
    pub fn paint(&self, theme: &crate::style::Theme, size: Size, out: &mut Vec<
        crate::display::DrawCmd,
    >)
        requires
            widget_wf(*self),
            size.wf(),
        ensures
            crate::display::cmds_view(final(out)@) == crate::display::cmds_view(old(out)@)
                + paint_spec(*self, *theme, size),
        decreases *self, 1int,
    {
        match self {
            Widget::Label(l) => l.paint(theme, size, out),
            Widget::Button(b) => b.paint(theme, size, out),
            Widget::Slider(s) => s.paint(theme, size, out),
            Widget::Switch(s) => s.paint(theme, size, out),
            Widget::TextBox(t) => t.paint(theme, size, out),
            Widget::Container(c) => {
                let ghost base = crate::display::cmds_view(out@);
                if let Some(p) = &c.paint {
                    out.push(
                        crate::display::DrawCmd::Rect(crate::geometry::Rect::from_size(size), *p),
                    );
                }
                c.child.paint(theme, out);
                proof {
                    assert(crate::display::cmds_view(out@) =~= base + paint_spec(
                        *self,
                        *theme,
                        size,
                    ));
                }
            },
            Widget::Center(c) => c.child.paint(theme, out),
            Widget::Expanded(e) => e.child.paint(theme, out),
            Widget::SizedBox(b) => b.child.paint(theme, out),
            Widget::FlexBox(f) => f.child.paint(theme, out),
            Widget::Row(r) => slots_paint(&r.children, theme, out),
            Widget::Column(c) => slots_paint(&c.children, theme, out),
            Widget::List(l) => slots_paint(&l.children, theme, out),
        }
    }
}

/// Paint a sequence of slots in order.
fn slots_paint<M>(
    children: &Vec<ChildSlot<M>>,
    theme: &crate::style::Theme,
    out: &mut Vec<crate::display::DrawCmd>,
)
    requires
        forall|i: int| 0 <= i < children@.len() ==> slot_wf(#[trigger] children@[i]),
    ensures
        crate::display::cmds_view(final(out)@) == crate::display::cmds_view(old(out)@)
            + slots_paint_spec(children@, *theme),
    decreases children@, 0int,
{
    let ghost base = crate::display::cmds_view(old(out)@);
    let ghost whole = slots_paint_spec(children@, *theme);
    proof {
        assert(children@.skip(0) =~= children@);
    }
    let mut i: usize = 0;
    while i < children.len()
        invariant
            0 <= i <= children@.len(),
            forall|j: int| 0 <= j < children@.len() ==> slot_wf(#[trigger] children@[j]),
            forall|j: int|
                0 <= j < children@.len() ==> decreases_to!(children@ => #[trigger] children@[j]),
            crate::display::cmds_view(out@) + slots_paint_spec(children@.skip(i as int), *theme)
                == base + whole,
        decreases children@.len() - i,
    {
        let ghost rem = children@.skip(i as int);
        proof {
            assert(rem[0] == children@[i as int]);
            assert(rem.drop_first() =~= children@.skip(i + 1));
        }
        children[i].paint(theme, out);
        i += 1;
    }
    proof {
        assert(slots_paint_spec(children@.skip(children@.len() as int), *theme)
            =~= Seq::<crate::display::CmdV>::empty());
        assert(crate::display::cmds_view(out@) =~= base + whole);
    }
}



/// Whether two trees are equal in everything but their slot ids: the same
/// variants, widget fields and slot geometry everywhere. Assigning fresh
/// ids to a tree changes nothing else.
pub open spec fn eq_except_uids<M>(a: Widget<M>, b: Widget<M>) -> bool
    decreases a, 1int,
{
    match (a, b) {
        (Widget::Label(x), Widget::Label(y)) => x == y,
        (Widget::Button(x), Widget::Button(y)) => x == y,
        (Widget::Slider(x), Widget::Slider(y)) => x == y,
        (Widget::Switch(x), Widget::Switch(y)) => x == y,
        (Widget::TextBox(x), Widget::TextBox(y)) => x == y,
        (Widget::Container(x), Widget::Container(y)) => {
            &&& x.padding == y.padding
            &&& x.margin == y.margin
            &&& x.border == y.border
            &&& x.width == y.width
            &&& x.height == y.height
            &&& x.paint == y.paint
            &&& slot_eq_except_uids(x.child, y.child)
        },
        (Widget::Center(x), Widget::Center(y)) => x.size == y.size && slot_eq_except_uids(
            x.child,
            y.child,
        ),
        (Widget::Expanded(x), Widget::Expanded(y)) => {
            &&& x.width == y.width
            &&& x.height == y.height
            &&& x.flex == y.flex
            &&& slot_eq_except_uids(x.child, y.child)
        },
        (Widget::SizedBox(x), Widget::SizedBox(y)) => x.size == y.size && slot_eq_except_uids(
            x.child,
            y.child,
        ),
        (Widget::FlexBox(x), Widget::FlexBox(y)) => x.flex == y.flex && slot_eq_except_uids(
            x.child,
            y.child,
        ),
        (Widget::Row(x), Widget::Row(y)) => {
            &&& x.spacing == y.spacing
            &&& x.children@.len() == y.children@.len()
            &&& forall|i: int|
                0 <= i < x.children@.len() ==> slot_eq_except_uids(
                    #[trigger] x.children@[i],
                    y.children@[i],
                )
        },
        (Widget::Column(x), Widget::Column(y)) => {
            &&& x.spacing == y.spacing
            &&& x.children@.len() == y.children@.len()
            &&& forall|i: int|
                0 <= i < x.children@.len() ==> slot_eq_except_uids(
                    #[trigger] x.children@[i],
                    y.children@[i],
                )
        },
        (Widget::List(x), Widget::List(y)) => {
            &&& x.spacing == y.spacing
            &&& x.item_size == y.item_size
            &&& x.children@.len() == y.children@.len()
            &&& forall|i: int|
                0 <= i < x.children@.len() ==> slot_eq_except_uids(
                    #[trigger] x.children@[i],
                    y.children@[i],
                )
        },
        _ => false,
    }
}

/// Two slots equal in everything but ids, their subtrees included.
pub open spec fn slot_eq_except_uids<M>(a: ChildSlot<M>, b: ChildSlot<M>) -> bool
    decreases a, 2int,
{
    a.properties == b.properties && eq_except_uids(*a.widget, *b.widget)
}

/// The number of slots in a node\'s subtree.
pub open spec fn widget_slot_count<M>(w: Widget<M>) -> nat
    decreases w, 1int,
{
    match w {
        Widget::Label(_) => 0,
        Widget::Button(_) => 0,
        Widget::Slider(_) => 0,
        Widget::Switch(_) => 0,
        Widget::TextBox(_) => 0,
        Widget::Container(c) => slot_subtree_count(c.child),
        Widget::Center(c) => slot_subtree_count(c.child),
        Widget::Expanded(e) => slot_subtree_count(e.child),
        Widget::SizedBox(b) => slot_subtree_count(b.child),
        Widget::FlexBox(f) => slot_subtree_count(f.child),
        Widget::Row(r) => slots_subtree_count(r.children@),
        Widget::Column(c) => slots_subtree_count(c.children@),
        Widget::List(l) => slots_subtree_count(l.children@),
    }
}

/// The number of slots in a slot\'s subtree: itself and its widget\'s.
pub open spec fn slot_subtree_count<M>(s: ChildSlot<M>) -> nat
    decreases s, 2int,
{
    1 + widget_slot_count(*s.widget)
}

/// The number of slots under a sequence of slots.
pub open spec fn slots_subtree_count<M>(s: Seq<ChildSlot<M>>) -> nat
    decreases s, 0int,
{
    if s.len() == 0 {
        0
    } else {
        slot_subtree_count(s[0]) + slots_subtree_count(s.drop_first())
    }
}

/// Whether the slots of a node\'s subtree carry exactly the ids
/// `start, start + 1, ...` in depth-first order.
pub open spec fn widget_uids_from<M>(w: Widget<M>, start: int) -> bool
    decreases w, 1int,
{
    match w {
        Widget::Label(_) => true,
        Widget::Button(_) => true,
        Widget::Slider(_) => true,
        Widget::Switch(_) => true,
        Widget::TextBox(_) => true,
        Widget::Container(c) => slot_uids_from(c.child, start),
        Widget::Center(c) => slot_uids_from(c.child, start),
        Widget::Expanded(e) => slot_uids_from(e.child, start),
        Widget::SizedBox(b) => slot_uids_from(b.child, start),
        Widget::FlexBox(f) => slot_uids_from(f.child, start),
        Widget::Row(r) => slots_uids_from(r.children@, start),
        Widget::Column(c) => slots_uids_from(c.children@, start),
        Widget::List(l) => slots_uids_from(l.children@, start),
    }
}

/// The slot takes `start` and its subtree the ids after it.
pub open spec fn slot_uids_from<M>(s: ChildSlot<M>, start: int) -> bool
    decreases s, 2int,
{
    s.uid == start && widget_uids_from(*s.widget, start + 1)
}

/// Consecutive depth-first ids across a sequence of subtrees.
pub open spec fn slots_uids_from<M>(s: Seq<ChildSlot<M>>, start: int) -> bool
    decreases s, 0int,
{
    if s.len() == 0 {
        true
    } else {
        slot_uids_from(s[0], start) && slots_uids_from(
            s.drop_first(),
            start + slot_subtree_count(s[0]),
        )
    }
}

/// Appending a subtree extends the consecutive numbering at its end.
pub proof fn lemma_slots_uids_push<M>(s: Seq<ChildSlot<M>>, x: ChildSlot<M>, start: int)
    ensures
        slots_uids_from(s.push(x), start) == (slots_uids_from(s, start) && slot_uids_from(
            x,
            start + slots_subtree_count(s),
        )),
    decreases s,
{
    if s.len() == 0 {
        assert(s.push(x)[0] == x);
        assert(s.push(x).drop_first() =~= Seq::<ChildSlot<M>>::empty());
        assert(slots_uids_from(s.push(x), start) == (slot_uids_from(x, start) && slots_uids_from(
            s.push(x).drop_first(),
            start + slot_subtree_count(x),
        )));
        assert(slots_uids_from(s.push(x).drop_first(), start + slot_subtree_count(x)));
        assert(slots_subtree_count(s) == 0);
    } else {
        assert(s.push(x)[0] == s[0]);
        assert(s.push(x).drop_first() =~= s.drop_first().push(x));
        lemma_slots_uids_push(s.drop_first(), x, start + slot_subtree_count(s[0]));
        lemma_slots_count_push(s.drop_first(), x);
        assert(slots_uids_from(s.push(x), start) == (slot_uids_from(s[0], start)
            && slots_uids_from(s.drop_first().push(x), start + slot_subtree_count(s[0]))));
        assert(slots_uids_from(s, start) == (slot_uids_from(s[0], start) && slots_uids_from(
            s.drop_first(),
            start + slot_subtree_count(s[0]),
        )));
        assert(slots_subtree_count(s) == slot_subtree_count(s[0]) + slots_subtree_count(
            s.drop_first(),
        ));
    }
}

/// Appending a subtree adds its count.
pub proof fn lemma_slots_count_push<M>(s: Seq<ChildSlot<M>>, x: ChildSlot<M>)
    ensures
        slots_subtree_count(s.push(x)) == slots_subtree_count(s) + slot_subtree_count(x),
    decreases s,
{
    if s.len() == 0 {
        assert(s.push(x)[0] == x);
        assert(s.push(x).drop_first() =~= Seq::<ChildSlot<M>>::empty());
        assert(slots_subtree_count(s.push(x)) == slot_subtree_count(x) + slots_subtree_count(
            s.push(x).drop_first(),
        ));
        assert(slots_subtree_count(s.push(x).drop_first()) == 0);
    } else {
        assert(s.push(x)[0] == s[0]);
        assert(s.push(x).drop_first() =~= s.drop_first().push(x));
        lemma_slots_count_push(s.drop_first(), x);
        assert(slots_subtree_count(s.push(x)) == slot_subtree_count(s[0]) + slots_subtree_count(
            s.drop_first().push(x),
        ));
        assert(slots_subtree_count(s) == slot_subtree_count(s[0]) + slots_subtree_count(
            s.drop_first(),
        ));
    }
}

/// Draw a fresh id, saturating at the largest id.
fn take_uid(counter: &mut usize) -> (r: usize)
    ensures
        *final(counter) >= *old(counter),
        *old(counter) < usize::MAX ==> r == *old(counter) && *final(counter) == *old(counter) + 1,
{
    if *counter < usize::MAX {
        next_uid(counter)
    } else {
        usize::MAX
    }
}

/// Give this slot and every slot below it a fresh id, in a depth-first
/// walk.
pub fn slot_assign_uids<M>(s: &mut ChildSlot<M>, counter: &mut usize)
    requires
        slot_wf(*old(s)),
    ensures
        slot_wf(*final(s)),
        final(s).properties == old(s).properties,
        slot_eq_except_uids(*old(s), *final(s)),
        slot_subtree_count(*final(s)) == slot_subtree_count(*old(s)),
        *final(counter) >= *old(counter),
        *old(counter) + slot_subtree_count(*old(s)) <= usize::MAX ==> slot_uids_from(
            *final(s),
            *old(counter) as int,
        ) && *final(counter) == *old(counter) + slot_subtree_count(*old(s)),
    decreases *old(s),
{
    s.uid = take_uid(counter);
    assign_uids(&mut *s.widget, counter);
}

/// Give every slot in the tree a fresh id, in a depth-first walk.
pub fn assign_uids<M>(w: &mut Widget<M>, counter: &mut usize)
    requires
        widget_wf(*old(w)),
    ensures
        widget_wf(*final(w)),
        eq_except_uids(*old(w), *final(w)),
        widget_slot_count(*final(w)) == widget_slot_count(*old(w)),
        *final(counter) >= *old(counter),
        *old(counter) + widget_slot_count(*old(w)) <= usize::MAX ==> widget_uids_from(
            *final(w),
            *old(counter) as int,
        ) && *final(counter) == *old(counter) + widget_slot_count(*old(w)),
    decreases *old(w),
{
    match w {
        Widget::Label(_) => (),
        Widget::Button(_) => (),
        Widget::Slider(_) => (),
        Widget::Switch(_) => (),
        Widget::TextBox(_) => (),
        Widget::Container(c) => slot_assign_uids(&mut c.child, counter),
        Widget::Center(c) => slot_assign_uids(&mut c.child, counter),
        Widget::Expanded(e) => slot_assign_uids(&mut e.child, counter),
        Widget::SizedBox(b) => slot_assign_uids(&mut b.child, counter),
        Widget::FlexBox(f) => slot_assign_uids(&mut f.child, counter),
        Widget::Row(r) => slots_assign_uids(&mut r.children, counter),
        Widget::Column(c) => slots_assign_uids(&mut c.children, counter),
        Widget::List(l) => slots_assign_uids(&mut l.children, counter),
    }
}

/// Give every slot in a sequence (and below) a fresh id, in order.
fn slots_assign_uids<M>(children: &mut Vec<ChildSlot<M>>, counter: &mut usize)
    requires
        forall|i: int| 0 <= i < old(children)@.len() ==> slot_wf(#[trigger] old(children)@[i]),
    ensures
        forall|i: int|
            0 <= i < final(children)@.len() ==> slot_wf(#[trigger] final(children)@[i]),
        final(children)@.len() == old(children)@.len(),
        forall|j: int|
            0 <= j < final(children)@.len() ==> slot_eq_except_uids(
                old(children)@[j],
                #[trigger] final(children)@[j],
            ),
        slots_subtree_count(final(children)@) == slots_subtree_count(old(children)@),
        *final(counter) >= *old(counter),
        *old(counter) + slots_subtree_count(old(children)@) <= usize::MAX ==> slots_uids_from(
            final(children)@,
            *old(counter) as int,
        ) && *final(counter) == *old(counter) + slots_subtree_count(old(children)@),
    decreases old(children)@,
{
    let ghost orig = children@;
    let ghost fits_ids = *old(counter) + slots_subtree_count(orig) <= usize::MAX;
    let mut done: Vec<ChildSlot<M>> = Vec::new();
    loop
        invariant_except_break
            orig == old(children)@,
            fits_ids == (*old(counter) + slots_subtree_count(orig) <= usize::MAX),
            done@.len() + children@.len() == orig.len(),
            children@ == orig.skip(done@.len() as int),
            forall|i: int| 0 <= i < orig.len() ==> slot_wf(#[trigger] orig[i]),
            forall|i: int| 0 <= i < orig.len() ==> decreases_to!(orig => #[trigger] orig[i]),
            forall|j: int| 0 <= j < done@.len() ==> slot_wf(#[trigger] done@[j]),
            forall|j: int|
                0 <= j < done@.len() ==> slot_eq_except_uids(orig[j], #[trigger] done@[j]),
            slots_subtree_count(done@) + slots_subtree_count(children@) == slots_subtree_count(
                orig,
            ),
            *counter >= *old(counter),
            fits_ids ==> *counter + slots_subtree_count(children@) == *old(counter)
                + slots_subtree_count(orig),
            fits_ids ==> slots_subtree_count(done@) == *counter - *old(counter),
            fits_ids ==> slots_uids_from(done@, *old(counter) as int),
        ensures
            done@.len() == orig.len(),
            forall|j: int| 0 <= j < done@.len() ==> slot_wf(#[trigger] done@[j]),
            forall|j: int|
                0 <= j < done@.len() ==> slot_eq_except_uids(orig[j], #[trigger] done@[j]),
            slots_subtree_count(done@) == slots_subtree_count(orig),
            *counter >= *old(counter),
            fits_ids ==> slots_uids_from(done@, *old(counter) as int) && *counter == *old(counter)
                + slots_subtree_count(orig),
        decreases children@.len(),
    {
        if children.len() == 0 {
            break ;
        }
        let ghost done_pre = done@;
        let ghost ctr_pre = *counter;
        proof {
            assert(children@[0] == orig[done@.len() as int]);
            assert(slots_subtree_count(children@) == slot_subtree_count(children@[0])
                + slots_subtree_count(children@.drop_first()));
        }
        let mut slot = children.remove(0);
        slot_assign_uids(&mut slot, counter);
        done.push(slot);
        proof {
            assert(children@ =~= orig.skip(done@.len() as int));
            lemma_slots_count_push(done_pre, done@.last());
            if fits_ids {
                lemma_slots_uids_push(done_pre, done@.last(), *old(counter) as int);
                assert(ctr_pre + slot_subtree_count(orig[done_pre.len() as int])
                    <= usize::MAX);
                assert(slot_uids_from(done@.last(), ctr_pre as int));
                assert(ctr_pre - *old(counter) == slots_subtree_count(done_pre));
            }
            assert(done@ =~= done_pre.push(done@.last()));
        }
    }
    *children = done;
}


/// One read-only scan of a flex container\'s children, as `flex_scan`
/// describes it.
fn scan_children<M>(children: &Vec<ChildSlot<M>>, horizontal: bool, spacing: i64) -> (r: (
    i64,
    i64,
    i64,
))
    requires
        forall|i: int| 0 <= i < children@.len() ==> slot_wf(#[trigger] children@[i]),
        0 <= spacing <= crate::geometry::MAX_DIM,
    ensures
        (r.0 as int, r.1 as int, r.2 as int) == flex_scan(
            children@,
            horizontal,
            spacing,
            true,
            0,
            0,
            0,
        ),
        0 <= r.0 <= crate::geometry::MAX_DIM,
        0 <= r.1 <= crate::geometry::MAX_DIM,
        0 <= r.2 <= crate::geometry::MAX_DIM,
    decreases children@, 1int,
{
    let ghost whole = flex_scan(children@, horizontal, spacing, true, 0, 0, 0);
    proof {
        assert(children@.skip(0) =~= children@);
    }
    let unc = crate::constraints::BoxConstraints::new();
    let mut main: i64 = 0;
    let mut cross: i64 = 0;
    let mut total: i64 = 0;
    let mut i: usize = 0;
    while i < children.len()
        invariant
            0 <= i <= children@.len(),
            unc == unconstrained(),
            0 <= spacing <= crate::geometry::MAX_DIM,
            forall|j: int| 0 <= j < children@.len() ==> slot_wf(#[trigger] children@[j]),
            forall|j: int|
                0 <= j < children@.len() ==> decreases_to!(children@ => #[trigger] children@[j]),
            0 <= main <= crate::geometry::MAX_DIM,
            0 <= cross <= crate::geometry::MAX_DIM,
            0 <= total <= crate::geometry::MAX_DIM,
            whole == flex_scan(
                children@.skip(i as int),
                horizontal,
                spacing,
                i == 0,
                main as int,
                cross as int,
                total as int,
            ),
        decreases children@.len() - i,
    {
        let ghost rem = children@.skip(i as int);
        proof {
            assert(rem[0] == children@[i as int]);
            assert(rem.drop_first() =~= children@.skip(i + 1));
            lemma_flex_bound(*children@[i as int].widget);
            lemma_measure_wf(*children@[i as int].widget, unconstrained());
        }
        let slot = &children[i];
        if i > 0 {
            main = crate::geometry::dim_add(main, spacing);
        }
        let f = slot.widget.flex();
        if f == 0 {
            let sz = slot.widget.measure_of(&unc);
            let m = if horizontal {
                sz.width
            } else {
                sz.height
            };
            let cr = if horizontal {
                sz.height
            } else {
                sz.width
            };
            main = crate::geometry::dim_add(main, m);
            if cr > cross {
                cross = cr;
            }
        }
        if total + f > crate::geometry::MAX_DIM {
            total = crate::geometry::MAX_DIM;
        } else {
            total = total + f;
        }
        i += 1;
    }
    proof {
        assert(children@.skip(children@.len() as int) =~= Seq::<ChildSlot<M>>::empty());
    }
    (main, cross, total)
}

impl<M> Widget<M> {
    /// The size layout would give this node under `constraints`, without
    /// touching the tree: exactly `measure`. Lets a host predict a pass
    /// before running one.
    pub fn measure_of(&self, constraints: &crate::constraints::BoxConstraints) -> (r: Size)
        requires
            widget_wf(*self),
            constraints.wf(),
        ensures
            r == measure(*self, *constraints),
            r.wf(),
        decreases *self, 2int,
    {
        proof {
            lemma_measure_wf(*self, *constraints);
        }
        match self {
            Widget::Label(_) => Size {
                width: opt_dim_or0(constraints.max_width()),
                height: opt_dim_or0(constraints.max_height()),
            },
            Widget::Button(b) => {
                let width = match constraints.max_width() {
                    Some(mw) => mw,
                    None => b.font_nat_width(),
                };
                let height = match constraints.max_height() {
                    Some(mh) => mh,
                    None => crate::geometry::clamp_dim_exec(b.font.size * 3 / 2),
                };
                Size { width, height }
            },
            Widget::Slider(_) => Size {
                width: opt_dim_or0(constraints.max_width()),
                height: opt_dim_or0(constraints.max_height()),
            },
            Widget::Switch(_) => Size {
                width: opt_dim_or0(constraints.max_width()),
                height: opt_dim_or0(constraints.max_height()),
            },
            Widget::TextBox(_) => Size {
                width: opt_dim_or0(constraints.max_width()),
                height: match constraints.max_height() {
                    Some(mh) => if mh < text_editor::TEXT_LINE_HEIGHT {
                        mh
                    } else {
                        text_editor::TEXT_LINE_HEIGHT
                    },
                    None => text_editor::TEXT_LINE_HEIGHT,
                },
            },
            Widget::Container(cont) => {
                let space = cont.space_around();
                let dspace = crate::geometry::dim_add(space, space);
                let cc = if constraints.max_width().is_none()
                    || constraints.max_height().is_none() {
                    if cont.width.is_none() || cont.height.is_none() {
                        crate::constraints::BoxConstraints::new()
                    } else {
                        let w = opt_dim_or0(cont.width);
                        let h = opt_dim_or0(cont.height);
                        crate::constraints::BoxConstraints::new().with_max_width(
                            w,
                        ).with_max_height(h).shrunk(space, space)
                    }
                } else {
                    constraints.shrunk(dspace, dspace)
                };
                proof {
                    assert(cc == container_child_bc(*cont, *constraints));
                    crate::widget::lemma_container_child_bc_wf(*cont, *constraints);
                }
                let child_size = cont.child.widget.measure_of(&cc);
                let base_w = crate::geometry::dim_add(child_size.width, dspace);
                let base_h = crate::geometry::dim_add(child_size.height, dspace);
                Size {
                    width: crate::geometry::dim_max(base_w, opt_dim_or0(constraints.min_width())),
                    height: crate::geometry::dim_max(base_h, opt_dim_or0(constraints.min_height())),
                }
            },
            Widget::Center(cen) => {
                match cen.size {
                    Some(sz) => sz,
                    None => Size {
                        width: opt_dim_or0(constraints.max_width()),
                        height: opt_dim_or0(constraints.max_height()),
                    },
                }
            },
            Widget::Expanded(e) => Size {
                width: match e.width {
                    Some(w) => w,
                    None => opt_dim_or0(constraints.max_width()),
                },
                height: match e.height {
                    Some(h) => h,
                    None => opt_dim_or0(constraints.max_height()),
                },
            },
            Widget::SizedBox(b) => b.size,
            Widget::Row(r) => {
                let (main, cross, total) = scan_children(&r.children, true, r.spacing);
                proof {
                    assert(measure(*self, *constraints) == flex_measure(
                        r.children@,
                        true,
                        r.spacing,
                        *constraints,
                    ));
                }
                if total > 0 {
                    Size {
                        width: opt_dim_or0(constraints.max_width()),
                        height: opt_dim_or0(constraints.max_height()),
                    }
                } else {
                    Size { width: main, height: cross }
                }
            },
            Widget::Column(col) => {
                let (main, cross, total) = scan_children(&col.children, false, col.spacing);
                proof {
                    assert(measure(*self, *constraints) == flex_measure(
                        col.children@,
                        false,
                        col.spacing,
                        *constraints,
                    ));
                }
                if total > 0 {
                    Size {
                        width: opt_dim_or0(constraints.max_width()),
                        height: opt_dim_or0(constraints.max_height()),
                    }
                } else {
                    Size { width: cross, height: main }
                }
            },
            Widget::FlexBox(f) => f.child.widget.measure_of(constraints),
            Widget::List(_) => Size {
                width: opt_dim_or0(constraints.max_width()),
                height: opt_dim_or0(constraints.max_height()),
            },
        }
    }
}


impl<M> Widget<M> {
    /// Whether layout is defined for this node under `constraints`:
    /// exactly `layout_ok`. Lets a host test the layout precondition
    /// before driving a pass.
    pub fn accepts_layout(&self, constraints: &crate::constraints::BoxConstraints) -> (r: bool)
        requires
            widget_wf(*self),
            constraints.wf(),
        ensures
            r == layout_ok(*self, *constraints),
        decreases *self, 3int,
    {
        match self {
            Widget::Label(_) => constraints.has_max(),
            Widget::Button(_) => true,
            Widget::Slider(_) => constraints.has_max(),
            Widget::Switch(_) => constraints.has_max(),
            Widget::TextBox(_) => constraints.max_width().is_some(),
            Widget::Container(cont) => {
                let space = cont.space_around();
                let dspace = crate::geometry::dim_add(space, space);
                let cc = if constraints.max_width().is_none()
                    || constraints.max_height().is_none() {
                    if cont.width.is_none() || cont.height.is_none() {
                        crate::constraints::BoxConstraints::new()
                    } else {
                        let w = opt_dim_or0(cont.width);
                        let h = opt_dim_or0(cont.height);
                        crate::constraints::BoxConstraints::new().with_max_width(
                            w,
                        ).with_max_height(h).shrunk(space, space)
                    }
                } else {
                    constraints.shrunk(dspace, dspace)
                };
                proof {
                    assert(cc == container_child_bc(*cont, *constraints));
                    crate::widget::lemma_container_child_bc_wf(*cont, *constraints);
                }
                cont.child.widget.accepts_layout(&cc)
            },
            Widget::Center(cen) => {
                if cen.size.is_none() && !constraints.has_max() {
                    false
                } else {
                    let my = match cen.size {
                        Some(sz) => sz,
                        None => Size {
                            width: opt_dim_or0(constraints.max_width()),
                            height: opt_dim_or0(constraints.max_height()),
                        },
                    };
                    let cc = crate::constraints::BoxConstraints::new().with_max_width(
                        my.width,
                    ).with_max_height(my.height);
                    proof {
                        assert(cc == center_child_bc(my));
                    }
                    cen.child.widget.accepts_layout(&cc)
                }
            },
            Widget::Expanded(e) => {
                if (e.width.is_none() && constraints.max_width().is_none()) || (e.height.is_none()
                    && constraints.max_height().is_none()) {
                    false
                } else {
                    let size = Size {
                        width: match e.width {
                            Some(w) => w,
                            None => opt_dim_or0(constraints.max_width()),
                        },
                        height: match e.height {
                            Some(h) => h,
                            None => opt_dim_or0(constraints.max_height()),
                        },
                    };
                    let cc = crate::constraints::BoxConstraints::new().with_tight_constraints(
                        size.width,
                        size.height,
                    );
                    proof {
                        assert(size.wf());
                        assert(cc == tight_bc(size));
                    }
                    e.child.widget.accepts_layout(&cc)
                }
            },
            Widget::SizedBox(b) => {
                let cc = crate::constraints::BoxConstraints::new().with_tight_constraints(
                    b.size.width,
                    b.size.height,
                );
                proof {
                    assert(cc == tight_bc(b.size));
                }
                b.child.widget.accepts_layout(&cc)
            },
            Widget::FlexBox(f) => f.child.widget.accepts_layout(constraints),
            Widget::Row(r) => {
                if !constraints.has_max() {
                    false
                } else {
                    flex_accepts(&r.children, true, r.spacing, constraints)
                }
            },
            Widget::Column(col) => {
                if !constraints.has_max() {
                    false
                } else {
                    flex_accepts(&col.children, false, col.spacing, constraints)
                }
            },
            Widget::List(l) => {
                if !constraints.has_max() {
                    false
                } else {
                    let bc = crate::constraints::BoxConstraints {
                        min_width: None,
                        max_width: Some(opt_dim_or0(constraints.max_width())),
                        min_height: None,
                        max_height: l.item_size,
                    };
                    let mut i: usize = 0;
                    let mut ok = true;
                    while i < l.children.len()
                        invariant
                            0 <= i <= l.children@.len(),
                            widget_wf(*self),
                            constraints.wf(),
                            *self is List,
                            self->List_0.children@ == l.children@,
                            bc == list_child_bc(self->List_0, *constraints),
                            bc.wf(),
                            forall|j: int|
                                0 <= j < l.children@.len() ==> decreases_to!(l.children@ => (
                                #[trigger] l.children@[j])),
                            ok == (forall|j: int|
                                0 <= j < i ==> layout_ok(
                                    *(#[trigger] l.children@[j]).widget,
                                    bc,
                                )),
                        decreases l.children@.len() - i,
                    {
                        proof {
                            assert(slot_wf(l.children@[i as int]));
                        }
                        let child_ok = l.children[i].widget.accepts_layout(&bc);
                        if !child_ok {
                            proof {
                                assert(!layout_ok(*l.children@[i as int].widget, bc));
                            }
                            ok = false;
                        }
                        i += 1;
                    }
                    ok
                }
            },
        }
    }
}

/// Whether every child of a flex container accepts the constraints the
/// flex pass would offer it.
fn flex_accepts<M>(
    children: &Vec<ChildSlot<M>>,
    horizontal: bool,
    spacing: i64,
    c: &crate::constraints::BoxConstraints,
) -> (r: bool)
    requires
        forall|i: int| 0 <= i < children@.len() ==> slot_wf(#[trigger] children@[i]),
        0 <= spacing <= crate::geometry::MAX_DIM,
        c.wf(),
        c.spec_has_max(),
    ensures
        ({
            let scan = flex_scan(children@, horizontal, spacing, true, 0, 0, 0);
            let max_main = if horizontal {
                opt_or0(c.max_width)
            } else {
                opt_or0(c.max_height)
            };
            let remaining = crate::geometry::clamp_dim(max_main - scan.0);
            r == (forall|i: int|
                0 <= i < children@.len() ==> layout_ok(
                    *(#[trigger] children@[i]).widget,
                    if spec_flex(*children@[i].widget) == 0 {
                        unconstrained()
                    } else {
                        flex_child_bc(
                            *c,
                            horizontal,
                            flex_share(
                                remaining,
                                spec_flex(*children@[i].widget) as int,
                                scan.2,
                            ),
                        )
                    },
                ))
        }),
    decreases children@, 4int,
{
    let (main, _cross, total) = scan_children(children, horizontal, spacing);
    let ghost scan = flex_scan(children@, horizontal, spacing, true, 0, 0, 0);
    proof {
        lemma_flex_scan_bounds(children@, horizontal, spacing, true, 0, 0, 0);
    }
    let max_main = if horizontal {
        opt_dim_or0(c.max_width())
    } else {
        opt_dim_or0(c.max_height())
    };
    let remaining = crate::geometry::dim_sub(max_main, main);
    let unc = crate::constraints::BoxConstraints::new();
    let mut i: usize = 0;
    let mut ok = true;
    while i < children.len()
        invariant
            0 <= i <= children@.len(),
            c.wf(),
            c.spec_has_max(),
            unc == unconstrained(),
            0 <= spacing <= crate::geometry::MAX_DIM,
            forall|j: int| 0 <= j < children@.len() ==> slot_wf(#[trigger] children@[j]),
            forall|j: int|
                0 <= j < children@.len() ==> decreases_to!(children@ => #[trigger] children@[j]),
            scan == flex_scan(children@, horizontal, spacing, true, 0, 0, 0),
            0 < scan.2 ==> total as int == scan.2,
            total as int == scan.2,
            0 <= total <= crate::geometry::MAX_DIM,
            forall|j: int|
                0 <= j < children@.len() ==> scan.2 >= spec_flex(*(#[trigger] children@[j]).widget),
            remaining as int == crate::geometry::clamp_dim(
                (if horizontal {
                    opt_or0(c.max_width)
                } else {
                    opt_or0(c.max_height)
                }) - scan.0,
            ),
            0 <= remaining <= crate::geometry::MAX_DIM,
            ok == (forall|j: int|
                0 <= j < i ==> layout_ok(
                    *(#[trigger] children@[j]).widget,
                    if spec_flex(*children@[j].widget) == 0 {
                        unconstrained()
                    } else {
                        flex_child_bc(
                            *c,
                            horizontal,
                            flex_share(remaining as int, spec_flex(*children@[j].widget) as int, scan.2),
                        )
                    },
                )),
        decreases children@.len() - i,
    {
        proof {
            assert(slot_wf(children@[i as int]));
            lemma_flex_bound(*children@[i as int].widget);
        }
        let f = children[i].widget.flex();
        let child_ok = if f == 0 {
            children[i].widget.accepts_layout(&unc)
        } else {
            let fi: i64 = f;
            proof {
                let ri = remaining as int;
                let f2 = fi as int;
                let ti = total as int;
                assert(0 <= ri * f2 <= ri * ti) by (nonlinear_arith)
                    requires
                        0 <= ri,
                        0 <= f2 <= ti,
                ;
                assert(ri * f2 <= 0x100_0000_0000i64 * 0x10_0000i64) by (nonlinear_arith)
                    requires
                        0 <= ri <= 0x100_0000_0000i64,
                        0 <= f2 <= 0x10_0000i64,
                ;
                assert(ri * f2 / ti <= ri) by (nonlinear_arith)
                    requires
                        0 < ti,
                        0 <= ri,
                        ri * f2 <= ri * ti,
                ;
            }
            let share: i64 = remaining * fi / total;
            let bc = if horizontal {
                crate::constraints::BoxConstraints {
                    min_width: Some(share),
                    max_width: Some(share),
                    min_height: None,
                    max_height: Some(opt_dim_or0(c.max_height())),
                }
            } else {
                crate::constraints::BoxConstraints {
                    min_width: None,
                    max_width: Some(opt_dim_or0(c.max_width())),
                    min_height: Some(share),
                    max_height: Some(share),
                }
            };
            proof {
                assert(bc == flex_child_bc(
                    *c,
                    horizontal,
                    flex_share(remaining as int, f as int, scan.2),
                ));
                assert(bc.wf());
            }
            children[i].widget.accepts_layout(&bc)
        };
        if !child_ok {
            ok = false;
        }
        i += 1;
    }
    ok
}

} // verus!
