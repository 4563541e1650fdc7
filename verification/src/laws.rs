//! The toolkit's laws: properties of the layout and input engines, proved
//! once and for all against the same specification functions the
//! executable code is verified against.

use vstd::prelude::*;

use crate::constraints::BoxConstraints;
use crate::geometry::{clamp_dim, Size, MAX_DIM};
use crate::widget::center::center_offset;
use crate::widget::event::MouseEvent;
use crate::widget::{
    container_child_bc, enter_fired, flex_measure, flex_scan, flex_share, hover_after,
    layout_ok, leave_fired, lemma_flex_scan_bounds, lemma_measure_wf,
    lemma_same_structure_measure, list_layout_post, measure, opt_or0, same_structure, tight_bc,
    widget_wf, ChildSlot, Widget,
};

verus! {

/// A sufficient structural condition for a node to respect an upper
/// bound it is offered: every fixed extent in the node fits under the
/// maximum that will reach it. Nodes that simply fill their offered space
/// satisfy it trivially.
pub open spec fn fits<M>(w: Widget<M>, c: BoxConstraints) -> bool
    decreases w,
{
    match w {
        Widget::Label(_) => true,
        Widget::Button(_) => true,
        Widget::Slider(_) => true,
        Widget::Switch(_) => true,
        Widget::TextBox(_) => true,
        Widget::List(_) => true,
        Widget::Container(cont) => {
            let dspace = clamp_dim(2 * cont.spec_space_around());
            &&& (c.max_width is Some <==> c.max_height is Some)
            &&& (c.max_width is Some ==> dspace <= c.max_width->0)
            &&& (c.max_height is Some ==> dspace <= c.max_height->0)
            &&& fits(*cont.child.widget, container_child_bc(cont, c))
        },
        Widget::Center(cen) => {
            cen.size matches Some(sz) ==> ((c.max_width is Some ==> sz.width <= c.max_width->0)
                && (c.max_height is Some ==> sz.height <= c.max_height->0))
        },
        Widget::Expanded(e) => {
            &&& (e.width matches Some(w0) ==> (c.max_width is Some ==> w0 <= c.max_width->0))
            &&& (e.height matches Some(h0) ==> (c.max_height is Some ==> h0 <= c.max_height->0))
        },
        Widget::SizedBox(b) => {
            &&& (c.max_width is Some ==> b.size.width <= c.max_width->0)
            &&& (c.max_height is Some ==> b.size.height <= c.max_height->0)
        },
        Widget::Row(r) => {
            let scan = flex_scan(r.children@, true, r.spacing, true, 0, 0, 0);
            scan.2 == 0 ==> (c.max_width is Some ==> scan.0 <= c.max_width->0) && (
            c.max_height is Some ==> scan.1 <= c.max_height->0)
        },
        Widget::Column(col) => {
            let scan = flex_scan(col.children@, false, col.spacing, true, 0, 0, 0);
            scan.2 == 0 ==> (c.max_height is Some ==> scan.0 <= c.max_height->0) && (
            c.max_width is Some ==> scan.1 <= c.max_width->0)
        },
        Widget::FlexBox(f) => fits(*f.child.widget, c),
    }
}

/// Layout satisfies its constraints: a well-formed node that fits the
/// offered bounds reports a size within every present maximum. A node
/// with a fixed extent larger than the bound — a sized box forced wider
/// than its parent's maximum, or a container whose reserved insets alone
/// exceed it — is the one kind of input excluded by `fits`.
pub proof fn lemma_layout_within_max<M>(w: Widget<M>, c: BoxConstraints)
    requires
        widget_wf(w),
        c.wf(),
        fits(w, c),
    ensures
        c.max_width is Some ==> measure(w, c).width <= c.max_width->0,
        c.max_height is Some ==> measure(w, c).height <= c.max_height->0,
    decreases w,
{
    lemma_measure_wf(w, c);
    match w {
        Widget::Container(cont) => {
            let cc = container_child_bc(cont, c);
            crate::widget::lemma_container_child_bc_wf(cont, c);
            lemma_layout_within_max(*cont.child.widget, cc);
            lemma_measure_wf(*cont.child.widget, cc);
            if c.max_width is Some && c.max_height is Some {
                let dspace = clamp_dim(2 * cont.spec_space_around());
                let child = measure(*cont.child.widget, cc);
                assert(cc == crate::constraints::spec_shrunk(c, dspace, dspace));
                assert(cc.max_width == Some(clamp_dim(c.max_width->0 - dspace) as i64));
                assert(cc.max_height == Some(clamp_dim(c.max_height->0 - dspace) as i64));
                assert(child.width <= clamp_dim(c.max_width->0 - dspace));
                assert(child.height <= clamp_dim(c.max_height->0 - dspace));
                assert(clamp_dim(child.width + dspace) <= c.max_width->0);
                assert(clamp_dim(child.height + dspace) <= c.max_height->0);
                assert(opt_or0(c.min_width) <= c.max_width->0);
                assert(opt_or0(c.min_height) <= c.max_height->0);
            }
        },
        Widget::Row(r) => {
            lemma_flex_scan_bounds(r.children@, true, r.spacing, true, 0, 0, 0);
            assert(measure(w, c) == flex_measure(r.children@, true, r.spacing, c));
        },
        Widget::Column(col) => {
            lemma_flex_scan_bounds(col.children@, false, col.spacing, true, 0, 0, 0);
            assert(measure(w, c) == flex_measure(col.children@, false, col.spacing, c));
        },
        Widget::FlexBox(f) => {
            lemma_layout_within_max(*f.child.widget, c);
        },
        _ => {},
    }
}

/// Flex conservation: when the remaining main-axis space divides evenly,
/// two flexible children with factors two and one receive shares in an
/// exact two-to-one ratio, and together they use exactly the remaining
/// space.
pub proof fn lemma_flex_conservation(s: int)
    requires
        0 <= s,
        s % 3 == 0,
    ensures
        flex_share(s, 2, 3) == 2 * flex_share(s, 1, 3),
        flex_share(s, 2, 3) + flex_share(s, 1, 3) == s,
{
    let k = s / 3;
    assert(s == 3 * k);
    assert(s * 2 == 6 * k) by (nonlinear_arith)
        requires
            s == 3 * k,
    ;
    assert(6 * k / 3 == 2 * k) by (nonlinear_arith);
    assert(3 * k / 3 == k) by (nonlinear_arith);
    assert(s * 1 == s);
}

/// A flexible filler laid out under its tight share reports exactly that
/// share on both axes, so the shares of the flex pass are exactly the
/// sizes the flexible children end up with.
pub proof fn lemma_expanded_fills_share<M>(e: crate::widget::expanded::Expanded<M>, share: Size)
    requires
        e.width is None,
        e.height is None,
    ensures
        measure(Widget::Expanded(e), tight_bc(share)) == share,
{
}

/// Container round trip: a container with padding `p` and no other insets
/// around a child whose natural size is `(w, h)`, laid out without
/// constraints, reports exactly `(w + 2p, h + 2p)`; its layout pass
/// places the child at local position `(p, p)`.
pub proof fn lemma_container_round_trip<M>(cont: crate::widget::container::Container<M>, w: int, h: int)
    requires
        widget_wf(Widget::Container(cont)),
        cont.padding >= 0,
        cont.margin == 0,
        cont.border == 0,
        cont.width is None,
        cont.height is None,
        measure(*cont.child.widget, crate::widget::unconstrained()) == (Size {
            width: w as i64,
            height: h as i64,
        }),
        0 <= w,
        0 <= h,
        w + 2 * cont.padding <= MAX_DIM,
        h + 2 * cont.padding <= MAX_DIM,
    ensures
        measure(Widget::Container(cont), crate::widget::unconstrained()) == (Size {
            width: (w + 2 * cont.padding) as i64,
            height: (h + 2 * cont.padding) as i64,
        }),
{
    let c = crate::widget::unconstrained();
    assert(container_child_bc(cont, c) == c);
    assert(cont.spec_space_around() == cont.padding);
}

/// Hover edges are idempotent: a movement inside a slot raises the hover
/// flag and fires an enter only when the flag was down, so a second
/// movement inside fires none; a movement outside lowers the flag and
/// fires a leave only when it was up, so a second movement outside fires
/// none either.
pub proof fn lemma_hover_edge_idempotence(h0: bool, raw: crate::window_event::MouseEvent)
    ensures
        ({
            let mv = MouseEvent::MouseMove(raw);
            let h1 = hover_after(h0, true, mv);
            let h2 = hover_after(h1, true, mv);
            let h3 = hover_after(h2, false, mv);
            let h4 = hover_after(h3, false, mv);
            &&& enter_fired(h0, true, mv) == !h0
            &&& h1 == true
            &&& enter_fired(h1, true, mv) == false
            &&& h2 == true
            &&& leave_fired(h2, false, mv) == true
            &&& h3 == false
            &&& leave_fired(h3, false, mv) == false
            &&& h4 == false
        }),
{
}

/// A stale hover flag heals on a mouse-up outside the slot: the flag
/// drops and exactly one leave fires.
pub proof fn lemma_hover_heals_on_mouse_up(raw: crate::window_event::MouseEvent)
    ensures
        hover_after(true, false, MouseEvent::MouseUp(raw)) == false,
        leave_fired(true, false, MouseEvent::MouseUp(raw)) == true,
{
}

/// Center symmetry: a child no larger than the space it is centered in is
/// placed so that, when the slack on an axis is even, the gaps on both
/// sides of that axis are exactly equal.
pub proof fn lemma_center_symmetry(parent: int, child: int)
    requires
        0 <= child <= parent,
        (parent - child) % 2 == 0,
    ensures
        center_offset(parent, child) == parent - child - center_offset(parent, child),
{
}

/// List rebuild determinism: with a fixed item height, the stacked
/// offsets are exactly `i * (item + spacing)` for every index, on every
/// layout pass, whatever the items contain.
pub proof fn lemma_list_uniform_offsets<M>(
    orig: Seq<ChildSlot<M>>,
    now: Seq<ChildSlot<M>>,
    spacing: i64,
    item: i64,
    c: BoxConstraints,
    i: int,
)
    requires
        list_layout_post(orig, now, spacing, Some(item), c),
        0 <= i < now.len(),
        0 <= spacing,
        0 <= item,
        (item + spacing) * now.len() <= MAX_DIM,
    ensures
        now[i].properties.position.y as int == i * (item + spacing) as int,
    decreases i,
{
    let step = (item + spacing) as int;
    let n = now.len() as int;
    assert(0 <= step * n <= MAX_DIM);
    if i == 0 {
    } else {
        lemma_list_uniform_offsets(orig, now, spacing, item, c, i - 1);
        assert(now[i - 1].properties.size.height == item);
        assert((i - 1) * step + step == i * step) by (nonlinear_arith);
        assert(0 <= i * step <= step * n) by (nonlinear_arith)
            requires
                0 <= step,
                0 < i + 1 <= n,
        ;
        assert((i - 1) * step >= 0) by (nonlinear_arith)
            requires
                0 <= step,
                1 <= i,
        ;
        assert(now[i].properties.position.y as int == clamp_dim(
            clamp_dim((i - 1) * step + item) + spacing,
        ));
    }
}


/// Layout passes are reproducible: every layout function preserves the
/// tree\'s structure, and a structurally equal tree accepts exactly the
/// same constraints and measures to exactly the same size. A second pass
/// over a laid-out tree therefore produces the same child count, sizes
/// and offsets as the first, however many passes have gone before.
pub proof fn lemma_layout_reproducible<M>(a: Widget<M>, b: Widget<M>, c: BoxConstraints)
    requires
        same_structure(a, b),
        layout_ok(a, c),
    ensures
        layout_ok(b, c),
        measure(b, c) == measure(a, c),
{
    lemma_same_structure_measure(a, b, c);
}

/// Text-box edit round trip: from empty text, typing two characters and
/// pressing backspace once leaves exactly the first character, with the
/// caret after it.
pub proof fn lemma_edit_round_trip(a: char, b: char)
    ensures
        ({
            let t0 = Seq::<char>::empty();
            let t1 = t0.insert(0, a);
            let t2 = t1.insert(1, b);
            let t3 = t2.remove(1);
            t3 =~= seq![a]
        }),
{
    let t0 = Seq::<char>::empty();
    let t1 = t0.insert(0, a);
    let t2 = t1.insert(1, b);
    assert(t1 =~= seq![a]);
    assert(t2 =~= seq![a, b]);
    assert(t2.remove(1) =~= seq![a]);
}

} // verus!
