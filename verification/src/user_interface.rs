//! The root of one window's widget tree: translates raw window input into
//! widget events, keeps the top-level hover consumer, drives the layout
//! pass, and assembles the display list for a frame.

use vstd::prelude::*;

use crate::constraints::BoxConstraints;
use crate::display::{cmds_view, CmdV, DrawCmd};
use crate::geometry::{Point, Size, MAX_DIM};
use crate::style::StyleContext;
use crate::widget::event::{Event, KeyEvent, KeyInput, MouseEvent};
use crate::widget::{
    eq_except_uids, layout_ok, measure, slot_assign_uids, slot_consumed, slot_depth,
    slot_event_step, slot_subtree_count, slot_wf, widget_slot_count, widget_uids_from, widget_wf,
    Change, ChildSlot, CursorIcon, EventCtx, Widget,
};
use crate::window_event;

verus! {

broadcast use crate::display::lemma_cmds_view_push;

/// Everything one event delivery produced: whether and by which node the
/// event was consumed, the cursor the tree requests, and the messages and
/// value changes published. The host drains these after each delivery.
pub struct DispatchOutcome<M> {
    pub consumed: bool,
    pub consumer: Option<usize>,
    pub cursor: CursorIcon,
    pub messages: Vec<M>,
    pub changes: Vec<Change>,
}


/// A freshly built event context for one delivery: the receiving size,
/// the default cursor, no consumer, the given target, and nothing
/// published yet.
pub open spec fn fresh_event_ctx<M>(c: EventCtx<M>, size: Size, target: Option<usize>) -> bool {
    &&& c.size == size
    &&& c.cursor == CursorIcon::Arrow
    &&& c.consumer is None
    &&& c.target == target
    &&& c.messages@ == Seq::<M>::empty()
    &&& c.changes@ == Seq::<Change>::empty()
}

/// The event context an outcome was drained from.
pub open spec fn outcome_ctx<M>(
    out: DispatchOutcome<M>,
    size: Size,
    target: Option<usize>,
) -> EventCtx<M> {
    EventCtx {
        size,
        cursor: out.cursor,
        consumer: out.consumer,
        target,
        messages: out.messages,
        changes: out.changes,
    }
}

/// One delivery of `e` through the root slot, from a fresh context with
/// the given target, whose results the outcome reports: the root\'s
/// transition is a slot dispatch step at every sufficient fuel, and the
/// outcome carries exactly the final context\'s consumer, cursor,
/// messages and changes.
pub open spec fn dispatched<M>(
    root0: ChildSlot<M>,
    e: Event,
    target: Option<usize>,
    root1: ChildSlot<M>,
    out: DispatchOutcome<M>,
) -> bool {
    exists|c0: EventCtx<M>|
        #[trigger] fresh_event_ctx(c0, root0.properties.size, target) && (forall|f: nat|
            f >= slot_depth(root0) ==> #[trigger] slot_event_step(
                f,
                root0,
                e,
                c0,
                root1,
                outcome_ctx(out, root0.properties.size, target),
            ))
}

pub struct UserInterface<M> {
    pub root: ChildSlot<M>,
    pub style_ctx: StyleContext,
    pub theme: String,
    pub mouse_move_consumer: Option<usize>,
}

impl<M: Copy> UserInterface<M> {
    /// Wrap a widget tree as the root of a window, give every slot a
    /// fresh id in a depth-first walk, and select a theme by name. The
    /// root wraps exactly the tree it was given — the same variants,
    /// fields and geometry everywhere, only the slot ids renumbered —
    /// with fresh root bookkeeping, and the style table holds the two
    /// built-in themes.
    pub fn new(root: Widget<M>, theme: &str) -> (r: UserInterface<M>)
        requires
            widget_wf(root),
        ensures
            slot_wf(r.root),
            eq_except_uids(root, *r.root.widget),
            r.root.properties.position == (Point { x: 0, y: 0 }),
            r.root.properties.size == (Size { width: 0, height: 0 }),
            !r.root.properties.has_mouse,
            r.root.properties.children@ == Seq::<usize>::empty(),
            1 + widget_slot_count(root) <= usize::MAX ==> r.root.uid == 0 && widget_uids_from(
                *r.root.widget,
                1,
            ),
            r.theme@ == theme@,
            r.mouse_move_consumer is None,
            r.style_ctx.entry_count() == 2,
            r.style_ctx.entry_name(0) == "light"@,
            r.style_ctx.entry_name(1) == "dark"@,
    {
        let mut slot = ChildSlot::new(root);
        let mut counter: usize = 0;
        proof {
            assert(slot_subtree_count(slot) == 1 + widget_slot_count(*slot.widget));
        }
        slot_assign_uids(&mut slot, &mut counter);
        UserInterface {
            root: slot,
            style_ctx: StyleContext::new(),
            theme: theme.to_owned(),
            mouse_move_consumer: None,
        }
    }

    /// Whether the tree accepts a layout pass at the given window size;
    /// `resize` requires exactly this. A host can test it before driving
    /// a pass.
    pub fn accepts_resize(&self, width: u32, height: u32) -> (r: bool)
        requires
            slot_wf(self.root),
        ensures
            r == layout_ok(
                *self.root.widget,
                BoxConstraints {
                    min_width: Some(width as i64),
                    max_width: Some(width as i64),
                    min_height: Some(height as i64),
                    max_height: Some(height as i64),
                },
            ),
    {
        let w = width as i64;
        let h = height as i64;
        let constraints = BoxConstraints::new().with_tight_constraints(w, h);
        proof {
            assert(constraints == (BoxConstraints {
                min_width: Some(w),
                max_width: Some(w),
                min_height: Some(h),
                max_height: Some(h),
            }));
        }
        self.root.widget.accepts_layout(&constraints)
    }

    /// Lay the tree out against tight constraints of the window's size.
    pub fn resize(&mut self, width: u32, height: u32)
        requires
            slot_wf(old(self).root),
            layout_ok(
                *old(self).root.widget,
                BoxConstraints {
                    min_width: Some(width as i64),
                    max_width: Some(width as i64),
                    min_height: Some(height as i64),
                    max_height: Some(height as i64),
                },
            ),
        ensures
            slot_wf(final(self).root),
            final(self).root.properties.size == measure(
                *old(self).root.widget,
                BoxConstraints {
                    min_width: Some(width as i64),
                    max_width: Some(width as i64),
                    min_height: Some(height as i64),
                    max_height: Some(height as i64),
                },
            ),
    {
        let w = width as i64;
        let h = height as i64;
        proof {
            assert(0 <= w <= MAX_DIM);
            assert(0 <= h <= MAX_DIM);
        }
        let constraints = BoxConstraints::new().with_tight_constraints(w, h);
        proof {
            assert(constraints == (BoxConstraints {
                min_width: Some(w),
                max_width: Some(w),
                min_height: Some(h),
                max_height: Some(h),
            }));
        }
        self.layout(&constraints);
    }

    /// One layout pass: hand the constraints to the root and store the
    /// size it reports.
    pub fn layout(&mut self, constraints: &BoxConstraints)
        requires
            slot_wf(old(self).root),
            constraints.wf(),
            layout_ok(*old(self).root.widget, *constraints),
        ensures
            slot_wf(final(self).root),
            final(self).root.properties.size == measure(*old(self).root.widget, *constraints),
            final(self).root.properties.position == old(self).root.properties.position,
            final(self).theme == old(self).theme,
            final(self).mouse_move_consumer == old(self).mouse_move_consumer,
    {
        let size = self.root.layout(constraints);
        self.root.set_size(&size);
    }

    /// Dispatch one already-translated event to the tree.
    fn dispatch(&mut self, event: &Event) -> (r: DispatchOutcome<M>)
        requires
            slot_wf(old(self).root),
            event.wf(),
        ensures
            slot_wf(final(self).root),
            r.consumed == slot_consumed(old(self).root, *event, None),
            dispatched(old(self).root, *event, None, final(self).root, r),
            final(self).root.properties.position == old(self).root.properties.position,
            final(self).root.properties.size == old(self).root.properties.size,
            final(self).theme == old(self).theme,
            final(self).mouse_move_consumer == old(self).mouse_move_consumer,
    {
        let mut ctx: EventCtx<M> = EventCtx::new(*self.root.size());
        let ghost c0 = ctx;
        let consumed = self.root.event(event, &mut ctx);
        let ghost cfin = ctx;
        let outcome = DispatchOutcome {
            consumed,
            consumer: ctx.consumer(),
            cursor: ctx.cursor(),
            messages: ctx.messages,
            changes: ctx.changes,
        };
        proof {
            assert(fresh_event_ctx(c0, old(self).root.properties.size, None::<usize>));
            assert(outcome_ctx(outcome, old(self).root.properties.size, None::<usize>) == cfin);
            assert forall|f: nat| f >= slot_depth(old(self).root) implies #[trigger] slot_event_step(
                f,
                old(self).root,
                *event,
                c0,
                self.root,
                outcome_ctx(outcome, old(self).root.properties.size, None::<usize>),
            ) by {
                assert(slot_event_step(f, old(self).root, *event, c0, self.root, cfin));
            }
        }
        outcome
    }

    /// Dispatch a synthetic event addressed at one node, bypassing hit
    /// testing.
    fn dispatch_targeted(&mut self, event: &Event, target: usize) -> (r: DispatchOutcome<M>)
        requires
            slot_wf(old(self).root),
            event.wf(),
        ensures
            slot_wf(final(self).root),
            dispatched(old(self).root, *event, Some(target), final(self).root, r),
            final(self).root.properties.position == old(self).root.properties.position,
            final(self).root.properties.size == old(self).root.properties.size,
            final(self).theme == old(self).theme,
            final(self).mouse_move_consumer == old(self).mouse_move_consumer,
    {
        let mut ctx: EventCtx<M> = EventCtx::new(*self.root.size());
        ctx.set_target(target);
        let ghost c0 = ctx;
        let consumed = self.root.event(event, &mut ctx);
        let ghost cfin = ctx;
        let outcome = DispatchOutcome {
            consumed,
            consumer: ctx.consumer(),
            cursor: ctx.cursor(),
            messages: ctx.messages,
            changes: ctx.changes,
        };
        proof {
            assert(fresh_event_ctx(c0, old(self).root.properties.size, Some(target)));
            assert(outcome_ctx(outcome, old(self).root.properties.size, Some(target)) == cfin);
            assert forall|f: nat| f >= slot_depth(old(self).root) implies #[trigger] slot_event_step(
                f,
                old(self).root,
                *event,
                c0,
                self.root,
                outcome_ctx(outcome, old(self).root.properties.size, Some(target)),
            ) by {
                assert(slot_event_step(f, old(self).root, *event, c0, self.root, cfin));
            }
        }
        outcome
    }

    /// Deliver a mouse press.
    pub fn mouse_down(&mut self, event: &window_event::MouseEvent) -> (r: DispatchOutcome<M>)
        requires
            slot_wf(old(self).root),
            event.wf(),
        ensures
            slot_wf(final(self).root),
            r.consumed == crate::widget::slot_consumed(
                old(self).root,
                Event::Mouse(MouseEvent::MouseDown(*event)),
                None,
            ),
            dispatched(old(self).root, Event::Mouse(MouseEvent::MouseDown(*event)), None, final(self).root, r),
    {
        self.dispatch(&Event::Mouse(MouseEvent::MouseDown(*event)))
    }

    /// Deliver a mouse release.
    pub fn mouse_up(&mut self, event: &window_event::MouseEvent) -> (r: DispatchOutcome<M>)
        requires
            slot_wf(old(self).root),
            event.wf(),
        ensures
            slot_wf(final(self).root),
            r.consumed == crate::widget::slot_consumed(
                old(self).root,
                Event::Mouse(MouseEvent::MouseUp(*event)),
                None,
            ),
            dispatched(old(self).root, Event::Mouse(MouseEvent::MouseUp(*event)), None, final(self).root, r),
    {
        self.dispatch(&Event::Mouse(MouseEvent::MouseUp(*event)))
    }

    /// Deliver a mouse drag.
    pub fn mouse_drag(&mut self, event: &window_event::MouseEvent) -> (r: DispatchOutcome<M>)
        requires
            slot_wf(old(self).root),
            event.wf(),
        ensures
            slot_wf(final(self).root),
            r.consumed == crate::widget::slot_consumed(
                old(self).root,
                Event::Mouse(MouseEvent::MouseDrag(*event)),
                None,
            ),
            dispatched(old(self).root, Event::Mouse(MouseEvent::MouseDrag(*event)), None, final(self).root, r),
    {
        self.dispatch(&Event::Mouse(MouseEvent::MouseDrag(*event)))
    }

    /// Deliver a mouse movement, tracking the top-level hover consumer:
    /// when the consuming node changes, the newcomer receives a targeted
    /// `MouseEnter` and the previous consumer a targeted `MouseLeave`
    /// (including when the pointer now consumes nowhere), re-targeted by
    /// the recorded consumer ids without re-running hit testing.
    pub fn mouse_moved(&mut self, event: &window_event::MouseEvent) -> (r: DispatchOutcome<M>)
        requires
            slot_wf(old(self).root),
            event.wf(),
        ensures
            slot_wf(final(self).root),
            final(self).mouse_move_consumer == r.consumer,
            r.consumed == slot_consumed(
                old(self).root,
                Event::Mouse(MouseEvent::MouseMove(*event)),
                None,
            ),
            exists|root_a: ChildSlot<M>|
                #[trigger] dispatched(
                    old(self).root,
                    Event::Mouse(MouseEvent::MouseMove(*event)),
                    None,
                    root_a,
                    r,
                ) && match (r.consumer, old(self).mouse_move_consumer) {
                    (Some(c), None) => exists|o2: DispatchOutcome<M>|
                        #[trigger] dispatched(
                            root_a,
                            Event::Mouse(MouseEvent::MouseEnter(*event)),
                            Some(c),
                            final(self).root,
                            o2,
                        ),
                    (Some(c), Some(p)) => if c != p {
                        exists|root_b: ChildSlot<M>, o2: DispatchOutcome<M>, o3: DispatchOutcome<M>|
                            #![trigger dispatched(
                                root_a,
                                Event::Mouse(MouseEvent::MouseEnter(*event)),
                                Some(c),
                                root_b,
                                o2,
                            ), dispatched(
                                root_b,
                                Event::Mouse(MouseEvent::MouseLeave(*event)),
                                Some(p),
                                final(self).root,
                                o3,
                            )]
                            dispatched(
                                root_a,
                                Event::Mouse(MouseEvent::MouseEnter(*event)),
                                Some(c),
                                root_b,
                                o2,
                            ) && dispatched(
                                root_b,
                                Event::Mouse(MouseEvent::MouseLeave(*event)),
                                Some(p),
                                final(self).root,
                                o3,
                            )
                    } else {
                        final(self).root == root_a
                    },
                    (None, Some(p)) => exists|o2: DispatchOutcome<M>|
                        #[trigger] dispatched(
                            root_a,
                            Event::Mouse(MouseEvent::MouseLeave(*event)),
                            Some(p),
                            final(self).root,
                            o2,
                        ),
                    (None, None) => final(self).root == root_a,
                },
    {
        let outcome = self.dispatch(&Event::Mouse(MouseEvent::MouseMove(*event)));
        let ghost root_a = self.root;
        match outcome.consumer {
            Some(consumer) => {
                match self.mouse_move_consumer {
                    None => {
                        let _ = self.dispatch_targeted(
                            &Event::Mouse(MouseEvent::MouseEnter(*event)),
                            consumer,
                        );
                    },
                    Some(previous) => {
                        if consumer != previous {
                            let _ = self.dispatch_targeted(
                                &Event::Mouse(MouseEvent::MouseEnter(*event)),
                                consumer,
                            );
                            let _ = self.dispatch_targeted(
                                &Event::Mouse(MouseEvent::MouseLeave(*event)),
                                previous,
                            );
                        }
                    },
                }
            },
            None => {
                if let Some(previous) = self.mouse_move_consumer {
                    let _ = self.dispatch_targeted(
                        &Event::Mouse(MouseEvent::MouseLeave(*event)),
                        previous,
                    );
                }
            },
        }
        self.mouse_move_consumer = outcome.consumer;
        proof {
            assert(dispatched(
                old(self).root,
                Event::Mouse(MouseEvent::MouseMove(*event)),
                None,
                root_a,
                outcome,
            ));
        }
        outcome
    }

    /// Deliver a raw key transition.
    pub fn keyboard_event(&mut self, input: &KeyInput) -> (r: DispatchOutcome<M>)
        requires
            slot_wf(old(self).root),
        ensures
            slot_wf(final(self).root),
            r.consumed == crate::widget::slot_consumed(
                old(self).root,
                Event::Key(KeyEvent::Input(*input)),
                None,
            ),
            dispatched(old(self).root, Event::Key(KeyEvent::Input(*input)), None, final(self).root, r),
    {
        self.dispatch(&Event::Key(KeyEvent::Input(*input)))
    }

    /// Deliver a typed character.
    pub fn character_received(&mut self, character: char) -> (r: DispatchOutcome<M>)
        requires
            slot_wf(old(self).root),
        ensures
            slot_wf(final(self).root),
            r.consumed == crate::widget::slot_consumed(
                old(self).root,
                Event::Key(KeyEvent::Char(character)),
                None,
            ),
            dispatched(old(self).root, Event::Key(KeyEvent::Char(character)), None, final(self).root, r),
    {
        self.dispatch(&Event::Key(KeyEvent::Char(character)))
    }

    /// Assemble the display list for one frame: clear to the theme's
    /// background, then the root's commands. The named theme must exist in
    /// the style table; a missing name is a configuration error.
    pub fn paint(&self) -> (r: Vec<DrawCmd>)
        requires
            slot_wf(self.root),
            exists|i: int|
                0 <= i < self.style_ctx.entry_count() && self.style_ctx.entry_name(i)
                    == self.theme@,
        ensures
            exists|i: int|
                0 <= i < self.style_ctx.entry_count() && self.style_ctx.entry_name(i)
                    == self.theme@ && cmds_view(r@) == seq![
                    CmdV::Clear(self.style_ctx.entry_theme(i).background),
                ] + crate::widget::slot_paint_spec(self.root, self.style_ctx.entry_theme(i)),
    {
        let theme = match self.style_ctx.theme(self.theme.as_str()) {
            Some(t) => t,
            None => {
                proof {
                    assert(false);
                }
                vstd::pervasive::unreached()
            },
        };
        let mut out: Vec<DrawCmd> = Vec::new();
        out.push(DrawCmd::Clear(theme.background));
        self.root.paint(theme, &mut out);
        out
    }
}

} // verus!
