//! A two-state toggle. A mouse-down flips it and reports the new state as
//! a value change; its highlight follows the pointer.

use vstd::prelude::*;

use crate::constraints::BoxConstraints;
use crate::display::{CmdV, DrawCmd, Paint};
use crate::geometry::{Point, Rect, Size};
use crate::style::Theme;
use crate::widget::event::{Event, MouseEvent};
use crate::widget::{Change, ChangeValue, EventCtx};

verus! {

broadcast use crate::display::lemma_cmds_view_push;

/// Whether the pointer is over the switch.
#[derive(Clone, Copy, Debug, PartialEq, Eq, Structural)]
pub enum SwitchState {
    Active,
    Inactive,
}

pub struct Switch {
    pub tag: Option<u64>,
    pub active: bool,
    pub state: SwitchState,
}

/// Whether a switch consumes the given event.
pub open spec fn switch_consumes(e: Event) -> bool {
    match e {
        Event::Mouse(me) => !(me is MouseDrag || me is MouseMove),
        Event::Key(_) => false,
    }
}

/// The pointer state after an event.
pub open spec fn switch_state_after(s: SwitchState, e: Event) -> SwitchState {
    match e {
        Event::Mouse(MouseEvent::MouseEnter(_)) => SwitchState::Active,
        Event::Mouse(MouseEvent::MouseLeave(_)) => SwitchState::Inactive,
        Event::Mouse(MouseEvent::MouseUp(_)) => SwitchState::Inactive,
        _ => s,
    }
}

/// The on/off value after an event: a mouse-down flips it.
pub open spec fn switch_active_after(active: bool, e: Event) -> bool {
    if e is Mouse && e->Mouse_0 is MouseDown {
        !active
    } else {
        active
    }
}

/// The change records a switch publishes on an event: the flipped value on
/// mouse-down, when a tag was registered.
pub open spec fn switch_changes(tag: Option<u64>, active: bool, e: Event) -> Seq<Change> {
    if e is Mouse && e->Mouse_0 is MouseDown && tag is Some {
        seq![Change { tag: tag->0, value: ChangeValue::Toggled(!active) }]
    } else {
        Seq::empty()
    }
}

/// The commands a switch paints: its gutter stroked then tinted, an empty
/// fill bar, its thumb, and a halo while the pointer is over it.
pub open spec fn switch_paint(s: Switch, theme: Theme, size: Size) -> Seq<CmdV> {
    let w = size.width as int;
    let h = size.height as int;
    let cy = h / 2;
    let gutter = h / 4;
    let thumb = gutter * 5 / 4;
    let halo = thumb * 3 / 2;
    let bar_y = cy - gutter / 2;
    let bar = Rect {
        origin: Point { x: 0, y: bar_y as i64 },
        size: Size { width: w as i64, height: gutter as i64 },
    };
    let empty_bar = Rect {
        origin: Point { x: 0, y: bar_y as i64 },
        size: Size { width: 0, height: gutter as i64 },
    };
    let tp = if s.active {
        w - thumb / 2
    } else {
        0
    };
    let fill = theme.slider.fill;
    let base = seq![
        CmdV::RoundedRect(bar, 4, 4, Paint { color: fill, stroke: true }),
        CmdV::RoundedRect(bar, 4, 4, Paint { color: fill.with_a(64), stroke: false }),
        CmdV::RoundedRect(empty_bar, 4, 4, Paint { color: fill.with_a(255), stroke: false }),
        CmdV::Circle(
            Point { x: tp as i64, y: cy as i64 },
            thumb,
            Paint { color: fill.with_a(255), stroke: false },
        ),
    ];
    if s.state is Active {
        base + seq![
            CmdV::Circle(
                Point { x: tp as i64, y: cy as i64 },
                halo,
                Paint { color: fill.with_a(64), stroke: false },
            ),
        ]
    } else {
        base
    }
}

impl Switch {
    /// An off switch with no tag, unhighlighted.
    pub fn new() -> (r: Switch)
        ensures
            r.tag is None,
            !r.active,
            r.state == SwitchState::Inactive,
    {
        Switch { tag: None, active: false, state: SwitchState::Inactive }
    }

    /// Set the initial on/off value.
    pub fn active(self, state: bool) -> (r: Switch)
        ensures
            r == (Switch { active: state, ..self }),
    {
        Switch { active: state, ..self }
    }

    /// Register the tag under which toggles are reported.
    pub fn value_changed(self, tag: u64) -> (r: Switch)
        ensures
            r == (Switch { tag: Some(tag), ..self }),
    {
        Switch { tag: Some(tag), ..self }
    }

    /// React to an event: follow the pointer, flip on mouse-down and
    /// report the new value.
    pub fn event<M>(&mut self, event: &Event, ctx: &mut EventCtx<M>) -> (r: bool)
        ensures
            r == switch_consumes(*event),
            *final(self) == (Switch {
                state: switch_state_after(old(self).state, *event),
                active: switch_active_after(old(self).active, *event),
                ..*old(self)
            }),
            final(ctx).changes@ == old(ctx).changes@ + switch_changes(
                old(self).tag,
                old(self).active,
                *event,
            ),
            *final(ctx) == (EventCtx { changes: final(ctx).changes, ..*old(ctx) }),
    {
        match event {
            Event::Mouse(MouseEvent::MouseEnter(_)) => {
                self.state = SwitchState::Active;
                true
            },
            Event::Mouse(MouseEvent::MouseLeave(_)) => {
                self.state = SwitchState::Inactive;
                true
            },
            Event::Mouse(MouseEvent::MouseDown(_)) => {
                self.active = !self.active;
                if let Some(tag) = self.tag {
                    ctx.push_change(Change { tag, value: ChangeValue::Toggled(self.active) });
                }
                true
            },
            Event::Mouse(MouseEvent::MouseUp(_)) => {
                self.state = SwitchState::Inactive;
                true
            },
            _ => false,
        }
    }

    /// A switch fills whatever space it is offered, so it demands a bound
    /// on both axes.
    pub fn layout(&mut self, constraints: &BoxConstraints) -> (r: Size)
        requires
            constraints.spec_has_max(),
        ensures
            *final(self) == *old(self),
            r == (Size {
                width: constraints.max_width->0,
                height: constraints.max_height->0,
            }),
    {
        let width = match constraints.max_width() {
            Some(w) => w,
            None => 0,
        };
        let height = match constraints.max_height() {
            Some(h) => h,
            None => 0,
        };
        Size { width, height }
    }

    /// Append the switch's drawing commands.
    pub fn paint(&self, theme: &Theme, size: Size, out: &mut Vec<DrawCmd>)
        requires
            size.wf(),
        ensures
            crate::display::cmds_view(final(out)@) == crate::display::cmds_view(old(out)@)
                + switch_paint(*self, *theme, size),
    {
        let w = size.width;
        let h = size.height;
        let cy = h / 2;
        let gutter = h / 4;
        let thumb = gutter * 5 / 4;
        let halo = thumb * 3 / 2;
        let bar_y = cy - gutter / 2;
        let bar = Rect {
            origin: Point { x: 0, y: bar_y },
            size: Size { width: w, height: gutter },
        };
        let empty_bar = Rect {
            origin: Point { x: 0, y: bar_y },
            size: Size { width: 0, height: gutter },
        };
        let tp = if self.active {
            w - thumb / 2
        } else {
            0
        };
        let fill = theme.slider.fill;
        out.push(DrawCmd::RoundedRect(bar, 4, 4, Paint::new(fill).with_stroke(true)));
        out.push(DrawCmd::RoundedRect(bar, 4, 4, Paint::new(fill.with_a(64))));
        out.push(DrawCmd::RoundedRect(empty_bar, 4, 4, Paint::new(fill.with_a(255))));
        out.push(DrawCmd::Circle(Point { x: tp, y: cy }, thumb, Paint::new(fill.with_a(255))));
        if let SwitchState::Active = self.state {
            out.push(DrawCmd::Circle(Point { x: tp, y: cy }, halo, Paint::new(fill.with_a(64))));
        }
        proof {
            assert(crate::display::cmds_view(out@) =~= crate::display::cmds_view(old(out)@)
                + switch_paint(*self, *theme, size));
        }
    }
}

impl Default for Switch {
    fn default() -> (r: Switch)
        ensures
            r.tag is None,
            !r.active,
            r.state == SwitchState::Inactive,
    {
        Switch::new()
    }
}

} // verus!
