//! A horizontal slider over an integer range. Pressing or dragging moves
//! the thumb to the pointer and reports the mapped value as a change.

use vstd::prelude::*;

use crate::constraints::BoxConstraints;
use crate::display::{CmdV, DrawCmd, Paint};
use crate::geometry::{Point, Rect, Size};
use crate::style::Theme;
use crate::widget::event::{Event, MouseEvent};
use crate::widget::{Change, ChangeValue, EventCtx};

verus! {

broadcast use crate::display::lemma_cmds_view_push;

/// Largest magnitude a slider's range may have.
pub const MAX_SLIDER: i64 = 0x10_0000;

/// Whether the pointer is engaged with the slider.
#[derive(Clone, Copy, Debug, PartialEq, Eq, Structural)]
pub enum SliderState {
    Active,
    Inactive,
}

pub struct Slider {
    pub min: i64,
    pub max: i64,
    pub discrete: bool,
    pub value: i64,
    pub last_position: i64,
    pub tag: Option<u64>,
    pub state: SliderState,
}

/// Clamp an x coordinate into the slider's track `[0, width]`.
pub open spec fn track_clamp(x: int, width: int) -> int {
    if x < 0 {
        0
    } else if x > width {
        width
    } else {
        x
    }
}

/// The value at track position `x` of `width`: the linear map of
/// `[0, width]` onto `[min, max]`, rounded down for a continuous slider
/// and to the nearest value for a discrete one.
pub open spec fn slider_value_at(min: int, max: int, x: int, width: int, discrete: bool) -> int {
    if width <= 0 {
        min
    } else {
        let scaled = (max - min) * track_clamp(x, width);
        if discrete {
            min + (scaled + width / 2) / width
        } else {
            min + scaled / width
        }
    }
}

/// Whether a slider consumes the given event: everything a pointer does
/// to it except plain movement; never keyboard input.
pub open spec fn slider_consumes(e: Event) -> bool {
    match e {
        Event::Mouse(me) => !(me is MouseMove),
        Event::Key(_) => false,
    }
}

/// The engagement state after an event.
pub open spec fn slider_state_after(s: SliderState, e: Event) -> SliderState {
    match e {
        Event::Mouse(MouseEvent::MouseEnter(_)) => SliderState::Active,
        Event::Mouse(MouseEvent::MouseLeave(_)) => SliderState::Inactive,
        Event::Mouse(MouseEvent::MouseUp(_)) => SliderState::Inactive,
        _ => s,
    }
}

/// Whether the event moves the thumb.
pub open spec fn slider_tracks(e: Event) -> bool {
    e is Mouse && (e->Mouse_0 is MouseDown || e->Mouse_0 is MouseDrag)
}

/// The change records a slider publishes on an event: the newly mapped
/// value on mouse-down or drag, when a tag was registered.
pub open spec fn slider_changes(tag: Option<u64>, value: int, e: Event) -> Seq<Change> {
    if slider_tracks(e) && tag is Some {
        seq![Change { tag: tag->0, value: ChangeValue::Slid(value as i64) }]
    } else {
        Seq::empty()
    }
}

/// The commands a slider paints: its gutter stroked then tinted, the
/// filled part up to the thumb, the thumb, and a halo while engaged.
pub open spec fn slider_paint(s: Slider, theme: Theme, size: Size) -> Seq<CmdV> {
    let w = size.width as int;
    let h = size.height as int;
    let cy = h / 2;
    let gutter = h / 8;
    let thumb = gutter * 3 / 2;
    let halo = thumb * 5 / 2;
    let bar_y = cy - gutter / 2;
    let bar = Rect {
        origin: Point { x: 0, y: bar_y as i64 },
        size: Size { width: w as i64, height: gutter as i64 },
    };
    let done_bar = Rect {
        origin: Point { x: 0, y: bar_y as i64 },
        size: Size { width: s.last_position, height: gutter as i64 },
    };
    let fill = theme.slider.fill;
    let base = seq![
        CmdV::RoundedRect(bar, 4, 4, Paint { color: fill, stroke: true }),
        CmdV::RoundedRect(bar, 4, 4, Paint { color: fill.with_a(64), stroke: false }),
        CmdV::RoundedRect(done_bar, 4, 4, Paint { color: fill.with_a(255), stroke: false }),
        CmdV::Circle(
            Point { x: s.last_position, y: cy as i64 },
            thumb,
            Paint { color: fill.with_a(255), stroke: false },
        ),
    ];
    if s.state is Active {
        base + seq![
            CmdV::Circle(
                Point { x: s.last_position, y: cy as i64 },
                halo,
                Paint { color: fill.with_a(64), stroke: false },
            ),
        ]
    } else {
        base
    }
}

impl Slider {
    /// The range is ordered and bounded, the value inside it, and the
    /// thumb position inside the coordinate range.
    pub open spec fn wf(self) -> bool {
        &&& -MAX_SLIDER <= self.min <= self.max <= MAX_SLIDER
        &&& self.min <= self.value <= self.max
        &&& 0 <= self.last_position <= crate::geometry::MAX_DIM
    }

    /// A slider over `[min, max]` (clamped to `[-MAX_SLIDER, MAX_SLIDER]`
    /// and ordered) starting at `value` (clamped into the range).
    pub fn new(min: i64, max: i64, value: i64, discrete: bool) -> (r: Slider)
        ensures
            r.wf(),
            r.discrete == discrete,
            r.tag is None,
            r.state == SliderState::Inactive,
            r.last_position == 0,
            -MAX_SLIDER <= min <= max <= MAX_SLIDER && min <= value <= max ==> r.min == min
                && r.max == max && r.value == value,
    {
        let min_c = if min < -MAX_SLIDER {
            -MAX_SLIDER
        } else if min > MAX_SLIDER {
            MAX_SLIDER
        } else {
            min
        };
        let max_c = if max < min_c {
            min_c
        } else if max > MAX_SLIDER {
            MAX_SLIDER
        } else {
            max
        };
        let value_c = if value < min_c {
            min_c
        } else if value > max_c {
            max_c
        } else {
            value
        };
        Slider {
            min: min_c,
            max: max_c,
            discrete,
            value: value_c,
            last_position: 0,
            tag: None,
            state: SliderState::Inactive,
        }
    }

    /// Register the tag under which value changes are reported.
    pub fn value_changed(self, tag: u64) -> (r: Slider)
        ensures
            r == (Slider { tag: Some(tag), ..self }),
    {
        Slider { tag: Some(tag), ..self }
    }

    /// Move the slider to `value`, clamped into its range.
    pub fn set_value(&mut self, value: i64)
        requires
            old(self).wf(),
        ensures
            final(self).value == if value < old(self).min {
                old(self).min
            } else if value > old(self).max {
                old(self).max
            } else {
                value
            },
            *final(self) == (Slider { value: final(self).value, ..*old(self) }),
            final(self).wf(),
    {
        self.value = if value < self.min {
            self.min
        } else if value > self.max {
            self.max
        } else {
            value
        };
    }

    /// React to an event: engage with the pointer, and on press or drag
    /// move the thumb to the pointer and report the mapped value.
    pub fn event<M>(&mut self, event: &Event, ctx: &mut EventCtx<M>) -> (r: bool)
        requires
            old(self).wf(),
            event.wf(),
            old(ctx).size.wf(),
        ensures
            r == slider_consumes(*event),
            final(self).state == slider_state_after(old(self).state, *event),
            final(self).min == old(self).min,
            final(self).max == old(self).max,
            final(self).discrete == old(self).discrete,
            final(self).tag == old(self).tag,
            slider_tracks(*event) ==> final(self).last_position == track_clamp(
                event->Mouse_0.spec_raw().local_position.x as int,
                old(ctx).size.width as int,
            ) && final(self).value == slider_value_at(
                old(self).min as int,
                old(self).max as int,
                event->Mouse_0.spec_raw().local_position.x as int,
                old(ctx).size.width as int,
                old(self).discrete,
            ),
            !slider_tracks(*event) ==> final(self).last_position == old(self).last_position
                && final(self).value == old(self).value,
            final(ctx).changes@ == old(ctx).changes@ + slider_changes(
                old(self).tag,
                final(self).value as int,
                *event,
            ),
            *final(ctx) == (EventCtx { changes: final(ctx).changes, ..*old(ctx) }),
            final(self).wf(),
    {
        match event {
            Event::Mouse(MouseEvent::MouseEnter(_)) => {
                self.state = SliderState::Active;
                true
            },
            Event::Mouse(MouseEvent::MouseLeave(_)) => {
                self.state = SliderState::Inactive;
                true
            },
            Event::Mouse(MouseEvent::MouseUp(_)) => {
                self.state = SliderState::Inactive;
                true
            },
            Event::Mouse(MouseEvent::MouseDown(e)) => {
                self.track_to(e.local_position().x, ctx);
                true
            },
            Event::Mouse(MouseEvent::MouseDrag(e)) => {
                self.track_to(e.local_position().x, ctx);
                true
            },
            _ => false,
        }
    }

    /// Move the thumb to pointer position `x` and report the new value.
    fn track_to<M>(&mut self, x: i64, ctx: &mut EventCtx<M>)
        requires
            old(self).wf(),
            crate::geometry::valid_coord(x as int),
            old(ctx).size.wf(),
        ensures
            final(self).last_position == track_clamp(x as int, old(ctx).size.width as int),
            final(self).value == slider_value_at(
                old(self).min as int,
                old(self).max as int,
                x as int,
                old(ctx).size.width as int,
                old(self).discrete,
            ),
            *final(self) == (Slider {
                last_position: final(self).last_position,
                value: final(self).value,
                ..*old(self)
            }),
            final(ctx).changes@ == old(ctx).changes@ + if old(self).tag is Some {
                seq![
                    Change {
                        tag: old(self).tag->0,
                        value: ChangeValue::Slid(final(self).value),
                    },
                ]
            } else {
                Seq::<Change>::empty()
            },
            *final(ctx) == (EventCtx { changes: final(ctx).changes, ..*old(ctx) }),
            final(self).wf(),
    {
        let width = ctx.size.width;
        let lp = if x < 0 {
            0
        } else if x > width {
            width
        } else {
            x
        };
        self.last_position = lp;
        if width <= 0 {
            self.value = self.min;
        } else {
            let range = self.max - self.min;
            proof {
                let ri = range as int;
                let li = lp as int;
                let wi = width as int;
                assert(0 <= ri * li <= ri * wi) by (nonlinear_arith)
                    requires
                        0 <= ri,
                        0 <= li <= wi,
                ;
                assert(ri * li / wi <= ri) by (nonlinear_arith)
                    requires
                        0 <= ri,
                        0 < wi,
                        ri * li <= ri * wi,
                ;
                assert(ri * li <= 0x200000 * 0x100_0000_0000) by (nonlinear_arith)
                    requires
                        0 <= ri <= 0x200000,
                        0 <= li <= 0x100_0000_0000,
                ;
                assert(0 <= (ri * li + wi / 2) / wi <= ri) by (nonlinear_arith)
                    requires
                        0 <= ri,
                        0 < wi,
                        0 <= ri * li <= ri * wi,
                ;
            }
            if self.discrete {
                self.value = self.min + (range * lp + width / 2) / width;
            } else {
                self.value = self.min + range * lp / width;
            }
        }
        if let Some(tag) = self.tag {
            ctx.push_change(Change { tag, value: ChangeValue::Slid(self.value) });
        }
    }

    /// A slider fills whatever space it is offered, so it demands a bound
    /// on both axes.
    pub fn layout(&mut self, constraints: &BoxConstraints) -> (r: Size)
        requires
            constraints.spec_has_max(),
        ensures
            *final(self) == *old(self),
            r == (Size {
                width: constraints.max_width->0,
                height: constraints.max_height->0,
            }),
    {
        let width = match constraints.max_width() {
            Some(w) => w,
            None => 0,
        };
        let height = match constraints.max_height() {
            Some(h) => h,
            None => 0,
        };
        Size { width, height }
    }

    /// Append the slider's drawing commands.
    pub fn paint(&self, theme: &Theme, size: Size, out: &mut Vec<DrawCmd>)
        requires
            size.wf(),
            self.wf(),
        ensures
            crate::display::cmds_view(final(out)@) == crate::display::cmds_view(old(out)@)
                + slider_paint(*self, *theme, size),
    {
        let w = size.width;
        let h = size.height;
        let cy = h / 2;
        let gutter = h / 8;
        let thumb = gutter * 3 / 2;
        let halo = thumb * 5 / 2;
        let bar_y = cy - gutter / 2;
        let bar = Rect {
            origin: Point { x: 0, y: bar_y },
            size: Size { width: w, height: gutter },
        };
        let done_bar = Rect {
            origin: Point { x: 0, y: bar_y },
            size: Size { width: self.last_position, height: gutter },
        };
        let fill = theme.slider.fill;
        out.push(DrawCmd::RoundedRect(bar, 4, 4, Paint::new(fill).with_stroke(true)));
        out.push(DrawCmd::RoundedRect(bar, 4, 4, Paint::new(fill.with_a(64))));
        out.push(DrawCmd::RoundedRect(done_bar, 4, 4, Paint::new(fill.with_a(255))));
        out.push(
            DrawCmd::Circle(
                Point { x: self.last_position, y: cy },
                thumb,
                Paint::new(fill.with_a(255)),
            ),
        );
        if let SliderState::Active = self.state {
            out.push(
                DrawCmd::Circle(
                    Point { x: self.last_position, y: cy },
                    halo,
                    Paint::new(fill.with_a(64)),
                ),
            );
        }
        proof {
            assert(crate::display::cmds_view(out@) =~= crate::display::cmds_view(old(out)@)
                + slider_paint(*self, *theme, size));
        }
    }
}

impl Default for Slider {
    /// A unit slider at zero.
    fn default() -> (r: Slider)
        ensures
            r.wf(),
    {
        Slider::new(0, 1, 0, false)
    }
}

} // verus!
