//! A push button with a text face. Its state machine follows the pointer
//! (inactive, hover, pressed) and it publishes its message on mouse-up.

use vstd::prelude::*;

use crate::constraints::BoxConstraints;
use crate::display::{CmdV, DrawCmd, Paint};
use crate::geometry::{clamp_dim, Rect, Size};
use crate::style::{Font, Theme};
use crate::widget::event::{Event, MouseEvent};
use crate::widget::EventCtx;

verus! {

broadcast use crate::display::lemma_cmds_view_push;

/// Largest font size a widget accepts; keeps glyph-metric arithmetic small.
pub const MAX_FONT_SIZE: i64 = 1024;

/// Longest text length that counts toward a natural width.
pub const MAX_MEASURED_TEXT: usize = 0x10000;

/// The pointer-driven state of a button.
#[derive(Clone, Copy, Debug, PartialEq, Eq, Structural)]
pub enum ButtonState {
    Inactive,
    Active,
    Hover,
}

/// How a button draws itself; purely visual.
#[derive(Clone, Copy, Debug, PartialEq, Eq, Structural)]
pub enum ButtonStyle {
    Text,
    Outline,
    Fill,
}

pub struct TextButton<M> {
    pub state: ButtonState,
    pub style: ButtonStyle,
    pub text: String,
    pub font: Font,
    pub on_click: Option<M>,
}

/// Whether a button consumes the given event: every plain pointer event
/// except a drag; never keyboard input.
pub open spec fn button_consumes(e: Event) -> bool {
    match e {
        Event::Mouse(me) => !(me is MouseDrag),
        Event::Key(_) => false,
    }
}

/// The button state after an event.
pub open spec fn button_state_after(s: ButtonState, e: Event) -> ButtonState {
    match e {
        Event::Mouse(MouseEvent::MouseEnter(_)) => ButtonState::Hover,
        Event::Mouse(MouseEvent::MouseMove(_)) => ButtonState::Hover,
        Event::Mouse(MouseEvent::MouseLeave(_)) => ButtonState::Inactive,
        Event::Mouse(MouseEvent::MouseDown(_)) => ButtonState::Active,
        Event::Mouse(MouseEvent::MouseUp(_)) => ButtonState::Inactive,
        _ => s,
    }
}

/// The messages a button publishes on an event: its click message on
/// mouse-up, when one was registered.
pub open spec fn button_published<M>(on_click: Option<M>, e: Event) -> Seq<M> {
    if e is Mouse && e->Mouse_0 is MouseUp && on_click is Some {
        seq![on_click->0]
    } else {
        Seq::empty()
    }
}

/// The nominal advance of a text at `size` pixels: three fifths of an em
/// per encoded byte, with very long text capped. Text shaping is the
/// canvas backend's job; this is only the intrinsic size the layout
/// negotiates with.
pub open spec fn text_nat_width(text: Seq<char>, size: int) -> int {
    let len = (vstd::utf8::encode_utf8(text).len() as usize) as int;
    let capped = if len > MAX_MEASURED_TEXT { MAX_MEASURED_TEXT as int } else { len };
    clamp_dim(capped * size * 3 / 5)
}

/// The nominal line height at `size` pixels: one and a half ems.
pub open spec fn text_nat_height(size: int) -> int {
    clamp_dim(size * 3 / 2)
}

/// The size a button reports: the offered maximum where present, else its
/// natural text extent.
pub open spec fn button_measure<M>(b: TextButton<M>, c: BoxConstraints) -> Size {
    let w = match c.max_width {
        Some(mw) => mw as int,
        None => text_nat_width(b.text@, b.font.size as int),
    };
    let h = match c.max_height {
        Some(mh) => mh as int,
        None => text_nat_height(b.font.size as int),
    };
    Size { width: w as i64, height: h as i64 }
}

/// The commands a button paints, in order: its background plate for the
/// current state and style, then its text.
pub open spec fn button_paint<M>(b: TextButton<M>, theme: Theme, size: Size) -> Seq<CmdV> {
    let rect = Rect { origin: crate::geometry::Point { x: 0, y: 0 }, size };
    let rd = theme.button.rounding as int;
    let text_cmd = |color: crate::style::Color|
        CmdV::Text(
            rect,
            b.text@,
            b.font.family@,
            b.font.size as int,
            Paint { color, stroke: false },
        );
    match b.style {
        ButtonStyle::Fill => {
            let bg = match b.state {
                ButtonState::Inactive => theme.primary.with_a(200),
                ButtonState::Active => theme.primary,
                ButtonState::Hover => theme.primary.with_a(230),
            };
            seq![
                CmdV::RoundedRect(rect, rd, rd, Paint { color: bg, stroke: false }),
                text_cmd(theme.text),
            ]
        },
        ButtonStyle::Outline => {
            let outline = seq![
                CmdV::RoundedRect(rect, rd, rd, Paint { color: theme.primary, stroke: true }),
            ];
            let overlay = match b.state {
                ButtonState::Inactive => Seq::<CmdV>::empty(),
                ButtonState::Active => seq![
                    CmdV::RoundedRect(
                        rect,
                        rd,
                        rd,
                        Paint { color: theme.primary.with_a(100), stroke: false },
                    ),
                ],
                ButtonState::Hover => seq![
                    CmdV::RoundedRect(
                        rect,
                        rd,
                        rd,
                        Paint { color: theme.primary.with_a(50), stroke: false },
                    ),
                ],
            };
            outline + overlay + seq![text_cmd(theme.primary)]
        },
        ButtonStyle::Text => {
            let overlay = match b.state {
                ButtonState::Inactive => Seq::<CmdV>::empty(),
                ButtonState::Active => seq![
                    CmdV::RoundedRect(
                        rect,
                        rd,
                        rd,
                        Paint { color: theme.primary.with_a(100), stroke: false },
                    ),
                ],
                ButtonState::Hover => seq![
                    CmdV::RoundedRect(
                        rect,
                        rd,
                        rd,
                        Paint { color: theme.primary.with_a(50), stroke: false },
                    ),
                ],
            };
            overlay + seq![text_cmd(theme.primary)]
        },
    }
}

impl<M> TextButton<M> {
    /// Every numeric field is in range.
    pub open spec fn wf(self) -> bool {
        0 <= self.font.size <= MAX_FONT_SIZE
    }

    /// A button showing `text` in a monospace font of `font_size` pixels
    /// (clamped to `[0, MAX_FONT_SIZE]`), drawn outlined, with no click
    /// message.
    pub fn new(text: &str, font_size: i64) -> (r: TextButton<M>)
        ensures
            r.state == ButtonState::Inactive,
            r.style == ButtonStyle::Outline,
            r.text@ == text@,
            r.font.family@ == "Monospace"@,
            r.font.size == if font_size < 0 {
                0i64
            } else if font_size > MAX_FONT_SIZE {
                MAX_FONT_SIZE
            } else {
                font_size
            },
            r.on_click is None,
            r.wf(),
    {
        let size = if font_size < 0 {
            0
        } else if font_size > MAX_FONT_SIZE {
            MAX_FONT_SIZE
        } else {
            font_size
        };
        TextButton {
            state: ButtonState::Inactive,
            style: ButtonStyle::Outline,
            text: text.to_owned(),
            font: Font { family: "Monospace".to_owned(), size },
            on_click: None,
        }
    }

    /// Replace the visual style.
    pub fn style(self, style: ButtonStyle) -> (r: TextButton<M>)
        ensures
            r == (TextButton { style, ..self }),
    {
        TextButton { style, ..self }
    }

    /// Register the message published when the button is clicked.
    pub fn on_click(self, message: M) -> (r: TextButton<M>)
        ensures
            r == (TextButton { on_click: Some(message), ..self }),
    {
        TextButton { on_click: Some(message), ..self }
    }
}

impl<M: Copy> TextButton<M> {
    /// React to an event: track the pointer through the state machine and
    /// publish the click message on mouse-up.
    pub fn event(&mut self, event: &Event, ctx: &mut EventCtx<M>) -> (r: bool)
        ensures
            r == button_consumes(*event),
            *final(self) == (TextButton {
                state: button_state_after(old(self).state, *event),
                ..*old(self)
            }),
            final(ctx).messages@ == old(ctx).messages@ + button_published(
                old(self).on_click,
                *event,
            ),
            *final(ctx) == (EventCtx { messages: final(ctx).messages, ..*old(ctx) }),
    {
        match event {
            Event::Mouse(MouseEvent::MouseEnter(_)) => {
                self.state = ButtonState::Hover;
                true
            },
            Event::Mouse(MouseEvent::MouseMove(_)) => {
                self.state = ButtonState::Hover;
                true
            },
            Event::Mouse(MouseEvent::MouseLeave(_)) => {
                self.state = ButtonState::Inactive;
                true
            },
            Event::Mouse(MouseEvent::MouseDown(_)) => {
                self.state = ButtonState::Active;
                true
            },
            Event::Mouse(MouseEvent::MouseUp(_)) => {
                if let Some(message) = &self.on_click {
                    ctx.publish(*message);
                }
                self.state = ButtonState::Inactive;
                true
            },
            _ => false,
        }
    }
}

impl<M> TextButton<M> {
    /// Report the button's size: the offered maximum, or its natural text
    /// extent on an unbounded axis.
    pub fn layout(&mut self, constraints: &BoxConstraints) -> (r: Size)
        requires
            old(self).wf(),
            constraints.wf(),
        ensures
            *final(self) == *old(self),
            r == button_measure(*old(self), *constraints),
            r.wf(),
    {
        let width = match constraints.max_width() {
            Some(mw) => mw,
            None => self.font_nat_width(),
        };
        let height = match constraints.max_height() {
            Some(mh) => mh,
            None => {
                let h = self.font.size * 3 / 2;
                crate::geometry::clamp_dim_exec(h)
            },
        };
        Size { width, height }
    }

    /// The natural width of the button's text.
    pub fn font_nat_width(&self) -> (r: i64)
        requires
            self.wf(),
        ensures
            r == text_nat_width(self.text@, self.font.size as int),
    {
        let len = self.text.as_str().len();
        let capped: usize = if len > MAX_MEASURED_TEXT {
            MAX_MEASURED_TEXT
        } else {
            len
        };
        let cap_i: i64 = capped as i64;
        let fsize: i64 = self.font.size;
        proof {
            assert(0 <= cap_i * fsize <= 0x10000i64 * 1024) by (nonlinear_arith)
                requires
                    0 <= cap_i <= 0x10000i64,
                    0 <= fsize <= 1024i64,
            ;
        }
        crate::geometry::clamp_dim_exec(cap_i * fsize * 3 / 5)
    }

    /// Append the button's drawing commands for its current state.
    pub fn paint(&self, theme: &Theme, size: Size, out: &mut Vec<DrawCmd>)
        ensures
            crate::display::cmds_view(final(out)@) == crate::display::cmds_view(old(out)@)
                + button_paint(*self, *theme, size),
    {
        let rect = Rect::from_size(size);
        let rd = theme.button.rounding;
        let ghost base = crate::display::cmds_view(old(out)@);
        match self.style {
            ButtonStyle::Fill => {
                let bg = match self.state {
                    ButtonState::Inactive => theme.primary.with_a(200),
                    ButtonState::Active => theme.primary,
                    ButtonState::Hover => theme.primary.with_a(230),
                };
                out.push(DrawCmd::RoundedRect(rect, rd, rd, Paint::new(bg)));
                self.push_text(theme.text, rect, out);
                proof {
                    assert(crate::display::cmds_view(out@) =~= base + button_paint(
                        *self,
                        *theme,
                        size,
                    ));
                }
            },
            ButtonStyle::Outline => {
                out.push(
                    DrawCmd::RoundedRect(rect, rd, rd, Paint::new(theme.primary).with_stroke(true)),
                );
                match self.state {
                    ButtonState::Inactive => (),
                    ButtonState::Active => out.push(
                        DrawCmd::RoundedRect(rect, rd, rd, Paint::new(theme.primary.with_a(100))),
                    ),
                    ButtonState::Hover => out.push(
                        DrawCmd::RoundedRect(rect, rd, rd, Paint::new(theme.primary.with_a(50))),
                    ),
                }
                self.push_text(theme.primary, rect, out);
                proof {
                    assert(crate::display::cmds_view(out@) =~= base + button_paint(
                        *self,
                        *theme,
                        size,
                    ));
                }
            },
            ButtonStyle::Text => {
                match self.state {
                    ButtonState::Inactive => (),
                    ButtonState::Active => out.push(
                        DrawCmd::RoundedRect(rect, rd, rd, Paint::new(theme.primary.with_a(100))),
                    ),
                    ButtonState::Hover => out.push(
                        DrawCmd::RoundedRect(rect, rd, rd, Paint::new(theme.primary.with_a(50))),
                    ),
                }
                self.push_text(theme.primary, rect, out);
                proof {
                    assert(crate::display::cmds_view(out@) =~= base + button_paint(
                        *self,
                        *theme,
                        size,
                    ));
                }
            },
        }
    }

    fn push_text(&self, color: crate::style::Color, rect: Rect, out: &mut Vec<DrawCmd>)
        ensures
            crate::display::cmds_view(final(out)@) == crate::display::cmds_view(old(out)@).push(
                CmdV::Text(
                    rect,
                    self.text@,
                    self.font.family@,
                    self.font.size as int,
                    Paint { color, stroke: false },
                ),
            ),
    {
        let text = self.text.clone();
        let font = Font { family: self.font.family.clone(), size: self.font.size };
        out.push(DrawCmd::Text(rect, text, font, Paint::new(color)));
    }
}

} // verus!
