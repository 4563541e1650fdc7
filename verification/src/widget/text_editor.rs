//! A single-line text box: an editor state of characters with a caret,
//! driven by keyboard input, committed with the enter key.
//!
//! The caret is an index into the character sequence and is kept inside
//! `[0, len]`; backspace at the start and arrow keys at either end are
//! no-ops rather than underflowing.

use vstd::prelude::*;
use vstd::std_specs::iter::IteratorSpec;

use crate::constraints::BoxConstraints;
use crate::display::{CmdV, DrawCmd, Paint};
use crate::geometry::{clamp_dim, Point, Rect, Size};
use crate::style::{Color, Theme};
use crate::widget::event::{Event, Key, KeyEvent, MouseEvent};
use crate::widget::{Change, ChangeValue, CursorIcon, EventCtx};

verus! {

broadcast use
    crate::display::lemma_cmds_view_push,
    vstd::string::next_postcondition,
    vstd::string::axiom_spec_iter,
;

/// The nominal line height of the editor's 18 pixel text.
pub const TEXT_LINE_HEIGHT: i64 = 27;

/// The nominal advance of one edited character, in pixels.
pub const TEXT_ADVANCE: i64 = 10;

/// Longest selection that counts toward the highlight's width.
pub const MAX_SELECTION: usize = 0x10000;

/// The collected characters of a string slice.
pub fn str_chars(s: &str) -> (r: Vec<char>)
    ensures
        r@ == s@,
{
    let mut it = s.chars();
    let mut out: Vec<char> = Vec::new();
    loop
        invariant_except_break
            out@ + it.remaining() == s@,
            it.decrease() is Some,
        ensures
            out@ == s@,
        decreases it.decrease()->0,
    {
        match it.next() {
            Some(c) => out.push(c),
            None => {
                break ;
            },
        }
    }
    out
}

/// The editable state of a text box: its characters, the caret index, and
/// the selected range.
pub struct EditorState {
    pub text: Vec<char>,
    pub caret_position: usize,
    pub selection_start: usize,
    pub selection_end: usize,
}

impl EditorState {
    /// The caret stays inside the text.
    pub open spec fn wf(self) -> bool {
        self.caret_position <= self.text@.len()
    }

    /// Empty text with the caret at the start and nothing selected.
    pub fn new() -> (r: EditorState)
        ensures
            r.text@ == Seq::<char>::empty(),
            r.caret_position == 0,
            r.selection_start == 0,
            r.selection_end == 0,
            r.wf(),
    {
        EditorState { text: Vec::new(), caret_position: 0, selection_start: 0, selection_end: 0 }
    }

    /// Insert a character at the caret and advance it.
    pub fn insert_char(&mut self, c: char)
        requires
            old(self).wf(),
        ensures
            final(self).text@ == old(self).text@.insert(old(self).caret_position as int, c),
            final(self).caret_position == old(self).caret_position + 1,
            final(self).selection_start == old(self).selection_start,
            final(self).selection_end == old(self).selection_end,
            final(self).wf(),
    {
        self.text.insert(self.caret_position, c);
        let n = self.text.len();
        proof {
            assert(self.caret_position < n);
        }
        self.caret_position += 1;
    }

    /// Remove the character before the caret and retreat it; at the start
    /// of the text this does nothing.
    pub fn backspace(&mut self)
        requires
            old(self).wf(),
        ensures
            old(self).caret_position > 0 ==> final(self).text@ == old(self).text@.remove(
                old(self).caret_position - 1,
            ) && final(self).caret_position == old(self).caret_position - 1,
            old(self).caret_position == 0 ==> *final(self) == *old(self),
            final(self).selection_start == old(self).selection_start,
            final(self).selection_end == old(self).selection_end,
            final(self).wf(),
    {
        if self.caret_position > 0 {
            self.text.remove(self.caret_position - 1);
            self.caret_position -= 1;
        }
    }

    /// Move the caret one character left, stopping at the start.
    pub fn caret_left(&mut self)
        requires
            old(self).wf(),
        ensures
            final(self).caret_position == if old(self).caret_position > 0 {
                (old(self).caret_position - 1) as usize
            } else {
                0usize
            },
            *final(self) == (EditorState {
                caret_position: final(self).caret_position,
                ..*old(self)
            }),
            final(self).wf(),
    {
        if self.caret_position > 0 {
            self.caret_position -= 1;
        }
    }

    /// Move the caret one character right, stopping at the end.
    pub fn caret_right(&mut self)
        requires
            old(self).wf(),
        ensures
            final(self).caret_position == if old(self).caret_position < old(self).text@.len() {
                (old(self).caret_position + 1) as usize
            } else {
                old(self).caret_position
            },
            *final(self) == (EditorState {
                caret_position: final(self).caret_position,
                ..*old(self)
            }),
            final(self).wf(),
    {
        if self.caret_position < self.text.len() {
            self.caret_position += 1;
        }
    }
}

pub struct TextBox {
    pub state: EditorState,
    pub placeholder: Vec<char>,
    pub tag: Option<u64>,
}

/// Whether a text box consumes the given event: pointer movement over it
/// and departure (it owns the cursor shape), and all keyboard input.
pub open spec fn textbox_consumes(e: Event) -> bool {
    match e {
        Event::Mouse(me) => me is MouseMove || me is MouseLeave,
        Event::Key(_) => true,
    }
}

/// The editor state after an event.
pub open spec fn editor_after(s: EditorState, e: Event) -> EditorState {
    match e {
        Event::Key(KeyEvent::Input(input)) => {
            if input.pressed {
                match input.key {
                    Key::Left => EditorState {
                        caret_position: if s.caret_position > 0 {
                            (s.caret_position - 1) as usize
                        } else {
                            0usize
                        },
                        ..s
                    },
                    Key::Right => EditorState {
                        caret_position: if s.caret_position < s.text@.len() {
                            (s.caret_position + 1) as usize
                        } else {
                            s.caret_position
                        },
                        ..s
                    },
                    Key::Backspace => {
                        if s.caret_position > 0 {
                            EditorState {
                                text: s.text,
                                caret_position: (s.caret_position - 1) as usize,
                                ..s
                            }
                        } else {
                            s
                        }
                    },
                    _ => s,
                }
            } else {
                s
            }
        },
        Event::Key(KeyEvent::Char(c)) => {
            if !char_is_control(c) {
                EditorState { text: s.text, caret_position: (s.caret_position + 1) as usize, ..s }
            } else {
                s
            }
        },
        _ => s,
    }
}

/// The character sequence after an event.
pub open spec fn editor_text_after(s: EditorState, e: Event) -> Seq<char> {
    match e {
        Event::Key(KeyEvent::Input(input)) => {
            if input.pressed && input.key is Backspace && s.caret_position > 0 {
                s.text@.remove(s.caret_position - 1)
            } else {
                s.text@
            }
        },
        Event::Key(KeyEvent::Char(c)) => {
            if !char_is_control(c) {
                s.text@.insert(s.caret_position as int, c)
            } else {
                s.text@
            }
        },
        _ => s.text@,
    }
}

/// An ASCII control character, which typed input skips.
pub open spec fn char_is_control(c: char) -> bool {
    (c as u32) < 32 || (c as u32) == 127
}

/// The cursor a text box requests on an event: an I-beam while the
/// pointer moves over it, the arrow back when it leaves.
pub open spec fn textbox_cursor_after(cursor: CursorIcon, e: Event) -> CursorIcon {
    match e {
        Event::Mouse(MouseEvent::MouseMove(_)) => CursorIcon::Text,
        Event::Mouse(MouseEvent::MouseLeave(_)) => CursorIcon::Arrow,
        _ => cursor,
    }
}

/// Whether the event commits the content: a press of the enter key.
pub open spec fn textbox_commits(e: Event) -> bool {
    e is Key && e->Key_0 is Input && e->Key_0->Input_0.pressed && e->Key_0->Input_0.key is Enter
}

impl TextBox {
    pub open spec fn wf(self) -> bool {
        self.state.wf()
    }

    /// An empty text box showing `placeholder` until it has content.
    pub fn new(placeholder: &str) -> (r: TextBox)
        ensures
            r.state.text@ == Seq::<char>::empty(),
            r.state.caret_position == 0,
            r.placeholder@ == placeholder@,
            r.tag is None,
            r.wf(),
    {
        TextBox { state: EditorState::new(), placeholder: str_chars(placeholder), tag: None }
    }

    /// Register the tag under which the enter key commits the content.
    pub fn on_commit(self, tag: u64) -> (r: TextBox)
        ensures
            r == (TextBox { tag: Some(tag), ..self }),
    {
        TextBox { tag: Some(tag), ..self }
    }

    /// React to an event: shape the cursor over the box, apply keyboard
    /// editing to the content, and report the content on enter.
    pub fn event<M>(&mut self, event: &Event, ctx: &mut EventCtx<M>) -> (r: bool)
        requires
            old(self).wf(),
        ensures
            r == textbox_consumes(*event),
            final(self).state == (EditorState {
                text: final(self).state.text,
                ..editor_after(old(self).state, *event)
            }),
            final(self).state.text@ == editor_text_after(old(self).state, *event),
            final(self).placeholder == old(self).placeholder,
            final(self).tag == old(self).tag,
            final(ctx).cursor == textbox_cursor_after(old(ctx).cursor, *event),
            textbox_commits(*event) && old(self).tag is Some ==> final(ctx).changes@.len() == old(
                ctx,
            ).changes@.len() + 1 && final(ctx).changes@.take(old(ctx).changes@.len() as int)
                == old(ctx).changes@ && final(ctx).changes@.last().tag == old(self).tag->0 && (
            final(ctx).changes@.last().value matches ChangeValue::Committed(t) && t@ == old(
                self,
            ).state.text@),
            !(textbox_commits(*event) && old(self).tag is Some) ==> final(ctx).changes@ == old(
                ctx,
            ).changes@,
            *final(ctx) == (EventCtx {
                changes: final(ctx).changes,
                cursor: final(ctx).cursor,
                ..*old(ctx)
            }),
            final(self).wf(),
    {
        match event {
            Event::Mouse(MouseEvent::MouseMove(_)) => {
                ctx.change_cursor(CursorIcon::Text);
                true
            },
            Event::Mouse(MouseEvent::MouseLeave(_)) => {
                ctx.change_cursor(CursorIcon::Arrow);
                true
            },
            Event::Key(KeyEvent::Input(input)) => {
                if input.pressed {
                    match input.key {
                        Key::Left => self.state.caret_left(),
                        Key::Right => self.state.caret_right(),
                        Key::Backspace => self.state.backspace(),
                        Key::Enter => {
                            if let Some(tag) = self.tag {
                                let text = clone_chars(&self.state.text);
                                ctx.push_change(
                                    Change { tag, value: ChangeValue::Committed(text) },
                                );
                                proof {
                                    assert(ctx.changes@.take(old(ctx).changes@.len() as int)
                                        =~= old(ctx).changes@);
                                }
                            }
                        },
                        Key::Other => (),
                    }
                }
                true
            },
            Event::Key(KeyEvent::Char(c)) => {
                let u = *c as u32;
                if !(u < 32 || u == 127) {
                    self.state.insert_char(*c);
                }
                true
            },
            _ => false,
        }
    }

    /// Report the box's size: the full offered width and one nominal text
    /// line, kept under the offered height.
    pub fn layout(&mut self, constraints: &BoxConstraints) -> (r: Size)
        requires
            constraints.max_width is Some,
        ensures
            *final(self) == *old(self),
            r.width == constraints.max_width->0,
            r.height == match constraints.max_height {
                Some(mh) => if mh < TEXT_LINE_HEIGHT {
                    mh
                } else {
                    TEXT_LINE_HEIGHT
                },
                None => TEXT_LINE_HEIGHT,
            },
    {
        let width = match constraints.max_width() {
            Some(w) => w,
            None => 0,
        };
        let height = match constraints.max_height() {
            Some(mh) => if mh < TEXT_LINE_HEIGHT {
                mh
            } else {
                TEXT_LINE_HEIGHT
            },
            None => TEXT_LINE_HEIGHT,
        };
        Size { width, height }
    }

    /// Append the box's drawing commands: its white plate, the selection
    /// highlight when a range is selected, its border, and its content or
    /// placeholder.
    pub fn paint(&self, theme: &Theme, size: Size, out: &mut Vec<DrawCmd>)
        ensures
            crate::display::cmds_view(final(out)@) == crate::display::cmds_view(old(out)@)
                + textbox_paint(*self, *theme, size),
    {
        let _ = theme;
        let rect = Rect::from_size(size);
        out.push(DrawCmd::Rect(rect, Paint::new(Color { argb: 0xFFFFFFFF })));
        let sel_len = self.selection_len();
        if sel_len > 0 {
            let capped: usize = if sel_len > MAX_SELECTION {
                MAX_SELECTION
            } else {
                sel_len
            };
            let sel_rect = Rect {
                origin: Point { x: 2, y: 0 },
                size: Size {
                    width: crate::geometry::clamp_dim_exec((capped as i64) * TEXT_ADVANCE),
                    height: size.height,
                },
            };
            out.push(DrawCmd::Rect(sel_rect, Paint::new(Color { argb: 0xFF0000FF })));
        }
        out.push(DrawCmd::Rect(rect, Paint::new(Color { argb: 0xFF000000 }).with_stroke(true)));
        if self.state.text.len() > 0 {
            let text = clone_chars(&self.state.text);
            out.push(
                DrawCmd::Paragraph(
                    Point { x: 2, y: 0 },
                    text,
                    Paint::new(Color { argb: 0xFF000000 }),
                ),
            );
        } else {
            let text = clone_chars(&self.placeholder);
            out.push(
                DrawCmd::Paragraph(
                    Point { x: 2, y: 0 },
                    text,
                    Paint::new(Color { argb: 0x7F000000 }),
                ),
            );
        }
        proof {
            assert(crate::display::cmds_view(out@) =~= crate::display::cmds_view(old(out)@)
                + textbox_paint(*self, *theme, size));
        }
    }

    /// The number of selected characters.
    fn selection_len(&self) -> (r: usize)
        ensures
            r == spec_selection_len(self.state),
    {
        if self.state.selection_end > self.state.selection_start {
            self.state.selection_end - self.state.selection_start
        } else {
            0
        }
    }
}

/// The number of selected characters.
pub open spec fn spec_selection_len(s: EditorState) -> int {
    if s.selection_end > s.selection_start {
        s.selection_end - s.selection_start
    } else {
        0
    }
}

/// The commands a text box paints.
pub open spec fn textbox_paint(t: TextBox, theme: Theme, size: Size) -> Seq<CmdV> {
    let rect = Rect { origin: Point { x: 0, y: 0 }, size };
    let plate = seq![CmdV::Rect(rect, Paint { color: Color { argb: 0xFFFFFFFF }, stroke: false })];
    let sel_len = spec_selection_len(t.state);
    let capped = if sel_len > MAX_SELECTION { MAX_SELECTION as int } else { sel_len };
    let selection = if sel_len > 0 {
        seq![
            CmdV::Rect(
                Rect {
                    origin: Point { x: 2, y: 0 },
                    size: Size {
                        width: clamp_dim(capped * TEXT_ADVANCE) as i64,
                        height: size.height,
                    },
                },
                Paint { color: Color { argb: 0xFF0000FF }, stroke: false },
            ),
        ]
    } else {
        Seq::<CmdV>::empty()
    };
    let border = seq![CmdV::Rect(rect, Paint { color: Color { argb: 0xFF000000 }, stroke: true })];
    let content = if t.state.text@.len() > 0 {
        seq![
            CmdV::Paragraph(
                Point { x: 2, y: 0 },
                t.state.text@,
                Paint { color: Color { argb: 0xFF000000 }, stroke: false },
            ),
        ]
    } else {
        seq![
            CmdV::Paragraph(
                Point { x: 2, y: 0 },
                t.placeholder@,
                Paint { color: Color { argb: 0x7F000000 }, stroke: false },
            ),
        ]
    };
    plate + selection + border + content
}

/// A copy of a character vector.
fn clone_chars(v: &Vec<char>) -> (r: Vec<char>)
    ensures
        r@ == v@,
{
    let mut out: Vec<char> = Vec::new();
    let mut i: usize = 0;
    while i < v.len()
        invariant
            0 <= i <= v@.len(),
            out@ == v@.take(i as int),
        decreases v@.len() - i,
    {
        out.push(v[i]);
        proof {
            assert(out@ =~= v@.take(i + 1));
        }
        i += 1;
    }
    proof {
        assert(v@.take(v@.len() as int) =~= v@);
    }
    out
}

} // verus!
