//! A text label: a terminal node that fills the space it is offered and
//! draws its text in the theme's label style.

use vstd::prelude::*;

use crate::constraints::BoxConstraints;
use crate::display::{CmdV, DrawCmd, Paint};
use crate::geometry::{Rect, Size};
use crate::style::{Font, Theme};

verus! {

broadcast use crate::display::lemma_cmds_view_push;

pub struct Label {
    pub text: String,
}

/// The single command a label paints: its text over its whole rectangle,
/// in the theme's label font and text colour.
pub open spec fn label_paint(l: Label, theme: Theme, size: Size) -> Seq<CmdV> {
    let rect = Rect { origin: crate::geometry::Point { x: 0, y: 0 }, size };
    seq![
        CmdV::Text(
            rect,
            l.text@,
            theme.label.font.family@,
            theme.label.font.size as int,
            Paint { color: theme.label.text, stroke: false },
        ),
    ]
}

impl Label {
    /// A label showing `text`.
    pub fn new(text: &str) -> (r: Label)
        ensures
            r.text@ == text@,
    {
        Label { text: text.to_owned() }
    }

    /// Replace the label's text with one the application computed from
    /// its state. The label stores no resolving callback of its own:
    /// the caller resolves the state to the string to show here, and
    /// rebuilds the label whenever that state changes.
    pub fn with_provider(self, text: &str) -> (r: Label)
        ensures
            r.text@ == text@,
    {
        Label { text: text.to_owned() }
    }

    /// A label fills whatever space it is offered, so it demands a bound
    /// on both axes.
    pub fn layout(&mut self, constraints: &BoxConstraints) -> (r: Size)
        requires
            constraints.spec_has_max(),
        ensures
            *final(self) == *old(self),
            r == (Size {
                width: constraints.max_width->0,
                height: constraints.max_height->0,
            }),
    {
        let width = match constraints.max_width() {
            Some(w) => w,
            None => 0,
        };
        let height = match constraints.max_height() {
            Some(h) => h,
            None => 0,
        };
        Size { width, height }
    }

    /// Append the label's drawing commands.
    pub fn paint(&self, theme: &Theme, size: Size, out: &mut Vec<DrawCmd>)
        ensures
            crate::display::cmds_view(final(out)@) == crate::display::cmds_view(old(out)@)
                + label_paint(*self, *theme, size),
    {
        let rect = Rect::from_size(size);
        let text = self.text.clone();
        let font = Font {
            family: theme.label.font.family.clone(),
            size: theme.label.font.size,
        };
        out.push(DrawCmd::Text(rect, text, font, Paint::new(theme.label.text)));
        proof {
            assert(crate::display::cmds_view(out@) =~= crate::display::cmds_view(old(out)@)
                + label_paint(*self, *theme, size));
        }
    }
}

} // verus!
