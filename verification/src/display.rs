//! The display list: painting a widget tree produces a flat sequence of
//! drawing commands that any 2D canvas backend can replay. Commands are
//! plain values; `Save`/`Translate`/`Restore` bracket each child so a
//! widget always paints in its own local coordinates.

use vstd::prelude::*;

use crate::geometry::{Point, Rect};
use crate::style::{Color, Font};

verus! {

/// How a shape is filled or stroked.
#[derive(Clone, Copy, Debug, PartialEq, Eq, Structural)]
pub struct Paint {
    pub color: Color,
    pub stroke: bool,
}

impl Paint {
    /// A solid fill of the given colour.
    pub fn new(color: Color) -> (r: Paint)
        ensures
            r == (Paint { color, stroke: false }),
    {
        Paint { color, stroke: false }
    }

    /// The same paint with the stroke flag replaced.
    pub fn with_stroke(self, stroke: bool) -> (r: Paint)
        ensures
            r == (Paint { stroke, ..self }),
    {
        Paint { stroke, ..self }
    }

    /// The same paint with the colour replaced.
    pub fn with_color(self, color: Color) -> (r: Paint)
        ensures
            r == (Paint { color, ..self }),
    {
        Paint { color, ..self }
    }
}

/// One drawing command, in the coordinate space current at its position in
/// the list.
#[derive(Clone, Debug)]
pub enum DrawCmd {
    /// Push the current transform.
    Save,
    /// Pop to the transform of the matching `Save`.
    Restore,
    /// Offset subsequent commands by the given vector.
    Translate(Point),
    /// Fill the whole surface with a colour.
    Clear(Color),
    Rect(Rect, Paint),
    RoundedRect(Rect, i64, i64, Paint),
    Circle(Point, i64, Paint),
    /// Draw a string centred in the rectangle with the given font.
    Text(Rect, String, Font, Paint),
    /// Draw editor content starting at the given origin.
    Paragraph(Point, Vec<char>, Paint),
}

/// The specification-level image of one drawing command: text is a
/// character sequence, so that two commands drawing equal text are equal.
pub ghost enum CmdV {
    Save,
    Restore,
    Translate(Point),
    Clear(Color),
    Rect(Rect, Paint),
    RoundedRect(Rect, int, int, Paint),
    Circle(Point, int, Paint),
    Text(Rect, Seq<char>, Seq<char>, int, Paint),
    Paragraph(Point, Seq<char>, Paint),
}

impl View for DrawCmd {
    type V = CmdV;

    open spec fn view(&self) -> CmdV {
        match self {
            DrawCmd::Save => CmdV::Save,
            DrawCmd::Restore => CmdV::Restore,
            DrawCmd::Translate(p) => CmdV::Translate(*p),
            DrawCmd::Clear(c) => CmdV::Clear(*c),
            DrawCmd::Rect(r, p) => CmdV::Rect(*r, *p),
            DrawCmd::RoundedRect(r, rx, ry, p) => CmdV::RoundedRect(*r, *rx as int, *ry as int, *p),
            DrawCmd::Circle(c, radius, p) => CmdV::Circle(*c, *radius as int, *p),
            DrawCmd::Text(r, s, f, p) => CmdV::Text(*r, s@, f.family@, f.size as int, *p),
            DrawCmd::Paragraph(o, s, p) => CmdV::Paragraph(*o, s@, *p),
        }
    }
}

/// The specification-level image of a command list.
pub open spec fn cmds_view(cmds: Seq<DrawCmd>) -> Seq<CmdV> {
    cmds.map_values(|c: DrawCmd| c@)
}

/// Appending one command appends its image.
pub broadcast proof fn lemma_cmds_view_push(s: Seq<DrawCmd>, c: DrawCmd)
    ensures
        #[trigger] cmds_view(s.push(c)) == cmds_view(s).push(c@),
{
    assert(cmds_view(s.push(c)) =~= cmds_view(s).push(c@));
}

} // verus!
