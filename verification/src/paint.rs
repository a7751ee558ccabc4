//! Lines of text with a style, as the interface hands them to a terminal.
use vstd::prelude::*;

verus! {

/// How a line is painted.
#[derive(Debug, Clone, Copy, PartialEq, Eq, Structural)]
pub enum Style {
    Plain,
    Bold,
    Dim,
    /// Bold and reversed: the row under the cursor, the tab in front.
    Selected,
}

/// One line of output.
#[derive(Debug, Clone, PartialEq, Eq)]
pub struct Line {
    pub text: String,
    pub style: Style,
}

/// A line's text and style.
pub ghost struct LineV {
    pub text: Seq<char>,
    pub style: Style,
}

impl View for Line {
    type V = LineV;

    open spec fn view(&self) -> LineV {
        LineV { text: self.text@, style: self.style }
    }
}

/// The contents of a list of lines.
pub open spec fn lines_view(v: Seq<Line>) -> Seq<LineV> {
    Seq::new(v.len(), |i: int| v[i]@)
}

/// A line.
pub fn line(text: String, style: Style) -> (r: Line)
    ensures
        r@ == (LineV { text: text@, style }),
{
    Line { text, style }
}

} // verus!
