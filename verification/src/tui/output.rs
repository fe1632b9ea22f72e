//! Lines of the output pane.

use vstd::prelude::*;

verus! {

/// How an output line is shown.
#[derive(Debug, Clone, Copy, PartialEq, Eq, Structural)]
pub enum LineStyle {
    Normal,
    Success,
    Error,
    Info,
    Header,
}

/// An output line with its style.
#[derive(Debug, Clone, PartialEq, Eq)]
pub struct OutputLine {
    pub content: String,
    pub style: LineStyle,
}

impl OutputLine {
    /// A plain line.
    pub fn normal(s: String) -> (r: Self)
        ensures
            r.content@ == s@,
            r.style == LineStyle::Normal,
    {
        OutputLine { content: s, style: LineStyle::Normal }
    }

    /// A success line.
    pub fn success(s: String) -> (r: Self)
        ensures
            r.content@ == s@,
            r.style == LineStyle::Success,
    {
        OutputLine { content: s, style: LineStyle::Success }
    }

    /// An error line.
    pub fn error(s: String) -> (r: Self)
        ensures
            r.content@ == s@,
            r.style == LineStyle::Error,
    {
        OutputLine { content: s, style: LineStyle::Error }
    }

    /// An informational line.
    pub fn info(s: String) -> (r: Self)
        ensures
            r.content@ == s@,
            r.style == LineStyle::Info,
    {
        OutputLine { content: s, style: LineStyle::Info }
    }

    /// A header line.
    pub fn header(s: String) -> (r: Self)
        ensures
            r.content@ == s@,
            r.style == LineStyle::Header,
    {
        OutputLine { content: s, style: LineStyle::Header }
    }
}

/// The text and style of a line.
pub open spec fn line(l: OutputLine) -> (Seq<char>, LineStyle) {
    (l.content@, l.style)
}

/// The texts and styles of a list of lines.
pub open spec fn lines_view(v: Seq<OutputLine>) -> Seq<(Seq<char>, LineStyle)> {
    v.map_values(|l: OutputLine| line(l))
}

} // verus!
