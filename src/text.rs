//! Lines of styled text and the multi-line text that a cell holds.
use crate::measure::{str_width, str_width_of};
use crate::style::{plain_style, Style};
use vstd::prelude::*;

verus! {

/// Where a line sits in the width it is given.
#[derive(Debug, Clone, Copy, PartialEq, Eq, Structural, Hash)]
pub enum Alignment {
    Left,
    Center,
    Right,
}

/// One line of text with a style and an optional alignment.
#[derive(Debug, Clone, PartialEq, Eq, Hash)]
pub struct Line {
    pub content: String,
    pub style: Style,
    pub alignment: Option<Alignment>,
}

impl Line {
    /// An unstyled, unaligned line.
    pub fn raw(content: &str) -> (r: Line)
        ensures
            r.content@ == content@,
            r.style == plain_style(),
            r.alignment is None,
    {
        Line { content: content.to_owned(), style: Style::new(), alignment: None }
    }

    /// A line drawn in `style`.
    pub fn styled(content: &str, style: Style) -> (r: Line)
        ensures
            r.content@ == content@,
            r.style == style,
            r.alignment is None,
    {
        Line { content: content.to_owned(), style, alignment: None }
    }

    /// The line with the given alignment.
    pub fn alignment(self, alignment: Alignment) -> (r: Line)
        ensures
            r.content@ == self.content@,
            r.style == self.style,
            r.alignment == Some(alignment),
    {
        Line { alignment: Some(alignment), ..self }
    }

    /// The number of terminal columns that the line takes.
    pub fn width(&self) -> (r: usize)
        ensures
            r == str_width_of(self.content@),
    {
        str_width(self.content.as_str())
    }
}

impl From<&str> for Line {
    /// An unstyled, unaligned line of `content`.
    fn from(content: &str) -> (r: Line)
        ensures
            r.content@ == content@,
            r.style == plain_style(),
            r.alignment is None,
    {
        Line::raw(content)
    }
}

impl vstd::std_specs::convert::FromSpecImpl<&str> for Line {
    open spec fn obeys_from_spec() -> bool {
        false
    }

    open spec fn from_spec(v: &str) -> Line {
        arbitrary()
    }
}

/// Pieces of text joined back together with a line feed between each two.
pub open spec fn joined_lines(parts: Seq<Seq<char>>) -> Seq<char>
    decreases parts.len(),
{
    if parts.len() == 0 {
        Seq::empty()
    } else if parts.len() == 1 {
        parts[0]
    } else {
        joined_lines(parts.drop_last()) + seq!['\n'] + parts.last()
    }
}

/// Relies on `str::split` with a line feed as the pattern: the pieces between
/// line feeds, in order, at least one, none holding a line feed.
#[verifier::external_body]
fn split_lines(s: &str) -> (r: Vec<String>)
    ensures
        r@.len() >= 1,
        joined_lines(r@.map_values(|p: String| p@)) == s@,
        forall|i: int, j: int| 0 <= i < r@.len() && 0 <= j < r@[i]@.len() ==> r@[i]@[j] != '\n',
{
    s.split('\n').map(|p| p.to_owned()).collect()
}

/// Text of zero or more lines.
#[derive(Debug, Clone, PartialEq, Eq, Hash)]
pub struct Text {
    pub lines: Vec<Line>,
}

impl Text {
    /// Text of the given lines.
    pub fn from_lines(lines: Vec<Line>) -> (r: Text)
        ensures
            r.lines@ == lines@,
    {
        Text { lines }
    }

    /// Unstyled, unaligned text with a line for each piece of `content`
    /// between line feeds.
    pub fn raw(content: &str) -> (r: Text)
        ensures
            r.lines@.len() >= 1,
            joined_lines(r.lines@.map_values(|l: Line| l.content@)) == content@,
            forall|i: int, j: int|
                0 <= i < r.lines@.len() && 0 <= j < r.lines@[i].content@.len()
                    ==> r.lines@[i].content@[j] != '\n',
            forall|i: int|
                0 <= i < r.lines@.len() ==> r.lines@[i].style == plain_style()
                    && r.lines@[i].alignment is None,
    {
        let pieces = split_lines(content);
        let mut lines: Vec<Line> = Vec::new();
        let mut i: usize = 0;
        while i < pieces.len()
            invariant
                0 <= i <= pieces@.len(),
                lines@.len() == i,
                forall|k: int| 0 <= k < i ==> lines@[k].content@ == pieces@[k]@,
                forall|k: int|
                    0 <= k < i ==> lines@[k].style == plain_style() && lines@[k].alignment is None,
            decreases pieces@.len() - i,
        {
            lines.push(Line { content: pieces[i].clone(), style: Style::new(), alignment: None });
            i = i + 1;
        }
        assert(lines@.map_values(|l: Line| l.content@) =~= pieces@.map_values(|p: String| p@));
        assert forall|i: int, j: int|
            0 <= i < lines@.len() && 0 <= j < lines@[i].content@.len() implies lines@[i].content@[j]
            != '\n' by {
            assert(lines@[i].content@ == pieces@[i]@);
        }
        Text { lines }
    }
}

} // verus!
