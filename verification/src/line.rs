//! A line of the buffer as the editor engine sends it: its text, the cursors
//! on it, and the style runs that colour it.

use vstd::prelude::*;

verus! {

/// A run of characters that share one style.
///
/// `offset` counts from the end of the previous run on the same line, and may
/// be negative; `length` is a number of characters; `style_id` names an entry
/// of the style table.
#[derive(Debug, Clone, Copy, PartialEq, Eq, Structural)]
pub struct StyleDef {
    pub offset: i64,
    pub length: u64,
    pub style_id: u64,
}

/// A line of text with its cursor positions and its style runs.
#[derive(Debug, PartialEq, Eq)]
pub struct Line {
    pub text: String,
    pub cursor: Vec<u64>,
    pub styles: Vec<StyleDef>,
}

/// The mathematical value of a [`Line`].
pub struct LineView {
    pub text: Seq<char>,
    pub cursor: Seq<u64>,
    pub styles: Seq<StyleDef>,
}

impl LineView {
    /// The line that stands for one that is not loaded: no text, no cursor,
    /// no style.
    pub open spec fn placeholder() -> LineView {
        LineView { text: Seq::empty(), cursor: Seq::empty(), styles: Seq::empty() }
    }

    /// This line's text under another line's cursors and styles.
    pub open spec fn with_marks_of(self, marks: LineView) -> LineView {
        LineView { text: self.text, cursor: marks.cursor, styles: marks.styles }
    }
}

impl View for Line {
    type V = LineView;

    open spec fn view(&self) -> LineView {
        LineView { text: self.text@, cursor: self.cursor@, styles: self.styles@ }
    }
}

/// The mathematical values of a sequence of lines.
pub open spec fn lines_view(lines: Seq<Line>) -> Seq<LineView> {
    lines.map_values(|line: Line| line@)
}

/// The values of a sequence with one more line are the values of the
/// sequence with one more value.
pub proof fn lemma_lines_view_push(lines: Seq<Line>, line: Line)
    ensures
        lines_view(lines.push(line)) == lines_view(lines).push(line@),
{
    assert(lines_view(lines.push(line)) =~= lines_view(lines).push(line@));
}

impl Line {
    pub fn new(text: String, cursor: Vec<u64>, styles: Vec<StyleDef>) -> (line: Line)
        ensures
            line@ == (LineView { text: text@, cursor: cursor@, styles: styles@ }),
    {
        Line { text, cursor, styles }
    }

    /// The line that stands for one that is not loaded.
    pub fn invalid() -> (line: Line)
        ensures
            line@ == LineView::placeholder(),
    {
        Line { text: String::new(), cursor: Vec::new(), styles: Vec::new() }
    }

    /// This line's text under another line's cursors and styles.
    pub fn with_marks_of(&self, marks: &Line) -> (line: Line)
        ensures
            line@ == self@.with_marks_of(marks@),
    {
        let cursor = marks.cursor.clone();
        let styles = marks.styles.clone();
        assert(cursor@ =~= marks.cursor@);
        assert(styles@ =~= marks.styles@);
        Line { text: self.text.clone(), cursor, styles }
    }
}

impl Clone for Line {
    fn clone(&self) -> (line: Line)
        ensures
            line@ == self@,
    {
        let cursor = self.cursor.clone();
        let styles = self.styles.clone();
        assert(cursor@ =~= self.cursor@);
        assert(styles@ =~= self.styles@);
        Line { text: self.text.clone(), cursor, styles }
    }
}

impl Default for Line {
    fn default() -> (line: Line)
        ensures
            line@ == LineView::placeholder(),
    {
        Line::invalid()
    }
}

/// Copies of the given lines, in order.
pub fn clone_lines(lines: &Vec<Line>) -> (copy: Vec<Line>)
    ensures
        lines_view(copy@) == lines_view(lines@),
{
    let mut copy: Vec<Line> = Vec::new();
    let mut i: usize = 0;
    while i < lines.len()
        invariant
            i <= lines.len(),
            copy.len() == i,
            forall|j: int| 0 <= j < i ==> copy@[j]@ == lines@[j]@,
        decreases lines.len() - i,
    {
        copy.push(lines[i].clone());
        i += 1;
    }
    assert(lines_view(copy@) =~= lines_view(lines@));
    copy
}

} // verus!
