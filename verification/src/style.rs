//! Styled text and the panels of the screen.

use vstd::prelude::*;
use vstd::string::*;

verus! {

/// How a piece of text looks.
#[derive(Clone, Copy, Debug, PartialEq, Eq, Structural)]
pub enum Style {
    Plain,
    Bold,
    BoldCyan,
    BoldGreen,
    Cyan,
    DarkGray,
    Gray,
    Green,
    Red,
    /// White on cyan.
    Cursor,
    /// On cyan, in the colour of the terminal.
    OnCyan,
}

/// A piece of text in one style.
#[derive(Clone, Debug)]
pub struct Span {
    pub text: String,
    pub style: Style,
}

/// A piece of text in one style.
pub struct SpanView {
    pub text: Seq<char>,
    pub style: Style,
}

impl View for Span {
    type V = SpanView;

    open spec fn view(&self) -> SpanView {
        SpanView { text: self.text@, style: self.style }
    }
}

/// The piece of text `text` in the style `style`.
pub open spec fn span_of(text: Seq<char>, style: Style) -> SpanView {
    SpanView { text, style }
}

/// The pieces of text as they look.
pub open spec fn spans_view(spans: Seq<Span>) -> Seq<SpanView> {
    spans.map_values(|s: Span| s@)
}

/// Where a line stands.
#[derive(Clone, Copy, Debug, PartialEq, Eq, Structural)]
pub enum Align {
    Left,
    Center,
    Right,
}

/// A line of text.
#[derive(Clone, Debug)]
pub struct TextLine {
    pub spans: Vec<Span>,
    /// Whether the line stands on the background of what is selected.
    pub marked: bool,
    pub align: Align,
}

/// A line of text.
pub struct LineView {
    pub spans: Seq<SpanView>,
    pub marked: bool,
    pub align: Align,
}

impl View for TextLine {
    type V = LineView;

    open spec fn view(&self) -> LineView {
        LineView { spans: spans_view(self.spans@), marked: self.marked, align: self.align }
    }
}

/// A line at the left that is not selected.
pub open spec fn line_of(spans: Seq<SpanView>) -> LineView {
    LineView { spans, marked: false, align: Align::Left }
}

/// The lines as they look.
pub open spec fn lines_view(lines: Seq<TextLine>) -> Seq<LineView> {
    lines.map_values(|l: TextLine| l@)
}

/// A piece of text in a style.
pub fn span(text: &str, style: Style) -> (r: Span)
    ensures
        r@ == span_of(text@, style),
{
    Span { text: text.to_owned(), style }
}

/// A line at the left that is not selected.
pub fn line(spans: Vec<Span>) -> (r: TextLine)
    ensures
        r@ == line_of(spans_view(spans@)),
{
    TextLine { spans, marked: false, align: Align::Left }
}

/// A line of one piece of text.
pub fn text_line(text: &str, style: Style) -> (r: TextLine)
    ensures
        r@ == line_of(seq![span_of(text@, style)]),
{
    let mut spans: Vec<Span> = Vec::new();
    spans.push(span(text, style));
    assert(spans_view(spans@) =~= seq![span_of(text@, style)]);
    line(spans)
}

/// Adding a piece of text adds how it looks.
pub proof fn lemma_spans_push(spans: Seq<Span>, s: Span)
    ensures
        spans_view(spans.push(s)) == spans_view(spans).push(s@),
{
    assert(spans_view(spans.push(s)) =~= spans_view(spans).push(s@));
}

/// Adding a line adds how it looks.
pub proof fn lemma_lines_push(lines: Seq<TextLine>, l: TextLine)
    ensures
        lines_view(lines.push(l)) == lines_view(lines).push(l@),
{
    assert(lines_view(lines.push(l)) =~= lines_view(lines).push(l@));
}

} // verus!
