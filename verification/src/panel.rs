//! The panels of the screen.

use vstd::prelude::*;
use vstd::string::*;

use crate::layout::Rect;
use crate::style::{
    line, line_of, lines_view, span, span_of, spans_view, Align, LineView, Span, SpanView, Style,
    TextLine,
};
use crate::text::texts;
use crate::words::{lines, lines_of};

verus! {

/// Lines of text in an area of the screen.
#[derive(Debug)]
pub struct Panel {
    pub area: Rect,
    /// Whether there is a double border around the area.
    pub bordered: bool,
    /// What stands on the upper border.
    pub title: Option<TextLine>,
    /// What stands on the lower border.
    pub bottom: Option<TextLine>,
    pub lines: Vec<TextLine>,
    /// How many lines and how many columns are scrolled out of sight.
    pub scroll: (u16, u16),
}

/// Lines of text in an area of the screen.
#[verifier::ext_equal]
pub struct PanelView {
    pub area: Rect,
    pub bordered: bool,
    pub title: Option<LineView>,
    pub bottom: Option<LineView>,
    pub lines: Seq<LineView>,
    pub scroll: (u16, u16),
}

/// What stands on a border.
pub open spec fn border_view(line: Option<TextLine>) -> Option<LineView> {
    match line {
        Some(l) => Some(l@),
        None => None,
    }
}

impl View for Panel {
    type V = PanelView;

    open spec fn view(&self) -> PanelView {
        PanelView {
            area: self.area,
            bordered: self.bordered,
            title: border_view(self.title),
            bottom: border_view(self.bottom),
            lines: lines_view(self.lines@),
            scroll: self.scroll,
        }
    }
}

/// The panels in the order in which they are drawn.
pub open spec fn panels_view(panels: Seq<Panel>) -> Seq<PanelView> {
    panels.map_values(|p: Panel| p@)
}

/// What is shown, if anything is.
pub open spec fn shown_view(panels: Option<Vec<Panel>>) -> Option<Seq<PanelView>> {
    match panels {
        Some(panels) => Some(panels_view(panels@)),
        None => None,
    }
}

/// The line, somewhere else.
pub open spec fn aligned(line: LineView, align: Align) -> LineView {
    LineView { align, ..line }
}

/// A line of plain text, with a piece for each line of the text.
pub open spec fn plain(text: Seq<char>) -> LineView {
    line_of(lines_of(text).map_values(|l: Seq<char>| span_of(l, Style::Plain)))
}

/// A line of plain text in the middle.
pub open spec fn centered(text: Seq<char>) -> LineView {
    aligned(plain(text), Align::Center)
}

/// A line of plain text at the right.
pub open spec fn at_right(text: Seq<char>) -> LineView {
    aligned(plain(text), Align::Right)
}

/// A panel with a border.
pub open spec fn boxed(
    area: Rect,
    title: LineView,
    bottom: Option<LineView>,
    lines: Seq<LineView>,
    scroll: (u16, u16),
) -> PanelView {
    PanelView { area, bordered: true, title: Some(title), bottom, lines, scroll }
}

/// A panel without a border.
pub open spec fn unboxed(area: Rect, lines: Seq<LineView>) -> PanelView {
    PanelView { area, bordered: false, title: None, bottom: None, lines, scroll: (0, 0) }
}

/// What a key does, and the key.
pub open spec fn hint(what: Seq<char>, key: Seq<char>) -> Seq<SpanView> {
    seq![span_of(what, Style::Bold), span_of(key, Style::BoldCyan)]
}

/// The line, somewhere else.
pub fn align_line(line: TextLine, align: Align) -> (r: TextLine)
    ensures
        r@ == aligned(line@, align),
{
    TextLine { align, ..line }
}

/// A line of plain text, with a piece for each line of the text.
pub fn plain_line(text: &str) -> (r: TextLine)
    ensures
        r@ == plain(text@),
{
    let pieces = lines(text);
    let ghost all = lines_of(text@);
    let mut spans: Vec<Span> = Vec::new();
    let mut i: usize = 0;
    while i < pieces.len()
        invariant
            i <= pieces@.len(),
            texts(pieces@) == all,
            spans@.len() == i,
            forall|j: int|
                0 <= j < i ==> (#[trigger] spans@[j])@ == span_of(all[j], Style::Plain),
        decreases pieces@.len() - i,
    {
        spans.push(span(pieces[i].as_str(), Style::Plain));
        i += 1;
    }
    assert(spans_view(spans@) =~= all.map_values(|l: Seq<char>| span_of(l, Style::Plain)));
    line(spans)
}

/// A line of plain text in the middle.
pub fn centered_line(text: &str) -> (r: TextLine)
    ensures
        r@ == centered(text@),
{
    align_line(plain_line(text), Align::Center)
}

/// A line of plain text at the right.
pub fn right_line(text: &str) -> (r: TextLine)
    ensures
        r@ == at_right(text@),
{
    align_line(plain_line(text), Align::Right)
}

/// A panel with a border.
pub fn boxed_panel(
    area: Rect,
    title: TextLine,
    bottom: Option<TextLine>,
    lines: Vec<TextLine>,
    scroll: (u16, u16),
) -> (r: Panel)
    ensures
        r@ == boxed(area, title@, border_view(bottom), lines_view(lines@), scroll),
{
    Panel { area, bordered: true, title: Some(title), bottom, lines, scroll }
}

/// A panel without a border.
pub fn unboxed_panel(area: Rect, lines: Vec<TextLine>) -> (r: Panel)
    ensures
        r@ == unboxed(area, lines_view(lines@)),
{
    Panel { area, bordered: false, title: None, bottom: None, lines, scroll: (0, 0) }
}

/// Adds what a key does, and the key.
pub fn push_hint(spans: &mut Vec<Span>, what: &str, key: &str)
    ensures
        spans_view(final(spans)@) == spans_view(old(spans)@) + hint(what@, key@),
{
    let ghost before = spans@;
    spans.push(span(what, Style::Bold));
    spans.push(span(key, Style::BoldCyan));
    assert(spans_view(spans@) =~= spans_view(before) + hint(what@, key@));
}

/// One line.
pub fn one_line(line: TextLine) -> (r: Vec<TextLine>)
    ensures
        lines_view(r@) == seq![line@],
{
    let mut r: Vec<TextLine> = Vec::new();
    r.push(line);
    assert(lines_view(r@) =~= seq![line@]);
    r
}

} // verus!
