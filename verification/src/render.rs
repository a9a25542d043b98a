//! What the client shows.

use vstd::prelude::*;
use vstd::string::*;

use crate::json::hex_digit;
use crate::layout::Rect;
use crate::matrix::{all_wide, flipped, grew, has_rows, new_row, rows_after, rows_view};
use crate::menu_view::{box_shown, show_box};
use crate::outside::random_byte;
use crate::panel::{panels_view, shown_view, unboxed, unboxed_panel, Panel, PanelView};
use crate::state::{App, AppView, FetcherInfo, Screen};
use crate::style::{
    line_of, lines_view, span, span_of, Align, LineView, Span, SpanView, Style, TextLine,
};

verus! {

/// A cell of the background: some hexadecimal digit where the bit is on.
pub open spec fn shows_bit(cell: SpanView, on: bool) -> bool {
    if on {
        exists|n: int|
            0 <= n < 16 && cell == span_of(seq![#[trigger] hex_digit(n), ' '], Style::Green)
    } else {
        cell == span_of("  "@, Style::Plain)
    }
}

/// A line of the background.
pub open spec fn shows_row(line: LineView, row: Seq<bool>) -> bool {
    &&& line == line_of(line.spans)
    &&& line.spans.len() == row.len()
    &&& forall|i: int| 0 <= i < row.len() ==> shows_bit(#[trigger] line.spans[i], row[i])
}

/// The lines of the background, the last row first.
pub open spec fn shows_rows(lines: Seq<LineView>, rows: Seq<Seq<bool>>) -> bool {
    &&& lines.len() == rows.len()
    &&& forall|i: int|
        0 <= i < rows.len() ==> shows_row(#[trigger] lines[i], rows[rows.len() - 1 - i])
}

/// A text in a box that says what is happening, or, where it is done, what has happened.
pub open spec fn notice_shown(
    text: Seq<char>,
    done: bool,
    area: Rect,
    shown: Option<Seq<PanelView>>,
) -> bool {
    if done {
        box_shown(text, " Stuff has happened "@, " Press Enter to continue "@, area, shown)
    } else {
        box_shown(text, " Stuff is happening... "@, " Please wait "@, area, shown)
    }
}

/// The panels in front of those behind them, where there are any.
pub open spec fn stacked(back: Seq<PanelView>, front: Option<Seq<PanelView>>) -> Option<
    Seq<PanelView>,
> {
    match front {
        Some(panels) => Some(back + panels),
        None => None,
    }
}

impl AppView {
    /// What is shown behind the screen: nothing, or the bits, which fall by one row.
    pub open spec fn behind(self, area: Rect, after: AppView, panels: Seq<PanelView>) -> bool {
        if self.config.matrix_background {
            &&& after == (AppView { chars_matrix: after.chars_matrix, ..self })
            &&& grew(self.chars_matrix, after.chars_matrix, true)
            &&& panels.len() == 1
            &&& panels[0] == unboxed(area, panels[0].lines)
            &&& shows_rows(panels[0].lines, after.chars_matrix)
        } else {
            after == self && panels == Seq::<PanelView>::empty()
        }
    }

    /// What the screen shows, and the client after it. Nothing is shown where that cannot be done.
    pub open spec fn in_front(
        self,
        area: Rect,
        pings: Seq<Option<u128>>,
        seconds: u64,
        after: AppView,
        shown: Option<Seq<PanelView>>,
    ) -> bool {
        match self.screen {
            Screen::Selection => self.selection_shown(pings, area, after, shown),
            Screen::Connected => self.chat_shown(area, seconds, after, shown),
            Screen::New => self.new_shown(area, after, shown),
            Screen::Status => after == self && notice_shown(self.status_text, false, area, shown),
            Screen::Message => after == self && notice_shown(self.status_text, true, area, shown),
            Screen::Login => self.login_shown(area, after, shown),
        }
    }

    /// What the client shows, and the client after it: the screen in front of what is behind it.
    pub open spec fn rendered(
        self,
        area: Rect,
        pings: Seq<Option<u128>>,
        seconds: u64,
        after: AppView,
        shown: Option<Seq<PanelView>>,
    ) -> bool {
        exists|mid: AppView, back: Seq<PanelView>, front: Option<Seq<PanelView>>|
            #![trigger self.behind(area, mid, back), mid.in_front(area, pings, seconds, after, front)]
            {
                &&& self.behind(area, mid, back)
                &&& mid.in_front(area, pings, seconds, after, front)
                &&& shown == stacked(back, front)
            }
    }

    /// What the client shows of a text while it goes on, and the client after it.
    pub open spec fn notice_rendered(
        self,
        text: Seq<char>,
        done: bool,
        area: Rect,
        after: AppView,
        shown: Option<Seq<PanelView>>,
    ) -> bool {
        exists|back: Seq<PanelView>, front: Option<Seq<PanelView>>|
            #![trigger self.behind(area, after, back), notice_shown(text, done, area, front)]
            {
                &&& self.behind(area, after, back)
                &&& notice_shown(text, done, area, front)
                &&& shown == stacked(back, front)
            }
    }
}

/// A hexadecimal digit by chance, with a blank behind it.
fn random_digit() -> (r: Span)
    ensures
        shows_bit(r@, true),
{
    let n = random_byte() / 16;
    let c: char = if n < 10 {
        (48u8 + n) as char
    } else {
        (87u8 + n) as char
    };
    assert(c == hex_digit(n as int));
    let mut text = String::new();
    text.push(c);
    text.push(' ');
    assert(text@ =~= seq![hex_digit(n as int), ' ']);
    Span { text, style: Style::Green }
}

/// A line of the background.
fn row_line(row: &Vec<bool>) -> (r: TextLine)
    ensures
        shows_row(r@, row@),
{
    let mut spans: Vec<Span> = Vec::new();
    let mut i: usize = 0;
    while i < row.len()
        invariant
            i <= row@.len(),
            spans@.len() == i,
            forall|j: int| 0 <= j < i ==> shows_bit((#[trigger] spans@[j])@, row@[j]),
        decreases row@.len() - i,
    {
        if row[i] {
            spans.push(random_digit());
        } else {
            spans.push(span("  ", Style::Plain));
        }
        i += 1;
    }
    let r = TextLine { spans, marked: false, align: Align::Left };
    assert forall|j: int| 0 <= j < row@.len() implies shows_bit(#[trigger] r@.spans[j], row@[j]) by {
        assert(r@.spans[j] == spans@[j]@);
    }
    r
}

/// The lines of the background.
fn row_lines(rows: &Vec<Vec<bool>>) -> (r: Vec<TextLine>)
    ensures
        shows_rows(lines_view(r@), rows_view(rows@)),
{
    let ghost all = rows_view(rows@);
    let mut lines: Vec<TextLine> = Vec::new();
    let mut i: usize = rows.len();
    while i > 0
        invariant
            i <= rows@.len(),
            all == rows_view(rows@),
            lines@.len() == rows@.len() - i,
            forall|j: int|
                0 <= j < lines@.len() ==> shows_row(
                    (#[trigger] lines@[j])@,
                    all[all.len() - 1 - j],
                ),
        decreases i,
    {
        i -= 1;
        assert(all[i as int] == rows@[i as int]@);
        lines.push(row_line(&rows[i]));
    }
    assert forall|j: int| 0 <= j < all.len() implies shows_row(
        #[trigger] lines_view(lines@)[j],
        all[all.len() - 1 - j],
    ) by {
        assert(lines_view(lines@)[j] == lines@[j]@);
    }
    lines
}

/// A text in a box that says what is happening or has happened.
fn show_notice(text: &str, done: bool, area: Rect) -> (r: Option<Vec<Panel>>)
    ensures
        notice_shown(text@, done, area, shown_view(r)),
{
    if done {
        show_box(text, " Stuff has happened ", " Press Enter to continue ", area)
    } else {
        show_box(text, " Stuff is happening... ", " Please wait ", area)
    }
}

/// Puts the panels in front of those behind them.
fn stack(back: Vec<Panel>, front: Option<Vec<Panel>>) -> (r: Option<Vec<Panel>>)
    ensures
        shown_view(r) == stacked(panels_view(back@), shown_view(front)),
{
    match front {
        Some(panels) => {
            let mut all = back;
            let mut rest = panels;
            let ghost last = panels_view(rest@);
            all.append(&mut rest);
            assert(panels_view(all@) =~= panels_view(back@) + last);
            Some(all)
        },
        None => None,
    }
}

impl App {
    /// Lets the bits behind the screen fall by one row, where they are shown.
    fn show_behind(&mut self, area: Rect) -> (r: Vec<Panel>)
        requires
            old(self)@.wf(),
        ensures
            old(self)@.behind(area, final(self)@, panels_view(r@)),
            final(self)@.wf(),
    {
        let mut panels: Vec<Panel> = Vec::new();
        if self.config.matrix_background {
            let ghost before = rows_view(self.chars_matrix@);
            assert(has_rows(before));
            new_row(&mut self.chars_matrix, true);
            proof {
                let flips = choose|flips: Seq<bool>|
                    flips.len() == before[0].len() && rows_view(self.chars_matrix@)
                        == #[trigger] rows_after(before, flips, true);
                let after = rows_view(self.chars_matrix@);
                assert(after == before.push(flipped(before.last(), flips)).drop_first());
                assert(all_wide(after, before[0].len() as int));
                assert(self@.matrix_wf());
            }
            panels.push(unboxed_panel(area, row_lines(&self.chars_matrix)));
            assert(panels_view(panels@)[0] == panels@[0]@);
        } else {
            assert(panels_view(panels@) =~= seq![]);
        }
        panels
    }

    /// Shows the screen.
    fn show_front(&mut self, area: Rect, info: &FetcherInfo, seconds: u64) -> (r: Option<Vec<Panel>>)
        requires
            old(self)@.wf(),
        ensures
            old(self)@.in_front(area, info.ping_times@, seconds, final(self)@, shown_view(r)),
            final(self)@.wf(),
    {
        match self.screen {
            Screen::Selection => Some(self.show_selection(info, area)),
            Screen::Connected => self.show_chat(area, seconds),
            Screen::New => self.show_new(area),
            Screen::Status => show_notice(self.status_text.as_str(), false, area),
            Screen::Message => show_notice(self.status_text.as_str(), true, area),
            Screen::Login => self.show_login(area),
        }
    }

    /// Shows the client on the area, where that can be done. `seconds` is the time of day.
    pub fn render(&mut self, area: Rect, info: &FetcherInfo, seconds: u64) -> (r: Option<Vec<Panel>>)
        requires
            old(self)@.wf(),
        ensures
            old(self)@.rendered(area, info.ping_times@, seconds, final(self)@, shown_view(r)),
            final(self)@.wf(),
    {
        let back = self.show_behind(area);
        let ghost mid = self@;
        let front = self.show_front(area, info, seconds);
        assert(mid.in_front(area, info.ping_times@, seconds, self@, shown_view(front)));
        stack(back, front)
    }

    /// Shows a text on the area while the client goes on: what is happening, or, where it is done,
    /// what has happened.
    pub fn render_notice(&mut self, text: &str, done: bool, area: Rect) -> (r: Option<Vec<Panel>>)
        requires
            old(self)@.wf(),
        ensures
            old(self)@.notice_rendered(text@, done, area, final(self)@, shown_view(r)),
            final(self)@.wf(),
    {
        let back = self.show_behind(area);
        let front = show_notice(text, done, area);
        assert(notice_shown(text@, done, area, shown_view(front)));
        stack(back, front)
    }
}

} // verus!
