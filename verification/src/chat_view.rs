//! How the channels of a server are shown.

use vstd::prelude::*;
use vstd::string::*;

use crate::clock::{is_showable_time, time_reads, timestamp_str};
use crate::connected::{last_place, last_with_id};
use crate::input::{InputBuffer, InputView};
use crate::layout::{Constraint, Rect};
use crate::message_view::{
    can_show, find_msg, first_with_id, found, has_id, lemma_found, msg_lines, show_msg,
};
use crate::msg::{msgs_view, Msg, MsgView};
use crate::names::{lemma_same_names, named, NameMap};
use crate::outside::{cuts_across, cuts_down, showable_time, split_horizontal, split_vertical};
use crate::panel::{
    at_right, border_view, boxed, boxed_panel, centered, centered_line, one_line, panels_view,
    plain, plain_line, right_line, shown_view, Panel, PanelView,
};
use crate::state::{bufs_map, App, AppView, ConnectedField, Screen};
use crate::style::{
    line, line_of, lines_view, span, span_of, spans_view, LineView, Span, Style, TextLine,
};
use crate::text::texts;
use crate::words::{pad, padded};

verus! {

/// The areas of the screen that shows the channels.
#[derive(Clone, Copy, Debug, PartialEq, Eq, Structural)]
pub struct ChatAreas {
    pub messages: Rect,
    pub input: Rect,
    pub channels: Rect,
    pub keybinds: Rect,
    pub users: Rect,
}

/// The lines of the first `n` messages, each with its time.
pub open spec fn lines_upto(
    messages: Seq<MsgView>,
    width: u16,
    selected: Option<u64>,
    stamps: Seq<Seq<char>>,
    n: int,
) -> Seq<LineView>
    decreases n,
{
    if n <= 0 {
        seq![]
    } else {
        lines_upto(messages, width, selected, stamps, n - 1) + msg_lines(
            messages[n - 1],
            messages,
            width,
            selected,
            stamps[n - 1],
        )
    }
}

/// Every text of the messages that has to be cut can be.
pub open spec fn can_show_all(
    messages: Seq<MsgView>,
    width: u16,
    stamps: Seq<Seq<char>>,
) -> bool {
    forall|i: int|
        0 <= i < messages.len() ==> can_show(#[trigger] messages[i], messages, width, stamps[i])
}

/// How many of the lines are scrolled out of sight: none where there is room for all; else so many
/// that the selected message comes first, or, where it is far down or none is selected, that the
/// last lines and two empty ones are in sight.
pub open spec fn chat_scroll(
    messages: Seq<MsgView>,
    width: u16,
    height: u16,
    selected: Option<u64>,
    stamps: Seq<Seq<char>>,
) -> int {
    let total = lines_upto(messages, width, selected, stamps, messages.len() as int).len();
    if total <= height {
        0
    } else {
        let bottom = total - height + 2;
        match selected {
            Some(id) => {
                let place = last_place(messages, id) as int;
                let start = lines_upto(messages, width, selected, stamps, place).len();
                let count = msg_lines(
                    messages[place],
                    messages,
                    width,
                    selected,
                    stamps[place],
                ).len();
                let before = if start > count {
                    start - count
                } else {
                    0
                };
                if total - height > before {
                    start as int
                } else {
                    bottom
                }
            },
            None => bottom,
        }
    }
}

/// The columns of the screen: the sidebar and the space behind it where it is shown, the
/// messages, a space, and the users.
pub open spec fn chat_columns(sidebar: bool) -> Seq<Constraint> {
    seq![
        Constraint::Percentage(
            if sidebar {
                20
            } else {
                0
            },
        ),
        Constraint::Length(
            if sidebar {
                1
            } else {
                0
            },
        ),
        Constraint::Min(1),
        Constraint::Length(1),
        Constraint::Percentage(20),
    ]
}

/// The rows of the column with the messages.
pub open spec fn chat_rows() -> Seq<Constraint> {
    seq![Constraint::Min(1), Constraint::Length(3)]
}

/// The rows of the sidebar.
pub open spec fn sidebar_rows(hints: nat) -> Seq<Constraint> {
    seq![Constraint::Min(1), Constraint::Length((hints + 2) as u16)]
}

/// The line that says what a key does.
pub open spec fn hint_line(hint: (Seq<char>, Seq<char>)) -> LineView {
    line_of(
        seq![
            span_of(" "@ + padded(hint.1, 8), Style::Cyan),
            span_of(hint.0, Style::Plain),
        ],
    )
}

/// Every input line gets a window of `size` cells.
pub open spec fn sized_lines(bufs: Map<Seq<char>, InputView>, size: usize) -> Map<
    Seq<char>,
    InputView,
> {
    bufs.map_values(|b: InputView| InputView { bufsize: size, ..b })
}

/// What is known only once the screen is drawn: the parts of the screen, and the times as they
/// read on this machine.
pub struct ChatGiven {
    pub columns: Seq<Rect>,
    pub rows: Seq<Rect>,
    pub sidebar: Seq<Rect>,
    pub stamps: Seq<Seq<char>>,
    pub clock: Seq<char>,
}

impl ChatGiven {
    pub open spec fn areas(self) -> ChatAreas {
        ChatAreas {
            messages: self.rows[0],
            input: self.rows[1],
            channels: self.sidebar[0],
            keybinds: self.sidebar[1],
            users: self.columns[4],
        }
    }
}

impl AppView {
    /// What the keys do, and the keys.
    pub open spec fn chat_hints(self) -> Seq<(Seq<char>, Seq<char>)> {
        if self.selected_connected_field == ConnectedField::Typing {
            seq![
                ("Send message"@, "enter"@),
                ("Select message"@, "up/down"@),
                ("Previous channel"@, "page up"@),
                ("Next channel"@, "page dn"@),
                ("Exit typing mode"@, "esc"@),
                ("DOES NOT COPY!"@, "CTRL-C"@),
            ]
        } else {
            let always = seq![
                ("Enter typing mode"@, "tab"@),
                ("Previous channel"@, "page up"@),
                ("Next channel"@, "page dn"@),
                ("Select message"@, "up/down"@),
                ("Leave server"@, "esc"@),
                ("Toggle sidebar"@, "t"@),
            ];
            match self.selected_id() {
                Some(id) => {
                    let reply = if self.replying_to is Some {
                        ("Unreply to selected"@, "u"@)
                    } else {
                        ("Reply to selected"@, "r"@)
                    };
                    let chosen = always.push(reply).push(("Deselect message"@, "d"@)).push(
                        ("Copy message"@, "c"@),
                    );
                    if found(self.messages(), id).replying_to is Some {
                        chosen.push(("Go to original"@, "o"@))
                    } else {
                        chosen
                    }
                },
                None => always,
            }
        }
    }

    /// The lines of the channels, the selected one marked.
    pub open spec fn channel_lines(self) -> Seq<LineView> {
        Seq::new(
            self.current_server.channels.len(),
            |i: int|
                LineView {
                    marked: self.selected_channel == Some(i as usize),
                    ..plain(" #"@ + self.current_server.channels[i] + " "@)
                },
        )
    }

    /// The lines of the users.
    pub open spec fn user_lines(self) -> Seq<LineView> {
        self.current_server.connected_users.map_values(|u: Seq<char>| plain(" "@ + u))
    }

    /// What stands under the input line: the message that is replied to or selected.
    pub open spec fn chat_footer(self, stamps: Seq<Seq<char>>) -> Option<Seq<char>> {
        match self.replying_to {
            Some(id) => Some(
                if has_id(self.messages(), id) {
                    " Replying to "@ + found(self.messages(), id).user + " on "@ + stamp_of(
                        self.messages(),
                        stamps,
                        id,
                    ) + " "@
                } else {
                    " Replying to [unloaded message] "@
                },
            ),
            None => match self.selected_id() {
                Some(id) => Some(
                    " Selected from "@ + found(self.messages(), id).user + " on "@ + stamp_of(
                        self.messages(),
                        stamps,
                        id,
                    ) + " "@,
                ),
                None => None,
            },
        }
    }

    /// The input lines get as wide as the column of the messages.
    pub open spec fn chat_sized(self, width: u16) -> AppView {
        AppView {
            new_message_bufs: sized_lines(self.new_message_bufs, (width - 4) as usize),
            ..self
        }
    }

    pub open spec fn is_typing(self) -> bool {
        self.selected_connected_field == ConnectedField::Typing
    }

    /// There is room for the messages and for the input line, every text that has to be cut can
    /// be, and the input line has a cell for the cursor.
    pub open spec fn chat_fits(self, areas: ChatAreas, stamps: Seq<Seq<char>>) -> bool {
        &&& areas.messages.width >= 4
        &&& can_show_all(self.messages(), areas.messages.width, stamps)
        &&& areas.input.width >= 2 ==> self.chat_sized(areas.messages.width).line().can_draw(
            self.is_typing(),
            "New message..."@,
        )
    }

    /// The messages of the selected channel.
    pub open spec fn messages_panel(self, area: Rect, stamps: Seq<Seq<char>>) -> PanelView {
        let offset = chat_scroll(
            self.messages(),
            area.width,
            area.height,
            self.selected_id(),
            stamps,
        );
        boxed(
            area,
            centered(" "@ + self.current_server.hostname + " #"@ + self.channel() + " "@),
            None,
            lines_upto(
                self.messages(),
                area.width,
                self.selected_id(),
                stamps,
                self.messages().len() as int,
            ),
            ((offset % 0x10000) as u16, 0),
        )
    }

    /// The channels and what the keys do.
    pub open spec fn sidebar_panels(self, channels: Rect, keybinds: Rect) -> Seq<PanelView> {
        if self.sidebar {
            seq![
                boxed(channels, centered(" Channels "@), None, self.channel_lines(), (0, 0)),
                boxed(
                    keybinds,
                    centered(" Keybinds "@),
                    None,
                    self.chat_hints().map_values(|h: (Seq<char>, Seq<char>)| hint_line(h)),
                    (0, 0),
                ),
            ]
        } else {
            seq![]
        }
    }

    /// The input line and the users.
    pub open spec fn input_panels(
        self,
        input: Rect,
        users: Rect,
        stamps: Seq<Seq<char>>,
        clock: Seq<char>,
    ) -> Seq<PanelView> {
        if input.width < 2 {
            seq![]
        } else {
            let (shown, offset) = self.line().draw(self.is_typing(), "New message..."@);
            seq![
                boxed(
                    input,
                    at_right(" "@ + clock + " "@),
                    match self.chat_footer(stamps) {
                        Some(text) => Some(at_right(text)),
                        None => None,
                    },
                    seq![shown],
                    (0, offset),
                ),
                boxed(users, centered(" Connected Users "@), None, self.user_lines(), (0, 0)),
            ]
        }
    }

    /// Everything on the screen that shows the channels.
    pub open spec fn chat_panels(
        self,
        areas: ChatAreas,
        stamps: Seq<Seq<char>>,
        clock: Seq<char>,
    ) -> Seq<PanelView> {
        seq![self.messages_panel(areas.messages, stamps)] + self.sidebar_panels(
            areas.channels,
            areas.keybinds,
        ) + self.input_panels(areas.input, areas.users, stamps, clock)
    }

    /// There is a channel to show, and every time in it can be shown.
    pub open spec fn chat_showable(self, seconds: u64) -> bool {
        &&& self.has_channel()
        &&& showable_time(seconds)
        &&& forall|i: int|
            0 <= i < self.messages().len() ==> showable_time((#[trigger] self.messages()[i]).time)
    }

    /// The screen may be cut in this way, and the times may read like this.
    pub open spec fn chat_possible(self, given: ChatGiven, area: Rect, seconds: u64) -> bool {
        &&& cuts_across(chat_columns(self.sidebar), area, given.columns)
        &&& cuts_down(chat_rows(), given.columns[2], given.rows)
        &&& cuts_down(sidebar_rows(self.chat_hints().len()), given.columns[0], given.sidebar)
        &&& given.stamps.len() == self.messages().len()
        &&& forall|i: int|
            0 <= i < given.stamps.len() ==> time_reads(
                self.messages()[i].time,
                #[trigger] given.stamps[i],
            )
        &&& time_reads(seconds, given.clock)
    }
}

impl AppView {
    /// What is shown of the channels, and the client after it, with what is given.
    pub open spec fn chat_with(self, given: ChatGiven) -> (AppView, Option<Seq<PanelView>>) {
        let areas = given.areas();
        let after = if areas.messages.width < 4 {
            self
        } else {
            self.chat_sized(areas.messages.width)
        };
        let panels = if self.chat_fits(areas, given.stamps) {
            Some(after.chat_panels(areas, given.stamps, given.clock))
        } else {
            None
        };
        (after, panels)
    }

    /// Nothing is shown where there is no channel or a time cannot be shown; else what follows
    /// from some way in which the screen may be cut and the times may read.
    pub open spec fn chat_shown(
        self,
        area: Rect,
        seconds: u64,
        after: AppView,
        panels: Option<Seq<PanelView>>,
    ) -> bool {
        if self.chat_showable(seconds) {
            exists|given: ChatGiven| #[trigger]
                self.chat_possible(given, area, seconds) && (after, panels) == self.chat_with(given)
        } else {
            after == self && panels is None
        }
    }
}

/// The time of the first message with the id.
pub open spec fn stamp_of(messages: Seq<MsgView>, stamps: Seq<Seq<char>>, id: u64) -> Seq<char> {
    stamps[choose|i: int| first_with_id(messages, id, i)]
}

/// Gives every input line a window of `size` cells.
fn size_lines(bufs: &mut NameMap<InputBuffer>, size: usize)
    ensures
        bufs_map(*final(bufs)) == sized_lines(bufs_map(*old(bufs)), size),
{
    let ghost before = bufs.entries@;
    let mut i: usize = 0;
    while i < bufs.entries.len()
        invariant
            i <= bufs.entries@.len(),
            bufs.entries@.len() == before.len(),
            forall|j: int|
                0 <= j < before.len() ==> (#[trigger] bufs.entries@[j]).0 == before[j].0,
            forall|j: int|
                0 <= j < i ==> (#[trigger] bufs.entries@[j]).1@ == (InputView {
                    bufsize: size,
                    ..before[j].1@
                }),
            forall|j: int| i <= j < before.len() ==> #[trigger] bufs.entries@[j] == before[j],
        decreases bufs.entries@.len() - i,
    {
        bufs.entries[i].1.bufsize = size;
        i += 1;
    }
    proof {
        let after = bufs.entries@;
        assert forall|name: Seq<char>| #[trigger] named(before, name) == named(after, name) by {
            lemma_same_names(before, after, name);
        }
        assert forall|name: Seq<char>| named(before, name) implies #[trigger] bufs_map(
            *bufs,
        )[name] == sized_lines(bufs_map(*old(bufs)), size)[name] by {
            lemma_same_names(before, after, name);
        }
        assert(bufs_map(*bufs) =~= sized_lines(bufs_map(*old(bufs)), size));
    }
}

/// The lines of the messages, where every text that has to be cut can be, with the place and the
/// number of those of the selected message.
fn show_messages(
    messages: &Vec<Msg>,
    width: u16,
    selected: &Option<u64>,
    stamps: &Vec<String>,
) -> (r: Option<(Vec<TextLine>, usize, usize)>)
    requires
        stamps@.len() == messages@.len(),
    ensures
        r is Some <==> can_show_all(msgs_view(messages@), width, texts(stamps@)),
        r matches Some((lines, start, count)) ==> {
            let all = msgs_view(messages@);
            &&& lines_view(lines@) == lines_upto(
                all,
                width,
                *selected,
                texts(stamps@),
                all.len() as int,
            )
            &&& selected is Some && has_id(all, selected->0) ==> {
                let place = last_place(all, selected->0) as int;
                &&& start == lines_upto(all, width, *selected, texts(stamps@), place).len()
                &&& count == msg_lines(
                    all[place],
                    all,
                    width,
                    *selected,
                    texts(stamps@)[place],
                ).len()
            }
        },
{
    let ghost all = msgs_view(messages@);
    let ghost times = texts(stamps@);
    let mut lines: Vec<TextLine> = Vec::new();
    let mut start: usize = 0;
    let mut count: usize = 0;
    let mut i: usize = 0;
    let ghost mut place: int = -1;
    assert(lines_view(lines@) =~= seq![]);
    while i < messages.len()
        invariant
            i <= messages@.len(),
            stamps@.len() == messages@.len(),
            all == msgs_view(messages@),
            times == texts(stamps@),
            forall|j: int| 0 <= j < i ==> can_show(#[trigger] all[j], all, width, times[j]),
            lines_view(lines@) == lines_upto(all, width, *selected, times, i as int),
            lines_view(lines@).len() == lines@.len(),
            -1 <= place < i,
            selected is Some ==> forall|j: int|
                place < j < i ==> (#[trigger] all[j]).id != selected->0,
            place >= 0 ==> {
                &&& selected is Some
                &&& all[place].id == selected->0
                &&& start == lines_upto(all, width, *selected, times, place).len()
                &&& count == msg_lines(all[place], all, width, *selected, times[place]).len()
            },
        decreases messages@.len() - i,
    {
        assert(all[i as int] == messages@[i as int]@);
        assert(times[i as int] == stamps@[i as int]@);
        match show_msg(&messages[i], messages, width, selected, stamps[i].as_str()) {
            Some(shown) => {
                let mut more = shown;
                let ghost before = lines@;
                let ghost added = more@;
                let is_selected = match selected {
                    Some(id) => *id == messages[i].id,
                    None => false,
                };
                if is_selected {
                    start = lines.len();
                    count = more.len();
                    proof {
                        place = i as int;
                        assert(lines_view(added).len() == added.len());
                    }
                }
                lines.append(&mut more);
                assert(lines_view(lines@) =~= lines_view(before) + lines_view(added));
            },
            None => {
                assert(!can_show(all[i as int], all, width, times[i as int]));
                return None;
            },
        }
        i += 1;
    }
    proof {
        if selected is Some && has_id(all, selected->0) {
            let id = selected->0;
            let w = choose|w: int| 0 <= w < all.len() && (#[trigger] all[w]).id == id;
            assert(place >= 0);
            assert(last_with_id(all, id, place));
            let k = choose|k: int| last_with_id(all, id, k);
            if k < place {
                assert(all[place].id != id);
            } else if place < k {
                assert(all[k].id != id);
            }
        }
    }
    Some((lines, start, count))
}

/// How far the lines of the messages are scrolled.
fn scroll_of(total: usize, height: u16, selected: bool, start: usize, count: usize) -> (r: u16)
    ensures
        r == (if total <= height {
            0
        } else {
            let before = if start > count {
                start - count
            } else {
                0
            };
            if selected && total - height > before {
                start as int
            } else {
                total - height + 2
            }
        }) % 0x10000,
{
    let room = height as usize;
    if total <= room {
        return 0;
    }
    let before: usize = if start > count {
        start - count
    } else {
        0
    };
    if selected && total - room > before {
        (start % 0x10000) as u16
    } else {
        (((total - room) % 0x10000 + 2) % 0x10000) as u16
    }
}

/// The texts of the two.
pub open spec fn hint_view(hint: (String, String)) -> (Seq<char>, Seq<char>) {
    (hint.0@, hint.1@)
}

/// What the keys do, and the keys.
pub open spec fn hints_view(hints: Seq<(String, String)>) -> Seq<(Seq<char>, Seq<char>)> {
    hints.map_values(|h: (String, String)| hint_view(h))
}

fn add_hint(hints: &mut Vec<(String, String)>, what: &str, key: &str)
    ensures
        hints_view(final(hints)@) == hints_view(old(hints)@).push((what@, key@)),
{
    let ghost before = hints@;
    hints.push((what.to_owned(), key.to_owned()));
    assert(hints_view(hints@) =~= hints_view(before).push((what@, key@)));
}

/// The lines that say what the keys do.
fn hint_lines(hints: &Vec<(String, String)>) -> (r: Vec<TextLine>)
    ensures
        lines_view(r@) == hints_view(hints@).map_values(
            |h: (Seq<char>, Seq<char>)| hint_line(h),
        ),
{
    let mut lines: Vec<TextLine> = Vec::new();
    let mut i: usize = 0;
    while i < hints.len()
        invariant
            i <= hints@.len(),
            lines@.len() == i,
            forall|j: int|
                0 <= j < i ==> (#[trigger] lines@[j])@ == hint_line(hint_view(hints@[j])),
        decreases hints@.len() - i,
    {
        let mut key = " ".to_owned();
        key.append(pad(hints[i].1.as_str(), 8).as_str());
        let mut spans: Vec<Span> = Vec::new();
        spans.push(Span { text: key, style: Style::Cyan });
        spans.push(span(hints[i].0.as_str(), Style::Plain));
        assert(spans_view(spans@) =~= hint_line(hint_view(hints@[i as int])).spans);
        lines.push(line(spans));
        i += 1;
    }
    assert(lines_view(lines@) =~= hints_view(hints@).map_values(
        |h: (Seq<char>, Seq<char>)| hint_line(h),
    ));
    lines
}

impl App {
    /// The messages of a channel.
    fn channel_msgs(&self, name: &str) -> (r: &Vec<Msg>)
        requires
            self@.wf(),
            self@.has_channel(),
            name@ == self@.channel(),
        ensures
            msgs_view(r@) == self@.messages(),
    {
        self.current_server.msgs.get(name).unwrap()
    }

    /// What the keys do, and the keys.
    pub fn chat_hints(&self) -> (r: Vec<(String, String)>)
        requires
            self@.wf(),
            self@.screen == Screen::Connected,
            self@.has_channel(),
        ensures
            hints_view(r@) == self@.chat_hints(),
            r@.len() <= 10,
    {
        let name = self.channel_name();
        let mut hints: Vec<(String, String)> = Vec::new();
        assert(hints_view(hints@) =~= seq![]);
        if self.is_typing() {
            add_hint(&mut hints, "Send message", "enter");
            add_hint(&mut hints, "Select message", "up/down");
            add_hint(&mut hints, "Previous channel", "page up");
            add_hint(&mut hints, "Next channel", "page dn");
            add_hint(&mut hints, "Exit typing mode", "esc");
            add_hint(&mut hints, "DOES NOT COPY!", "CTRL-C");
            assert(hints_view(hints@) =~= self@.chat_hints());
            assert(hints_view(hints@).len() == hints@.len());
            return hints;
        }
        add_hint(&mut hints, "Enter typing mode", "tab");
        add_hint(&mut hints, "Previous channel", "page up");
        add_hint(&mut hints, "Next channel", "page dn");
        add_hint(&mut hints, "Select message", "up/down");
        add_hint(&mut hints, "Leave server", "esc");
        add_hint(&mut hints, "Toggle sidebar", "t");
        if let Some(id) = self.selected_msg(name.as_str()) {
            if self.replying_to.is_some() {
                add_hint(&mut hints, "Unreply to selected", "u");
            } else {
                add_hint(&mut hints, "Reply to selected", "r");
            }
            add_hint(&mut hints, "Deselect message", "d");
            add_hint(&mut hints, "Copy message", "c");
            let messages = self.channel_msgs(name.as_str());
            if let Some(i) = find_msg(messages, id) {
                if messages[i].replying_to.is_some() {
                    add_hint(&mut hints, "Go to original", "o");
                }
            }
        }
        assert(hints_view(hints@) =~= self@.chat_hints());
        assert(hints_view(hints@).len() == hints@.len());
        hints
    }

    /// The lines of the channels.
    fn channel_lines(&self) -> (r: Vec<TextLine>)
        ensures
            lines_view(r@) == self@.channel_lines(),
    {
        let mut lines: Vec<TextLine> = Vec::new();
        let mut i: usize = 0;
        while i < self.current_server.channels.len()
            invariant
                i <= self.current_server.channels@.len(),
                lines@.len() == i,
                forall|j: int|
                    0 <= j < i ==> (#[trigger] lines@[j])@ == self@.channel_lines()[j],
            decreases self.current_server.channels@.len() - i,
        {
            let mut text = " #".to_owned();
            text.append(self.current_server.channels[i].as_str());
            text.append(" ");
            let mut shown = plain_line(text.as_str());
            shown.marked =
            match self.selected_channel {
                Some(selected) => selected == i,
                None => false,
            };
            assert(shown@ == self@.channel_lines()[i as int]);
            lines.push(shown);
            i += 1;
        }
        assert(lines_view(lines@) =~= self@.channel_lines());
        lines
    }

    /// The lines of the users.
    fn user_lines(&self) -> (r: Vec<TextLine>)
        ensures
            lines_view(r@) == self@.user_lines(),
    {
        let mut lines: Vec<TextLine> = Vec::new();
        let mut i: usize = 0;
        while i < self.current_server.connected_users.len()
            invariant
                i <= self.current_server.connected_users@.len(),
                lines@.len() == i,
                forall|j: int| 0 <= j < i ==> (#[trigger] lines@[j])@ == self@.user_lines()[j],
            decreases self.current_server.connected_users@.len() - i,
        {
            let mut text = " ".to_owned();
            text.append(self.current_server.connected_users[i].as_str());
            lines.push(plain_line(text.as_str()));
            i += 1;
        }
        assert(lines_view(lines@) =~= self@.user_lines());
        lines
    }

    /// What stands under the input line.
    fn chat_footer(&self, name: &str, stamps: &Vec<String>) -> (r: Option<TextLine>)
        requires
            self@.wf(),
            self@.screen == Screen::Connected,
            self@.has_channel(),
            name@ == self@.channel(),
            stamps@.len() == self@.messages().len(),
        ensures
            border_view(r) == match self@.chat_footer(texts(stamps@)) {
                Some(text) => Some(at_right(text)),
                None => None,
            },
    {
        let messages = self.channel_msgs(name);
        assert(messages@.len() == self@.messages().len());
        let (id, intro): (u64, &str) = match self.replying_to {
            Some(id) => (id, " Replying to "),
            None => match self.selected_msg(name) {
                Some(id) => (id, " Selected from "),
                None => {
                    return None;
                },
            },
        };
        match find_msg(messages, id) {
            Some(i) => {
                proof {
                    let k = choose|k: int| first_with_id(self@.messages(), id, k);
                    lemma_found(self@.messages(), id, i as int);
                    if k < i {
                        assert(self@.messages()[k].id != id);
                    } else if i < k {
                        assert(self@.messages()[i as int].id != id);
                    }
                    assert(stamp_of(self@.messages(), texts(stamps@), id) == stamps@[i as int]@);
                }
                let mut text = intro.to_owned();
                text.append(messages[i].user.as_str());
                text.append(" on ");
                text.append(stamps[i].as_str());
                text.append(" ");
                Some(right_line(text.as_str()))
            },
            None => Some(right_line(" Replying to [unloaded message] ")),
        }
    }

    /// The panel with the messages, where every text that has to be cut can be.
    fn messages_panel(&self, name: &str, area: Rect, stamps: &Vec<String>) -> (r: Option<Panel>)
        requires
            self@.wf(),
            self@.screen == Screen::Connected,
            self@.has_channel(),
            name@ == self@.channel(),
            stamps@.len() == self@.messages().len(),
        ensures
            r is Some <==> can_show_all(self@.messages(), area.width, texts(stamps@)),
            r is Some ==> r->0@ == self@.messages_panel(area, texts(stamps@)),
    {
        let messages = self.channel_msgs(name);
        assert(messages@.len() == self@.messages().len());
        let selected = self.selected_msg(name);
        match show_messages(messages, area.width, &selected, stamps) {
            Some((lines, start, count)) => {
                assert(lines_view(lines@).len() == lines@.len());
                let offset = scroll_of(
                    lines.len(),
                    area.height,
                    selected.is_some(),
                    start,
                    count,
                );
                let mut title = " ".to_owned();
                title.append(self.current_server.hostname.as_str());
                title.append(" #");
                title.append(name);
                title.append(" ");
                Some(
                    boxed_panel(
                        area,
                        centered_line(title.as_str()),
                        None,
                        lines,
                        (offset, 0),
                    ),
                )
            },
            None => None,
        }
    }

    /// The panels with the input line and the users, where the line has a cell for the cursor.
    fn input_panels(
        &self,
        name: &str,
        input: Rect,
        users: Rect,
        stamps: &Vec<String>,
        clock: &str,
    ) -> (r: Option<Vec<Panel>>)
        requires
            self@.wf(),
            self@.screen == Screen::Connected,
            self@.has_channel(),
            name@ == self@.channel(),
            stamps@.len() == self@.messages().len(),
        ensures
            r is Some <==> (input.width >= 2 ==> self@.line().can_draw(
                self@.is_typing(),
                "New message..."@,
            )),
            r is Some ==> panels_view(r->0@) == self@.input_panels(
                input,
                users,
                texts(stamps@),
                clock@,
            ),
    {
        let mut panels: Vec<Panel> = Vec::new();
        if input.width < 2 {
            assert(panels_view(panels@) =~= seq![]);
            return Some(panels);
        }
        let typing = self.is_typing();
        let buf = self.new_message_bufs.get(name).unwrap();
        assert(buf@ == self@.line());
        if !buf.can_draw(typing, "New message...") {
            return None;
        }
        let (shown, offset) = buf.draw(typing, Some("New message...".to_owned()));
        let mut title = " ".to_owned();
        title.append(clock);
        title.append(" ");
        panels.push(
            boxed_panel(
                input,
                right_line(title.as_str()),
                self.chat_footer(name, stamps),
                one_line(shown),
                (0, offset),
            ),
        );
        panels.push(
            boxed_panel(
                users,
                centered_line(" Connected Users "),
                None,
                self.user_lines(),
                (0, 0),
            ),
        );
        assert(panels_view(panels@) =~= self@.input_panels(input, users, texts(stamps@), clock@));
        Some(panels)
    }

    /// The screen that shows the channels in its areas, with the times of the messages and the
    /// time of day, where there is room for it.
    pub fn chat_panels(&mut self, areas: ChatAreas, stamps: &Vec<String>, clock: &str) -> (r: Option<
        Vec<Panel>,
    >)
        requires
            old(self)@.wf(),
            old(self)@.screen == Screen::Connected,
            old(self)@.has_channel(),
            stamps@.len() == old(self)@.messages().len(),
        ensures
            final(self)@.wf(),
            r is Some <==> old(self)@.chat_fits(areas, texts(stamps@)),
            match r {
                Some(panels) => {
                    &&& final(self)@ == old(self)@.chat_sized(areas.messages.width)
                    &&& panels_view(panels@) == final(self)@.chat_panels(
                        areas,
                        texts(stamps@),
                        clock@,
                    )
                },
                None => final(self)@ == if areas.messages.width < 4 {
                    old(self)@
                } else {
                    old(self)@.chat_sized(areas.messages.width)
                },
            },
    {
        if areas.messages.width < 4 {
            return None;
        }
        let name = self.channel_name();
        size_lines(&mut self.new_message_bufs, (areas.messages.width - 4) as usize);
        let mut panels: Vec<Panel> = Vec::new();
        match self.messages_panel(name.as_str(), areas.messages, stamps) {
            Some(panel) => panels.push(panel),
            None => {
                return None;
            },
        }
        if self.sidebar {
            let hints = self.chat_hints();
            panels.push(
                boxed_panel(
                    areas.channels,
                    centered_line(" Channels "),
                    None,
                    self.channel_lines(),
                    (0, 0),
                ),
            );
            panels.push(
                boxed_panel(
                    areas.keybinds,
                    centered_line(" Keybinds "),
                    None,
                    hint_lines(&hints),
                    (0, 0),
                ),
            );
        }
        let ghost so_far = seq![self@.messages_panel(areas.messages, texts(stamps@))]
            + self@.sidebar_panels(areas.channels, areas.keybinds);
        assert(panels_view(panels@) =~= so_far);
        let mut rest = match self.input_panels(
            name.as_str(),
            areas.input,
            areas.users,
            stamps,
            clock,
        ) {
            Some(rest) => rest,
            None => {
                return None;
            },
        };
        let ghost last = panels_view(rest@);
        panels.append(&mut rest);
        assert(panels_view(panels@) =~= so_far + last);
        Some(panels)
    }

    /// Whether there is a channel to show, and every time in it can be shown.
    pub fn chat_showable(&self, seconds: u64) -> (r: bool)
        requires
            self@.wf(),
        ensures
            r == self@.chat_showable(seconds),
    {
        match self.selected_channel {
            Some(i) => {
                if i >= self.current_server.channels.len() {
                    return false;
                }
            },
            None => {
                return false;
            },
        }
        if !is_showable_time(seconds) {
            return false;
        }
        let name = self.channel_name();
        let messages = self.channel_msgs(name.as_str());
        let ghost all = msgs_view(messages@);
        let mut i: usize = 0;
        while i < messages.len()
            invariant
                i <= messages@.len(),
                all == msgs_view(messages@),
                all == self@.messages(),
                forall|j: int| 0 <= j < i ==> showable_time((#[trigger] all[j]).time),
            decreases messages@.len() - i,
        {
            if !is_showable_time(messages[i].time) {
                assert(!showable_time(all[i as int].time));
                return false;
            }
            assert(showable_time(all[i as int].time));
            i += 1;
        }
        true
    }

    /// The times of the messages of a channel, as they read on this machine.
    fn msg_times(&self, name: &str) -> (r: Vec<String>)
        requires
            self@.wf(),
            self@.has_channel(),
            name@ == self@.channel(),
            forall|i: int|
                0 <= i < self@.messages().len() ==> showable_time(
                    (#[trigger] self@.messages()[i]).time,
                ),
        ensures
            r@.len() == self@.messages().len(),
            forall|i: int|
                0 <= i < r@.len() ==> time_reads(
                    self@.messages()[i].time,
                    #[trigger] texts(r@)[i],
                ),
    {
        let messages = self.channel_msgs(name);
        let ghost all = msgs_view(messages@);
        let mut stamps: Vec<String> = Vec::new();
        let mut i: usize = 0;
        while i < messages.len()
            invariant
                i <= messages@.len(),
                all == msgs_view(messages@),
                stamps@.len() == i,
                forall|j: int| 0 <= j < all.len() ==> showable_time((#[trigger] all[j]).time),
                forall|j: int| 0 <= j < i ==> time_reads(all[j].time, (#[trigger] stamps@[j])@),
            decreases messages@.len() - i,
        {
            assert(showable_time(all[i as int].time));
            let stamp = timestamp_str(messages[i].time);
            stamps.push(stamp);
            i += 1;
        }
        assert forall|j: int| 0 <= j < stamps@.len() implies time_reads(
            self@.messages()[j].time,
            #[trigger] texts(stamps@)[j],
        ) by {
            assert(texts(stamps@)[j] == stamps@[j]@);
        }
        stamps
    }

    /// Shows the channels, where there is a channel to show and room for it. `seconds` is the time
    /// of day.
    pub fn show_chat(&mut self, area: Rect, seconds: u64) -> (r: Option<Vec<Panel>>)
        requires
            old(self)@.wf(),
            old(self)@.screen == Screen::Connected,
        ensures
            final(self)@.wf(),
            old(self)@.chat_shown(area, seconds, final(self)@, shown_view(r)),
    {
        if !self.chat_showable(seconds) {
            return None;
        }
        let across: Vec<Constraint> = vec![
            Constraint::Percentage(if self.sidebar { 20 } else { 0 }),
            Constraint::Length(if self.sidebar { 1 } else { 0 }),
            Constraint::Min(1),
            Constraint::Length(1),
            Constraint::Percentage(20),
        ];
        assert(across@ =~= chat_columns(self@.sidebar));
        let columns = split_horizontal(&across, area);
        let down: Vec<Constraint> = vec![Constraint::Min(1), Constraint::Length(3)];
        assert(down@ =~= chat_rows());
        let rows = split_vertical(&down, columns[2]);
        let hints = self.chat_hints();
        assert(hints@.len() == self@.chat_hints().len());
        let side: Vec<Constraint> = vec![
            Constraint::Min(1),
            Constraint::Length(hints.len() as u16 + 2),
        ];
        assert(side@ =~= sidebar_rows(self@.chat_hints().len()));
        let sidebar = split_vertical(&side, columns[0]);
        let name = self.channel_name();
        let stamps = self.msg_times(name.as_str());
        let clock = timestamp_str(seconds);
        let areas = ChatAreas {
            messages: rows[0],
            input: rows[1],
            channels: sidebar[0],
            keybinds: sidebar[1],
            users: columns[4],
        };
        let r = self.chat_panels(areas, &stamps, clock.as_str());
        proof {
            let given = ChatGiven {
                columns: columns@,
                rows: rows@,
                sidebar: sidebar@,
                stamps: texts(stamps@),
                clock: clock@,
            };
            assert(given.areas() == areas);
            assert(old(self)@.chat_possible(given, area, seconds));
        }
        r
    }
}

} // verus!
