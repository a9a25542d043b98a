//! What holds of the panels of the screen.

use vstd::prelude::*;
use vstd::string::*;

use crate::chat_laws::{is_first, lemma_first};
use crate::chat_view::{stamp_of, ChatGiven};
use crate::clock::{before_last_blank, time_reads};
use crate::events::{resized, started};
use crate::input::InputView;
use crate::json::hex_digit;
use crate::layout::{Constraint, Rect};
use crate::matrix::rows_after;
use crate::message_view::{first_with_id, has_id, lemma_found};
use crate::msg::MsgView;
use crate::outside::{cuts_across, cuts_down, reads_in_zone};
use crate::panel::PanelView;
use crate::show_laws::{piece, reads};
use crate::state::{
    local_addr, AppView, ConfigView, ConnectState, ConnectedField, LoginField, Next, Screen,
};
use crate::style::{Align, LineView, SpanView, Style};
use crate::text_laws::is_free_of;
use crate::words::{count_of, decimal, padded, split_on};

verus! {

/// A panel with a border and this title, and nothing below it.
pub open spec fn has_frame(panel: PanelView, area: Rect, title: Seq<char>, align: Align) -> bool {
    &&& panel.area == area
    &&& panel.bordered
    &&& panel.title is Some
    &&& reads(panel.title->0, title, false, align)
}

/// The line says what a key does: the key, filled up to eight cells, and what it does.
pub open spec fn is_key_line(line: LineView, key: Seq<char>, what: Seq<char>) -> bool {
    &&& line.spans == seq![
        piece(" "@ + padded(key, 8), Style::Cyan),
        piece(what, Style::Plain),
    ]
    &&& !line.marked
    &&& line.align == Align::Left
}

/// Some line says what the key does.
pub open spec fn tells_key(lines: Seq<LineView>, key: Seq<char>, what: Seq<char>) -> bool {
    exists|i: int| 0 <= i < lines.len() && is_key_line(#[trigger] lines[i], key, what)
}

/// The sidebar shows the channels in their order, the selected one marked, and below them what the
/// keys do. Where it is hidden there is none.
pub proof fn law_sidebar_lists_the_channels(s: AppView, channels: Rect, keybinds: Rect)
    requires
        s.current_server.channels.len() <= usize::MAX,
    ensures
        ({
            let panels = s.sidebar_panels(channels, keybinds);
            let names = s.current_server.channels;
            if s.sidebar {
                &&& panels.len() == 2
                &&& has_frame(panels[0], channels, " Channels "@, Align::Center)
                &&& panels[0].bottom is None
                &&& panels[0].scroll == (0u16, 0u16)
                &&& panels[0].lines.len() == names.len()
                &&& forall|i: int|
                    0 <= i < names.len() ==> reads(
                        #[trigger] panels[0].lines[i],
                        " #"@ + names[i] + " "@,
                        s.selected_channel is Some && s.selected_channel->0 == i,
                        Align::Left,
                    )
                &&& has_frame(panels[1], keybinds, " Keybinds "@, Align::Center)
                &&& panels[1].bottom is None
                &&& panels[1].scroll == (0u16, 0u16)
                &&& panels[1].lines.len() == s.chat_hints().len()
            } else {
                panels.len() == 0
            }
        }),
{
}

/// What the keys do is told as it is: while the user types, how to send and how to leave the line;
/// else, how to get there, to leave the server and to hide the sidebar, and, with a message selected,
/// what can be done about it. Moving among channels and messages is told at all times.
pub proof fn law_keys_are_told(s: AppView, name: Seq<char>, channels: Rect, keybinds: Rect, i: int)
    requires
        s.sidebar,
        s.selected_channel is Some,
        s.selected_channel->0 < s.current_server.channels.len(),
        s.current_server.channels[s.selected_channel->0 as int] == name,
        s.selected_msg_ids[name] is Some ==> is_first(
            s.current_server.msgs[name],
            s.selected_msg_ids[name]->0,
            i,
        ),
    ensures
        ({
            let lines = s.sidebar_panels(channels, keybinds)[1].lines;
            let messages = s.current_server.msgs[name];
            &&& tells_key(lines, "up/down"@, "Select message"@)
            &&& tells_key(lines, "page up"@, "Previous channel"@)
            &&& tells_key(lines, "page dn"@, "Next channel"@)
            &&& if s.selected_connected_field == ConnectedField::Typing {
                &&& lines.len() == 6
                &&& tells_key(lines, "enter"@, "Send message"@)
                &&& tells_key(lines, "esc"@, "Exit typing mode"@)
                &&& tells_key(lines, "CTRL-C"@, "DOES NOT COPY!"@)
            } else {
                &&& tells_key(lines, "tab"@, "Enter typing mode"@)
                &&& tells_key(lines, "esc"@, "Leave server"@)
                &&& tells_key(lines, "t"@, "Toggle sidebar"@)
                &&& match s.selected_msg_ids[name] {
                    Some(id) => {
                        &&& tells_key(lines, "d"@, "Deselect message"@)
                        &&& tells_key(lines, "c"@, "Copy message"@)
                        &&& if s.replying_to is Some {
                            tells_key(lines, "u"@, "Unreply to selected"@)
                        } else {
                            tells_key(lines, "r"@, "Reply to selected"@)
                        }
                        &&& if messages[i].replying_to is Some {
                            lines.len() == 10 && tells_key(lines, "o"@, "Go to original"@)
                        } else {
                            lines.len() == 9
                        }
                    },
                    None => lines.len() == 6,
                }
            }
        }),
{
    let lines = s.sidebar_panels(channels, keybinds)[1].lines;
    let hints = s.chat_hints();
    if s.selected_msg_ids[name] is Some {
        lemma_found(s.current_server.msgs[name], s.selected_msg_ids[name]->0, i);
    }
    assert forall|k: int| 0 <= k < hints.len() implies is_key_line(
        #[trigger] lines[k],
        hints[k].1,
        hints[k].0,
    ) by {
        assert(lines[k].spans =~= seq![
            piece(" "@ + padded(hints[k].1, 8), Style::Cyan),
            piece(hints[k].0, Style::Plain),
        ]);
    }
    assert(is_key_line(lines[0], hints[0].1, hints[0].0));
    assert(is_key_line(lines[1], hints[1].1, hints[1].0));
    assert(is_key_line(lines[2], hints[2].1, hints[2].0));
    assert(is_key_line(lines[3], hints[3].1, hints[3].0));
    assert(is_key_line(lines[4], hints[4].1, hints[4].0));
    assert(is_key_line(lines[5], hints[5].1, hints[5].0));
    if hints.len() > 6 {
        assert(is_key_line(lines[6], hints[6].1, hints[6].0));
        assert(is_key_line(lines[7], hints[7].1, hints[7].0));
        assert(is_key_line(lines[8], hints[8].1, hints[8].0));
    }
    if hints.len() > 9 {
        assert(is_key_line(lines[9], hints[9].1, hints[9].0));
    }
}

/// What stands under the input line: who wrote the message that is replied to, or else the selected
/// one, and when.
pub open spec fn is_footer(
    s: AppView,
    name: Seq<char>,
    stamps: Seq<Seq<char>>,
    bottom: Option<LineView>,
) -> bool {
    let messages = s.current_server.msgs[name];
    match s.replying_to {
        Some(id) => bottom is Some && if exists|k: int|
            0 <= k < messages.len() && (#[trigger] messages[k]).id == id {
            exists|k: int|
                #![trigger messages[k]]
                is_first(messages, id, k) && reads(
                    bottom->0,
                    " Replying to "@ + messages[k].user + " on "@ + stamps[k] + " "@,
                    false,
                    Align::Right,
                )
        } else {
            reads(bottom->0, " Replying to [unloaded message] "@, false, Align::Right)
        },
        None => match s.selected_msg_ids[name] {
            Some(id) => bottom is Some && exists|k: int|
                #![trigger messages[k]]
                is_first(messages, id, k) && reads(
                    bottom->0,
                    " Selected from "@ + messages[k].user + " on "@ + stamps[k] + " "@,
                    false,
                    Align::Right,
                ),
            None => bottom is None,
        },
    }
}

proof fn lemma_stamp_of(messages: Seq<MsgView>, stamps: Seq<Seq<char>>, id: u64, k: int)
    requires
        is_first(messages, id, k),
    ensures
        stamp_of(messages, stamps, id) == stamps[k],
{
    assert(first_with_id(messages, id, k));
    let c = choose|i: int| first_with_id(messages, id, i);
    if c < k {
        assert(messages[c].id != id);
    } else if k < c {
        assert(messages[k].id != id);
    }
}

/// Below the messages stands the input line of the selected channel, with the time of day above it
/// and what is replied to or selected below it; beside them stand the users in their order. Where
/// there is too little room, neither is shown.
pub proof fn law_input_line_and_users_are_shown(
    s: AppView,
    name: Seq<char>,
    input: Rect,
    users: Rect,
    stamps: Seq<Seq<char>>,
    clock: Seq<char>,
)
    requires
        s.wf(),
        s.screen == Screen::Connected,
        s.selected_channel is Some,
        s.selected_channel->0 < s.current_server.channels.len(),
        s.current_server.channels[s.selected_channel->0 as int] == name,
    ensures
        ({
            let panels = s.input_panels(input, users, stamps, clock);
            let typing = s.selected_connected_field == ConnectedField::Typing;
            let names = s.current_server.connected_users;
            if input.width < 2 {
                panels.len() == 0
            } else {
                let (shown, offset) = s.new_message_bufs[name].draw(typing, "New message..."@);
                &&& panels.len() == 2
                &&& has_frame(panels[0], input, " "@ + clock + " "@, Align::Right)
                &&& is_footer(s, name, stamps, panels[0].bottom)
                &&& panels[0].lines == seq![shown]
                &&& panels[0].scroll == (0u16, offset)
                &&& has_frame(panels[1], users, " Connected Users "@, Align::Center)
                &&& panels[1].bottom is None
                &&& panels[1].scroll == (0u16, 0u16)
                &&& panels[1].lines.len() == names.len()
                &&& forall|i: int|
                    0 <= i < names.len() ==> reads(
                        #[trigger] panels[1].lines[i],
                        " "@ + names[i],
                        false,
                        Align::Left,
                    )
            }
        }),
{
    let messages = s.current_server.msgs[name];
    assert(s.selected_msg_idcs.contains_key(name));
    let id = match s.replying_to {
        Some(id) => Some(id),
        None => s.selected_msg_ids[name],
    };
    if s.replying_to is None && s.selected_msg_ids[name] is Some {
        let place = s.selected_msg_idcs[name]->0 as int;
        assert(messages[place].id == id->0);
    }
    if id is Some && has_id(messages, id->0) {
        let w = choose|w: int| 0 <= w < messages.len() && (#[trigger] messages[w]).id == id->0;
        let k = lemma_first(messages, id->0, w);
        lemma_found(messages, id->0, k);
        lemma_stamp_of(messages, stamps, id->0, k);
        assert(is_first(messages, id->0, k));
    }
}

/// The whole screen is the panel of the messages, then the sidebar, then the input line and the
/// users, each in its part of the screen.
pub proof fn law_chat_screen_has_its_panels(s: AppView, given: ChatGiven)
    ensures
        ({
            let areas = given.areas();
            let all = s.chat_panels(areas, given.stamps, given.clock);
            let messages = s.messages_panel(given.rows[0], given.stamps);
            let sidebar = s.sidebar_panels(given.sidebar[0], given.sidebar[1]);
            let input = s.input_panels(given.rows[1], given.columns[4], given.stamps, given.clock);
            &&& all.len() == 1 + sidebar.len() + input.len()
            &&& all[0] == messages
            &&& all.subrange(1, 1 + sidebar.len() as int) == sidebar
            &&& all.skip(1 + sidebar.len() as int) == input
        }),
{
    let all = s.chat_panels(given.areas(), given.stamps, given.clock);
    let sidebar = s.sidebar_panels(given.sidebar[0], given.sidebar[1]);
    let input = s.input_panels(given.rows[1], given.columns[4], given.stamps, given.clock);
    assert(all.subrange(1, 1 + sidebar.len() as int) =~= sidebar);
    assert(all.skip(1 + sidebar.len() as int) =~= input);
}

/// The screen is cut into the sidebar, the messages above the input line, and the users.
pub open spec fn cut_for_chat(s: AppView, area: Rect, given: ChatGiven) -> bool {
    &&& cuts_across(
        seq![
            Constraint::Percentage(
                if s.sidebar {
                    20
                } else {
                    0
                },
            ),
            Constraint::Length(
                if s.sidebar {
                    1
                } else {
                    0
                },
            ),
            Constraint::Min(1),
            Constraint::Length(1),
            Constraint::Percentage(20),
        ],
        area,
        given.columns,
    )
    &&& cuts_down(
        seq![Constraint::Min(1), Constraint::Length(3)],
        given.columns[2],
        given.rows,
    )
    &&& cuts_down(
        seq![Constraint::Min(1), Constraint::Length((s.chat_hints().len() + 2) as u16)],
        given.columns[0],
        given.sidebar,
    )
}

/// The times are those of the messages, and the time of day.
pub open spec fn times_read(
    messages: Seq<MsgView>,
    seconds: u64,
    given: ChatGiven,
) -> bool {
    &&& given.stamps.len() == messages.len()
    &&& forall|i: int|
        0 <= i < given.stamps.len() ==> time_reads(messages[i].time, #[trigger] given.stamps[i])
    &&& time_reads(seconds, given.clock)
}

/// What is shown of the channels comes from a way to cut the screen into the sidebar, the messages
/// above the input line, and the users, and from the times of the messages. The input lines get a
/// window four cells narrower than the messages, and nothing else of the client changes. It is shown
/// where it fits.
pub proof fn law_chat_screen_is_cut(
    s: AppView,
    name: Seq<char>,
    pings: Seq<Option<u128>>,
    area: Rect,
    seconds: u64,
    after: AppView,
    shown: Option<Seq<PanelView>>,
)
    requires
        s.screen == Screen::Connected,
        s.selected_channel is Some,
        s.selected_channel->0 < s.current_server.channels.len(),
        s.current_server.channels[s.selected_channel->0 as int] == name,
        seconds <= 8210266876799,
        forall|i: int|
            0 <= i < s.current_server.msgs[name].len() ==> (
            #[trigger] s.current_server.msgs[name][i]).time <= 8210266876799,
        s.in_front(area, pings, seconds, after, shown),
    ensures
        exists|given: ChatGiven|
            {
                &&& #[trigger] cut_for_chat(s, area, given)
                &&& times_read(s.current_server.msgs[name], seconds, given)
                &&& after == (AppView { new_message_bufs: after.new_message_bufs, ..s })
                &&& after.new_message_bufs.dom() == s.new_message_bufs.dom()
                &&& given.rows[0].width >= 4 ==> forall|line: Seq<char>| #[trigger]
                    s.new_message_bufs.contains_key(line) ==> after.new_message_bufs[line] == (
                    InputView {
                        bufsize: (given.rows[0].width - 4) as usize,
                        ..s.new_message_bufs[line]
                    })
                &&& shown is Some <==> s.chat_fits(given.areas(), given.stamps)
                &&& shown is Some ==> shown->0 == after.chat_panels(
                    given.areas(),
                    given.stamps,
                    given.clock,
                )
            },
{
    assert(s.chat_showable(seconds));
    let given = choose|given: ChatGiven| #[trigger]
        s.chat_possible(given, area, seconds) && (after, shown) == s.chat_with(given);
    assert(crate::chat_view::chat_columns(s.sidebar) =~= seq![
        Constraint::Percentage(
            if s.sidebar {
                20
            } else {
                0
            },
        ),
        Constraint::Length(
            if s.sidebar {
                1
            } else {
                0
            },
        ),
        Constraint::Min(1),
        Constraint::Length(1),
        Constraint::Percentage(20),
    ]);
    assert(cut_for_chat(s, area, given));
    assert(after.new_message_bufs.dom() =~= s.new_message_bufs.dom());
}

/// The row shows how long the server takes to answer, or that it does not, then its name and its
/// port.
pub open spec fn is_server_row(
    line: LineView,
    ping: Option<u128>,
    host: Seq<char>,
    marked: bool,
) -> bool {
    &&& line.spans == seq![
        match ping {
            Some(ms) => piece(
                " "@ + padded(decimal(ms as nat) + "ms"@, 7) + " "@,
                Style::Plain,
            ),
            None => piece(" Offline "@, Style::Red),
        },
        piece(host, Style::Bold),
        piece(":2096 "@, Style::Gray),
    ]
    &&& line.marked == marked
    &&& line.align == Align::Left
}

/// A line of what keys do: each in bold, with the key in cyan behind it.
pub open spec fn are_hints(spans: Seq<SpanView>, hints: Seq<(Seq<char>, Seq<char>)>) -> bool {
    &&& spans.len() == 2 * hints.len()
    &&& forall|i: int|
        0 <= i < hints.len() ==> spans[2 * i] == piece((#[trigger] hints[i]).0, Style::Bold)
            && spans[2 * i + 1] == piece(hints[i].1, Style::BoldCyan)
}

/// The list shows the servers in their order, from the one that it is scrolled to, each with how long
/// it takes to answer, and behind them a row to add one. The row under the cursor is marked. Below
/// the list stands what the keys do there, and above it a greeting.
pub proof fn law_servers_are_listed(
    s: AppView,
    pings: Seq<Option<u128>>,
    greeting: Rect,
    list: Rect,
)
    requires
        s.scroll_offset >= 0,
    ensures
        ({
            let panels = s.selection_panels(pings, greeting, list);
            let lines = panels[0].lines;
            let top = s.scroll_offset as int;
            let count = if top < s.servers.len() {
                s.servers.len() - top
            } else {
                0
            };
            let on_server = s.selected_server < s.servers.len();
            &&& panels.len() == 2
            &&& panels[0].area == list
            &&& panels[0].bordered
            &&& panels[0].scroll == (0u16, 0u16)
            &&& panels[0].title is Some
            &&& panels[0].title->0.spans == seq![piece(" Server Selection "@, Style::Bold)]
            &&& panels[0].title->0.align == Align::Center
            &&& lines.len() == count + 1
            &&& forall|k: int|
                0 <= k < count ==> is_server_row(
                    #[trigger] lines[k],
                    if top + k < pings.len() {
                        pings[top + k]
                    } else {
                        None
                    },
                    s.servers[top + k],
                    s.selected_server == top + k,
                )
            &&& lines[count].spans == seq![
                piece(" + "@, Style::BoldGreen),
                piece("Add Server "@, Style::Bold),
            ]
            &&& lines[count].marked == !on_server
            &&& panels[0].bottom is Some
            &&& panels[0].bottom->0.align == Align::Center
            &&& are_hints(
                panels[0].bottom->0.spans,
                if on_server {
                    seq![
                        (" Move Cursor "@, "<Up/Down>  "@),
                        ("Connect "@, "<Enter>  "@),
                        ("Edit "@, "<E>  "@),
                        ("Remove "@, "<DEL>  "@),
                        ("New connection "@, "<N>  "@),
                        ("Exit "@, "<ESC> "@),
                    ]
                } else {
                    seq![
                        (" Move Cursor "@, "<Up/Down>  "@),
                        (" New connection "@, "<Enter> "@),
                    ]
                },
            )
            &&& panels[1].area == greeting
            &&& !panels[1].bordered
            &&& panels[1].lines.len() == 2
            &&& reads(
                panels[1].lines[0],
                "Welcome to Volt IRC Client!"@,
                false,
                Align::Center,
            )
            &&& reads(
                panels[1].lines[1],
                "It is recommended that you use a nerd font"@,
                false,
                Align::Center,
            )
        }),
{
    let panels = s.selection_panels(pings, greeting, list);
    let lines = panels[0].lines;
    let top = s.scroll_offset as int;
    crate::list_laws::lemma_port();
    reveal_strlit(":");
    reveal_strlit(" ");
    reveal_strlit("2096");
    reveal_strlit(":2096 ");
    assert(":"@ + decimal(2096) + " "@ =~= ":2096 "@);
    let count = if top < s.servers.len() {
        s.servers.len() - top
    } else {
        0
    };
    assert forall|k: int| 0 <= k < count implies is_server_row(
        #[trigger] lines[k],
        if top + k < pings.len() {
            pings[top + k]
        } else {
            None
        },
        s.servers[top + k],
        s.selected_server == top + k,
    ) by {
        let row = s.server_row(pings, top + k);
        assert(lines[k] == row);
        let ping = if top + k < pings.len() {
            pings[top + k]
        } else {
            None
        };
        assert(row.spans[0] == match ping {
            Some(ms) => piece(" "@ + padded(decimal(ms as nat) + "ms"@, 7) + " "@, Style::Plain),
            None => piece(" Offline "@, Style::Red),
        });
        assert(row.spans[2].text == ":2096 "@);
        assert(row.spans =~= seq![
            match ping {
                Some(ms) => piece(
                    " "@ + padded(decimal(ms as nat) + "ms"@, 7) + " "@,
                    Style::Plain,
                ),
                None => piece(" Offline "@, Style::Red),
            },
            piece(s.servers[top + k], Style::Bold),
            piece(":2096 "@, Style::Gray),
        ]);
    }
}

/// The area is cut into two rows and what is left below them.
pub open spec fn cut_below_greeting(area: Rect, rows: Seq<Rect>) -> bool {
    cuts_down(seq![Constraint::Length(2), Constraint::Min(1)], area, rows)
}

/// The area is cut into a column of ninety cells in the middle and what is left beside it.
pub open spec fn cut_in_the_middle(area: Rect, columns: Seq<Rect>) -> bool {
    cuts_across(
        seq![Constraint::Min(1), Constraint::Length(90), Constraint::Min(1)],
        area,
        columns,
    )
}

/// The area is cut into a box of so many rows in the middle and what is left around it.
pub open spec fn cut_for_box(height: u16, area: Rect, rows: Seq<Rect>) -> bool {
    cuts_down(
        seq![Constraint::Min(1), Constraint::Length(height), Constraint::Min(1)],
        area,
        rows,
    )
}

/// The area is cut into a line and a box, once more a line and a box, and what is left around them.
pub open spec fn cut_for_login(area: Rect, rows: Seq<Rect>) -> bool {
    cuts_down(
        seq![
            Constraint::Min(1),
            Constraint::Length(1),
            Constraint::Length(3),
            Constraint::Length(1),
            Constraint::Length(3),
            Constraint::Min(1),
        ],
        area,
        rows,
    )
}

/// The list of servers takes what the greeting leaves of the screen, and the client knows how high it
/// is then. Nothing else changes.
pub proof fn law_list_fills_the_screen(
    s: AppView,
    pings: Seq<Option<u128>>,
    area: Rect,
    seconds: u64,
    after: AppView,
    shown: Option<Seq<PanelView>>,
)
    requires
        s.screen == Screen::Selection,
        s.in_front(area, pings, seconds, after, shown),
    ensures
        after == (AppView { server_selection_scroll_size: area.height, ..s }),
        exists|rows: Seq<Rect>| #[trigger]
            cut_below_greeting(area, rows) && shown == Some(
                after.selection_panels(pings, rows[0], rows[1]),
            ),
{
    let rows = choose|rows: Seq<Rect>| #[trigger]
        cuts_down(crate::menu_view::selection_rows(), area, rows) && shown == Some(
            after.selection_panels(pings, rows[0], rows[1]),
        );
    assert(crate::menu_view::selection_rows() =~= seq![
        Constraint::Length(2),
        Constraint::Min(1),
    ]);
    assert(cut_below_greeting(area, rows));
}

/// The line for a server stands in a box with a border, with the cursor in it, and below it how to
/// keep and how to give up the name.
pub proof fn law_name_is_shown(s: AppView, area: Rect)
    ensures
        ({
            let panels = s.new_panels(area);
            let (line, offset) = s.editing_server.draw(true, seq![]);
            &&& panels.len() == 1
            &&& has_frame(panels[0], area, " Hostname "@, Align::Center)
            &&& panels[0].lines == seq![line]
            &&& panels[0].scroll == (0u16, offset)
            &&& panels[0].bottom is Some
            &&& panels[0].bottom->0.align == Align::Center
            &&& are_hints(
                panels[0].bottom->0.spans,
                seq![(" Confirm "@, "<Enter>  "@), ("Cancel "@, "<Esc>  "@)],
            )
        }),
{
}

/// The screen for a server is a box of three rows in a column of ninety cells in the middle. The line
/// gets a window four cells narrower than the column; nothing else changes. It is shown wherever the
/// column has four cells and the cursor is on the line.
pub proof fn law_name_is_shown_in_the_middle(
    s: AppView,
    pings: Seq<Option<u128>>,
    area: Rect,
    seconds: u64,
    after: AppView,
    shown: Option<Seq<PanelView>>,
)
    requires
        s.screen == Screen::New,
        s.in_front(area, pings, seconds, after, shown),
        s.editing_server.cursor_pos <= s.editing_server.buf.len(),
    ensures
        exists|columns: Seq<Rect>, rows: Seq<Rect>|
            {
                &&& #[trigger] cut_in_the_middle(area, columns)
                &&& #[trigger] cut_for_box(3, columns[1], rows)
                &&& if columns[1].width >= 4 {
                    &&& shown == Some(after.new_panels(rows[1]))
                    &&& after == (AppView {
                        editing_server: InputView {
                            bufsize: (columns[1].width - 4) as usize,
                            ..s.editing_server
                        },
                        ..s
                    })
                } else {
                    shown is None && after == s
                }
            },
{
    let (columns, rows) = choose|columns: Seq<Rect>, rows: Seq<Rect>| #[trigger]
        cuts_across(crate::menu_view::middle_columns(), area, columns) && #[trigger] cuts_down(
            crate::menu_view::new_rows(),
            columns[1],
            rows,
        ) && if s.new_fits(columns[1].width) {
            after == s.new_sized(columns[1].width) && shown == Some(after.new_panels(rows[1]))
        } else {
            after == s && shown is None
        };
    assert(crate::menu_view::middle_columns() =~= seq![
        Constraint::Min(1),
        Constraint::Length(90),
        Constraint::Min(1),
    ]);
    assert(crate::menu_view::new_rows() =~= seq![
        Constraint::Min(1),
        Constraint::Length(3),
        Constraint::Min(1),
    ]);
    assert(cut_in_the_middle(area, columns) && cut_for_box(3, columns[1], rows));
}

/// The login shows the name as it is and the password as stars, with the cursor in the line that has
/// it, and below them what Enter does there.
pub proof fn law_login_is_shown(s: AppView, intro: Rect, username: Rect, password: Rect)
    ensures
        ({
            let panels = s.login_panels(intro, username, password);
            let at_password = s.selected_login_field == LoginField::Password;
            let (name, offset) = s.login.username.draw(!at_password, seq![]);
            &&& panels.len() == 3
            &&& panels[0].area == intro
            &&& !panels[0].bordered
            &&& panels[0].lines.len() == 1
            &&& reads(
                panels[0].lines[0],
                "Enter login credentials. Accounts that do not exist are automatically created."@,
                false,
                Align::Center,
            )
            &&& has_frame(panels[1], username, " Username "@, Align::Left)
            &&& panels[1].bottom is None
            &&& panels[1].lines == seq![name]
            &&& panels[1].scroll == (0u16, offset)
            &&& has_frame(panels[2], password, " Password "@, Align::Left)
            &&& panels[2].lines == seq![s.login.password.draw_masked(at_password)]
            &&& panels[2].scroll == (0u16, 0u16)
            &&& panels[2].bottom is Some
            &&& panels[2].bottom->0.align == Align::Right
            &&& are_hints(
                panels[2].bottom->0.spans,
                seq![
                    (
                        if at_password {
                            " Log in "@
                        } else {
                            " Go to password field "@
                        },
                        "<Enter>  "@,
                    ),
                    ("Cancel "@, "<Esc> "@),
                ],
            )
        }),
{
}

/// The login stands in a column of ninety cells in the middle: a line of text, and below it the two
/// boxes of three rows each. The lines get windows four cells narrower than the column; nothing else
/// changes. It is shown wherever the column has four cells and the cursors are on the lines.
pub proof fn law_login_is_shown_in_the_middle(
    s: AppView,
    pings: Seq<Option<u128>>,
    area: Rect,
    seconds: u64,
    after: AppView,
    shown: Option<Seq<PanelView>>,
)
    requires
        s.screen == Screen::Login,
        s.in_front(area, pings, seconds, after, shown),
        s.login.username.cursor_pos <= s.login.username.buf.len(),
        s.login.password.cursor_pos <= s.login.password.buf.len(),
    ensures
        exists|columns: Seq<Rect>, rows: Seq<Rect>|
            {
                &&& #[trigger] cut_in_the_middle(area, columns)
                &&& #[trigger] cut_for_login(columns[1], rows)
                &&& if columns[1].width >= 4 {
                    &&& shown == Some(after.login_panels(rows[1], rows[2], rows[4]))
                    &&& after.login.username == (InputView {
                        bufsize: (columns[1].width - 4) as usize,
                        ..s.login.username
                    })
                    &&& after.login.password == (InputView {
                        bufsize: (columns[1].width - 4) as usize,
                        ..s.login.password
                    })
                    &&& after == (AppView { login: after.login, ..s })
                } else {
                    shown is None && after == s
                }
            },
{
    let (columns, rows) = choose|columns: Seq<Rect>, rows: Seq<Rect>| #[trigger]
        cuts_across(crate::menu_view::middle_columns(), area, columns) && #[trigger] cuts_down(
            crate::menu_view::login_rows(),
            columns[1],
            rows,
        ) && if s.login_fits(columns[1].width) {
            after == s.login_sized(columns[1].width) && shown == Some(
                after.login_panels(rows[1], rows[2], rows[4]),
            )
        } else {
            after == s && shown is None
        };
    assert(crate::menu_view::middle_columns() =~= seq![
        Constraint::Min(1),
        Constraint::Length(90),
        Constraint::Min(1),
    ]);
    assert(crate::menu_view::login_rows() =~= seq![
        Constraint::Min(1),
        Constraint::Length(1),
        Constraint::Length(3),
        Constraint::Length(1),
        Constraint::Length(3),
        Constraint::Min(1),
    ]);
    assert(cut_in_the_middle(area, columns) && cut_for_login(columns[1], rows));
}

/// How high the box around a text is: one row for each of its lines, and two for the border.
pub open spec fn box_height(text: Seq<char>) -> u16 {
    (count_of(text, '\n') + 1 + 2) as u16
}

/// The panel shows the lines of the text, each in the middle, with a title above it and what to do
/// below it.
pub open spec fn is_text_box(
    panel: PanelView,
    text: Seq<char>,
    done: bool,
    area: Rect,
) -> bool {
    let rows = split_on(text, '\n');
    &&& has_frame(
        panel,
        area,
        if done {
            " Stuff has happened "@
        } else {
            " Stuff is happening... "@
        },
        Align::Left,
    )
    &&& panel.bottom is Some
    &&& reads(
        panel.bottom->0,
        if done {
            " Press Enter to continue "@
        } else {
            " Please wait "@
        },
        false,
        Align::Right,
    )
    &&& panel.scroll == (0u16, 0u16)
    &&& panel.lines.len() == rows.len()
    &&& forall|i: int|
        0 <= i < rows.len() ==> reads(#[trigger] panel.lines[i], rows[i], false, Align::Center)
}

/// What is happening and what has happened is shown in a box in the middle, as high as the lines of
/// the text and its borders. The client stays as it is.
pub proof fn law_notice_is_shown(
    s: AppView,
    pings: Seq<Option<u128>>,
    area: Rect,
    seconds: u64,
    after: AppView,
    shown: Option<Seq<PanelView>>,
)
    requires
        s.screen == Screen::Status || s.screen == Screen::Message,
        count_of(s.status_text, '\n') < 0xfffd,
        s.in_front(area, pings, seconds, after, shown),
    ensures
        after == s,
        exists|rows: Seq<Rect>|
            {
                &&& #[trigger] cut_for_box(box_height(s.status_text), area, rows)
                &&& shown is Some
                &&& shown->0.len() == 1
                &&& is_text_box(
                    shown->0[0],
                    s.status_text,
                    s.screen == Screen::Message,
                    rows[1],
                )
            },
{
    let text = s.status_text;
    let rows = choose|rows: Seq<Rect>| #[trigger]
        cuts_down(crate::menu_view::box_rows(text), area, rows) && shown == Some(
            seq![
                crate::menu_view::text_box(
                    text,
                    if s.screen == Screen::Message {
                        " Stuff has happened "@
                    } else {
                        " Stuff is happening... "@
                    },
                    if s.screen == Screen::Message {
                        " Press Enter to continue "@
                    } else {
                        " Please wait "@
                    },
                    rows[1],
                ),
            ],
        );
    assert(crate::menu_view::box_rows(text) =~= seq![
        Constraint::Min(1),
        Constraint::Length((count_of(text, '\n') + 3) as u16),
        Constraint::Min(1),
    ]);
    assert(cut_for_box(box_height(text), area, rows));
    assert(is_text_box(shown->0[0], text, s.screen == Screen::Message, rows[1]));
}

/// A text that is shown while the client goes on is shown in the same box, in front of what is behind
/// it.
pub proof fn law_passing_notice_is_shown(
    text: Seq<char>,
    done: bool,
    area: Rect,
    shown: Option<Seq<PanelView>>,
)
    requires
        count_of(text, '\n') < 0xfffd,
        crate::render::notice_shown(text, done, area, shown),
    ensures
        shown is Some,
        shown->0.len() == 1,
        exists|rows: Seq<Rect>|
            {
                &&& #[trigger] cut_for_box(box_height(text), area, rows)
                &&& is_text_box(shown->0[0], text, done, rows[1])
            },
{
    let rows = choose|rows: Seq<Rect>| #[trigger]
        cuts_down(crate::menu_view::box_rows(text), area, rows) && shown == Some(
            seq![
                crate::menu_view::text_box(
                    text,
                    if done {
                        " Stuff has happened "@
                    } else {
                        " Stuff is happening... "@
                    },
                    if done {
                        " Press Enter to continue "@
                    } else {
                        " Please wait "@
                    },
                    rows[1],
                ),
            ],
        );
    assert(crate::menu_view::box_rows(text) =~= seq![
        Constraint::Min(1),
        Constraint::Length((count_of(text, '\n') + 3) as u16),
        Constraint::Min(1),
    ]);
    assert(cut_for_box(box_height(text), area, rows));
    assert(is_text_box(shown->0[0], text, done, rows[1]));
}

/// A hexadecimal digit.
pub open spec fn is_hex(c: char) -> bool {
    '0' <= c <= '9' || 'a' <= c <= 'f'
}

/// Behind the screen the bits are shown, where the settings say so: every row moves down by one and a
/// new one comes in at the top, a bit that is on is some hexadecimal digit, and one that is off a
/// blank. Nothing else changes, and nothing is shown where the settings say so.
pub proof fn law_bits_fall_behind_the_screen(
    s: AppView,
    area: Rect,
    after: AppView,
    panels: Seq<PanelView>,
)
    requires
        s.behind(area, after, panels),
        s.chars_matrix.len() > 0,
        forall|i: int|
            0 <= i < s.chars_matrix.len() ==> (#[trigger] s.chars_matrix[i]).len()
                == s.chars_matrix[0].len(),
    ensures
        !s.config.matrix_background ==> after == s && panels.len() == 0,
        s.config.matrix_background ==> {
            let bits = after.chars_matrix;
            let n = s.chars_matrix.len() as int;
            &&& after == (AppView { chars_matrix: bits, ..s })
            &&& bits.len() == n
            &&& bits.take(n - 1) == s.chars_matrix.skip(1)
            &&& bits[n - 1].len() == s.chars_matrix[0].len()
            &&& panels.len() == 1
            &&& panels[0].area == area
            &&& !panels[0].bordered
            &&& panels[0].scroll == (0u16, 0u16)
            &&& panels[0].lines.len() == n
            &&& forall|y: int|
                0 <= y < n ==> {
                    let line = #[trigger] panels[0].lines[y];
                    let row = bits[n - 1 - y];
                    &&& line.spans.len() == row.len()
                    &&& !line.marked
                    &&& line.align == Align::Left
                    &&& forall|x: int|
                        0 <= x < row.len() ==> if row[x] {
                            &&& (#[trigger] line.spans[x]).text.len() == 2
                            &&& is_hex(line.spans[x].text[0])
                            &&& line.spans[x].text[1] == ' '
                            &&& line.spans[x].style == Style::Green
                        } else {
                            line.spans[x] == piece("  "@, Style::Plain)
                        }
                }
        },
{
    if s.config.matrix_background {
        let bits = after.chars_matrix;
        let n = s.chars_matrix.len() as int;
        assert(bits.take(n - 1) =~= s.chars_matrix.skip(1));
        assert forall|y: int| 0 <= y < n implies {
            let line = #[trigger] panels[0].lines[y];
            let row = bits[n - 1 - y];
            &&& line.spans.len() == row.len()
            &&& !line.marked
            &&& line.align == Align::Left
            &&& forall|x: int|
                0 <= x < row.len() ==> if row[x] {
                    &&& (#[trigger] line.spans[x]).text.len() == 2
                    &&& is_hex(line.spans[x].text[0])
                    &&& line.spans[x].text[1] == ' '
                    &&& line.spans[x].style == Style::Green
                } else {
                    line.spans[x] == piece("  "@, Style::Plain)
                }
        } by {
            let line = panels[0].lines[y];
            let row = bits[n - 1 - y];
            assert(crate::render::shows_row(line, row));
            assert forall|x: int| 0 <= x < row.len() implies if row[x] {
                &&& (#[trigger] line.spans[x]).text.len() == 2
                &&& is_hex(line.spans[x].text[0])
                &&& line.spans[x].text[1] == ' '
                &&& line.spans[x].style == Style::Green
            } else {
                line.spans[x] == piece("  "@, Style::Plain)
            } by {
                assert(crate::render::shows_bit(line.spans[x], row[x]));
                if row[x] {
                    let d = choose|d: int|
                        0 <= d < 16 && line.spans[x] == crate::style::span_of(
                            seq![#[trigger] hex_digit(d), ' '],
                            Style::Green,
                        );
                    assert(is_hex(hex_digit(d)));
                }
            }
        }
    }
}

/// A terminal that has grown is covered: no bit is lost, the new ones beside the old ones are off,
/// and every row is as wide.
pub proof fn law_background_covers_the_terminal(
    before: Seq<Seq<bool>>,
    after: Seq<Seq<bool>>,
    cols: u16,
    rows: u16,
)
    requires
        before.len() > 0,
        forall|i: int|
            0 <= i < before.len() ==> (#[trigger] before[i]).len() == before[0].len(),
        resized(before, after, cols, rows),
    ensures
        after.len() >= before.len(),
        after.len() >= rows,
        after.len() == before.len() || after.len() == rows,
        forall|y: int|
            0 <= y < after.len() ==> {
                &&& (#[trigger] after[y]).len() >= before[0].len()
                &&& after[y].len() >= cols / 2
                &&& after[y].len() == before[0].len() || after[y].len() == cols / 2
            },
        forall|y: int, x: int|
            0 <= y < before.len() && 0 <= x < after[y].len() ==> #[trigger] after[y][x] == (x
                < before[y].len() && before[y][x]),
{
}

/// The client starts with the servers of its settings listed, the cursor on the first of them, no
/// connection, nothing typed, nothing selected and the sidebar shown.
pub proof fn law_client_starts_afresh(
    config: ConfigView,
    matrix: Seq<Seq<bool>>,
    private: Seq<u8>,
    public: Seq<u8>,
)
    ensures
        ({
            let s = started(config, matrix, private, public);
            &&& s.screen == Screen::Selection
            &&& s.connect_state == ConnectState::NotConnected
            &&& s.servers == config.servers
            &&& s.config == config
            &&& s.chars_matrix == matrix
            &&& s.selected_server == 0
            &&& s.scroll_offset == 0
            &&& s.editing_existing_index is None
            &&& !s.exit && !s.socket && !s.reader && s.sidebar
            &&& s.status_text.len() == 0
            &&& s.next_fn == Some(Next::Nop)
            &&& s.selected_login_field == LoginField::Username
            &&& s.login.username.buf.len() == 0
            &&& s.login.password.buf.len() == 0
            &&& s.session.len() == 0
            &&& s.current_user.len() == 0
            &&& s.selected_connected_field == ConnectedField::Channels
            &&& s.replying_to is None
            &&& s.selected_channel is None
            &&& s.current_server.channels.len() == 0
            &&& s.private == private
            &&& s.public == public
        }),
{
}

/// What is shown is the screen in front of the bits.
pub proof fn law_screen_is_in_front(
    s: AppView,
    area: Rect,
    pings: Seq<Option<u128>>,
    seconds: u64,
    after: AppView,
    shown: Seq<PanelView>,
)
    requires
        s.rendered(area, pings, seconds, after, Some(shown)),
    ensures
        exists|mid: AppView, back: Seq<PanelView>, front: Seq<PanelView>|
            {
                &&& #[trigger] s.behind(area, mid, back)
                &&& #[trigger] mid.in_front(area, pings, seconds, after, Some(front))
                &&& shown == back + front
                &&& mid.screen == s.screen
            },
{
    let (mid, back, front) = choose|mid: AppView, back: Seq<PanelView>, front: Option<Seq<PanelView>>|
        #![trigger s.behind(area, mid, back), mid.in_front(area, pings, seconds, after, front)]
        {
            &&& s.behind(area, mid, back)
            &&& mid.in_front(area, pings, seconds, after, front)
            &&& Some(shown) == crate::render::stacked(back, front)
        };
    assert(front == Some(front->0));
    assert(s.behind(area, mid, back) && mid.in_front(area, pings, seconds, after, Some(front->0)));
}

/// A time is shown as its date and its clock time in some time zone, without the name of the zone.
pub proof fn law_zone_is_left_out(time: u64, text: Seq<char>, rest: Seq<char>, zone: Seq<char>)
    requires
        is_free_of(zone, ' '),
    ensures
        before_last_blank(rest + seq![' '] + zone) == rest,
        time_reads(time, text) ==> exists|full: Seq<char>| #[trigger] reads_in_zone(time, full)
            && text == before_last_blank(full),
{
    crate::clock::lemma_blank_free_tail(rest, zone);
    assert((rest + seq![' '] + zone).take(rest.len() as int) =~= rest);
}

/// The address to connect from is any port of a machine in the block that means this one.
pub proof fn law_local_address(a: u8, b: u8, c: u8)
    ensures
        local_addr(a, b, c) == "127."@ + decimal(a as nat) + "."@ + decimal(b as nat) + "."@
            + decimal(c as nat) + ":0"@,
{
}

/// The row that comes in differs from the last one exactly where it says so; the others stay in their
/// order, and the first one goes where it has to.
pub proof fn law_row_follows_from_the_last(
    rows: Seq<Seq<bool>>,
    flips: Seq<bool>,
    remove_last: bool,
)
    requires
        rows.len() > 0,
        flips.len() <= rows.last().len(),
    ensures
        ({
            let after = rows_after(rows, flips, remove_last);
            &&& after.last().len() == flips.len()
            &&& forall|x: int|
                0 <= x < flips.len() ==> #[trigger] after.last()[x] == (if flips[x] {
                    !rows.last()[x]
                } else {
                    rows.last()[x]
                })
            &&& remove_last ==> after.drop_last() == rows.skip(1)
            &&& !remove_last ==> after.drop_last() == rows
        }),
{
    let after = rows_after(rows, flips, remove_last);
    assert(after.drop_last() =~= if remove_last {
        rows.skip(1)
    } else {
        rows
    });
}

} // verus!
