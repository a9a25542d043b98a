//! What holds of what the client shows.

use vstd::prelude::*;
use vstd::string::*;

use crate::chat_laws::is_first;
use crate::chat_view::lines_upto;
use crate::clock::{is_day_time, lemma_two_pieces};
use crate::laws::lemma_last_place;
use crate::layout::Rect;
use crate::message_view::{has_id, header, lemma_found, msg_lines};
use crate::msg::{MsgType, MsgView};
use crate::panel::plain;
use crate::state::AppView;
use crate::style::{Align, LineView, SpanView, Style};
use crate::text::byte_len;
use crate::text_laws::{is_free_of, law_lines_end_at_line_feeds};
use crate::words::lines_of;
use crate::wrap::{cut, msg_words, text_lines};

verus! {

/// A piece of text in a style.
pub open spec fn piece(text: Seq<char>, style: Style) -> SpanView {
    SpanView { text, style }
}

/// The line shows the text without any style, with a piece for each line of it.
pub open spec fn reads(line: LineView, text: Seq<char>, marked: bool, align: Align) -> bool {
    &&& line.spans.len() == lines_of(text).len()
    &&& forall|i: int|
        0 <= i < line.spans.len() ==> #[trigger] line.spans[i] == piece(
            lines_of(text)[i],
            Style::Plain,
        )
    &&& line.marked == marked
    &&& line.align == align
}

/// A text of one line is shown as one piece.
pub proof fn law_text_is_shown_as_it_is(text: Seq<char>)
    requires
        text.len() > 0,
        is_free_of(text, '\n'),
    ensures
        reads(plain(text), text, false, Align::Left),
        plain(text).spans == seq![piece(text, Style::Plain)],
{
    law_lines_end_at_line_feeds(text, Seq::empty());
    assert(plain(text).spans =~= seq![piece(text, Style::Plain)]);
}

/// The text of a message in the header of its reply: all of it where there is room, and else as much
/// as there is room for, with an ellipsis.
pub open spec fn is_quoted(
    reply: MsgView,
    time: Seq<char>,
    width: u16,
    shown: Seq<char>,
) -> bool {
    let left = width - (time.len() + byte_len(reply.user) + 21);
    let room = if left > 1 {
        left
    } else {
        1
    };
    shown == if byte_len(reply.msg) < room {
        reply.msg
    } else {
        cut(reply.msg, room - 1)
    }
}

/// The piece of a header that tells what the message with this id says, which is replied to.
pub open spec fn tells_reply(
    shown: SpanView,
    channel: Seq<MsgView>,
    id: u64,
    time: Seq<char>,
    width: u16,
) -> bool {
    if exists|k: int| 0 <= k < channel.len() && (#[trigger] channel[k]).id == id {
        exists|k: int, content: Seq<char>|
            {
                &&& is_first(channel, id, k)
                &&& #[trigger] is_quoted(channel[k], time, width, content)
                &&& shown == piece(
                    " [ \u{f17ab} "@ + channel[k].user + ": "@ + content + "] "@,
                    Style::Plain,
                )
            }
    } else {
        shown == piece(" [ \u{f17ab} ???] "@, Style::Plain)
    }
}

/// The header of a message has its time, its user and what it replies to; of someone who comes or
/// goes it says so. The date is left out where there is little room.
pub proof fn law_header_tells_time_user_and_reply(
    m: MsgView,
    channel: Seq<MsgView>,
    width: u16,
    date: Seq<char>,
    clock: Seq<char>,
)
    requires
        is_free_of(date, ' '),
        is_free_of(clock, ' '),
    ensures
        ({
            let stamp = date + seq![' '] + clock;
            let spans = header(m, channel, width, stamp);
            let time = if width > 100 {
                stamp
            } else {
                clock
            };
            let who = if m._type == MsgType::Text {
                2int
            } else {
                3
            };
            let event = if m.replying_to is Some {
                who + 2
            } else {
                who + 1
            };
            &&& spans[0] == piece(seq![' '], Style::Plain)
            &&& spans[1] == piece(time + seq![' '], Style::Plain)
            &&& spans[who] == piece(seq![' '] + m.user + seq![' '], Style::Plain)
            &&& m.replying_to matches Some(id) ==> tells_reply(
                spans[who + 1],
                channel,
                id,
                time,
                width,
            )
            &&& match m._type {
                MsgType::Text => spans.len() == event,
                MsgType::Connect => {
                    &&& spans.len() == event + 1
                    &&& spans[2] == piece(" --> "@, Style::Green)
                    &&& spans[event] == piece("connected"@, Style::Plain)
                },
                MsgType::Disconnect => {
                    &&& spans.len() == event + 1
                    &&& spans[2] == piece(" <-- "@, Style::Red)
                    &&& spans[event] == piece("disconnected"@, Style::Plain)
                },
            }
        }),
{
    let stamp = date + seq![' '] + clock;
    assert(is_day_time(stamp, date, clock));
    lemma_two_pieces(stamp, date, clock);
    let time = if width > 100 {
        stamp
    } else {
        clock
    };
    assert(crate::message_view::header_time(stamp, width) == time);
    assert(time.push(' ') =~= time + seq![' ']);
    if m.replying_to is Some {
        let id = m.replying_to->0;
        let shown = crate::message_view::reply_span(id, channel, time, width);
        if has_id(channel, id) {
            let w = choose|w: int| 0 <= w < channel.len() && (#[trigger] channel[w]).id == id;
            let k = crate::chat_laws::lemma_first(channel, id, w);
            lemma_found(channel, id, k);
            let room = crate::message_view::reply_room(time, channel[k].user, width);
            let content = crate::message_view::reply_content(channel[k].msg, room);
            assert(is_first(channel, id, k));
            assert(is_quoted(channel[k], time, width, content));
        }
        assert(tells_reply(shown, channel, id, time, width));
    }
}

/// A message is shown as its header and, where it is a text, the lines of the text below it. They are
/// marked where the message is selected. In too narrow a column nothing is shown.
pub proof fn law_message_is_shown_below_its_header(
    m: MsgView,
    channel: Seq<MsgView>,
    width: u16,
    selected: Option<u64>,
    stamp: Seq<char>,
)
    ensures
        ({
            let lines = msg_lines(m, channel, width, selected, stamp);
            let marked = selected == Some(m.id);
            let body = if m._type == MsgType::Text {
                text_lines(msg_words(m.msg, (width - 9) as nat), width - 9)
            } else {
                seq![]
            };
            if width < 10 {
                lines.len() == 0
            } else {
                &&& lines.len() == 1 + body.len()
                &&& lines[0].spans == header(m, channel, width, stamp)
                &&& lines[0].marked == marked
                &&& lines[0].align == Align::Left
                &&& forall|k: int|
                    0 <= k < body.len() ==> reads(
                        #[trigger] lines[1 + k],
                        body[k],
                        marked,
                        Align::Left,
                    )
            }
        }),
{
}

/// Where the lines of each message start among the lines of all, and where the last of them ends.
pub open spec fn are_starts(
    starts: Seq<int>,
    lines: Seq<LineView>,
    messages: Seq<MsgView>,
    width: u16,
    selected: Option<u64>,
    stamps: Seq<Seq<char>>,
) -> bool {
    &&& starts.len() == messages.len() + 1
    &&& starts[0] == 0
    &&& starts[messages.len() as int] == lines.len()
    &&& forall|i: int|
        0 <= i < messages.len() ==> {
            &&& 0 <= #[trigger] starts[i] <= starts[i + 1] <= lines.len()
            &&& lines.subrange(starts[i], starts[i + 1]) == msg_lines(
                messages[i],
                messages,
                width,
                selected,
                stamps[i],
            )
        }
}

proof fn lemma_starts(
    messages: Seq<MsgView>,
    width: u16,
    selected: Option<u64>,
    stamps: Seq<Seq<char>>,
    n: nat,
) -> (starts: Seq<int>)
    ensures
        starts.len() == n + 1,
        starts[0] == 0,
        forall|i: int|
            0 <= i <= n ==> #[trigger] starts[i] == lines_upto(
                messages,
                width,
                selected,
                stamps,
                i,
            ).len(),
        forall|i: int|
            0 <= i < n ==> {
                let lines = lines_upto(messages, width, selected, stamps, n as int);
                &&& 0 <= #[trigger] starts[i] <= starts[i + 1] <= lines.len()
                &&& lines.subrange(starts[i], starts[i + 1]) == msg_lines(
                    messages[i],
                    messages,
                    width,
                    selected,
                    stamps[i],
                )
            },
    decreases n,
{
    if n == 0 {
        seq![0int]
    } else {
        let before = lemma_starts(messages, width, selected, stamps, (n - 1) as nat);
        let lines = lines_upto(messages, width, selected, stamps, n as int);
        let shorter = lines_upto(messages, width, selected, stamps, n - 1);
        let added = msg_lines(messages[n - 1], messages, width, selected, stamps[n - 1]);
        let starts = before.push(lines.len() as int);
        assert(lines == shorter + added);
        assert forall|i: int| 0 <= i < n implies {
            &&& 0 <= #[trigger] starts[i] <= starts[i + 1] <= lines.len()
            &&& lines.subrange(starts[i], starts[i + 1]) == msg_lines(
                messages[i],
                messages,
                width,
                selected,
                stamps[i],
            )
        } by {
            if i < n - 1 {
                assert(starts[i] == before[i] && starts[i + 1] == before[i + 1]);
                assert(lines.subrange(starts[i], starts[i + 1]) =~= shorter.subrange(
                    before[i],
                    before[i + 1],
                ));
            } else {
                assert(before[n - 1] == shorter.len());
                assert(lines.subrange(starts[i], starts[i + 1]) =~= added);
            }
        }
        starts
    }
}

/// The panel of the messages shows every message of the selected channel, in order, one below the
/// other, under the names of the server and the channel. Where there is room for all, nothing is
/// scrolled; else, with none selected, the last lines and two empty ones are in sight. With one
/// selected the panel starts with it, unless it is so far down that it is in sight at the end.
pub proof fn law_messages_of_the_channel_are_shown(
    s: AppView,
    name: Seq<char>,
    area: Rect,
    stamps: Seq<Seq<char>>,
)
    requires
        s.selected_channel is Some,
        s.selected_channel->0 < s.current_server.channels.len(),
        s.current_server.channels[s.selected_channel->0 as int] == name,
        s.current_server.msgs[name].len() <= usize::MAX,
    ensures
        ({
            let panel = s.messages_panel(area, stamps);
            let messages = s.current_server.msgs[name];
            let selected = s.selected_msg_ids[name];
            let total = panel.lines.len() as int;
            &&& panel.area == area
            &&& panel.bordered
            &&& panel.bottom is None
            &&& panel.title is Some
            &&& reads(
                panel.title->0,
                " "@ + s.current_server.hostname + " #"@ + name + " "@,
                false,
                Align::Center,
            )
            &&& panel.scroll.1 == 0
            &&& exists|starts: Seq<int>|
                {
                    &&& #[trigger] are_starts(
                        starts,
                        panel.lines,
                        messages,
                        area.width,
                        selected,
                        stamps,
                    )
                    &&& total <= area.height ==> panel.scroll.0 == 0
                    &&& area.height < total < 0x10000 && selected is None ==> panel.scroll.0
                        == (total - area.height + 2) % 0x10000
                    &&& forall|k: int|
                        area.height < total < 0x10000 && selected is Some && 0 <= k < messages.len()
                            && (#[trigger] messages[k]).id == selected->0 && (forall|j: int|
                            k < j < messages.len() ==> (#[trigger] messages[j]).id != selected->0)
                            ==> panel.scroll.0 == (if total - area.height > if starts[k] > starts[k
                            + 1] - starts[k] {
                            starts[k] - (starts[k + 1] - starts[k])
                        } else {
                            0
                        } {
                            starts[k]
                        } else {
                            total - area.height + 2
                        }) % 0x10000
                }
        }),
{
    let panel = s.messages_panel(area, stamps);
    let messages = s.current_server.msgs[name];
    let selected = s.selected_msg_ids[name];
    let starts = lemma_starts(messages, area.width, selected, stamps, messages.len());
    assert(are_starts(starts, panel.lines, messages, area.width, selected, stamps));
    let total = panel.lines.len() as int;
    assert forall|k: int|
        area.height < total < 0x10000 && selected is Some && 0 <= k < messages.len() && (
        #[trigger] messages[k]).id == selected->0 && (forall|j: int|
            k < j < messages.len() ==> (#[trigger] messages[j]).id != selected->0) implies panel.scroll.0
        == (if total - area.height > if starts[k] > starts[k + 1] - starts[k] {
        starts[k] - (starts[k + 1] - starts[k])
    } else {
        0
    } {
        starts[k]
    } else {
        total - area.height + 2
    }) % 0x10000 by {
        let id = selected->0;
        assert(has_id(messages, id));
        lemma_last_place(messages, id);
        let place = crate::connected::last_place(messages, id) as int;
        assert(place == k) by {
            if place < k {
                assert(messages[k].id != id);
            } else if k < place {
                assert(messages[place].id != id);
            }
        }
        assert(starts[k] == lines_upto(messages, area.width, selected, stamps, k).len());
        assert(panel.lines.subrange(starts[k], starts[k + 1]).len() == starts[k + 1] - starts[k]);
    }
}

} // verus!
