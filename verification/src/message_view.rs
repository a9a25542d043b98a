//! How a message is shown.

use vstd::prelude::*;
use vstd::string::*;

use crate::clock::{time_reads, timestamp_str};
use crate::msg::{msgs_view, Msg, MsgType, MsgView};
use crate::outside::showable_time;
use crate::panel::{plain, plain_line};
use crate::style::{
    lemma_lines_push, line, line_of, lines_view, span, span_of, spans_view, LineView, Span,
    SpanView, Style, TextLine,
};
use crate::text::{boundary, byte_len, bytes_in, texts};
use crate::text_laws::is_free_of;
use crate::words::{join_with, split, split_on, without};
use crate::wrap::{
    all_blank, can_wrap, cut, cut_text, inked, law_uncut_text_is_kept, msg_words, text_lines,
    unbroken, uncut, words_of, wrap,
};
use crate::wrap_laws::{bared_lines, law_lines_read_as_the_text};

verus! {

/// `i` is the first message with the id.
pub open spec fn first_with_id(channel: Seq<MsgView>, id: u64, i: int) -> bool {
    &&& 0 <= i < channel.len()
    &&& channel[i].id == id
    &&& forall|j: int| 0 <= j < i ==> (#[trigger] channel[j]).id != id
}

/// Some message has the id.
pub open spec fn has_id(channel: Seq<MsgView>, id: u64) -> bool {
    exists|i: int| 0 <= i < channel.len() && (#[trigger] channel[i]).id == id
}

/// The first message with the id.
pub open spec fn found(channel: Seq<MsgView>, id: u64) -> MsgView {
    channel[choose|i: int| first_with_id(channel, id, i)]
}

/// Only one message is the first with its id.
pub proof fn lemma_found(channel: Seq<MsgView>, id: u64, i: int)
    requires
        first_with_id(channel, id, i),
    ensures
        has_id(channel, id),
        found(channel, id) == channel[i],
{
    let k = choose|k: int| first_with_id(channel, id, k);
    if k < i {
        assert(channel[k].id != id);
    } else if i < k {
        assert(channel[i].id != id);
    }
}

/// The place of the first message with the id.
pub fn find_msg(channel: &Vec<Msg>, id: u64) -> (r: Option<usize>)
    ensures
        match r {
            Some(i) => first_with_id(msgs_view(channel@), id, i as int) && found(
                msgs_view(channel@),
                id,
            ) == channel@[i as int]@,
            None => !has_id(msgs_view(channel@), id),
        },
{
    let mut i: usize = 0;
    while i < channel.len()
        invariant
            i <= channel@.len(),
            forall|j: int| 0 <= j < i ==> (#[trigger] channel@[j]).id != id,
        decreases channel@.len() - i,
    {
        if channel[i].id == id {
            proof {
                assert forall|j: int| 0 <= j < i implies (#[trigger] msgs_view(channel@)[j]).id
                    != id by {
                    assert(channel@[j].id != id);
                }
                lemma_found(msgs_view(channel@), id, i as int);
            }
            return Some(i);
        }
        i += 1;
    }
    assert forall|j: int| 0 <= j < msgs_view(channel@).len() implies (#[trigger] msgs_view(
        channel@,
    )[j]).id != id by {
        assert(channel@[j].id != id);
    }
    None
}

/// The time in a message's header: without the date where there is little room.
pub open spec fn header_time(stamp: Seq<char>, width: u16) -> Seq<char> {
    if width > 100 {
        stamp
    } else {
        split_on(stamp, ' ')[1]
    }
}

/// How much room the text of a message that is replied to has.
pub open spec fn reply_room(time: Seq<char>, user: Seq<char>, width: u16) -> int {
    let room = width - (1 + time.len() + 1 + 19 + byte_len(user));
    if room > 1 {
        room
    } else {
        1
    }
}

/// The text of a message that is replied to, cut where there is too little room.
pub open spec fn reply_content(text: Seq<char>, room: int) -> Seq<char> {
    if byte_len(text) >= room {
        cut(text, room - 1)
    } else {
        text
    }
}

/// The text can be cut where it has to be.
pub open spec fn can_show_reply(text: Seq<char>, room: int) -> bool {
    byte_len(text) >= room ==> boundary(text, room - 1)
}

/// What the header says of the message that is replied to.
pub open spec fn reply_span(
    reply_id: u64,
    channel: Seq<MsgView>,
    time: Seq<char>,
    width: u16,
) -> SpanView {
    if has_id(channel, reply_id) {
        let reply = found(channel, reply_id);
        span_of(
            " [ \u{f17ab} "@ + reply.user + ": "@ + reply_content(
                reply.msg,
                reply_room(time, reply.user, width),
            ) + "] "@,
            Style::Plain,
        )
    } else {
        span_of(" [ \u{f17ab} ???] "@, Style::Plain)
    }
}

/// The header of a message.
pub open spec fn header(
    m: MsgView,
    channel: Seq<MsgView>,
    width: u16,
    stamp: Seq<char>,
) -> Seq<SpanView> {
    let time = header_time(stamp, width);
    let start = seq![span_of(seq![' '], Style::Plain), span_of(time.push(' '), Style::Plain)];
    let arrow = match m._type {
        MsgType::Text => seq![],
        MsgType::Connect => seq![span_of(" --> "@, Style::Green)],
        MsgType::Disconnect => seq![span_of(" <-- "@, Style::Red)],
    };
    let user = seq![span_of(seq![' '] + m.user + seq![' '], Style::Plain)];
    let reply = match m.replying_to {
        Some(id) => seq![reply_span(id, channel, time, width)],
        None => seq![],
    };
    let event = match m._type {
        MsgType::Text => seq![],
        MsgType::Connect => seq![span_of("connected"@, Style::Plain)],
        MsgType::Disconnect => seq![span_of("disconnected"@, Style::Plain)],
    };
    start + arrow + user + reply + event
}

/// The lines under the header of a message.
pub open spec fn body_lines(m: MsgView, width: u16) -> Seq<LineView> {
    if m._type == MsgType::Text {
        text_lines(msg_words(m.msg, (width - 9) as nat), width - 9).map_values(
            |text: Seq<char>| plain(text),
        )
    } else {
        seq![]
    }
}

/// The lines, on the background of what is selected.
pub open spec fn mark(lines: Seq<LineView>) -> Seq<LineView> {
    lines.map_values(|l: LineView| LineView { marked: true, ..l })
}

/// The lines of a message.
pub open spec fn msg_lines(
    m: MsgView,
    channel: Seq<MsgView>,
    width: u16,
    selected: Option<u64>,
    stamp: Seq<char>,
) -> Seq<LineView> {
    if width < 10 {
        seq![]
    } else {
        let lines = seq![line_of(header(m, channel, width, stamp))] + body_lines(m, width);
        if selected == Some(m.id) {
            mark(lines)
        } else {
            lines
        }
    }
}

/// Every text of the message that has to be cut can be.
pub open spec fn can_show(
    m: MsgView,
    channel: Seq<MsgView>,
    width: u16,
    stamp: Seq<char>,
) -> bool {
    &&& width <= 100 ==> split_on(stamp, ' ').len() > 1
    &&& width >= 10 ==> {
        &&& m.replying_to is Some && has_id(channel, m.replying_to->0) ==> can_show_reply(
            found(channel, m.replying_to->0).msg,
            reply_room(
                header_time(stamp, width),
                found(channel, m.replying_to->0).user,
                width,
            ),
        )
        &&& m._type == MsgType::Text ==> can_wrap(
            msg_words(m.msg, (width - 9) as nat),
            width - 9,
        )
    }
}

/// What the header says of the message that is replied to, where its text can be cut.
fn show_reply(reply: &Msg, time: &str, width: u16) -> (r: Option<Span>)
    ensures
        r is Some <==> can_show_reply(reply.msg@, reply_room(time@, reply.user@, width)),
        r is Some ==> r->0@ == span_of(
            " [ \u{f17ab} "@ + reply.user@ + ": "@ + reply_content(
                reply.msg@,
                reply_room(time@, reply.user@, width),
            ) + "] "@,
            Style::Plain,
        ),
{
    let user_len = bytes_in(reply.user.as_str());
    let time_len = time.unicode_len();
    let whole = width as usize;
    let room: usize = if time_len < whole && user_len < whole && time_len + user_len + 22 < whole {
        whole - (time_len + user_len + 21)
    } else {
        1
    };
    assert(room == reply_room(time@, reply.user@, width));
    let content = if bytes_in(reply.msg.as_str()) >= room {
        match cut_text(reply.msg.as_str(), room - 1) {
            Some(text) => text,
            None => {
                return None;
            },
        }
    } else {
        reply.msg.clone()
    };
    let mut text = " [ \u{f17ab} ".to_owned();
    text.append(reply.user.as_str());
    text.append(": ");
    text.append(content.as_str());
    text.append("] ");
    Some(Span { text, style: Style::Plain })
}

/// The header of a message, where the text that it replies to can be cut.
fn show_header(msg: &Msg, channel: &Vec<Msg>, width: u16, stamp: &str) -> (r: Option<Vec<Span>>)
    requires
        width <= 100 ==> split_on(stamp@, ' ').len() > 1,
    ensures
        r is Some <==> (msg.replying_to is Some && has_id(msgs_view(channel@), msg.replying_to->0)
            ==> can_show_reply(
            found(msgs_view(channel@), msg.replying_to->0).msg,
            reply_room(
                header_time(stamp@, width),
                found(msgs_view(channel@), msg.replying_to->0).user,
                width,
            ),
        )),
        r is Some ==> spans_view(r->0@) == header(msg@, msgs_view(channel@), width, stamp@),
{
    let time = if width > 100 {
        stamp.to_owned()
    } else {
        let parts = split(stamp, ' ');
        assert(parts@.len() == split_on(stamp@, ' ').len());
        parts[1].clone()
    };
    assert(time@ == header_time(stamp@, width));
    let mut spans: Vec<Span> = Vec::new();
    spans.push(span(" ", Style::Plain));
    let mut shown_time = time.clone();
    shown_time.push(' ');
    spans.push(Span { text: shown_time, style: Style::Plain });
    proof {
        reveal_strlit(" ");
        assert(" "@ =~= seq![' ']);
    }
    let ghost start = seq![
        span_of(seq![' '], Style::Plain),
        span_of(time@.push(' '), Style::Plain),
    ];
    assert(spans_view(spans@) =~= start);
    match msg._type {
        MsgType::Text => {},
        MsgType::Connect => {
            spans.push(span(" --> ", Style::Green));
        },
        MsgType::Disconnect => {
            spans.push(span(" <-- ", Style::Red));
        },
    }
    let ghost arrow = match msg._type {
        MsgType::Text => seq![],
        MsgType::Connect => seq![span_of(" --> "@, Style::Green)],
        MsgType::Disconnect => seq![span_of(" <-- "@, Style::Red)],
    };
    assert(spans_view(spans@) =~= start + arrow);
    let mut user = " ".to_owned();
    user.append(msg.user.as_str());
    user.push(' ');
    assert(user@ =~= seq![' '] + msg.user@ + seq![' ']);
    spans.push(Span { text: user, style: Style::Plain });
    let ghost so_far = start + arrow + seq![span_of(user@, Style::Plain)];
    assert(spans_view(spans@) =~= so_far);
    let ghost reply_part = match msg.replying_to {
        Some(id) => seq![reply_span(id, msgs_view(channel@), time@, width)],
        None => seq![],
    };
    if let Some(id) = msg.replying_to {
        match find_msg(channel, id) {
            Some(i) => {
                match show_reply(&channel[i], time.as_str(), width) {
                    Some(s) => {
                        spans.push(s);
                    },
                    None => {
                        return None;
                    },
                }
            },
            None => {
                spans.push(span(" [ \u{f17ab} ???] ", Style::Plain));
            },
        }
    }
    assert(spans_view(spans@) =~= so_far + reply_part);
    match msg._type {
        MsgType::Text => {},
        MsgType::Connect => {
            spans.push(span("connected", Style::Plain));
        },
        MsgType::Disconnect => {
            spans.push(span("disconnected", Style::Plain));
        },
    }
    assert(spans_view(spans@) =~= header(msg@, msgs_view(channel@), width, stamp@));
    Some(spans)
}

/// The text of a message stands in the lines that it is broken into, but for blanks, where no line
/// has to be cut. Line ends inside of them are not shown.
pub open spec fn text_kept(m: MsgView, width: u16) -> bool {
    let words = msg_words(m.msg, (width - 9) as nat);
    uncut(words, width - 9) ==> inked(text_lines(words, width - 9)) == without(m.msg, ' ')
}

/// The text of a message can be read off its lines, with the blanks between its words, where the words
/// are apart by one blank each, none of them has to be broken, and no line is cut.
pub open spec fn text_readable(m: MsgView, width: u16) -> bool {
    let lines = text_lines(msg_words(m.msg, (width - 9) as nat), width - 9);
    unbroken(split_on(m.msg, ' '), (width - 9) as nat) && (forall|k: int|
        0 <= k < lines.len() ==> is_free_of(#[trigger] lines[k], '…')) ==> join_with(
        bared_lines(lines),
        seq![' '],
    ) == m.msg
}

/// The lines of a message with the time `stamp`, where every text that has to be cut can be. The
/// text of a message stands in its lines, but for blanks and line ends, where no line has to be
/// cut; a message of blanks alone has no line but its header.
pub fn show_msg(
    msg: &Msg,
    channel: &Vec<Msg>,
    width: u16,
    selected: &Option<u64>,
    stamp: &str,
) -> (r: Option<Vec<TextLine>>)
    ensures
        r is Some <==> can_show(msg@, msgs_view(channel@), width, stamp@),
        r is Some ==> lines_view(r->0@) == msg_lines(
            msg@,
            msgs_view(channel@),
            width,
            *selected,
            stamp@,
        ),
        r is Some && width >= 10 && msg._type == MsgType::Text ==> text_kept(msg@, width),
        r is Some && width >= 10 && msg._type == MsgType::Text ==> text_readable(msg@, width),
        r is Some && width >= 10 && all_blank(msg.msg@) ==> r->0@.len() == 1,
{
    if width <= 100 && split(stamp, ' ').len() <= 1 {
        assert(split_on(stamp@, ' ').len() <= 1);
        return None;
    }
    let mut lines: Vec<TextLine> = Vec::new();
    if width < 10 {
        assert(lines_view(lines@) =~= seq![]);
        return Some(lines);
    }
    let head = match show_header(msg, channel, width, stamp) {
        Some(spans) => spans,
        None => {
            return None;
        },
    };
    let max: usize = width as usize - 9;
    lines.push(line(head));
    let ghost first = line_of(header(msg@, msgs_view(channel@), width, stamp@));
    assert(lines_view(lines@) =~= seq![first]);
    if msg._type == MsgType::Text {
        let words = words_of(msg.msg.as_str(), max);
        proof {
            if uncut(texts(words@), max as int) {
                law_uncut_text_is_kept(texts(words@), max as int);
            }
            let lines = text_lines(msg_words(msg@.msg, max as nat), max as int);
            if unbroken(split_on(msg@.msg, ' '), max as nat) && (forall|k: int|
                0 <= k < lines.len() ==> is_free_of(#[trigger] lines[k], '…')) {
                law_lines_read_as_the_text(msg@.msg, max as nat);
            }
            assert(text_readable(msg@, width));
        }
        match wrap(&words, max) {
            Some(parts) => {
                let ghost all = texts(parts@);
                let mut i: usize = 0;
                while i < parts.len()
                    invariant
                        i <= parts@.len(),
                        all == texts(parts@),
                        lines_view(lines@) == seq![first] + all.take(i as int).map_values(
                            |text: Seq<char>| plain(text),
                        ),
                    decreases parts@.len() - i,
                {
                    let l = plain_line(parts[i].as_str());
                    proof {
                        lemma_lines_push(lines@, l);
                    }
                    lines.push(l);
                    assert(lines_view(lines@) =~= seq![first] + all.take(i + 1).map_values(
                        |text: Seq<char>| plain(text),
                    ));
                    i += 1;
                }
                assert(all.take(all.len() as int) =~= all);
                assert(texts(words@).len() == words@.len());
            },
            None => {
                return None;
            },
        }
    }
    assert(lines_view(lines@) =~= seq![first] + body_lines(msg@, width));
    assert(lines_view(lines@).len() == lines@.len());
    let chosen = match selected {
        Some(id) => *id == msg.id,
        None => false,
    };
    if chosen {
        mark_lines(&mut lines);
        assert(lines_view(lines@).len() == lines@.len());
    }
    Some(lines)
}

/// Puts the lines on the background of what is selected.
fn mark_lines(lines: &mut Vec<TextLine>)
    ensures
        lines_view(final(lines)@) == mark(lines_view(old(lines)@)),
{
    let ghost before = lines_view(lines@);
    let mut i: usize = 0;
    while i < lines.len()
        invariant
            i <= lines@.len(),
            lines@.len() == before.len(),
            forall|j: int|
                0 <= j < i ==> (#[trigger] lines@[j])@ == (LineView { marked: true, ..before[j] }),
            forall|j: int| i <= j < lines@.len() ==> (#[trigger] lines@[j])@ == before[j],
        decreases lines@.len() - i,
    {
        lines[i].marked = true;
        i += 1;
    }
    assert(lines_view(lines@) =~= mark(before));
}

/// Some date and clock time of the message with which every text that has to be cut can be.
pub open spec fn msg_shown(
    lines: Seq<LineView>,
    m: MsgView,
    channel: Seq<MsgView>,
    width: u16,
    selected: Option<u64>,
) -> bool {
    exists|stamp: Seq<char>| #[trigger]
        time_reads(m.time, stamp) && can_show(m, channel, width, stamp) && lines == msg_lines(
            m,
            channel,
            width,
            selected,
            stamp,
        )
}

/// With some date and clock time of the message a text would have to be cut inside a character.
pub open spec fn msg_not_shown(m: MsgView, channel: Seq<MsgView>, width: u16) -> bool {
    exists|stamp: Seq<char>| #[trigger] time_reads(m.time, stamp) && !can_show(m, channel, width, stamp)
}

/// The lines of a message with its time in the machine's time zone, whichever it is, where every
/// text that has to be cut can be.
pub fn render_msg(
    msg: &Msg,
    channel: &Vec<Msg>,
    width: u16,
    selected_id: &Option<u64>,
) -> (r: Option<Vec<TextLine>>)
    requires
        showable_time(msg.time),
    ensures
        match r {
            Some(lines) => msg_shown(
                lines_view(lines@),
                msg@,
                msgs_view(channel@),
                width,
                *selected_id,
            ),
            None => msg_not_shown(msg@, msgs_view(channel@), width),
        },
        r is Some && width >= 10 && all_blank(msg.msg@) ==> r->0@.len() == 1,
{
    let stamp = timestamp_str(msg.time);
    assert(time_reads(msg@.time, stamp@));
    show_msg(msg, channel, width, selected_id, stamp.as_str())
}

} // verus!
