//! What holds of what the client can take and show.

use vstd::prelude::*;
use vstd::string::*;
use vstd::utf8::is_ascii_chars;

use crate::chat_view::ChatAreas;
use crate::effect::EffectView;
use crate::input::{law_ascii_takes_every_key, InputView, Key};
use crate::list_laws::is_empty_line;
use crate::message_view::{can_show, has_id, lemma_found};
use crate::msg::{MsgType, MsgView};
use crate::outside::graphemes_of;
use crate::state::{AppView, ConnectState, LoginField, Next, Screen};
use crate::talk_laws::reason_given;
use crate::text::{byte_len, lemma_ascii_boundary};
use crate::wire::IncomingView;
use crate::words::{join_with, split_on};
use crate::wrap::{can_wrap, chunked, msg_words, pieces, wrapped};

verus! {

/// A line of ASCII text with the cursor in it or behind it, and the window not behind the cursor.
pub open spec fn is_ascii_line(line: InputView) -> bool {
    &&& is_ascii_chars(line.buf)
    &&& line.scroll_offset <= line.cursor_pos <= line.buf.len() < usize::MAX
}

/// On every screen every key can be taken, where the lines hold ASCII text and there is a message to
/// select.
pub proof fn law_every_key_is_taken(s: AppView, key: Key, pings: Seq<Option<u128>>)
    requires
        key matches Key::Char(c) ==> c <= '\u{7f}',
        s.screen == Screen::Selection ==> 0 <= s.scroll_offset < 0x7fff_ffff && s.selected_server
            <= s.servers.len() <= 0x7fff_ffff,
        s.screen == Screen::New ==> is_ascii_line(s.editing_server) && (
        s.editing_existing_index matches Some(i) ==> i < s.servers.len() && i <= pings.len()),
        s.screen == Screen::Login ==> is_ascii_line(s.login.username) && is_ascii_line(
            s.login.password,
        ),
        s.screen == Screen::Connected ==> {
            let name = s.current_server.channels[s.selected_channel->0 as int];
            &&& s.selected_channel is Some
            &&& s.selected_channel->0 < s.current_server.channels.len()
            &&& is_ascii_line(s.new_message_bufs[name])
            &&& s.current_server.msgs[name].len() > 0 || s.selected_msg_idcs[name] is Some
        },
    ensures
        s.key_ready(key, None, pings),
{
    if s.screen == Screen::New {
        law_ascii_takes_every_key(s.editing_server, key);
    } else if s.screen == Screen::Login {
        law_ascii_takes_every_key(s.login.username, key);
        law_ascii_takes_every_key(s.login.password, key);
    } else if s.screen == Screen::Connected {
        let name = s.current_server.channels[s.selected_channel->0 as int];
        law_ascii_takes_every_key(s.new_message_bufs[name], key);
    }
}

/// A connection that ends while the login is shown is noticed with the next key: the user is told,
/// and a connection that the server closes is given up. Everything else that arrives then is left for
/// later.
pub proof fn law_end_is_noticed_at_login(
    s: AppView,
    key: Key,
    other: IncomingView,
    error: Seq<char>,
    pings: Seq<Option<u128>>,
    now: u64,
)
    requires
        s.screen == Screen::Login,
        !(other is Close) && !(other is ConnectionClosed),
    ensures
        s.key_step(key, Some(other), pings, now) == s.key_step(key, None, pings, now),
        ({
            let (after, effects, known) = s.key_step(
                Key::Other,
                Some(IncomingView::Close),
                pings,
                now,
            );
            let text = "The websocket has closed."@;
            &&& known == pings
            &&& effects.len() == 3
            &&& effects[0] == EffectView::Notice(text)
            &&& effects[1] is Close && reason_given(s, effects[1]->Close_0)
            &&& effects[2] == EffectView::AbortReader
            &&& is_empty_line(after.login.username)
            &&& is_empty_line(after.login.password)
            &&& after == (AppView {
                screen: Screen::Selection,
                connect_state: ConnectState::NotConnected,
                socket: false,
                reader: false,
                status_text: text,
                next_fn: Some(Next::GoToSelection),
                selected_login_field: LoginField::Username,
                login: after.login,
                ..s
            })
        }),
        ({
            let text = "The websocket has kicked you out."@;
            s.key_step(Key::Other, Some(IncomingView::ConnectionClosed(error)), pings, now) == (
                AppView {
                    screen: Screen::Message,
                    status_text: text,
                    next_fn: Some(Next::GoToSelection),
                    ..s
                },
                seq![EffectView::Notice(text)],
                pings,
            )
        }),
{
    let (after, effects, known) = s.key_step(
        Key::Other,
        Some(IncomingView::ConnectionClosed(error)),
        pings,
        now,
    );
    assert(effects =~= seq![EffectView::Notice("The websocket has kicked you out."@)]);
    let plain = s.key_step(key, None, pings, now);
    assert(Seq::<EffectView>::empty() + plain.1 =~= plain.1);
}

/// Clusters are put together so many at a time, and the last ones as many as there are.
pub proof fn law_words_are_broken_into_full_parts(
    head: Seq<Seq<char>>,
    tail: Seq<Seq<char>>,
    n: nat,
)
    requires
        n > 0,
    ensures
        chunked(seq![], n) == Seq::<Seq<char>>::empty(),
        0 < head.len() <= n ==> chunked(head, n) == seq![join_with(head, seq![])],
        head.len() == n && tail.len() > 0 ==> chunked(head + tail, n) == seq![
            join_with(head, seq![]),
        ] + chunked(tail, n),
{
    if head.len() == n {
        assert((head + tail).take(n as int) =~= head);
        assert((head + tail).skip(n as int) =~= tail);
    }
}

/// The words of a message are what stands between its blanks, in order, each broken into parts of its
/// clusters.
pub proof fn law_words_of_a_message(text: Seq<char>, words: Seq<Seq<char>>, word: Seq<char>, n: nat)
    ensures
        pieces(seq![], n) == Seq::<Seq<char>>::empty(),
        pieces(words.push(word), n) == pieces(words, n) + chunked(graphemes_of(word), n),
        msg_words(text, n) == pieces(split_on(text, ' '), n),
{
    assert(words.push(word).drop_last() =~= words);
}

proof fn lemma_ascii_wrapped(words: Seq<Seq<char>>, max: int)
    requires
        max > 0,
        forall|i: int| 0 <= i < words.len() ==> is_ascii_chars(#[trigger] words[i]),
    ensures
        is_ascii_chars(wrapped(words, max).line),
        can_wrap(words, max),
    decreases words.len(),
{
    if words.len() > 0 {
        let before = words.drop_last();
        assert forall|i: int| 0 <= i < before.len() implies is_ascii_chars(#[trigger] before[i]) by {
            assert(before[i] == words[i]);
        }
        lemma_ascii_wrapped(before, max);
        let line = wrapped(before, max).line;
        let word = words.last();
        assert(is_ascii_chars(words[words.len() - 1]));
        if line.len() > max {
            lemma_ascii_boundary(line, max - 1);
        }
        let longer = line.push(' ') + word;
        assert(is_ascii_chars(longer)) by {
            assert forall|i: int| 0 <= i < longer.len() implies '\u{0}' <= #[trigger] longer[i]
                <= '\u{7f}' by {
                if i < line.len() {
                    assert(longer[i] == line[i]);
                } else if i > line.len() {
                    assert(longer[i] == word[i - line.len() - 1]);
                }
            }
        }
    }
}

/// Words of ASCII characters can always be broken into lines.
pub proof fn law_ascii_words_can_be_wrapped(words: Seq<Seq<char>>, max: int)
    requires
        max > 0,
        forall|i: int| 0 <= i < words.len() ==> is_ascii_chars(#[trigger] words[i]),
    ensures
        can_wrap(words, max),
{
    lemma_ascii_wrapped(words, max);
}

/// The texts of the message are ASCII texts.
pub open spec fn is_ascii_msg(m: MsgView, width: u16) -> bool {
    &&& is_ascii_chars(m.msg)
    &&& width >= 10 ==> forall|i: int|
        0 <= i < msg_words(m.msg, (width - 9) as nat).len() ==> is_ascii_chars(
            #[trigger] msg_words(m.msg, (width - 9) as nat)[i],
        )
}

/// A message of ASCII text among others can always be shown, at whatever date and time.
pub proof fn law_ascii_message_can_be_shown(
    m: MsgView,
    channel: Seq<MsgView>,
    width: u16,
    date: Seq<char>,
    clock: Seq<char>,
)
    requires
        is_ascii_msg(m, width),
        forall|i: int| 0 <= i < channel.len() ==> is_ascii_msg(#[trigger] channel[i], width),
    ensures
        can_show(m, channel, width, date + seq![' '] + clock),
{
    let stamp = date + seq![' '] + clock;
    crate::text_laws::law_pieces_on_both_sides(date, clock, ' ');
    crate::text_laws::law_pieces_join_to_the_text(date, ' ');
    if width >= 10 {
        if m._type == MsgType::Text {
            law_ascii_words_can_be_wrapped(msg_words(m.msg, (width - 9) as nat), width - 9);
        }
        if m.replying_to is Some && has_id(channel, m.replying_to->0) {
            let id = m.replying_to->0;
            let w = choose|w: int| 0 <= w < channel.len() && (#[trigger] channel[w]).id == id;
            let k = crate::chat_laws::lemma_first(channel, id, w);
            lemma_found(channel, id, k);
            let reply = channel[k];
            let room = crate::message_view::reply_room(
                crate::message_view::header_time(stamp, width),
                reply.user,
                width,
            );
            assert(is_ascii_msg(channel[k], width));
            if byte_len(reply.msg) >= room {
                lemma_ascii_boundary(reply.msg, 0);
                lemma_ascii_boundary(reply.msg, room - 1);
            }
        }
    }
}

/// Some date and clock time.
pub open spec fn is_date_and_time(stamp: Seq<char>) -> bool {
    exists|date: Seq<char>, clock: Seq<char>| stamp == #[trigger] (date + seq![' '] + clock)
}

/// A channel of messages of ASCII text is shown wherever there are four cells for the messages and the
/// cursor is on the line.
pub proof fn law_ascii_channel_is_shown(
    s: AppView,
    name: Seq<char>,
    areas: ChatAreas,
    stamps: Seq<Seq<char>>,
)
    requires
        s.selected_channel is Some,
        s.selected_channel->0 < s.current_server.channels.len(),
        s.current_server.channels[s.selected_channel->0 as int] == name,
        s.new_message_bufs.contains_key(name),
        areas.messages.width >= 4,
        stamps.len() == s.current_server.msgs[name].len(),
        s.new_message_bufs[name].cursor_pos <= s.new_message_bufs[name].buf.len(),
        forall|i: int|
            0 <= i < stamps.len() ==> is_date_and_time(#[trigger] stamps[i]) && is_ascii_msg(
                s.current_server.msgs[name][i],
                areas.messages.width,
            ),
    ensures
        s.chat_fits(areas, stamps),
{
    let messages = s.current_server.msgs[name];
    let width = areas.messages.width;
    assert forall|i: int| 0 <= i < messages.len() implies is_ascii_msg(
        #[trigger] messages[i],
        width,
    ) by {
        assert(is_date_and_time(stamps[i]));
    }
    assert forall|i: int| 0 <= i < messages.len() implies can_show(
        #[trigger] messages[i],
        messages,
        width,
        stamps[i],
    ) by {
        assert(is_date_and_time(stamps[i]));
        let (date, clock) = choose|date: Seq<char>, clock: Seq<char>|
            stamps[i] == #[trigger] (date + seq![' '] + clock);
        law_ascii_message_can_be_shown(messages[i], messages, width, date, clock);
    }
}

} // verus!
