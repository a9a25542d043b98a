//! What holds of the client as a whole.

use vstd::prelude::*;
use vstd::string::*;
use vstd::utf8::is_ascii_chars;

use crate::auth::AuthView;
use crate::chat_view::{chat_scroll, lines_upto};
use crate::connected::{last_place, last_with_id};
use crate::effect::{Delivery, EffectView};
use crate::events::started;
use crate::input::{law_line_holds_what_is_typed, typed, InputView, Key};
use crate::live::{users_without, LiveView};
use crate::menus::MOST_SERVERS;
use crate::message_view::{found, has_id, msg_lines};
use crate::msg::{MsgType, MsgView};
use crate::state::{
    empty_login, AppView, ConnectState, ConnectedField, LoginField, Screen, ServerView,
};
use crate::wire::IncomingView;
use crate::words::{is_trimmed, lemma_trimmed, trimmed, trims_to};

verus! {

/// Without a connection nothing that arrives changes anything.
pub proof fn law_deaf_without_connection(s: AppView, message: IncomingView, now: u64)
    requires
        s.connect_state == ConnectState::NotConnected,
    ensures
        s.heard_ready(message),
        s.heard(message, now) == (s, Seq::<EffectView>::empty()),
{
}

/// After what the user is told on the way, Enter leads back to the list of servers without a
/// connection.
pub proof fn law_notice_leads_to_selection(s: AppView, text: Seq<char>)
    requires
        s.wf(),
    ensures
        ({
            let (told, effects) = s.told(text);
            let after = told.message_key(Key::Enter);
            &&& told.wf()
            &&& after.wf()
            &&& after.screen == Screen::Selection
            &&& after.connect_state == ConnectState::NotConnected
            &&& !after.socket
            &&& after.login == empty_login()
            &&& after.servers == s.servers
            &&& effects == seq![EffectView::Notice(text)]
        }),
{
}

/// After a login that failed, Enter leads to an empty login screen of the same session.
pub proof fn law_failed_login_can_be_retried(s: AppView, reason: Seq<char>)
    requires
        s.wf(),
        s.connect_state == ConnectState::LoggingIn,
    ensures
        ({
            let after = s.auth_step(AuthView::LoginFailed(reason)).0.message_key(Key::Enter);
            &&& after.wf()
            &&& after.screen == Screen::Login
            &&& after.connect_state == ConnectState::LoggingIn
            &&& after.socket
            &&& after.session == s.session
            &&& after.login == empty_login()
            &&& after.selected_login_field == LoginField::Username
        }),
{
}

/// A connection that the server has closed is gone, and the user is told so.
pub proof fn law_closed_connection_is_gone(s: AppView)
    requires
        s.wf(),
    ensures
        s.closed().0.wf(),
        s.closed().0.connect_state == ConnectState::NotConnected,
        !s.closed().0.socket,
        !s.closed().0.reader,
        s.closed().0.screen == Screen::Message,
        s.closed().1.last() == EffectView::Notice("The websocket has closed."@),
{
}

/// The client ends only on Escape, and not on a screen where that means something else.
pub proof fn law_only_escape_exits(
    s: AppView,
    key: Key,
    heard: Option<IncomingView>,
    pings: Seq<Option<u128>>,
    now: u64,
)
    requires
        !s.exit,
        s.key_step(key, heard, pings, now).0.exit,
    ensures
        key == Key::Esc,
        s.screen == Screen::Selection || s.screen == Screen::Status || s.screen == Screen::Message,
{
}

/// What the client leaves behind lists the servers that it starts with the next time.
pub proof fn law_servers_come_back(
    s: AppView,
    matrix: Seq<Seq<bool>>,
    private: Seq<u8>,
    public: Seq<u8>,
)
    ensures
        started(s.saved(), matrix, private, public).servers == s.servers,
        started(s.saved(), matrix, private, public).saved() == s.saved(),
{
}

/// A server whose name is typed is listed behind all others, without the blanks around its name.
pub proof fn law_typed_server_is_listed(s: AppView, name: Seq<char>, pings: Seq<Option<u128>>)
    requires
        is_ascii_chars(name),
        name.len() < usize::MAX,
    ensures
        ({
            let asked = s.new_server(false);
            let filled = AppView { editing_server: typed(asked.editing_server, name), ..asked };
            &&& filled.new_ready(pings, Key::Enter)
            &&& filled.new_key(pings, Key::Enter).0.servers == s.servers.push(trimmed(name))
            &&& filled.new_key(pings, Key::Enter).1 == pings.push(None)
            &&& filled.new_key(pings, Key::Enter).0.screen == Screen::Selection
        }),
{
    law_line_holds_what_is_typed(1, name);
}

/// A server that is opened and kept as it is leaves the list as it was.
pub proof fn law_unchanged_edit_keeps_the_list(s: AppView, pings: Seq<Option<u128>>)
    requires
        s.on_server(),
        trims_to(s.servers[s.selected_server as int], s.servers[s.selected_server as int]),
    ensures
        s.new_server(true).new_key(pings, Key::Enter).0.servers == s.servers,
{
    let name = s.servers[s.selected_server as int];
    let (from, to) = choose|from: int, to: int| is_trimmed(name, name, from, to);
    lemma_trimmed(name, name, from, to);
    assert(s.servers.update(s.selected_server as int, name) =~= s.servers);
}

/// The cursor stays on the list or on the row behind it, and only Down and Up move it. Only Delete
/// changes the list.
pub proof fn law_cursor_stays_on_the_list(s: AppView, key: Key)
    requires
        s.selected_server <= s.servers.len() <= usize::MAX,
    ensures
        ({
            let after = s.selection_key(key).0;
            &&& after.selected_server <= after.servers.len()
            &&& after.selected_server == match key {
                Key::Down => if s.selected_server < s.servers.len() {
                    s.selected_server + 1
                } else {
                    s.servers.len() as int
                },
                Key::Up => if s.selected_server > 0 {
                    s.selected_server - 1
                } else {
                    0
                },
                _ => s.selected_server as int,
            }
            &&& key != Key::Delete ==> after.servers == s.servers
        }),
{
}

/// A cursor inside the window of the list stays there when it moves.
pub proof fn law_cursor_stays_in_the_window(s: AppView)
    requires
        s.list_wf(),
        s.servers.len() <= MOST_SERVERS,
        0 <= s.selected_server - s.scroll_offset <= s.server_selection_scroll_size - 3,
    ensures
        0 <= s.list_down().selected_server - s.list_down().scroll_offset
            <= s.server_selection_scroll_size - 3,
        0 <= s.list_up().selected_server - s.list_up().scroll_offset
            <= s.server_selection_scroll_size - 3,
{
}

/// Turning the pages stays among the channels.
pub proof fn law_pages_stay_among_the_channels(s: AppView)
    requires
        s.has_channel(),
    ensures
        s.page_up().has_channel(),
        s.page_down().has_channel(),
{
}

/// A selected message is one of its channel.
pub proof fn law_selected_message_is_there(s: AppView, name: Seq<char>)
    requires
        s.wf(),
        s.selected_msg_ids.contains_key(name),
        s.selected_msg_ids[name] is Some,
    ensures
        s.current_server.msgs.contains_key(name),
        has_id(s.current_server.msgs[name], s.selected_msg_ids[name]->0),
{
    assert(s.selected_msg_idcs.contains_key(name));
    let i = s.selected_msg_idcs[name]->0 as int;
    assert(s.current_server.msgs[name][i].id == s.selected_msg_ids[name]->0);
}

/// A step down takes back a step up among the messages.
pub proof fn law_down_undoes_up(s: AppView)
    requires
        s.wf(),
        s.screen == Screen::Connected,
        s.has_channel(),
        s.selected_place() is Some,
        s.selected_place()->0 > 0,
    ensures
        s.prev_msg().next_msg() == s.focus(ConnectedField::Channels),
{
    let name = s.channel();
    assert(s.selected_msg_idcs.contains_key(name));
    let i = s.selected_place()->0;
    assert(s.prev_msg().selected_place() == Some((i - 1) as usize));
    assert(s.prev_msg().next_msg().selected_msg_idcs =~= s.selected_msg_idcs);
    assert(s.prev_msg().next_msg().selected_msg_ids =~= s.selected_msg_ids);
}

/// Going to the original selects a message with the id that the selected one replies to.
pub proof fn law_original_is_what_was_replied_to(s: AppView, id: u64, original: u64)
    requires
        s.wf(),
        s.screen == Screen::Connected,
        s.has_channel(),
        s.selected_id() == Some(id),
        found(s.messages(), id).replying_to == Some(original),
        has_id(s.messages(), original),
        s.messages().len() <= usize::MAX,
    ensures
        s.go_to_original().selected_id() == Some(original),
{
    lemma_last_place(s.messages(), original);
}

/// There is a last message with the id.
pub proof fn lemma_last_place(messages: Seq<MsgView>, id: u64)
    requires
        has_id(messages, id),
        messages.len() <= usize::MAX,
    ensures
        last_with_id(messages, id, last_place(messages, id) as int),
{
    let w = choose|w: int| 0 <= w < messages.len() && (#[trigger] messages[w]).id == id;
    lemma_has_last(messages, id, w);
}

proof fn lemma_has_last(messages: Seq<MsgView>, id: u64, w: int)
    requires
        0 <= w < messages.len(),
        messages[w].id == id,
    ensures
        exists|i: int| last_with_id(messages, id, i),
    decreases messages.len() - w,
{
    if exists|j: int| w < j < messages.len() && (#[trigger] messages[j]).id == id {
        let j = choose|j: int| w < j < messages.len() && (#[trigger] messages[j]).id == id;
        lemma_has_last(messages, id, j);
    } else {
        assert(last_with_id(messages, id, w));
    }
}

/// A reply carries the id of the message that was selected, and is the only one to carry it.
pub proof fn law_reply_is_to_the_selected_message(s: AppView, id: u64, now: u64)
    requires
        s.selected_id() == Some(id),
    ensures
        s.reply().draft(now).replying_to == Some(id),
        s.line().buf.len() > 0 && s.line().buf[0] != '/' ==> s.reply().submit(now).0.replying_to
            is None,
{
}

/// What is typed in one channel leaves the lines of the others as they are.
pub proof fn law_lines_are_apart(s: AppView, key: Key, now: u64, other: Seq<char>)
    requires
        s.wf(),
        s.screen == Screen::Connected,
        s.connected_ready(key),
        other != s.channel(),
        s.new_message_bufs.contains_key(other),
    ensures
        s.connected_key(key, now).0.new_message_bufs.contains_key(other),
        s.connected_key(key, now).0.new_message_bufs[other] == s.new_message_bufs[other],
{
}

/// A command changes nothing of the client but what its channels hold.
pub proof fn law_commands_only_answer(s: AppView, args: Seq<Seq<char>>, now: u64)
    ensures
        s.command(args, now).0 == (AppView {
            current_server: ServerView {
                msgs: s.command(args, now).0.current_server.msgs,
                ..s.current_server
            },
            ..s
        }),
{
}

/// A line that starts with a slash is never sent as a message.
pub proof fn law_commands_are_not_messages(s: AppView, now: u64)
    requires
        s.line().buf.len() > 0,
        s.line().buf[0] == '/',
    ensures
        forall|i: int|
            0 <= i < s.submit(now).1.len() ==> !(#[trigger] s.submit(now).1[i] matches EffectView::Send(
                _,
                Delivery::Chat,
            )),
{
}

/// A message arrives in its channel, behind all others, and nowhere else.
pub proof fn law_message_reaches_its_channel(
    s: AppView,
    channel: Seq<char>,
    msg: MsgView,
    now: u64,
    other: Seq<char>,
)
    requires
        s.current_server.msgs.contains_key(channel),
        other != channel,
        s.current_server.msgs.contains_key(other),
    ensures
        ({
            let after = s.live_step(LiveView::NewMsg(channel, msg), now).current_server;
            &&& after.msgs[channel] == s.current_server.msgs[channel].push(msg)
            &&& after.msgs[other] == s.current_server.msgs[other]
            &&& after.msgs.dom() == s.current_server.msgs.dom()
            &&& after.channels == s.current_server.channels
        }),
{
    let after = s.live_step(LiveView::NewMsg(channel, msg), now).current_server;
    assert(after.msgs.dom() =~= s.current_server.msgs.dom());
}

/// Who comes is among the users, who goes is not, and whoever else was there is there still.
pub proof fn law_users_come_and_go(
    s: AppView,
    channel: Seq<char>,
    msg: MsgView,
    now: u64,
    other: Seq<char>,
)
    requires
        other != msg.user,
    ensures
        ({
            let before = s.current_server.connected_users;
            let after = s.live_step(
                LiveView::NewMsg(channel, msg),
                now,
            ).current_server.connected_users;
            &&& msg._type == MsgType::Connect ==> after.contains(msg.user)
            &&& msg._type == MsgType::Disconnect ==> !after.contains(msg.user)
            &&& msg._type == MsgType::Text ==> after == before
            &&& after.contains(other) <==> before.contains(other)
        }),
{
    let before = s.current_server.connected_users;
    if msg._type == MsgType::Connect {
        let after = before.push(msg.user);
        assert(after[before.len() as int] == msg.user);
        if before.contains(other) {
            let i = before.index_of(other);
            assert(after[i] == other);
        }
        if after.contains(other) {
            let i = after.index_of(other);
            assert(before[i] == other);
        }
    }
    if msg._type == MsgType::Disconnect {
        lemma_users_without(before, msg.user, other);
        lemma_users_without(before, msg.user, msg.user);
    }
}

proof fn lemma_users_without(users: Seq<Seq<char>>, user: Seq<char>, name: Seq<char>)
    ensures
        users_without(users, user).contains(name) <==> users.contains(name) && name != user,
    decreases users.len(),
{
    reveal(Seq::filter);
    if users.len() > 0 {
        let before = users.drop_last();
        let kept = users_without(before, user);
        lemma_users_without(before, user, name);
        if users.contains(name) {
            let i = users.index_of(name);
            if i < before.len() {
                assert(before[i] == name);
            }
        }
        if before.contains(name) {
            let i = before.index_of(name);
            assert(users[i] == name);
        }
        assert(users[users.len() - 1] == users.last());
        if users.last() != user {
            let after = kept.push(users.last());
            assert(after[kept.len() as int] == users.last());
            if kept.contains(name) {
                let i = kept.index_of(name);
                assert(after[i] == name);
            }
            if after.contains(name) && name != users.last() {
                let i = after.index_of(name);
                assert(kept[i] == name);
            }
        }
    }
}

/// A new channel is listed last and empty, with an empty line and no selection. The others stay
/// as they are.
pub proof fn law_new_channel_is_empty(s: AppView, name: Seq<char>, other: Seq<char>)
    requires
        other != name,
    ensures
        ({
            let after = s.open_channel(name);
            &&& after.current_server.channels == s.current_server.channels.push(name)
            &&& after.current_server.msgs[name].len() == 0
            &&& after.new_message_bufs[name] == InputView::empty(1)
            &&& after.selected_msg_ids[name] is None
            &&& after.selected_msg_idcs[name] is None
            &&& after.current_server.msgs[other] == s.current_server.msgs[other]
            &&& after.new_message_bufs[other] == s.new_message_bufs[other]
            &&& after.selected_msg_ids[other] == s.selected_msg_ids[other]
            &&& after.selected_channel == s.selected_channel
        }),
{
}

/// The first line of the selected message is in sight between the borders, but for one place: a
/// message of one line that would stand right above the last lines.
pub proof fn law_selected_message_is_in_sight(
    messages: Seq<MsgView>,
    width: u16,
    height: u16,
    id: u64,
    stamps: Seq<Seq<char>>,
)
    requires
        width >= 10,
        height >= 3,
        has_id(messages, id),
        messages.len() <= usize::MAX,
        ({
            let place = last_place(messages, id) as int;
            let start = lines_upto(messages, width, Some(id), stamps, place).len();
            let total = lines_upto(
                messages,
                width,
                Some(id),
                stamps,
                messages.len() as int,
            ).len();
            let count = msg_lines(
                messages[place],
                messages,
                width,
                Some(id),
                stamps[place],
            ).len();
            total > height && !(count == 1 && start == total - height + 1)
        }),
    ensures
        ({
            let place = last_place(messages, id) as int;
            let start = lines_upto(messages, width, Some(id), stamps, place).len();
            let offset = chat_scroll(messages, width, height, Some(id), stamps);
            offset <= start < offset + height - 2
        }),
{
    let place = last_place(messages, id) as int;
    lemma_last_place(messages, id);
    lemma_lines_grow(messages, width, Some(id), stamps, place + 1, messages.len() as int);
}

proof fn lemma_lines_grow(
    messages: Seq<MsgView>,
    width: u16,
    selected: Option<u64>,
    stamps: Seq<Seq<char>>,
    a: int,
    b: int,
)
    requires
        0 <= a <= b,
    ensures
        lines_upto(messages, width, selected, stamps, a).len() <= lines_upto(
            messages,
            width,
            selected,
            stamps,
            b,
        ).len(),
    decreases b - a,
{
    if a < b {
        lemma_lines_grow(messages, width, selected, stamps, a, b - 1);
    }
}

} // verus!
