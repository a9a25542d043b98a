//! What holds of what the server says.

use vstd::prelude::*;
use vstd::string::*;

use crate::auth::{auth_said, data_said, read_all, served};
use crate::chat_laws::{is_answer, lemma_request_names};
use crate::effect::{Delivery, EffectView};
use crate::json::{parsed_json, parsed_lists, texts_of, written_json, JsonView};
use crate::live::{relayed, users_without};
use crate::msg::{msg_of_json, received, MsgType, MsgView};
use crate::state::{AppView, ConnectState, LoginField, Next, Screen, ServerView};
use crate::wire::IncomingView;
use crate::words::{parsed_u64, without};

verus! {

/// The text that arrives is that of an object with these members.
pub open spec fn is_object(message: IncomingView, members: Map<Seq<char>, JsonView>) -> bool {
    message is Text && parsed_json(message->Text_0) == Some(JsonView::Dict(members))
}

/// The object has this member.
pub open spec fn says(
    members: Map<Seq<char>, JsonView>,
    name: Seq<char>,
    value: JsonView,
) -> bool {
    members.contains_key(name) && members[name] == value
}

/// What the object says of this name: nothing where there is no such member.
pub open spec fn said_of(members: Map<Seq<char>, JsonView>, name: Seq<char>) -> JsonView {
    if members.contains_key(name) {
        members[name]
    } else {
        JsonView::Null
    }
}

/// The client after the user is told something, from where Enter leads to `next`.
pub open spec fn shows_notice(s: AppView, text: Seq<char>, next: Next) -> AppView {
    AppView { screen: Screen::Message, status_text: text, next_fn: Some(next), ..s }
}

proof fn lemma_what_names()
    ensures
        "connect"@ != "session"@,
        "connect"@ != "login"@,
        "connect"@ != "data"@,
        "session"@ != "login"@,
        "session"@ != "data"@,
        "login"@ != "data"@,
{
    reveal_strlit("connect");
    reveal_strlit("session");
    reveal_strlit("login");
    reveal_strlit("data");
    assert("connect"@[0] != "session"@[0]);
    assert("connect"@.len() == 7 && "session"@.len() == 7 && "login"@.len() == 5 && "data"@.len()
        == 4);
}

/// The session that the server gives is the session of the client from then on, and the login is
/// shown. Nothing else changes. Where the server gives none, the user is told its reason.
pub proof fn law_session_is_taken(
    s: AppView,
    message: IncomingView,
    members: Map<Seq<char>, JsonView>,
    session: Seq<char>,
    now: u64,
)
    requires
        s.connect_state == ConnectState::LoggingIn,
        is_object(message, members),
        says(members, "what"@, JsonView::Text("session"@)),
    ensures
        says(members, "success"@, JsonView::Bool(true)) && says(
            members,
            "session"@,
            JsonView::Text(session),
        ) ==> s.heard_ready(message) && s.heard(message, now) == (
            AppView { session, screen: Screen::Login, ..s },
            Seq::<EffectView>::empty(),
        ),
        says(members, "success"@, JsonView::Bool(false)) ==> {
            let text = "Unable to get session.\n"@ + written_json(said_of(members, "reason"@));
            s.heard_ready(message) && s.heard(message, now) == (
                shows_notice(s, text, Next::GoToSelection),
                seq![EffectView::Notice(text)],
            )
        },
{
    lemma_what_names();
}

/// After a login the client asks for the data of the server in its session. After one that failed the
/// user is told why, and can try again from there.
pub proof fn law_login_is_answered(
    s: AppView,
    message: IncomingView,
    members: Map<Seq<char>, JsonView>,
    now: u64,
)
    requires
        s.connect_state == ConnectState::LoggingIn,
        is_object(message, members),
        says(members, "what"@, JsonView::Text("login"@)),
    ensures
        says(members, "success"@, JsonView::Bool(true)) ==> {
            let text = "Logged in successfully. Fetching server data..."@;
            s.heard_ready(message) && s.heard(message, now) == (
                AppView { screen: Screen::Status, status_text: text, ..s },
                seq![
                    EffectView::Status(text),
                    EffectView::Send(
                        Some(
                            JsonView::Dict(
                                map![
                                    "action"@ => JsonView::Text("data"@),
                                    "session"@ => JsonView::Text(s.session),
                                ],
                            ),
                        ),
                        Delivery::Data,
                    ),
                ],
            )
        },
        says(members, "success"@, JsonView::Bool(false)) ==> {
            let text = "Login failed: "@ + written_json(said_of(members, "reason"@));
            s.heard_ready(message) && s.heard(message, now) == (
                shows_notice(s, text, Next::RetryLogin),
                seq![EffectView::Notice(text)],
            )
        },
{
    lemma_what_names();
    lemma_request_names();
    if says(members, "success"@, JsonView::Bool(true)) {
        let effects = s.heard(message, now).1;
        assert(effects[1]->Send_0->0->Dict_0 =~= map![
            "action"@ => JsonView::Text("data"@),
            "session"@ => JsonView::Text(s.session),
        ]);
        assert(effects =~= seq![effects[0], effects[1]]);
    }
}

/// A server that wants the client changes nothing. Of one that does not, the user is told the reason,
/// if it is a text; of one that does not say, that there was an error.
pub proof fn law_refusal_is_told(
    s: AppView,
    message: IncomingView,
    members: Map<Seq<char>, JsonView>,
    now: u64,
)
    requires
        s.connect_state == ConnectState::LoggingIn,
        is_object(message, members),
        says(members, "what"@, JsonView::Text("connect"@)),
    ensures
        s.heard_ready(message),
        ({
            let reason = match said_of(members, "success"@) {
                JsonView::Bool(true) => None,
                JsonView::Bool(false) => Some(
                    match said_of(members, "reason"@) {
                        JsonView::Text(reason) => reason,
                        _ => "Failed to connect to server."@,
                    },
                ),
                _ => Some("Server threw an error."@),
            };
            s.heard(message, now) == match reason {
                Some(text) => (
                    shows_notice(s, text, Next::GoToSelection),
                    seq![EffectView::Notice(text)],
                ),
                None => (s, Seq::<EffectView>::empty()),
            }
        }),
{
    lemma_what_names();
}

/// Whatever else the server says during the login changes nothing.
pub proof fn law_other_words_during_login(
    s: AppView,
    message: IncomingView,
    members: Map<Seq<char>, JsonView>,
    what: Seq<char>,
    now: u64,
)
    requires
        s.connect_state == ConnectState::LoggingIn,
        is_object(message, members),
        says(members, "what"@, JsonView::Text(what)),
        what != "connect"@ && what != "session"@ && what != "login"@ && what != "data"@,
    ensures
        s.heard_ready(message),
        s.heard(message, now) == (s, Seq::<EffectView>::empty()),
{
}

/// A ping is answered with its own bytes. A text that is no JSON, and whatever the client does not
/// look at, change nothing. Nothing else changes either way.
pub proof fn law_pings_are_answered(
    s: AppView,
    bytes: Seq<u8>,
    text: Seq<char>,
    now: u64,
)
    requires
        s.connect_state != ConnectState::NotConnected,
    ensures
        s.heard_ready(IncomingView::Ping(bytes)),
        s.heard(IncomingView::Ping(bytes), now) == (s, seq![EffectView::Pong(bytes)]),
        s.heard(IncomingView::Other, now) == (s, Seq::<EffectView>::empty()),
        s.heard(IncomingView::Failed, now) == (s, Seq::<EffectView>::empty()),
        parsed_json(text) is None ==> s.heard_ready(IncomingView::Text(text)) && s.heard(
            IncomingView::Text(text),
            now,
        ) == (s, Seq::<EffectView>::empty()),
{
}

/// The channel that is named as the reason when a connection is closed: the selected one, the first
/// one where none is selected, or nothing.
pub open spec fn reason_given(s: AppView, reason: Seq<char>) -> bool {
    let channels = s.current_server.channels;
    match s.selected_channel {
        Some(i) => if i < channels.len() {
            reason == channels[i as int]
        } else {
            reason.len() == 0
        },
        None => if channels.len() > 0 {
            reason == channels[0]
        } else {
            reason.len() == 0
        },
    }
}

/// A server that closes the connection is left: the connection is closed and not read any more, and
/// the user is told so. A connection that is gone is told of, in words that say whether the login was
/// done.
pub proof fn law_end_of_the_connection_is_told(s: AppView, error: Seq<char>, now: u64)
    requires
        s.connect_state != ConnectState::NotConnected,
    ensures
        ({
            let (after, effects) = s.heard(IncomingView::Close, now);
            let text = "The websocket has closed."@;
            &&& effects.len() == 3
            &&& effects[0] is Close && reason_given(s, effects[0]->Close_0)
            &&& effects[1] == EffectView::AbortReader
            &&& effects[2] == EffectView::Notice(text)
            &&& after.login.username.buf.len() == 0
            &&& after.login.password.buf.len() == 0
            &&& after == shows_notice(
                AppView {
                    connect_state: ConnectState::NotConnected,
                    socket: false,
                    reader: false,
                    selected_login_field: LoginField::Username,
                    login: after.login,
                    ..s
                },
                text,
                Next::GoToSelection,
            )
        }),
        ({
            let text = if s.connect_state == ConnectState::Connected {
                "The websocket has kicked you out."@
            } else {
                "Failed to connect to server\n"@ + error
            };
            s.heard(IncomingView::ConnectionClosed(error), now) == (
                shows_notice(s, text, Next::GoToSelection),
                seq![EffectView::Notice(text)],
            )
        }),
{
}

/// The value is a list of these texts.
pub open spec fn is_list_of(json: JsonView, list: Seq<Seq<char>>) -> bool {
    &&& json is List
    &&& json->List_0.len() == list.len()
    &&& forall|i: int|
        0 <= i < list.len() ==> #[trigger] json->List_0[i] == JsonView::Text(list[i])
}

/// A text from which a message can be made: that of an object whose time is a number, or of anything
/// that is no object.
pub open spec fn gives_message(raw: Seq<char>) -> bool {
    match parsed_json(raw) {
        Some(JsonView::Dict(fields)) => fields.contains_key("time"@) && parsed_u64(
            without(written_json(fields["time"@]), '"'),
        ) is Some,
        Some(_) => true,
        None => false,
    }
}

/// The client shows the channels that the server lists, the first of them selected, with the users
/// that it lists. Each channel has the messages that the server has kept for it, in their order, an
/// empty line, and no message selected. The server's name is that under the cursor.
pub proof fn law_channels_are_shown_as_listed(
    s: AppView,
    message: IncomingView,
    members: Map<Seq<char>, JsonView>,
    channels: Seq<Seq<char>>,
    users: Seq<Seq<char>>,
    lists: Map<Seq<char>, Seq<Seq<char>>>,
    now: u64,
)
    requires
        s.connect_state == ConnectState::LoggingIn,
        s.selected_server < s.servers.len(),
        is_object(message, members),
        says(members, "what"@, JsonView::Text("data"@)),
        is_list_of(said_of(members, "channels"@), channels),
        is_list_of(said_of(members, "users"@), users),
        parsed_lists(written_json(said_of(members, "msgs"@))) == Ok::<
            Map<Seq<char>, Seq<Seq<char>>>,
            Seq<char>,
        >(lists),
        forall|i: int| 0 <= i < channels.len() ==> lists.contains_key(#[trigger] channels[i]),
        forall|i: int, j: int|
            0 <= i < channels.len() && 0 <= j < lists[channels[i]].len() ==> gives_message(
                #[trigger] lists[channels[i]][j],
            ),
    ensures
        s.heard_ready(message),
        ({
            let (after, effects) = s.heard(message, now);
            &&& effects.len() == 0
            &&& after.screen == Screen::Connected
            &&& after.connect_state == ConnectState::Connected
            &&& after.current_server.hostname == s.servers[s.selected_server as int]
            &&& after.current_server.channels == channels
            &&& after.current_server.connected_users == users
            &&& channels.len() > 0 ==> after.selected_channel == Some(0usize)
            &&& channels.len() == 0 ==> after.selected_channel == s.selected_channel
            &&& forall|name: Seq<char>| #[trigger]
                after.current_server.msgs.contains_key(name) ==> channels.contains(name)
            &&& forall|name: Seq<char>|
                s.new_message_bufs.contains_key(name) && !channels.contains(name)
                    ==> #[trigger] after.new_message_bufs[name] == s.new_message_bufs[name]
            &&& forall|i: int|
                0 <= i < channels.len() ==> {
                    let name = #[trigger] channels[i];
                    &&& after.current_server.msgs.contains_key(name)
                    &&& after.current_server.msgs[name].len() == lists[name].len()
                    &&& forall|j: int|
                        0 <= j < lists[name].len() ==> #[trigger] after.current_server.msgs[name][j]
                            == msg_of_json(parsed_json(lists[name][j])->0)
                    &&& after.new_message_bufs.contains_key(name)
                    &&& after.new_message_bufs[name].buf.len() == 0
                    &&& after.new_message_bufs[name].cursor_pos == 0
                    &&& after.selected_msg_ids.contains_key(name)
                    &&& after.selected_msg_ids[name] is None
                    &&& after.selected_msg_idcs.contains_key(name)
                    &&& after.selected_msg_idcs[name] is None
                }
            &&& after == (AppView {
                screen: Screen::Connected,
                connect_state: ConnectState::Connected,
                current_server: after.current_server,
                new_message_bufs: after.new_message_bufs,
                selected_msg_ids: after.selected_msg_ids,
                selected_msg_idcs: after.selected_msg_idcs,
                selected_channel: after.selected_channel,
                ..s
            })
        }),
{
    lemma_what_names();
    assert(texts_of(said_of(members, "channels"@)) =~= channels);
    assert(texts_of(said_of(members, "users"@)) =~= users);
    assert forall|i: int| 0 <= i < channels.len() implies crate::auth::all_readable(
        lists[#[trigger] channels[i]],
    ) by {
        assert forall|j: int| 0 <= j < lists[channels[i]].len() implies crate::msg::readable(
            #[trigger] lists[channels[i]][j],
        ) by {
            assert(gives_message(lists[channels[i]][j]));
        }
    }
    let after = s.heard(message, now).0;
    assert(auth_said(JsonView::Dict(members)) == data_said(
        JsonView::Dict(members),
        Ok::<Map<Seq<char>, Seq<Seq<char>>>, Seq<char>>(lists),
    ));
    assert forall|i: int| 0 <= i < channels.len() implies {
        let name = #[trigger] channels[i];
        &&& after.current_server.msgs.contains_key(name)
        &&& after.current_server.msgs[name] == read_all(lists[name])
        &&& after.new_message_bufs.contains_key(name)
        &&& after.new_message_bufs[name].buf.len() == 0
        &&& after.selected_msg_ids.contains_key(name)
        &&& after.selected_msg_idcs.contains_key(name)
    } by {
        assert(channels.contains(channels[i]));
    }
}

/// Where the messages cannot be made out, the user is told so.
pub proof fn law_bad_data_is_told(
    s: AppView,
    message: IncomingView,
    members: Map<Seq<char>, JsonView>,
    channels: Seq<Seq<char>>,
    users: Seq<Seq<char>>,
    error: Seq<char>,
    now: u64,
)
    requires
        s.connect_state == ConnectState::LoggingIn,
        is_object(message, members),
        says(members, "what"@, JsonView::Text("data"@)),
        is_list_of(said_of(members, "channels"@), channels),
        is_list_of(said_of(members, "users"@), users),
        parsed_lists(written_json(said_of(members, "msgs"@))) == Err::<
            Map<Seq<char>, Seq<Seq<char>>>,
            Seq<char>,
        >(error),
    ensures
        s.heard_ready(message),
        ({
            let (after, effects) = s.heard(message, now);
            let text = "Failed to fetch server data ("@ + error + ")"@;
            &&& effects == seq![EffectView::Notice(text)]
            &&& after == shows_notice(
                AppView {
                    connect_state: ConnectState::Connected,
                    selected_msg_ids: Map::empty(),
                    selected_msg_idcs: Map::empty(),
                    ..s
                },
                text,
                Next::GoToSelection,
            )
        }),
{
    lemma_what_names();
}

/// A message is made of the fields of an object: each is the text of the field without any quote.
/// The time in milliseconds is the id, and in seconds the time. What is no number is replied to by
/// none, and what is neither a coming nor a going is a text.
pub proof fn law_message_is_made_of_its_fields(fields: Map<Seq<char>, JsonView>, time: u64)
    requires
        fields.contains_key("time"@),
        parsed_u64(without(written_json(fields["time"@]), '"')) == Some(time),
    ensures
        ({
            let m = msg_of_json(JsonView::Dict(fields));
            let text = |name: Seq<char>|
                if fields.contains_key(name) {
                    without(written_json(fields[name]), '"')
                } else {
                    seq![]
                };
            &&& m.id == time
            &&& m.time == time / 1000
            &&& m.msg == text("msg"@)
            &&& m.user == text("user"@)
            &&& m.replying_to == parsed_u64(text("replying_to"@))
            &&& m._type == if text("type"@) == "Connect"@ {
                MsgType::Connect
            } else if text("type"@) == "Disconnect"@ {
                MsgType::Disconnect
            } else {
                MsgType::Text
            }
        }),
{
}

/// What is no object stands for a message that says so.
pub proof fn law_garbled_message(json: JsonView)
    requires
        !(json is Dict),
    ensures
        msg_of_json(json).msg == "<Garbled message>"@,
        msg_of_json(json).user == "???"@,
        msg_of_json(json).id == 0,
        msg_of_json(json).time == 0,
        msg_of_json(json).replying_to is None,
        msg_of_json(json)._type == MsgType::Text,
{
}

/// A message keeps its text, its user, its kind and what it replies to on its way. Its time in
/// milliseconds becomes its id, and in seconds its time.
pub proof fn law_message_on_its_way(m: MsgView)
    ensures
        received(m).msg == m.msg,
        received(m).user == m.user,
        received(m)._type == m._type,
        received(m).replying_to == m.replying_to,
        received(m).id == m.time,
        received(m).time == m.time / 1000,
{
}

/// What a server says of its channels, its users and its log, and what it passes on of a message,
/// member by member.
pub proof fn law_words_of_a_server(
    channels: Seq<Seq<char>>,
    users: Seq<Seq<char>>,
    log: Map<Seq<char>, Seq<MsgView>>,
    channel: Seq<char>,
    m: MsgView,
)
    ensures
        ({
            let data = served(channels, users, log)->Dict_0;
            &&& served(channels, users, log) is Dict
            &&& says(data, "what"@, JsonView::Text("data"@))
            &&& is_list_of(said_of(data, "channels"@), channels)
            &&& is_list_of(said_of(data, "users"@), users)
        }),
        ({
            let passed = relayed(channel, m)->Dict_0;
            &&& relayed(channel, m) is Dict
            &&& says(passed, "what"@, JsonView::Text("new_msg"@))
            &&& says(passed, "channel"@, JsonView::Text(channel))
            &&& says(
                passed,
                "msg"@,
                JsonView::Text(crate::json::flat_text(crate::msg::packed_members(m))),
            )
        }),
{
    reveal_strlit("what");
    reveal_strlit("channels");
    reveal_strlit("users");
    reveal_strlit("msgs");
    reveal_strlit("channel");
    reveal_strlit("msg");
    assert("what"@.len() == 4 && "channels"@.len() == 8 && "users"@.len() == 5 && "msgs"@.len()
        == 4 && "channel"@.len() == 7 && "msg"@.len() == 3);
    assert("what"@[0] != "msgs"@[0]);
}

/// The text between two quotes.
pub open spec fn in_quotes(s: Seq<char>) -> Seq<char> {
    seq!['"'] + s + seq!['"']
}

/// The value of the member is written as this text between quotes.
pub open spec fn writes(
    members: Map<Seq<char>, JsonView>,
    name: Seq<char>,
    text: Seq<char>,
) -> bool {
    members.contains_key(name) && written_json(members[name]) == in_quotes(text)
}

proof fn lemma_inner(s: Seq<char>)
    ensures
        crate::live::inner(in_quotes(s)) == s,
{
    assert(crate::live::inner(in_quotes(s)) =~= s);
}

proof fn lemma_live_names()
    ensures
        "new_msg"@ != "newchannel"@,
        "new_msg"@ != "kickattempt"@,
        "newchannel"@ != "kickattempt"@,
{
    reveal_strlit("new_msg");
    reveal_strlit("newchannel");
    reveal_strlit("kickattempt");
    assert("new_msg"@.len() == 7 && "newchannel"@.len() == 10 && "kickattempt"@.len() == 11);
}

/// A message that the server passes on arrives in the channel that it names, behind all others, as
/// what its text without backslashes stands for; one for a channel that is not there is dropped. Who
/// comes is added to the users, and who goes is taken off them. Nothing else changes.
pub proof fn law_new_message_arrives(
    s: AppView,
    message: IncomingView,
    members: Map<Seq<char>, JsonView>,
    channel: Seq<char>,
    raw: Seq<char>,
    fields: Map<Seq<char>, JsonView>,
    now: u64,
)
    requires
        s.connect_state == ConnectState::Connected,
        is_object(message, members),
        writes(members, "what"@, "new_msg"@),
        writes(members, "channel"@, channel),
        writes(members, "msg"@, raw),
        parsed_json(without(raw, '\\')) == Some(JsonView::Dict(fields)),
        fields.contains_key("time"@),
        parsed_u64(without(written_json(fields["time"@]), '"')) is Some,
    ensures
        s.heard_ready(message),
        ({
            let (after, effects) = s.heard(message, now);
            let m = msg_of_json(JsonView::Dict(fields));
            let msgs = s.current_server.msgs;
            let users = s.current_server.connected_users;
            &&& effects.len() == 0
            &&& after == (AppView {
                current_server: ServerView {
                    msgs: if msgs.contains_key(channel) {
                        msgs.insert(channel, msgs[channel].push(m))
                    } else {
                        msgs
                    },
                    connected_users: match m._type {
                        MsgType::Text => users,
                        MsgType::Connect => users.push(m.user),
                        MsgType::Disconnect => users_without(users, m.user),
                    },
                    ..s.current_server
                },
                ..s
            })
        }),
{
    lemma_inner("new_msg"@);
    lemma_inner(channel);
    lemma_inner(raw);
    lemma_live_names();
}

/// The users without one of them are all others in their order.
pub proof fn law_users_without_one(users: Seq<Seq<char>>, user: Seq<char>, next: Seq<char>)
    ensures
        users_without(users.push(next), user) == if next == user {
            users_without(users, user)
        } else {
            users_without(users, user).push(next)
        },
        users_without(seq![], user) == Seq::<Seq<char>>::empty(),
{
    reveal(Seq::filter);
    assert(users.push(next).drop_last() =~= users);
    assert(users_without(Seq::<Seq<char>>::empty(), user) =~= Seq::<Seq<char>>::empty());
}

/// A new channel that the server tells of is listed behind all others, without messages, with an
/// empty line and no message selected. Nothing else changes.
pub proof fn law_new_channel_is_listed(
    s: AppView,
    message: IncomingView,
    members: Map<Seq<char>, JsonView>,
    name: Seq<char>,
    now: u64,
)
    requires
        s.connect_state == ConnectState::Connected,
        is_object(message, members),
        writes(members, "what"@, "newchannel"@),
        writes(members, "channel_name"@, name),
    ensures
        s.heard_ready(message),
        ({
            let (after, effects) = s.heard(message, now);
            &&& effects.len() == 0
            &&& after.new_message_bufs[name].buf.len() == 0
            &&& after.new_message_bufs[name].cursor_pos == 0
            &&& after.new_message_bufs[name].scroll_offset == 0
            &&& after == (AppView {
                current_server: ServerView {
                    channels: s.current_server.channels.push(name),
                    msgs: s.current_server.msgs.insert(name, Seq::empty()),
                    ..s.current_server
                },
                new_message_bufs: s.new_message_bufs.insert(name, after.new_message_bufs[name]),
                selected_msg_ids: s.selected_msg_ids.insert(name, None),
                selected_msg_idcs: s.selected_msg_idcs.insert(name, None),
                ..s
            })
        }),
{
    lemma_inner("newchannel"@);
    lemma_inner(name);
    lemma_live_names();
}

/// What came of throwing someone out is shown in the selected channel, as a message of the client
/// itself behind all others. Nothing else changes.
pub proof fn law_kick_is_answered_in_the_channel(
    s: AppView,
    message: IncomingView,
    members: Map<Seq<char>, JsonView>,
    reason: Seq<char>,
    channel: Seq<char>,
    now: u64,
)
    requires
        s.connect_state == ConnectState::Connected,
        is_object(message, members),
        writes(members, "what"@, "kickattempt"@),
        writes(members, "reason"@, reason),
        s.selected_channel is Some,
        s.selected_channel->0 < s.current_server.channels.len(),
        s.current_server.channels[s.selected_channel->0 as int] == channel,
    ensures
        s.heard_ready(message),
        ({
            let (after, effects) = s.heard(message, now);
            let old_msgs = s.current_server.msgs[channel];
            let new_msgs = after.current_server.msgs[channel];
            &&& effects.len() == 0
            &&& new_msgs.len() == old_msgs.len() + 1
            &&& new_msgs.drop_last() == old_msgs
            &&& is_answer(new_msgs.last(), reason, now)
            &&& after == (AppView {
                current_server: ServerView {
                    msgs: s.current_server.msgs.insert(channel, new_msgs),
                    ..s.current_server
                },
                ..s
            })
        }),
{
    lemma_inner("kickattempt"@);
    lemma_inner(reason);
    lemma_live_names();
    let after = s.heard(message, now).0;
    let old_msgs = s.current_server.msgs[channel];
    assert(after.current_server.msgs[channel].drop_last() =~= old_msgs);
}

/// With no channel selected, nothing is shown of it.
pub proof fn law_kick_without_a_channel(
    s: AppView,
    message: IncomingView,
    members: Map<Seq<char>, JsonView>,
    reason: Seq<char>,
    now: u64,
)
    requires
        s.connect_state == ConnectState::Connected,
        is_object(message, members),
        writes(members, "what"@, "kickattempt"@),
        writes(members, "reason"@, reason),
        s.selected_channel is None,
    ensures
        s.heard_ready(message),
        s.heard(message, now) == (s, Seq::<EffectView>::empty()),
{
    lemma_inner("kickattempt"@);
    lemma_inner(reason);
    lemma_live_names();
}

/// Whatever else the server says once its channels are shown changes nothing.
pub proof fn law_other_words_are_passed_over(
    s: AppView,
    message: IncomingView,
    members: Map<Seq<char>, JsonView>,
    what: Seq<char>,
    now: u64,
)
    requires
        s.connect_state == ConnectState::Connected,
        is_object(message, members),
        writes(members, "what"@, what),
        what != "new_msg"@ && what != "newchannel"@ && what != "kickattempt"@,
    ensures
        s.heard_ready(message),
        s.heard(message, now) == (s, Seq::<EffectView>::empty()),
{
    lemma_inner(what);
}

} // verus!
