//! What the server says once its channels are shown.

use vstd::prelude::*;
use vstd::string::*;

use crate::effect::{all_compact, effects_view, no_effects, Effect, EffectView};
use crate::input::{InputBuffer, InputView};
use crate::json::{
    escaped, escaped_char, flat_members_text, flat_plain, flat_text, json_text, parse_json,
    parsed_json, plain_char, plain_text, quoted, written_json, Json, JsonView,
};
use crate::msg::{
    command_view, has_time, lemma_escaped_plain, lemma_packed_plain, lemma_packed_unpacked,
    member_texts, msg_of_json, msgs_view, packed_members, plain_msg, raw_members, received,
    time_given, unpack_msg, Msg, MsgType, MsgView,
};
use crate::state::{
    lemma_bufs, lemma_msgs, lemma_msgs_push, App, AppView, ConnectState, Next, ServerView,
};
use crate::text::{same_text, texts};
use crate::wire::{Incoming, IncomingView};
use crate::words::{lemma_without_add, remove_all, without};

verus! {

/// What the server says.
pub enum LiveView {
    /// Nothing that the client has to act on.
    Nothing,
    /// There is a message in a channel.
    NewMsg(Seq<char>, MsgView),
    /// There is a new channel.
    NewChannel(Seq<char>),
    /// Why a user was or was not thrown out.
    Kick(Seq<char>),
}

/// What the server says.
pub enum LiveEvent {
    Nothing,
    NewMsg(String, Msg),
    NewChannel(String),
    Kick(String),
}

impl View for LiveEvent {
    type V = LiveView;

    open spec fn view(&self) -> LiveView {
        match self {
            LiveEvent::Nothing => LiveView::Nothing,
            LiveEvent::NewMsg(channel, msg) => LiveView::NewMsg(channel@, msg@),
            LiveEvent::NewChannel(name) => LiveView::NewChannel(name@),
            LiveEvent::Kick(reason) => LiveView::Kick(reason@),
        }
    }
}

/// A text without its first and its last character.
pub open spec fn inner(text: Seq<char>) -> Seq<char> {
    if text.len() <= 1 {
        seq![]
    } else {
        text.subrange(1, text.len() - 1)
    }
}

/// The text of a member: what is written for it, without the quotes around it.
pub open spec fn inner_text(members: Map<Seq<char>, JsonView>, name: Seq<char>) -> Seq<char> {
    inner(written_json(members[name]))
}

/// The text of a message in what the server says.
pub open spec fn raw_text(members: Map<Seq<char>, JsonView>) -> Seq<char> {
    without(inner_text(members, "msg"@), '\\')
}

/// The message that the value `raw` stands for, in the channel that the server names.
pub open spec fn new_msg_said(
    members: Map<Seq<char>, JsonView>,
    raw: Option<JsonView>,
) -> Option<LiveView> {
    match raw {
        Some(JsonView::Dict(fields)) => if has_time(member_texts(fields)) {
            Some(
                LiveView::NewMsg(
                    inner_text(members, "channel"@),
                    msg_of_json(JsonView::Dict(fields)),
                ),
            )
        } else {
            None
        },
        _ => None,
    }
}

/// What the server says, where it can be made out.
pub open spec fn live_said(json: JsonView) -> Option<LiveView> {
    match json {
        JsonView::Dict(members) => if !members.contains_key("what"@) {
            None
        } else {
            let what = inner_text(members, "what"@);
            if what == "new_msg"@ {
                if members.contains_key("channel"@) && members.contains_key("msg"@) {
                    new_msg_said(members, parsed_json(raw_text(members)))
                } else {
                    None
                }
            } else if what == "newchannel"@ {
                if members.contains_key("channel_name"@) {
                    Some(LiveView::NewChannel(inner_text(members, "channel_name"@)))
                } else {
                    None
                }
            } else if what == "kickattempt"@ {
                if members.contains_key("reason"@) {
                    Some(LiveView::Kick(inner_text(members, "reason"@)))
                } else {
                    None
                }
            } else {
                Some(LiveView::Nothing)
            }
        },
        _ => None,
    }
}

/// What the server passes on of a packed message.
pub open spec fn relayed(channel: Seq<char>, m: MsgView) -> JsonView {
    JsonView::Dict(
        map![
            "what"@ => JsonView::Text("new_msg"@),
            "channel"@ => JsonView::Text(channel),
            "msg"@ => JsonView::Text(flat_text(packed_members(m))),
        ],
    )
}

/// The text is what the server passes on of a message whose texts need no escapes.
pub open spec fn is_relayed(message: IncomingView, channel: Seq<char>, m: MsgView) -> bool {
    &&& plain_text(channel)
    &&& plain_msg(m)
    &&& message is Text
    &&& parsed_json(message->Text_0) == Some(relayed(channel, m))
}

/// A message that the server passes on arrives in its channel as it was packed, with its time in
/// milliseconds as its id.
pub open spec fn hears_relayed(before: AppView, message: IncomingView, after: AppView) -> bool {
    forall|channel: Seq<char>, m: MsgView| #[trigger]
        is_relayed(message, channel, m) ==> after == before.live_step(
            LiveView::NewMsg(channel, received(m)),
            0,
        )
}

/// A character that stands for itself between quotes, or a quote.
pub open spec fn plain_or_quote(s: Seq<char>) -> bool {
    forall|i: int| 0 <= i < s.len() ==> plain_char(#[trigger] s[i]) || s[i] == '"'
}

/// Where only quotes need escapes, a text without its backslashes is the text before they came.
proof fn lemma_unescaped(s: Seq<char>)
    requires
        plain_or_quote(s),
    ensures
        without(escaped(s), '\\') == s,
    decreases s.len(),
{
    if s.len() == 0 {
        assert(without(escaped(s), '\\') =~= s);
    } else {
        let c = s.last();
        assert(plain_char(c) || c == '"');
        assert forall|i: int| 0 <= i < s.drop_last().len() implies plain_char(
            #[trigger] s.drop_last()[i],
        ) || s.drop_last()[i] == '"' by {
            assert(plain_char(s[i]) || s[i] == '"');
        }
        lemma_unescaped(s.drop_last());
        let e = escaped_char(c);
        lemma_without_add(escaped(s.drop_last()), e, '\\');
        assert(without(e, '\\') =~= seq![c]) by {
            assert(Seq::<char>::empty().push(c).drop_last() =~= Seq::<char>::empty());
            assert(seq!['\\', c].drop_last() =~= seq!['\\']);
            assert(seq!['\\'].drop_last() =~= Seq::<char>::empty());
            assert(without(Seq::<char>::empty(), '\\') =~= Seq::<char>::empty());
            assert(without(seq!['\\'], '\\') =~= Seq::<char>::empty());
            assert(seq![c].drop_last() =~= Seq::<char>::empty());
        }
        assert(s =~= s.drop_last() + seq![c]);
    }
}

proof fn lemma_flat_members_chars(members: Seq<(Seq<char>, Seq<char>)>)
    requires
        flat_plain(members),
    ensures
        plain_or_quote(flat_members_text(members)),
    decreases members.len(),
{
    if members.len() > 0 {
        let before = members.drop_last();
        let last = members.last();
        assert(last == members[members.len() - 1]);
        assert forall|i: int| 0 <= i < before.len() implies plain_text((#[trigger] before[i]).0)
            && plain_text(before[i].1) by {
            assert(before[i] == members[i]);
        }
        lemma_flat_members_chars(before);
    }
}

/// A packed message of plain texts holds no character that needs an escape but quotes.
proof fn lemma_packed_chars(m: MsgView)
    requires
        plain_msg(m),
    ensures
        plain_or_quote(flat_text(packed_members(m))),
{
    lemma_packed_plain(m);
    lemma_flat_members_chars(packed_members(m));
}

/// What stands between the quotes of a text.
proof fn lemma_inner_quoted(s: Seq<char>)
    ensures
        inner(quoted(s)) == escaped(s),
{
    assert(inner(quoted(s)) =~= escaped(s));
}

/// The users without `user`.
pub open spec fn users_without(users: Seq<Seq<char>>, user: Seq<char>) -> Seq<Seq<char>> {
    users.filter(|u: Seq<char>| u != user)
}

impl ServerView {
    /// A message arrives in a channel; of a channel that is not there it is dropped.
    pub open spec fn deliver(self, channel: Seq<char>, msg: MsgView) -> ServerView {
        if self.msgs.contains_key(channel) {
            ServerView { msgs: self.msgs.insert(channel, self.msgs[channel].push(msg)), ..self }
        } else {
            self
        }
    }

    /// A message tells who comes and who goes.
    pub open spec fn count_user(self, msg: MsgView) -> ServerView {
        ServerView {
            connected_users: match msg._type {
                MsgType::Connect => self.connected_users.push(msg.user),
                MsgType::Disconnect => users_without(self.connected_users, msg.user),
                MsgType::Text => self.connected_users,
            },
            ..self
        }
    }
}

impl AppView {
    /// There is a new, empty channel.
    pub open spec fn open_channel(self, name: Seq<char>) -> AppView {
        AppView {
            current_server: ServerView {
                channels: self.current_server.channels.push(name),
                msgs: self.current_server.msgs.insert(name, seq![]),
                ..self.current_server
            },
            selected_msg_idcs: self.selected_msg_idcs.insert(name, None),
            selected_msg_ids: self.selected_msg_ids.insert(name, None),
            new_message_bufs: self.new_message_bufs.insert(name, InputView::empty(1)),
            ..self
        }
    }

    /// What comes of what the server says.
    pub open spec fn live_step(self, said: LiveView, now: u64) -> AppView {
        match said {
            LiveView::Nothing => self,
            LiveView::NewMsg(channel, msg) => AppView {
                current_server: self.current_server.deliver(channel, msg).count_user(msg),
                ..self
            },
            LiveView::NewChannel(name) => self.open_channel(name),
            LiveView::Kick(reason) => self.add_msg(command_view(reason, now)),
        }
    }

    /// There is a place for what the server says: an answer needs the selected channel.
    pub open spec fn live_fits(self, said: LiveView) -> bool {
        said is Kick && self.selected_channel is Some ==> self.has_channel()
    }

    /// What arrived can be made out. A text that is no JSON is passed over.
    pub open spec fn live_ready(self, message: IncomingView) -> bool {
        match message {
            IncomingView::Text(text) => parsed_json(text) is Some ==> {
                &&& live_said(parsed_json(text)->0) is Some
                &&& self.live_fits(live_said(parsed_json(text)->0)->0)
            },
            _ => true,
        }
    }

    /// What comes of what arrives.
    pub open spec fn live_heard(self, message: IncomingView, now: u64) -> (
        AppView,
        Seq<EffectView>,
    ) {
        match message {
            IncomingView::Text(text) => match parsed_json(text) {
                Some(json) => (self.live_step(live_said(json)->0, now), seq![]),
                None => (self, seq![]),
            },
            IncomingView::Close => self.closed(),
            IncomingView::Ping(bytes) => (self, seq![EffectView::Pong(bytes)]),
            IncomingView::ConnectionClosed(_) => self.told("The websocket has kicked you out."@),
            _ => (self, seq![]),
        }
    }
}

/// The text of a member, where there is one.
fn member_inner(json: &Json, name: &str) -> (r: Option<String>)
    ensures
        r is Some <==> json@ is Dict && json@->Dict_0.contains_key(name@),
        r is Some ==> r->0@ == inner_text(json@->Dict_0, name@),
        r is Some ==> (json@->Dict_0[name@] matches JsonView::Text(s) ==> r->0@ == escaped(s)),
{
    match json.member(name) {
        Some(value) => {
            let text = json_text(value);
            proof {
                if let JsonView::Text(s) = value@ {
                    lemma_inner_quoted(s);
                }
            }
            let length = text.as_str().unicode_len();
            if length <= 1 {
                let none = String::new();
                assert(none@ =~= inner(text@));
                return Some(none);
            }
            let part = text.as_str().substring_char(1, length - 1);
            assert(part@ =~= inner(text@));
            Some(part.to_owned())
        },
        None => None,
    }
}

/// The message that the value of `raw` stands for, in `channel`.
fn new_msg_event(channel: String, raw: &str) -> (r: Option<LiveEvent>)
    ensures
        r is Some <==> parsed_json(raw@) is Some && parsed_json(raw@)->0 is Dict && has_time(
            member_texts(parsed_json(raw@)->0->Dict_0),
        ),
        r is Some ==> r->0@ == LiveView::NewMsg(channel@, msg_of_json(parsed_json(raw@)->0)),
        forall|m: MsgView|
            #![trigger packed_members(m)]
            plain_msg(m) && raw@ == flat_text(packed_members(m)) ==> r is Some && r->0@
                == LiveView::NewMsg(channel@, received(m)),
{
    proof {
        assert forall|m: MsgView|
            #![trigger packed_members(m)]
            plain_msg(m) implies flat_plain(packed_members(m)) by {
            lemma_packed_plain(m);
        }
    }
    match parse_json(raw) {
        Some(json) => match raw_members(&json) {
            Some(fields) => {
                proof {
                    assert forall|m: MsgView|
                        #![trigger packed_members(m)]
                        plain_msg(m) && raw@ == flat_text(packed_members(m)) implies has_time(
                        member_texts(json@->Dict_0),
                    ) && msg_of_json(json@) == received(m) by {
                        lemma_packed_unpacked(m);
                    }
                }
                if !time_given(&fields) {
                    return None;
                }
                Some(LiveEvent::NewMsg(channel, unpack_msg(&fields)))
            },
            None => None,
        },
        None => None,
    }
}

/// What the server says, where it can be made out. A message that the server passes on is the one
/// that was packed, with its time in milliseconds as its id.
pub fn live_event(json: &Json) -> (r: Option<LiveEvent>)
    ensures
        r is Some <==> live_said(json@) is Some,
        r is Some ==> Some(r->0@) == live_said(json@),
        forall|channel: Seq<char>, m: MsgView|
            #![trigger relayed(channel, m)]
            plain_text(channel) && plain_msg(m) && json@ == relayed(channel, m) ==> r is Some
                && r->0@ == LiveView::NewMsg(channel, received(m)),
{
    let ghost said = json@;
    let what = match member_inner(json, "what") {
        Some(what) => what,
        None => {
            return None;
        },
    };
    proof {
        reveal_strlit("new_msg");
        reveal_strlit("what");
        reveal_strlit("channel");
        reveal_strlit("msg");
        lemma_escaped_plain("new_msg"@);
        assert("what"@.len() == 4 && "channel"@.len() == 7 && "msg"@.len() == 3);
        assert forall|c: Seq<char>, m: MsgView|
            #![trigger relayed(c, m)]
            said == relayed(c, m) implies what@ == "new_msg"@ by {}
    }
    if same_text(what.as_str(), "new_msg") {
        match (member_inner(json, "channel"), member_inner(json, "msg")) {
            (Some(channel), Some(msg)) => {
                let raw = remove_all(msg.as_str(), '\\');
                proof {
                    assert forall|c: Seq<char>, m: MsgView|
                        #![trigger relayed(c, m)]
                        plain_text(c) && plain_msg(m) && said == relayed(c, m) implies channel@ == c
                        && raw@ == flat_text(packed_members(m)) by {
                        lemma_escaped_plain(c);
                        lemma_packed_chars(m);
                        lemma_unescaped(flat_text(packed_members(m)));
                    }
                }
                new_msg_event(channel, raw.as_str())
            },
            _ => None,
        }
    } else if same_text(what.as_str(), "newchannel") {
        match member_inner(json, "channel_name") {
            Some(name) => Some(LiveEvent::NewChannel(name)),
            None => None,
        }
    } else if same_text(what.as_str(), "kickattempt") {
        match member_inner(json, "reason") {
            Some(reason) => Some(LiveEvent::Kick(reason)),
            None => None,
        }
    } else {
        Some(LiveEvent::Nothing)
    }
}

/// Takes every `user` out of the list.
fn remove_user(users: &mut Vec<String>, user: &str)
    ensures
        texts(final(users)@) == users_without(texts(old(users)@), user@),
{
    let ghost all = texts(users@);
    let mut kept: Vec<String> = Vec::new();
    let mut i: usize = 0;
    assert(texts(kept@) =~= users_without(all.take(0), user@)) by {
        reveal(Seq::filter);
    }
    while i < users.len()
        invariant
            i <= users@.len(),
            all == texts(users@),
            texts(kept@) == users_without(all.take(i as int), user@),
        decreases users@.len() - i,
    {
        let ghost before = kept@;
        proof {
            assert(all.take(i + 1).drop_last() =~= all.take(i as int));
            assert(all.take(i + 1).last() == users@[i as int]@);
            reveal(Seq::filter);
        }
        if !same_text(users[i].as_str(), user) {
            kept.push(users[i].clone());
            assert(texts(kept@) =~= texts(before).push(users@[i as int]@));
        }
        i += 1;
    }
    assert(all.take(users@.len() as int) =~= all);
    *users = kept;
}

impl App {
    /// Takes a message that arrives in a channel.
    fn deliver(&mut self, channel: &str, msg: Msg)
        requires
            old(self)@.wf(),
        ensures
            final(self)@ == old(self)@.live_step(LiveView::NewMsg(channel@, msg@), 0),
            final(self)@.wf(),
    {
        let ghost before = self.current_server.msgs;
        let kept = msg.copy();
        if let Some(list) = self.current_server.msgs.get_mut(channel) {
            proof {
                lemma_msgs_push(list@, kept);
            }
            list.push(kept);
        }
        proof {
            if before@.contains_key(channel@) {
                lemma_msgs(
                    before,
                    self.current_server.msgs,
                    channel@,
                    self.current_server.msgs@[channel@],
                );
            }
        }
        let ghost users = self.current_server.connected_users@;
        match msg._type {
            MsgType::Connect => {
                self.current_server.connected_users.push(msg.user);
                assert(texts(self.current_server.connected_users@) =~= texts(users).push(msg.user@));
            },
            MsgType::Disconnect => remove_user(
                &mut self.current_server.connected_users,
                msg.user.as_str(),
            ),
            MsgType::Text => {},
        }
    }

    /// Opens a new channel.
    fn open_channel(&mut self, name: String)
        requires
            old(self)@.wf(),
        ensures
            final(self)@ == old(self)@.open_channel(name@),
            final(self)@.wf(),
    {
        let ghost channels = self.current_server.channels@;
        let ghost msgs = self.current_server.msgs;
        let ghost bufs = self.new_message_bufs;
        let none: Vec<Msg> = Vec::new();
        let line = InputBuffer::new(1);
        self.current_server.channels.push(name.clone());
        self.current_server.msgs.insert(name.as_str(), none);
        self.selected_msg_idcs.insert(name.as_str(), None);
        self.selected_msg_ids.insert(name.as_str(), None);
        self.new_message_bufs.insert(name.as_str(), line);
        proof {
            assert(msgs_view(none@) =~= seq![]);
            lemma_msgs(msgs, self.current_server.msgs, name@, none);
            lemma_bufs(bufs, self.new_message_bufs, name@, line);
            assert(texts(self.current_server.channels@) =~= texts(channels).push(name@));
        }
    }

    /// Goes on after what the server says.
    pub fn handle_live_event(&mut self, said: LiveEvent, now: u64)
        requires
            old(self)@.wf(),
            old(self)@.live_fits(said@),
        ensures
            final(self)@ == old(self)@.live_step(said@, now),
            final(self)@.wf(),
    {
        match said {
            LiveEvent::Nothing => {},
            LiveEvent::NewMsg(channel, msg) => self.deliver(channel.as_str(), msg),
            LiveEvent::NewChannel(name) => self.open_channel(name),
            LiveEvent::Kick(reason) => {
                self.add_msg_to_current_channel(Msg::command_msg(reason.as_str(), now));
            },
        }
    }

    /// Whether what arrived can be made out.
    pub fn live_ready(&self, message: &Incoming) -> (r: bool)
        ensures
            r == self@.live_ready(message@),
            forall|channel: Seq<char>, m: MsgView| #[trigger]
                is_relayed(message@, channel, m) ==> r,
    {
        match message {
            Incoming::Text(text) => match parse_json(text.as_str()) {
                Some(json) => match live_event(&json) {
                    Some(LiveEvent::Kick(_)) => match self.selected_channel {
                        Some(i) => i < self.current_server.channels.len(),
                        None => true,
                    },
                    Some(_) => true,
                    None => false,
                },
                None => true,
            },
            _ => true,
        }
    }

    /// Goes on after what arrives.
    pub fn handle_ws_message(&mut self, message: Incoming, now: u64) -> (r: Vec<Effect>)
        requires
            old(self)@.wf(),
            old(self)@.connect_state == ConnectState::Connected,
            old(self)@.live_ready(message@),
        ensures
            final(self)@ == old(self)@.live_heard(message@, now).0,
            all_compact(r@),
            effects_view(r@) == old(self)@.live_heard(message@, now).1,
            final(self)@.wf(),
            hears_relayed(old(self)@, message@, final(self)@),
    {
        match message {
            Incoming::Text(text) => {
                if let Some(json) = parse_json(text.as_str()) {
                    if let Some(said) = live_event(&json) {
                        self.handle_live_event(said, now);
                    }
                }
                no_effects()
            },
            Incoming::Close => self.handle_close(),
            Incoming::Ping(bytes) => self.handle_ping(bytes),
            Incoming::ConnectionClosed(_) => self.message(
                "The websocket has kicked you out.",
                Next::GoToSelection,
            ),
            _ => no_effects(),
        }
    }
}

} // verus!
