//! What the server says while the client logs in.

use vstd::prelude::*;
use vstd::string::*;

use crate::effect::{
    all_compact, effects_view, no_effects, one_effect, Delivery, Effect, EffectView,
};
use crate::input::{InputBuffer, InputView};
use crate::json::{
    are_lists, bool_of, exact_members, flat_text, is_lists, is_texts, json_text, lists_of,
    member_of, parse_json, parse_lists, parsed_json, parsed_lists, payload, text_of, texts_of,
    written_json, Json, JsonView,
};
use crate::keys::key_members;
use crate::msg::{
    msg_of_json, msgs_view, packed_members, parse_raw, plain_msg, readable, received, Msg, MsgView,
};
use crate::names::NameMap;
use crate::state::{
    bufs_map, lemma_bufs, lemma_msgs, msgs_map, request, session_members, App, AppView,
    ConnectState, CurrentServer, Next, Screen, ServerView,
};
use crate::text::{same_text, texts};
use crate::wire::{Incoming, IncomingView};

verus! {

/// What the server says while the client logs in.
#[verifier::ext_equal]
pub enum AuthView {
    /// Nothing that the client has to act on.
    Nothing,
    /// It does not want the client, for a reason.
    Refused(Seq<char>),
    /// It does not say whether it wants the client.
    Broken,
    /// It gives a session.
    Session(Seq<char>),
    /// It gives none, for a reason.
    NoSession(Seq<char>),
    /// It accepts the credentials.
    LoggedIn,
    /// It does not, for a reason.
    LoginFailed(Seq<char>),
    /// It sends its messages in a form that cannot be read.
    BadData(Seq<char>),
    /// It sends its channels, its users, and the messages of each channel.
    Data(Seq<Seq<char>>, Seq<Seq<char>>, Map<Seq<char>, Seq<MsgView>>),
}

/// What the server says while the client logs in.
pub enum AuthEvent {
    Nothing,
    Refused(String),
    Broken,
    Session(String),
    NoSession(String),
    LoggedIn,
    LoginFailed(String),
    BadData(String),
    Data(Vec<String>, Vec<String>, NameMap<Vec<Msg>>),
}

impl View for AuthEvent {
    type V = AuthView;

    open spec fn view(&self) -> AuthView {
        match self {
            AuthEvent::Nothing => AuthView::Nothing,
            AuthEvent::Refused(reason) => AuthView::Refused(reason@),
            AuthEvent::Broken => AuthView::Broken,
            AuthEvent::Session(session) => AuthView::Session(session@),
            AuthEvent::NoSession(reason) => AuthView::NoSession(reason@),
            AuthEvent::LoggedIn => AuthView::LoggedIn,
            AuthEvent::LoginFailed(reason) => AuthView::LoginFailed(reason@),
            AuthEvent::BadData(error) => AuthView::BadData(error@),
            AuthEvent::Data(channels, users, msgs) => AuthView::Data(
                texts(channels@),
                texts(users@),
                msgs_map(*msgs),
            ),
        }
    }
}

/// Every text in the list can be read as a message.
pub open spec fn all_readable(raws: Seq<Seq<char>>) -> bool {
    forall|i: int| 0 <= i < raws.len() ==> readable(#[trigger] raws[i])
}

/// The messages that the texts stand for.
pub open spec fn read_all(raws: Seq<Seq<char>>) -> Seq<MsgView> {
    raws.map_values(|raw: Seq<char>| msg_of_json(parsed_json(raw)->0))
}

/// The messages as they are packed.
pub open spec fn packed_list(list: Seq<MsgView>) -> Seq<Seq<char>> {
    list.map_values(|m: MsgView| flat_text(packed_members(m)))
}

/// The messages as they are received.
pub open spec fn received_list(list: Seq<MsgView>) -> Seq<MsgView> {
    list.map_values(|m: MsgView| received(m))
}

/// Messages whose texts need no escapes.
pub open spec fn all_plain(list: Seq<MsgView>) -> bool {
    forall|i: int| 0 <= i < list.len() ==> plain_msg(#[trigger] list[i])
}

/// Where the texts are packed messages, they read as those messages.
pub open spec fn reads_packed(raws: Seq<Seq<char>>) -> bool {
    forall|list: Seq<MsgView>|
        #![trigger packed_list(list)]
        all_plain(list) && raws == packed_list(list) ==> all_readable(raws) && read_all(raws)
            == received_list(list)
}

/// A list of texts.
pub open spec fn texts_json(list: Seq<Seq<char>>) -> JsonView {
    JsonView::List(list.map_values(|s: Seq<char>| JsonView::Text(s)))
}

/// The messages of each channel, packed.
pub open spec fn log_json(log: Map<Seq<char>, Seq<MsgView>>) -> Map<Seq<char>, JsonView> {
    log.map_values(|list: Seq<MsgView>| texts_json(packed_list(list)))
}

/// What a server says of its channels, its users, and the messages that it has kept.
pub open spec fn served(
    channels: Seq<Seq<char>>,
    users: Seq<Seq<char>>,
    log: Map<Seq<char>, Seq<MsgView>>,
) -> JsonView {
    JsonView::Dict(
        map![
            "what"@ => JsonView::Text("data"@),
            "channels"@ => texts_json(channels),
            "users"@ => texts_json(users),
            "msgs"@ => JsonView::Dict(log_json(log)),
        ],
    )
}

/// Every channel has its messages, and their texts need no escapes.
pub open spec fn log_complete(
    channels: Seq<Seq<char>>,
    log: Map<Seq<char>, Seq<MsgView>>,
) -> bool {
    forall|i: int|
        0 <= i < channels.len() ==> log.contains_key(#[trigger] channels[i]) && all_plain(
            log[channels[i]],
        )
}

/// The messages of each channel as they are received.
pub open spec fn log_received(
    channels: Seq<Seq<char>>,
    log: Map<Seq<char>, Seq<MsgView>>,
) -> Map<Seq<char>, Seq<MsgView>> {
    Map::new(
        |name: Seq<char>| channels.contains(name),
        |name: Seq<char>| received_list(log[name]),
    )
}

proof fn lemma_texts_json(list: Seq<Seq<char>>)
    ensures
        is_texts(texts_json(list)),
        texts_of(texts_json(list)) == list,
{
    assert(texts_of(texts_json(list)) =~= list);
}

/// The messages of each channel as they are packed.
pub open spec fn packed_log(log: Map<Seq<char>, Seq<MsgView>>) -> Map<Seq<char>, Seq<Seq<char>>> {
    log.map_values(|list: Seq<MsgView>| packed_list(list))
}

/// What comes of a server's log, where the lists in it read as the messages that were packed.
proof fn lemma_log_received(channels: Seq<Seq<char>>, log: Map<Seq<char>, Seq<MsgView>>)
    requires
        log_complete(channels, log),
        forall|i: int|
            0 <= i < channels.len() ==> reads_packed(packed_log(log)[#[trigger] channels[i]]),
    ensures
        channel_msgs(channels, packed_log(log)) == log_received(channels, log),
{
    assert forall|name: Seq<char>| channels.contains(name) implies read_all(packed_log(log)[name])
        == received_list(#[trigger] log[name]) by {
        let i = channels.index_of(name);
        assert(channels[i] == name);
        assert(packed_log(log)[name] == packed_list(log[name]));
    }
    assert(channel_msgs(channels, packed_log(log)) =~= log_received(channels, log));
}

/// What a server says of its log holds the lists of what was packed.
proof fn lemma_served(
    channels: Seq<Seq<char>>,
    users: Seq<Seq<char>>,
    log: Map<Seq<char>, Seq<MsgView>>,
)
    ensures
        text_of(member_of(served(channels, users, log), "what"@)) == Some("data"@),
        is_texts(member_of(served(channels, users, log), "channels"@)),
        texts_of(member_of(served(channels, users, log), "channels"@)) == channels,
        is_texts(member_of(served(channels, users, log), "users"@)),
        texts_of(member_of(served(channels, users, log), "users"@)) == users,
        member_of(served(channels, users, log), "msgs"@) == JsonView::Dict(log_json(log)),
        are_lists(log_json(log)),
        lists_of(log_json(log)) == packed_log(log),
{
    lemma_data_names();
    lemma_texts_json(channels);
    lemma_texts_json(users);
    assert forall|name: Seq<char>| #[trigger] log_json(log).contains_key(name) implies is_texts(
        log_json(log)[name],
    ) && texts_of(log_json(log)[name]) == packed_list(log[name]) by {
        lemma_texts_json(packed_list(log[name]));
    }
    assert(lists_of(log_json(log)) =~= packed_log(log));
}

/// The names of the members of the server's data are different.
proof fn lemma_data_names()
    ensures
        "what"@ != "channels"@,
        "what"@ != "users"@,
        "what"@ != "msgs"@,
        "channels"@ != "users"@,
        "channels"@ != "msgs"@,
        "users"@ != "msgs"@,
{
    reveal_strlit("what");
    reveal_strlit("channels");
    reveal_strlit("users");
    reveal_strlit("msgs");
    assert("what"@.len() == 4 && "channels"@.len() == 8 && "users"@.len() == 5 && "msgs"@.len()
        == 4);
    assert("what"@[0] != "msgs"@[0]);
}

/// Every channel has its list, and every message in it can be read.
pub open spec fn lists_complete(
    channels: Seq<Seq<char>>,
    lists: Map<Seq<char>, Seq<Seq<char>>>,
) -> bool {
    forall|i: int|
        0 <= i < channels.len() ==> lists.contains_key(#[trigger] channels[i]) && all_readable(
            lists[channels[i]],
        )
}

/// The messages of each channel.
pub open spec fn channel_msgs(
    channels: Seq<Seq<char>>,
    lists: Map<Seq<char>, Seq<Seq<char>>>,
) -> Map<Seq<char>, Seq<MsgView>> {
    Map::new(
        |name: Seq<char>| channels.contains(name),
        |name: Seq<char>| read_all(lists[name]),
    )
}

/// What the server's data says, where it can be made out. `lists` is what the member with the
/// messages reads as.
pub open spec fn data_said(
    json: JsonView,
    lists: Result<Map<Seq<char>, Seq<Seq<char>>>, Seq<char>>,
) -> Option<AuthView> {
    let channels = member_of(json, "channels"@);
    let users = member_of(json, "users"@);
    if !is_texts(channels) || !is_texts(users) {
        None
    } else {
        match lists {
            Err(error) => Some(AuthView::BadData(error)),
            Ok(lists) => if lists_complete(texts_of(channels), lists) {
                Some(
                    AuthView::Data(
                        texts_of(channels),
                        texts_of(users),
                        channel_msgs(texts_of(channels), lists),
                    ),
                )
            } else {
                None
            },
        }
    }
}

/// What the server says while the client logs in, where it can be made out.
pub open spec fn auth_said(json: JsonView) -> Option<AuthView> {
    let success = bool_of(member_of(json, "success"@));
    let reason = member_of(json, "reason"@);
    match text_of(member_of(json, "what"@)) {
        None => None,
        Some(what) => if what == "connect"@ {
            match success {
                Some(true) => Some(AuthView::Nothing),
                Some(false) => Some(
                    AuthView::Refused(
                        match text_of(reason) {
                            Some(text) => text,
                            None => "Failed to connect to server."@,
                        },
                    ),
                ),
                None => Some(AuthView::Broken),
            }
        } else if what == "session"@ {
            match success {
                Some(true) => match text_of(member_of(json, "session"@)) {
                    Some(session) => Some(AuthView::Session(session)),
                    None => None,
                },
                Some(false) => Some(AuthView::NoSession(written_json(reason))),
                None => None,
            }
        } else if what == "login"@ {
            match success {
                Some(true) => Some(AuthView::LoggedIn),
                Some(false) => Some(AuthView::LoginFailed(written_json(reason))),
                None => None,
            }
        } else if what == "data"@ {
            data_said(json, parsed_lists(written_json(member_of(json, "msgs"@))))
        } else {
            Some(AuthView::Nothing)
        },
    }
}

/// Where the server tells of its log, the client knows its channels, its users, and the messages
/// that were packed.
pub open spec fn serves_log(json: JsonView, said: Option<AuthEvent>) -> bool {
    forall|channels: Seq<Seq<char>>, users: Seq<Seq<char>>, log: Map<Seq<char>, Seq<MsgView>>|
        #![trigger served(channels, users, log)]
        log_complete(channels, log) && json == served(channels, users, log) ==> said is Some
            && said->0@ == AuthView::Data(channels, users, log_received(channels, log))
}

/// A server's data, where it tells of its channels and its users, but not of their messages.
pub open spec fn lacks_log(json: JsonView) -> bool {
    &&& text_of(member_of(json, "what"@)) == Some("data"@)
    &&& is_texts(member_of(json, "channels"@))
    &&& is_texts(member_of(json, "users"@))
    &&& !is_lists(member_of(json, "msgs"@))
}

/// The text is a server's data without the messages.
pub open spec fn is_lacking(message: IncomingView) -> bool {
    message is Text && parsed_json(message->Text_0) is Some && lacks_log(
        parsed_json(message->Text_0)->0,
    )
}

/// Where the messages are missing from a server's data, the user is told of some error.
pub open spec fn hears_lack(before: AppView, message: IncomingView, after: AppView) -> bool {
    is_lacking(message) ==> exists|error: Seq<char>|
        after == #[trigger] before.auth_step(AuthView::BadData(error)).0
}

/// The text is what a server tells of its log.
pub open spec fn is_served(
    message: IncomingView,
    channels: Seq<Seq<char>>,
    users: Seq<Seq<char>>,
    log: Map<Seq<char>, Seq<MsgView>>,
) -> bool {
    &&& log_complete(channels, log)
    &&& message is Text
    &&& parsed_json(message->Text_0) == Some(served(channels, users, log))
}

/// Where the server tells of its log, its channels are shown with the messages that were packed.
pub open spec fn hears_log(before: AppView, message: IncomingView, after: AppView) -> bool {
    forall|channels: Seq<Seq<char>>, users: Seq<Seq<char>>, log: Map<Seq<char>, Seq<MsgView>>|
        #[trigger]
        is_served(message, channels, users, log) ==> after == before.entered(
            channels,
            users,
            log_received(channels, log),
        )
}

/// The channels, in no order.
pub open spec fn channel_set(channels: Seq<Seq<char>>) -> Set<Seq<char>> {
    Set::new(|name: Seq<char>| channels.contains(name))
}

/// No message of any channel is selected.
pub open spec fn none_selected<T>(channels: Seq<Seq<char>>) -> Map<Seq<char>, Option<T>> {
    Map::new(|name: Seq<char>| channel_set(channels).contains(name), |name: Seq<char>| None)
}

/// Every channel gets an empty input line.
pub open spec fn with_lines(
    bufs: Map<Seq<char>, InputView>,
    channels: Seq<Seq<char>>,
) -> Map<Seq<char>, InputView> {
    bufs.union_prefer_right(
        Map::new(
            |name: Seq<char>| channel_set(channels).contains(name),
            |name: Seq<char>| InputView::empty(1),
        ),
    )
}

proof fn lemma_channel_set(channels: Seq<Seq<char>>, i: int)
    requires
        0 <= i < channels.len(),
    ensures
        forall|name: Seq<char>| #[trigger]
            channel_set(channels.take(i + 1)).contains(name) <==> channel_set(
                channels.take(i),
            ).contains(name) || name == channels[i],
{
    let sofar = channels.take(i);
    let next = channels.take(i + 1);
    assert forall|name: Seq<char>| #[trigger] next.contains(name) <==> sofar.contains(name) || name
        == channels[i] by {
        if name == channels[i] {
            assert(next[i] == name);
        }
        if sofar.contains(name) {
            let j = sofar.index_of(name);
            assert(next[j] == name);
        }
        if next.contains(name) && name != channels[i] {
            let j = next.index_of(name);
            assert(sofar[j] == name);
        }
    }
}

impl AppView {
    /// The channels of the server are shown, the first of them selected.
    pub open spec fn entered(
        self,
        channels: Seq<Seq<char>>,
        users: Seq<Seq<char>>,
        msgs: Map<Seq<char>, Seq<MsgView>>,
    ) -> AppView {
        AppView {
            screen: Screen::Connected,
            connect_state: ConnectState::Connected,
            selected_msg_idcs: none_selected(channels),
            selected_msg_ids: none_selected(channels),
            new_message_bufs: with_lines(self.new_message_bufs, channels),
            selected_channel: if channels.len() > 0 {
                Some(0)
            } else {
                self.selected_channel
            },
            current_server: ServerView {
                hostname: self.servers[self.selected_server as int],
                channels,
                msgs,
                connected_users: users,
            },
            ..self
        }
    }

    /// What comes of what the server says while the client logs in.
    pub open spec fn auth_step(self, said: AuthView) -> (AppView, Seq<EffectView>) {
        match said {
            AuthView::Nothing => (self, seq![]),
            AuthView::Refused(reason) => self.told(reason),
            AuthView::Broken => self.told("Server threw an error."@),
            AuthView::Session(session) => (
                AppView { session, screen: Screen::Login, ..self },
                seq![],
            ),
            AuthView::NoSession(reason) => self.told("Unable to get session.\n"@ + reason),
            AuthView::LoggedIn => {
                let text = "Logged in successfully. Fetching server data..."@;
                (
                    self.status(text),
                    seq![
                        EffectView::Status(text),
                        EffectView::Send(
                            request("data"@, session_members(self.session)),
                            Delivery::Data,
                        ),
                    ],
                )
            },
            AuthView::LoginFailed(reason) => {
                let text = "Login failed: "@ + reason;
                (self.message(text, Next::RetryLogin), seq![EffectView::Notice(text)])
            },
            AuthView::BadData(error) => AppView {
                connect_state: ConnectState::Connected,
                selected_msg_idcs: Map::empty(),
                selected_msg_ids: Map::empty(),
                ..self
            }.told("Failed to fetch server data ("@ + error + ")"@),
            AuthView::Data(channels, users, msgs) => (self.entered(channels, users, msgs), seq![]),
        }
    }

    /// The connection was closed by the server.
    pub open spec fn closed(self) -> (AppView, Seq<EffectView>) {
        let (after, effects) = self.disconnect().told("The websocket has closed."@);
        (after, self.closing() + effects)
    }

    /// What arrived while the client logs in can be made out. A text that is no JSON is passed
    /// over.
    pub open spec fn auth_ready(self, message: IncomingView) -> bool {
        match message {
            IncomingView::Text(text) => parsed_json(text) is Some ==> auth_said(
                parsed_json(text)->0,
            ) is Some,
            _ => true,
        }
    }

    /// What comes of what arrives while the client logs in.
    pub open spec fn auth_heard(self, message: IncomingView) -> (AppView, Seq<EffectView>) {
        match message {
            IncomingView::Text(text) => match parsed_json(text) {
                Some(json) => self.auth_step(auth_said(json)->0),
                None => (self, seq![]),
            },
            IncomingView::Close => self.closed(),
            IncomingView::Ping(bytes) => (self, seq![EffectView::Pong(bytes)]),
            IncomingView::ConnectionClosed(error) => self.told(
                "Failed to connect to server\n"@ + error,
            ),
            _ => (self, seq![]),
        }
    }
}

/// The compact text of a member: that of nothing where there is none.
fn member_text(json: &Json, name: &str) -> (r: String)
    ensures
        r@ == written_json(member_of(json@, name@)),
{
    match json.member(name) {
        Some(value) => json_text(value),
        None => json_text(&Json::Null),
    }
}

impl App {
    /// The message that a text stands for.
    pub fn parse_msg(&self, raw: &str) -> (r: Msg)
        requires
            readable(raw@),
        ensures
            r@ == msg_of_json(parsed_json(raw@)->0),
            forall|m: MsgView|
                #![trigger packed_members(m)]
                plain_msg(m) && raw@ == flat_text(packed_members(m)) ==> r@ == received(m),
    {
        parse_raw(raw).unwrap()
    }

    /// The messages that the texts stand for, where all can be read.
    fn read_list(&self, raws: &Vec<String>) -> (r: Option<Vec<Msg>>)
        ensures
            r is Some <==> all_readable(texts(raws@)),
            r is Some ==> msgs_view(r->0@) == read_all(texts(raws@)),
            reads_packed(texts(raws@)),
    {
        let ghost all = texts(raws@);
        let mut list: Vec<Msg> = Vec::new();
        let mut i: usize = 0;
        while i < raws.len()
            invariant
                i <= raws@.len(),
                list@.len() == i,
                all == texts(raws@),
                forall|j: int| 0 <= j < i ==> readable(#[trigger] all[j]),
                forall|j: int|
                    0 <= j < i ==> (#[trigger] list@[j])@ == msg_of_json(
                        parsed_json(raws@[j]@)->0,
                    ),
                forall|j: int, m: MsgView|
                    #![trigger all[j], packed_members(m)]
                    0 <= j < i && plain_msg(m) && all[j] == flat_text(packed_members(m))
                        ==> msg_of_json(parsed_json(all[j])->0) == received(m),
            decreases raws@.len() - i,
        {
            assert(all[i as int] == raws@[i as int]@);
            if parse_raw(raws[i].as_str()).is_none() {
                assert forall|packed: Seq<MsgView>|
                    #![trigger packed_list(packed)]
                    all_plain(packed) implies all != packed_list(packed) by {
                    if all == packed_list(packed) {
                        let m = packed[i as int];
                        assert(packed_list(packed).len() == packed.len());
                        assert(plain_msg(m));
                        assert(all[i as int] == flat_text(packed_members(m)));
                    }
                }
                return None;
            }
            list.push(self.parse_msg(raws[i].as_str()));
            i += 1;
        }
        assert(msgs_view(list@) =~= read_all(all));
        assert forall|packed: Seq<MsgView>|
            #![trigger packed_list(packed)]
            all_plain(packed) && all == packed_list(packed) implies read_all(all) == received_list(
            packed,
        ) by {
            assert forall|j: int| 0 <= j < all.len() implies read_all(all)[j] == received_list(
                packed,
            )[j] by {
                assert(all[j] == flat_text(packed_members(packed[j])));
            }
            assert(read_all(all) =~= received_list(packed));
        }
        Some(list)
    }

    /// The messages of each channel, where every channel has its list and every message can be read.
    pub fn read_lists(&self, channels: &Vec<String>, lists: &NameMap<Vec<String>>) -> (r: Option<
            NameMap<Vec<Msg>>,
        >)
        ensures
            r is Some <==> lists_complete(
                texts(channels@),
                lists@.map_values(|list: Vec<String>| texts(list@)),
            ),
            r is Some ==> msgs_map(r->0) == channel_msgs(
                texts(channels@),
                lists@.map_values(|list: Vec<String>| texts(list@)),
            ),
            forall|log: Map<Seq<char>, Seq<MsgView>>|
                #![trigger packed_log(log)]
                log_complete(texts(channels@), log) && lists@.map_values(
                    |list: Vec<String>| texts(list@),
                ) == packed_log(log) ==> r is Some && msgs_map(r->0) == log_received(
                    texts(channels@),
                    log,
                ),
    {
        let ghost names = texts(channels@);
        let ghost raws = lists@.map_values(|list: Vec<String>| texts(list@));
        let mut msgs: NameMap<Vec<Msg>> = NameMap::new();
        let mut i: usize = 0;
        assert(msgs_map(msgs) =~= channel_msgs(names.take(0), raws));
        while i < channels.len()
            invariant
                i <= channels@.len(),
                names == texts(channels@),
                raws == lists@.map_values(|list: Vec<String>| texts(list@)),
                lists_complete(names.take(i as int), raws),
                msgs_map(msgs) == channel_msgs(names.take(i as int), raws),
                forall|j: int| 0 <= j < i ==> reads_packed(raws[#[trigger] names[j]]),
            decreases channels@.len() - i,
        {
            let name = channels[i].as_str();
            assert(names[i as int] == name@);
            match lists.get(name) {
                Some(list) => match self.read_list(list) {
                    Some(read) => {
                        let ghost before = msgs;
                        msgs.insert(name, read);
                        proof {
                            lemma_msgs(before, msgs, name@, read);
                            let sofar = names.take(i as int);
                            let next = names.take(i + 1);
                            assert(next =~= sofar.push(name@));
                            assert forall|n: Seq<char>| #[trigger]
                                next.contains(n) <==> sofar.contains(n) || n == name@ by {
                                if n == name@ {
                                    assert(next[i as int] == n);
                                }
                                if sofar.contains(n) {
                                    let j = sofar.index_of(n);
                                    assert(next[j] == n);
                                }
                                if next.contains(n) && n != name@ {
                                    let j = next.index_of(n);
                                    assert(sofar[j] == n);
                                }
                            }
                            assert(msgs_map(msgs) =~= channel_msgs(next, raws));
                            assert(lists_complete(next, raws)) by {
                                assert forall|j: int| 0 <= j < next.len() implies raws.contains_key(
                                    #[trigger] next[j],
                                ) && all_readable(raws[next[j]]) by {
                                    if j < i {
                                        assert(sofar[j] == next[j]);
                                    }
                                }
                            }
                        }
                    },
                    None => {
                        proof {
                            assert(raws[name@] == texts(lists@[name@]@));
                            assert forall|log: Map<Seq<char>, Seq<MsgView>>|
                                #![trigger packed_log(log)]
                                log_complete(names, log) implies raws != packed_log(log) by {
                                if raws == packed_log(log) {
                                    assert(log.contains_key(names[i as int]));
                                    assert(raws[name@] == packed_list(log[name@]));
                                }
                            }
                        }
                        return None;
                    },
                },
                None => {
                    proof {
                        assert forall|log: Map<Seq<char>, Seq<MsgView>>|
                            #![trigger packed_log(log)]
                            log_complete(names, log) implies raws != packed_log(log) by {
                            if raws == packed_log(log) {
                                assert(log.contains_key(names[i as int]));
                                assert(raws.contains_key(name@));
                            }
                        }
                    }
                    return None;
                },
            }
            i += 1;
        }
        proof {
            assert(names.take(channels@.len() as int) =~= names);
            assert forall|log: Map<Seq<char>, Seq<MsgView>>|
                #![trigger packed_log(log)]
                log_complete(names, log) && raws == packed_log(log) implies msgs_map(msgs)
                == log_received(names, log) by {
                lemma_log_received(names, log);
            }
        }
        Some(msgs)
    }

    /// What the server's data says, where it can be made out.
    fn data_event(&self, json: &Json) -> (r: Option<AuthEvent>)
        ensures
            r is Some <==> data_said(
                json@,
                parsed_lists(written_json(member_of(json@, "msgs"@))),
            ) is Some,
            r is Some ==> Some(r->0@) == data_said(
                json@,
                parsed_lists(written_json(member_of(json@, "msgs"@))),
            ),
            serves_log(json@, r),
            is_texts(member_of(json@, "channels"@)) && is_texts(member_of(json@, "users"@))
                && !is_lists(member_of(json@, "msgs"@)) ==> r is Some && r->0@ is BadData,
    {
        proof {
            assert forall|c: Seq<Seq<char>>, u: Seq<Seq<char>>, log: Map<Seq<char>, Seq<MsgView>>|
                #![trigger served(c, u, log)]
                json@ == served(c, u, log) implies is_texts(member_of(json@, "channels"@))
                && texts_of(member_of(json@, "channels"@)) == c && is_texts(
                member_of(json@, "users"@),
            ) && texts_of(member_of(json@, "users"@)) == u && member_of(json@, "msgs"@)
                == JsonView::Dict(log_json(log)) && are_lists(log_json(log)) && lists_of(
                log_json(log),
            ) == packed_log(log) by {
                lemma_served(c, u, log);
            }
        }
        let channels = match json.member("channels") {
            Some(list) => list.string_list(),
            None => None,
        };
        let users = match json.member("users") {
            Some(list) => list.string_list(),
            None => None,
        };
        match (channels, users) {
            (Some(channels), Some(users)) => {
                assert(texts(channels@) =~= texts_of(member_of(json@, "channels"@)));
                assert(texts(users@) =~= texts_of(member_of(json@, "users"@)));
                match parse_lists(member_text(json, "msgs").as_str()) {
                    Err(error) => Some(AuthEvent::BadData(error)),
                    Ok(lists) => match self.read_lists(&channels, &lists) {
                        Some(msgs) => Some(AuthEvent::Data(channels, users, msgs)),
                        None => None,
                    },
                }
            },
            _ => None,
        }
    }

    /// What the server says while the client logs in, where it can be made out. The messages that
    /// a server has kept are the ones that were packed, with their times in milliseconds as their
    /// ids.
    pub fn auth_event(&self, json: &Json) -> (r: Option<AuthEvent>)
        ensures
            r is Some <==> auth_said(json@) is Some,
            r is Some ==> Some(r->0@) == auth_said(json@),
            serves_log(json@, r),
            lacks_log(json@) ==> r is Some && r->0@ is BadData,
    {
        proof {
            assert forall|c: Seq<Seq<char>>, u: Seq<Seq<char>>, log: Map<Seq<char>, Seq<MsgView>>|
                #![trigger served(c, u, log)]
                json@ == served(c, u, log) implies text_of(member_of(json@, "what"@)) == Some(
                "data"@,
            ) by {
                lemma_served(c, u, log);
            }
            reveal_strlit("connect");
            reveal_strlit("session");
            reveal_strlit("login");
            reveal_strlit("data");
            assert("data"@.len() == 4 && "connect"@.len() == 7 && "session"@.len() == 7
                && "login"@.len() == 5);
        }
        let what = match json.member("what") {
            Some(what) => match what.as_str() {
                Some(text) => text.as_str(),
                None => {
                    return None;
                },
            },
            None => {
                return None;
            },
        };
        let success: Option<bool> = match json.member("success") {
            Some(value) => value.as_bool(),
            None => None,
        };
        if same_text(what, "connect") {
            match success {
                Some(true) => Some(AuthEvent::Nothing),
                Some(false) => {
                    if let Some(reason) = json.member("reason") {
                        if let Some(text) = reason.as_str() {
                            return Some(AuthEvent::Refused(text.clone()));
                        }
                    }
                    Some(AuthEvent::Refused("Failed to connect to server.".to_owned()))
                },
                None => Some(AuthEvent::Broken),
            }
        } else if same_text(what, "session") {
            match success {
                Some(true) => match json.member("session") {
                    Some(session) => match session.as_str() {
                        Some(text) => Some(AuthEvent::Session(text.clone())),
                        None => None,
                    },
                    None => None,
                },
                Some(false) => Some(AuthEvent::NoSession(member_text(json, "reason"))),
                None => None,
            }
        } else if same_text(what, "login") {
            match success {
                Some(true) => Some(AuthEvent::LoggedIn),
                Some(false) => Some(AuthEvent::LoginFailed(member_text(json, "reason"))),
                None => None,
            }
        } else if same_text(what, "data") {
            self.data_event(json)
        } else {
            Some(AuthEvent::Nothing)
        }
    }

    /// Answers a ping.
    pub(crate) fn handle_ping(&self, bytes: Vec<u8>) -> (r: Vec<Effect>)
        requires
            self@.socket,
        ensures
            all_compact(r@),
            effects_view(r@) == seq![EffectView::Pong(bytes@)],
    {
        one_effect(Effect::Pong(bytes))
    }

    /// Shows the channels of the server.
    fn enter_server(&mut self, channels: Vec<String>, users: Vec<String>, msgs: NameMap<Vec<Msg>>)
        requires
            old(self)@.wf(),
            old(self)@.connect_state == ConnectState::LoggingIn,
            msgs_map(msgs).dom() == channel_set(texts(channels@)),
        ensures
            final(self)@ == old(self)@.entered(texts(channels@), texts(users@), msgs_map(msgs)),
            final(self)@.wf(),
    {
        self.screen = Screen::Connected;
        self.connect_state = ConnectState::Connected;
        let ghost names = texts(channels@);
        let ghost before = bufs_map(self.new_message_bufs);
        let mut idcs: NameMap<Option<usize>> = NameMap::new();
        let mut ids: NameMap<Option<u64>> = NameMap::new();
        let mut i: usize = 0;
        assert(idcs@ =~= none_selected::<usize>(names.take(0)));
        assert(ids@ =~= none_selected::<u64>(names.take(0)));
        assert(before =~= with_lines(before, names.take(0)));
        while i < channels.len()
            invariant
                i <= channels@.len(),
                names == texts(channels@),
                idcs@ == none_selected::<usize>(names.take(i as int)),
                ids@ == none_selected::<u64>(names.take(i as int)),
                bufs_map(self.new_message_bufs) == with_lines(before, names.take(i as int)),
                self@ == (AppView {
                    screen: Screen::Connected,
                    connect_state: ConnectState::Connected,
                    new_message_bufs: self@.new_message_bufs,
                    ..old(self)@
                }),
            decreases channels@.len() - i,
        {
            let name = channels[i].as_str();
            let line = InputBuffer::new(1);
            let ghost bufs = self.new_message_bufs;
            idcs.insert(name, None);
            ids.insert(name, None);
            self.new_message_bufs.insert(name, line);
            proof {
                lemma_bufs(bufs, self.new_message_bufs, name@, line);
                let next = names.take(i + 1);
                lemma_channel_set(names, i as int);
                assert(idcs@ =~= none_selected::<usize>(next));
                assert(ids@ =~= none_selected::<u64>(next));
                assert(bufs_map(self.new_message_bufs) =~= with_lines(before, next));
            }
            i += 1;
        }
        assert(names.take(channels@.len() as int) =~= names);
        self.selected_msg_idcs = idcs;
        self.selected_msg_ids = ids;
        if channels.len() > 0 {
            self.selected_channel = Some(0);
        }
        self.current_server =
        CurrentServer {
            hostname: self.servers[self.selected_server].hostname.clone(),
            channels,
            msgs,
            connected_users: users,
        };
        proof {
            assert forall|i: int| 0 <= i < names.len() implies channel_set(names).contains(
                #[trigger] names[i],
            ) by {}
        }
    }

    /// Goes on after what the server says while the client logs in.
    pub fn handle_auth_event(&mut self, said: AuthEvent) -> (r: Vec<Effect>)
        requires
            old(self)@.wf(),
            old(self)@.connect_state == ConnectState::LoggingIn,
            said matches AuthEvent::Data(channels, _, msgs) ==> msgs_map(msgs).dom() == channel_set(
                texts(channels@),
            ),
        ensures
            final(self)@ == old(self)@.auth_step(said@).0,
            all_compact(r@),
            effects_view(r@) == old(self)@.auth_step(said@).1,
            final(self)@.wf(),
    {
        match said {
            AuthEvent::Nothing => no_effects(),
            AuthEvent::Refused(reason) => self.message(reason.as_str(), Next::GoToSelection),
            AuthEvent::Broken => self.message("Server threw an error.", Next::GoToSelection),
            AuthEvent::Session(session) => {
                // The server does not take the client's key yet.
                let _ = key_members(&self.public);
                self.session = session;
                self.screen = Screen::Login;
                no_effects()
            },
            AuthEvent::NoSession(reason) => {
                let mut text = "Unable to get session.\n".to_owned();
                text.append(reason.as_str());
                self.message(text.as_str(), Next::GoToSelection)
            },
            AuthEvent::LoggedIn => {
                let data = self.session_template();
                assert(exact_members(session_members(self@.session)));
                let mut effects = self.status("Logged in successfully. Fetching server data...");
                let ghost first = effects@;
                let send = Effect::Send(payload("data", data), Delivery::Data);
                effects.push(send);
                assert(effects_view(effects@) =~= effects_view(first).push(send@));
                effects
            },
            AuthEvent::LoginFailed(reason) => {
                let mut text = "Login failed: ".to_owned();
                text.append(reason.as_str());
                self.message(text.as_str(), Next::RetryLogin)
            },
            AuthEvent::BadData(error) => {
                self.connect_state = ConnectState::Connected;
                self.selected_msg_idcs = NameMap::new();
                self.selected_msg_ids = NameMap::new();
                let mut text = "Failed to fetch server data (".to_owned();
                text.append(error.as_str());
                text.append(")");
                self.message(text.as_str(), Next::GoToSelection)
            },
            AuthEvent::Data(channels, users, msgs) => {
                self.enter_server(channels, users, msgs);
                no_effects()
            },
        }
    }

    /// Gives up a connection that the server has closed.
    pub(crate) fn handle_close(&mut self) -> (r: Vec<Effect>)
        requires
            old(self)@.wf(),
            old(self)@.connect_state != ConnectState::NotConnected,
        ensures
            final(self)@ == old(self)@.closed().0,
            all_compact(r@),
            effects_view(r@) == old(self)@.closed().1,
            final(self)@.wf(),
    {
        let mut effects = self.disconnect();
        let ghost first = effects@;
        let mut rest = self.message("The websocket has closed.", Next::GoToSelection);
        let ghost last = rest@;
        effects.append(&mut rest);
        assert(effects_view(effects@) =~= effects_view(first) + effects_view(last));
        effects
    }

    /// Whether what arrived while the client logs in can be made out.
    pub fn auth_ready(&self, message: &Incoming) -> (r: bool)
        ensures
            r == self@.auth_ready(message@),
            forall|channels: Seq<Seq<char>>, users: Seq<Seq<char>>, log: Map<Seq<char>, Seq<MsgView>>|
                #[trigger]
                is_served(message@, channels, users, log) ==> r,
            is_lacking(message@) ==> r,
    {
        match message {
            Incoming::Text(text) => match parse_json(text.as_str()) {
                Some(json) => self.auth_event(&json).is_some(),
                None => true,
            },
            _ => true,
        }
    }

    /// Goes on after what arrives while the client logs in.
    pub fn handle_auth_message(&mut self, message: Incoming) -> (r: Vec<Effect>)
        requires
            old(self)@.wf(),
            old(self)@.connect_state == ConnectState::LoggingIn,
            old(self)@.auth_ready(message@),
        ensures
            final(self)@ == old(self)@.auth_heard(message@).0,
            all_compact(r@),
            effects_view(r@) == old(self)@.auth_heard(message@).1,
            final(self)@.wf(),
            hears_log(old(self)@, message@, final(self)@),
            hears_lack(old(self)@, message@, final(self)@),
    {
        match message {
            Incoming::Text(text) => match parse_json(text.as_str()) {
                Some(json) => match self.auth_event(&json) {
                    Some(said) => self.handle_auth_event(said),
                    None => no_effects(),
                },
                None => no_effects(),
            },
            Incoming::Close => self.handle_close(),
            Incoming::Ping(bytes) => self.handle_ping(bytes),
            Incoming::ConnectionClosed(error) => {
                let mut text = "Failed to connect to server\n".to_owned();
                text.append(error.as_str());
                self.message(text.as_str(), Next::GoToSelection)
            },
            _ => no_effects(),
        }
    }
}

} // verus!
