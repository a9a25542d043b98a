//! The state of the client.

use vstd::prelude::*;
use vstd::string::*;

use crate::effect::{
    all_compact, effects_view, no_effects, one_effect, two_effects, Delivery, Effect, EffectView,
};
use crate::input::{InputBuffer, InputView};
use crate::json::{
    exact_members, json_text, lemma_members_push, member_written, members_view, payload,
    written_json, Json, JsonView,
};
use crate::matrix::{all_wide, rows_view};
use crate::msg::{msgs_view, Msg, MsgView};
use crate::names::NameMap;
use crate::outside::random_byte;
use crate::text::{byte_len, texts};
use crate::words::{decimal, decimal_text};

verus! {

/// The port of every server.
pub const PORT: u16 = 2096;

/// A server that the user has listed.
#[derive(Clone, Debug)]
pub struct Server {
    pub hostname: String,
}

/// What the screen shows.
#[derive(Clone, Copy, Debug, PartialEq, Eq, Structural)]
pub enum Screen {
    Selection,
    Connected,
    New,
    Status,
    /// Like `Status`, until the user goes on.
    Message,
    Login,
}

#[derive(Clone, Copy, Debug, PartialEq, Eq, Structural)]
pub enum LoginField {
    Username,
    Password,
}

#[derive(Clone, Copy, Debug, PartialEq, Eq, Structural)]
pub enum ConnectedField {
    Typing,
    Channels,
}

#[derive(Clone, Copy, Debug, PartialEq, Eq, Structural)]
pub enum ConnectState {
    NotConnected,
    LoggingIn,
    Connected,
}

/// What happens when the user goes on after a notice.
#[derive(Clone, Copy, Debug, PartialEq, Eq, Structural)]
pub enum Next {
    Nop,
    GoToSelection,
    RetryLogin,
}

/// The lines of the login screen.
#[derive(Clone, Debug)]
pub struct Login {
    pub username: InputBuffer,
    pub password: InputBuffer,
}

/// The server that the client is connected to.
#[derive(Clone, Debug)]
pub struct CurrentServer {
    pub hostname: String,
    pub channels: Vec<String>,
    pub msgs: NameMap<Vec<Msg>>,
    pub connected_users: Vec<String>,
}

/// What is known of the servers from afar: how long they take to answer.
#[derive(Clone, Debug)]
pub struct FetcherInfo {
    pub ping_times: Vec<Option<u128>>,
}

/// What the search for the servers' answers needs to know.
#[derive(Clone, Debug)]
pub struct PartialAppState {
    pub servers: Vec<Server>,
    pub screen: Screen,
}

/// What is kept between two runs.
#[derive(Clone, Debug)]
pub struct Config {
    pub servers: Vec<String>,
    pub random_local_addr: bool,
    pub matrix_background: bool,
    pub ping_timeout: u64,
    pub trust_self_signed_certs: bool,
}

/// The client.
#[derive(Clone, Debug)]
pub struct App {
    pub screen: Screen,
    pub connect_state: ConnectState,
    pub servers: Vec<Server>,
    pub config: Config,
    pub chars_matrix: Vec<Vec<bool>>,
    pub selected_server: usize,
    pub server_selection_scroll_size: u16,
    pub scroll_offset: i32,
    /// The line of the screen for a new or changed server.
    pub editing_server: InputBuffer,
    pub editing_existing_index: Option<usize>,
    pub exit: bool,
    pub status_text: String,
    pub next_fn: Option<Next>,
    /// Whether the connection can be written to.
    pub socket: bool,
    /// Whether the connection is read from.
    pub reader: bool,
    pub selected_login_field: LoginField,
    pub login: Login,
    pub session: String,
    pub current_user: String,
    pub selected_connected_field: ConnectedField,
    pub replying_to: Option<u64>,
    pub current_server: CurrentServer,
    pub private: [u8; 32],
    pub public: [u8; 32],
    pub new_message_bufs: NameMap<InputBuffer>,
    pub sidebar: bool,
    pub selected_channel: Option<usize>,
    pub selected_msg_ids: NameMap<Option<u64>>,
    /// The places of the selected messages among the messages of their channels.
    pub selected_msg_idcs: NameMap<Option<usize>>,
}

#[verifier::ext_equal]
pub struct LoginView {
    pub username: InputView,
    pub password: InputView,
}

#[verifier::ext_equal]
pub struct ServerView {
    pub hostname: Seq<char>,
    pub channels: Seq<Seq<char>>,
    pub msgs: Map<Seq<char>, Seq<MsgView>>,
    pub connected_users: Seq<Seq<char>>,
}

#[verifier::ext_equal]
pub struct ConfigView {
    pub servers: Seq<Seq<char>>,
    pub random_local_addr: bool,
    pub matrix_background: bool,
    pub ping_timeout: u64,
    pub trust_self_signed_certs: bool,
}

/// What the state of the client says.
#[verifier::ext_equal]
pub struct AppView {
    pub screen: Screen,
    pub connect_state: ConnectState,
    pub servers: Seq<Seq<char>>,
    pub config: ConfigView,
    pub chars_matrix: Seq<Seq<bool>>,
    pub selected_server: usize,
    pub server_selection_scroll_size: u16,
    pub scroll_offset: i32,
    pub editing_server: InputView,
    pub editing_existing_index: Option<usize>,
    pub exit: bool,
    pub status_text: Seq<char>,
    pub next_fn: Option<Next>,
    pub socket: bool,
    pub reader: bool,
    pub selected_login_field: LoginField,
    pub login: LoginView,
    pub session: Seq<char>,
    pub current_user: Seq<char>,
    pub selected_connected_field: ConnectedField,
    pub replying_to: Option<u64>,
    pub current_server: ServerView,
    pub private: Seq<u8>,
    pub public: Seq<u8>,
    pub new_message_bufs: Map<Seq<char>, InputView>,
    pub sidebar: bool,
    pub selected_channel: Option<usize>,
    pub selected_msg_ids: Map<Seq<char>, Option<u64>>,
    pub selected_msg_idcs: Map<Seq<char>, Option<usize>>,
}

/// The names of servers.
pub open spec fn hosts(servers: Seq<Server>) -> Seq<Seq<char>> {
    servers.map_values(|s: Server| s.hostname@)
}

/// The messages of each channel.
pub open spec fn msgs_map(msgs: NameMap<Vec<Msg>>) -> Map<Seq<char>, Seq<MsgView>> {
    msgs@.map_values(|list: Vec<Msg>| msgs_view(list@))
}

/// The input line of each channel.
pub open spec fn bufs_map(bufs: NameMap<InputBuffer>) -> Map<Seq<char>, InputView> {
    bufs@.map_values(|b: InputBuffer| b@)
}

impl View for Login {
    type V = LoginView;

    open spec fn view(&self) -> LoginView {
        LoginView { username: self.username@, password: self.password@ }
    }
}

impl View for CurrentServer {
    type V = ServerView;

    open spec fn view(&self) -> ServerView {
        ServerView {
            hostname: self.hostname@,
            channels: texts(self.channels@),
            msgs: msgs_map(self.msgs),
            connected_users: texts(self.connected_users@),
        }
    }
}

impl View for Config {
    type V = ConfigView;

    open spec fn view(&self) -> ConfigView {
        ConfigView {
            servers: texts(self.servers@),
            random_local_addr: self.random_local_addr,
            matrix_background: self.matrix_background,
            ping_timeout: self.ping_timeout,
            trust_self_signed_certs: self.trust_self_signed_certs,
        }
    }
}

impl View for App {
    type V = AppView;

    open spec fn view(&self) -> AppView {
        AppView {
            screen: self.screen,
            connect_state: self.connect_state,
            servers: hosts(self.servers@),
            config: self.config@,
            chars_matrix: rows_view(self.chars_matrix@),
            selected_server: self.selected_server,
            server_selection_scroll_size: self.server_selection_scroll_size,
            scroll_offset: self.scroll_offset,
            editing_server: self.editing_server@,
            editing_existing_index: self.editing_existing_index,
            exit: self.exit,
            status_text: self.status_text@,
            next_fn: self.next_fn,
            socket: self.socket,
            reader: self.reader,
            selected_login_field: self.selected_login_field,
            login: self.login@,
            session: self.session@,
            current_user: self.current_user@,
            selected_connected_field: self.selected_connected_field,
            replying_to: self.replying_to,
            current_server: self.current_server@,
            private: self.private@,
            public: self.public@,
            new_message_bufs: bufs_map(self.new_message_bufs),
            sidebar: self.sidebar,
            selected_channel: self.selected_channel,
            selected_msg_ids: self.selected_msg_ids@,
            selected_msg_idcs: self.selected_msg_idcs@,
        }
    }
}

/// Every input line is in order.
pub open spec fn bufs_wf(bufs: Map<Seq<char>, InputView>) -> bool {
    forall|name: Seq<char>| #[trigger] bufs.contains_key(name) ==> bufs[name].wf()
}

impl AppView {
    /// A screen is shown only in its stage of the connection.
    pub open spec fn stage_wf(self) -> bool {
        &&& self.connect_state != ConnectState::NotConnected ==> self.socket && self.reader
            && self.on_server()
        &&& self.screen == Screen::Status ==> self.on_server()
        &&& self.screen == Screen::Selection ==> self.connect_state == ConnectState::NotConnected
        &&& self.screen == Screen::New ==> self.connect_state == ConnectState::NotConnected
        &&& self.screen == Screen::Login ==> self.connect_state == ConnectState::LoggingIn
        &&& self.screen == Screen::Connected ==> self.connect_state == ConnectState::Connected
        &&& self.screen == Screen::Message && self.next_fn == Some(Next::RetryLogin)
            ==> self.connect_state == ConnectState::LoggingIn
    }

    /// The cursor is on a server.
    pub open spec fn on_server(self) -> bool {
        self.selected_server < self.servers.len()
    }

    /// The cursor is on a server or on the row behind them.
    pub open spec fn list_wf(self) -> bool {
        &&& self.selected_server <= self.servers.len()
        &&& self.scroll_offset >= 0
    }

    /// The background is a rectangle.
    pub open spec fn matrix_wf(self) -> bool {
        &&& self.chars_matrix.len() > 0
        &&& all_wide(self.chars_matrix, self.chars_matrix[0].len() as int)
    }

    /// The id and the place of a selected message are those of one message.
    pub open spec fn selection_wf(self) -> bool {
        &&& self.selected_msg_ids.dom() == self.selected_msg_idcs.dom()
        &&& forall|name: Seq<char>| #[trigger]
            self.selected_msg_idcs.contains_key(name) ==> match self.selected_msg_idcs[name] {
                Some(i) => {
                    &&& self.current_server.msgs.contains_key(name)
                    &&& i < self.current_server.msgs[name].len()
                    &&& self.selected_msg_ids[name] == Some(
                        self.current_server.msgs[name][i as int].id,
                    )
                },
                None => self.selected_msg_ids[name] is None,
            }
    }

    /// Every channel has its messages, and where they are shown also its line and its selection.
    pub open spec fn channels_wf(self) -> bool {
        forall|i: int|
            0 <= i < self.current_server.channels.len() ==> {
                let name = #[trigger] self.current_server.channels[i];
                &&& self.current_server.msgs.contains_key(name)
                &&& self.screen == Screen::Connected ==> {
                    &&& self.new_message_bufs.contains_key(name)
                    &&& self.selected_msg_ids.contains_key(name)
                    &&& self.selected_msg_idcs.contains_key(name)
                }
            }
    }

    /// The input lines are in order.
    pub open spec fn lines_wf(self) -> bool {
        &&& self.editing_server.wf()
        &&& self.login.username.wf()
        &&& self.login.password.wf()
        &&& bufs_wf(self.new_message_bufs)
    }

    /// What holds of the client at every time.
    pub open spec fn wf(self) -> bool {
        &&& self.stage_wf()
        &&& self.list_wf()
        &&& self.matrix_wf()
        &&& self.selection_wf()
        &&& self.channels_wf()
        &&& self.lines_wf()
    }

    /// A channel is selected, and there is such a channel.
    pub open spec fn has_channel(self) -> bool {
        self.selected_channel is Some && self.selected_channel->0
            < self.current_server.channels.len()
    }

    /// The selected channel.
    pub open spec fn channel(self) -> Seq<char> {
        self.current_server.channels[self.selected_channel->0 as int]
    }

    pub open spec fn status(self, text: Seq<char>) -> AppView {
        AppView { status_text: text, screen: Screen::Status, ..self }
    }

    pub open spec fn message(self, text: Seq<char>, next: Next) -> AppView {
        AppView { status_text: text, screen: Screen::Message, next_fn: Some(next), ..self }
    }

    pub open spec fn go_to_selection(self) -> AppView {
        AppView {
            socket: false,
            selected_login_field: LoginField::Username,
            login: empty_login(),
            screen: Screen::Selection,
            connect_state: ConnectState::NotConnected,
            ..self
        }
    }

    pub open spec fn retry_login(self) -> AppView {
        AppView {
            selected_login_field: LoginField::Username,
            login: empty_login(),
            screen: Screen::Login,
            ..self
        }
    }

    /// The connection is given up.
    pub open spec fn disconnect(self) -> AppView {
        AppView { reader: false, ..self }.go_to_selection()
    }

    /// The reason that is given when the connection is closed: the first channel where none is
    /// selected, or nothing.
    pub open spec fn current_channel(self) -> Seq<char> {
        let i = match self.selected_channel {
            Some(i) => i,
            None => 0,
        };
        if i < self.current_server.channels.len() {
            self.current_server.channels[i as int]
        } else {
            seq![]
        }
    }

    /// What is done to give the connection up.
    pub open spec fn closing(self) -> Seq<EffectView> {
        seq![EffectView::Close(self.current_channel()), EffectView::AbortReader]
    }

    /// What is done to connect to the server under the cursor.
    pub open spec fn connecting(self) -> Seq<EffectView> {
        seq![
            EffectView::Status("Connecting..."@),
            EffectView::Connect(url_of(self.servers[self.selected_server as int])),
        ]
    }

    /// Once connected, the client asks for a session.
    pub open spec fn connect_finished(self, error: Option<Seq<char>>) -> (
        AppView,
        Seq<EffectView>,
    ) {
        match error {
            None => (
                AppView {
                    socket: true,
                    reader: true,
                    connect_state: ConnectState::LoggingIn,
                    ..self
                },
                seq![EffectView::Send(request("session"@, Map::empty()), Delivery::Required)],
            ),
            Some(e) => self.told("Failed to connect to server\n"@ + e),
        }
    }

    /// The user is told something, and goes back to the list of servers from there.
    pub open spec fn told(self, text: Seq<char>) -> (AppView, Seq<EffectView>) {
        (self.message(text, Next::GoToSelection), seq![EffectView::Notice(text)])
    }

    /// What comes of a text that could not be sent.
    pub open spec fn send_failed(self, what: Delivery, error: Seq<char>) -> (
        AppView,
        Seq<EffectView>,
    ) {
        match what {
            Delivery::Chat => self.told("Error sending message.\n"@ + error),
            Delivery::Data => self.told("Connection timed out"@),
            Delivery::Pong => self.told("Failed to reply with pong\n"@ + error),
            _ => (self, seq![]),
        }
    }

    pub open spec fn new_server(self, editing: bool) -> AppView {
        let (line, index) = if editing {
            let host = self.servers[self.selected_server as int];
            let end = byte_len(host) as usize;
            (
                InputView { buf: host, bufsize: 1, cursor_pos: end, scroll_offset: end },
                Some(self.selected_server),
            )
        } else {
            (InputView::empty(1), None)
        };
        AppView {
            editing_server: line,
            editing_existing_index: index,
            screen: Screen::New,
            ..self
        }
    }

    /// A message is added to the selected channel.
    pub open spec fn add_msg(self, msg: MsgView) -> AppView {
        if self.selected_channel is Some {
            let name = self.channel();
            AppView {
                current_server: ServerView {
                    msgs: self.current_server.msgs.insert(
                        name,
                        self.current_server.msgs[name].push(msg),
                    ),
                    ..self.current_server
                },
                ..self
            }
        } else {
            self
        }
    }
}

/// The two empty lines of the login screen.
pub open spec fn empty_login() -> LoginView {
    LoginView { username: InputView::empty(0), password: InputView::empty(0) }
}

/// The address of a server.
pub open spec fn url_of(hostname: Seq<char>) -> Seq<char> {
    "ws://"@ + hostname + ":"@ + decimal(PORT as nat)
}

/// What the client asks the server for.
pub open spec fn request(action: Seq<char>, members: Map<Seq<char>, JsonView>) -> Option<JsonView> {
    Some(JsonView::Dict(members.insert("action"@, JsonView::Text(action))))
}

/// The member that every request after the first carries.
pub open spec fn session_members(session: Seq<char>) -> Map<Seq<char>, JsonView> {
    map!["session"@ => JsonView::Text(session)]
}

impl Login {
    /// Two empty lines.
    pub fn new() -> (r: Login)
        ensures
            r@ == empty_login(),
    {
        Login { username: InputBuffer::new(0), password: InputBuffer::new(0) }
    }
}

/// The address of a server.
pub fn server_url(hostname: &str) -> (r: String)
    ensures
        r@ == url_of(hostname@),
{
    let mut url = "ws://".to_owned();
    url.append(hostname);
    url.append(":");
    url.append(decimal_text(PORT as u128).as_str());
    url
}

/// A change of one input line.
pub proof fn lemma_bufs(
    before: NameMap<InputBuffer>,
    after: NameMap<InputBuffer>,
    name: Seq<char>,
    buf: InputBuffer,
)
    requires
        after@ == before@.insert(name, buf),
    ensures
        bufs_map(after) == bufs_map(before).insert(name, buf@),
{
    assert(bufs_map(after) =~= bufs_map(before).insert(name, buf@));
}

/// A change of the messages of one channel.
pub proof fn lemma_msgs(
    before: NameMap<Vec<Msg>>,
    after: NameMap<Vec<Msg>>,
    name: Seq<char>,
    list: Vec<Msg>,
)
    requires
        after@ == before@.insert(name, list),
    ensures
        msgs_map(after) == msgs_map(before).insert(name, msgs_view(list@)),
{
    assert(msgs_map(after) =~= msgs_map(before).insert(name, msgs_view(list@)));
}

/// A message pushed to a list.
pub proof fn lemma_msgs_push(list: Seq<Msg>, msg: Msg)
    ensures
        msgs_view(list.push(msg)) == msgs_view(list).push(msg@),
{
    assert(msgs_view(list.push(msg)) =~= msgs_view(list).push(msg@));
}

impl App {
    /// Shows that something is happening.
    pub fn status(&mut self, status_text: &str) -> (r: Vec<Effect>)
        ensures
            final(self)@ == old(self)@.status(status_text@),
            all_compact(r@),
            effects_view(r@) == seq![EffectView::Status(status_text@)],
    {
        self.status_text = status_text.to_owned();
        self.screen = Screen::Status;
        one_effect(Effect::Status(status_text.to_owned()))
    }

    /// Shows what has happened, and what comes next when the user goes on.
    pub fn message(&mut self, status_text: &str, next: Next) -> (r: Vec<Effect>)
        ensures
            final(self)@ == old(self)@.message(status_text@, next),
            all_compact(r@),
            effects_view(r@) == seq![EffectView::Notice(status_text@)],
    {
        self.status_text = status_text.to_owned();
        self.screen = Screen::Message;
        self.next_fn = Some(next);
        one_effect(Effect::Notice(status_text.to_owned()))
    }

    /// Goes back to the list of servers, without a connection.
    pub fn go_to_selection(&mut self)
        ensures
            final(self)@ == old(self)@.go_to_selection(),
            old(self)@.wf() ==> final(self)@.wf(),
    {
        self.socket = false;
        self.selected_login_field = LoginField::Username;
        self.login = Login::new();
        self.screen = Screen::Selection;
        self.connect_state = ConnectState::NotConnected;
    }

    /// Asks for the name and the password again.
    pub fn retry_login(&mut self)
        ensures
            final(self)@ == old(self)@.retry_login(),
            old(self)@.wf() && old(self)@.connect_state == ConnectState::LoggingIn ==> final(self)@.wf(),
    {
        self.selected_login_field = LoginField::Username;
        self.login = Login::new();
        self.screen = Screen::Login;
    }

    /// Opens the screen for a new server, or for the one under the cursor.
    pub fn new_server(&mut self, editing: bool)
        requires
            editing ==> old(self)@.selected_server < old(self)@.servers.len(),
        ensures
            final(self)@ == old(self)@.new_server(editing),
            old(self)@.wf() && old(self)@.connect_state == ConnectState::NotConnected ==> final(self)@.wf(),
    {
        if editing {
            self.editing_server =
            InputBuffer::from(self.servers[self.selected_server].hostname.clone(), 1);
            self.editing_existing_index = Some(self.selected_server);
        } else {
            self.editing_server = InputBuffer::new(1);
            self.editing_existing_index = None;
        }
        self.screen = Screen::New;
    }

    /// Adds a message to the selected channel.
    pub fn add_msg_to_current_channel(&mut self, msg: Msg)
        requires
            old(self)@.selected_channel is Some ==> {
                &&& old(self)@.has_channel()
                &&& old(self)@.current_server.msgs.contains_key(old(self)@.channel())
            },
        ensures
            final(self)@ == old(self)@.add_msg(msg@),
            old(self)@.wf() ==> final(self)@.wf(),
    {
        if let Some(idx) = self.selected_channel {
            let name = self.current_server.channels[idx].clone();
            let ghost before = self.current_server.msgs;
            if let Some(list) = self.current_server.msgs.get_mut(name.as_str()) {
                proof {
                    lemma_msgs_push(list@, msg);
                }
                list.push(msg);
            }
            proof {
                lemma_msgs(before, self.current_server.msgs, name@, self.current_server.msgs@[name@]);
            }
        }
    }

    /// The selected channel, or the first one.
    pub fn get_current_channel(&self) -> (r: String)
        ensures
            r@ == self@.current_channel(),
    {
        let i: usize = match self.selected_channel {
            Some(i) => i,
            None => 0,
        };
        if i < self.current_server.channels.len() {
            self.current_server.channels[i].clone()
        } else {
            String::new()
        }
    }

    /// Gives the connection up.
    pub fn disconnect(&mut self) -> (r: Vec<Effect>)
        requires
            old(self)@.socket,
            old(self)@.reader,
        ensures
            final(self)@ == old(self)@.disconnect(),
            all_compact(r@),
            effects_view(r@) == old(self)@.closing(),
            old(self)@.wf() ==> final(self)@.wf(),
    {
        let reason = self.get_current_channel();
        self.reader = false;
        self.go_to_selection();
        two_effects(Effect::Close(reason), Effect::AbortReader)
    }

    /// The member that every request after the first carries.
    pub fn session_template(&self) -> (r: Vec<(String, Json)>)
        ensures
            members_view(r@) == session_members(self@.session),
    {
        let mut template: Vec<(String, Json)> = Vec::new();
        let name = "session".to_owned();
        let value = Json::Text(self.session.clone());
        proof {
            assert(members_view(template@) =~= Map::<Seq<char>, JsonView>::empty());
            lemma_members_push(template@, name, value);
        }
        template.push((name, value));
        assert(members_view(template@) =~= session_members(self@.session));
        template
    }

    /// Sends a JSON value to the server.
    pub fn send_json(&self, payload: &Json) -> (r: Vec<Effect>)
        requires
            self@.socket,
        ensures
            r@.len() == 1,
            r@[0] matches Effect::Send(text, Delivery::Required) && text@ == written_json(payload@),
            payload@ matches JsonView::Dict(members) ==> exact_members(members) ==> all_compact(r@)
                && effects_view(r@) == seq![EffectView::Send(Some(payload@), Delivery::Required)],
    {
        one_effect(Effect::Send(json_text(payload), Delivery::Required))
    }

    /// Whether keys go to the input line of a channel.
    pub fn is_typing(&self) -> (r: bool)
        ensures
            r == (self@.selected_connected_field == ConnectedField::Typing),
    {
        match self.selected_connected_field {
            ConnectedField::Typing => true,
            _ => false,
        }
    }

    /// Starts to connect to the server under the cursor.
    pub fn connect(&mut self) -> (r: Vec<Effect>)
        requires
            old(self)@.selected_server < old(self)@.servers.len(),
        ensures
            final(self)@ == old(self)@.status("Connecting..."@),
            all_compact(r@),
            effects_view(r@) == old(self)@.connecting(),
            old(self)@.wf() ==> final(self)@.wf(),
    {
        let url = server_url(self.servers[self.selected_server].hostname.as_str());
        let _ = self.status("Connecting...");
        two_effects(Effect::Status("Connecting...".to_owned()), Effect::Connect(url))
    }

    /// Goes on once it is known whether the server can be reached.
    pub fn connect_finished(&mut self, outcome: Result<(), String>) -> (r: Vec<Effect>)
        ensures
            final(self)@ == old(self)@.connect_finished(error_view(outcome)).0,
            effects_view(r@) == old(self)@.connect_finished(error_view(outcome)).1,
            outcome is Ok ==> r@.len() == 1 && (r@[0] matches Effect::Send(
                text,
                Delivery::Required,
            ) && text@ == seq!['{'] + member_written("action"@, JsonView::Text("session"@))
                + seq!['}']),
            old(self)@.wf() && old(self)@.screen == Screen::Status ==> final(self)@.wf(),
    {
        match outcome {
            Ok(_) => {
                self.socket = true;
                self.reader = true;
                self.connect_state = ConnectState::LoggingIn;
                let none: Vec<(String, Json)> = Vec::new();
                assert(members_view(none@) =~= Map::<Seq<char>, JsonView>::empty());
                assert(members_view(none@).remove("action"@) =~= Map::<Seq<char>, JsonView>::empty());
                one_effect(Effect::Send(payload("session", none), Delivery::Required))
            },
            Err(e) => {
                let mut text = "Failed to connect to server\n".to_owned();
                text.append(e.as_str());
                self.message(text.as_str(), Next::GoToSelection)
            },
        }
    }

    /// Goes on where a text could not be sent for the reason `error`.
    pub fn send_failed(&mut self, what: Delivery, error: &str) -> (r: Vec<Effect>)
        requires
            what != Delivery::Required,
        ensures
            final(self)@ == old(self)@.send_failed(what, error@).0,
            all_compact(r@),
            effects_view(r@) == old(self)@.send_failed(what, error@).1,
            old(self)@.wf() ==> final(self)@.wf(),
    {
        match what {
            Delivery::Chat => {
                let mut text = "Error sending message.\n".to_owned();
                text.append(error);
                self.message(text.as_str(), Next::GoToSelection)
            },
            Delivery::Data => self.message("Connection timed out", Next::GoToSelection),
            Delivery::Pong => {
                let mut text = "Failed to reply with pong\n".to_owned();
                text.append(error);
                self.message(text.as_str(), Next::GoToSelection)
            },
            _ => no_effects(),
        }
    }

    /// The local address to connect from: that of this machine, or a random one of the many
    /// addresses that mean this machine.
    pub fn get_socket(&self) -> (r: String)
        ensures
            !self@.config.random_local_addr ==> r@ == "127.0.0.1:0"@,
            self@.config.random_local_addr ==> exists|a: u8, b: u8, c: u8| r@ == #[trigger] local_addr(a, b, c),
    {
        if self.config.random_local_addr {
            let a = random_byte();
            let b = random_byte();
            let c = random_byte();
            address_of(a, b, c)
        } else {
            "127.0.0.1:0".to_owned()
        }
    }
}

/// Any port of one of the addresses that mean this machine.
pub open spec fn local_addr(a: u8, b: u8, c: u8) -> Seq<char> {
    "127."@ + decimal(a as nat) + "."@ + decimal(b as nat) + "."@ + decimal(c as nat) + ":0"@
}

/// Any port of one of the addresses that mean this machine.
pub fn address_of(a: u8, b: u8, c: u8) -> (r: String)
    ensures
        r@ == local_addr(a, b, c),
{
    let mut addr = "127.".to_owned();
    addr.append(decimal_text(a as u128).as_str());
    addr.append(".");
    addr.append(decimal_text(b as u128).as_str());
    addr.append(".");
    addr.append(decimal_text(c as u128).as_str());
    addr.append(":0");
    addr
}

/// What went wrong, if anything.
pub open spec fn error_view(outcome: Result<(), String>) -> Option<Seq<char>> {
    match outcome {
        Ok(_) => None,
        Err(e) => Some(e@),
    }
}

} // verus!
