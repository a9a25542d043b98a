//! The keys of the screens before a server's channels are shown.

use vstd::prelude::*;
use vstd::string::*;

use crate::effect::{all_compact, effects_view, no_effects, Delivery, Effect, EffectView};
use crate::input::{InputView, Key};
use crate::json::{
    bytes_json, exact_members, json_bytes, lemma_members_push, members_view, payload, Json,
    JsonView,
};
use crate::outside::{sha256, sha256_digest};
use crate::state::{
    request, session_members, App, AppView, ConnectState, FetcherInfo, Login, LoginField, LoginView,
    Next, Screen, Server,
};
use crate::wire::{message_view, Incoming, IncomingView};
use crate::words::{trim, trimmed};

verus! {

/// How many servers the list can be scrolled over.
pub const MOST_SERVERS: usize = 0x7fff_ffff;

/// The credentials, with the digest of the password in its place.
pub open spec fn login_members(
    session: Seq<char>,
    username: Seq<char>,
    digest: Seq<u8>,
) -> Map<Seq<char>, JsonView> {
    session_members(session).insert("username"@, JsonView::Text(username)).insert(
        "password"@,
        bytes_json(digest),
    )
}

impl AppView {
    /// Where the cursor is after it moves down.
    pub open spec fn row_below(self) -> usize {
        if self.on_server() {
            (self.selected_server + 1) as usize
        } else {
            self.selected_server
        }
    }

    /// Where the cursor is after it moves up.
    pub open spec fn row_above(self) -> usize {
        if self.selected_server > 0 {
            (self.selected_server - 1) as usize
        } else {
            self.selected_server
        }
    }

    /// The cursor on a row would be below the window.
    pub open spec fn below_window(self, row: usize) -> bool {
        (row as i32) - self.scroll_offset > self.server_selection_scroll_size - 3
    }

    /// The cursor on a row would be above the window.
    pub open spec fn above_window(self, row: usize) -> bool {
        (row as i32) - self.scroll_offset < 0
    }

    /// The cursor moves down, and the list with it where it would leave the window.
    pub open spec fn list_down(self) -> AppView {
        AppView {
            selected_server: self.row_below(),
            scroll_offset: if self.below_window(self.row_below()) {
                (self.scroll_offset + 1) as i32
            } else {
                self.scroll_offset
            },
            ..self
        }
    }

    /// The cursor moves up, and the list with it where it would leave the window.
    pub open spec fn list_up(self) -> AppView {
        AppView {
            selected_server: self.row_above(),
            scroll_offset: if self.above_window(self.row_above()) {
                (self.scroll_offset - 1) as i32
            } else {
                self.scroll_offset
            },
            ..self
        }
    }

    /// How far a row is from the first one in the window can be told.
    pub open spec fn in_reach(self, row: usize) -> bool {
        i32::MIN <= (row as i32) - self.scroll_offset <= i32::MAX
    }

    /// The list can be scrolled where a key asks for it.
    pub open spec fn list_ready(self, key: Key) -> bool {
        match key {
            Key::Down => self.in_reach(self.row_below()) && (self.below_window(self.row_below())
                ==> self.scroll_offset < i32::MAX),
            Key::Up => self.in_reach(self.row_above()) && (self.above_window(self.row_above())
                ==> self.scroll_offset > i32::MIN),
            _ => true,
        }
    }

    /// The server under the cursor is taken off the list.
    pub open spec fn remove_server(self) -> AppView {
        if self.on_server() {
            AppView { servers: self.servers.remove(self.selected_server as int), ..self }
        } else {
            self
        }
    }

    /// What a key does on the list of servers.
    pub open spec fn selection_key(self, key: Key) -> (AppView, Seq<EffectView>) {
        match key {
            Key::Down => (self.list_down(), seq![]),
            Key::Up => (self.list_up(), seq![]),
            Key::Enter => if self.on_server() {
                (self.status("Connecting..."@), self.connecting())
            } else {
                (self.new_server(false), seq![])
            },
            Key::Delete => (self.remove_server(), seq![]),
            Key::Esc => (AppView { exit: true, ..self }, seq![]),
            Key::Char(c) => if c == 'e' {
                if self.on_server() {
                    (self.new_server(true), seq![])
                } else {
                    (AppView { screen: Screen::New, ..self }, seq![])
                }
            } else if c == 'n' {
                (self.new_server(false), seq![])
            } else {
                (self, seq![])
            },
            _ => (self, seq![]),
        }
    }

    /// A key does something on the screen for a new or changed server.
    pub open spec fn new_ready(self, pings: Seq<Option<u128>>, key: Key) -> bool {
        &&& key == Key::Enter && self.editing_existing_index is Some
            ==> self.editing_existing_index->0 < self.servers.len()
            && self.editing_existing_index->0 <= pings.len()
        &&& self.editing_server.can_press(key)
    }

    /// The server that the line names is put on the list, in its place or at the end.
    pub open spec fn keep_server(self) -> AppView {
        let host = trimmed(self.editing_server.buf);
        AppView {
            editing_server: InputView { buf: host, ..self.editing_server },
            servers: match self.editing_existing_index {
                Some(i) => self.servers.update(i as int, host),
                None => self.servers.push(host),
            },
            screen: Screen::Selection,
            ..self
        }
    }

    /// How long the server takes to answer is not known any more.
    pub open spec fn forget_ping(self, pings: Seq<Option<u128>>) -> Seq<Option<u128>> {
        match self.editing_existing_index {
            Some(i) => if i < pings.len() {
                pings.update(i as int, None)
            } else {
                pings.push(None)
            },
            None => pings.push(None),
        }
    }

    /// What a key does on the screen for a new or changed server.
    pub open spec fn new_key(self, pings: Seq<Option<u128>>, key: Key) -> (
        AppView,
        Seq<Option<u128>>,
    ) {
        match key {
            Key::Esc => (AppView { screen: Screen::Selection, ..self }, pings),
            Key::Enter => (self.keep_server(), self.forget_ping(pings)),
            _ => (AppView { editing_server: self.editing_server.press(key), ..self }, pings),
        }
    }

    /// What a key does while something is happening.
    pub open spec fn status_key(self, key: Key) -> AppView {
        if key == Key::Esc {
            AppView { exit: true, ..self }
        } else {
            self
        }
    }

    /// What a key does after a notice.
    pub open spec fn message_key(self, key: Key) -> AppView {
        if key == Key::Esc {
            AppView { exit: true, ..self }
        } else if key == Key::Enter {
            let taken = AppView { next_fn: None, ..self };
            match self.next_fn {
                Some(Next::GoToSelection) => taken.go_to_selection(),
                Some(Next::RetryLogin) => taken.retry_login(),
                _ => taken,
            }
        } else {
            self
        }
    }

    /// What comes of a message that arrives together with a key on the login screen.
    pub open spec fn login_notified(self, message: Option<IncomingView>) -> (
        AppView,
        Seq<EffectView>,
    ) {
        match message {
            Some(IncomingView::Close) => {
                let told = self.told("The websocket has closed."@);
                (told.0.disconnect(), told.1 + self.closing())
            },
            Some(IncomingView::ConnectionClosed(_)) => self.told(
                "The websocket has kicked you out."@,
            ),
            _ => (self, seq![]),
        }
    }

    /// The line of the login screen that has the cursor.
    pub open spec fn login_line(self) -> InputView {
        match self.selected_login_field {
            LoginField::Username => self.login.username,
            LoginField::Password => self.login.password,
        }
    }

    pub open spec fn with_login_line(self, line: InputView) -> AppView {
        AppView {
            login: match self.selected_login_field {
                LoginField::Username => LoginView { username: line, ..self.login },
                LoginField::Password => LoginView { password: line, ..self.login },
            },
            ..self
        }
    }

    /// The credentials are sent.
    pub open spec fn log_in(self) -> (AppView, Seq<EffectView>) {
        (
            AppView { current_user: self.login.username.buf, ..self.status("Logging in..."@) },
            seq![
                EffectView::Status("Logging in..."@),
                EffectView::Send(
                    request(
                        "login"@,
                        login_members(
                            self.session,
                            self.login.username.buf,
                            sha256(self.login.password.buf),
                        ),
                    ),
                    Delivery::Ignored,
                ),
            ],
        )
    }

    /// What a key by itself does on the login screen.
    pub open spec fn login_step(self, key: Key) -> (AppView, Seq<EffectView>) {
        match key {
            Key::Enter => match self.selected_login_field {
                LoginField::Username => (
                    AppView { selected_login_field: LoginField::Password, ..self },
                    seq![],
                ),
                LoginField::Password => self.log_in(),
            },
            Key::Tab => (
                AppView {
                    selected_login_field: match self.selected_login_field {
                        LoginField::Username => LoginField::Password,
                        LoginField::Password => LoginField::Username,
                    },
                    ..self
                },
                seq![],
            ),
            Key::Esc => (self.go_to_selection(), seq![]),
            _ => (self.with_login_line(self.login_line().press(key)), seq![]),
        }
    }

    /// A key does something on the login screen.
    pub open spec fn login_ready(self, message: Option<IncomingView>, key: Key) -> bool {
        self.login_notified(message).0.login_line().can_press(key)
    }

    /// What a key does on the login screen, after a message that arrives together with it.
    pub open spec fn login_key(self, message: Option<IncomingView>, key: Key) -> (
        AppView,
        Seq<EffectView>,
    ) {
        let (told, notices) = self.login_notified(message);
        let (after, effects) = told.login_step(key);
        (after, notices + effects)
    }
}

/// A key on the list of servers leaves the client in order.
proof fn lemma_selection_key_wf(s: AppView, key: Key)
    requires
        s.wf(),
        s.screen == Screen::Selection,
        s.servers.len() <= MOST_SERVERS,
        s.list_ready(key),
    ensures
        s.selection_key(key).0.wf(),
{
}

impl App {
    /// Moves the cursor down, and the list with it where it would leave the window.
    fn list_down(&mut self)
        requires
            old(self)@.list_ready(Key::Down),
        ensures
            final(self)@ == old(self)@.list_down(),
    {
        if self.selected_server < self.servers.len() {
            self.selected_server += 1;
        }
        if self.selected_server as i32 - self.scroll_offset
            > self.server_selection_scroll_size as i32 - 3 {
            self.scroll_offset += 1;
        }
    }

    /// Moves the cursor up, and the list with it where it would leave the window.
    fn list_up(&mut self)
        requires
            old(self)@.list_ready(Key::Up),
        ensures
            final(self)@ == old(self)@.list_up(),
    {
        if self.selected_server > 0 {
            self.selected_server -= 1;
        }
        if (self.selected_server as i32 - self.scroll_offset) < 0 {
            self.scroll_offset -= 1;
        }
    }

    /// Takes the server under the cursor off the list.
    fn remove_server(&mut self)
        requires
            old(self)@.on_server(),
        ensures
            final(self)@ == old(self)@.remove_server(),
    {
        let _ = self.servers.remove(self.selected_server);
        assert(self@.servers =~= old(self)@.servers.remove(old(self)@.selected_server as int));
    }

    /// Takes a key on the list of servers.
    pub fn selection_keybinds(&mut self, key: Key) -> (r: Vec<Effect>)
        requires
            old(self)@.selected_server <= old(self)@.servers.len(),
            old(self)@.list_ready(key),
        ensures
            final(self)@ == old(self)@.selection_key(key).0,
            all_compact(r@),
            effects_view(r@) == old(self)@.selection_key(key).1,
            old(self)@.wf() && old(self)@.screen == Screen::Selection && old(self)@.servers.len()
                <= MOST_SERVERS ==> final(self)@.wf(),
    {
        proof {
            if self@.wf() && self@.screen == Screen::Selection && self@.servers.len()
                <= MOST_SERVERS {
                lemma_selection_key_wf(self@, key);
            }
        }
        let cursor_on_server = self.selected_server != self.servers.len();
        match key {
            Key::Down => self.list_down(),
            Key::Up => self.list_up(),
            Key::Enter => {
                if cursor_on_server {
                    return self.connect();
                }
                self.new_server(false);
            },
            Key::Char('e') => {
                if cursor_on_server {
                    self.new_server(true);
                }
                self.screen = Screen::New;
            },
            Key::Delete => {
                if cursor_on_server {
                    self.remove_server();
                }
            },
            Key::Char('n') => self.new_server(false),
            Key::Esc => {
                self.exit = true;
            },
            _ => {},
        }
        no_effects()
    }

    /// Whether the list can be scrolled where a key asks for it.
    pub fn list_ready(&self, key: Key) -> (r: bool)
        ensures
            r == self@.list_ready(key),
    {
        let down = match key {
            Key::Down => true,
            Key::Up => false,
            _ => {
                return true;
            },
        };
        let row: usize = if down {
            if self.selected_server < self.servers.len() {
                self.selected_server + 1
            } else {
                self.selected_server
            }
        } else {
            if self.selected_server > 0 {
                self.selected_server - 1
            } else {
                self.selected_server
            }
        };
        let far: i64 = (row as i32) as i64 - self.scroll_offset as i64;
        if far < i32::MIN as i64 || far > i32::MAX as i64 {
            return false;
        }
        if down {
            far <= self.server_selection_scroll_size as i64 - 3 || self.scroll_offset < i32::MAX
        } else {
            far >= 0 || self.scroll_offset > i32::MIN
        }
    }

    /// Whether a key can be taken on the screen for a new or changed server.
    pub fn new_ready(&self, info: &FetcherInfo, key: Key) -> (r: bool)
        ensures
            r == self@.new_ready(info.ping_times@, key),
    {
        if key == Key::Enter {
            if let Some(i) = self.editing_existing_index {
                if i >= self.servers.len() || i > info.ping_times.len() {
                    return false;
                }
            }
        }
        self.editing_server.can_press(key)
    }

    /// Takes a key on the screen for a new or changed server.
    pub fn new_keybinds(&mut self, info: &mut FetcherInfo, key: Key)
        requires
            old(self)@.editing_server.wf(),
            old(self)@.new_ready(old(info).ping_times@, key),
        ensures
            final(self)@ == old(self)@.new_key(old(info).ping_times@, key).0,
            final(info).ping_times@ == old(self)@.new_key(old(info).ping_times@, key).1,
            old(self)@.wf() && old(self)@.screen == Screen::New ==> final(self)@.wf(),
    {
        match key {
            Key::Esc => {
                self.screen = Screen::Selection;
            },
            Key::Enter => {
                let hostname = trim(self.editing_server.buf.as_str());
                self.editing_server.buf = hostname.clone();
                match self.editing_existing_index {
                    Some(i) => {
                        self.servers[i] = Server { hostname };
                        if info.ping_times.len() == i {
                            info.ping_times.push(None);
                        } else {
                            info.ping_times[i] = None;
                        }
                    },
                    None => {
                        self.servers.push(Server { hostname });
                        info.ping_times.push(None);
                    },
                }
                self.screen = Screen::Selection;
                assert(self@.servers =~= old(self)@.keep_server().servers);
            },
            _ => self.editing_server.press(key),
        }
    }

    /// Takes a key while something is happening.
    pub fn status_keybinds(&mut self, key: Key)
        ensures
            final(self)@ == old(self)@.status_key(key),
            old(self)@.wf() ==> final(self)@.wf(),
    {
        if key == Key::Esc {
            self.exit = true;
        }
    }

    /// Takes a key after a notice.
    pub fn message_keybinds(&mut self, key: Key)
        ensures
            final(self)@ == old(self)@.message_key(key),
            old(self)@.wf() && old(self)@.screen == Screen::Message ==> final(self)@.wf(),
    {
        if key == Key::Esc {
            self.exit = true;
        } else if key == Key::Enter {
            let next = self.next_fn.take();
            match next {
                Some(Next::GoToSelection) => self.go_to_selection(),
                Some(Next::RetryLogin) => self.retry_login(),
                _ => {},
            }
        }
    }

    /// Hears of a message that arrives together with a key on the login screen.
    fn hear_at_login(&mut self, message: &Option<Incoming>) -> (r: Vec<Effect>)
        requires
            old(self)@.wf(),
            old(self)@.screen == Screen::Login,
        ensures
            final(self)@ == old(self)@.login_notified(
                message_view(*message),
            ).0,
            all_compact(r@),
            effects_view(r@) == old(self)@.login_notified(
                message_view(*message),
            ).1,
            final(self)@.wf(),
            final(self)@.selected_login_field == LoginField::Password ==> final(self)@.connect_state
                == ConnectState::LoggingIn,
    {
        match message {
            Some(Incoming::Close) => {
                let mut effects = self.message("The websocket has closed.", Next::GoToSelection);
                let ghost first = effects@;
                let mut rest = self.disconnect();
                let ghost last = rest@;
                effects.append(&mut rest);
                assert(effects_view(effects@) =~= effects_view(first) + effects_view(last));
                effects
            },
            Some(Incoming::ConnectionClosed(_)) => self.message(
                "The websocket has kicked you out.",
                Next::GoToSelection,
            ),
            _ => no_effects(),
        }
    }

    /// The credentials, with the digest of the password in its place.
    pub fn login_data(&self, digest: &Vec<u8>) -> (r: Vec<(String, Json)>)
        ensures
            members_view(r@) == login_members(self@.session, self@.login.username.buf, digest@),
            exact_members(members_view(r@)),
    {
        let mut data = self.session_template();
        let username = ("username".to_owned(), Json::Text(self.login.username.buf.clone()));
        let password = ("password".to_owned(), json_bytes(digest));
        proof {
            lemma_members_push(data@, username.0, username.1);
            lemma_members_push(data@.push(username), password.0, password.1);
        }
        data.push(username);
        data.push(password);
        data
    }

    /// Sends the credentials.
    fn log_in(&mut self) -> (r: Vec<Effect>)
        requires
            old(self)@.wf(),
            old(self)@.connect_state == ConnectState::LoggingIn,
        ensures
            final(self)@ == old(self)@.log_in().0,
            all_compact(r@),
            effects_view(r@) == old(self)@.log_in().1,
            final(self)@.wf(),
    {
        let digest = sha256_digest(self.login.password.buf.as_str());
        let data = self.login_data(&digest);
        let mut effects = self.status("Logging in...");
        let ghost first = effects@;
        let send = Effect::Send(payload("login", data), Delivery::Ignored);
        effects.push(send);
        assert(effects_view(effects@) =~= effects_view(first).push(send@));
        self.current_user = self.login.username.buf.clone();
        effects
    }

    /// Whether a key can be taken on the login screen, with the message that arrives together
    /// with it.
    pub fn login_ready(&self, message: &Option<Incoming>, key: Key) -> (r: bool)
        ensures
            r == self@.login_ready(
                message_view(*message),
                key,
            ),
    {
        match message {
            Some(Incoming::Close) => {
                let fresh = Login::new();
                fresh.username.can_press(key)
            },
            _ => match self.selected_login_field {
                LoginField::Username => self.login.username.can_press(key),
                LoginField::Password => self.login.password.can_press(key),
            },
        }
    }

    /// Takes a key on the login screen, after the message that arrives together with it.
    pub fn login_keybinds(&mut self, message: Option<Incoming>, key: Key) -> (r: Vec<Effect>)
        requires
            old(self)@.wf(),
            old(self)@.screen == Screen::Login,
            old(self)@.login_ready(
                message_view(message),
                key,
            ),
        ensures
            final(self)@ == old(self)@.login_key(
                message_view(message),
                key,
            ).0,
            all_compact(r@),
            effects_view(r@) == old(self)@.login_key(
                message_view(message),
                key,
            ).1,
            final(self)@.wf(),
    {
        let mut effects = self.hear_at_login(&message);
        let ghost first = effects@;
        let mut rest: Vec<Effect> = no_effects();
        match key {
            Key::Enter => match self.selected_login_field {
                LoginField::Username => {
                    self.selected_login_field = LoginField::Password;
                },
                LoginField::Password => {
                    rest = self.log_in();
                },
            },
            Key::Tab => {
                self.selected_login_field = match self.selected_login_field {
                    LoginField::Username => LoginField::Password,
                    LoginField::Password => LoginField::Username,
                };
            },
            Key::Esc => self.go_to_selection(),
            _ => match self.selected_login_field {
                LoginField::Username => self.login.username.press(key),
                LoginField::Password => self.login.password.press(key),
            },
        }
        let ghost last = rest@;
        effects.append(&mut rest);
        assert(effects_view(effects@) =~= effects_view(first) + effects_view(last));
        effects
    }
}

} // verus!
