//! The life of the client: how it starts, what moves it, and what it leaves behind.

use vstd::prelude::*;
use vstd::string::*;

use crate::auth::{hears_lack, hears_log, is_lacking, is_served};
use crate::effect::{all_compact, effects_view, no_effects, Effect, EffectView};
use crate::input::{InputBuffer, InputView, Key};
use crate::keys::generate_keys;
use crate::live::{hears_relayed, is_relayed};
use crate::matrix::{
    all_wide, flipped, has_rows, new_col, new_matrix, new_row, rows_after, rows_view,
};
use crate::menus::MOST_SERVERS;
use crate::msg::MsgView;
use crate::names::NameMap;
use crate::outside::x25519_public;
use crate::state::{
    bufs_map, empty_login, hosts, msgs_map, App, AppView, Config, ConfigView, ConnectState,
    ConnectedField, CurrentServer, FetcherInfo, Login, LoginField, Next, PartialAppState, Screen,
    Server, ServerView,
};
use crate::text::texts;
use crate::wire::{message_view, Incoming, IncomingView};

verus! {

/// What happens at the terminal.
#[derive(Clone, Copy, Debug, PartialEq, Eq, Structural)]
pub enum Event {
    Key(Key),
    /// The terminal has as many columns and rows now.
    Resize(u16, u16),
    /// Anything else.
    Other,
}

/// The larger of the two.
pub open spec fn larger(a: int, b: int) -> int {
    if a < b {
        b
    } else {
        a
    }
}

/// A row made wider by bits that are off.
pub open spec fn widened(row: Seq<bool>, width: int) -> Seq<bool> {
    row + Seq::new((width - row.len()) as nat, |i: int| false)
}

/// The background covers a terminal of `cols` columns and `rows` rows: what was there has grown
/// by bits that are off, and whatever rows come behind it are as wide.
pub open spec fn resized(
    before: Seq<Seq<bool>>,
    after: Seq<Seq<bool>>,
    cols: u16,
    rows: u16,
) -> bool {
    let width = larger(before[0].len() as int, (cols / 2) as int);
    &&& after.len() == larger(before.len() as int, rows as int)
    &&& all_wide(after, width)
    &&& forall|i: int| 0 <= i < before.len() ==> #[trigger] after[i] == widened(before[i], width)
}

/// The client as it starts.
pub open spec fn started(
    config: ConfigView,
    matrix: Seq<Seq<bool>>,
    private: Seq<u8>,
    public: Seq<u8>,
) -> AppView {
    AppView {
        screen: Screen::Selection,
        connect_state: ConnectState::NotConnected,
        servers: config.servers,
        config,
        chars_matrix: matrix,
        selected_server: 0,
        server_selection_scroll_size: 0,
        scroll_offset: 0,
        editing_server: InputView::empty(0),
        editing_existing_index: None,
        exit: false,
        status_text: seq![],
        next_fn: Some(Next::Nop),
        socket: false,
        reader: false,
        selected_login_field: LoginField::Username,
        login: empty_login(),
        session: seq![],
        current_user: seq![],
        selected_connected_field: ConnectedField::Channels,
        replying_to: None,
        current_server: ServerView {
            hostname: seq![],
            channels: seq![],
            msgs: Map::empty(),
            connected_users: seq![],
        },
        private,
        public,
        new_message_bufs: Map::empty(),
        sidebar: true,
        selected_channel: None,
        selected_msg_ids: Map::empty(),
        selected_msg_idcs: Map::empty(),
    }
}

impl AppView {
    /// What is left behind: the settings with the servers as they are listed now.
    pub open spec fn saved(self) -> ConfigView {
        ConfigView { servers: self.servers, ..self.config }
    }

    /// A key does something on the screen that is shown.
    pub open spec fn key_ready(
        self,
        key: Key,
        heard: Option<IncomingView>,
        pings: Seq<Option<u128>>,
    ) -> bool {
        match self.screen {
            Screen::Selection => self.list_ready(key) && self.servers.len() <= MOST_SERVERS,
            Screen::Connected => self.connected_ready(key),
            Screen::New => self.new_ready(pings, key),
            Screen::Status => true,
            Screen::Message => true,
            Screen::Login => self.login_ready(heard, key),
        }
    }

    /// What a key does: the client after it, what it asks for, and what it knows of the servers.
    pub open spec fn key_step(
        self,
        key: Key,
        heard: Option<IncomingView>,
        pings: Seq<Option<u128>>,
        now: u64,
    ) -> (AppView, Seq<EffectView>, Seq<Option<u128>>) {
        match self.screen {
            Screen::Selection => {
                let (after, effects) = self.selection_key(key);
                (after, effects, pings)
            },
            Screen::Connected => {
                let (after, effects) = self.connected_key(key, now);
                (after, effects, pings)
            },
            Screen::New => {
                let (after, known) = self.new_key(pings, key);
                (after, seq![], known)
            },
            Screen::Status => (self.status_key(key), seq![], pings),
            Screen::Message => (self.message_key(key), seq![], pings),
            Screen::Login => {
                let (after, effects) = self.login_key(heard, key);
                (after, effects, pings)
            },
        }
    }

    /// What arrived can be made out in the stage that the connection is in.
    pub open spec fn heard_ready(self, message: IncomingView) -> bool {
        match self.connect_state {
            ConnectState::Connected => self.live_ready(message),
            ConnectState::LoggingIn => self.auth_ready(message),
            ConnectState::NotConnected => true,
        }
    }

    /// What comes of what arrived. Without a connection nothing does.
    pub open spec fn heard(self, message: IncomingView, now: u64) -> (AppView, Seq<EffectView>) {
        match self.connect_state {
            ConnectState::Connected => self.live_heard(message, now),
            ConnectState::LoggingIn => self.auth_heard(message),
            ConnectState::NotConnected => (self, seq![]),
        }
    }
}

/// Makes the background cover a terminal of `cols` columns and `rows` rows.
pub fn resize(chars: &mut Vec<Vec<bool>>, cols: u16, rows: u16)
    requires
        old(chars)@.len() > 0,
        all_wide(rows_view(old(chars)@), old(chars)@[0]@.len() as int),
    ensures
        resized(rows_view(old(chars)@), rows_view(final(chars)@), cols, rows),
{
    let ghost before = rows_view(chars@);
    let ghost start = before[0].len() as int;
    let half = (cols / 2) as usize;
    assert forall|i: int| 0 <= i < before.len() implies #[trigger] before[i] == widened(
        before[i],
        start,
    ) by {
        assert(before[i] =~= widened(before[i], start));
    }
    while chars[0].len() < half
        invariant
            chars@.len() == before.len(),
            before.len() > 0,
            all_wide(before, start),
            before[0].len() == start,
            start <= chars@[0]@.len() <= larger(start, half as int),
            rows_view(chars@).len() == before.len(),
            forall|i: int|
                0 <= i < before.len() ==> #[trigger] rows_view(chars@)[i] == widened(
                    before[i],
                    chars@[0]@.len() as int,
                ),
        decreases half - chars@[0]@.len(),
    {
        let ghost mid = rows_view(chars@);
        let ghost width = chars@[0]@.len() as int;
        new_col(chars);
        proof {
            let now = rows_view(chars@);
            assert(now.len() == mid.len());
            assert forall|i: int| 0 <= i < before.len() implies #[trigger] now[i] == widened(
                before[i],
                width + 1,
            ) by {
                assert(now[i] == mid[i].push(false));
                assert(now[i] =~= widened(before[i], width + 1));
            }
            assert(now[0].len() == width + 1);
        }
    }
    let ghost width = larger(start, half as int);
    proof {
        assert(rows_view(chars@)[0] == widened(before[0], chars@[0]@.len() as int));
        assert forall|i: int| 0 <= i < rows_view(chars@).len() implies (#[trigger] rows_view(
            chars@,
        )[i]).len() == width by {}
    }
    while chars.len() < rows as usize
        invariant
            chars@.len() >= before.len(),
            chars@.len() <= larger(before.len() as int, rows as int),
            before.len() > 0,
            all_wide(rows_view(chars@), width),
            forall|i: int|
                0 <= i < before.len() ==> #[trigger] rows_view(chars@)[i] == widened(
                    before[i],
                    width,
                ),
        decreases rows - chars@.len(),
    {
        let ghost mid = rows_view(chars@);
        assert(has_rows(mid));
        new_row(chars, false);
        proof {
            let flips = choose|flips: Seq<bool>|
                flips.len() == mid[0].len() && rows_view(chars@) == #[trigger] rows_after(
                    mid,
                    flips,
                    false,
                );
            assert(rows_view(chars@) == mid.push(flipped(mid.last(), flips)));
            assert(rows_view(chars@).len() == chars@.len());
        }
    }
}

/// The servers to ask how long they take to answer: those that are listed, while they are shown.
pub open spec fn asked_hosts(screen: Screen, servers: Seq<Seq<char>>) -> Seq<Seq<char>> {
    if screen == Screen::Selection {
        servers
    } else {
        seq![]
    }
}

/// What is known of the servers after those that were asked have answered.
pub open spec fn known_pings(
    screen: Screen,
    known: Seq<Option<u128>>,
    answered: Seq<Option<u128>>,
) -> Seq<Option<u128>> {
    if screen == Screen::Selection {
        answered
    } else {
        known
    }
}

/// The servers to ask how long they take to answer: those that are listed, while they are shown.
pub fn hosts_to_ask(state: &PartialAppState) -> (r: Vec<String>)
    ensures
        texts(r@) == asked_hosts(state.screen, hosts(state.servers@)),
{
    let mut r: Vec<String> = Vec::new();
    assert(texts(r@) =~= seq![]);
    if state.screen == Screen::Selection {
        let mut i: usize = 0;
        while i < state.servers.len()
            invariant
                i <= state.servers@.len(),
                r@.len() == i,
                forall|j: int|
                    0 <= j < i ==> (#[trigger] r@[j])@ == state.servers@[j].hostname@,
            decreases state.servers@.len() - i,
        {
            r.push(state.servers[i].hostname.clone());
            i += 1;
        }
        assert(texts(r@) =~= hosts(state.servers@));
    }
    r
}

/// What is known of the servers after some of them have answered: the servers are only asked while
/// they are listed.
pub fn next_pings(
    screen: Screen,
    known: Vec<Option<u128>>,
    answered: Vec<Option<u128>>,
) -> (r: Vec<Option<u128>>)
    ensures
        r@ == known_pings(screen, known@, answered@),
{
    match screen {
        Screen::Selection => answered,
        _ => known,
    }
}

impl App {
    /// The client as it starts on a terminal of the given size, with what is known of the servers.
    /// The background and the keys are a matter of chance.
    pub fn new(config: Config, width: u16, height: u16) -> (r: (App, FetcherInfo))
        ensures
            r.0@ == started(config@, r.0@.chars_matrix, r.0@.private, r.0@.public),
            r.0@.chars_matrix.len() == larger(height as int, 1),
            all_wide(r.0@.chars_matrix, width as int),
            r.0@.public == x25519_public(r.0@.private),
            r.0@.wf(),
            r.1.ping_times@ == Seq::new(config.servers@.len(), |i: int| None::<u128>),
    {
        let chars_matrix = new_matrix(width, height);
        let mut servers: Vec<Server> = Vec::new();
        let mut ping_times: Vec<Option<u128>> = Vec::new();
        let mut i: usize = 0;
        while i < config.servers.len()
            invariant
                i <= config.servers@.len(),
                hosts(servers@) == texts(config.servers@).take(i as int),
                ping_times@ == Seq::new(i as nat, |i: int| None::<u128>),
            decreases config.servers@.len() - i,
        {
            let ghost before = hosts(servers@);
            servers.push(Server { hostname: config.servers[i].clone() });
            ping_times.push(None);
            proof {
                assert(hosts(servers@) =~= before.push(config.servers@[i as int]@));
                assert(texts(config.servers@).take(i + 1) =~= before.push(
                    config.servers@[i as int]@,
                ));
            }
            i += 1;
        }
        assert(texts(config.servers@).take(i as int) =~= texts(config.servers@));
        let (private, public) = generate_keys();
        let app = App {
            screen: Screen::Selection,
            connect_state: ConnectState::NotConnected,
            servers,
            config,
            chars_matrix,
            selected_server: 0,
            server_selection_scroll_size: 0,
            scroll_offset: 0,
            editing_server: InputBuffer::new(0),
            editing_existing_index: None,
            exit: false,
            status_text: String::new(),
            next_fn: Some(Next::Nop),
            socket: false,
            reader: false,
            selected_login_field: LoginField::Username,
            login: Login::new(),
            session: String::new(),
            current_user: String::new(),
            selected_connected_field: ConnectedField::Channels,
            replying_to: None,
            current_server: CurrentServer {
                hostname: String::new(),
                channels: Vec::new(),
                msgs: NameMap::new(),
                connected_users: Vec::new(),
            },
            private,
            public,
            new_message_bufs: NameMap::new(),
            sidebar: true,
            selected_channel: None,
            selected_msg_ids: NameMap::new(),
            selected_msg_idcs: NameMap::new(),
        };
        proof {
            assert(texts(app.current_server.channels@) =~= seq![]);
            assert(texts(app.current_server.connected_users@) =~= seq![]);
            assert(msgs_map(app.current_server.msgs) =~= Map::empty());
            assert(bufs_map(app.new_message_bufs) =~= Map::empty());
        }
        (app, FetcherInfo { ping_times })
    }

    /// What is left behind: the settings with the servers as they are listed now.
    pub fn save_state(&self) -> (r: Config)
        ensures
            r@ == self@.saved(),
    {
        let mut servers: Vec<String> = Vec::new();
        let mut i: usize = 0;
        while i < self.servers.len()
            invariant
                i <= self.servers@.len(),
                texts(servers@) == hosts(self.servers@).take(i as int),
            decreases self.servers@.len() - i,
        {
            let ghost before = texts(servers@);
            servers.push(self.servers[i].hostname.clone());
            proof {
                let host = self.servers@[i as int].hostname@;
                assert(texts(servers@) =~= before.push(host));
                assert(hosts(self.servers@).take(i + 1) =~= before.push(host));
            }
            i += 1;
        }
        assert(hosts(self.servers@).take(i as int) =~= hosts(self.servers@));
        Config {
            servers,
            random_local_addr: self.config.random_local_addr,
            matrix_background: self.config.matrix_background,
            ping_timeout: self.config.ping_timeout,
            trust_self_signed_certs: self.config.trust_self_signed_certs,
        }
    }

    /// What the search for the servers' answers needs to know.
    pub fn partial_state(&self) -> (r: PartialAppState)
        ensures
            r.screen == self@.screen,
            hosts(r.servers@) == self@.servers,
    {
        let mut servers: Vec<Server> = Vec::new();
        let mut i: usize = 0;
        while i < self.servers.len()
            invariant
                i <= self.servers@.len(),
                hosts(servers@) == hosts(self.servers@).take(i as int),
            decreases self.servers@.len() - i,
        {
            let ghost before = hosts(servers@);
            servers.push(Server { hostname: self.servers[i].hostname.clone() });
            proof {
                let host = self.servers@[i as int].hostname@;
                assert(hosts(servers@) =~= before.push(host));
                assert(hosts(self.servers@).take(i + 1) =~= before.push(host));
            }
            i += 1;
        }
        assert(hosts(self.servers@).take(i as int) =~= hosts(self.servers@));
        PartialAppState { servers, screen: self.screen }
    }

    /// Whether a key can be taken on the screen that is shown, with the message that arrives
    /// together with it.
    pub fn key_ready(&self, key: Key, heard: &Option<Incoming>, info: &FetcherInfo) -> (r: bool)
        requires
            self@.wf(),
        ensures
            r == self@.key_ready(key, message_view(*heard), info.ping_times@),
    {
        match self.screen {
            Screen::Selection => self.list_ready(key) && self.servers.len() <= MOST_SERVERS,
            Screen::Connected => self.connected_ready(key),
            Screen::New => self.new_ready(info, key),
            Screen::Status => true,
            Screen::Message => true,
            Screen::Login => self.login_ready(heard, key),
        }
    }

    /// Takes what happens at the terminal. A message that arrives together with a key is looked at
    /// on the login screen only.
    pub fn event_handler(
        &mut self,
        event: Event,
        heard: Option<Incoming>,
        info: &mut FetcherInfo,
        now: u64,
    ) -> (r: Vec<Effect>)
        requires
            old(self)@.wf(),
            event matches Event::Key(key) ==> old(self)@.key_ready(
                key,
                message_view(heard),
                old(info).ping_times@,
            ),
        ensures
            final(self)@.wf(),
            all_compact(r@),
            match event {
                Event::Key(key) => (final(self)@, effects_view(r@), final(info).ping_times@)
                    == old(self)@.key_step(key, message_view(heard), old(info).ping_times@, now),
                Event::Resize(cols, rows) => {
                    &&& final(self)@ == (AppView {
                        chars_matrix: final(self)@.chars_matrix,
                        ..old(self)@
                    })
                    &&& resized(old(self)@.chars_matrix, final(self)@.chars_matrix, cols, rows)
                    &&& effects_view(r@) == Seq::<EffectView>::empty()
                    &&& *final(info) == *old(info)
                },
                Event::Other => {
                    &&& final(self)@ == old(self)@
                    &&& effects_view(r@) == Seq::<EffectView>::empty()
                    &&& *final(info) == *old(info)
                },
            },
    {
        match event {
            Event::Key(key) => match self.screen {
                Screen::Selection => self.selection_keybinds(key),
                Screen::Connected => self.connected_keybinds(key, now),
                Screen::New => {
                    self.new_keybinds(info, key);
                    no_effects()
                },
                Screen::Status => {
                    self.status_keybinds(key);
                    no_effects()
                },
                Screen::Message => {
                    self.message_keybinds(key);
                    no_effects()
                },
                Screen::Login => self.login_keybinds(heard, key),
            },
            Event::Resize(cols, rows) => {
                resize(&mut self.chars_matrix, cols, rows);
                no_effects()
            },
            Event::Other => no_effects(),
        }
    }

    /// Takes what arrives over the connection, where it can be made out. What the server passes on
    /// of a message, and what it tells of its log, can be made out, and gives back what was packed.
    pub fn handle_message(&mut self, message: Incoming, now: u64) -> (r: Option<Vec<Effect>>)
        requires
            old(self)@.wf(),
        ensures
            final(self)@.wf(),
            r is Some <==> old(self)@.heard_ready(message@),
            r is Some ==> all_compact(r->0@),
            match r {
                Some(effects) => (final(self)@, effects_view(effects@)) == old(self)@.heard(
                    message@,
                    now,
                ),
                None => *final(self) == *old(self),
            },
            old(self)@.connect_state == ConnectState::Connected ==> {
                &&& hears_relayed(old(self)@, message@, final(self)@)
                &&& forall|channel: Seq<char>, m: MsgView| #[trigger]
                    is_relayed(message@, channel, m) ==> r is Some
            },
            old(self)@.connect_state == ConnectState::LoggingIn ==> {
                &&& hears_log(old(self)@, message@, final(self)@)
                &&& hears_lack(old(self)@, message@, final(self)@)
                &&& is_lacking(message@) ==> r is Some
                &&& forall|
                    channels: Seq<Seq<char>>,
                    users: Seq<Seq<char>>,
                    log: Map<Seq<char>, Seq<MsgView>>,
                | #[trigger]
                    is_served(message@, channels, users, log) ==> r is Some
            },
    {
        match self.connect_state {
            ConnectState::Connected => if self.live_ready(&message) {
                Some(self.handle_ws_message(message, now))
            } else {
                None
            },
            ConnectState::LoggingIn => if self.auth_ready(&message) {
                Some(self.handle_auth_message(message))
            } else {
                None
            },
            ConnectState::NotConnected => Some(no_effects()),
        }
    }
}

} // verus!
