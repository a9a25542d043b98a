//! What holds of the screens before the channels of a server are shown.

use vstd::prelude::*;
use vstd::string::*;

use crate::chat_laws::lemma_request_names;
use crate::effect::{Delivery, EffectView};
use crate::events::{asked_hosts, known_pings};
use crate::input::{InputView, Key};
use crate::json::{JsonView, NumberView};
use crate::outside::sha256;
use crate::state::{url_of, AppView, ConfigView, ConnectState, LoginField, LoginView, Next, Screen};
use crate::text::byte_len;
use crate::wire::IncomingView;
use crate::words::{decimal, trimmed};

verus! {

/// A line without any text, with the cursor at its start.
pub open spec fn is_empty_line(line: InputView) -> bool {
    &&& line.buf.len() == 0
    &&& line.cursor_pos == 0
    &&& line.scroll_offset == 0
}

/// The port of every server in digits.
pub proof fn lemma_port()
    ensures
        decimal(2096) == "2096"@,
{
    reveal_strlit("2096");
    reveal_with_fuel(decimal, 4);
    assert(2096nat / 10 == 209);
    assert(209nat / 10 == 20);
    assert(20nat / 10 == 2);
    assert(decimal(2096) =~= "2096"@);
}

/// The address of a server is its name between the scheme and the port.
pub proof fn law_address_of_a_server(host: Seq<char>)
    ensures
        url_of(host) == "ws://"@ + host + ":2096"@,
{
    lemma_port();
    reveal_strlit(":");
    reveal_strlit("2096");
    reveal_strlit(":2096");
    assert(url_of(host) =~= "ws://"@ + host + ":2096"@);
}

/// Enter with the cursor on a server connects to that server, and to no other one, and says so.
/// Nothing else changes.
pub proof fn law_enter_connects_to_the_server_under_the_cursor(
    s: AppView,
    heard: Option<IncomingView>,
    pings: Seq<Option<u128>>,
    now: u64,
)
    requires
        s.screen == Screen::Selection,
        s.selected_server < s.servers.len(),
    ensures
        s.key_step(Key::Enter, heard, pings, now) == (
            AppView { screen: Screen::Status, status_text: "Connecting..."@, ..s },
            seq![
                EffectView::Status("Connecting..."@),
                EffectView::Connect("ws://"@ + s.servers[s.selected_server as int] + ":2096"@),
            ],
            pings,
        ),
        s.connecting() == seq![
            EffectView::Status("Connecting..."@),
            EffectView::Connect("ws://"@ + s.servers[s.selected_server as int] + ":2096"@),
        ],
{
    law_address_of_a_server(s.servers[s.selected_server as int]);
}

/// An empty line for a new server is opened by Enter on the row behind the servers, and by `n`
/// anywhere. Nothing else changes.
pub proof fn law_new_server_starts_empty(
    s: AppView,
    key: Key,
    heard: Option<IncomingView>,
    pings: Seq<Option<u128>>,
    now: u64,
)
    requires
        s.screen == Screen::Selection,
        key == Key::Char('n') || key == Key::Enter && s.selected_server >= s.servers.len(),
    ensures
        ({
            let (after, effects, known) = s.key_step(key, heard, pings, now);
            &&& effects.len() == 0
            &&& known == pings
            &&& is_empty_line(after.editing_server)
            &&& after == (AppView {
                screen: Screen::New,
                editing_server: after.editing_server,
                editing_existing_index: None,
                ..s
            })
        }),
{
}

/// With `e` the name of the server under the cursor can be changed: the line holds it, with the
/// cursor behind it. Behind the servers the line comes up as it was left. Nothing else changes.
pub proof fn law_server_under_the_cursor_is_edited(
    s: AppView,
    heard: Option<IncomingView>,
    pings: Seq<Option<u128>>,
    now: u64,
)
    requires
        s.screen == Screen::Selection,
    ensures
        ({
            let (after, effects, known) = s.key_step(Key::Char('e'), heard, pings, now);
            &&& effects.len() == 0
            &&& known == pings
            &&& if s.selected_server < s.servers.len() {
                &&& after.editing_server.buf == s.servers[s.selected_server as int]
                &&& byte_len(s.servers[s.selected_server as int]) <= usize::MAX
                    ==> after.editing_server.cursor_pos == byte_len(
                    s.servers[s.selected_server as int],
                )
                &&& after.editing_server.scroll_offset == after.editing_server.cursor_pos
                &&& after == (AppView {
                    screen: Screen::New,
                    editing_server: after.editing_server,
                    editing_existing_index: Some(s.selected_server),
                    ..s
                })
            } else {
                after == (AppView { screen: Screen::New, ..s })
            }
        }),
{
}

/// Delete takes the server under the cursor off the list, and leaves the others in their order.
/// Behind the servers it does nothing. Nothing else changes.
pub proof fn law_delete_takes_the_server_under_the_cursor(
    s: AppView,
    heard: Option<IncomingView>,
    pings: Seq<Option<u128>>,
    now: u64,
)
    requires
        s.screen == Screen::Selection,
    ensures
        ({
            let (after, effects, known) = s.key_step(Key::Delete, heard, pings, now);
            let at = s.selected_server as int;
            &&& effects.len() == 0
            &&& known == pings
            &&& after == (AppView { servers: after.servers, ..s })
            &&& if at < s.servers.len() {
                &&& after.servers.len() == s.servers.len() - 1
                &&& after.servers.take(at) == s.servers.take(at)
                &&& after.servers.skip(at) == s.servers.skip(at + 1)
            } else {
                after.servers == s.servers
            }
        }),
{
    let at = s.selected_server as int;
    let after = s.key_step(Key::Delete, heard, pings, now).0;
    if at < s.servers.len() {
        assert(after.servers.take(at) =~= s.servers.take(at));
        assert(after.servers.skip(at) =~= s.servers.skip(at + 1));
    }
}

/// Down and Up move the cursor by one row, as far as there is one. The list is scrolled by one row at
/// most, and only where the cursor would leave the window. Nothing else changes.
pub proof fn law_cursor_moves_by_one_row(
    s: AppView,
    heard: Option<IncomingView>,
    pings: Seq<Option<u128>>,
    now: u64,
)
    requires
        s.screen == Screen::Selection,
        s.selected_server <= s.servers.len() <= 0x7fff_ffff,
        0 <= s.scroll_offset < 0x7fff_ffff,
    ensures
        ({
            let (down, d_effects, d_known) = s.key_step(Key::Down, heard, pings, now);
            let (up, u_effects, u_known) = s.key_step(Key::Up, heard, pings, now);
            let below = if s.selected_server < s.servers.len() {
                s.selected_server + 1
            } else {
                s.selected_server as int
            };
            let above = if s.selected_server > 0 {
                s.selected_server - 1
            } else {
                0
            };
            &&& d_effects.len() == 0 && u_effects.len() == 0 && d_known == pings && u_known == pings
            &&& down == (AppView {
                selected_server: below as usize,
                scroll_offset: down.scroll_offset,
                ..s
            })
            &&& up == (AppView {
                selected_server: above as usize,
                scroll_offset: up.scroll_offset,
                ..s
            })
            &&& down.scroll_offset == if below - s.scroll_offset
                <= s.server_selection_scroll_size - 3 {
                s.scroll_offset as int
            } else {
                s.scroll_offset + 1
            }
            &&& up.scroll_offset == if above >= s.scroll_offset {
                s.scroll_offset as int
            } else {
                s.scroll_offset - 1
            }
        }),
{
}

/// Escape on the list ends the client. No other key does anything there.
pub proof fn law_other_keys_on_the_list(
    s: AppView,
    key: Key,
    heard: Option<IncomingView>,
    pings: Seq<Option<u128>>,
    now: u64,
)
    requires
        s.screen == Screen::Selection,
        match key {
            Key::Char(c) => c != 'e' && c != 'n',
            Key::Left => true,
            Key::Right => true,
            Key::Tab => true,
            Key::Backspace => true,
            Key::PageUp => true,
            Key::PageDown => true,
            Key::Other => true,
            _ => false,
        },
    ensures
        s.key_step(key, heard, pings, now) == (s, Seq::<EffectView>::empty(), pings),
        s.key_step(Key::Esc, heard, pings, now) == (
            AppView { exit: true, ..s },
            Seq::<EffectView>::empty(),
            pings,
        ),
{
}

/// Enter puts what the line holds on the list, without the white space around it: in the place of
/// the server that is changed, or else behind all others. Every other server stays where it is. How
/// long it takes to answer is not known then. The list is shown.
pub proof fn law_entered_name_is_listed(
    s: AppView,
    heard: Option<IncomingView>,
    pings: Seq<Option<u128>>,
    now: u64,
)
    requires
        s.screen == Screen::New,
        s.editing_existing_index matches Some(i) ==> i < s.servers.len() && i <= pings.len(),
    ensures
        ({
            let (after, effects, known) = s.key_step(Key::Enter, heard, pings, now);
            let name = trimmed(s.editing_server.buf);
            &&& effects.len() == 0
            &&& after == (AppView {
                screen: Screen::Selection,
                servers: after.servers,
                editing_server: InputView { buf: name, ..s.editing_server },
                ..s
            })
            &&& match s.editing_existing_index {
                Some(at) => {
                    &&& after.servers.len() == s.servers.len()
                    &&& after.servers[at as int] == name
                    &&& forall|j: int|
                        0 <= j < s.servers.len() && j != at ==> #[trigger] after.servers[j]
                            == s.servers[j]
                    &&& known.len() == if at < pings.len() {
                        pings.len()
                    } else {
                        pings.len() + 1
                    }
                    &&& known[at as int] is None
                    &&& forall|j: int|
                        0 <= j < pings.len() && j != at ==> #[trigger] known[j] == pings[j]
                },
                None => {
                    &&& after.servers.len() == s.servers.len() + 1
                    &&& after.servers.last() == name
                    &&& after.servers.drop_last() == s.servers
                    &&& known.len() == pings.len() + 1
                    &&& known.last() is None
                    &&& known.drop_last() == pings
                },
            }
        }),
{
    let (after, effects, known) = s.key_step(Key::Enter, heard, pings, now);
    if s.editing_existing_index is None {
        assert(after.servers.drop_last() =~= s.servers);
        assert(known.drop_last() =~= pings);
    }
}

/// Escape leaves the list as it was. Every other key goes to the line, and nothing else changes.
pub proof fn law_name_is_typed_or_given_up(
    s: AppView,
    key: Key,
    heard: Option<IncomingView>,
    pings: Seq<Option<u128>>,
    now: u64,
)
    requires
        s.screen == Screen::New,
        key != Key::Enter,
    ensures
        s.key_step(key, heard, pings, now) == (
            if key == Key::Esc {
                AppView { screen: Screen::Selection, ..s }
            } else {
                AppView { editing_server: s.editing_server.press(key), ..s }
            },
            Seq::<EffectView>::empty(),
            pings,
        ),
{
}

/// While something is happening, Escape ends the client, and no other key does anything.
pub proof fn law_keys_while_waiting(
    s: AppView,
    key: Key,
    heard: Option<IncomingView>,
    pings: Seq<Option<u128>>,
    now: u64,
)
    requires
        s.screen == Screen::Status,
    ensures
        s.key_step(key, heard, pings, now) == (
            AppView { exit: s.exit || key == Key::Esc, ..s },
            Seq::<EffectView>::empty(),
            pings,
        ),
{
}

/// After a notice, Escape ends the client, and Enter goes on: to the list of servers without a
/// connection, to an empty login, or nowhere. No other key does anything.
pub proof fn law_keys_after_a_notice(
    s: AppView,
    key: Key,
    heard: Option<IncomingView>,
    pings: Seq<Option<u128>>,
    now: u64,
)
    requires
        s.screen == Screen::Message,
    ensures
        ({
            let (after, effects, known) = s.key_step(key, heard, pings, now);
            &&& effects.len() == 0
            &&& known == pings
            &&& key == Key::Esc ==> after == (AppView { exit: true, ..s })
            &&& key != Key::Esc && key != Key::Enter ==> after == s
            &&& key == Key::Enter ==> after.next_fn is None
            &&& key == Key::Enter ==> match s.next_fn {
                Some(Next::GoToSelection) => {
                    &&& is_empty_line(after.login.username)
                    &&& is_empty_line(after.login.password)
                    &&& after == (AppView {
                        screen: Screen::Selection,
                        connect_state: ConnectState::NotConnected,
                        socket: false,
                        selected_login_field: LoginField::Username,
                        login: after.login,
                        next_fn: None,
                        ..s
                    })
                },
                Some(Next::RetryLogin) => {
                    &&& is_empty_line(after.login.username)
                    &&& is_empty_line(after.login.password)
                    &&& after == (AppView {
                        screen: Screen::Login,
                        selected_login_field: LoginField::Username,
                        login: after.login,
                        next_fn: None,
                        ..s
                    })
                },
                _ => after == (AppView { next_fn: None, ..s }),
            }
        }),
{
}

/// Keys on the login screen that edit go to the line with the cursor, and leave the other one as it
/// is. Tab goes to the other line, and so does Enter from the name to the password.
pub proof fn law_login_lines_are_typed(
    s: AppView,
    key: Key,
    pings: Seq<Option<u128>>,
    now: u64,
)
    requires
        s.screen == Screen::Login,
        key != Key::Esc,
        key == Key::Enter ==> s.selected_login_field == LoginField::Username,
    ensures
        ({
            let at_name = s.selected_login_field == LoginField::Username;
            let (after, effects, known) = s.key_step(key, None, pings, now);
            &&& effects.len() == 0
            &&& known == pings
            &&& if key == Key::Tab || key == Key::Enter {
                after == (AppView {
                    selected_login_field: if at_name {
                        LoginField::Password
                    } else {
                        LoginField::Username
                    },
                    ..s
                })
            } else if at_name {
                after == (AppView {
                    login: LoginView {
                        username: s.login.username.press(key),
                        password: s.login.password,
                    },
                    ..s
                })
            } else {
                after == (AppView {
                    login: LoginView {
                        username: s.login.username,
                        password: s.login.password.press(key),
                    },
                    ..s
                })
            }
        }),
{
}

/// The bytes as a list of numbers.
pub open spec fn number_list(bytes: Seq<u8>) -> JsonView {
    JsonView::List(
        Seq::new(bytes.len(), |i: int| JsonView::Number(NumberView::PosInt(bytes[i] as u64))),
    )
}

/// Enter on the password sends one request: a login in this session with the name that was typed and
/// the digest of the password that was typed. The client goes by that name then, and says that it
/// logs in. Nothing else changes.
pub proof fn law_login_sends_what_was_typed(s: AppView, pings: Seq<Option<u128>>, now: u64)
    requires
        s.screen == Screen::Login,
        s.selected_login_field == LoginField::Password,
    ensures
        s.key_step(Key::Enter, None, pings, now) == (
            AppView {
                screen: Screen::Status,
                status_text: "Logging in..."@,
                current_user: s.login.username.buf,
                ..s
            },
            seq![
                EffectView::Status("Logging in..."@),
                EffectView::Send(
                    Some(
                        JsonView::Dict(
                            map![
                                "action"@ => JsonView::Text("login"@),
                                "session"@ => JsonView::Text(s.session),
                                "username"@ => JsonView::Text(s.login.username.buf),
                                "password"@ => number_list(sha256(s.login.password.buf)),
                            ],
                        ),
                    ),
                    Delivery::Ignored,
                ),
            ],
            pings,
        ),
{
    lemma_request_names();
    let effects = s.key_step(Key::Enter, None, pings, now).1;
    let bytes = sha256(s.login.password.buf);
    assert(crate::json::bytes_json(bytes)->List_0 =~= number_list(bytes)->List_0);
    assert(effects[1]->Send_0->0->Dict_0 =~= map![
        "action"@ => JsonView::Text("login"@),
        "session"@ => JsonView::Text(s.session),
        "username"@ => JsonView::Text(s.login.username.buf),
        "password"@ => number_list(sha256(s.login.password.buf)),
    ]);
    assert(effects =~= seq![effects[0], effects[1]]);
}

/// Escape on the login screen goes back to the list of servers without a connection, and forgets
/// what was typed.
pub proof fn law_login_is_given_up(s: AppView, pings: Seq<Option<u128>>, now: u64)
    requires
        s.screen == Screen::Login,
    ensures
        ({
            let (after, effects, known) = s.key_step(Key::Esc, None, pings, now);
            &&& effects.len() == 0
            &&& known == pings
            &&& is_empty_line(after.login.username)
            &&& is_empty_line(after.login.password)
            &&& after == (AppView {
                screen: Screen::Selection,
                connect_state: ConnectState::NotConnected,
                socket: false,
                selected_login_field: LoginField::Username,
                login: after.login,
                ..s
            })
        }),
{
}

/// Once there is a connection, the client asks for a session, and for nothing else, and starts to log
/// in. Without one the user is told why.
pub proof fn law_connection_starts_with_a_session(s: AppView, error: Seq<char>)
    ensures
        s.connect_finished(None) == (
            AppView { socket: true, reader: true, connect_state: ConnectState::LoggingIn, ..s },
            seq![
                EffectView::Send(
                    Some(JsonView::Dict(map!["action"@ => JsonView::Text("session"@)])),
                    Delivery::Required,
                ),
            ],
        ),
        s.connect_finished(Some(error)) == (
            AppView {
                screen: Screen::Message,
                status_text: "Failed to connect to server\n"@ + error,
                next_fn: Some(Next::GoToSelection),
                ..s
            },
            seq![EffectView::Notice("Failed to connect to server\n"@ + error)],
        ),
{
    let effects = s.connect_finished(None).1;
    assert(effects[0]->Send_0->0->Dict_0 =~= map!["action"@ => JsonView::Text("session"@)]);
    assert(effects =~= seq![effects[0]]);
}

/// The user is told of a message, a call for data or an answer to a ping that could not be sent, each
/// in its words, and goes back to the list of servers from there. Of other texts nothing is said.
pub proof fn law_user_is_told_what_was_not_sent(s: AppView, error: Seq<char>)
    ensures
        forall|what: Delivery|
            ({
                let text = match what {
                    Delivery::Chat => Some("Error sending message.\n"@ + error),
                    Delivery::Data => Some("Connection timed out"@),
                    Delivery::Pong => Some("Failed to reply with pong\n"@ + error),
                    _ => None,
                };
                #[trigger] s.send_failed(what, error) == match text {
                    Some(text) => (
                        AppView {
                            screen: Screen::Message,
                            status_text: text,
                            next_fn: Some(Next::GoToSelection),
                            ..s
                        },
                        seq![EffectView::Notice(text)],
                    ),
                    None => (s, Seq::<EffectView>::empty()),
                }
            }),
{
}

/// While the servers are listed, every one of them is asked, in the order of the list, and what it
/// answers is what is known of it. On every other screen none is asked, and what was known stays.
pub proof fn law_listed_servers_are_asked(
    screen: Screen,
    servers: Seq<Seq<char>>,
    known: Seq<Option<u128>>,
    answered: Seq<Option<u128>>,
)
    ensures
        screen == Screen::Selection ==> asked_hosts(screen, servers) == servers && known_pings(
            screen,
            known,
            answered,
        ) == answered,
        screen != Screen::Selection ==> asked_hosts(screen, servers).len() == 0 && known_pings(
            screen,
            known,
            answered,
        ) == known,
{
}

/// What the client leaves behind is the servers as they are listed and every setting as it was.
pub proof fn law_settings_are_kept(s: AppView)
    ensures
        s.saved() == (ConfigView {
            servers: s.servers,
            random_local_addr: s.config.random_local_addr,
            matrix_background: s.config.matrix_background,
            ping_timeout: s.config.ping_timeout,
            trust_self_signed_certs: s.config.trust_self_signed_certs,
        }),
{
}

} // verus!
