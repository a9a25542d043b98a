use volt_client::commands::handle;
use volt_client::effect::{Delivery, Effect};
use volt_client::events::{hosts_to_ask, next_pings, Event};
use volt_client::input::{InputBuffer, Key};
use volt_client::json::{json_text, parse_json, Json};
use volt_client::msg::{pack_msg, Msg, MsgType};
use volt_client::state::{
    address_of, server_url, App, Config, ConnectState, ConnectedField, FetcherInfo, LoginField,
    Next, Screen,
};
use volt_client::wire::Incoming;

fn config(servers: &[&str]) -> Config {
    Config {
        servers: servers.iter().map(|s| s.to_string()).collect(),
        random_local_addr: false,
        matrix_background: false,
        ping_timeout: 500,
        trust_self_signed_certs: true,
    }
}

fn start(servers: &[&str]) -> (App, FetcherInfo) {
    App::new(config(servers), 80, 24)
}

fn press(app: &mut App, info: &mut FetcherInfo, key: Key) -> Vec<Effect> {
    assert!(app.key_ready(key, &None, info));
    app.event_handler(Event::Key(key), None, info, 1700000000123)
}

fn hear(app: &mut App, text: &str) -> Vec<Effect> {
    app.handle_message(Incoming::Text(text.to_string()), 1700000000123).unwrap()
}

fn packed(text: &str, user: &str, time: u64, kind: MsgType, reply: Option<u64>) -> String {
    pack_msg(&Msg {
        msg: text.to_string(),
        id: 0,
        user: user.to_string(),
        time,
        replying_to: reply,
        _type: kind,
    })
}

fn new_msg(channel: &str, raw: String) -> String {
    json_text(&Json::Dict(vec![
        ("what".to_string(), Json::Text("new_msg".to_string())),
        ("channel".to_string(), Json::Text(channel.to_string())),
        ("msg".to_string(), Json::Text(raw)),
    ]))
}

fn data(channels: &[(&str, Vec<String>)], users: &[&str]) -> String {
    let text = |s: &str| Json::Text(s.to_string());
    json_text(&Json::Dict(vec![
        ("what".to_string(), text("data")),
        ("channels".to_string(), Json::List(channels.iter().map(|(c, _)| text(c)).collect())),
        ("users".to_string(), Json::List(users.iter().map(|u| text(u)).collect())),
        (
            "msgs".to_string(),
            Json::Dict(
                channels
                    .iter()
                    .map(|(c, raws)| {
                        (c.to_string(), Json::List(raws.iter().map(|r| text(r)).collect()))
                    })
                    .collect(),
            ),
        ),
    ]))
}

fn connected() -> (App, FetcherInfo) {
    let (mut app, mut info) = start(&["one", "two"]);
    press(&mut app, &mut info, Key::Enter);
    app.connect_finished(Ok(()));
    hear(&mut app, "{\"what\": \"session\", \"success\": true, \"session\": \"s1\"}");
    let log = vec![
        packed("first", "ann", 1000, MsgType::Text, None),
        packed("second", "bob", 2000, MsgType::Text, Some(1000)),
        packed("third", "ann", 3000, MsgType::Text, None),
    ];
    hear(&mut app, &data(&[("general", log), ("empty", vec![])], &["ann", "bob"]));
    (app, info)
}

fn sent(effect: &Effect, delivery: Delivery) -> Json {
    match effect {
        Effect::Send(text, d) => {
            assert_eq!(*d, delivery);
            parse_json(text.as_str()).unwrap()
        }
        _ => panic!("nothing is sent"),
    }
}

fn field(json: &Json, name: &str) -> String {
    json.member(name).unwrap().as_str().unwrap().clone()
}

fn hosts(app: &App) -> Vec<String> {
    app.servers.iter().map(|s| s.hostname.clone()).collect()
}

#[test]
fn the_client_starts_on_the_list() {
    let (app, info) = start(&["one", "two"]);
    assert_eq!(app.screen, Screen::Selection);
    assert_eq!(app.connect_state, ConnectState::NotConnected);
    assert_eq!(hosts(&app), vec!["one", "two"]);
    assert_eq!(info.ping_times, vec![None, None]);
    assert_eq!(app.chars_matrix.len(), 24);
    assert_eq!(app.chars_matrix[23].len(), 80);
    assert!(app.sidebar && !app.exit && !app.socket);
    assert_eq!(app.next_fn, Some(Next::Nop));
}

#[test]
fn settings_are_left_behind_with_the_servers() {
    let (mut app, mut info) = start(&["one", "two"]);
    press(&mut app, &mut info, Key::Delete);
    let saved = app.save_state();
    assert_eq!(saved.servers, vec!["two"]);
    assert_eq!(saved.ping_timeout, 500);
    assert!(saved.trust_self_signed_certs && !saved.matrix_background && !saved.random_local_addr);
    assert_eq!(hosts(&App::new(saved, 1, 1).0), vec!["two"]);
    let partial = app.partial_state();
    assert_eq!(partial.screen, Screen::Selection);
    assert_eq!(partial.servers.len(), 1);
    assert_eq!(partial.servers[0].hostname, "two");
}

#[test]
fn addresses_are_put_together() {
    assert_eq!(server_url("example.org"), "ws://example.org:2096");
    assert_eq!(address_of(1, 20, 255), "127.1.20.255:0");
    let (mut app, _) = start(&[]);
    assert_eq!(app.get_socket(), "127.0.0.1:0");
    app.config.random_local_addr = true;
    let texts: Vec<String> = (0..8).map(|_| app.get_socket()).collect();
    for text in &texts {
        assert!(text.starts_with("127.") && text.ends_with(":0"));
        assert_eq!(text.matches('.').count(), 3);
    }
    assert!(texts.iter().any(|t| t != &texts[0]));
}

#[test]
fn the_cursor_moves_over_the_list() {
    let (mut app, mut info) = start(&["a", "b", "c", "d", "e"]);
    app.server_selection_scroll_size = 5;
    for _ in 0..5 {
        press(&mut app, &mut info, Key::Down);
    }
    assert_eq!(app.selected_server, 5);
    assert_eq!(app.scroll_offset, 3);
    press(&mut app, &mut info, Key::Down);
    assert_eq!(app.selected_server, 5);
    assert_eq!(app.scroll_offset, 3);
    for _ in 0..5 {
        press(&mut app, &mut info, Key::Up);
    }
    assert_eq!(app.selected_server, 0);
    assert_eq!(app.scroll_offset, 0);
    press(&mut app, &mut info, Key::Up);
    assert_eq!(app.selected_server, 0);
    press(&mut app, &mut info, Key::Esc);
    assert!(app.exit);
}

#[test]
fn a_typed_server_is_listed_last() {
    let (mut app, mut info) = start(&["a"]);
    press(&mut app, &mut info, Key::Char('n'));
    assert_eq!(app.screen, Screen::New);
    for c in " new.host ".chars() {
        press(&mut app, &mut info, Key::Char(c));
    }
    press(&mut app, &mut info, Key::Enter);
    assert_eq!(hosts(&app), vec!["a", "new.host"]);
    assert_eq!(info.ping_times, vec![None, None]);
    assert_eq!(app.screen, Screen::Selection);
}

#[test]
fn a_server_is_changed_in_its_place() {
    let (mut app, mut info) = start(&["a", "b"]);
    info.ping_times = vec![Some(5), Some(6)];
    press(&mut app, &mut info, Key::Char('e'));
    assert_eq!(app.editing_server.buf, "a");
    press(&mut app, &mut info, Key::Char('x'));
    press(&mut app, &mut info, Key::Enter);
    assert_eq!(hosts(&app), vec!["ax", "b"]);
    assert_eq!(info.ping_times, vec![None, Some(6)]);
    press(&mut app, &mut info, Key::Char('e'));
    press(&mut app, &mut info, Key::Enter);
    assert_eq!(hosts(&app), vec!["ax", "b"]);
}

#[test]
fn an_edit_can_be_given_up() {
    let (mut app, mut info) = start(&["a"]);
    press(&mut app, &mut info, Key::Char('e'));
    press(&mut app, &mut info, Key::Backspace);
    press(&mut app, &mut info, Key::Esc);
    assert_eq!(hosts(&app), vec!["a"]);
    assert_eq!(app.screen, Screen::Selection);
}

#[test]
fn the_row_behind_the_list_adds_a_server() {
    let (mut app, mut info) = start(&[]);
    press(&mut app, &mut info, Key::Enter);
    assert_eq!(app.screen, Screen::New);
    assert_eq!(app.editing_existing_index, None);
    app.screen = Screen::Selection;
    press(&mut app, &mut info, Key::Char('e'));
    assert_eq!(app.screen, Screen::New);
    press(&mut app, &mut info, Key::Esc);
    press(&mut app, &mut info, Key::Delete);
    assert!(app.servers.is_empty());
}

#[test]
fn a_stale_edit_is_refused() {
    let (mut app, mut info) = start(&["a"]);
    press(&mut app, &mut info, Key::Char('e'));
    press(&mut app, &mut info, Key::Esc);
    press(&mut app, &mut info, Key::Delete);
    press(&mut app, &mut info, Key::Char('e'));
    assert_eq!(app.screen, Screen::New);
    assert!(!app.key_ready(Key::Enter, &None, &info));
    app.servers.push(volt_client::state::Server { hostname: "b".to_string() });
    info.ping_times.clear();
    press(&mut app, &mut info, Key::Enter);
    assert_eq!(hosts(&app), vec!["a"]);
    assert_eq!(info.ping_times, vec![None]);
}

#[test]
fn connecting_asks_for_a_session() {
    let (mut app, mut info) = start(&["one"]);
    let effects = press(&mut app, &mut info, Key::Enter);
    assert!(matches!(&effects[0], Effect::Status(t) if t == "Connecting..."));
    assert!(matches!(&effects[1], Effect::Connect(u) if u == "ws://one:2096"));
    assert_eq!(effects.len(), 2);
    assert_eq!(app.screen, Screen::Status);
    let effects = app.connect_finished(Ok(()));
    let json = sent(&effects[0], Delivery::Required);
    assert_eq!(field(&json, "action"), "session");
    assert!(json.member("session").is_none());
    assert_eq!(app.connect_state, ConnectState::LoggingIn);
    assert!(app.socket && app.reader);
}

#[test]
fn a_failed_connection_is_told() {
    let (mut app, mut info) = start(&["one"]);
    press(&mut app, &mut info, Key::Enter);
    let effects = app.connect_finished(Err("refused".to_string()));
    assert!(matches!(&effects[0], Effect::Notice(t) if t == "Failed to connect to server\nrefused"));
    assert_eq!(app.screen, Screen::Message);
    press(&mut app, &mut info, Key::Enter);
    assert_eq!(app.screen, Screen::Selection);
    assert_eq!(app.connect_state, ConnectState::NotConnected);
    assert_eq!(app.next_fn, None);
}

#[test]
fn escape_leaves_a_notice_or_a_status() {
    let (mut app, mut info) = start(&["one"]);
    press(&mut app, &mut info, Key::Enter);
    press(&mut app, &mut info, Key::Enter);
    assert!(!app.exit);
    press(&mut app, &mut info, Key::Esc);
    assert!(app.exit);
    let (mut app, mut info) = start(&["one"]);
    app.message("x", Next::Nop);
    press(&mut app, &mut info, Key::Char('q'));
    assert!(!app.exit);
    press(&mut app, &mut info, Key::Enter);
    assert_eq!(app.screen, Screen::Message);
    press(&mut app, &mut info, Key::Esc);
    assert!(app.exit);
}

#[test]
fn refusals_are_told() {
    let (mut app, mut info) = start(&["one"]);
    press(&mut app, &mut info, Key::Enter);
    app.connect_finished(Ok(()));
    let effects = hear(&mut app, "{\"what\": \"connect\", \"success\": false, \"reason\": \"full\"}");
    assert!(matches!(&effects[0], Effect::Notice(t) if t == "full"));
    let effects = hear(&mut app, "{\"what\": \"connect\"}");
    assert!(matches!(&effects[0], Effect::Notice(t) if t == "Server threw an error."));
    let effects = hear(&mut app, "{\"what\": \"session\", \"success\": false, \"reason\": 3}");
    assert!(matches!(&effects[0], Effect::Notice(t) if t == "Unable to get session.\n3"));
    let effects =
        app.handle_message(Incoming::ConnectionClosed("gone".to_string()), 0).unwrap();
    assert!(matches!(&effects[0], Effect::Notice(t) if t == "Failed to connect to server\ngone"));
    assert!(hear(&mut app, "no json").is_empty());
    assert!(app.handle_message(Incoming::Text("{}".to_string()), 0).is_none());
    assert!(app.handle_message(Incoming::Other, 0).unwrap().is_empty());
    assert!(app.handle_message(Incoming::Failed, 0).unwrap().is_empty());
}

#[test]
fn a_failed_login_can_be_tried_again() {
    let (mut app, mut info) = start(&["one"]);
    press(&mut app, &mut info, Key::Enter);
    app.connect_finished(Ok(()));
    hear(&mut app, "{\"what\": \"session\", \"success\": true, \"session\": \"s1\"}");
    press(&mut app, &mut info, Key::Char('u'));
    press(&mut app, &mut info, Key::Tab);
    assert_eq!(app.selected_login_field, LoginField::Password);
    press(&mut app, &mut info, Key::Char('p'));
    press(&mut app, &mut info, Key::Enter);
    let effects = hear(&mut app, "{\"what\": \"login\", \"success\": false, \"reason\": \"bad\"}");
    assert!(matches!(&effects[0], Effect::Notice(t) if t == "Login failed: \"bad\""));
    assert_eq!(app.next_fn, Some(Next::RetryLogin));
    press(&mut app, &mut info, Key::Enter);
    assert_eq!(app.screen, Screen::Login);
    assert_eq!(app.login.username.buf, "");
    assert_eq!(app.session, "s1");
    assert_eq!(app.connect_state, ConnectState::LoggingIn);
    press(&mut app, &mut info, Key::Tab);
    press(&mut app, &mut info, Key::Tab);
    assert_eq!(app.selected_login_field, LoginField::Username);
    press(&mut app, &mut info, Key::Esc);
    assert_eq!(app.screen, Screen::Selection);
    assert!(!app.socket);
}

#[test]
fn a_login_asks_for_the_data() {
    let (mut app, mut info) = start(&["one"]);
    press(&mut app, &mut info, Key::Enter);
    app.connect_finished(Ok(()));
    hear(&mut app, "{\"what\": \"session\", \"success\": true, \"session\": \"s1\"}");
    let effects = hear(&mut app, "{\"what\": \"login\", \"success\": true}");
    assert!(matches!(&effects[0], Effect::Status(t) if t == "Logged in successfully. Fetching server data..."));
    let json = sent(&effects[1], Delivery::Data);
    assert_eq!(field(&json, "action"), "data");
    assert_eq!(field(&json, "session"), "s1");
    let told = app.send_failed(Delivery::Data, "x");
    assert!(matches!(&told[0], Effect::Notice(t) if t == "Connection timed out"));
    assert!(app.send_failed(Delivery::Ignored, "x").is_empty());
    let told = app.send_failed(Delivery::Chat, "x");
    assert!(matches!(&told[0], Effect::Notice(t) if t == "Error sending message.\nx"));
    let told = app.send_failed(Delivery::Pong, "x");
    assert!(matches!(&told[0], Effect::Notice(t) if t == "Failed to reply with pong\nx"));
}

#[test]
fn a_closed_connection_at_login_is_told() {
    let (mut app, mut info) = start(&["one"]);
    press(&mut app, &mut info, Key::Enter);
    app.connect_finished(Ok(()));
    hear(&mut app, "{\"what\": \"session\", \"success\": true, \"session\": \"s1\"}");
    let heard = Some(Incoming::Close);
    assert!(app.key_ready(Key::Char('x'), &heard, &info));
    let effects = app.event_handler(Event::Key(Key::Char('x')), heard, &mut info, 0);
    assert!(matches!(&effects[0], Effect::Notice(t) if t == "The websocket has closed."));
    assert!(matches!(&effects[1], Effect::Close(r) if r == ""));
    assert!(matches!(&effects[2], Effect::AbortReader));
    assert_eq!(app.screen, Screen::Selection);
    assert!(!app.socket && !app.reader);
    assert_eq!(app.login.username.buf, "x");
    let (mut app, mut info) = start(&["one"]);
    press(&mut app, &mut info, Key::Enter);
    app.connect_finished(Ok(()));
    hear(&mut app, "{\"what\": \"session\", \"success\": true, \"session\": \"s1\"}");
    let effects = app.event_handler(
        Event::Key(Key::Other),
        Some(Incoming::ConnectionClosed("e".to_string())),
        &mut info,
        0,
    );
    assert!(matches!(&effects[0], Effect::Notice(t) if t == "The websocket has kicked you out."));
    assert_eq!(app.screen, Screen::Message);
}

#[test]
fn data_shows_the_channels() {
    let (app, _) = connected();
    assert_eq!(app.screen, Screen::Connected);
    assert_eq!(app.connect_state, ConnectState::Connected);
    assert_eq!(app.selected_channel, Some(0));
    assert_eq!(app.current_server.hostname, "one");
    assert_eq!(app.current_server.channels, vec!["general", "empty"]);
    assert_eq!(app.current_server.connected_users, vec!["ann", "bob"]);
    let list = app.current_server.msgs.get("general").unwrap();
    assert_eq!(list.len(), 3);
    assert_eq!(list[1].id, 2000);
    assert_eq!(list[1].time, 2);
    assert_eq!(list[1].replying_to, Some(1000));
    assert!(app.new_message_bufs.contains("empty"));
}

#[test]
fn bad_data_is_told() {
    let (mut app, mut info) = start(&["one"]);
    press(&mut app, &mut info, Key::Enter);
    app.connect_finished(Ok(()));
    let effects = hear(
        &mut app,
        "{\"what\": \"data\", \"channels\": [], \"users\": [], \"msgs\": 1}",
    );
    assert!(matches!(&effects[0], Effect::Notice(t)
        if t.starts_with("Failed to fetch server data (Error(") && t.ends_with("))")));
    assert_eq!(app.screen, Screen::Message);
    assert_eq!(app.connect_state, ConnectState::Connected);
}

#[test]
fn a_line_is_sent_as_a_message() {
    let (mut app, mut info) = connected();
    app.current_user = "me".to_string();
    press(&mut app, &mut info, Key::Tab);
    assert!(app.is_typing());
    assert!(press(&mut app, &mut info, Key::Enter).is_empty());
    app.replying_to = Some(2000);
    for c in "hi all".chars() {
        press(&mut app, &mut info, Key::Char(c));
    }
    let effects = press(&mut app, &mut info, Key::Enter);
    assert_eq!(effects.len(), 1);
    let json = sent(&effects[0], Delivery::Chat);
    assert_eq!(field(&json, "action"), "message");
    assert_eq!(field(&json, "session"), "s1");
    assert_eq!(field(&json, "channel"), "general");
    assert_eq!(
        field(&json, "msg"),
        packed("hi all", "me", 1700000000123, MsgType::Text, Some(2000))
    );
    assert_eq!(app.replying_to, None);
    assert_eq!(app.new_message_bufs.get("general").unwrap().buf, "");
}

#[test]
fn a_sent_message_comes_back_as_it_was() {
    let (mut app, mut info) = connected();
    app.current_user = "me".to_string();
    press(&mut app, &mut info, Key::Tab);
    for c in "so it is".chars() {
        press(&mut app, &mut info, Key::Char(c));
    }
    let effects = press(&mut app, &mut info, Key::Enter);
    let json = sent(&effects[0], Delivery::Chat);
    let relayed = new_msg(&field(&json, "channel"), field(&json, "msg"));
    hear(&mut app, &relayed);
    let list = app.current_server.msgs.get("general").unwrap();
    assert_eq!(list.len(), 4);
    assert_eq!(list[3].msg, "so it is");
    assert_eq!(list[3].user, "me");
    assert_eq!(list[3].id, 1700000000123);
    assert_eq!(list[3].time, 1700000000);
}

#[test]
fn lines_of_channels_are_apart() {
    let (mut app, mut info) = connected();
    press(&mut app, &mut info, Key::Tab);
    press(&mut app, &mut info, Key::Char('a'));
    press(&mut app, &mut info, Key::PageDown);
    press(&mut app, &mut info, Key::Char('b'));
    assert_eq!(app.new_message_bufs.get("general").unwrap().buf, "a");
    assert_eq!(app.new_message_bufs.get("empty").unwrap().buf, "b");
    press(&mut app, &mut info, Key::PageDown);
    assert_eq!(app.selected_channel, Some(1));
    press(&mut app, &mut info, Key::PageUp);
    press(&mut app, &mut info, Key::PageUp);
    assert_eq!(app.selected_channel, Some(0));
    press(&mut app, &mut info, Key::Esc);
    assert_eq!(app.selected_connected_field, ConnectedField::Channels);
}

#[test]
fn messages_are_selected_one_by_one() {
    let (mut app, mut info) = connected();
    press(&mut app, &mut info, Key::Down);
    assert_eq!(app.selected_msg_ids.get("general"), Some(&None));
    press(&mut app, &mut info, Key::Up);
    assert_eq!(app.selected_msg_ids.get("general"), Some(&Some(3000)));
    press(&mut app, &mut info, Key::Up);
    assert_eq!(app.selected_msg_idcs.get("general"), Some(&Some(1)));
    press(&mut app, &mut info, Key::Up);
    press(&mut app, &mut info, Key::Up);
    assert_eq!(app.selected_msg_idcs.get("general"), Some(&Some(0)));
    press(&mut app, &mut info, Key::Down);
    assert_eq!(app.selected_msg_ids.get("general"), Some(&Some(2000)));
    press(&mut app, &mut info, Key::Down);
    press(&mut app, &mut info, Key::Down);
    assert_eq!(app.selected_msg_ids.get("general"), Some(&Some(3000)));
    press(&mut app, &mut info, Key::Up);
    press(&mut app, &mut info, Key::Down);
    assert_eq!(app.selected_msg_ids.get("general"), Some(&Some(3000)));
    press(&mut app, &mut info, Key::Char('d'));
    assert_eq!(app.selected_msg_ids.get("general"), Some(&None));
    assert_eq!(app.selected_msg_idcs.get("general"), Some(&None));
    press(&mut app, &mut info, Key::PageDown);
    assert!(!app.key_ready(Key::Up, &None, &info));
}

#[test]
fn the_selected_message_can_be_used() {
    let (mut app, mut info) = connected();
    assert!(press(&mut app, &mut info, Key::Char('c')).is_empty());
    press(&mut app, &mut info, Key::Char('r'));
    assert_eq!(app.replying_to, None);
    press(&mut app, &mut info, Key::Up);
    press(&mut app, &mut info, Key::Up);
    press(&mut app, &mut info, Key::Char('r'));
    assert_eq!(app.replying_to, Some(2000));
    press(&mut app, &mut info, Key::Char('u'));
    assert_eq!(app.replying_to, None);
    let effects = press(&mut app, &mut info, Key::Char('c'));
    assert!(matches!(&effects[0], Effect::Copy(t) if t == "second"));
    press(&mut app, &mut info, Key::Char('o'));
    assert_eq!(app.selected_msg_ids.get("general"), Some(&Some(1000)));
    assert_eq!(app.selected_msg_idcs.get("general"), Some(&Some(0)));
    press(&mut app, &mut info, Key::Char('o'));
    assert_eq!(app.selected_msg_idcs.get("general"), Some(&Some(0)));
    press(&mut app, &mut info, Key::Char('t'));
    assert!(!app.sidebar);
    press(&mut app, &mut info, Key::Char('z'));
    assert_eq!(app.screen, Screen::Connected);
}

#[test]
fn leaving_the_server_closes_the_connection() {
    let (mut app, mut info) = connected();
    press(&mut app, &mut info, Key::PageDown);
    let effects = press(&mut app, &mut info, Key::Esc);
    assert!(matches!(&effects[0], Effect::Close(r) if r == "empty"));
    assert!(matches!(&effects[1], Effect::AbortReader));
    assert_eq!(app.screen, Screen::Selection);
    assert_eq!(app.connect_state, ConnectState::NotConnected);
    assert!(!app.socket && !app.reader);
    assert!(hear(&mut app, "{}").is_empty());
}

#[test]
fn without_channels_no_key_is_taken() {
    let (mut app, mut info) = start(&["one"]);
    press(&mut app, &mut info, Key::Enter);
    app.connect_finished(Ok(()));
    hear(&mut app, &data(&[], &[]));
    assert_eq!(app.screen, Screen::Connected);
    assert!(!app.key_ready(Key::Tab, &None, &info));
    hear(&mut app, "{\"what\": \"kickattempt\", \"reason\": \"x\"}");
    hear(&mut app, "{\"what\": \"newchannel\", \"channel_name\": \"dev\"}");
    assert_eq!(app.current_server.channels, vec!["dev"]);
    assert_eq!(app.selected_channel, None);
}

#[test]
fn users_come_and_go() {
    let (mut app, _) = connected();
    hear(&mut app, &new_msg("general", packed("", "cat", 9000, MsgType::Connect, None)));
    assert_eq!(app.current_server.connected_users, vec!["ann", "bob", "cat"]);
    hear(&mut app, &new_msg("nowhere", packed("", "ann", 9001, MsgType::Disconnect, None)));
    assert_eq!(app.current_server.connected_users, vec!["bob", "cat"]);
    assert_eq!(app.current_server.msgs.get("general").unwrap().len(), 4);
    assert!(!app.current_server.msgs.contains("nowhere"));
}

#[test]
fn a_new_channel_is_empty() {
    let (mut app, _) = connected();
    hear(&mut app, "{\"what\": \"newchannel\", \"channel_name\": \"dev\"}");
    assert_eq!(app.current_server.channels, vec!["general", "empty", "dev"]);
    assert!(app.current_server.msgs.get("dev").unwrap().is_empty());
    assert_eq!(app.selected_msg_ids.get("dev"), Some(&None));
    assert_eq!(app.selected_msg_idcs.get("dev"), Some(&None));
    assert_eq!(app.new_message_bufs.get("dev").unwrap().bufsize, 1);
    assert_eq!(app.current_server.msgs.get("general").unwrap().len(), 3);
}

#[test]
fn answers_of_the_server_stand_in_the_channel() {
    let (mut app, _) = connected();
    hear(&mut app, "{\"what\": \"kickattempt\", \"reason\": \"no rights\"}");
    let list = app.current_server.msgs.get("general").unwrap();
    assert_eq!(list[3].msg, "no rights");
    assert_eq!(list[3].user, "Command service");
    assert_eq!(list[3].id, 1700000000123);
    assert_eq!(list[3].time, 1700000000);
    app.selected_channel = Some(9);
    let text = "{\"what\": \"kickattempt\", \"reason\": \"x\"}".to_string();
    assert!(app.handle_message(Incoming::Text(text), 0).is_none());
    assert!(app.handle_message(Incoming::Text("{\"x\": 1}".to_string()), 0).is_none());
    assert!(hear(&mut app, "no json").is_empty());
}

#[test]
fn pings_are_answered() {
    let (mut app, _) = connected();
    let effects = app.handle_message(Incoming::Ping(vec![1, 2]), 0).unwrap();
    assert!(matches!(&effects[0], Effect::Pong(b) if *b == vec![1, 2]));
}

#[test]
fn a_lost_connection_leads_back_to_the_list() {
    let (mut app, mut info) = connected();
    let effects = app.handle_message(Incoming::Close, 0).unwrap();
    assert!(matches!(&effects[0], Effect::Close(r) if r == "general"));
    assert!(matches!(&effects[1], Effect::AbortReader));
    assert!(matches!(&effects[2], Effect::Notice(t) if t == "The websocket has closed."));
    assert_eq!(app.screen, Screen::Message);
    press(&mut app, &mut info, Key::Enter);
    assert_eq!(app.screen, Screen::Selection);
    let (mut app, mut info) = connected();
    let effects =
        app.handle_message(Incoming::ConnectionClosed("e".to_string()), 0).unwrap();
    assert!(matches!(&effects[0], Effect::Notice(t) if t == "The websocket has kicked you out."));
    press(&mut app, &mut info, Key::Enter);
    assert_eq!(app.screen, Screen::Selection);
    assert!(!app.socket);
}

#[test]
fn commands_about_users_are_sent() {
    for name in ["kick", "ban", "banip", "unban", "unbanip", "dm"] {
        let (mut app, _) = connected();
        let args = vec![name.to_string(), "bob".to_string()];
        let effects = handle(&args, &mut app, 5);
        let json = sent(&effects[0], Delivery::Required);
        assert_eq!(field(&json, "action"), name);
        assert_eq!(field(&json, "user"), "bob");
        assert_eq!(field(&json, "session"), "s1");
        assert!(handle(&vec![name.to_string()], &mut app, 5).is_empty());
    }
}

#[test]
fn a_channel_can_be_asked_for() {
    let (mut app, _) = connected();
    let args = vec!["newchannel".to_string(), "dev".to_string()];
    let effects = handle(&args, &mut app, 5);
    let json = sent(&effects[0], Delivery::Required);
    assert_eq!(field(&json, "action"), "newchannel");
    assert_eq!(field(&json, "channelname"), "dev");
    assert!(json.member("user").is_none());
    assert!(handle(&vec!["newchannel".to_string()], &mut app, 5).is_empty());
    assert!(handle(&vec!["flushkey".to_string()], &mut app, 5).is_empty());
    assert_eq!(app.current_server.msgs.get("general").unwrap().len(), 3);
}

#[test]
fn commands_are_answered_in_the_channel() {
    let (mut app, mut info) = connected();
    press(&mut app, &mut info, Key::Tab);
    for line in ["/test", "/help", "/nope x", "/"] {
        for c in line.chars() {
            press(&mut app, &mut info, Key::Char(c));
        }
        assert!(press(&mut app, &mut info, Key::Enter).is_empty());
        assert_eq!(app.new_message_bufs.get("general").unwrap().buf, "");
    }
    let list = app.current_server.msgs.get("general").unwrap();
    let texts: Vec<&str> = list[3..].iter().map(|m| m.msg.as_str()).collect();
    assert_eq!(
        texts,
        vec![
            "test",
            "User commands: /test /help /dm <user>",
            "Admin commands: /newchannel <channel_name> /kick <user> /ban <user> /unban <user> /banip <user> /unbanip <user>",
            "Unknown command: nope",
            "Unknown command: ",
        ]
    );
}

#[test]
fn a_terminal_can_change_its_size() {
    let (mut app, mut info) = start(&["one"]);
    assert!(app.event_handler(Event::Resize(200, 30), None, &mut info, 0).is_empty());
    assert_eq!(app.chars_matrix.len(), 30);
    assert!(app.chars_matrix.iter().all(|r| r.len() == 100));
    assert!(app.event_handler(Event::Other, None, &mut info, 0).is_empty());
    assert_eq!(app.screen, Screen::Selection);
}

#[test]
fn a_line_with_a_wide_character_refuses_the_next() {
    let (mut app, mut info) = connected();
    press(&mut app, &mut info, Key::Tab);
    press(&mut app, &mut info, Key::Char('é'));
    assert!(!app.key_ready(Key::Char('x'), &None, &info));
    assert!(app.key_ready(Key::Left, &None, &info));
    let line = InputBuffer::new(1);
    assert!(line.can_press(Key::Char('é')));
}

#[test]
fn commands_without_their_argument_need_nothing() {
    for name in ["kick", "ban", "banip", "unban", "unbanip", "dm", "newchannel", "flushkey"] {
        let (mut app, _) = start(&["one"]);
        assert!(!app.socket);
        app.selected_channel = Some(3);
        assert!(handle(&vec![name.to_string()], &mut app, 5).is_empty());
        assert_eq!(app.screen, Screen::Selection);
        assert!(app.current_server.msgs.entries.is_empty());
    }
    let (mut app, _) = start(&["one"]);
    assert!(handle(&vec!["flushkey".to_string(), "x".to_string()], &mut app, 5).is_empty());
}

#[test]
fn the_request_for_a_session_has_one_text() {
    let (mut app, mut info) = start(&["one"]);
    press(&mut app, &mut info, Key::Enter);
    let effects = app.connect_finished(Ok(()));
    assert!(matches!(&effects[0], Effect::Send(t, Delivery::Required)
        if t == "{\"action\":\"session\"}"));
}

#[test]
fn servers_are_asked_while_they_are_listed() {
    let (mut app, _) = start(&["one", "two"]);
    assert_eq!(hosts_to_ask(&app.partial_state()), vec!["one", "two"]);
    let known = next_pings(app.screen, vec![Some(1)], vec![Some(2), None]);
    assert_eq!(known, vec![Some(2), None]);
    app.status("busy");
    assert!(hosts_to_ask(&app.partial_state()).is_empty());
    assert_eq!(next_pings(app.screen, known, vec![]), vec![Some(2), None]);
}

#[test]
fn only_delete_changes_the_list() {
    for key in [Key::Down, Key::Up, Key::Enter, Key::Tab, Key::Left, Key::Char('e'), Key::Char('n')] {
        let (mut app, _) = start(&["one", "two"]);
        app.scroll_offset = -5;
        assert!(app.list_ready(key));
        app.selection_keybinds(key);
        assert_eq!(hosts(&app), vec!["one", "two"]);
        assert_eq!(app.selected_server, if key == Key::Down { 1 } else { 0 });
    }
    let (mut app, _) = start(&["one", "two"]);
    app.selected_server = 2;
    app.selection_keybinds(Key::Down);
    assert_eq!(app.selected_server, 2);
    app.selection_keybinds(Key::Delete);
    assert_eq!(hosts(&app).len(), 2);
    app.scroll_offset = i32::MIN;
    assert!(!app.list_ready(Key::Down));
    assert!(app.list_ready(Key::Delete));
}

#[test]
fn commands_and_messages_are_sent_in_compact_form() {
    let (mut app, mut info) = connected();
    let effects = handle(&vec!["kick".to_string(), "bob".to_string()], &mut app, 5);
    assert!(matches!(&effects[0], Effect::Send(t, Delivery::Required)
        if t == "{\"action\":\"kick\",\"session\":\"s1\",\"user\":\"bob\"}"));
    press(&mut app, &mut info, Key::Tab);
    press(&mut app, &mut info, Key::Char('x'));
    let effects = press(&mut app, &mut info, Key::Enter);
    match &effects[0] {
        Effect::Send(text, _) => {
            assert!(text.starts_with("{\"") && text.ends_with("\"}"));
            assert!(text.contains("\"channel\":\"general\"") && text.contains("\"action\":\"message\""));
        }
        _ => panic!("nothing is sent"),
    }
}
