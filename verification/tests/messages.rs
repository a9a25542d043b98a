use volt_client::auth::AuthEvent;
use volt_client::effect::{Delivery, Effect};
use volt_client::events::Event;
use volt_client::input::Key;
use volt_client::json::{json_bytes, json_text, parse_json, payload, Json};
use volt_client::keys::{generate_keys, key_members};
use volt_client::live::{live_event, LiveEvent};
use volt_client::message_view::{find_msg, render_msg, show_msg};
use volt_client::msg::{pack_msg, parse_raw, unpack_msg, Msg, MsgType};
use volt_client::names::NameMap;
use volt_client::state::{App, Config, Screen};
use volt_client::style::Style;
use volt_client::wire::Incoming;

fn sample(text: &str, time: u64) -> Msg {
    Msg {
        msg: text.to_string(),
        id: 0,
        user: "ann".to_string(),
        time,
        replying_to: None,
        _type: MsgType::Text,
    }
}

fn member_text(json: &Json, name: &str) -> String {
    json.member(name).unwrap().as_str().unwrap().clone()
}

fn fresh_app() -> App {
    let config = Config {
        servers: vec!["host".to_string()],
        random_local_addr: false,
        matrix_background: false,
        ping_timeout: 0,
        trust_self_signed_certs: false,
    };
    App::new(config, 80, 24).0
}

#[test]
fn json_is_read() {
    let json = parse_json("{\"a\": \"x\", \"b\": true, \"c\": [\"p\", \"q\"], \"a\": \"y\"}").unwrap();
    assert_eq!(member_text(&json, "a"), "y");
    assert_eq!(json.member("b").unwrap().as_bool(), Some(true));
    assert_eq!(
        json.member("c").unwrap().string_list(),
        Some(vec!["p".to_string(), "q".to_string()])
    );
    assert!(json.member("d").is_none());
    assert!(json.member("a").unwrap().string_list().is_none());
    assert!(parse_json("{").is_none());
    assert!(parse_json("{\"a\": [1, \"x\"]}").unwrap().member("a").unwrap().string_list().is_none());
}

#[test]
fn json_is_written() {
    assert_eq!(json_text(&Json::Null), "null");
    assert_eq!(json_text(&Json::Text("a\"b\\c\n\u{1}".to_string())), "\"a\\\"b\\\\c\\n\\u0001\"");
    let dict = Json::Dict(vec![("k".to_string(), Json::Bool(false))]);
    assert_eq!(json_text(&dict), "{\"k\":false}");
    assert_eq!(json_text(&json_bytes(&vec![0, 255])), "[0,255]");
}

#[test]
fn a_payload_reads_back() {
    let data = vec![("session".to_string(), Json::Text("s\"1".to_string()))];
    let json = parse_json(payload("data", data).as_str()).unwrap();
    assert_eq!(member_text(&json, "action"), "data");
    assert_eq!(member_text(&json, "session"), "s\"1");
}

#[test]
fn a_message_is_packed() {
    let mut msg = sample("hi there", 1700000000123);
    assert_eq!(
        pack_msg(&msg),
        "{\"user\": \"ann\", \"time\": \"1700000000123\", \"msg\": \"hi there\", \"replying_to\": \"-1\", \"type\": \"Text\"}"
    );
    msg.replying_to = Some(7);
    msg._type = MsgType::Disconnect;
    assert!(pack_msg(&msg).ends_with("\"replying_to\": \"7\", \"type\": \"Disconnect\"}"));
}

#[test]
fn a_packed_message_reads_back() {
    let mut msg = sample("hi there", 1700000000123);
    msg.replying_to = Some(42);
    let read = parse_raw(pack_msg(&msg).as_str()).unwrap();
    assert_eq!(read.msg, "hi there");
    assert_eq!(read.user, "ann");
    assert_eq!(read.id, 1700000000123);
    assert_eq!(read.time, 1700000000);
    assert_eq!(read.replying_to, Some(42));
    assert_eq!(read._type, MsgType::Text);
}

#[test]
fn a_message_with_quotes_cannot_be_read() {
    assert!(parse_raw(pack_msg(&sample("say \"hi\"", 1)).as_str()).is_none());
}

#[test]
fn a_value_that_is_no_object_is_garbled() {
    let msg = parse_raw("[1]").unwrap();
    assert_eq!(msg.msg, "<Garbled message>");
    assert_eq!(msg.user, "???");
    assert_eq!(msg.id, 0);
    assert!(parse_raw("{\"msg\": \"x\"}").is_none());
    assert!(parse_raw("nonsense").is_none());
    assert_eq!(fresh_app().parse_msg("7").msg, "<Garbled message>");
}

#[test]
fn a_raw_message_is_unpacked() {
    let mut raw: NameMap<String> = NameMap::new();
    raw.insert("time", "\"2500\"".to_string());
    raw.insert("type", "\"Connect\"".to_string());
    raw.insert("user", "\"b\\\"o\"".to_string());
    let msg = unpack_msg(&raw);
    assert_eq!(msg.id, 2500);
    assert_eq!(msg.time, 2);
    assert_eq!(msg._type, MsgType::Connect);
    assert_eq!(msg.user, "b\\o");
    assert_eq!(msg.msg, "");
    assert_eq!(msg.replying_to, None);
}

#[test]
fn a_relayed_message_is_the_one_that_was_packed() {
    let packed = pack_msg(&sample("hello world", 1700000000123));
    let told = Json::Dict(vec![
        ("what".to_string(), Json::Text("new_msg".to_string())),
        ("channel".to_string(), Json::Text("general".to_string())),
        ("msg".to_string(), Json::Text(packed)),
    ]);
    let json = parse_json(json_text(&told).as_str()).unwrap();
    match live_event(&json).unwrap() {
        LiveEvent::NewMsg(channel, msg) => {
            assert_eq!(channel, "general");
            assert_eq!(msg.msg, "hello world");
            assert_eq!(msg.id, 1700000000123);
            assert_eq!(msg.time, 1700000000);
        }
        _ => panic!("not a message"),
    }
}

#[test]
fn live_texts_are_told_apart() {
    let event = |text: &str| live_event(&parse_json(text).unwrap());
    assert!(matches!(
        event("{\"what\": \"newchannel\", \"channel_name\": \"dev\"}"),
        Some(LiveEvent::NewChannel(name)) if name == "dev"
    ));
    assert!(matches!(
        event("{\"what\": \"kickattempt\", \"reason\": \"no \\\"way\\\"\"}"),
        Some(LiveEvent::Kick(reason)) if reason == "no \\\"way\\\""
    ));
    assert!(matches!(event("{\"what\": \"other\"}"), Some(LiveEvent::Nothing)));
    assert!(matches!(event("{\"what\": 7}"), Some(LiveEvent::Nothing)));
    assert!(event("{\"who\": \"x\"}").is_none());
    assert!(event("[]").is_none());
    assert!(event("{\"what\": \"new_msg\", \"channel\": \"c\"}").is_none());
    assert!(event("{\"what\": \"new_msg\", \"channel\": \"c\", \"msg\": \"[]\"}").is_none());
    assert!(event("{\"what\": \"new_msg\", \"channel\": \"c\", \"msg\": \"{}\"}").is_none());
    assert!(event("{\"what\": \"newchannel\"}").is_none());
    assert!(event("{\"what\": \"kickattempt\"}").is_none());
}

#[test]
fn login_texts_are_told_apart() {
    let app = fresh_app();
    let event = |text: &str| app.auth_event(&parse_json(text).unwrap());
    assert!(matches!(event("{\"what\": \"connect\", \"success\": true}"), Some(AuthEvent::Nothing)));
    assert!(matches!(
        event("{\"what\": \"connect\", \"success\": false, \"reason\": \"full\"}"),
        Some(AuthEvent::Refused(r)) if r == "full"
    ));
    assert!(matches!(
        event("{\"what\": \"connect\", \"success\": false}"),
        Some(AuthEvent::Refused(r)) if r == "Failed to connect to server."
    ));
    assert!(matches!(event("{\"what\": \"connect\"}"), Some(AuthEvent::Broken)));
    assert!(matches!(
        event("{\"what\": \"session\", \"success\": true, \"session\": \"s1\"}"),
        Some(AuthEvent::Session(s)) if s == "s1"
    ));
    assert!(matches!(
        event("{\"what\": \"session\", \"success\": false, \"reason\": \"busy\"}"),
        Some(AuthEvent::NoSession(r)) if r == "\"busy\""
    ));
    assert!(event("{\"what\": \"session\"}").is_none());
    assert!(event("{\"what\": \"session\", \"success\": true}").is_none());
    assert!(matches!(event("{\"what\": \"login\", \"success\": true}"), Some(AuthEvent::LoggedIn)));
    assert!(matches!(
        event("{\"what\": \"login\", \"success\": false}"),
        Some(AuthEvent::LoginFailed(r)) if r == "null"
    ));
    assert!(event("{\"what\": \"login\"}").is_none());
    assert!(matches!(event("{\"what\": \"other\"}"), Some(AuthEvent::Nothing)));
    assert!(event("{\"what\": 1}").is_none());
    assert!(event("{}").is_none());
    assert!(event("5").is_none());
    assert!(event("{\"what\": \"data\", \"channels\": [], \"users\": 3, \"msgs\": {}}").is_none());
    assert!(event("{\"what\": \"data\", \"channels\": [\"a\"], \"users\": [], \"msgs\": {}}").is_none());
    match event("{\"what\": \"data\", \"channels\": [], \"users\": [], \"msgs\": 3}") {
        Some(AuthEvent::BadData(error)) => assert!(error.starts_with("Error(")),
        _ => panic!("no bad data"),
    }
}

#[test]
fn a_served_log_is_read_back() {
    let app = fresh_app();
    let packed = pack_msg(&sample("first words", 5000));
    let told = Json::Dict(vec![
        ("what".to_string(), Json::Text("data".to_string())),
        ("channels".to_string(), Json::List(vec![Json::Text("general".to_string())])),
        ("users".to_string(), Json::List(vec![Json::Text("ann".to_string())])),
        (
            "msgs".to_string(),
            Json::Dict(vec![("general".to_string(), Json::List(vec![Json::Text(packed)]))]),
        ),
    ]);
    let json = parse_json(json_text(&told).as_str()).unwrap();
    match app.auth_event(&json) {
        Some(AuthEvent::Data(channels, users, msgs)) => {
            assert_eq!(channels, vec!["general"]);
            assert_eq!(users, vec!["ann"]);
            let list = msgs.get("general").unwrap();
            assert_eq!(list.len(), 1);
            assert_eq!(list[0].msg, "first words");
            assert_eq!(list[0].id, 5000);
            assert_eq!(list[0].time, 5);
        }
        _ => panic!("no data"),
    }
}

#[test]
fn keys_belong_together() {
    let (a, pub_a) = generate_keys();
    let (b, pub_b) = generate_keys();
    assert_ne!(a, b);
    assert_ne!(pub_a, pub_b);
    assert_ne!(a, pub_a);
    let secret = x25519_dalek::StaticSecret::from(a);
    assert_eq!(x25519_dalek::PublicKey::from(&secret).to_bytes(), pub_a);
}

#[test]
fn a_key_is_told_in_base64() {
    let members = key_members(&[0u8; 32]);
    assert_eq!(members.len(), 1);
    assert_eq!(members[0].0, "key");
    assert_eq!(
        members[0].1.as_str().unwrap(),
        "AAAAAAAAAAAAAAAAAAAAAAAAAAAAAAAAAAAAAAAAAAA="
    );
}

#[test]
fn passwords_are_sent_as_digests() {
    let mut app = fresh_app();
    let mut info = volt_client::state::FetcherInfo { ping_times: vec![None] };
    app.event_handler(Event::Key(Key::Enter), None, &mut info, 0);
    app.connect_finished(Ok(()));
    app.handle_message(
        Incoming::Text("{\"what\": \"session\", \"success\": true, \"session\": \"s1\"}".to_string()),
        0,
    )
    .unwrap();
    assert_eq!(app.screen, Screen::Login);
    for key in [Key::Char('a'), Key::Enter, Key::Char('a'), Key::Char('b'), Key::Char('c')] {
        assert!(app.key_ready(key, &None, &info));
        app.event_handler(Event::Key(key), None, &mut info, 0);
    }
    let effects = app.event_handler(Event::Key(Key::Enter), None, &mut info, 0);
    assert!(matches!(&effects[0], Effect::Status(t) if t == "Logging in..."));
    match &effects[1] {
        Effect::Send(text, delivery) => {
            assert_eq!(*delivery, Delivery::Ignored);
            let json = parse_json(text.as_str()).unwrap();
            assert_eq!(member_text(&json, "action"), "login");
            assert_eq!(member_text(&json, "username"), "a");
            assert_eq!(member_text(&json, "session"), "s1");
            let digest = json_text(json.member("password").unwrap());
            assert!(digest.starts_with("[186,120,22,191,143,1,207,234,"));
            assert_eq!(digest.split(',').count(), 32);
        }
        _ => panic!("nothing is sent"),
    }
    assert_eq!(app.current_user, "a");
    assert_eq!(app.screen, Screen::Status);
}

#[test]
fn the_first_message_with_an_id_is_found() {
    let mut a = sample("a", 0);
    a.id = 4;
    let mut b = sample("b", 0);
    b.id = 4;
    let list = vec![sample("x", 0), a, b];
    assert_eq!(find_msg(&list, 4), Some(1));
    assert_eq!(find_msg(&list, 9), None);
}

#[test]
fn a_message_is_shown_with_its_header() {
    let list = vec![sample("hello", 0)];
    let lines = show_msg(&list[0], &list, 60, &None, "2024-01-02 03:04:05").unwrap();
    let head: Vec<&str> = lines[0].spans.iter().map(|s| s.text.as_str()).collect();
    assert_eq!(head, vec![" ", "03:04:05 ", " ann "]);
    assert_eq!(lines[1].spans[0].text, "     hello ");
    assert!(!lines[0].marked);
    let wide = show_msg(&list[0], &list, 101, &Some(0), "2024-01-02 03:04:05").unwrap();
    assert_eq!(wide[0].spans[1].text, "2024-01-02 03:04:05 ");
    assert!(wide[0].marked && wide[1].marked);
    assert!(show_msg(&list[0], &list, 9, &None, "2024-01-02 03:04:05").unwrap().is_empty());
}

#[test]
fn arrivals_are_shown_with_an_arrow() {
    let mut msg = sample("", 0);
    msg._type = MsgType::Connect;
    let list = vec![msg];
    let lines = show_msg(&list[0], &list, 60, &None, "d t").unwrap();
    assert_eq!(lines.len(), 1);
    let head: Vec<(&str, Style)> =
        lines[0].spans.iter().map(|s| (s.text.as_str(), s.style)).collect();
    assert_eq!(
        head,
        vec![
            (" ", Style::Plain),
            ("t ", Style::Plain),
            (" --> ", Style::Green),
            (" ann ", Style::Plain),
            ("connected", Style::Plain)
        ]
    );
    let mut left = sample("", 0);
    left._type = MsgType::Disconnect;
    let gone = vec![left];
    let lines = show_msg(&gone[0], &gone, 60, &None, "d t").unwrap();
    assert_eq!(lines[0].spans[2].text, " <-- ");
    assert_eq!(lines[0].spans[2].style, Style::Red);
    assert_eq!(lines[0].spans[4].text, "disconnected");
}

#[test]
fn replies_show_what_they_reply_to() {
    let mut first = sample("a long first message", 0);
    first.id = 1;
    let mut second = sample("yes", 0);
    second.id = 2;
    second.replying_to = Some(1);
    let mut third = sample("what", 0);
    third.replying_to = Some(99);
    let list = vec![first, second, third];
    let lines = show_msg(&list[1], &list, 60, &None, "d 03:04:05").unwrap();
    assert_eq!(lines[0].spans[3].text, " [ \u{f17ab} ann: a long first message] ");
    let narrow = show_msg(&list[1], &list, 40, &None, "d 03:04:05").unwrap();
    assert_eq!(narrow[0].spans[3].text, " [ \u{f17ab} ann: a long …] ");
    let lost = show_msg(&list[2], &list, 60, &None, "d 03:04:05").unwrap();
    assert_eq!(lost[0].spans[3].text, " [ \u{f17ab} ???] ");
}

#[test]
fn a_reply_cut_inside_a_character_is_not_shown() {
    let mut first = sample("éééééééééé", 0);
    first.id = 1;
    let mut second = sample("yes", 0);
    second.replying_to = Some(1);
    let list = vec![first, second];
    assert!(show_msg(&list[1], &list, 40, &None, "d 03:04:05").is_none());
    assert!(show_msg(&list[1], &list, 41, &None, "d 03:04:05").is_some());
}

#[test]
fn a_message_is_rendered_with_its_local_time() {
    let list = vec![sample("hello", 1700000000)];
    let lines = render_msg(&list[0], &list, 60, &None).unwrap();
    assert_eq!(lines.len(), 2);
    assert_eq!(lines[0].spans[1].text.len(), 9);
    assert_eq!(lines[0].spans[1].text.matches(':').count(), 2);
}

#[test]
fn credentials_hold_the_digest_that_is_given() {
    let mut app = fresh_app();
    app.session = "s2".to_string();
    app.login.username.buf = "bob".to_string();
    app.login.password.buf = "secret".to_string();
    let json = Json::Dict(app.login_data(&vec![1, 2, 3]));
    assert_eq!(member_text(&json, "session"), "s2");
    assert_eq!(member_text(&json, "username"), "bob");
    assert_eq!(json_text(json.member("password").unwrap()), "[1,2,3]");
    assert!(!json_text(&json).contains("secret"));
}

#[test]
fn a_text_is_said_with_its_channel() {
    let mut app = fresh_app();
    app.session = "s2".to_string();
    app.current_user = "ann".to_string();
    let json = Json::Dict(app.chat_data("general", "hi".to_string(), 9));
    assert_eq!(member_text(&json, "channel"), "general");
    assert_eq!(member_text(&json, "msg"), pack_msg(&sample("hi", 9)));
    assert_eq!(member_text(&json, "session"), "s2");
}

#[test]
fn a_request_about_a_user_holds_its_parts() {
    let json = volt_client::commands::command_json("kick", "user", "bob", "s3");
    assert_eq!(member_text(&json, "action"), "kick");
    assert_eq!(member_text(&json, "user"), "bob");
    assert_eq!(member_text(&json, "session"), "s3");
}

#[test]
fn scalars_read_back_from_a_payload() {
    let data = vec![
        ("a".to_string(), Json::Null),
        ("b".to_string(), Json::Bool(true)),
        ("c".to_string(), Json::List(vec![Json::Text("x".to_string()), Json::Bool(false)])),
    ];
    let json = parse_json(payload("p", data).as_str()).unwrap();
    assert!(matches!(json.member("a"), Some(Json::Null)));
    assert_eq!(json.member("b").unwrap().as_bool(), Some(true));
    assert_eq!(json_text(json.member("c").unwrap()), "[\"x\",false]");
}

#[test]
fn a_payload_replaces_an_action_of_its_data() {
    let data = vec![
        ("action".to_string(), Json::Text("old".to_string())),
        ("x".to_string(), Json::Bool(true)),
        ("action".to_string(), Json::Null),
    ];
    let json = parse_json(payload("new", data).as_str()).unwrap();
    assert_eq!(member_text(&json, "action"), "new");
    assert_eq!(json.member("x").unwrap().as_bool(), Some(true));
    let only = vec![("action".to_string(), Json::Text("old".to_string()))];
    assert_eq!(payload("new", only), "{\"action\":\"new\"}");
}

#[test]
fn the_text_of_a_payload_without_data_is_fixed() {
    assert_eq!(payload("session", vec![]), "{\"action\":\"session\"}");
    assert_eq!(payload("a\"b", vec![]), "{\"action\":\"a\\\"b\"}");
}

#[test]
fn nested_data_reads_back_from_a_payload() {
    let inner = Json::Dict(vec![("k".to_string(), Json::List(vec![Json::List(vec![Json::Null])]))]);
    let data = vec![("deep".to_string(), inner)];
    let text = payload("p", data);
    let json = parse_json(text.as_str()).unwrap();
    assert_eq!(json_text(json.member("deep").unwrap()), "{\"k\":[[null]]}");
    assert!(
        text == "{\"action\":\"p\",\"deep\":{\"k\":[[null]]}}"
            || text == "{\"deep\":{\"k\":[[null]]},\"action\":\"p\"}"
    );
}

#[test]
fn values_are_read_back_as_deep_as_the_parser_goes() {
    let nested = |depth: usize| {
        let mut value = Json::Null;
        for _ in 0..depth {
            value = Json::List(vec![value]);
        }
        value
    };
    assert!(parse_json(payload("p", vec![("v".to_string(), nested(126))]).as_str()).is_some());
    assert!(parse_json(payload("p", vec![("v".to_string(), nested(127))]).as_str()).is_none());
    assert!(parse_json(json_text(&nested(127)).as_str()).is_some());
    assert!(parse_json(json_text(&nested(128)).as_str()).is_none());
}

#[test]
fn the_later_of_two_members_is_written() {
    let twice = Json::Dict(vec![
        ("a".to_string(), Json::Text("first".to_string())),
        ("b".to_string(), Json::Null),
        ("a".to_string(), Json::Text("second".to_string())),
    ]);
    assert_eq!(member_text(&twice, "a"), "second");
    assert_eq!(json_text(&twice), "{\"a\":\"second\",\"b\":null}");
}

#[test]
fn a_message_of_blanks_has_only_its_header() {
    for text in ["", " ", "   "] {
        let list = vec![sample(text, 1700000000)];
        assert_eq!(show_msg(&list[0], &list, 60, &None, "d t").unwrap().len(), 1);
        assert_eq!(render_msg(&list[0], &list, 60, &None).unwrap().len(), 1);
    }
}

#[test]
fn line_feeds_break_a_shown_text_into_pieces() {
    let list = vec![sample("a\nb\r\n\rc", 0)];
    let lines = show_msg(&list[0], &list, 60, &None, "d t").unwrap();
    assert_eq!(lines.len(), 2);
    let pieces: Vec<&str> = lines[1].spans.iter().map(|s| s.text.as_str()).collect();
    assert_eq!(pieces, vec!["     a", "b", "\rc "]);
}

#[test]
fn requests_of_the_login_are_compact() {
    let mut app = fresh_app();
    let mut info = volt_client::state::FetcherInfo { ping_times: vec![None] };
    app.event_handler(Event::Key(Key::Enter), None, &mut info, 0);
    app.connect_finished(Ok(()));
    let told = "{\"what\": \"session\", \"success\": true, \"session\": \"s\"}".to_string();
    app.handle_message(Incoming::Text(told), 0).unwrap();
    let told = "{\"what\": \"login\", \"success\": true}".to_string();
    let effects = app.handle_message(Incoming::Text(told), 0).unwrap();
    match &effects[1] {
        Effect::Send(text, _) => assert!(
            text == "{\"action\":\"data\",\"session\":\"s\"}"
                || text == "{\"session\":\"s\",\"action\":\"data\"}"
        ),
        _ => panic!("nothing is sent"),
    }
}

#[test]
fn data_without_messages_is_told_apart() {
    let app = fresh_app();
    for msgs in ["null", "[]", "\"x\"", "{\"a\": 1}", "{\"a\": [1]}", "{\"a\": [\"x\", null]}"] {
        let text =
            format!("{{\"what\": \"data\", \"channels\": [], \"users\": [], \"msgs\": {msgs}}}");
        let json = parse_json(text.as_str()).unwrap();
        assert!(matches!(app.auth_event(&json), Some(AuthEvent::BadData(_))));
    }
    let json =
        parse_json("{\"what\": \"data\", \"channels\": [], \"users\": []}").unwrap();
    assert!(matches!(app.auth_event(&json), Some(AuthEvent::BadData(_))));
}
