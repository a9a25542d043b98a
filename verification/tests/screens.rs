use volt_client::chat_view::ChatAreas;
use volt_client::events::Event;
use volt_client::input::{InputBuffer, Key};
use volt_client::layout::Rect;
use volt_client::msg::{Msg, MsgType};
use volt_client::panel::Panel;
use volt_client::state::{App, Config, ConnectedField, FetcherInfo, LoginField, Next, Screen};
use volt_client::style::{Align, Style, TextLine};
use volt_client::wire::Incoming;

fn begin(servers: &[&str]) -> (App, FetcherInfo) {
    App::new(
        Config {
            servers: servers.iter().map(|s| s.to_string()).collect(),
            random_local_addr: false,
            matrix_background: false,
            ping_timeout: 0,
            trust_self_signed_certs: false,
        },
        40,
        10,
    )
}

fn whole(width: u16, height: u16) -> Rect {
    Rect { x: 0, y: 0, width, height }
}

fn text(line: &TextLine) -> String {
    line.spans.iter().map(|s| s.text.as_str()).collect()
}

fn texts(panel: &Panel) -> Vec<String> {
    panel.lines.iter().map(text).collect()
}

fn logging_in() -> (App, FetcherInfo) {
    let (mut app, mut info) = begin(&["host"]);
    app.event_handler(Event::Key(Key::Enter), None, &mut info, 0);
    app.connect_finished(Ok(()));
    let told = "{\"what\": \"session\", \"success\": true, \"session\": \"s\"}".to_string();
    app.handle_message(Incoming::Text(told), 0).unwrap();
    (app, info)
}

fn chatting(count: u64) -> (App, FetcherInfo) {
    let (mut app, info) = logging_in();
    let told = "{\"what\": \"data\", \"channels\": [\"general\", \"dev\"], \"users\": [\"ann\"], \"msgs\": {\"general\": [], \"dev\": []}}".to_string();
    app.handle_message(Incoming::Text(told), 0).unwrap();
    for i in 0..count {
        app.add_msg_to_current_channel(Msg {
            msg: "text".to_string(),
            id: i + 1,
            user: "ann".to_string(),
            time: 1700000000 + i,
            replying_to: if i == 1 { Some(1) } else { None },
            _type: MsgType::Text,
        });
    }
    (app, info)
}

fn areas() -> ChatAreas {
    ChatAreas {
        messages: Rect { x: 20, y: 0, width: 60, height: 8 },
        input: Rect { x: 20, y: 8, width: 60, height: 3 },
        channels: Rect { x: 0, y: 0, width: 19, height: 3 },
        keybinds: Rect { x: 0, y: 3, width: 19, height: 8 },
        users: Rect { x: 81, y: 0, width: 19, height: 11 },
    }
}

fn stamps(count: usize) -> Vec<String> {
    (0..count).map(|i| format!("day 0{i}:00:00")).collect()
}

#[test]
fn the_list_is_shown() {
    let (mut app, mut info) = begin(&["one", "two"]);
    info.ping_times = vec![Some(12), None];
    let panels = app.render(whole(100, 30), &info, 0).unwrap();
    assert_eq!(app.server_selection_scroll_size, 30);
    assert_eq!(panels.len(), 2);
    assert_eq!(
        texts(&panels[0]),
        vec![" 12ms    one:2096 ", " Offline two:2096 ", " + Add Server "]
    );
    assert!(panels[0].lines[0].marked && !panels[0].lines[1].marked && !panels[0].lines[2].marked);
    assert_eq!(panels[0].lines[0].spans[0].style, Style::Plain);
    assert_eq!(panels[0].lines[1].spans[0].style, Style::Red);
    assert_eq!(panels[0].lines[1].spans[1].style, Style::Bold);
    assert_eq!(panels[0].lines[1].spans[2].style, Style::Gray);
    assert!(panels[0].bordered && !panels[1].bordered);
    assert_eq!(text(panels[0].title.as_ref().unwrap()), " Server Selection ");
    assert_eq!(
        text(panels[0].bottom.as_ref().unwrap()),
        " Move Cursor <Up/Down>  Connect <Enter>  Edit <E>  Remove <DEL>  New connection <N>  Exit <ESC> "
    );
    assert_eq!(panels[1].area, Rect { x: 0, y: 0, width: 100, height: 2 });
    assert_eq!(panels[0].area, Rect { x: 0, y: 2, width: 100, height: 28 });
    assert_eq!(panels[1].lines[0].align, Align::Center);
    assert_eq!(text(&panels[1].lines[0]), "Welcome to Volt IRC Client!");
}

#[test]
fn the_row_behind_the_list_is_marked() {
    let (mut app, info) = begin(&["one", "two", "three"]);
    app.selected_server = 3;
    app.scroll_offset = 2;
    let panels = app.selection_panels(&info, whole(10, 2), whole(10, 8));
    assert_eq!(texts(&panels[0]), vec![" Offline three:2096 ", " + Add Server "]);
    assert!(panels[0].lines[1].marked);
    assert_eq!(panels[0].lines[1].spans[0].style, Style::BoldGreen);
    assert_eq!(
        text(panels[0].bottom.as_ref().unwrap()),
        " Move Cursor <Up/Down>   New connection <Enter> "
    );
}

#[test]
fn a_notice_stands_in_a_box() {
    let (mut app, info) = begin(&["one"]);
    app.message("bad\nluck", Next::GoToSelection);
    let panels = app.render(whole(50, 21), &info, 0).unwrap();
    assert_eq!(panels.len(), 1);
    assert_eq!(panels[0].area.height, 4);
    assert_eq!(texts(&panels[0]), vec!["bad", "luck"]);
    assert_eq!(panels[0].lines[0].align, Align::Center);
    assert_eq!(text(panels[0].title.as_ref().unwrap()), " Stuff has happened ");
    assert_eq!(text(panels[0].bottom.as_ref().unwrap()), " Press Enter to continue ");
    assert_eq!(panels[0].bottom.as_ref().unwrap().align, Align::Right);
    app.status("busy");
    let panels = app.render(whole(50, 21), &info, 0).unwrap();
    assert_eq!(text(panels[0].title.as_ref().unwrap()), " Stuff is happening... ");
    assert_eq!(text(panels[0].bottom.as_ref().unwrap()), " Please wait ");
    assert_eq!(panels[0].area.height, 3);
}

#[test]
fn a_box_that_is_too_high_is_not_shown() {
    let (mut app, info) = begin(&["one"]);
    app.message("\n".repeat(65533).as_str(), Next::Nop);
    assert!(app.render(whole(50, 21), &info, 0).is_none());
}

#[test]
fn the_line_for_a_server_is_shown() {
    let (mut app, mut info) = begin(&["one"]);
    app.event_handler(Event::Key(Key::Char('e')), None, &mut info, 0);
    let panels = app.render(whole(100, 20), &info, 0).unwrap();
    assert_eq!(panels.len(), 1);
    assert_eq!(panels[0].area.width, 90);
    assert_eq!(panels[0].area.height, 3);
    assert_eq!(app.editing_server.bufsize, 86);
    assert_eq!(text(&panels[0].lines[0]), " one ");
    assert_eq!(panels[0].lines[0].spans[4].style, Style::Cursor);
    assert_eq!(panels[0].scroll, (0, 3));
    assert_eq!(text(panels[0].title.as_ref().unwrap()), " Hostname ");
    assert_eq!(
        text(panels[0].bottom.as_ref().unwrap()),
        " Confirm <Enter>  Cancel <Esc>  "
    );
    let before = app.editing_server.bufsize;
    assert!(app.new_panels(3, whole(3, 3)).is_none());
    assert_eq!(app.editing_server.bufsize, before);
    app.editing_server.cursor_pos = 9;
    assert!(app.new_panels(50, whole(50, 3)).is_none());
    assert_eq!(app.editing_server.bufsize, before);
}

#[test]
fn the_login_screen_is_shown() {
    let (mut app, mut info) = logging_in();
    for key in [Key::Char('a'), Key::Tab, Key::Char('p'), Key::Char('q')] {
        app.event_handler(Event::Key(key), None, &mut info, 0);
    }
    let panels = app.render(whole(100, 20), &info, 0).unwrap();
    assert_eq!(panels.len(), 3);
    assert_eq!(
        texts(&panels[0]),
        vec!["Enter login credentials. Accounts that do not exist are automatically created."]
    );
    assert_eq!(text(&panels[1].lines[0]), " a ");
    assert_eq!(text(&panels[2].lines[0]), " ** ");
    assert_eq!(text(panels[1].title.as_ref().unwrap()), " Username ");
    assert!(panels[1].bottom.is_none());
    assert_eq!(text(panels[2].bottom.as_ref().unwrap()), " Log in <Enter>  Cancel <Esc> ");
    assert_eq!(app.login.username.bufsize, 86);
    assert_eq!(app.login.password.bufsize, 86);
    app.selected_login_field = LoginField::Username;
    let panels = app.login_panels(20, whole(1, 1), whole(1, 1), whole(1, 1)).unwrap();
    assert_eq!(
        text(panels[2].bottom.as_ref().unwrap()),
        " Go to password field <Enter>  Cancel <Esc> "
    );
    assert!(app.login_panels(3, whole(1, 1), whole(1, 1), whole(1, 1)).is_none());
    assert_eq!(app.login.username.bufsize, 16);
}

#[test]
fn the_channels_are_shown() {
    let (mut app, _) = chatting(2);
    let panels = app.chat_panels(areas(), &stamps(2), "today 12:00:00").unwrap();
    assert_eq!(panels.len(), 5);
    assert_eq!(
        texts(&panels[0]),
        vec![
            " 00:00:00  ann ",
            "     text ",
            " 01:00:00  ann  [ \u{f17ab} ann: text] ",
            "     text "
        ]
    );
    assert_eq!(text(panels[0].title.as_ref().unwrap()), " host #general ");
    assert_eq!(panels[0].scroll, (0, 0));
    assert_eq!(texts(&panels[1]), vec![" #general ", " #dev "]);
    assert!(panels[1].lines[0].marked && !panels[1].lines[1].marked);
    assert_eq!(
        texts(&panels[2]),
        vec![
            " tab     Enter typing mode",
            " page up Previous channel",
            " page dn Next channel",
            " up/down Select message",
            " esc     Leave server",
            " t       Toggle sidebar"
        ]
    );
    assert_eq!(panels[2].lines[0].spans[0].style, Style::Cyan);
    assert_eq!(text(&panels[3].lines[0]), " New message... ");
    assert_eq!(text(panels[3].title.as_ref().unwrap()), " today 12:00:00 ");
    assert!(panels[3].bottom.is_none());
    assert_eq!(texts(&panels[4]), vec![" ann"]);
    assert_eq!(text(panels[4].title.as_ref().unwrap()), " Connected Users ");
    assert_eq!(app.new_message_bufs.get("general").unwrap().bufsize, 56);
    assert_eq!(app.new_message_bufs.get("dev").unwrap().bufsize, 56);
}

#[test]
fn the_sidebar_can_be_hidden() {
    let (mut app, _) = chatting(0);
    app.sidebar = false;
    let panels = app.chat_panels(areas(), &stamps(0), "c").unwrap();
    assert_eq!(panels.len(), 3);
    let mut narrow = areas();
    narrow.input.width = 1;
    assert_eq!(app.chat_panels(narrow, &stamps(0), "c").unwrap().len(), 1);
    narrow.messages.width = 3;
    assert!(app.chat_panels(narrow, &stamps(0), "c").is_none());
}

#[test]
fn hints_follow_the_selection() {
    let (mut app, mut info) = chatting(2);
    app.event_handler(Event::Key(Key::Up), None, &mut info, 0);
    let hints = app.chat_hints();
    let keys: Vec<&str> = hints.iter().map(|h| h.1.as_str()).collect();
    assert_eq!(keys, vec!["tab", "page up", "page dn", "up/down", "esc", "t", "r", "d", "c", "o"]);
    app.replying_to = Some(2);
    app.event_handler(Event::Key(Key::Up), None, &mut info, 0);
    let hints = app.chat_hints();
    assert_eq!(hints.len(), 9);
    assert_eq!(hints[6], ("Unreply to selected".to_string(), "u".to_string()));
    app.selected_connected_field = ConnectedField::Typing;
    let hints = app.chat_hints();
    assert_eq!(hints.len(), 6);
    assert_eq!(hints[5], ("DOES NOT COPY!".to_string(), "CTRL-C".to_string()));
}

#[test]
fn the_footer_names_the_message() {
    let (mut app, mut info) = chatting(3);
    app.event_handler(Event::Key(Key::Up), None, &mut info, 0);
    let panels = app.chat_panels(areas(), &stamps(3), "c").unwrap();
    assert_eq!(
        text(panels[3].bottom.as_ref().unwrap()),
        " Selected from ann on day 02:00:00 "
    );
    app.replying_to = Some(2);
    let panels = app.chat_panels(areas(), &stamps(3), "c").unwrap();
    assert_eq!(
        text(panels[3].bottom.as_ref().unwrap()),
        " Replying to ann on day 01:00:00 "
    );
    app.replying_to = Some(77);
    let panels = app.chat_panels(areas(), &stamps(3), "c").unwrap();
    assert_eq!(text(panels[3].bottom.as_ref().unwrap()), " Replying to [unloaded message] ");
}

#[test]
fn many_messages_are_scrolled() {
    let (mut app, mut info) = chatting(9);
    let panels = app.chat_panels(areas(), &stamps(9), "c").unwrap();
    assert_eq!(panels[0].lines.len(), 18);
    assert_eq!(panels[0].scroll, (18 - 8 + 2, 0));
    for _ in 0..8 {
        app.event_handler(Event::Key(Key::Up), None, &mut info, 0);
    }
    assert_eq!(app.selected_msg_idcs.get("general"), Some(&Some(1)));
    let panels = app.chat_panels(areas(), &stamps(9), "c").unwrap();
    assert_eq!(panels[0].scroll, (2, 0));
    assert!(panels[0].lines[2].marked && panels[0].lines[3].marked && !panels[0].lines[4].marked);
    app.event_handler(Event::Key(Key::Down), None, &mut info, 0);
    let panels = app.chat_panels(areas(), &stamps(9), "c").unwrap();
    assert_eq!(panels[0].scroll, (4, 0));
}

#[test]
fn the_selected_message_is_in_sight() {
    let (mut app, mut info) = chatting(9);
    for i in (0..9usize).rev() {
        app.event_handler(Event::Key(Key::Up), None, &mut info, 0);
        let panels = app.chat_panels(areas(), &stamps(9), "c").unwrap();
        let offset = panels[0].scroll.0 as usize;
        assert!(offset <= 2 * i && 2 * i < offset + 6);
        assert!(panels[0].lines[2 * i].marked);
    }
}

#[test]
fn a_whole_screen_is_rendered() {
    let (mut app, info) = chatting(2);
    let panels = app.render(whole(200, 50), &info, 1700000000).unwrap();
    assert_eq!(panels.len(), 5);
    assert_eq!(panels[0].lines.len(), 4);
    assert_eq!(panels[4].area.height, 50);
    assert_eq!(panels[0].area.x, panels[3].area.x);
    assert_eq!(panels[0].area.width, panels[3].area.width);
    assert_eq!(panels[3].area.height, 3);
    assert_eq!(panels[2].area.height, 8);
    assert!(text(panels[3].title.as_ref().unwrap()).starts_with(" 2023-11-1"));
    assert!(app.render(whole(4, 4), &info, 1700000000).is_none());
    assert!(app.render(whole(200, 50), &info, 8210266876800).is_none());
    app.selected_channel = None;
    assert!(app.render(whole(200, 50), &info, 1700000000).is_none());
}

#[test]
fn a_time_beyond_the_calendar_is_not_rendered() {
    let (mut app, info) = chatting(1);
    assert!(app.chat_showable(5));
    app.add_msg_to_current_channel(Msg {
        msg: "x".to_string(),
        id: 50,
        user: "ann".to_string(),
        time: 8210266876800,
        replying_to: None,
        _type: MsgType::Text,
    });
    assert!(!app.chat_showable(5));
    assert!(app.render(whole(200, 50), &info, 5).is_none());
    assert_eq!(app.screen, Screen::Connected);
}

#[test]
fn a_lost_cursor_is_not_drawn() {
    let (mut app, _) = chatting(0);
    let mut line = InputBuffer::from("abc".to_string(), 1);
    line.buf = "a".to_string();
    app.new_message_bufs.insert("general", line);
    app.selected_connected_field = ConnectedField::Typing;
    assert!(app.chat_panels(areas(), &stamps(0), "c").is_none());
}

#[test]
fn bits_fall_behind_the_screen() {
    let (mut app, info) = begin(&["one"]);
    app.config.matrix_background = true;
    let before = app.chars_matrix.clone();
    let panels = app.render(whole(80, 10), &info, 0).unwrap();
    assert_eq!(panels.len(), 3);
    assert_eq!(app.chars_matrix.len(), before.len());
    assert_eq!(app.chars_matrix[..9], before[1..]);
    assert_eq!(panels[0].lines.len(), 10);
    for (i, line) in panels[0].lines.iter().enumerate() {
        for (j, cell) in line.spans.iter().enumerate() {
            assert_eq!(cell.text.chars().count(), 2);
            if app.chars_matrix[9 - i][j] {
                assert_eq!(cell.style, Style::Green);
                assert!("0123456789abcdef".contains(cell.text.chars().next().unwrap()));
            } else {
                assert_eq!(cell.text, "  ");
            }
        }
    }
    assert_eq!(panels[0].area, whole(80, 10));
    assert!(!panels[0].bordered);
}

#[test]
fn a_notice_is_rendered_over_any_screen() {
    let (mut app, _) = begin(&["one"]);
    app.config.matrix_background = true;
    let panels = app.render_notice("wait", false, whole(50, 21)).unwrap();
    assert_eq!(panels.len(), 2);
    assert_eq!(texts(&panels[1]), vec!["wait"]);
    assert_eq!(text(panels[1].title.as_ref().unwrap()), " Stuff is happening... ");
    assert_eq!(app.screen, Screen::Selection);
    app.config.matrix_background = false;
    let panels = app.render_notice("done", true, whole(50, 21)).unwrap();
    assert_eq!(panels.len(), 1);
    assert_eq!(text(panels[0].title.as_ref().unwrap()), " Stuff has happened ");
    assert_eq!(app.status_text, "");
}

#[test]
fn an_empty_line_of_a_notice_has_no_piece() {
    let (mut app, info) = begin(&["one"]);
    app.message("a\n\nb", Next::Nop);
    let panels = app.render(whole(50, 21), &info, 0).unwrap();
    assert_eq!(panels[0].lines.len(), 3);
    assert_eq!(panels[0].lines[0].spans.len(), 1);
    assert!(panels[0].lines[1].spans.is_empty());
}

#[test]
fn names_with_line_feeds_are_broken() {
    let (mut app, _) = chatting(0);
    app.current_server.connected_users = vec!["x\ny".to_string()];
    let panels = app.chat_panels(areas(), &stamps(0), "c").unwrap();
    let pieces: Vec<&str> = panels[4].lines[0].spans.iter().map(|s| s.text.as_str()).collect();
    assert_eq!(pieces, vec![" x", "y"]);
}
