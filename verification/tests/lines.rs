use volt_client::input::{InputBuffer, Key};
use volt_client::style::Style;

fn type_text(line: &mut InputBuffer, text: &str) {
    for c in text.chars() {
        assert!(line.can_press(Key::Char(c)));
        line.press(Key::Char(c));
    }
}

#[test]
fn typed_text_is_held() {
    let mut line = InputBuffer::new(10);
    type_text(&mut line, "hello");
    assert_eq!(line.buf, "hello");
    assert_eq!(line.cursor_pos, 5);
    assert_eq!(line.scroll_offset, 0);
}

#[test]
fn cursor_scrolls_the_window() {
    let mut line = InputBuffer::new(3);
    type_text(&mut line, "abcde");
    assert_eq!(line.cursor_pos, 5);
    assert_eq!(line.scroll_offset, 3);
    for _ in 0..3 {
        line.press(Key::Left);
    }
    assert_eq!(line.cursor_pos, 2);
    assert_eq!(line.scroll_offset, 2);
    line.press(Key::Left);
    line.press(Key::Left);
    line.press(Key::Left);
    assert_eq!(line.cursor_pos, 0);
    assert_eq!(line.scroll_offset, 0);
}

#[test]
fn characters_go_in_at_the_cursor() {
    let mut line = InputBuffer::new(10);
    type_text(&mut line, "ac");
    line.press(Key::Left);
    type_text(&mut line, "b");
    assert_eq!(line.buf, "abc");
    assert_eq!(line.cursor_pos, 2);
}

#[test]
fn backspace_takes_back_the_last_character() {
    let mut line = InputBuffer::new(10);
    type_text(&mut line, "abc");
    line.press(Key::Char('d'));
    line.press(Key::Backspace);
    assert_eq!(line.buf, "abc");
    assert_eq!(line.cursor_pos, 3);
}

#[test]
fn backspace_on_the_last_byte_takes_the_last_character() {
    let mut line = InputBuffer::new(10);
    type_text(&mut line, "abc");
    line.press(Key::Left);
    line.press(Key::Backspace);
    assert_eq!(line.buf, "ab");
    assert_eq!(line.cursor_pos, 1);
    line.press(Key::Left);
    line.press(Key::Backspace);
    assert_eq!(line.buf, "ab");
}

#[test]
fn backspace_in_the_middle_takes_the_character_before() {
    let mut line = InputBuffer::new(10);
    type_text(&mut line, "abcd");
    line.press(Key::Left);
    line.press(Key::Left);
    line.press(Key::Backspace);
    assert_eq!(line.buf, "acd");
    assert_eq!(line.cursor_pos, 1);
}

#[test]
fn delete_takes_the_character_under_the_cursor() {
    let mut line = InputBuffer::new(10);
    type_text(&mut line, "abc");
    line.press(Key::Delete);
    assert_eq!(line.buf, "abc");
    line.press(Key::Left);
    line.press(Key::Delete);
    assert_eq!(line.buf, "ab");
    line.press(Key::Left);
    line.press(Key::Left);
    line.press(Key::Delete);
    assert_eq!(line.buf, "b");
    assert_eq!(line.cursor_pos, 0);
}

#[test]
fn left_takes_back_right() {
    let mut line = InputBuffer::from("abc".to_string(), 5);
    assert_eq!(line.cursor_pos, 3);
    assert_eq!(line.scroll_offset, 3);
    line.press(Key::Left);
    let at = line.cursor_pos;
    line.press(Key::Right);
    line.press(Key::Left);
    assert_eq!(line.cursor_pos, at);
    assert_eq!(line.buf, "abc");
}

#[test]
fn a_wide_character_leaves_the_cursor_inside_it() {
    let mut line = InputBuffer::new(10);
    line.press(Key::Char('é'));
    assert_eq!(line.cursor_pos, 1);
    assert!(!line.can_press(Key::Char('x')));
    assert!(line.can_press(Key::Backspace));
    line.press(Key::Backspace);
    assert_eq!(line.buf, "");
    assert_eq!(line.cursor_pos, 0);
}

#[test]
fn clear_empties_the_line() {
    let mut line = InputBuffer::from("abc".to_string(), 4);
    line.clear();
    assert_eq!(line.buf, "");
    assert_eq!(line.bufsize, 4);
    assert_eq!(line.cursor_pos, 0);
    assert_eq!(line.scroll_offset, 0);
}

#[test]
fn a_line_is_drawn_with_its_cursor() {
    let line = InputBuffer::from("ab".to_string(), 10);
    let (shown, scroll) = line.draw(true, None);
    let texts: Vec<&str> = shown.spans.iter().map(|s| s.text.as_str()).collect();
    assert_eq!(texts, vec![" ", "a", "b", " "]);
    assert_eq!(shown.spans[3].style, Style::Cursor);
    assert_eq!(shown.spans[1].style, Style::Plain);
    assert_eq!(scroll, 2);
    let (unfocused, _) = line.draw(false, None);
    assert!(unfocused.spans.iter().all(|s| s.style == Style::Plain));
}

#[test]
fn an_empty_line_shows_its_placeholder() {
    let line = InputBuffer::new(10);
    let (shown, _) = line.draw(false, Some("hi".to_string()));
    let texts: Vec<&str> = shown.spans.iter().map(|s| s.text.as_str()).collect();
    assert_eq!(texts, vec![" ", "h", "i", " "]);
    assert_eq!(shown.spans[1].style, Style::DarkGray);
}

#[test]
fn a_line_without_cells_shows_nothing() {
    let line = InputBuffer::from("abc".to_string(), 0);
    assert!(line.draw(true, None).0.spans.is_empty());
    assert!(line.draw_masked(true).spans.is_empty());
}

#[test]
fn a_cursor_beyond_the_cells_cannot_be_drawn() {
    let mut line = InputBuffer::from("abc".to_string(), 5);
    line.buf = "a".to_string();
    assert!(!line.can_draw(true, ""));
    assert!(line.can_draw(false, ""));
    assert!(!line.can_draw_masked(true));
}

#[test]
fn a_masked_line_hides_its_characters() {
    let a = InputBuffer::from("secret".to_string(), 10);
    let b = InputBuffer::from("public".to_string(), 10);
    let x: Vec<String> = a.draw_masked(true).spans.into_iter().map(|s| s.text).collect();
    let y: Vec<String> = b.draw_masked(true).spans.into_iter().map(|s| s.text).collect();
    assert_eq!(x, y);
    assert_eq!(x.concat(), " ****** ");
}

#[test]
fn backspace_takes_back_a_character_typed_inside() {
    let mut line = InputBuffer::new(10);
    type_text(&mut line, "abcd");
    line.press(Key::Left);
    line.press(Key::Left);
    line.press(Key::Char('x'));
    assert_eq!(line.buf, "abxcd");
    line.press(Key::Backspace);
    assert_eq!(line.buf, "abcd");
    assert_eq!(line.cursor_pos, 2);
    line.press(Key::Right);
    line.press(Key::Char('x'));
    line.press(Key::Backspace);
    assert_eq!(line.buf, "abcx");
}
