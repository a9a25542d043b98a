use volt_client::clock::{is_showable_time, strip_zone, timestamp_str};
use volt_client::matrix::{new_col, new_matrix, new_row, push_row};
use volt_client::events::resize;
use volt_client::names::NameMap;
use volt_client::text::{bytes_in, chars_of, is_boundary, same_text};
use volt_client::words::{
    count_char, decimal_text, join, lines, pad, parse_u64, remove_all, split, trim,
};
use volt_client::wrap::{chunks, cut_text, words_of, wrap};

#[test]
fn texts_are_measured_in_bytes() {
    assert_eq!(bytes_in("aé…"), 6);
    assert_eq!(chars_of("aé…"), vec!['a', 'é', '…']);
    assert!(is_boundary("aé", 1));
    assert!(!is_boundary("aé", 2));
    assert!(is_boundary("aé", 3));
    assert!(!is_boundary("aé", 4));
    assert!(same_text("abc", "abc"));
    assert!(!same_text("abc", "abd"));
}

#[test]
fn texts_are_split_and_joined() {
    assert_eq!(split("a b  c", ' '), vec!["a", "b", "", "c"]);
    assert_eq!(split("", ' '), vec![""]);
    assert_eq!(split(" ", ' '), vec!["", ""]);
    let words = vec!["a".to_string(), "b".to_string()];
    assert_eq!(join(&words, ", "), "a, b");
    assert_eq!(join(&vec![], ", "), "");
}

#[test]
fn characters_are_counted_and_removed() {
    assert_eq!(count_char("a\nb\n", '\n'), 2);
    assert_eq!(remove_all("\"a\"b\"", '"'), "ab");
}

#[test]
fn white_space_is_trimmed() {
    assert_eq!(trim("  a b\t\n"), "a b");
    assert_eq!(trim("\u{3000}x\u{a0}"), "x");
    assert_eq!(trim(" \t "), "");
    assert_eq!(trim("x"), "x");
}

#[test]
fn texts_are_padded() {
    assert_eq!(pad("12ms", 7), "12ms   ");
    assert_eq!(pad("12345678", 7), "12345678");
}

#[test]
fn numbers_are_written_and_read() {
    assert_eq!(decimal_text(0), "0");
    assert_eq!(decimal_text(18446744073709551615), "18446744073709551615");
    assert_eq!(parse_u64("18446744073709551615"), Some(u64::MAX));
    assert_eq!(parse_u64("18446744073709551616"), None);
    assert_eq!(parse_u64("+5"), Some(5));
    assert_eq!(parse_u64("007"), Some(7));
    assert_eq!(parse_u64(""), None);
    assert_eq!(parse_u64("+"), None);
    assert_eq!(parse_u64("-1"), None);
    assert_eq!(parse_u64("1a"), None);
}

#[test]
fn written_numbers_read_back() {
    for n in [0u64, 9, 10, 1700000000000, u64::MAX] {
        assert_eq!(parse_u64(decimal_text(n as u128).as_str()), Some(n));
    }
}

#[test]
fn a_name_map_holds_one_value_for_a_name() {
    let mut map: NameMap<u8> = NameMap::new();
    assert!(!map.contains("a"));
    map.insert("a", 1);
    map.insert("b", 2);
    map.insert("a", 3);
    assert_eq!(map.get("a"), Some(&3));
    assert_eq!(map.get("b"), Some(&2));
    assert_eq!(map.get("c"), None);
    if let Some(v) = map.get_mut("b") {
        *v = 7;
    }
    assert_eq!(map.get("b"), Some(&7));
    assert_eq!(map.entries.len(), 2);
}

#[test]
fn times_read_as_date_and_clock() {
    let text = timestamp_str(1700000000);
    let parts = split(text.as_str(), ' ');
    assert_eq!(parts.len(), 2);
    assert!(parts[0].starts_with("2023-11-1"));
    assert_eq!(parts[1].len(), 8);
    assert_ne!(timestamp_str(0), timestamp_str(86400 * 30));
}

#[test]
fn times_beyond_the_calendar_are_refused() {
    assert!(is_showable_time(8210266876799));
    assert!(!is_showable_time(8210266876800));
    assert!(!is_showable_time(18446735739108322815));
    assert!(is_showable_time(18446735739108322816));
    assert!(is_showable_time(u64::MAX));
    assert!(timestamp_str(8210266876799).starts_with("+262"));
    assert!(timestamp_str(u64::MAX).starts_with("19"));
}

#[test]
fn the_zone_is_stripped() {
    assert_eq!(strip_zone("2024-01-01 10:00:00 +02:00"), "2024-01-01 10:00:00");
    assert_eq!(strip_zone("abc"), "abc");
}

#[test]
fn rows_flip_where_they_are_told() {
    let mut rows = vec![vec![true, false], vec![false, false]];
    push_row(&mut rows, &vec![true, false], false);
    assert_eq!(rows, vec![vec![true, false], vec![false, false], vec![true, false]]);
    push_row(&mut rows, &vec![false, true], true);
    assert_eq!(rows, vec![vec![false, false], vec![true, false], vec![true, true]]);
}

#[test]
fn rows_and_columns_are_added() {
    let mut rows = new_matrix(4, 3);
    assert_eq!(rows.len(), 3);
    assert!(rows.iter().all(|r| r.len() == 4));
    new_row(&mut rows, true);
    assert_eq!(rows.len(), 3);
    new_row(&mut rows, false);
    assert_eq!(rows.len(), 4);
    new_col(&mut rows);
    assert!(rows.iter().all(|r| r.len() == 5 && !r[4]));
    assert_eq!(new_matrix(2, 0).len(), 1);
}

#[test]
fn chance_bits_differ() {
    let rows = new_matrix(2000, 2);
    assert!(rows[0].iter().any(|b| *b));
    assert!(rows[0].iter().any(|b| !*b));
    let flips = rows[0].iter().zip(rows[1].iter()).filter(|(a, b)| a != b).count();
    assert!(flips > 50 && flips < 500);
}

#[test]
fn the_background_grows_with_the_terminal() {
    let mut rows = vec![vec![true, true], vec![false, true]];
    resize(&mut rows, 9, 4);
    assert_eq!(rows.len(), 4);
    assert!(rows.iter().all(|r| r.len() == 4));
    assert_eq!(rows[0], vec![true, true, false, false]);
    assert_eq!(rows[1], vec![false, true, false, false]);
    resize(&mut rows, 2, 1);
    assert_eq!(rows.len(), 4);
    assert!(rows.iter().all(|r| r.len() == 4));
}

#[test]
fn long_words_are_broken_between_clusters() {
    assert_eq!(words_of("abcdefg hi", 3), vec!["abc", "def", "g", "hi"]);
    assert_eq!(words_of("e\u{301}e\u{301}", 1), vec!["e\u{301}", "e\u{301}"]);
    assert_eq!(words_of("", 3), Vec::<String>::new());
}

#[test]
fn words_are_wrapped() {
    let words = words_of("one two three four", 12);
    let lines = wrap(&words, 12).unwrap();
    assert_eq!(lines, vec!["     one ", "     two three four "]);
}

#[test]
fn a_first_word_without_room_leaves_an_empty_line() {
    let words = words_of("abcdefgh", 10);
    assert_eq!(wrap(&words, 10).unwrap(), vec!["      ", "     abcdefgh "]);
}

#[test]
fn lines_that_are_too_long_are_cut() {
    let many: Vec<String> = "a a a a a a a a a bbbbbbbbbb".split(' ').map(|w| w.to_string()).collect();
    let cut = wrap(&many, 10).unwrap();
    assert_eq!(cut.len(), 3);
    assert_eq!(cut[0], "     a a ");
    assert_eq!(cut[1], "     a a a a a… ");
    assert_eq!(cut[2], "     bbbbbbbbbb ");
}

#[test]
fn a_cut_inside_a_character_is_refused() {
    assert_eq!(cut_text("aéb", 1), Some("a…".to_string()));
    assert_eq!(cut_text("aéb", 2), None);
}

#[test]
fn wrapped_lines_keep_every_character() {
    let text = "the quick brown fox";
    let words = words_of(text, 20);
    let lines = wrap(&words, 20).unwrap();
    let kept: String = lines.concat().chars().filter(|c| *c != ' ').collect();
    let typed: String = text.chars().filter(|c| *c != ' ').collect();
    assert_eq!(kept, typed);
}

#[test]
fn clusters_are_put_together() {
    let clusters: Vec<String> = ["a", "b", "c", "d", "e"].iter().map(|c| c.to_string()).collect();
    assert_eq!(chunks(&clusters, 2), vec!["ab", "cd", "e"]);
    assert_eq!(chunks(&clusters, 9), vec!["abcde"]);
    assert!(chunks(&vec![], 2).is_empty());
    assert!(words_of("  ", 3).is_empty());
}

#[test]
fn texts_have_lines() {
    assert_eq!(lines("a\nb"), vec!["a", "b"]);
    assert_eq!(lines("a\r\nb\n"), vec!["a", "b"]);
    assert_eq!(lines("a\r\r\n\n\rb\r"), vec!["a\r", "", "\rb\r"]);
    assert_eq!(lines("\n"), vec![""]);
    assert!(lines("").is_empty());
    for text in ["", "x", "\n", "x\n\ny", "\r\n", "a\rb\r\nc\r", "\n\n"] {
        assert_eq!(lines(text), text.lines().map(|l| l.to_string()).collect::<Vec<_>>());
    }
}
