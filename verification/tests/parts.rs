use rust_prompt::catalog::{column_widths, insert_entry, matching_entries, pair_le, text_le};
use rust_prompt::history::History;
use rust_prompt::screen::{
    put_description_colors, put_goto, put_reset_colors, put_trigger_colors, saturate,
    saturating_sum, Screen,
};
use rust_prompt::terminal::draw::{
    anchor, put_chars, put_clear_below, put_full_line, put_line_breaks, put_overlay_row,
    put_prompt_line,
};
use rust_prompt::text::{char_is_whitespace, from_chars, has_prefix, push_padded, push_spaces, to_chars, trim};

fn chars(s: &str) -> Vec<char> {
    s.chars().collect()
}

fn pair(a: &str, b: &str) -> (String, String) {
    (a.to_string(), b.to_string())
}

#[test]
fn history_appends_unless_the_last_line_repeats() {
    let mut h = History::new();
    assert!(h.append_if_changed("a".to_string()));
    assert!(!h.append_if_changed("a".to_string()));
    assert_eq!(h.len(), 1);
    let mut h = History::new();
    assert!(h.append_if_changed("a".to_string()));
    assert!(h.append_if_changed("b".to_string()));
    assert!(h.append_if_changed("a".to_string()));
    assert_eq!(h.len(), 3);
    assert_eq!(h.get(0), "a");
    assert_eq!(h.get(1), "b");
    assert_eq!(h.entry(2), Some("a".to_string()));
    assert_eq!(h.entry(3), None);
}

#[test]
fn an_empty_history_takes_any_line() {
    let mut h = History::new();
    assert_eq!(h.len(), 0);
    assert!(h.append_if_changed("".to_string()));
    assert_eq!(h.len(), 1);
    assert!(!h.append_if_changed("".to_string()));
}

#[test]
fn trim_removes_unicode_whitespace_at_both_ends() {
    assert_eq!(trim(&chars("  ls -la \t\r\n")), "ls -la");
    assert_eq!(trim(&chars("\u{a0}\u{2003}x y\u{3000}\u{85}")), "x y");
    assert_eq!(trim(&chars("")), "");
    assert_eq!(trim(&chars(" \t ")), "");
    assert_eq!(trim(&chars("a")), "a");
    assert_eq!(trim(&chars("\u{200b}a\u{200b}")), "\u{200b}a\u{200b}");
}

#[test]
fn whitespace_is_what_std_calls_whitespace() {
    let mut c = 0u32;
    while c <= 0x3100 {
        if let Some(ch) = char::from_u32(c) {
            assert_eq!(char_is_whitespace(ch), ch.is_whitespace(), "{:x}", c);
        }
        c += 1;
    }
}

#[test]
fn characters_convert_both_ways() {
    let v = to_chars("h\u{e9}llo \u{4e2d}");
    assert_eq!(v, chars("h\u{e9}llo \u{4e2d}"));
    assert_eq!(from_chars(&v, 1, 5), "\u{e9}llo");
    assert_eq!(from_chars(&v, 2, 2), "");
    assert_eq!(to_chars(""), Vec::<char>::new());
}

#[test]
fn prefixes_are_told() {
    assert!(has_prefix(&chars("help"), &chars("he")));
    assert!(has_prefix(&chars("help"), &chars("")));
    assert!(has_prefix(&chars("help"), &chars("help")));
    assert!(!has_prefix(&chars("help"), &chars("helps")));
    assert!(!has_prefix(&chars("help"), &chars("hex")));
    assert!(!has_prefix(&chars(""), &chars("h")));
}

#[test]
fn padding_reaches_the_width_and_two() {
    let mut s = String::from("[");
    push_padded(&mut s, "ab", 4);
    assert_eq!(s, "[ab    ");
    push_padded(&mut s, "", 0);
    assert_eq!(s, "[ab      ");
    push_spaces(&mut s, 0);
    push_spaces(&mut s, 3);
    assert_eq!(s, "[ab         ");
    // A text longer than the width is padded up to the width and two, or
    // not at all.
    let mut s = String::new();
    push_padded(&mut s, "abc", 2);
    assert_eq!(s, "abc ");
    assert_eq!(s, format!("{:<4}", "abc"));
    push_padded(&mut s, "abcd", 2);
    push_padded(&mut s, "abcde", 2);
    assert_eq!(s, "abc abcdabcde");
}

#[test]
fn texts_are_ordered_as_in_the_dictionary() {
    assert!(text_le(&chars(""), &chars("")));
    assert!(text_le(&chars(""), &chars("a")));
    assert!(!text_le(&chars("a"), &chars("")));
    assert!(text_le(&chars("help"), &chars("helps")));
    assert!(!text_le(&chars("helps"), &chars("help")));
    assert!(text_le(&chars("help"), &chars("quit")));
    assert!(!text_le(&chars("quit"), &chars("help")));
    assert!(text_le(&chars("Z"), &chars("a")));
    assert!(text_le(&chars("z"), &chars("\u{e9}")));
    assert!(text_le(&chars("same"), &chars("same")));
}

#[test]
fn entries_are_ordered_by_trigger_then_description() {
    assert!(pair_le(&pair("a", "z"), &pair("b", "a")));
    assert!(!pair_le(&pair("b", "a"), &pair("a", "z")));
    assert!(pair_le(&pair("a", "x"), &pair("a", "y")));
    assert!(!pair_le(&pair("a", "y"), &pair("a", "x")));
    assert!(pair_le(&pair("a", "x"), &pair("a", "x")));
}

#[test]
fn an_entry_goes_behind_those_that_do_not_come_after_it() {
    let mut catalog: Vec<(String, String)> = Vec::new();
    for (k, v) in [("quit", "2"), ("help", "1"), ("ssh", "3"), ("help", "0"), ("help", "1")] {
        insert_entry(&mut catalog, pair(k, v));
    }
    let mut sorted = catalog.clone();
    sorted.sort();
    assert_eq!(catalog, sorted);
    assert_eq!(
        catalog,
        vec![pair("help", "0"), pair("help", "1"), pair("help", "1"), pair("quit", "2"), pair("ssh", "3")]
    );
}

#[test]
fn matching_entries_keep_the_order_of_the_catalog() {
    let catalog = vec![pair("he", "a"), pair("help", "b"), pair("quit", "c"), pair("hex", "d")];
    assert_eq!(
        matching_entries(&catalog, &chars("he")),
        vec![pair("he", "a"), pair("help", "b"), pair("hex", "d")]
    );
    assert_eq!(matching_entries(&catalog, &chars("")), catalog);
    assert!(matching_entries(&catalog, &chars("x")).is_empty());
    assert!(matching_entries(&Vec::new(), &chars("")).is_empty());
}

#[test]
fn column_widths_are_those_of_the_longest() {
    let list = vec![pair("he", "abcde"), pair("help", "b"), pair("\u{e9}\u{e9}\u{e9}", "")];
    assert_eq!(column_widths(&list), (4, 5));
    assert_eq!(column_widths(&Vec::new()), (0, 0));
}

#[test]
fn coordinates_saturate() {
    assert_eq!(saturate(0), 0);
    assert_eq!(saturate(65534), 65534);
    assert_eq!(saturate(65535), 65535);
    assert_eq!(saturate(65536), 65535);
    assert_eq!(saturate(usize::MAX), 65535);
    assert_eq!(saturating_sum(1, 2, 3), 6);
    assert_eq!(saturating_sum(65535, 65535, usize::MAX), 65535);
    assert_eq!(saturating_sum(65000, 500, 34), 65534);
    assert_eq!(saturating_sum(65000, 500, 35), 65535);
}

#[test]
fn goto_writes_row_then_column_in_decimal() {
    let mut s = String::from("x");
    put_goto(&mut s, 5, 3);
    assert_eq!(s, "x\x1b[3;5H");
    let mut s = String::new();
    put_goto(&mut s, 0, 10);
    put_goto(&mut s, 65535, 100);
    put_goto(&mut s, 1, 9);
    assert_eq!(s, "\x1b[10;0H\x1b[100;65535H\x1b[9;1H");
}

#[test]
fn colours_are_the_ansi_sequences() {
    let mut s = String::new();
    put_trigger_colors(&mut s);
    assert_eq!(s, "\x1b[38;5;7m\x1b[48;5;12m");
    let mut s = String::new();
    put_description_colors(&mut s);
    assert_eq!(s, "\x1b[38;5;0m\x1b[48;5;6m");
    let mut s = String::new();
    put_reset_colors(&mut s);
    assert_eq!(s, "\x1b[39m\x1b[49m");
}

#[test]
fn lines_are_drawn_behind_the_prompt() {
    let mut s = String::new();
    put_prompt_line(&mut s, ">>> ", 7);
    assert_eq!(s, "\x1b[2K\x1b[7;1H>>> ");
    let mut s = String::new();
    put_full_line(&mut s, "$ ", &chars("abc"), 12);
    assert_eq!(s, "\x1b[2K\x1b[12;1H$ abc");
    let mut s = String::new();
    put_chars(&mut s, &chars("abcdef"), 4);
    put_chars(&mut s, &chars("abcdef"), 6);
    assert_eq!(s, "ef");
    let mut s = String::new();
    put_line_breaks(&mut s, 0);
    assert_eq!(s, "");
    put_line_breaks(&mut s, 3);
    assert_eq!(s, "\r\n\r\n\r\n");
}

#[test]
fn rows_below_are_blanked_from_the_top() {
    let mut s = String::new();
    put_clear_below(&mut s, 9, Screen { row: 2, height: 4 });
    assert_eq!(s, "\x1b[3;1H\x1b[2K\x1b[4;1H\x1b[2K\x1b[2;9H");
    let mut s = String::new();
    put_clear_below(&mut s, 9, Screen { row: 4, height: 4 });
    assert_eq!(s, "\x1b[4;9H");
    let mut s = String::new();
    put_clear_below(&mut s, 9, Screen { row: 7, height: 4 });
    assert_eq!(s, "\x1b[7;9H");
}

#[test]
fn an_overlay_row_pads_both_columns() {
    let mut s = String::new();
    put_overlay_row(&mut s, &pair("ab", "c"), false, 3, 2);
    assert_eq!(s, "\x1b[38;5;7m\x1b[48;5;12m ab   \x1b[38;5;0m\x1b[48;5;6m  c   \x1b[39m\x1b[49m\r\n");
    let mut s = String::new();
    put_overlay_row(&mut s, &pair("ab", "c"), true, 2, 1);
    assert_eq!(s, "\x1b[38;5;0m\x1b[48;5;6m ab  \x1b[38;5;7m\x1b[48;5;12m  c  \x1b[39m\x1b[49m\r\n");
    let mut s = String::new();
    put_overlay_row(&mut s, &pair("abcd", "xyz"), false, 0, 2);
    assert_eq!(
        s,
        format!(
            "\x1b[38;5;7m\x1b[48;5;12m {:<2}\x1b[38;5;0m\x1b[48;5;6m  {:<4}\x1b[39m\x1b[49m\r\n",
            "abcd", "xyz"
        )
    );
}

#[test]
fn the_anchor_makes_room_for_the_overlay() {
    let at = |row: u16, height: u16| Screen { row, height };
    assert_eq!(anchor(at(2, 24), 2), 2);
    assert_eq!(anchor(at(21, 24), 2), 21);
    assert_eq!(anchor(at(22, 24), 2), 21);
    assert_eq!(anchor(at(24, 24), 2), 21);
    assert_eq!(anchor(at(24, 24), 22), 1);
    // The overlay and one more row fill the screen: the line moves to row 0.
    assert_eq!(anchor(at(24, 24), 23), 0);
    assert_eq!(anchor(at(1, 24), 23), 0);
    assert_eq!(anchor(at(3, 3), 2), 0);
    // They do not fit at all.
    assert_eq!(anchor(at(24, 24), 24), 0);
    assert_eq!(anchor(at(24, 24), 100), 0);
    assert_eq!(anchor(at(24, 24), 70000), 0);
    assert_eq!(anchor(at(1, 1), 1), 0);
    assert_eq!(anchor(at(0, 0), 1), 0);
    assert_eq!(anchor(at(0, 24), 2), 0);
    assert_eq!(anchor(at(1, 1), 0), 0);
    assert_eq!(anchor(at(65535, 65535), 65534), 0);
    assert_eq!(anchor(at(30, 24), 2), 21);
    assert_eq!(anchor(at(65535, 65535), 0), 65534);
}
