use rust_prompt::arguments::Flags;
use rust_prompt::command::CommandResult;
use rust_prompt::screen::Screen;
use rust_prompt::terminal::state::{Event, Key};
use rust_prompt::terminal::Terminal;

type Named = fn(Flags) -> CommandResult;
type Special = fn(String) -> CommandResult;

const CLEAR_LINE: &str = "\x1b[2K";
const TRIGGER_COLORS: &str = "\x1b[38;5;7m\x1b[48;5;12m";
const DESCRIPTION_COLORS: &str = "\x1b[38;5;0m\x1b[48;5;6m";
const RESET: &str = "\x1b[39m\x1b[49m";

fn ok(_: Flags) -> CommandResult {
    CommandResult::Success("done".to_string())
}

fn say(text: String) -> CommandResult {
    CommandResult::Success(text)
}

fn with_help_and_quit() -> Terminal<Named, Special> {
    let mut t: Terminal<Named, Special> = Terminal::new();
    t.add_command("quit", ok as Named, "d2");
    t.add_command("help", ok as Named, "d1");
    t
}

fn at(row: u16, height: u16) -> Screen {
    Screen { row, height }
}

fn press(t: &mut Terminal<Named, Special>, key: Key, screen: Screen) -> Option<String> {
    t.handle_key(Event { key, screen })
}

fn goto(x: u16, y: u16) -> String {
    format!("\x1b[{};{}H", y, x)
}

fn pair(a: &str, b: &str) -> (String, String) {
    (a.to_string(), b.to_string())
}

fn plain_row(x: u16, y: u16, trigger: &str, description: &str) -> String {
    goto(x, y) + CLEAR_LINE + TRIGGER_COLORS + " " + trigger + DESCRIPTION_COLORS + "  "
        + description + RESET + "\r\n"
}

fn chosen_row(x: u16, y: u16, trigger: &str, description: &str) -> String {
    goto(x, y) + CLEAR_LINE + DESCRIPTION_COLORS + " " + trigger + TRIGGER_COLORS + "  "
        + description + RESET + "\r\n"
}

#[test]
fn the_catalog_is_kept_in_order() {
    let mut t: Terminal<Named, Special> = Terminal::new();
    t.add_command("quit", ok as Named, "quit application");
    t.add_command("help", ok as Named, "show help information");
    t.add_special_command('!', say as Special, "run command on local system");
    t.add_command("ssh", ok as Named, "run ssh");
    t.add_command("help", ok as Named, "again");
    assert_eq!(
        t.current_suggestions(),
        vec![
            pair("!", "run command on local system"),
            pair("help", "again"),
            pair("help", "show help information"),
            pair("quit", "quit application"),
            pair("ssh", "run ssh"),
        ]
    );
}

#[test]
fn suggestions_are_filtered_by_what_was_typed() {
    let mut t = with_help_and_quit();
    let s = at(1, 24);
    assert_eq!(t.current_suggestions(), vec![pair("help", "d1"), pair("quit", "d2")]);
    press(&mut t, Key::Char('h'), s);
    press(&mut t, Key::Char('e'), s);
    assert_eq!(t.current_input(), "he");
    assert_eq!(t.current_suggestions(), vec![pair("help", "d1")]);
    press(&mut t, Key::Char('x'), s);
    assert!(t.current_suggestions().is_empty());
    press(&mut t, Key::Backspace, s);
    press(&mut t, Key::Backspace, s);
    press(&mut t, Key::Backspace, s);
    assert_eq!(t.current_suggestions().len(), 2);
}

#[test]
fn a_trigger_shorter_than_the_line_does_not_match() {
    let mut t = with_help_and_quit();
    let s = at(1, 24);
    for c in "helper".chars() {
        press(&mut t, Key::Char(c), s);
    }
    assert!(t.current_suggestions().is_empty());
}

#[test]
fn cycling_forward_stops_at_the_last_suggestion() {
    let mut t = with_help_and_quit();
    let s = at(1, 24);
    assert_eq!(t.selection(), 0);
    press(&mut t, Key::Char('\t'), s);
    assert_eq!(t.selection(), 1);
    press(&mut t, Key::Char('\t'), s);
    assert_eq!(t.selection(), 2);
    t.take_output();
    press(&mut t, Key::Char('\t'), s);
    press(&mut t, Key::Char('\t'), s);
    assert_eq!(t.selection(), 2);
    assert_eq!(t.take_output(), "");
}

#[test]
fn cycling_backward_stops_at_none() {
    let mut t = with_help_and_quit();
    let s = at(1, 24);
    press(&mut t, Key::BackTab, s);
    assert_eq!(t.selection(), 0);
    assert_eq!(t.take_output(), "");
    press(&mut t, Key::Char('\t'), s);
    press(&mut t, Key::Char('\t'), s);
    press(&mut t, Key::BackTab, s);
    assert_eq!(t.selection(), 1);
    press(&mut t, Key::BackTab, s);
    assert_eq!(t.selection(), 0);
    press(&mut t, Key::BackTab, s);
    assert_eq!(t.selection(), 0);
}

#[test]
fn cycling_without_suggestions_does_nothing() {
    let mut t: Terminal<Named, Special> = Terminal::new();
    let s = at(1, 24);
    press(&mut t, Key::Char('\t'), s);
    assert_eq!(t.selection(), 0);
    assert_eq!(t.take_output(), "");
}

#[test]
fn typing_and_deleting_reset_the_selection() {
    let mut t = with_help_and_quit();
    let s = at(1, 24);
    press(&mut t, Key::Char('\t'), s);
    assert_eq!(t.selection(), 1);
    press(&mut t, Key::Char('q'), s);
    assert_eq!(t.selection(), 0);
    press(&mut t, Key::Char('\t'), s);
    assert_eq!(t.selection(), 1);
    press(&mut t, Key::Backspace, s);
    assert_eq!(t.selection(), 0);
    press(&mut t, Key::Char('q'), s);
    press(&mut t, Key::Char('\t'), s);
    press(&mut t, Key::Home, s);
    assert_eq!(t.selection(), 1);
    press(&mut t, Key::Delete, s);
    assert_eq!(t.selection(), 0);
}

#[test]
fn the_overlay_is_drawn_below_the_line() {
    let mut t: Terminal<Named, Special> = Terminal::new();
    t.add_command("quit", ok as Named, "leave");
    t.add_command("help", ok as Named, "show help");
    let s = at(2, 24);
    t.show_suggestions(s);
    let expected = "\r\n".to_string()
        + &plain_row(5, 3, "help  ", "show help  ")
        + &plain_row(5, 4, "quit  ", "leave      ")
        + &goto(5, 2);
    assert_eq!(t.take_output(), expected);
}

#[test]
fn the_chosen_row_has_its_colours_swapped() {
    let mut t: Terminal<Named, Special> = Terminal::new();
    t.add_command("quit", ok as Named, "leave");
    t.add_command("help", ok as Named, "show help");
    let s = at(2, 24);
    press(&mut t, Key::Char('\t'), s);
    let first = "\r\n".to_string()
        + &chosen_row(5, 3, "help  ", "show help  ")
        + &plain_row(5, 4, "quit  ", "leave      ")
        + &goto(5, 2);
    assert_eq!(t.take_output(), first);
    press(&mut t, Key::Char('\t'), s);
    let second = "\r\n".to_string()
        + &plain_row(5, 3, "help  ", "show help  ")
        + &chosen_row(5, 4, "quit  ", "leave      ")
        + &goto(5, 2);
    assert_eq!(t.take_output(), second);
}

#[test]
fn the_overlay_follows_the_cursor_and_the_filter() {
    let mut t: Terminal<Named, Special> = Terminal::new();
    t.add_command("quit", ok as Named, "leave");
    t.add_command("help", ok as Named, "show help");
    let s = at(2, 24);
    press(&mut t, Key::Char('q'), s);
    // A line of one character is drawn again behind the rows.
    let expected = goto(5, 2) + "q" + &goto(6, 2) + "\r\n"
        + &plain_row(6, 3, "quit  ", "leave  ")
        + CLEAR_LINE + &goto(1, 2) + ">>> q"
        + &goto(6, 2);
    assert_eq!(t.take_output(), expected);
    press(&mut t, Key::Char('u'), s);
    let expected = goto(6, 2) + "u" + &goto(7, 2) + "\r\n"
        + &plain_row(7, 3, "quit  ", "leave  ")
        + &goto(7, 2);
    assert_eq!(t.take_output(), expected);
}

#[test]
fn the_line_moves_up_where_the_overlay_would_not_fit() {
    let mut t: Terminal<Named, Special> = Terminal::new();
    t.add_command("quit", ok as Named, "leave");
    t.add_command("help", ok as Named, "show help");
    // Two rows and one more do not fit below row 23 of 24: the line moves
    // up by two rows.
    t.show_suggestions(at(23, 24));
    let expected = "\r\n\r\n".to_string() + "\r\n"
        + &plain_row(5, 22, "help  ", "show help  ")
        + &plain_row(5, 23, "quit  ", "leave      ")
        + &goto(5, 21);
    assert_eq!(t.take_output(), expected);
    // They just fit below row 21.
    t.show_suggestions(at(21, 24));
    let expected = "\r\n".to_string()
        + &plain_row(5, 22, "help  ", "show help  ")
        + &plain_row(5, 23, "quit  ", "leave      ")
        + &goto(5, 21);
    assert_eq!(t.take_output(), expected);
}

#[test]
fn the_line_moves_up_by_the_whole_overflow_where_the_overlay_fills_the_screen() {
    let mut t: Terminal<Named, Special> = Terminal::new();
    t.add_command("quit", ok as Named, "leave");
    t.add_command("help", ok as Named, "show help");
    // Two rows and one more are all that a screen of three rows holds: from
    // row 3 the line moves up by three rows.
    t.show_suggestions(at(3, 3));
    let expected = "\r\n\r\n\r\n".to_string() + "\r\n"
        + &plain_row(5, 1, "help  ", "show help  ")
        + &plain_row(5, 2, "quit  ", "leave      ")
        + &goto(5, 0);
    assert_eq!(t.take_output(), expected);
    t.show_suggestions(at(1, 3));
    let expected = "\r\n".to_string() + "\r\n"
        + &plain_row(5, 1, "help  ", "show help  ")
        + &plain_row(5, 2, "quit  ", "leave      ")
        + &goto(5, 0);
    assert_eq!(t.take_output(), expected);
}

#[test]
fn the_line_moves_to_the_top_where_the_overlay_cannot_fit() {
    let mut t: Terminal<Named, Special> = Terminal::new();
    t.add_command("quit", ok as Named, "leave");
    t.add_command("help", ok as Named, "show help");
    t.show_suggestions(at(2, 2));
    let expected = "\r\n\r\n".to_string() + "\r\n"
        + &plain_row(5, 1, "help  ", "show help  ")
        + &plain_row(5, 2, "quit  ", "leave      ")
        + &goto(5, 0);
    assert_eq!(t.take_output(), expected);
}

#[test]
fn without_a_match_the_rows_below_are_blanked() {
    let mut t = with_help_and_quit();
    let s = at(2, 4);
    press(&mut t, Key::Char('x'), s);
    let expected = goto(5, 2) + "x" + &goto(6, 2)
        + &goto(1, 3) + CLEAR_LINE + &goto(1, 4) + CLEAR_LINE + &goto(6, 2)
        + CLEAR_LINE + &goto(1, 2) + ">>> x"
        + &goto(6, 2);
    assert_eq!(t.take_output(), expected);
}

#[test]
fn confirming_with_a_selection_hands_out_the_trigger() {
    let mut t = with_help_and_quit();
    let s = at(1, 24);
    press(&mut t, Key::Char('q'), s);
    press(&mut t, Key::Char('\t'), s);
    assert_eq!(press(&mut t, Key::Char('\n'), s), Some("quit".to_string()));
    assert_eq!(t.history_entry(0), Some("quit".to_string()));
    assert_eq!(t.selection(), 0);
}

#[test]
fn confirming_an_empty_line_with_a_selection_ends_the_cycle() {
    let mut t = with_help_and_quit();
    let s = at(1, 24);
    press(&mut t, Key::Char('\t'), s);
    assert_eq!(press(&mut t, Key::Char('\n'), s), Some("help".to_string()));
    assert_eq!(t.history_len(), 1);
}

#[test]
fn space_accepts_the_chosen_suggestion() {
    let mut t = with_help_and_quit();
    let s = at(2, 4);
    press(&mut t, Key::Char('h'), s);
    press(&mut t, Key::Char('\t'), s);
    t.take_output();
    assert!(press(&mut t, Key::Char(' '), s).is_none());
    assert_eq!(t.current_input(), "help ");
    assert_eq!(t.cursor_offset(), 5);
    assert_eq!(t.selection(), 0);
    let expected = goto(1, 3) + CLEAR_LINE + &goto(1, 4) + CLEAR_LINE + &goto(6, 2)
        + CLEAR_LINE + &goto(1, 2) + ">>> help ";
    assert_eq!(t.take_output(), expected);
}

#[test]
fn space_is_typed_where_nothing_is_chosen() {
    let mut t = with_help_and_quit();
    let s = at(2, 4);
    press(&mut t, Key::Char('a'), s);
    press(&mut t, Key::Char(' '), s);
    assert_eq!(t.current_input(), "a ");
    assert_eq!(t.cursor_offset(), 2);
}

#[test]
fn recalling_and_killing_reset_the_selection() {
    let mut t = with_help_and_quit();
    let s = at(1, 24);
    for c in "zzz".chars() {
        press(&mut t, Key::Char(c), s);
    }
    press(&mut t, Key::Char('\n'), s);
    press(&mut t, Key::Char('\t'), s);
    assert_eq!(t.selection(), 1);
    press(&mut t, Key::Up, s);
    assert_eq!(t.current_input(), "zzz");
    assert_eq!(t.selection(), 0);
    // Nothing matches the recalled line.
    press(&mut t, Key::Char('\t'), s);
    assert_eq!(t.selection(), 0);
    press(&mut t, Key::Ctrl('u'), s);
    assert_eq!(t.current_input(), "");
    press(&mut t, Key::Char('\t'), s);
    assert_eq!(t.selection(), 1);
    press(&mut t, Key::Ctrl('u'), s);
    assert_eq!(t.selection(), 0);
}

#[test]
fn registering_a_command_leaves_the_selection() {
    let mut t = with_help_and_quit();
    let s = at(1, 24);
    press(&mut t, Key::Char('\t'), s);
    press(&mut t, Key::Char('\t'), s);
    assert_eq!(t.selection(), 2);
    t.take_output();
    t.add_command("about", ok as Named, "d0");
    assert_eq!(t.selection(), 2);
    assert_eq!(t.current_suggestions(), vec![pair("about", "d0"), pair("help", "d1"), pair("quit", "d2")]);
    t.add_special_command('!', say as Special, "run");
    assert_eq!(t.selection(), 2);
    assert_eq!(t.current_suggestions().len(), 4);
    assert_eq!(t.current_input(), "");
    assert_eq!(t.history_len(), 0);
    assert_eq!(t.take_output(), "");
    // The selection counts in the list as it now stands.
    assert_eq!(press(&mut t, Key::Char('\n'), s), Some("about".to_string()));
}

#[test]
fn registering_keeps_a_selection_within_the_matches() {
    let mut t: Terminal<Named, Special> = Terminal::new();
    let s = at(1, 24);
    t.add_command("help", ok as Named, "d1");
    press(&mut t, Key::Char('h'), s);
    press(&mut t, Key::Char('\t'), s);
    assert_eq!(t.selection(), 1);
    // An entry that does not match what was typed changes nothing.
    t.add_command("quit", ok as Named, "d2");
    assert_eq!(t.selection(), 1);
    assert_eq!(t.current_suggestions(), vec![pair("help", "d1")]);
    assert_eq!(press(&mut t, Key::Char('\n'), s), Some("help".to_string()));
}
