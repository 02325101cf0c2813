//! The editor as a state machine: what each key does to the line, the
//! cursor, the history and the selection, and what it draws.
use vstd::prelude::*;
use crate::catalog::{description_width, filtered, sorted, trigger_width, Entry};
use crate::history::{appended, no_repeats};
use crate::screen::{
    clamp16, clear_after_cursor_sequence, clear_all_sequence, clear_line_sequence,
    description_colors, goto_sequence, left_sequence, line_break, reset_colors, right_sequence,
    trigger_colors, Screen,
};
use crate::text::{pad_right, spaces, trimmed};

verus! {

/// A key, as the key source decodes it.
#[derive(Clone, Copy, Debug)]
pub enum Key {
    Backspace,
    Left,
    Right,
    Up,
    Down,
    Home,
    End,
    /// The backward tab: cycles the selection backward.
    BackTab,
    Delete,
    /// A character. The line feed confirms, the tab cycles the selection
    /// forward, the space accepts a chosen suggestion; any other is typed.
    Char(char),
    /// A character with the control key. `u` kills the text before the
    /// cursor, `l` clears the screen; any other is ignored.
    Ctrl(char),
    /// Any other key: ignored.
    Other,
}

/// One step of a read cycle: a key, and what the screen reported before it.
#[derive(Clone, Copy, Debug)]
pub struct Event {
    pub key: Key,
    pub screen: Screen,
}

/// The editor's state.
pub struct State {
    /// The prompt that stands before the line.
    pub prefix: Seq<char>,
    /// The line being edited.
    pub buffer: Seq<char>,
    /// The column of the cursor within the line, counted from 1; one past
    /// the end where text is appended.
    pub cursor: int,
    /// The confirmed lines, oldest first.
    pub history: Seq<Seq<char>>,
    /// The line of the history that navigation stands on; the length of the
    /// history where it stands on none.
    pub history_index: int,
    /// The chosen suggestion, counted from 1 in the filtered list; 0 where
    /// none is chosen.
    pub selection: int,
    /// The suggestion catalog.
    pub catalog: Seq<Entry>,
    /// Everything drawn so far and not yet taken by the screen driver.
    pub output: Seq<char>,
}

/// `count` line breaks.
pub open spec fn line_breaks(count: int) -> Seq<char>
    decreases count,
{
    if count <= 0 {
        Seq::empty()
    } else {
        line_breaks(count - 1) + line_break()
    }
}

/// Blanks the row and writes the prompt at its start.
pub open spec fn prompt_line(prefix: Seq<char>, row: u16) -> Seq<char> {
    clear_line_sequence() + goto_sequence(1, row) + prefix
}

/// Blanks the row and writes the prompt and the line.
pub open spec fn full_line(prefix: Seq<char>, buffer: Seq<char>, row: u16) -> Seq<char> {
    prompt_line(prefix, row) + buffer
}

/// Blanks the rows `row + 1 ..= upto`, from the top.
pub open spec fn blank_rows(row: int, upto: int) -> Seq<char>
    decreases upto - row,
{
    if upto <= row {
        Seq::empty()
    } else {
        blank_rows(row, upto - 1) + goto_sequence(1, clamp16(upto)) + clear_line_sequence()
    }
}

/// Blanks every row below `row` and puts the cursor back at column `x`.
pub open spec fn clear_below(x: u16, screen: Screen) -> Seq<char> {
    blank_rows(screen.row as int, screen.height as int) + goto_sequence(x, screen.row)
}

/// One row of the overlay: the trigger and the description, each padded to
/// its column's width plus two, in the colours of its column. The chosen
/// row has the colours of the two columns swapped.
pub open spec fn overlay_row(e: Entry, chosen: bool, key_width: nat, value_width: nat) -> Seq<
    char,
> {
    (if chosen {
        description_colors()
    } else {
        trigger_colors()
    }) + seq![' '] + pad_right(e.0, key_width + 2) + (if chosen {
        trigger_colors()
    } else {
        description_colors()
    }) + seq![' ', ' '] + pad_right(e.1, value_width + 2) + reset_colors() + line_break()
}

/// The first `count` rows of the overlay. Row `i`, counted from 1, is drawn
/// `i` rows below the anchor, from column `x` on.
pub open spec fn overlay_rows(
    list: Seq<Entry>,
    count: int,
    x: u16,
    anchor: u16,
    selection: int,
    key_width: nat,
    value_width: nat,
) -> Seq<char>
    decreases count,
{
    if count <= 0 {
        Seq::empty()
    } else {
        overlay_rows(list, count - 1, x, anchor, selection, key_width, value_width)
            + goto_sequence(x, clamp16(anchor + count)) + clear_line_sequence() + overlay_row(
            list[count - 1],
            count == selection,
            key_width,
            value_width,
        )
    }
}

/// The row that the line stands on once an overlay of `size` rows has been
/// made room for. Where the overlay and one more row fit below `row`, that is
/// `row`. Else the line moves up by what does not fit, so that the overlay
/// and one more row end on the last row of the screen: to row
/// `height - size - 1`. Where the screen is too small for that, the line
/// moves up as far as a row can be numbered, to row 0.
pub open spec fn anchor_row(screen: Screen, size: int) -> u16 {
    if screen.row + size + 1 > screen.height {
        if size + 1 <= screen.height {
            (screen.height - size - 1) as u16
        } else {
            0u16
        }
    } else {
        screen.row
    }
}

impl State {
    /// The state of a fresh editor with the given prompt.
    pub open spec fn initial(prefix: Seq<char>) -> State {
        State {
            prefix,
            buffer: Seq::empty(),
            cursor: 1,
            history: Seq::empty(),
            history_index: 0,
            selection: 0,
            catalog: Seq::empty(),
            output: Seq::empty(),
        }
    }

    /// The entries that match the line.
    pub open spec fn suggestions(self) -> Seq<Entry> {
        filtered(self.catalog, self.buffer)
    }

    /// The invariant: the cursor stands within the line or just behind it,
    /// the selection within the filtered list, the navigation within the
    /// history; the history repeats no line, and the catalog is in order.
    pub open spec fn wf(self) -> bool {
        &&& 1 <= self.cursor <= self.buffer.len() + 1
        &&& 0 <= self.selection <= self.suggestions().len()
        &&& 0 <= self.history_index <= self.history.len()
        &&& no_repeats(self.history)
        &&& sorted(self.catalog)
    }

    /// The screen column of column `col` of the line.
    pub open spec fn column_of(self, col: int) -> u16 {
        clamp16(self.prefix.len() + col)
    }

    /// The screen column of the cursor.
    pub open spec fn column(self) -> u16 {
        self.column_of(self.cursor)
    }

    /// The state after `bytes` were drawn.
    pub open spec fn emit(self, bytes: Seq<char>) -> State {
        State { output: self.output + bytes, ..self }
    }

    /// The state at the start of a read cycle: an empty line, nothing chosen,
    /// navigation behind the last line of the history.
    pub open spec fn start_cycle(self) -> State {
        State {
            buffer: Seq::empty(),
            cursor: 1,
            selection: 0,
            history_index: self.history.len() as int,
            ..self
        }
    }

    /// What the overlay draws. Without a match the rows below the line are
    /// blanked and the line is drawn again. Else room is made by as many line
    /// breaks as the line has to move up, the rows are drawn below the line,
    /// and a line of one character is drawn again. Either way the cursor
    /// ends where it was, on the row the line now stands on.
    pub open spec fn overlay(self, screen: Screen) -> Seq<char> {
        let list = self.suggestions();
        let x = self.column();
        if list.len() == 0 {
            clear_below(x, screen) + full_line(self.prefix, self.buffer, screen.row)
                + goto_sequence(x, screen.row)
        } else {
            let anchor = anchor_row(screen, list.len() as int);
            line_breaks(screen.row - anchor) + line_break() + overlay_rows(
                list,
                list.len() as int,
                x,
                anchor,
                self.selection,
                trigger_width(list, list.len() as int),
                description_width(list, list.len() as int),
            ) + (if self.buffer.len() == 1 {
                full_line(self.prefix, self.buffer, anchor)
            } else {
                Seq::empty()
            }) + goto_sequence(x, anchor)
        }
    }

    /// The state after the overlay was drawn.
    pub open spec fn show_suggestions(self, screen: Screen) -> State {
        self.emit(self.overlay(screen))
    }

    /// Typing `c`: it goes in at the cursor, the text from it on is drawn
    /// again, the cursor moves behind it, nothing is chosen any more, and the
    /// overlay is drawn.
    pub open spec fn insert_char(self, c: char, screen: Screen) -> State {
        let buffer = self.buffer.insert(self.cursor - 1, c);
        State {
            buffer,
            cursor: self.cursor + 1,
            selection: 0,
            output: self.output + goto_sequence(self.column(), screen.row) + buffer.skip(
                self.cursor - 1,
            ) + goto_sequence(self.column_of(self.cursor + 1), screen.row),
            ..self
        }.show_suggestions(screen)
    }

    /// Backspace: nothing at the first column. Else the character before the
    /// cursor goes, the text behind it moves one cell to the left, the cell
    /// it leaves is blanked, the cursor ends one column to the left, nothing
    /// is chosen any more, and the overlay is drawn.
    pub open spec fn delete_backward(self, screen: Screen) -> State {
        if self.cursor <= 1 {
            self
        } else {
            let buffer = self.buffer.remove(self.cursor - 2);
            let tail = buffer.skip(self.cursor - 2);
            State {
                buffer,
                cursor: self.cursor - 1,
                selection: 0,
                output: self.output + left_sequence(1) + tail + spaces(1) + left_sequence(
                    clamp16(tail.len() as int + 1),
                ),
                ..self
            }.show_suggestions(screen)
        }
    }

    /// Delete: nothing behind the end of the line. Else the character under
    /// the cursor goes. At the first column the whole line is drawn again;
    /// elsewhere the text behind the cursor moves one cell to the left. The
    /// cursor stays, nothing is chosen any more, and the overlay is drawn.
    pub open spec fn delete_forward(self, screen: Screen) -> State {
        if self.cursor > self.buffer.len() {
            self
        } else {
            let buffer = self.buffer.remove(self.cursor - 1);
            let tail = buffer.skip(self.cursor - 1);
            let drawn = if self.cursor == 1 {
                full_line(self.prefix, buffer, screen.row) + goto_sequence(
                    self.column_of(1),
                    screen.row,
                )
            } else {
                tail + spaces(2) + left_sequence(clamp16(tail.len() as int + 2))
            };
            State { buffer, selection: 0, output: self.output + drawn, ..self }.show_suggestions(
                screen,
            )
        }
    }

    /// Left: one column to the left, unless the cursor stands at the first.
    pub open spec fn move_left(self) -> State {
        if self.cursor > 1 {
            State { cursor: self.cursor - 1, output: self.output + left_sequence(1), ..self }
        } else {
            self
        }
    }

    /// Right: one column to the right, unless the cursor stands behind the
    /// line.
    pub open spec fn move_right(self) -> State {
        if self.cursor <= self.buffer.len() {
            State { cursor: self.cursor + 1, output: self.output + right_sequence(1), ..self }
        } else {
            self
        }
    }

    /// Home: to the first column of the line.
    pub open spec fn move_home(self, screen: Screen) -> State {
        State {
            cursor: 1,
            output: self.output + goto_sequence(self.column_of(1), screen.row),
            ..self
        }
    }

    /// End: behind the last character of the line.
    pub open spec fn move_end(self, screen: Screen) -> State {
        State {
            cursor: self.buffer.len() as int + 1,
            output: self.output + goto_sequence(
                self.column_of(self.buffer.len() as int + 1),
                screen.row,
            ),
            ..self
        }
    }

    /// Kill: the text before the cursor goes, the line is drawn again, the
    /// cursor ends at the first column, and nothing is chosen any more.
    pub open spec fn kill_to_cursor(self, screen: Screen) -> State {
        let buffer = self.buffer.skip(self.cursor - 1);
        State {
            buffer,
            cursor: 1,
            selection: 0,
            output: self.output + full_line(self.prefix, buffer, screen.row) + goto_sequence(
                self.column_of(1),
                screen.row,
            ),
            ..self
        }
    }

    /// The state after the line was replaced by line `index` of the history:
    /// the line is drawn again, the cursor ends behind it, and nothing is
    /// chosen any more.
    pub open spec fn recall(self, index: int, screen: Screen) -> State {
        let line = self.history[index];
        State {
            buffer: line,
            cursor: line.len() as int + 1,
            selection: 0,
            history_index: index,
            output: self.output + full_line(self.prefix, line, screen.row),
            ..self
        }
    }

    /// Up: to the line of the history before the one navigation stands on,
    /// unless it stands on the oldest.
    pub open spec fn navigate_prev(self, screen: Screen) -> State {
        if self.history_index > 0 {
            self.recall(self.history_index - 1, screen)
        } else {
            self
        }
    }

    /// Down: to the line of the history behind the one navigation stands on,
    /// unless it stands on the newest or on none.
    pub open spec fn navigate_next(self, screen: Screen) -> State {
        if self.history.len() > 0 && self.history_index < self.history.len() - 1 {
            self.recall(self.history_index + 1, screen)
        } else {
            self
        }
    }

    /// Cycling forward: the next suggestion is chosen and the overlay drawn,
    /// unless the last one is chosen already.
    pub open spec fn cycle_forward(self, screen: Screen) -> State {
        if self.selection < self.suggestions().len() {
            State { selection: self.selection + 1, ..self }.show_suggestions(screen)
        } else {
            self
        }
    }

    /// Cycling backward: the suggestion before is chosen, or none, and the
    /// overlay drawn, unless none is chosen already.
    pub open spec fn cycle_backward(self, screen: Screen) -> State {
        if self.selection > 0 {
            State { selection: self.selection - 1, ..self }.show_suggestions(screen)
        } else {
            self
        }
    }

    /// The space: typed like any character where nothing is chosen. Else the
    /// line becomes the chosen trigger and a space, the overlay is blanked,
    /// the line is drawn again, the cursor ends behind it, and nothing is
    /// chosen any more.
    pub open spec fn accept_with_space(self, screen: Screen) -> State {
        if self.selection == 0 {
            self.insert_char(' ', screen)
        } else {
            let buffer = self.suggestions()[self.selection - 1].0.push(' ');
            State {
                buffer,
                cursor: buffer.len() as int + 1,
                selection: 0,
                output: self.output + clear_below(self.column(), screen) + full_line(
                    self.prefix,
                    buffer,
                    screen.row,
                ),
                ..self
            }
        }
    }

    /// The line that confirming would hand out: the chosen trigger, or the
    /// line where nothing is chosen, without the whitespace around it.
    pub open spec fn confirmed_line(self) -> Seq<char> {
        if self.selection != 0 {
            trimmed(self.suggestions()[self.selection - 1].0)
        } else {
            trimmed(self.buffer)
        }
    }

    /// Confirming: what follows the cursor is blanked. An empty confirmed
    /// line ends nothing: the prompt is drawn on the next row and the cycle
    /// goes on with an empty line. Any other is recorded in the history,
    /// unless it repeats its last line, and ends the cycle: the state is that
    /// of the start of the next one.
    pub open spec fn confirm(self) -> (State, Option<Seq<char>>) {
        let line = self.confirmed_line();
        if line.len() == 0 {
            (
                State {
                    buffer: Seq::empty(),
                    cursor: 1,
                    selection: 0,
                    output: self.output + clear_after_cursor_sequence() + line_break()
                        + self.prefix,
                    ..self
                },
                None,
            )
        } else {
            let history = appended(self.history, line);
            (
                State {
                    buffer: Seq::empty(),
                    cursor: 1,
                    selection: 0,
                    history,
                    history_index: history.len() as int,
                    output: self.output + clear_after_cursor_sequence(),
                    ..self
                },
                Some(line),
            )
        }
    }

    /// Clearing the screen: the prompt is drawn at the top of a blank
    /// screen, and the cursor stands behind it, at the first column of the
    /// line.
    pub open spec fn clear_screen(self) -> State {
        State {
            cursor: 1,
            output: self.output + clear_all_sequence() + goto_sequence(1, 1) + self.prefix,
            ..self
        }
    }

    /// What one key does: the state after it, and the confirmed line where
    /// the key ended the read cycle.
    #[verifier::opaque]
    pub open spec fn step(self, event: Event) -> (State, Option<Seq<char>>) {
        let screen = event.screen;
        match event.key {
            Key::Char(c) => {
                if c == '\n' {
                    self.confirm()
                } else if c == '\t' {
                    (self.cycle_forward(screen), None)
                } else if c == ' ' {
                    (self.accept_with_space(screen), None)
                } else {
                    (self.insert_char(c, screen), None)
                }
            },
            Key::BackTab => (self.cycle_backward(screen), None),
            Key::Backspace => (self.delete_backward(screen), None),
            Key::Delete => (self.delete_forward(screen), None),
            Key::Left => (self.move_left(), None),
            Key::Right => (self.move_right(), None),
            Key::Up => (self.navigate_prev(screen), None),
            Key::Down => (self.navigate_next(screen), None),
            Key::Home => (self.move_home(screen), None),
            Key::End => (self.move_end(screen), None),
            Key::Ctrl(c) => {
                if c == 'u' {
                    (self.kill_to_cursor(screen), None)
                } else if c == 'l' {
                    (self.clear_screen(), None)
                } else {
                    (self, None)
                }
            },
            Key::Other => (self, None),
        }
    }

    /// The state after every one of `events`, whatever each of them ended.
    pub open spec fn after(self, events: Seq<Event>) -> State
        decreases events.len(),
    {
        if events.len() == 0 {
            self
        } else {
            self.after(events.drop_last()).step(events.last()).0
        }
    }

    /// A read cycle over `events`, from the left: it ends with the first key
    /// that confirms a line, and hands that line out; where no key does, it
    /// ends with the last key and hands out nothing.
    pub open spec fn run(self, events: Seq<Event>) -> (State, Option<Seq<char>>)
        decreases events.len(),
    {
        if events.len() == 0 {
            (self, None)
        } else {
            let (next, line) = self.step(events[0]);
            if line is Some {
                (next, line)
            } else {
                next.run(events.skip(1))
            }
        }
    }
}

} // verus!
