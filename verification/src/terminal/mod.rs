//! The terminal: the line editor with its history, its suggestion catalog
//! and the commands that the embedding program registered.
//!
//! The terminal never reads a key and never writes to a screen. The
//! embedding program hands it one key at a time, with the row of the cursor
//! and the height of the screen as the screen driver reported them, and
//! writes out what the terminal has drawn since.
pub mod draw;
pub mod laws;
pub mod prompt;
pub mod state;

use std::collections::HashMap;
use vstd::prelude::*;
use vstd::hash_map::StringHashMap;
use crate::arguments::Argument;
use crate::catalog::{
    column_widths, entries, insert_entry, lemma_with_entry_keeps_matches, matching_entries,
    with_entry, Entry,
};
use crate::command::CommandResult;
use crate::history::History;
use crate::screen::{
    clamp16, clear_after_cursor, clear_all, cursor_left, cursor_right, put_goto, saturate,
    saturating_sum, Screen,
};
use crate::terminal::draw::{
    anchor, put_chars, put_clear_below, put_full_line, put_line_breaks, put_overlay_rows,
};
use crate::terminal::state::{Event, Key, State};
use crate::text::{from_chars, push_spaces, to_chars, trim};

verus! {

/// The key that a special command is registered under: the code point of
/// its trigger character.
pub open spec fn code_point(c: char) -> u32 {
    c as u32
}

/// Every handler of the two registries can be called on every argument.
pub open spec fn handlers_callable<C, S>(
    commands: Map<Seq<char>, C>,
    specials: Map<u32, S>,
) -> bool where C: Fn(StringHashMap<Argument>) -> CommandResult, S: Fn(String) -> CommandResult {
    &&& forall|k: Seq<char>, a: StringHashMap<Argument>|
        commands.contains_key(k) ==> #[trigger] call_requires(commands[k], (a,))
    &&& forall|k: u32, a: String|
        specials.contains_key(k) ==> #[trigger] call_requires(specials[k], (a,))
}

/// The line editor and the command registry.
///
/// `C` is the type of the handlers of named commands, `S` that of the
/// handlers of special commands.
#[verifier::reject_recursive_types(C)]
#[verifier::reject_recursive_types(S)]
pub struct Terminal<C, S> {
    prefix: String,
    current_input: Vec<char>,
    /// The characters of the line before the cursor.
    cursor: usize,
    previous_input: History,
    history_index: usize,
    suggestion_selection: usize,
    suggestions: Vec<(String, String)>,
    commands: StringHashMap<C>,
    special_commands: HashMap<u32, S>,
    output: String,
}

impl<C, S> View for Terminal<C, S> {
    type V = State;

    closed spec fn view(&self) -> State {
        State {
            prefix: self.prefix@,
            buffer: self.current_input@,
            cursor: self.cursor + 1,
            history: self.previous_input@,
            history_index: self.history_index as int,
            selection: self.suggestion_selection as int,
            catalog: entries(self.suggestions@),
            output: self.output@,
        }
    }
}

impl<C, S> Default for Terminal<C, S> where
    C: Fn(StringHashMap<Argument>) -> CommandResult,
    S: Fn(String) -> CommandResult,
 {
    /// The terminal that `new` gives.
    fn default() -> (r: Self)
        ensures
            r.wf(),
            r@ == State::initial(">>> "@),
            r.commands() == Map::<Seq<char>, C>::empty(),
            r.special_commands() == Map::<u32, S>::empty(),
    {
        Self::new()
    }
}

impl<C, S> Terminal<C, S> where
    C: Fn(StringHashMap<Argument>) -> CommandResult,
    S: Fn(String) -> CommandResult,
 {
    /// The handlers of the named commands, by name.
    pub closed spec fn commands(&self) -> Map<Seq<char>, C> {
        self.commands@
    }

    /// The handlers of the special commands, by the code points of their
    /// trigger characters.
    pub closed spec fn special_commands(&self) -> Map<u32, S> {
        self.special_commands@
    }

    /// The invariant of the terminal: that of its state, and that every
    /// registered handler can be called.
    pub open spec fn wf(&self) -> bool {
        &&& self@.wf()
        &&& handlers_callable(self.commands(), self.special_commands())
    }

    /// Both registries are those of `other`.
    pub open spec fn same_commands(&self, other: &Self) -> bool {
        &&& self.commands() == other.commands()
        &&& self.special_commands() == other.special_commands()
    }

    /// A terminal with the prompt `>>> `, an empty line, an empty history
    /// and nothing registered.
    pub fn new() -> (r: Self)
        ensures
            r.wf(),
            r@ == State::initial(">>> "@),
            r.commands() == Map::<Seq<char>, C>::empty(),
            r.special_commands() == Map::<u32, S>::empty(),
    {
        let r = Terminal {
            prefix: String::from_str(">>> "),
            current_input: Vec::new(),
            cursor: 0,
            previous_input: History::new(),
            history_index: 0,
            suggestion_selection: 0,
            suggestions: Vec::new(),
            commands: StringHashMap::new(),
            special_commands: HashMap::new(),
            output: String::new(),
        };
        proof {
            assert(entries(r.suggestions@) =~= Seq::<Entry>::empty());
            assert(r@ =~= State::initial(">>> "@));
        }
        r
    }

    /// Registers a named command with its handler and adds it to the
    /// catalog. A handler registered before under the same name is
    /// replaced; its catalog entry stays.
    pub fn add_command(&mut self, name: &str, f: C, description: &str)
        requires
            old(self).wf(),
            forall|a: StringHashMap<Argument>| call_requires(f, (a,)),
        ensures
            final(self).wf(),
            final(self)@ == (State {
                catalog: with_entry(old(self)@.catalog, (name@, description@)),
                ..old(self)@
            }),
            final(self).commands() == old(self).commands().insert(name@, f),
            final(self).special_commands() == old(self).special_commands(),
    {
        self.commands.insert(String::from_str(name), f);
        proof {
            assert forall|k: Seq<char>, a: StringHashMap<Argument>|
                self.commands().contains_key(k) implies #[trigger] call_requires(
                self.commands()[k],
                (a,),
            ) by {
                if k != name@ {
                    assert(old(self).commands().contains_key(k));
                    assert(call_requires(old(self).commands()[k], (a,)));
                }
            }
            assert(self.special_commands() == old(self).special_commands());
        }
        self.add_suggestion(String::from_str(name), description);
    }

    /// Registers a special command with its handler and adds it to the
    /// catalog, its trigger being the one character. A handler registered
    /// before under the same character is replaced; its catalog entry stays.
    pub fn add_special_command(&mut self, c: char, f: S, description: &str)
        requires
            old(self).wf(),
            forall|a: String| call_requires(f, (a,)),
        ensures
            final(self).wf(),
            final(self)@ == (State {
                catalog: with_entry(old(self)@.catalog, (seq![c], description@)),
                ..old(self)@
            }),
            final(self).commands() == old(self).commands(),
            final(self).special_commands() == old(self).special_commands().insert(
                code_point(c),
                f,
            ),
    {
        broadcast use vstd::std_specs::hash::group_hash_axioms;

        self.special_commands.insert(c as u32, f);
        proof {
            assert forall|k: u32, a: String|
                self.special_commands().contains_key(k) implies #[trigger] call_requires(
                self.special_commands()[k],
                (a,),
            ) by {
                if k != code_point(c) {
                    assert(old(self).special_commands().contains_key(k));
                    assert(call_requires(old(self).special_commands()[k], (a,)));
                }
            }
            assert(self.commands() == old(self).commands());
        }
        let mut name = String::new();
        name.push(c);
        assert(name@ =~= seq![c]);
        self.add_suggestion(name, description);
    }

    /// Puts an entry into the catalog, in its place. The selection stays as
    /// it is: the catalog has no fewer matches than before.
    fn add_suggestion(&mut self, name: String, description: &str)
        requires
            old(self).wf(),
        ensures
            final(self).wf(),
            final(self)@ == (State {
                catalog: with_entry(old(self)@.catalog, (name@, description@)),
                ..old(self)@
            }),
            final(self).same_commands(old(self)),
    {
        proof {
            lemma_with_entry_keeps_matches(
                self@.catalog,
                (name@, description@),
                self@.buffer,
            );
        }
        insert_entry(&mut self.suggestions, (name, String::from_str(description)));
    }

    /// Runs the handler registered under `name` on `args`. `None` where no
    /// handler is registered under that name; else what the handler
    /// returned.
    pub fn execute_command(&self, name: String, args: StringHashMap<Argument>) -> (r: Option<
        CommandResult,
    >)
        requires
            self.wf(),
        ensures
            r is None <==> !self.commands().contains_key(name@),
            r is Some ==> call_ensures(self.commands()[name@], (args,), r->0),
    {
        match self.commands.get(name.as_str()) {
            Some(f) => {
                assert(call_requires(self.commands()[name@], (args,)));
                Some(f(args))
            },
            None => None,
        }
    }

    /// Runs the handler registered under the character `name` on `args`.
    /// `None` where no handler is registered under that character; else
    /// what the handler returned.
    pub fn execute_special_command(&self, name: char, args: String) -> (r: Option<CommandResult>)
        requires
            self.wf(),
        ensures
            r is None <==> !self.special_commands().contains_key(code_point(name)),
            r is Some ==> call_ensures(
                self.special_commands()[code_point(name)],
                (args,),
                r->0,
            ),
    {
        broadcast use vstd::std_specs::hash::group_hash_axioms;

        let key: u32 = name as u32;
        match self.special_commands.get(&key) {
            Some(f) => {
                assert(call_requires(self.special_commands()[key], (args,)));
                Some(f(args))
            },
            None => None,
        }
    }

    /// Draws `s`.
    pub fn write(&mut self, s: &str)
        ensures
            final(self)@ == old(self)@.emit(s@),
            final(self).same_commands(old(self)),
            old(self).wf() ==> final(self).wf(),
    {
        self.output.append(s);
    }

    /// Draws the prompt.
    pub fn write_prefix(&mut self)
        ensures
            final(self)@ == old(self)@.emit(old(self)@.prefix),
            final(self).same_commands(old(self)),
            old(self).wf() ==> final(self).wf(),
    {
        self.output.append(self.prefix.as_str());
    }

    /// Draws a line break.
    pub fn new_line(&mut self)
        ensures
            final(self)@ == old(self)@.emit(crate::screen::line_break()),
            final(self).same_commands(old(self)),
            old(self).wf() ==> final(self).wf(),
    {
        self.output.append("\r\n");
    }

    /// Hands out what was drawn since the last call and forgets it.
    pub fn take_output(&mut self) -> (drawn: String)
        ensures
            drawn@ == old(self)@.output,
            final(self)@ == (State { output: Seq::empty(), ..old(self)@ }),
            final(self).same_commands(old(self)),
            old(self).wf() ==> final(self).wf(),
    {
        let mut drawn = String::new();
        drawn.append(self.output.as_str());
        self.output = String::new();
        assert(drawn@ =~= old(self)@.output);
        drawn
    }

    /// The prompt.
    pub fn prefix(&self) -> (r: String)
        ensures
            r@ == self@.prefix,
    {
        self.prefix.clone()
    }

    /// The line being edited.
    pub fn current_input(&self) -> (r: String)
        ensures
            r@ == self@.buffer,
    {
        let r = from_chars(&self.current_input, 0, self.current_input.len());
        assert(r@ =~= self@.buffer);
        r
    }

    /// The number of characters of the line before the cursor: the cursor's
    /// column less one.
    pub fn cursor_offset(&self) -> (r: usize)
        ensures
            r + 1 == self@.cursor,
    {
        self.cursor
    }

    /// The chosen suggestion, counted from 1; 0 where none is chosen.
    pub fn selection(&self) -> (r: usize)
        ensures
            r == self@.selection,
    {
        self.suggestion_selection
    }

    /// The number of confirmed lines.
    pub fn history_len(&self) -> (r: usize)
        ensures
            r == self@.history.len(),
    {
        self.previous_input.len()
    }

    /// The confirmed line at `index`, counted from the oldest; `None` behind
    /// the end.
    pub fn history_entry(&self, index: usize) -> (r: Option<String>)
        ensures
            index < self@.history.len() ==> r is Some && r->0@ == self@.history[index as int],
            index >= self@.history.len() ==> r is None,
    {
        self.previous_input.entry(index)
    }

    /// The line of the history that navigation stands on; the length of the
    /// history where it stands on none.
    pub fn history_index(&self) -> (r: usize)
        ensures
            r == self@.history_index,
    {
        self.history_index
    }

    /// The screen column of the column of the line that has `offset`
    /// characters before it.
    fn column_of(&self, offset: usize) -> (r: u16)
        ensures
            r == self@.column_of(offset + 1),
    {
        let p: u16 = saturate(self.prefix.as_str().unicode_len());
        let o: u16 = saturate(offset);
        saturating_sum(p, o, 1)
    }

    /// The screen column of the cursor.
    fn cursor_column(&self) -> (r: u16)
        ensures
            r == self@.column(),
    {
        self.column_of(self.cursor)
    }

    /// Whether a column lies to the left of the cursor.
    fn cursor_can_go_left(&self) -> (r: bool)
        ensures
            r == (self@.cursor > 1),
    {
        self.cursor > 0
    }

    /// Whether a character lies under the cursor.
    fn cursor_can_go_right(&self) -> (r: bool)
        ensures
            r == (self@.cursor <= self@.buffer.len()),
    {
        self.cursor < self.current_input.len()
    }

    /// Blanks the row and draws the prompt and the line.
    fn rewrite_line(&mut self, row: u16)
        ensures
            final(self)@ == old(self)@.emit(
                state::full_line(old(self)@.prefix, old(self)@.buffer, row),
            ),
            final(self).same_commands(old(self)),
    {
        put_full_line(&mut self.output, self.prefix.as_str(), &self.current_input, row);
    }

    /// Draws the line from the cursor on and puts the cursor behind the
    /// character it stood on.
    fn rewrite_from_position(&mut self, row: u16)
        requires
            old(self)@.cursor <= old(self)@.buffer.len(),
        ensures
            final(self)@ == old(self)@.emit(
                crate::screen::goto_sequence(old(self)@.column(), row) + old(self)@.buffer.skip(
                    old(self)@.cursor - 1,
                ) + crate::screen::goto_sequence(
                    old(self)@.column_of(old(self)@.cursor + 1),
                    row,
                ),
            ),
            final(self).same_commands(old(self)),
    {
        assert(self.cursor < self.current_input.len());
        let here: u16 = self.column_of(self.cursor);
        let next: u16 = self.column_of(self.cursor + 1);
        put_goto(&mut self.output, here, row);
        put_chars(&mut self.output, &self.current_input, self.cursor);
        put_goto(&mut self.output, next, row);
        assert(self@.output =~= old(self)@.output + (crate::screen::goto_sequence(
            old(self)@.column(),
            row,
        ) + old(self)@.buffer.skip(old(self)@.cursor - 1) + crate::screen::goto_sequence(
            old(self)@.column_of(old(self)@.cursor + 1),
            row,
        )));
    }

    /// Draws what a backspace leaves: the text from `offset` on, moved one
    /// cell to the left, and a blank behind it; the cursor ends at `offset`.
    fn backspace(&mut self, offset: usize)
        requires
            offset <= old(self)@.buffer.len(),
        ensures
            final(self)@ == old(self)@.emit(
                crate::screen::left_sequence(1) + old(self)@.buffer.skip(offset as int)
                    + crate::text::spaces(1) + crate::screen::left_sequence(
                    clamp16(old(self)@.buffer.skip(offset as int).len() as int + 1),
                ),
            ),
            final(self).same_commands(old(self)),
    {
        let back: u16 = saturating_sum(0, 1, self.current_input.len() - offset);
        let first = cursor_left(1);
        self.output.append(first.as_str());
        put_chars(&mut self.output, &self.current_input, offset);
        push_spaces(&mut self.output, 1);
        let last = cursor_left(back);
        self.output.append(last.as_str());
        assert(self@.output =~= old(self)@.output + (crate::screen::left_sequence(1)
            + old(self)@.buffer.skip(offset as int) + crate::text::spaces(1)
            + crate::screen::left_sequence(
            clamp16(old(self)@.buffer.skip(offset as int).len() as int + 1),
        )));
    }

    /// Draws what a delete leaves. At the start of the line that is the
    /// whole line, with the cursor put back at its first column; elsewhere
    /// the text from the cursor on and two blanks behind it, with the cursor
    /// put back.
    fn delete(&mut self, row: u16)
        requires
            old(self)@.cursor <= old(self)@.buffer.len() + 1,
        ensures
            final(self)@ == old(self)@.emit(
                if old(self)@.cursor == 1 {
                    state::full_line(old(self)@.prefix, old(self)@.buffer, row)
                        + crate::screen::goto_sequence(old(self)@.column_of(1), row)
                } else {
                    old(self)@.buffer.skip(old(self)@.cursor - 1) + crate::text::spaces(2)
                        + crate::screen::left_sequence(
                        clamp16(old(self)@.buffer.skip(old(self)@.cursor - 1).len() as int + 2),
                    )
                },
            ),
            final(self).same_commands(old(self)),
    {
        if self.cursor == 0 {
            self.rewrite_line(row);
            let home: u16 = self.column_of(0);
            put_goto(&mut self.output, home, row);
            assert(self@.output =~= old(self)@.output + (state::full_line(
                old(self)@.prefix,
                old(self)@.buffer,
                row,
            ) + crate::screen::goto_sequence(old(self)@.column_of(1), row)));
        } else {
            let back: u16 = saturating_sum(0, 2, self.current_input.len() - self.cursor);
            put_chars(&mut self.output, &self.current_input, self.cursor);
            push_spaces(&mut self.output, 2);
            let last = cursor_left(back);
            self.output.append(last.as_str());
            assert(self@.output =~= old(self)@.output + (old(self)@.buffer.skip(
                old(self)@.cursor - 1,
            ) + crate::text::spaces(2) + crate::screen::left_sequence(
                clamp16(old(self)@.buffer.skip(old(self)@.cursor - 1).len() as int + 2),
            )));
        }
    }

    /// Blanks the row, draws the prompt and the line, and puts the cursor at
    /// the first column of the line.
    fn clear_before_cursor(&mut self, row: u16)
        ensures
            final(self)@ == old(self)@.emit(
                state::full_line(old(self)@.prefix, old(self)@.buffer, row)
                    + crate::screen::goto_sequence(old(self)@.column_of(1), row),
            ),
            final(self).same_commands(old(self)),
    {
        self.rewrite_line(row);
        let home: u16 = self.column_of(0);
        put_goto(&mut self.output, home, row);
        assert(self@.output =~= old(self)@.output + (state::full_line(
            old(self)@.prefix,
            old(self)@.buffer,
            row,
        ) + crate::screen::goto_sequence(old(self)@.column_of(1), row)));
    }

    /// Blanks the rows below the line and puts the cursor back.
    fn clear_after_line(&mut self, screen: Screen)
        ensures
            final(self)@ == old(self)@.emit(state::clear_below(old(self)@.column(), screen)),
            final(self).same_commands(old(self)),
    {
        let x: u16 = self.cursor_column();
        put_clear_below(&mut self.output, x, screen);
    }

    /// The entries of the catalog that match the line.
    pub fn current_suggestions(&self) -> (r: Vec<(String, String)>)
        ensures
            entries(r@) == self@.suggestions(),
    {
        matching_entries(&self.suggestions, &self.current_input)
    }
    /// Draws the overlay for the line as it stands.
    pub fn show_suggestions(&mut self, screen: Screen)
        ensures
            final(self)@ == old(self)@.show_suggestions(screen),
            final(self).same_commands(old(self)),
            old(self).wf() ==> final(self).wf(),
    {
        let list = self.current_suggestions();
        let x: u16 = self.cursor_column();
        if list.len() == 0 {
            self.clear_after_line(screen);
            self.rewrite_line(screen.row);
            put_goto(&mut self.output, x, screen.row);
            assert(self@.output =~= old(self)@.output + old(self)@.overlay(screen));
            return ;
        }
        let row: u16 = anchor(screen, list.len());
        let (key_width, value_width) = column_widths(&list);
        put_line_breaks(&mut self.output, screen.row - row);
        self.output.append("\r\n");
        put_overlay_rows(
            &mut self.output,
            &list,
            x,
            row,
            self.suggestion_selection,
            key_width,
            value_width,
        );
        let ghost drawn = self@.output;
        if self.current_input.len() == 1 {
            self.rewrite_line(row);
        }
        put_goto(&mut self.output, x, row);
        proof {
            let shown = old(self)@.suggestions();
            assert(drawn =~= old(self)@.output + state::line_breaks(screen.row - row)
                + crate::screen::line_break() + state::overlay_rows(
                shown,
                shown.len() as int,
                x,
                row,
                old(self)@.selection,
                key_width as nat,
                value_width as nat,
            ));
            assert(self@.output =~= old(self)@.output + old(self)@.overlay(screen));
        }
    }

    /// Starts a read cycle: the line is empty, nothing is chosen, and
    /// navigation stands behind the last line of the history.
    pub fn start_cycle(&mut self)
        requires
            old(self).wf(),
        ensures
            final(self).wf(),
            final(self)@ == old(self)@.start_cycle(),
            final(self).same_commands(old(self)),
    {
        self.current_input = Vec::new();
        self.cursor = 0;
        self.suggestion_selection = 0;
        self.history_index = self.previous_input.len();
        assert(self@.buffer =~= Seq::<char>::empty());
    }

    /// Types `c` at the cursor.
    pub fn insert_char(&mut self, c: char, screen: Screen)
        requires
            old(self).wf(),
        ensures
            final(self).wf(),
            final(self)@ == old(self)@.insert_char(c, screen),
            final(self).same_commands(old(self)),
    {
        self.suggestion_selection = 0;
        self.current_input.insert(self.cursor, c);
        self.rewrite_from_position(screen.row);
        assert(self.cursor < self.current_input.len());
        self.cursor += 1;
        proof {
            let before = old(self)@;
            let buffer = before.buffer.insert(before.cursor - 1, c);
            assert(self@.output =~= before.output + crate::screen::goto_sequence(
                before.column(),
                screen.row,
            ) + buffer.skip(before.cursor - 1) + crate::screen::goto_sequence(
                before.column_of(before.cursor + 1),
                screen.row,
            ));
        }
        self.show_suggestions(screen);
    }

    /// Removes the character before the cursor, if there is one.
    pub fn delete_backward(&mut self, screen: Screen)
        requires
            old(self).wf(),
        ensures
            final(self).wf(),
            final(self)@ == old(self)@.delete_backward(screen),
            final(self).same_commands(old(self)),
    {
        if !self.cursor_can_go_left() {
            return ;
        }
        self.suggestion_selection = 0;
        self.current_input.remove(self.cursor - 1);
        self.cursor -= 1;
        self.backspace(self.cursor);
        proof {
            let before = old(self)@;
            let buffer = before.buffer.remove(before.cursor - 2);
            let tail = buffer.skip(before.cursor - 2);
            assert(self@.output =~= before.output + crate::screen::left_sequence(1) + tail
                + crate::text::spaces(1) + crate::screen::left_sequence(
                clamp16(tail.len() as int + 1),
            ));
        }
        self.show_suggestions(screen);
    }

    /// Removes the character under the cursor, if there is one.
    pub fn delete_forward(&mut self, screen: Screen)
        requires
            old(self).wf(),
        ensures
            final(self).wf(),
            final(self)@ == old(self)@.delete_forward(screen),
            final(self).same_commands(old(self)),
    {
        if !self.cursor_can_go_right() {
            return ;
        }
        self.suggestion_selection = 0;
        self.current_input.remove(self.cursor);
        self.delete(screen.row);
        proof {
            let before = old(self)@;
            let buffer = before.buffer.remove(before.cursor - 1);
            let tail = buffer.skip(before.cursor - 1);
            let drawn = if before.cursor == 1 {
                state::full_line(before.prefix, buffer, screen.row) + crate::screen::goto_sequence(
                    before.column_of(1),
                    screen.row,
                )
            } else {
                tail + crate::text::spaces(2) + crate::screen::left_sequence(
                    clamp16(tail.len() as int + 2),
                )
            };
            assert(self@.output =~= before.output + drawn);
        }
        self.show_suggestions(screen);
    }

    /// Moves the cursor one column to the left, if it can go there.
    pub fn move_left(&mut self)
        requires
            old(self).wf(),
        ensures
            final(self).wf(),
            final(self)@ == old(self)@.move_left(),
            final(self).same_commands(old(self)),
    {
        if self.cursor_can_go_left() {
            let s = cursor_left(1);
            self.output.append(s.as_str());
            self.cursor -= 1;
        }
    }

    /// Moves the cursor one column to the right, if it can go there.
    pub fn move_right(&mut self)
        requires
            old(self).wf(),
        ensures
            final(self).wf(),
            final(self)@ == old(self)@.move_right(),
            final(self).same_commands(old(self)),
    {
        if self.cursor_can_go_right() {
            assert(self.cursor < self.current_input.len());
            let s = cursor_right(1);
            self.output.append(s.as_str());
            self.cursor += 1;
        }
    }

    /// Moves the cursor to the first column of the line.
    pub fn move_home(&mut self, screen: Screen)
        requires
            old(self).wf(),
        ensures
            final(self).wf(),
            final(self)@ == old(self)@.move_home(screen),
            final(self).same_commands(old(self)),
    {
        let x: u16 = self.column_of(0);
        put_goto(&mut self.output, x, screen.row);
        self.cursor = 0;
    }

    /// Moves the cursor behind the last character of the line.
    pub fn move_end(&mut self, screen: Screen)
        requires
            old(self).wf(),
        ensures
            final(self).wf(),
            final(self)@ == old(self)@.move_end(screen),
            final(self).same_commands(old(self)),
    {
        let n: usize = self.current_input.len();
        let x: u16 = self.column_of(n);
        put_goto(&mut self.output, x, screen.row);
        self.cursor = n;
    }

    /// Removes the text before the cursor.
    pub fn kill_to_cursor(&mut self, screen: Screen)
        requires
            old(self).wf(),
        ensures
            final(self).wf(),
            final(self)@ == old(self)@.kill_to_cursor(screen),
            final(self).same_commands(old(self)),
    {
        let mut rest: Vec<char> = Vec::new();
        let mut i: usize = self.cursor;
        assert(rest@ =~= self.current_input@.subrange(self.cursor as int, i as int));
        while i < self.current_input.len()
            invariant
                self.cursor <= i <= self.current_input.len(),
                rest@ == self.current_input@.subrange(self.cursor as int, i as int),
            decreases self.current_input.len() - i,
        {
            rest.push(self.current_input[i]);
            i += 1;
            assert(rest@ =~= self.current_input@.subrange(self.cursor as int, i as int));
        }
        assert(rest@ =~= old(self)@.buffer.skip(old(self)@.cursor - 1));
        self.current_input = rest;
        self.cursor = 0;
        self.suggestion_selection = 0;
        self.clear_before_cursor(screen.row);
        proof {
            let before = old(self)@;
            assert(self@.output =~= before.output + state::full_line(
                before.prefix,
                before.buffer.skip(before.cursor - 1),
                screen.row,
            ) + crate::screen::goto_sequence(before.column_of(1), screen.row));
        }
    }

    /// Replaces the line by line `index` of the history.
    fn recall(&mut self, index: usize, screen: Screen)
        requires
            old(self).wf(),
            index < old(self)@.history.len(),
        ensures
            final(self).wf(),
            final(self)@ == old(self)@.recall(index as int, screen),
            final(self).same_commands(old(self)),
    {
        let line = to_chars(self.previous_input.get(index).as_str());
        self.history_index = index;
        self.cursor = line.len();
        self.current_input = line;
        self.suggestion_selection = 0;
        self.rewrite_line(screen.row);
    }

    /// Recalls the line of the history before the one navigation stands on.
    pub fn navigate_prev(&mut self, screen: Screen)
        requires
            old(self).wf(),
        ensures
            final(self).wf(),
            final(self)@ == old(self)@.navigate_prev(screen),
            final(self).same_commands(old(self)),
    {
        if self.history_index > 0 {
            self.recall(self.history_index - 1, screen);
        }
    }

    /// Recalls the line of the history behind the one navigation stands on.
    pub fn navigate_next(&mut self, screen: Screen)
        requires
            old(self).wf(),
        ensures
            final(self).wf(),
            final(self)@ == old(self)@.navigate_next(screen),
            final(self).same_commands(old(self)),
    {
        let n: usize = self.previous_input.len();
        if n > 0 && self.history_index < n - 1 {
            self.recall(self.history_index + 1, screen);
        }
    }

    /// Chooses the next suggestion, if there is one.
    pub fn cycle_forward(&mut self, screen: Screen)
        requires
            old(self).wf(),
        ensures
            final(self).wf(),
            final(self)@ == old(self)@.cycle_forward(screen),
            final(self).same_commands(old(self)),
    {
        let list = self.current_suggestions();
        if self.suggestion_selection < list.len() {
            self.suggestion_selection += 1;
            self.show_suggestions(screen);
        }
    }

    /// Chooses the suggestion before the chosen one, or none.
    pub fn cycle_backward(&mut self, screen: Screen)
        requires
            old(self).wf(),
        ensures
            final(self).wf(),
            final(self)@ == old(self)@.cycle_backward(screen),
            final(self).same_commands(old(self)),
    {
        if self.suggestion_selection > 0 {
            self.suggestion_selection -= 1;
            self.show_suggestions(screen);
        }
    }

    /// Handles the space: typed where nothing is chosen, else the line
    /// becomes the chosen trigger and a space.
    pub fn accept_with_space(&mut self, screen: Screen)
        requires
            old(self).wf(),
        ensures
            final(self).wf(),
            final(self)@ == old(self)@.accept_with_space(screen),
            final(self).same_commands(old(self)),
    {
        if self.suggestion_selection == 0 {
            self.insert_char(' ', screen);
            return ;
        }
        let list = self.current_suggestions();
        let ghost chosen = old(self)@.suggestions()[old(self)@.selection - 1];
        assert(chosen == (
            list@[self.suggestion_selection - 1].0@,
            list@[self.suggestion_selection - 1].1@,
        ));
        let mut line = to_chars(list[self.suggestion_selection - 1].0.as_str());
        line.push(' ');
        self.suggestion_selection = 0;
        self.clear_after_line(screen);
        self.cursor = line.len();
        self.current_input = line;
        self.rewrite_line(screen.row);
        proof {
            let before = old(self)@;
            let buffer = chosen.0.push(' ');
            assert(self@.output =~= before.output + state::clear_below(before.column(), screen)
                + state::full_line(before.prefix, buffer, screen.row));
        }
    }

    /// Confirms the line. Hands out the confirmed line where the read cycle
    /// ends; `None` where the confirmed line is empty and the cycle goes on.
    pub fn confirm(&mut self) -> (line: Option<String>)
        requires
            old(self).wf(),
        ensures
            final(self).wf(),
            final(self)@ == old(self)@.confirm().0,
            line is Some <==> old(self)@.confirm().1 is Some,
            line is Some ==> line->0@ == old(self)@.confirm().1->0,
            final(self).same_commands(old(self)),
    {
        self.output.append(clear_after_cursor());
        let confirmed = if self.suggestion_selection > 0 {
            let list = self.current_suggestions();
            assert(old(self)@.suggestions()[old(self)@.selection - 1] == (
                list@[self.suggestion_selection - 1].0@,
                list@[self.suggestion_selection - 1].1@,
            ));
            let trigger = to_chars(list[self.suggestion_selection - 1].0.as_str());
            trim(&trigger)
        } else {
            trim(&self.current_input)
        };
        assert(confirmed@ == old(self)@.confirmed_line());
        self.current_input = Vec::new();
        self.cursor = 0;
        self.suggestion_selection = 0;
        assert(self@.buffer =~= Seq::<char>::empty());
        if confirmed.as_str().unicode_len() == 0 {
            self.output.append("\r\n");
            self.output.append(self.prefix.as_str());
            assert(self@.output =~= old(self)@.output
                + crate::screen::clear_after_cursor_sequence() + crate::screen::line_break()
                + old(self)@.prefix);
            None
        } else {
            let kept = confirmed.clone();
            self.previous_input.append_if_changed(kept);
            self.history_index = self.previous_input.len();
            Some(confirmed)
        }
    }

    /// Clears the screen and draws the prompt at its top.
    pub fn clear_screen(&mut self)
        requires
            old(self).wf(),
        ensures
            final(self).wf(),
            final(self)@ == old(self)@.clear_screen(),
            final(self).same_commands(old(self)),
    {
        self.output.append(clear_all());
        put_goto(&mut self.output, 1, 1);
        self.output.append(self.prefix.as_str());
        self.cursor = 0;
        assert(self@.output =~= old(self)@.output + crate::screen::clear_all_sequence()
            + crate::screen::goto_sequence(1, 1) + old(self)@.prefix);
    }

    /// Handles one key. Hands out the confirmed line where the key ended
    /// the read cycle.
    pub fn handle_key(&mut self, event: Event) -> (line: Option<String>)
        requires
            old(self).wf(),
        ensures
            final(self).wf(),
            final(self)@ == old(self)@.step(event).0,
            line is Some <==> old(self)@.step(event).1 is Some,
            line is Some ==> line->0@ == old(self)@.step(event).1->0,
            final(self).same_commands(old(self)),
    {
        proof {
            reveal(State::step);
        }
        let screen = event.screen;
        match event.key {
            Key::Char(c) => {
                if c == '\n' {
                    return self.confirm();
                } else if c == '\t' {
                    self.cycle_forward(screen);
                } else if c == ' ' {
                    self.accept_with_space(screen);
                } else {
                    self.insert_char(c, screen);
                }
            },
            Key::BackTab => self.cycle_backward(screen),
            Key::Backspace => self.delete_backward(screen),
            Key::Delete => self.delete_forward(screen),
            Key::Left => self.move_left(),
            Key::Right => self.move_right(),
            Key::Up => self.navigate_prev(screen),
            Key::Down => self.navigate_next(screen),
            Key::Home => self.move_home(screen),
            Key::End => self.move_end(screen),
            Key::Ctrl(c) => {
                if c == 'u' {
                    self.kill_to_cursor(screen);
                } else if c == 'l' {
                    self.clear_screen();
                }
            },
            Key::Other => {},
        }
        None
    }

    /// Runs one read cycle over `events`: starts the cycle and handles the
    /// keys from the left, up to the first that confirms a line. Hands out
    /// that line; `None` where no key confirmed one.
    pub fn read_chars(&mut self, events: &Vec<Event>) -> (line: Option<String>)
        requires
            old(self).wf(),
        ensures
            final(self).wf(),
            final(self)@ == old(self)@.start_cycle().run(events@).0,
            line is Some <==> old(self)@.start_cycle().run(events@).1 is Some,
            line is Some ==> line->0@ == old(self)@.start_cycle().run(events@).1->0,
            final(self).same_commands(old(self)),
    {
        self.start_cycle();
        let ghost start = self@;
        let mut i: usize = 0;
        assert(events@.skip(0) =~= events@);
        while i < events.len()
            invariant
                i <= events.len(),
                self.wf(),
                self.same_commands(old(self)),
                start == old(self)@.start_cycle(),
                start.run(events@) == self@.run(events@.skip(i as int)),
            decreases events.len() - i,
        {
            proof {
                assert(events@.skip(i as int)[0] == events@[i as int]);
                assert(events@.skip(i as int).skip(1) =~= events@.skip(i + 1));
            }
            match self.handle_key(events[i]) {
                Some(line) => {
                    return Some(line);
                },
                None => {},
            }
            i += 1;
        }
        None
    }
}

} // verus!
