//! The decisions of the prompt loop: what a confirmed line leads to, and
//! what is reported of it. The loop itself, which reads the keys and writes
//! to the screen, belongs to the embedding program.
use vstd::prelude::*;
use vstd::hash_map::StringHashMap;
use crate::arguments::{flag_values, parse_arguments, parse_line, Argument, ArgumentResult, ParsedLine};
use crate::command::CommandResult;
use crate::screen::line_break;
use crate::terminal::{code_point, Terminal};

verus! {

/// What became of a confirmed line.
pub enum LineOutcome {
    /// The line could not be parsed.
    Unparseable,
    /// The line names a command that is not registered.
    NotFound,
    /// The command ran, with this result.
    Ran(CommandResult),
}

/// What is reported of a confirmed line: nothing but a line break where the
/// command asked to stop; else, on a row of its own, the word for success or
/// failure and the message. A line that could not be parsed and a command
/// that was not found are failures with messages of their own.
pub open spec fn report_text(line: Seq<char>, outcome: LineOutcome) -> Seq<char> {
    match outcome {
        LineOutcome::Unparseable => "\r\n[FAILURE] "@ + line + ": malformed arguments"@
            + line_break(),
        LineOutcome::NotFound => "\r\n[FAILURE] "@ + line + ": command not found"@ + line_break(),
        LineOutcome::Ran(CommandResult::Success(message)) => "\r\n[SUCCESS] "@ + message@
            + line_break(),
        LineOutcome::Ran(CommandResult::Failure(message)) => "\r\n[FAILURE] "@ + message@
            + line_break(),
        LineOutcome::Ran(CommandResult::Exit) => line_break(),
    }
}

/// Whether the prompt loop ends with this outcome.
pub open spec fn ends_loop(outcome: LineOutcome) -> bool {
    outcome matches LineOutcome::Ran(CommandResult::Exit)
}

impl<C, S> Terminal<C, S> where
    C: Fn(StringHashMap<Argument>) -> CommandResult,
    S: Fn(String) -> CommandResult,
 {
    /// Parses a confirmed line and runs the command it names.
    ///
    /// A line that does not parse is `Unparseable`. A special invocation
    /// runs the handler of its trigger character on the rest of the
    /// line, a named command the handler of its name on its flags; where
    /// there is no such handler the outcome is `NotFound`.
    pub fn dispatch(&self, line: &str) -> (r: LineOutcome)
        requires
            self.wf(),
        ensures
            match parse_line(line@) {
                None => r is Unparseable,
                Some(ParsedLine::Special(c, rest)) => if self.special_commands().contains_key(
                    code_point(c),
                ) {
                    r is Ran && exists|text: String|
                        text@ == rest && #[trigger] call_ensures(
                            self.special_commands()[code_point(c)],
                            (text,),
                            r->Ran_0,
                        )
                } else {
                    r is NotFound
                },
                Some(ParsedLine::Command(name, flags)) => if self.commands().contains_key(name) {
                    r is Ran && exists|given: StringHashMap<Argument>|
                        flag_values(given@) == flags && #[trigger] call_ensures(
                            self.commands()[name],
                            (given,),
                            r->Ran_0,
                        )
                } else {
                    r is NotFound
                },
            },
    {
        match parse_arguments(line) {
            None => LineOutcome::Unparseable,
            Some(ArgumentResult::Special(c, rest)) => {
                let ghost text = rest;
                match self.execute_special_command(c, rest) {
                    Some(result) => {
                        assert(call_ensures(
                            self.special_commands()[code_point(c)],
                            (text,),
                            result,
                        ));
                        LineOutcome::Ran(result)
                    },
                    None => LineOutcome::NotFound,
                }
            },
            Some(ArgumentResult::Command(name, flags)) => {
                let ghost given = flags;
                let ghost key = name@;
                match self.execute_command(name, flags) {
                    Some(result) => {
                        assert(call_ensures(self.commands()[key], (given,), result));
                        LineOutcome::Ran(result)
                    },
                    None => LineOutcome::NotFound,
                }
            },
        }
    }

    /// Draws what is reported of a confirmed line. Returns whether the
    /// prompt loop ends.
    pub fn report(&mut self, line: &str, outcome: &LineOutcome) -> (exit: bool)
        ensures
            final(self)@ == old(self)@.emit(report_text(line@, *outcome)),
            exit == ends_loop(*outcome),
            final(self).same_commands(old(self)),
            old(self).wf() ==> final(self).wf(),
    {
        let ghost before = self@.output;
        match outcome {
            LineOutcome::Unparseable => {
                self.write("\r\n[FAILURE] ");
                self.write(line);
                self.write(": malformed arguments");
                self.new_line();
                assert(self@.output =~= before + report_text(line@, *outcome));
                false
            },
            LineOutcome::NotFound => {
                self.write("\r\n[FAILURE] ");
                self.write(line);
                self.write(": command not found");
                self.new_line();
                assert(self@.output =~= before + report_text(line@, *outcome));
                false
            },
            LineOutcome::Ran(CommandResult::Success(message)) => {
                self.write("\r\n[SUCCESS] ");
                self.write(message.as_str());
                self.new_line();
                assert(self@.output =~= before + report_text(line@, *outcome));
                false
            },
            LineOutcome::Ran(CommandResult::Failure(message)) => {
                self.write("\r\n[FAILURE] ");
                self.write(message.as_str());
                self.new_line();
                assert(self@.output =~= before + report_text(line@, *outcome));
                false
            },
            LineOutcome::Ran(CommandResult::Exit) => {
                self.new_line();
                true
            },
        }
    }
}

} // verus!
