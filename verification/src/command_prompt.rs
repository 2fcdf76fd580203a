//! The command prompt: a line of typed characters that names a command.

use vstd::prelude::*;
use crate::command::{Command, CommandView};
use crate::event::{Event, Key};
use crate::term::{clear_line, clear_line_sequence, goto, goto_sequence};
use crate::text::{pop_char, push_char, str_eq};

verus! {

/// The command prompt and what was typed at it.
#[derive(Debug)]
pub struct CommandPrompt {
    keys: String,
}

/// The command that a typed line names: `s` and `save` save the current
/// view, `q` and `quit` leave; any other line is handed on as no command.
pub open spec fn typed_command(keys: Seq<char>) -> CommandView {
    if keys == "s"@ || keys == "save"@ {
        CommandView::Save(None)
    } else if keys == "q"@ || keys == "quit"@ {
        CommandView::Quit
    } else {
        CommandView::Invalid(keys)
    }
}

/// What the prompt shows on screen row `row`: the cursor goes to the start of
/// the row, the row is cleared, and a colon and the typed line are written.
pub open spec fn prompt_sequence(keys: Seq<char>, row: u16) -> Seq<char> {
    goto_sequence(1, row) + clear_line_sequence() + seq![':'] + keys
}

/// Whether an optional command has the given mathematical value.
pub open spec fn command_is(cmd: Option<Command>, value: Option<CommandView>) -> bool {
    match cmd {
        Some(c) => value == Some(c@),
        None => value is None,
    }
}

impl CommandPrompt {
    /// What was typed and not yet entered.
    pub closed spec fn typed(&self) -> Seq<char> {
        self.keys@
    }

    /// An empty prompt.
    pub fn new() -> (prompt: CommandPrompt)
        ensures
            prompt.typed() == Seq::<char>::empty(),
    {
        CommandPrompt { keys: String::new() }
    }

    /// What was typed and not yet entered.
    pub fn keys(&self) -> (keys: &str)
        ensures
            keys@ == self.typed(),
    {
        self.keys.as_str()
    }

    /// Takes an input event: enter gives the command that the typed line
    /// names, backspace takes the last character back, any other character is
    /// typed, and every other event is passed over.
    pub fn handle_input(&mut self, input: Event) -> (r: Option<Command>)
        ensures
            match input {
                Event::Key(Key::Char(c)) => if c == '\n' {
                    &&& command_is(r, Some(typed_command(old(self).typed())))
                    &&& final(self).typed() == Seq::<char>::empty()
                } else {
                    &&& r is None
                    &&& final(self).typed() == old(self).typed().push(c)
                },
                Event::Key(Key::Backspace) => if old(self).typed().len() > 0 {
                    &&& r is None
                    &&& final(self).typed() == old(self).typed().drop_last()
                } else {
                    &&& command_is(r, Some(CommandView::Cancel))
                    &&& final(self).typed() == old(self).typed()
                },
                _ => r is None && final(self).typed() == old(self).typed(),
            },
    {
        match input {
            Event::Key(Key::Char(c)) => {
                if c == '\n' {
                    self.finalize()
                } else {
                    self.new_key(c)
                }
            },
            Event::Key(Key::Backspace) => self.back(),
            _ => None,
        }
    }

    /// Takes the last typed character back; at an empty prompt, leaves the
    /// prompt.
    pub fn back(&mut self) -> (r: Option<Command>)
        ensures
            if old(self).typed().len() > 0 {
                &&& r is None
                &&& final(self).typed() == old(self).typed().drop_last()
            } else {
                &&& command_is(r, Some(CommandView::Cancel))
                &&& final(self).typed() == old(self).typed()
            },
    {
        match pop_char(&mut self.keys) {
            Some(_) => None,
            None => Some(Command::Cancel),
        }
    }

    /// Types one character.
    pub fn new_key(&mut self, chr: char) -> (r: Option<Command>)
        ensures
            r is None,
            final(self).typed() == old(self).typed().push(chr),
    {
        push_char(&mut self.keys, chr);
        None
    }

    /// Enters the typed line: gives the command that it names, and empties
    /// the prompt.
    pub fn finalize(&mut self) -> (r: Option<Command>)
        ensures
            command_is(r, Some(typed_command(old(self).typed()))),
            final(self).typed() == Seq::<char>::empty(),
    {
        let mut keys = String::new();
        core::mem::swap(&mut keys, &mut self.keys);
        let line = keys.as_str();
        if str_eq(line, "s") || str_eq(line, "save") {
            Some(Command::Save(None))
        } else if str_eq(line, "q") || str_eq(line, "quit") {
            Some(Command::Quit)
        } else {
            Some(Command::Invalid(keys))
        }
    }

    /// What the prompt shows on screen row `row`.
    pub fn render(&self, row: u16) -> (out: String)
        ensures
            out@ == prompt_sequence(self.typed(), row),
    {
        let first = goto(1, row);
        let clear = clear_line();
        let mut out = String::new();
        out.append(first.as_str());
        out.append(clear.as_str());
        push_char(&mut out, ':');
        out.append(self.keys.as_str());
        assert(out@ =~= prompt_sequence(self.typed(), row));
        out
    }
}

impl Default for CommandPrompt {
    fn default() -> (prompt: CommandPrompt)
        ensures
            prompt.typed() == Seq::<char>::empty(),
    {
        CommandPrompt::new()
    }
}

} // verus!
