//! The decisions of the interactive mode: what a line of input asks for.
use vstd::prelude::*;
use vstd::string::StrSliceExecFns;
use crate::text::{trim, trimmed, str_eq};
use crate::editor::{LineEditor, well_formed};

verus! {

/// A REPL command (a line that starts with `!`).
#[derive(Clone, Copy, Debug, PartialEq, Eq, Structural)]
pub enum ReplCommand {
    /// `!help`: show the help text.
    Help,
    /// `!exit`: say goodbye and leave.
    Exit,
    /// `!clear`: clear the terminal.
    Clear,
    /// Anything else that starts with `!`.
    Unknown,
}

/// What a line of REPL input asks for.
#[derive(Debug, PartialEq, Eq)]
pub enum ReplInput {
    /// Nothing but white space: read the next line.
    Blank,
    /// A command.
    Command(ReplCommand),
    /// Source code to run: the line without leading and trailing white space.
    Source(String),
}

/// The command that the (trimmed) text `c` names.
pub open spec fn command_of(c: Seq<char>) -> ReplCommand {
    if c == "!help"@ {
        ReplCommand::Help
    } else if c == "!exit"@ {
        ReplCommand::Exit
    } else if c == "!clear"@ {
        ReplCommand::Clear
    } else {
        ReplCommand::Unknown
    }
}

/// The interactive mode's settings.
pub struct Repl {
    disable_jit: bool,
}

impl Repl {
    /// The setting that the REPL runs code with.
    pub closed spec fn jit_off(&self) -> bool {
        self.disable_jit
    }

    /// A REPL that runs code with the JIT compiler off when `disable_jit` holds.
    pub fn new(disable_jit: bool) -> (r: Repl)
        ensures
            r.jit_off() == disable_jit,
    {
        Repl { disable_jit }
    }

    /// Whether this REPL runs code with the JIT compiler off.
    pub fn jit_disabled(&self) -> (b: bool)
        ensures
            b == self.jit_off(),
    {
        self.disable_jit
    }

    /// The command that `command` names: `!help`, `!exit` and `!clear` exactly,
    /// anything else unknown.
    pub fn handle_command(&self, command: &str) -> (c: ReplCommand)
        ensures
            c == command_of(command@),
    {
        if str_eq(command, "!help") {
            ReplCommand::Help
        } else if str_eq(command, "!exit") {
            ReplCommand::Exit
        } else if str_eq(command, "!clear") {
            ReplCommand::Clear
        } else {
            ReplCommand::Unknown
        }
    }

    /// What a line of input asks for: trimmed, an empty line is blank, a line
    /// that starts with `!` is a command, anything else is source to run.
    pub fn classify(&self, input: &str) -> (r: ReplInput)
        ensures
            match r {
                ReplInput::Blank => trimmed(input@).len() == 0,
                ReplInput::Command(c) => trimmed(input@).len() > 0 && trimmed(input@)[0] == '!' && c
                    == command_of(trimmed(input@)),
                ReplInput::Source(src) => trimmed(input@).len() > 0 && trimmed(input@)[0] != '!' && src@
                    == trimmed(input@),
            },
    {
        let t = trim(input);
        if t.unicode_len() == 0 {
            ReplInput::Blank
        } else if t.get_char(0) == '!' {
            ReplInput::Command(self.handle_command(t))
        } else {
            ReplInput::Source(t.to_owned())
        }
    }
}

/// Reads REPL input from the terminal.
pub struct InputReader;

impl InputReader {
    /// A reader of terminal input.
    pub fn new() -> (r: InputReader) {
        InputReader
    }

    /// The buffer that one input is edited in: it starts as one empty line
    /// with the cursor at its start.
    pub fn start(&self) -> (e: LineEditor)
        ensures
            e@.lines == seq![Seq::<char>::empty()],
            e@.row == 0,
            e@.col == 0,
            well_formed(e@),
    {
        LineEditor::new()
    }
}

} // verus!
