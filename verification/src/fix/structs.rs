//! The failed command and what it printed.
use vstd::prelude::*;

verus! {

/// What a command printed, as text.
pub struct CommandOutput {
    stdout: String,
    stderr: String,
}

/// A failed command: the line that was run and what it printed. It is made
/// once and only read afterwards.
pub struct Command {
    command: String,
    output: CommandOutput,
}

/// The three texts of a `Command`.
pub ghost struct CommandText {
    pub command: Seq<char>,
    pub stdout: Seq<char>,
    pub stderr: Seq<char>,
}

impl CommandOutput {
    /// The text of standard output.
    pub closed spec fn stdout_text(&self) -> Seq<char> {
        self.stdout@
    }

    /// The text of standard error.
    pub closed spec fn stderr_text(&self) -> Seq<char> {
        self.stderr@
    }

    pub fn new(stdout: String, stderr: String) -> (output: CommandOutput)
        ensures
            output.stdout_text() == stdout@,
            output.stderr_text() == stderr@,
    {
        CommandOutput { stdout, stderr }
    }

    pub fn stdout(&self) -> (text: &str)
        ensures
            text@ == self.stdout_text(),
    {
        self.stdout.as_str()
    }

    pub fn stderr(&self) -> (text: &str)
        ensures
            text@ == self.stderr_text(),
    {
        self.stderr.as_str()
    }
}

impl View for Command {
    type V = CommandText;

    closed spec fn view(&self) -> CommandText {
        CommandText {
            command: self.command@,
            stdout: self.output.stdout_text(),
            stderr: self.output.stderr_text(),
        }
    }
}

impl Command {
    pub fn new(command: String, output: CommandOutput) -> (made: Command)
        ensures
            made@.command == command@,
            made@.stdout == output.stdout_text(),
            made@.stderr == output.stderr_text(),
    {
        Command { command, output }
    }

    pub fn command(&self) -> (text: &str)
        ensures
            text@ == self@.command,
    {
        self.command.as_str()
    }

    pub fn output(&self) -> (output: &CommandOutput)
        ensures
            output.stdout_text() == self@.stdout,
            output.stderr_text() == self@.stderr,
    {
        &self.output
    }
}

} // verus!
