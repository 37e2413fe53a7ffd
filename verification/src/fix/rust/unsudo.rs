//! A command that refuses to run as root is run again without `sudo`.
use vstd::prelude::*;
use crate::fix::structs::{Command, CommandText};
use crate::text::{
    chars_of, contains_str, contains_text, copy_range, first_word, first_word_is, lowered,
    skip_spaces, string_of, to_lower, trim_start,
};

verus! {

/// Whether `output`, whatever its case, says that the program does not run
/// as root.
pub open spec fn refuses_root(output: Seq<char>) -> bool {
    contains_text(lowered(output), "you cannot perform this operation as root"@)
}

/// The rule applies to a command that is run under `sudo` and whose output,
/// on either stream, says that it does not run as root.
pub open spec fn matches(command: CommandText) -> bool {
    first_word(command.command) == "sudo"@ && (refuses_root(command.stdout) || refuses_root(
        command.stderr,
    ))
}

/// The correction: the command without its first four characters and the
/// white space that follows them.
pub open spec fn fixed(command: CommandText) -> Seq<char> {
    if command.command.len() >= 4 {
        trim_start(command.command.skip(4))
    } else {
        command.command
    }
}

/// Whether `output` says that the program does not run as root.
fn output_refuses_root(output: &str) -> (refuses: bool)
    ensures
        refuses == refuses_root(output@),
{
    let text = to_lower(&chars_of(output));
    contains_str(&text, "you cannot perform this operation as root")
}

pub fn is_match(command: &Command) -> (applies: bool)
    ensures
        applies == matches(command@),
{
    let line = chars_of(command.command());
    if !first_word_is(&line, "sudo") {
        return false;
    }
    output_refuses_root(command.output().stdout()) || output_refuses_root(
        command.output().stderr(),
    )
}

pub fn fix(command: &Command) -> (correction: String)
    ensures
        correction@ == fixed(command@),
{
    let line = chars_of(command.command());
    if line.len() >= 4 {
        let rest = copy_range(&line, 4, line.len());
        proof {
            assert(line@.skip(4) == line@.subrange(4, line.len() as int));
        }
        string_of(&skip_spaces(&rest))
    } else {
        string_of(&line)
    }
}

} // verus!
