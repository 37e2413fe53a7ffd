//! A command that failed for want of privilege is run again under `sudo`.
use vstd::prelude::*;
use vstd::string::StringExecFns;
use crate::fix::structs::{Command, CommandText};
use crate::text::{chars_of, contains_str, contains_text, first_word, first_word_is, lowered, to_lower};

verus! {

/// Whether `output`, whatever its case, holds one of the phrases by which
/// programs say that they lack privilege.
pub open spec fn tells_of_privilege(output: Seq<char>) -> bool {
    let text = lowered(output);
    ||| contains_text(text, "permission denied"@)
    ||| contains_text(text, "eacces"@)
    ||| contains_text(text, "operation not permitted"@)
    ||| contains_text(text, "must be run as root"@)
    ||| contains_text(text, "must be root"@)
    ||| contains_text(text, "need to be root"@)
    ||| contains_text(text, "authentication is required"@)
}

/// The rule applies to a command that is not yet run under `sudo` and whose
/// output, on either stream, tells of missing privilege.
pub open spec fn matches(command: CommandText) -> bool {
    first_word(command.command) != "sudo"@ && (tells_of_privilege(command.stdout)
        || tells_of_privilege(command.stderr))
}

/// The correction: the same command under `sudo`.
pub open spec fn fixed(command: CommandText) -> Seq<char> {
    "sudo "@ + command.command
}

/// Whether `output` tells of missing privilege.
fn output_tells_of_privilege(output: &str) -> (tells: bool)
    ensures
        tells == tells_of_privilege(output@),
{
    let text = to_lower(&chars_of(output));
    contains_str(&text, "permission denied") || contains_str(&text, "eacces") || contains_str(
        &text,
        "operation not permitted",
    ) || contains_str(&text, "must be run as root") || contains_str(&text, "must be root")
        || contains_str(&text, "need to be root") || contains_str(
        &text,
        "authentication is required",
    )
}

pub fn is_match(command: &Command) -> (applies: bool)
    ensures
        applies == matches(command@),
{
    let line = chars_of(command.command());
    if first_word_is(&line, "sudo") {
        return false;
    }
    output_tells_of_privilege(command.output().stdout()) || output_tells_of_privilege(
        command.output().stderr(),
    )
}

pub fn fix(command: &Command) -> (correction: String)
    ensures
        correction@ == fixed(command@),
{
    let mut correction = "sudo ".to_owned();
    correction.append(command.command());
    correction
}

} // verus!
