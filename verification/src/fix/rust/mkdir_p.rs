//! `mkdir` that failed because a directory on the way is missing is run
//! again with `-p`.
use vstd::prelude::*;
use vstd::string::StringExecFns;
use crate::fix::structs::{Command, CommandText};
use crate::text::{
    chars_of, contains_str, contains_text, copy_range, find_text, first_occurrence, string_of,
};

verus! {

/// The rule applies to a command that names `mkdir` and whose output, on
/// either stream, says that a file or directory is missing.
pub open spec fn matches(command: CommandText) -> bool {
    contains_text(command.command, "mkdir"@) && (contains_text(
        command.stdout,
        "No such file or directory"@,
    ) || contains_text(command.stderr, "No such file or directory"@))
}

/// The correction: the command with `-p` after its first `mkdir`. There is
/// none where no `mkdir` is followed by a blank.
pub open spec fn fixed(command: CommandText) -> Option<Seq<char>> {
    let line = command.command;
    if contains_text(line, "mkdir "@) {
        let at = first_occurrence(line, "mkdir "@);
        Some(line.take(at) + "mkdir -p "@ + line.skip(at + 6))
    } else {
        None
    }
}

/// What the rule says where it has no correction.
pub open spec fn no_argument_text() -> Seq<char> {
    "mkdir is given nothing to create"@
}

pub fn is_match(command: &Command) -> (applies: bool)
    ensures
        applies == matches(command@),
{
    let line = chars_of(command.command());
    if !contains_str(&line, "mkdir") {
        return false;
    }
    let stdout = chars_of(command.output().stdout());
    let stderr = chars_of(command.output().stderr());
    contains_str(&stdout, "No such file or directory") || contains_str(
        &stderr,
        "No such file or directory",
    )
}

pub fn fix(command: &Command) -> (correction: Result<String, String>)
    ensures
        match correction {
            Ok(text) => fixed(command@) == Some(text@),
            Err(reason) => fixed(command@) is None && reason@ == no_argument_text(),
        },
{
    let line = chars_of(command.command());
    let pattern = chars_of("mkdir ");
    proof {
        reveal_strlit("mkdir ");
    }
    match find_text(&line, &pattern) {
        Some(at) => {
            let mut text = string_of(&copy_range(&line, 0, at));
            text.append("mkdir -p ");
            let rest = string_of(&copy_range(&line, at + 6, line.len()));
            text.append(rest.as_str());
            proof {
                assert(line@.take(at as int) == line@.subrange(0, at as int));
                assert(line@.skip(at + 6) == line@.subrange(at + 6, line.len() as int));
            }
            Ok(text)
        },
        None => Err("mkdir is given nothing to create".to_owned()),
    }
}

} // verus!
