//! A `cargo` subcommand that does not exist is replaced by the one that
//! `cargo` suggests.
use vstd::prelude::*;
use vstd::string::StringExecFns;
use crate::fix::structs::{Command, CommandText};
use crate::text::{
    chars_of, contains_str, contains_text, copy_range, find_char, find_text, first_index,
    first_occurrence, first_word, first_word_is, lowered, occurs_at, skip_spaces, string_of,
    to_lower, trim_start,
};

verus! {

/// What `cargo` prints before the subcommand that it suggests.
pub open spec fn suggestion_marker() -> Seq<char> {
    "a command with a similar name exists: `"@
}

/// The rule applies to a `cargo` command whose error output says that the
/// subcommand does not exist and suggests another.
pub open spec fn matches(command: CommandText) -> bool {
    &&& first_word(command.command) == "cargo"@
    &&& contains_text(lowered(command.stderr), "no such command"@)
    &&& contains_text(command.stderr, suggestion_marker())
}

/// The subcommand that `stderr` suggests: what stands between the marker and
/// the next backquote. There is none where either is missing.
pub open spec fn suggestion(stderr: Seq<char>) -> Option<Seq<char>> {
    if contains_text(stderr, suggestion_marker()) {
        let after = stderr.skip(first_occurrence(stderr, suggestion_marker()) + 39);
        let end = first_index(after, '`');
        if end < after.len() {
            Some(after.take(end))
        } else {
            None
        }
    } else {
        None
    }
}

/// The correction: the command with the suggested subcommand in place of
/// its second word. There is none where nothing is suggested, or where the
/// command has no second word.
pub open spec fn fixed(command: CommandText) -> Option<Seq<char>> {
    let line = command.command;
    match suggestion(command.stderr) {
        Some(subcommand) => {
            if line.len() >= 5 && trim_start(line.skip(5)).len() > 0 {
                let arguments = trim_start(line.skip(5));
                Some("cargo "@ + subcommand + arguments.skip(first_index(arguments, ' ')))
            } else {
                None
            }
        },
        None => None,
    }
}

/// What the rule says where it has no correction.
pub open spec fn no_suggestion_text() -> Seq<char> {
    "cargo suggests no subcommand"@
}

pub fn is_match(command: &Command) -> (applies: bool)
    ensures
        applies == matches(command@),
{
    let line = chars_of(command.command());
    if !first_word_is(&line, "cargo") {
        return false;
    }
    let stderr = chars_of(command.output().stderr());
    let lower = to_lower(&stderr);
    contains_str(&lower, "no such command") && contains_str(
        &stderr,
        "a command with a similar name exists: `",
    )
}

/// The subcommand that `stderr` suggests.
fn find_suggestion(stderr: &Vec<char>) -> (found: Option<Vec<char>>)
    ensures
        match found {
            Some(subcommand) => suggestion(stderr@) == Some(subcommand@),
            None => suggestion(stderr@) is None,
        },
{
    let marker = chars_of("a command with a similar name exists: `");
    proof {
        reveal_strlit("a command with a similar name exists: `");
    }
    match find_text(stderr, &marker) {
        Some(at) => {
            assert(occurs_at(stderr@, marker@, at as int));
            assert(at + marker@.len() <= stderr@.len());
            assert(marker.len() == marker@.len());
            assert(stderr.len() == stderr@.len());
            let start = at + marker.len();
            let after = copy_range(stderr, start, stderr.len());
            proof {
                assert(marker@.len() == 39);
                assert(stderr@.skip(at + 39) == stderr@.subrange(at + 39, stderr.len() as int));
            }
            let end = find_char(&after, '`');
            if end < after.len() {
                proof {
                    assert(after@.take(end as int) == after@.subrange(0, end as int));
                }
                Some(copy_range(&after, 0, end))
            } else {
                None
            }
        },
        None => None,
    }
}

pub fn fix(command: &Command) -> (correction: Result<String, String>)
    ensures
        match correction {
            Ok(text) => fixed(command@) == Some(text@),
            Err(reason) => fixed(command@) is None && reason@ == no_suggestion_text(),
        },
{
    let line = chars_of(command.command());
    let stderr = chars_of(command.output().stderr());
    let subcommand = match find_suggestion(&stderr) {
        Some(subcommand) => subcommand,
        None => {
            return Err("cargo suggests no subcommand".to_owned());
        },
    };
    if line.len() < 5 {
        return Err("cargo suggests no subcommand".to_owned());
    }
    let arguments = skip_spaces(&copy_range(&line, 5, line.len()));
    proof {
        assert(line@.skip(5) == line@.subrange(5, line.len() as int));
    }
    if arguments.len() == 0 {
        return Err("cargo suggests no subcommand".to_owned());
    }
    let end = find_char(&arguments, ' ');
    let rest = string_of(&copy_range(&arguments, end, arguments.len()));
    proof {
        assert(arguments@.skip(end as int) == arguments@.subrange(
            end as int,
            arguments.len() as int,
        ));
    }
    let mut text = "cargo ".to_owned();
    text.append(string_of(&subcommand).as_str());
    text.append(rest.as_str());
    Ok(text)
}

} // verus!
