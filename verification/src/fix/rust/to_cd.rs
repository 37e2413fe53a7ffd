//! `cs` typed for `cd`.
use vstd::prelude::*;
use vstd::string::StringExecFns;
use crate::fix::structs::{Command, CommandText};
use crate::text::{chars_of, copy_range, first_word, first_word_is, string_of};

verus! {

/// The rule applies to a command whose first word is `cs`.
pub open spec fn matches(command: CommandText) -> bool {
    first_word(command.command) == "cs"@
}

/// The correction: `cd` in place of the first two characters.
pub open spec fn fixed(command: CommandText) -> Seq<char> {
    if command.command.len() >= 2 {
        "cd"@ + command.command.skip(2)
    } else {
        "cd"@
    }
}

pub fn is_match(command: &Command) -> (applies: bool)
    ensures
        applies == matches(command@),
{
    let line = chars_of(command.command());
    first_word_is(&line, "cs")
}

pub fn fix(command: &Command) -> (correction: String)
    ensures
        correction@ == fixed(command@),
{
    let line = chars_of(command.command());
    let mut correction = "cd".to_owned();
    if line.len() >= 2 {
        let rest = string_of(&copy_range(&line, 2, line.len()));
        proof {
            assert(line@.skip(2) == line@.subrange(2, line.len() as int));
        }
        correction.append(rest.as_str());
    }
    correction
}

} // verus!
