//! Putting the shell's aliases back into a command line.
use vstd::prelude::*;
use vstd::hash_map::StringHashMap;
use vstd::string::StringExecFns;
use crate::shells::zsh::value_texts;
use crate::text::{chars_of, copy_range, find_char, first_word, string_of};

verus! {

/// `command` with its first word replaced by what the word is an alias for.
/// A command whose first word is empty or no alias stays as it is. What the
/// alias stands for is not expanded again.
pub open spec fn expanded(command: Seq<char>, aliases: Map<Seq<char>, Seq<char>>) -> Seq<char> {
    let word = first_word(command);
    if word.len() > 0 && aliases.contains_key(word) {
        aliases[word] + command.skip(word.len() as int)
    } else {
        command
    }
}

/// Replaces the first word of `command` by what it is an alias for.
pub fn expand_aliases(command: &str, aliases: &StringHashMap<String>) -> (line: String)
    ensures
        line@ == expanded(command@, value_texts(aliases@)),
{
    let chars = chars_of(command);
    let end = find_char(&chars, ' ');
    proof {
        assert(chars@.take(end as int) == chars@.subrange(0, end as int));
        assert(chars@.skip(end as int) == chars@.subrange(end as int, chars.len() as int));
    }
    if end == 0 {
        return string_of(&chars);
    }
    let word = string_of(&copy_range(&chars, 0, end));
    match aliases.get(word.as_str()) {
        Some(value) => {
            let mut line = value.clone();
            let rest = string_of(&copy_range(&chars, end, chars.len()));
            line.append(rest.as_str());
            line
        },
        None => string_of(&chars),
    }
}

} // verus!
