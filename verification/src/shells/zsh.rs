//! What `zsh` needs: the function that its start-up file defines, and the
//! reading of what its `alias` builtin prints.
use vstd::prelude::*;
use vstd::hash_map::StringHashMap;
use vstd::string::StringExecFns;
use crate::text::{
    chars_of, copy_range, find_char, first_index, skip_spaces, split, split_chars, string_of,
    texts, trim_start,
};

verus! {

/// What follows the name in the shell function, up to the path of the
/// program.
pub open spec fn function_head() -> Seq<char> {
    "() {\n    export SH_SHELL=zsh;\n    SH_PREV_CMD=\"$(fc -ln -1)\";\n    export SH_PREV_CMD;\n    SH_SHELL_ALIASES=$(alias);\n    export SH_SHELL_ALIASES;\n\n    SH_CMD=$(\n      "@
}

/// What follows the path of the program in the shell function.
pub open spec fn function_tail() -> Seq<char> {
    " fix $@\n    ) && eval \"$SH_CMD\";\n\n    unset SH_SHELL_ALIASES;\n    unset SH_PREV_CMD;\n    unset SH_SHELL;\n}"@
}

/// The text of the shell function `name` that runs the program at `path`.
pub open spec fn shell_function(name: Seq<char>, path: Seq<char>) -> Seq<char> {
    trim_start(name) + function_head() + path + function_tail()
}

/// The definition of a shell function called `name`: it hands the last
/// command and the aliases of the shell to the program at `path`, and
/// evaluates the correction that the program prints. White space before the
/// name is dropped.
pub fn get_shell_function(name: &str, path: &str) -> (function: String)
    ensures
        function@ == shell_function(name@, path@),
{
    let name_chars = chars_of(name);
    let mut function = string_of(&skip_spaces(&name_chars));
    function.append(
        "() {\n    export SH_SHELL=zsh;\n    SH_PREV_CMD=\"$(fc -ln -1)\";\n    export SH_PREV_CMD;\n    SH_SHELL_ALIASES=$(alias);\n    export SH_SHELL_ALIASES;\n\n    SH_CMD=$(\n      ",
    );
    function.append(path);
    function.append(
        " fix $@\n    ) && eval \"$SH_CMD\";\n\n    unset SH_SHELL_ALIASES;\n    unset SH_PREV_CMD;\n    unset SH_SHELL;\n}",
    );
    function
}

/// `value` without the quotes around it, where it stands between two single
/// or two double quotes.
pub open spec fn unquoted(value: Seq<char>) -> Seq<char> {
    if value.len() >= 2 && value.first() == value.last() && (value.first() == '"' || value.first()
        == '\'') {
        value.subrange(1, value.len() - 1)
    } else {
        value
    }
}

/// The alias that one line of the dump defines: the name before the first
/// `=` and the value after it, unquoted. A line without `=` defines none.
pub open spec fn alias_of_line(line: Seq<char>) -> Option<(Seq<char>, Seq<char>)> {
    let at = first_index(line, '=');
    if at < line.len() {
        Some((line.take(at), unquoted(line.skip(at + 1))))
    } else {
        None
    }
}

/// The aliases that `lines` define. Where a name is defined twice, the later
/// line counts.
pub open spec fn alias_table(lines: Seq<Seq<char>>) -> Map<Seq<char>, Seq<char>>
    decreases lines.len(),
{
    if lines.len() == 0 {
        Map::empty()
    } else {
        let before = alias_table(lines.drop_last());
        match alias_of_line(lines.last()) {
            Some((name, value)) => before.insert(name, value),
            None => before,
        }
    }
}

/// The aliases that a dump defines, one per line.
pub open spec fn parsed_aliases(raw: Seq<char>) -> Map<Seq<char>, Seq<char>> {
    alias_table(split(raw, '\n'))
}

/// The text of each value of `table`.
pub open spec fn value_texts(table: Map<Seq<char>, String>) -> Map<Seq<char>, Seq<char>> {
    Map::new(|name: Seq<char>| table.contains_key(name), |name: Seq<char>| table[name]@)
}

/// Removes the quotes around `value`, where it stands between two.
fn unquote(value: Vec<char>) -> (out: Vec<char>)
    ensures
        out@ == unquoted(value@),
{
    let n = value.len();
    if n >= 2 && value[0] == value[n - 1] && (value[0] == '"' || value[0] == '\'') {
        copy_range(&value, 1, n - 1)
    } else {
        value
    }
}

/// Reads the aliases out of what the shell's `alias` builtin printed: one
/// `name=value` per line, the value possibly in quotes.
pub fn parse_alias(raw_aliases: String) -> (aliases: StringHashMap<String>)
    ensures
        value_texts(aliases@) == parsed_aliases(raw_aliases@),
{
    let chars = chars_of(raw_aliases.as_str());
    let lines = split_chars(&chars, '\n');
    let mut aliases: StringHashMap<String> = StringHashMap::new();
    let mut i: usize = 0;
    assert(texts(lines@).take(0) == Seq::<Seq<char>>::empty());
    assert(value_texts(aliases@) == Map::<Seq<char>, Seq<char>>::empty());
    while i < lines.len()
        invariant
            i <= lines.len(),
            value_texts(aliases@) == alias_table(texts(lines@).take(i as int)),
        decreases lines.len() - i,
    {
        let line = &lines[i];
        proof {
            let upto = texts(lines@).take(i + 1);
            assert(upto.drop_last() == texts(lines@).take(i as int));
            assert(upto.last() == line@);
        }
        let at = find_char(line, '=');
        if at < line.len() {
            let name = copy_range(line, 0, at);
            let value = unquote(copy_range(line, at + 1, line.len()));
            let ghost before = aliases@;
            let value_string = string_of(&value);
            aliases.insert(string_of(&name), value_string);
            proof {
                assert(line@.take(at as int) == line@.subrange(0, at as int));
                assert(line@.skip(at + 1) == line@.subrange(at + 1, line.len() as int));
                assert(value_texts(before.insert(name@, value_string)) == value_texts(
                    before,
                ).insert(name@, value@));
            }
        }
        i += 1;
    }
    assert(texts(lines@).take(lines.len() as int) == texts(lines@));
    aliases
}

/// The aliases of the shell. `raw_aliases` is what the shell hook stored of
/// the shell's alias dump; where it stored nothing, there are no aliases.
pub fn get_aliases(raw_aliases: Option<String>) -> (aliases: StringHashMap<String>)
    ensures
        value_texts(aliases@) == match raw_aliases {
            Some(raw) => parsed_aliases(raw@),
            None => Map::empty(),
        },
{
    match raw_aliases {
        Some(raw) => parse_alias(raw),
        None => {
            let aliases: StringHashMap<String> = StringHashMap::new();
            assert(value_texts(aliases@) == Map::<Seq<char>, Seq<char>>::empty());
            aliases
        },
    }
}

} // verus!
