//! Rules that turn a failed command into its correction, and the order in
//! which they are asked: the compiled-in rules first, in the order in which
//! the configuration names them, and the script rules only where none of
//! those has a correction.
pub mod paths;
pub mod python;
pub mod rust;
pub mod security;
pub mod structs;

use vstd::prelude::*;
use vstd::hash_map::StringHashMap;
use crate::error::{AppError, AppResult};
use crate::misc::{expand_aliases, expanded};
use crate::shells::enums::Shell;
use crate::shells::zsh::value_texts;
use rust::{native_fix, rule_named, unknown_rule_prefix, NativeRule};
use structs::{Command, CommandOutput, CommandText};

verus! {

/// Why no corrected command is given.
#[derive(Debug, Clone, Copy, PartialEq, Eq, Structural)]
pub enum FixFailure {
    /// The shell in use is not known.
    NoShell,
    /// The script rule files share no directory.
    NoCommonParent,
    /// No rule has a correction.
    NoFixFound,
}

/// The first of `names` that is no rule's name, if any.
pub open spec fn first_unknown(names: Seq<Seq<char>>) -> Option<Seq<char>>
    decreases names.len(),
{
    if names.len() == 0 {
        None
    } else if rule_named(names[0]) is None {
        Some(names[0])
    } else {
        first_unknown(names.drop_first())
    }
}

/// The rules that `names` name, in order. It is meaningful only where every
/// name is a rule's.
pub open spec fn rules_named(names: Seq<Seq<char>>) -> Seq<NativeRule> {
    Seq::new(names.len(), |i: int| rule_named(names[i])->0)
}

/// The rules that the configuration names, in its order. One name that is
/// no rule's makes the whole list a configuration error, before any rule is
/// asked.
pub fn parse_rule_names(names: &Vec<String>) -> (rules: AppResult<Vec<NativeRule>>)
    ensures
        match rules {
            Ok(found) => first_unknown(paths::string_texts(names@)) is None && found@
                == rules_named(paths::string_texts(names@)),
            Err(AppError::Config(detail)) => first_unknown(paths::string_texts(names@)) matches Some(
                name,
            ) && detail@ == unknown_rule_prefix() + name,
            Err(_) => false,
        },
{
    let ghost all = paths::string_texts(names@);
    let mut found: Vec<NativeRule> = Vec::new();
    let mut i: usize = 0;
    proof {
        assert(all.skip(0) == all);
    }
    while i < names.len()
        invariant
            i <= names.len(),
            all == paths::string_texts(names@),
            first_unknown(all) == first_unknown(all.skip(i as int)),
            found@ == rules_named(all.take(i as int)),
        decreases names.len() - i,
    {
        proof {
            assert(all.skip(i as int).drop_first() == all.skip(i + 1));
            assert(all.skip(i as int)[0] == names@[i as int]@);
        }
        match NativeRule::from_str(names[i].as_str()) {
            Ok(rule) => {
                found.push(rule);
                proof {
                    assert(found@ =~= rules_named(all.take(i + 1)));
                }
            },
            Err(error) => {
                return Err(error);
            },
        }
        i += 1;
    }
    proof {
        assert(all.take(names.len() as int) == all);
    }
    Ok(found)
}

/// The correction of the first of `rules` that has one.
pub open spec fn first_native_fix(rules: Seq<NativeRule>, command: CommandText) -> Option<
    Seq<char>,
>
    decreases rules.len(),
{
    if rules.len() == 0 {
        None
    } else {
        match native_fix(rules[0], command) {
            Some(text) => Some(text),
            None => first_native_fix(rules.drop_first(), command),
        }
    }
}

/// Asks the compiled-in rules in order and returns the first correction.
pub fn fix_with_native_rules(rules: &Vec<NativeRule>, command: &Command) -> (fixed: Option<String>)
    ensures
        match fixed {
            Some(text) => first_native_fix(rules@, command@) == Some(text@),
            None => first_native_fix(rules@, command@) is None,
        },
{
    let mut i: usize = 0;
    proof {
        assert(rules@.skip(0) == rules@);
    }
    while i < rules.len()
        invariant
            i <= rules.len(),
            first_native_fix(rules@, command@) == first_native_fix(rules@.skip(i as int), command@),
        decreases rules.len() - i,
    {
        proof {
            assert(rules@.skip(i as int).drop_first() == rules@.skip(i + 1));
        }
        match rules[i].fix_native(command) {
            Some(text) => {
                return Some(text);
            },
            None => {},
        }
        i += 1;
    }
    None
}

/// What the script rules contribute to the outcome: the first of their
/// corrections. A batch whose files share no directory stops the run;
/// nothing else that goes wrong with script rules does.
pub open spec fn is_script_choice(
    chosen: Result<String, FixFailure>,
    outcome: AppResult<Vec<String>>,
) -> bool {
    match outcome {
        Ok(fixes) => if fixes.len() > 0 {
            chosen matches Ok(text) && text@ == fixes@[0]@
        } else {
            chosen == Err::<String, FixFailure>(FixFailure::NoFixFound)
        },
        Err(AppError::Config(_)) => chosen == Err::<String, FixFailure>(FixFailure::NoCommonParent),
        Err(_) => chosen == Err::<String, FixFailure>(FixFailure::NoFixFound),
    }
}

/// Chooses among what the script rules gave.
pub fn choose_script_fix(outcome: AppResult<Vec<String>>) -> (chosen: Result<String, FixFailure>)
    ensures
        is_script_choice(chosen, outcome),
{
    match outcome {
        Ok(fixes) => {
            if fixes.len() > 0 {
                Ok(fixes[0].clone())
            } else {
                Err(FixFailure::NoFixFound)
            }
        },
        Err(AppError::Config(_)) => Err(FixFailure::NoCommonParent),
        Err(_) => Err(FixFailure::NoFixFound),
    }
}

/// The command that the rules see: `command` with its first word expanded.
pub open spec fn expanded_command(command: CommandText, aliases: Map<Seq<char>, Seq<char>>) -> CommandText {
    CommandText { command: expanded(command.command, aliases), ..command }
}

/// Corrects a failed command.
///
/// Without a shell nothing is tried. Otherwise the first word of the command
/// is expanded where it is an alias, and the compiled-in rules are asked in
/// order: the first correction is the answer. Only where none has one are
/// the script rules run, through `run_script_rules`, which is handed the
/// expanded command; the first of their corrections is then the answer. The
/// output of the command reaches every rule as it was handed in.
pub fn fix_command<S>(
    shell: Option<Shell>,
    aliases: &StringHashMap<String>,
    command: &Command,
    native_rules: &Vec<NativeRule>,
    run_script_rules: S,
) -> (fixed: Result<String, FixFailure>) where S: FnOnce(Command) -> AppResult<Vec<String>>
    requires
        forall|handed: Command| call_requires(run_script_rules, (handed,)),
    ensures
        shell is None ==> fixed == Err::<String, FixFailure>(FixFailure::NoShell),
        shell is Some ==> match first_native_fix(
            native_rules@,
            expanded_command(command@, value_texts(aliases@)),
        ) {
            Some(text) => fixed matches Ok(found) && found@ == text,
            None => exists|handed: Command, outcome: AppResult<Vec<String>>|
                handed@ == expanded_command(command@, value_texts(aliases@)) && #[trigger] call_ensures(
                    run_script_rules,
                    (handed,),
                    outcome,
                ) && is_script_choice(fixed, outcome),
        },
{
    if shell.is_none() {
        return Err(FixFailure::NoShell);
    }
    let line = expand_aliases(command.command(), aliases);
    let output = CommandOutput::new(
        command.output().stdout().to_owned(),
        command.output().stderr().to_owned(),
    );
    let seen = Command::new(line, output);
    match fix_with_native_rules(native_rules, &seen) {
        Some(text) => Ok(text),
        None => {
            let ghost handed = seen;
            let outcome = run_script_rules(seen);
            let chosen = choose_script_fix(outcome);
            proof {
                assert(call_ensures(run_script_rules, (handed,), outcome));
            }
            chosen
        },
    }
}

} // verus!
