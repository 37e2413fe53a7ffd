//! The rules that are compiled in: their names, and the one way in which a
//! rule is asked for its correction.
pub mod cargo_no_command;
pub mod mkdir_p;
pub mod sudo;
pub mod to_cd;
pub mod unsudo;

use vstd::prelude::*;
use vstd::string::StringExecFns;
use super::structs::{Command, CommandText};
use crate::error::AppError;
use crate::text::str_is;

verus! {

/// A compiled-in rule, by name.
#[derive(Debug, Clone, Copy, PartialEq, Eq, Structural)]
pub enum NativeRule {
    Sudo,
    ToCd,
    Unsudo,
    MkdirP,
    CargoNoCommand,
}

/// The rule that the configuration calls `name`, if any.
pub open spec fn rule_named(name: Seq<char>) -> Option<NativeRule> {
    if name == "sudo"@ {
        Some(NativeRule::Sudo)
    } else if name == "to_cd"@ {
        Some(NativeRule::ToCd)
    } else if name == "unsudo"@ {
        Some(NativeRule::Unsudo)
    } else if name == "mkdir_p"@ {
        Some(NativeRule::MkdirP)
    } else if name == "cargo_no_command"@ {
        Some(NativeRule::CargoNoCommand)
    } else {
        None
    }
}

/// What the error for an unknown rule name says before the name.
pub open spec fn unknown_rule_prefix() -> Seq<char> {
    "Unknown native rule: "@
}

impl NativeRule {
    /// The rule that the configuration calls `name`. A name that is no
    /// rule's is a configuration error, which says the name.
    pub fn from_str(name: &str) -> (rule: Result<NativeRule, AppError>)
        ensures
            match rule {
                Ok(found) => rule_named(name@) == Some(found),
                Err(AppError::Config(detail)) => rule_named(name@) is None && detail@
                    == unknown_rule_prefix() + name@,
                Err(_) => false,
            },
    {
        if str_is(name, "sudo") {
            Ok(NativeRule::Sudo)
        } else if str_is(name, "to_cd") {
            Ok(NativeRule::ToCd)
        } else if str_is(name, "unsudo") {
            Ok(NativeRule::Unsudo)
        } else if str_is(name, "mkdir_p") {
            Ok(NativeRule::MkdirP)
        } else if str_is(name, "cargo_no_command") {
            Ok(NativeRule::CargoNoCommand)
        } else {
            let mut detail = "Unknown native rule: ".to_owned();
            detail.append(name);
            Err(AppError::Config(detail))
        }
    }

    /// Asks one rule for its correction of `command`: the rule's fix is run
    /// only where its match says yes, and its answer is passed on as it is.
    pub fn match_and_fix<M, F>(match_function: M, fix_function: F, command: &Command) -> (fixed:
        Option<String>) where M: FnOnce(&Command) -> bool, F: FnOnce() -> Option<String>
        requires
            call_requires(match_function, (command,)),
            call_requires(fix_function, ()),
        ensures
            match fixed {
                Some(text) => call_ensures(match_function, (command,), true) && call_ensures(
                    fix_function,
                    (),
                    Some(text),
                ),
                None => call_ensures(match_function, (command,), false) || (call_ensures(
                    match_function,
                    (command,),
                    true,
                ) && call_ensures(fix_function, (), None)),
            },
    {
        if match_function(command) {
            fix_function()
        } else {
            None
        }
    }
}

/// What a rule gives for a command: its correction where it applies and has
/// one, and nothing otherwise.
pub open spec fn native_fix(rule: NativeRule, command: CommandText) -> Option<Seq<char>> {
    match rule {
        NativeRule::Sudo => if sudo::matches(command) {
            Some(sudo::fixed(command))
        } else {
            None
        },
        NativeRule::ToCd => if to_cd::matches(command) {
            Some(to_cd::fixed(command))
        } else {
            None
        },
        NativeRule::Unsudo => if unsudo::matches(command) {
            Some(unsudo::fixed(command))
        } else {
            None
        },
        NativeRule::MkdirP => if mkdir_p::matches(command) {
            mkdir_p::fixed(command)
        } else {
            None
        },
        NativeRule::CargoNoCommand => if cargo_no_command::matches(command) {
            cargo_no_command::fixed(command)
        } else {
            None
        },
    }
}

impl NativeRule {
    /// Asks this rule for its correction of `command`. The rule's fix is run
    /// only where the rule applies; a fix that fails counts as no
    /// correction.
    pub fn fix_native(self, command: &Command) -> (fixed: Option<String>)
        ensures
            match fixed {
                Some(text) => native_fix(self, command@) == Some(text@),
                None => native_fix(self, command@) is None,
            },
    {
        match self {
            NativeRule::Sudo => {
                let fix_function = || -> (fixed: Option<String>)
                    ensures
                        fixed matches Some(text) && text@ == sudo::fixed(command@),
                    { Some(sudo::fix(command)) };
                Self::match_and_fix(sudo::is_match, fix_function, command)
            },
            NativeRule::ToCd => {
                let fix_function = || -> (fixed: Option<String>)
                    ensures
                        fixed matches Some(text) && text@ == to_cd::fixed(command@),
                    { Some(to_cd::fix(command)) };
                Self::match_and_fix(to_cd::is_match, fix_function, command)
            },
            NativeRule::Unsudo => {
                let fix_function = || -> (fixed: Option<String>)
                    ensures
                        fixed matches Some(text) && text@ == unsudo::fixed(command@),
                    { Some(unsudo::fix(command)) };
                Self::match_and_fix(unsudo::is_match, fix_function, command)
            },
            NativeRule::MkdirP => {
                let fix_function = || -> (fixed: Option<String>)
                    ensures
                        match fixed {
                            Some(text) => mkdir_p::fixed(command@) == Some(text@),
                            None => mkdir_p::fixed(command@) is None,
                        },
                    {
                        match mkdir_p::fix(command) {
                            Ok(text) => Some(text),
                            Err(_) => None,
                        }
                    };
                Self::match_and_fix(mkdir_p::is_match, fix_function, command)
            },
            NativeRule::CargoNoCommand => {
                let fix_function = || -> (fixed: Option<String>)
                    ensures
                        match fixed {
                            Some(text) => cargo_no_command::fixed(command@) == Some(text@),
                            None => cargo_no_command::fixed(command@) is None,
                        },
                    {
                        match cargo_no_command::fix(command) {
                            Ok(text) => Some(text),
                            Err(_) => None,
                        }
                    };
                Self::match_and_fix(cargo_no_command::is_match, fix_function, command)
            },
        }
    }
}

} // verus!
