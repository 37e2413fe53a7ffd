//! The shells that the tool knows by name.
use vstd::prelude::*;
use crate::text::str_is;

verus! {

/// An interactive shell.
#[derive(Debug, Clone, Copy, PartialEq, Eq, Structural)]
pub enum Shell {
    Bash,
    Zsh,
    Fish,
}

/// A name that is no shell's.
#[derive(Debug, Clone, Copy, PartialEq, Eq, Structural)]
pub struct UnknownShell;

/// The shell that goes by `name`, if any. Names are matched whole and in
/// lower case.
pub open spec fn shell_named(name: Seq<char>) -> Option<Shell> {
    if name == "bash"@ {
        Some(Shell::Bash)
    } else if name == "zsh"@ {
        Some(Shell::Zsh)
    } else if name == "fish"@ {
        Some(Shell::Fish)
    } else {
        None
    }
}

impl Shell {
    /// The shell that goes by `name`.
    pub fn from_str(name: &str) -> (shell: Result<Shell, UnknownShell>)
        ensures
            match shell {
                Ok(found) => shell_named(name@) == Some(found),
                Err(_) => shell_named(name@) is None,
            },
    {
        if str_is(name, "bash") {
            Ok(Shell::Bash)
        } else if str_is(name, "zsh") {
            Ok(Shell::Zsh)
        } else if str_is(name, "fish") {
            Ok(Shell::Fish)
        } else {
            Err(UnknownShell)
        }
    }
}

/// The names of the shells are plain letters: none holds the replacement
/// character that stands for what is not valid text.
pub proof fn lemma_shell_names_are_valid_text(name: Seq<char>)
    requires
        shell_named(name) is Some,
    ensures
        forall|i: int| 0 <= i < name.len() ==> name[i] != '\u{fffd}',
{
    reveal_strlit("bash");
    reveal_strlit("zsh");
    reveal_strlit("fish");
    assert("bash"@.len() == 4 && "zsh"@.len() == 3 && "fish"@.len() == 4);
    assert forall|i: int| 0 <= i < name.len() implies name[i] != '\u{fffd}' by {
        if name == "bash"@ {
            assert("bash"@[0] == 'b' && "bash"@[1] == 'a' && "bash"@[2] == 's' && "bash"@[3] == 'h');
        } else if name == "zsh"@ {
            assert("zsh"@[0] == 'z' && "zsh"@[1] == 's' && "zsh"@[2] == 'h');
        } else {
            assert("fish"@[0] == 'f' && "fish"@[1] == 'i' && "fish"@[2] == 's' && "fish"@[3] == 'h');
        }
    }
}

} // verus!
