//! The two walks agree: on an inspector whose answers are fixed, the walk
//! that goes by the answers ends in the first shell on the way up.
use vstd::prelude::*;
use super::enums::Shell;
use super::helpers::{
    is_name_answer, is_parent_answer, lookup, shell_above, shell_by_name, text_of, walk_gives,
    way_up, ProcessInspector, ProcessSnapshot,
};
use super::process_table::ProcessTable;
use super::system::SysinfoInspector;

verus! {

/// Whether every answer of the inspector is what the two maps hold.
pub open spec fn answers_from<I: ProcessInspector>(
    inspector: &I,
    exe_names: Map<u32, Seq<char>>,
    parents: Map<u32, u32>,
) -> bool {
    &&& forall|pid: u32, name: Option<String>| #[trigger]
        is_name_answer(inspector, pid, name) ==> text_of(name) == lookup(exe_names, pid)
    &&& forall|pid: u32, parent: Option<u32>| #[trigger]
        is_parent_answer(inspector, pid, parent) ==> parent == lookup(parents, pid)
}

/// Where every answer of the inspector is what two maps hold, the walk
/// through the inspector ends in one way only: in the first shell on the way
/// up through the maps.
pub proof fn lemma_fixed_answers_walk_is_exact<I: ProcessInspector>(
    inspector: &I,
    exe_names: Map<u32, Seq<char>>,
    parents: Map<u32, u32>,
    pid: u32,
    steps: nat,
    shell: Option<Shell>,
)
    requires
        answers_from(inspector, exe_names, parents),
        walk_gives(inspector, pid, steps, shell),
    ensures
        shell == shell_above(exe_names, parents, pid, steps),
    decreases steps,
{
    let name = choose|name: Option<String>| #[trigger]
        is_name_answer(inspector, pid, name) && if shell_by_name(text_of(name)) is Some {
            shell == shell_by_name(text_of(name))
        } else if steps == 0 {
            shell is None
        } else {
            exists|parent: Option<u32>| #[trigger]
                is_parent_answer(inspector, pid, parent) && match way_up(parent) {
                    Some(next) => walk_gives(inspector, next, (steps - 1) as nat, shell),
                    None => shell is None,
                }
        };
    if shell_by_name(text_of(name)) is None && steps > 0 {
        let parent = choose|parent: Option<u32>| #[trigger]
            is_parent_answer(inspector, pid, parent) && match way_up(parent) {
                Some(next) => walk_gives(inspector, next, (steps - 1) as nat, shell),
                None => shell is None,
            };
        match way_up(parent) {
            Some(next) => {
                lemma_fixed_answers_walk_is_exact(
                    inspector,
                    exe_names,
                    parents,
                    next,
                    (steps - 1) as nat,
                    shell,
                );
            },
            None => {},
        }
    }
}

/// On a process table the answers are fixed, so the walk through the
/// inspector ends in the first shell on the way up.
pub proof fn lemma_table_walk_is_exact(
    table: &ProcessTable,
    pid: u32,
    steps: nat,
    shell: Option<Shell>,
)
    requires
        walk_gives(table, pid, steps, shell),
    ensures
        shell == shell_above(table.exe_names(), table.parents(), pid, steps),
{
    lemma_fixed_answers_walk_is_exact(table, table.exe_names(), table.parents(), pid, steps, shell);
}

/// What `sysinfo` has read does not change while it is looked at, so the
/// walk through the inspector ends in the first shell on the way up.
pub proof fn lemma_system_walk_is_exact<'a>(
    inspector: &SysinfoInspector<'a>,
    pid: u32,
    steps: nat,
    shell: Option<Shell>,
)
    requires
        walk_gives(inspector, pid, steps, shell),
    ensures
        shell == shell_above(inspector.exe_names(), inspector.parents(), pid, steps),
{
    lemma_fixed_answers_walk_is_exact(
        inspector,
        inspector.exe_names(),
        inspector.parents(),
        pid,
        steps,
        shell,
    );
}

} // verus!
