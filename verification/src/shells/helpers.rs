//! Finding the shell that started the tool: an explicit name wins, and
//! otherwise the process and its ancestors are asked for their names.
use vstd::prelude::*;
use vstd::relations::injective_on;
use vstd::set_lib::{lemma_int_range, lemma_len_subset, lemma_map_size, set_int_range};
use super::enums::{shell_named, Shell};

verus! {

/// Access to the process table: for a process id, its parent and the file
/// name of its executable. Nothing is asked of the answers; the walk below
/// goes by whatever comes back.
pub trait ProcessInspector {
    fn get_parent_pid(&self, pid: u32) -> Option<u32>;

    fn get_exe_name(&self, pid: u32) -> Option<String>;
}

/// A process table whose answers are fixed: two maps say, for a process id,
/// its parent and the file name of its executable.
pub trait ProcessSnapshot {
    /// The parent of each process that has one.
    spec fn parents(&self) -> Map<u32, u32>;

    /// The file name of the executable of each process that has one.
    spec fn exe_names(&self) -> Map<u32, Seq<char>>;

    fn parent_pid(&self, pid: u32) -> (parent: Option<u32>)
        ensures
            parent == lookup(self.parents(), pid),
    ;

    fn exe_name(&self, pid: u32) -> (name: Option<String>)
        ensures
            text_of(name) == lookup(self.exe_names(), pid),
    ;
}

/// The most parent links that a walk follows. A chain of distinct process
/// ids cannot be longer.
pub const MAX_STEPS: u32 = 0xffff_ffff;

/// What `table` holds for `pid`.
pub open spec fn lookup<V>(table: Map<u32, V>, pid: u32) -> Option<V> {
    if table.contains_key(pid) {
        Some(table[pid])
    } else {
        None
    }
}

/// The text of `name`, where there is one.
pub open spec fn text_of(name: Option<String>) -> Option<Seq<char>> {
    match name {
        Some(text) => Some(text@),
        None => None,
    }
}

/// The shell that `name` names, where there is a name and it is a shell's.
pub open spec fn shell_by_name(name: Option<Seq<char>>) -> Option<Shell> {
    match name {
        Some(text) => shell_named(text),
        None => None,
    }
}

/// Where a walk goes from a process that is no shell: to its parent, unless
/// it has none or the parent is process 0.
pub open spec fn way_up(parent: Option<u32>) -> Option<u32> {
    match parent {
        Some(pid) => if pid != 0 {
            Some(pid)
        } else {
            None
        },
        None => None,
    }
}

/// The first shell on the way from `pid` up through its ancestors, following
/// at most `steps` parent links. A process is a shell where the file name of
/// its executable is a shell's name. The way ends without a shell at a
/// process that has no parent, or whose parent is process 0.
pub open spec fn shell_above(
    exe_names: Map<u32, Seq<char>>,
    parents: Map<u32, u32>,
    pid: u32,
    steps: nat,
) -> Option<Shell>
    decreases steps,
{
    if shell_by_name(lookup(exe_names, pid)) is Some {
        shell_by_name(lookup(exe_names, pid))
    } else if steps == 0 {
        None
    } else {
        match way_up(lookup(parents, pid)) {
            Some(parent) => shell_above(exe_names, parents, parent, (steps - 1) as nat),
            None => None,
        }
    }
}

/// The shell that `name` names, where there is a name and it is a shell's.
pub fn shell_of_name(name: Option<&str>) -> (shell: Option<Shell>)
    ensures
        shell == shell_by_name(
            match name {
                Some(text) => Some(text@),
                None => None,
            },
        ),
{
    match name {
        Some(text) => match Shell::from_str(text) {
            Ok(shell) => Some(shell),
            Err(_) => None,
        },
        None => None,
    }
}

/// Where a walk goes from a process that is no shell and whose parent is
/// `parent`.
pub fn next_process(parent: Option<u32>) -> (next: Option<u32>)
    ensures
        next == way_up(parent),
{
    match parent {
        Some(pid) => if pid != 0 {
            Some(pid)
        } else {
            None
        },
        None => None,
    }
}

/// Walks from `start_pid` up through its ancestors and returns the first
/// process on the way that is a shell, by the file name of its executable.
/// The walk ends without a shell at a process without a parent, at one whose
/// parent is process 0, and after `MAX_STEPS` parent links. The result is
/// the one to which the answers that the inspector gives on the way lead.
pub fn find_shell_in_process_tree<I: ProcessInspector>(inspector: &I, start_pid: u32) -> (shell:
    Option<Shell>)
    ensures
        walk_gives(inspector, start_pid, MAX_STEPS as nat, shell),
{
    let mut current_process = start_pid;
    let mut steps_left: u32 = MAX_STEPS;
    loop
        invariant
            forall|end: Option<Shell>| #[trigger]
                walk_gives(inspector, current_process, steps_left as nat, end) ==> walk_gives(
                    inspector,
                    start_pid,
                    MAX_STEPS as nat,
                    end,
                ),
        decreases steps_left,
    {
        let exe_name = inspector.get_exe_name(current_process);
        assert(is_name_answer(inspector, current_process, exe_name));
        let found = match &exe_name {
            Some(name) => shell_of_name(Some(name.as_str())),
            None => None,
        };
        assert(found == shell_by_name(text_of(exe_name)));
        if found.is_some() {
            assert(walk_gives(inspector, current_process, steps_left as nat, found));
            return found;
        }
        if steps_left == 0 {
            assert(walk_gives(inspector, current_process, steps_left as nat, None));
            return None;
        }
        let parent = inspector.get_parent_pid(current_process);
        assert(is_parent_answer(inspector, current_process, parent));
        match next_process(parent) {
            Some(parent_pid) => {
                let fewer: u32 = steps_left - 1;
                proof {
                    assert forall|end: Option<Shell>| #[trigger]
                        walk_gives(inspector, parent_pid, fewer as nat, end) implies walk_gives(
                        inspector,
                        start_pid,
                        MAX_STEPS as nat,
                        end,
                    ) by {
                        assert(fewer as nat == (steps_left as nat - 1) as nat);
                        lemma_walk_goes_on(
                            inspector,
                            current_process,
                            steps_left as nat,
                            exe_name,
                            parent,
                            end,
                        );
                    }
                }
                current_process = parent_pid;
                steps_left = fewer;
            },
            None => {
                assert(walk_gives(inspector, current_process, steps_left as nat, None));
                return None;
            },
        }
    }
}

/// Whether `name` is an answer of the inspector to the question for the
/// executable of `pid`.
pub open spec fn is_name_answer<I: ProcessInspector>(
    inspector: &I,
    pid: u32,
    name: Option<String>,
) -> bool {
    call_ensures(I::get_exe_name, (inspector, pid), name)
}

/// Whether `parent` is an answer of the inspector to the question for the
/// parent of `pid`.
pub open spec fn is_parent_answer<I: ProcessInspector>(
    inspector: &I,
    pid: u32,
    parent: Option<u32>,
) -> bool {
    call_ensures(I::get_parent_pid, (inspector, pid), parent)
}

/// Whether a walk from `pid` that follows at most `steps` parent links can
/// end in `shell`: there are answers of the inspector by which the process
/// is that shell, or is no shell and the way up ends there, or is no shell
/// and the walk from its parent can end in `shell`.
pub open spec fn walk_gives<I: ProcessInspector>(
    inspector: &I,
    pid: u32,
    steps: nat,
    shell: Option<Shell>,
) -> bool
    decreases steps,
{
    exists|name: Option<String>| #[trigger]
        is_name_answer(inspector, pid, name) && if shell_by_name(text_of(name)) is Some {
            shell == shell_by_name(text_of(name))
        } else if steps == 0 {
            shell is None
        } else {
            exists|parent: Option<u32>| #[trigger]
                is_parent_answer(inspector, pid, parent) && match way_up(parent) {
                    Some(next) => walk_gives(inspector, next, (steps - 1) as nat, shell),
                    None => shell is None,
                }
        }
}

/// A walk that goes on from a process that is no shell to its parent ends
/// as the walk from the parent does.
proof fn lemma_walk_goes_on<I: ProcessInspector>(
    inspector: &I,
    pid: u32,
    steps: nat,
    name: Option<String>,
    parent: Option<u32>,
    shell: Option<Shell>,
)
    requires
        steps > 0,
        is_name_answer(inspector, pid, name),
        shell_by_name(text_of(name)) is None,
        is_parent_answer(inspector, pid, parent),
        way_up(parent) matches Some(next) && walk_gives(
            inspector,
            next,
            (steps - 1) as nat,
            shell,
        ),
    ensures
        walk_gives(inspector, pid, steps, shell),
{
}

/// Walks a fixed process table from `start_pid` up through the ancestors and
/// returns the first shell on the way.
pub fn find_shell_in_snapshot<S: ProcessSnapshot>(snapshot: &S, start_pid: u32) -> (shell: Option<
    Shell,
>)
    ensures
        shell == shell_above(
            snapshot.exe_names(),
            snapshot.parents(),
            start_pid,
            MAX_STEPS as nat,
        ),
{
    let mut current_process = start_pid;
    let mut steps_left: u32 = MAX_STEPS;
    loop
        invariant
            shell_above(snapshot.exe_names(), snapshot.parents(), start_pid, MAX_STEPS as nat)
                == shell_above(
                snapshot.exe_names(),
                snapshot.parents(),
                current_process,
                steps_left as nat,
            ),
        decreases steps_left,
    {
        let exe_name = snapshot.exe_name(current_process);
        let found = match &exe_name {
            Some(name) => shell_of_name(Some(name.as_str())),
            None => None,
        };
        if found.is_some() {
            return found;
        }
        if steps_left == 0 {
            return None;
        }
        match next_process(snapshot.parent_pid(current_process)) {
            Some(parent_pid) => {
                current_process = parent_pid;
                steps_left = steps_left - 1;
            },
            None => {
                return None;
            },
        }
    }
}

/// The shell that the environment names, where the variable is set and its
/// value is a shell's name.
pub fn get_current_shell_by_env(value: Option<&str>) -> (shell: Option<Shell>)
    ensures
        shell == shell_by_name(
            match value {
                Some(text) => Some(text@),
                None => None,
            },
        ),
{
    shell_of_name(value)
}

/// The shell in use. `env_shell` is the value of the variable by which the
/// shell hook names its shell, where it is set: a shell named there is the
/// answer. Otherwise the answer is the first shell on the way from the
/// process `pid` up through its ancestors.
pub fn get_current_shell<S: ProcessSnapshot>(env_shell: Option<&str>, snapshot: &S, pid: u32) -> (shell:
    Option<Shell>)
    ensures
        shell == current_shell(
            match env_shell {
                Some(text) => Some(text@),
                None => None,
            },
            snapshot.exe_names(),
            snapshot.parents(),
            pid,
        ),
{
    match get_current_shell_by_env(env_shell) {
        Some(shell) => Some(shell),
        None => find_shell_in_snapshot(snapshot, pid),
    }
}

/// The shell in use: the one that the environment names, or else the first
/// on the way from `pid` up through its ancestors.
pub open spec fn current_shell(
    env_shell: Option<Seq<char>>,
    exe_names: Map<u32, Seq<char>>,
    parents: Map<u32, u32>,
    pid: u32,
) -> Option<Shell> {
    if shell_by_name(env_shell) is Some {
        shell_by_name(env_shell)
    } else {
        shell_above(exe_names, parents, pid, MAX_STEPS as nat)
    }
}

/// The process that stands `links` parent links above `pid`, where the way
/// up does not end before.
pub open spec fn ancestor(parents: Map<u32, u32>, pid: u32, links: nat) -> Option<u32>
    decreases links,
{
    if links == 0 {
        Some(pid)
    } else {
        match way_up(lookup(parents, pid)) {
            Some(parent) => ancestor(parents, parent, (links - 1) as nat),
            None => None,
        }
    }
}

/// Whether `process` is there and is no shell.
pub open spec fn is_no_shell(exe_names: Map<u32, Seq<char>>, process: Option<u32>) -> bool {
    match process {
        Some(pid) => shell_by_name(lookup(exe_names, pid)) is None,
        None => false,
    }
}

/// Whether the first `count` processes on the way up from `pid` are there
/// and none of them is a shell.
pub open spec fn no_shell_among(
    exe_names: Map<u32, Seq<char>>,
    parents: Map<u32, u32>,
    pid: u32,
    count: nat,
) -> bool {
    forall|j: nat| j < count ==> is_no_shell(exe_names, #[trigger] ancestor(parents, pid, j))
}

/// A process that is itself a shell is the answer at once, however long the
/// walk may be.
pub proof fn lemma_own_shell_is_found(
    exe_names: Map<u32, Seq<char>>,
    parents: Map<u32, u32>,
    pid: u32,
    steps: nat,
)
    requires
        shell_by_name(lookup(exe_names, pid)) is Some,
    ensures
        shell_above(exe_names, parents, pid, steps) == shell_by_name(lookup(exe_names, pid)),
{
}

/// One link of the way: what holds of the processes above `pid` holds,
/// shifted by one, of those above its parent.
proof fn lemma_ancestors_shift(
    exe_names: Map<u32, Seq<char>>,
    parents: Map<u32, u32>,
    pid: u32,
    count: nat,
)
    requires
        count > 0,
        no_shell_among(exe_names, parents, pid, count),
        way_up(lookup(parents, pid)) is Some,
    ensures
        no_shell_among(exe_names, parents, way_up(lookup(parents, pid))->0, (count - 1) as nat),
{
    let parent = way_up(lookup(parents, pid))->0;
    assert forall|j: nat| j < count - 1 implies is_no_shell(
        exe_names,
        #[trigger] ancestor(parents, parent, j),
    ) by {
        assert(ancestor(parents, pid, j + 1) == ancestor(parents, parent, j));
    }
}

/// A shell that stands `links` parent links above `pid`, behind processes
/// that are no shells, is the answer, provided that the walk may take that
/// many steps.
pub proof fn lemma_ancestor_shell_is_found(
    exe_names: Map<u32, Seq<char>>,
    parents: Map<u32, u32>,
    pid: u32,
    steps: nat,
    links: nat,
)
    requires
        links <= steps,
        no_shell_among(exe_names, parents, pid, links),
        ancestor(parents, pid, links) matches Some(process) && shell_by_name(
            lookup(exe_names, process),
        ) is Some,
    ensures
        shell_above(exe_names, parents, pid, steps) == shell_by_name(
            lookup(exe_names, ancestor(parents, pid, links)->0),
        ),
    decreases links,
{
    if links > 0 {
        assert(ancestor(parents, pid, 0) == Some(pid));
        let parent = way_up(lookup(parents, pid))->0;
        lemma_ancestors_shift(exe_names, parents, pid, links);
        lemma_ancestor_shell_is_found(
            exe_names,
            parents,
            parent,
            (steps - 1) as nat,
            (links - 1) as nat,
        );
    }
}

/// A way up that ends `links` parent links above `pid`, at a process without
/// a parent or with process 0 for its parent, and that passes no shell,
/// gives no shell.
pub proof fn lemma_way_without_shell_gives_none(
    exe_names: Map<u32, Seq<char>>,
    parents: Map<u32, u32>,
    pid: u32,
    steps: nat,
    links: nat,
)
    requires
        no_shell_among(exe_names, parents, pid, links + 1),
        ancestor(parents, pid, links) matches Some(process) && way_up(lookup(parents, process))
            is None,
    ensures
        shell_above(exe_names, parents, pid, steps) is None,
    decreases links,
{
    assert(ancestor(parents, pid, 0) == Some(pid));
    if links > 0 && steps > 0 {
        let parent = way_up(lookup(parents, pid))->0;
        lemma_ancestors_shift(exe_names, parents, pid, links + 1);
        lemma_way_without_shell_gives_none(
            exe_names,
            parents,
            parent,
            (steps - 1) as nat,
            (links - 1) as nat,
        );
    }
}

/// The way up can be walked in two stretches.
proof fn lemma_ancestor_in_two(parents: Map<u32, u32>, pid: u32, first: nat, second: nat)
    ensures
        ancestor(parents, pid, first + second) == match ancestor(parents, pid, first) {
            Some(process) => ancestor(parents, process, second),
            None => None,
        },
    decreases first,
{
    if first > 0 {
        match way_up(lookup(parents, pid)) {
            Some(parent) => {
                lemma_ancestor_in_two(parents, parent, (first - 1) as nat, second);
                assert(ancestor(parents, pid, first + second) == ancestor(
                    parents,
                    parent,
                    (first + second - 1) as nat,
                ));
            },
            None => {},
        }
    }
}

/// The process id that stands `links` parent links above `pid`, as a number.
spec fn ancestor_number(parents: Map<u32, u32>, pid: u32, links: int) -> int {
    ancestor(parents, pid, links as nat)->0 as int
}

/// Among more processes than there are process ids, one stands twice.
proof fn lemma_some_process_stands_twice(parents: Map<u32, u32>, pid: u32) -> (places: (int, int))
    ensures
        0 <= places.0 < places.1 <= 0x1_0000_0000,
        ancestor_number(parents, pid, places.0) == ancestor_number(parents, pid, places.1),
{
    let count = 0x1_0000_0001int;
    let places = set_int_range(0, count);
    let ids = set_int_range(0, 0x1_0000_0000);
    let number = |links: int| ancestor_number(parents, pid, links);
    let seen = places.map(number);
    lemma_int_range(0, count);
    lemma_int_range(0, 0x1_0000_0000);
    assert(seen.subset_of(ids)) by {
        assert forall|id: int| seen.contains(id) implies ids.contains(id) by {
            let links = choose|links: int| places.contains(links) && number(links) == id;
            assert(id == ancestor_number(parents, pid, links));
        }
    }
    lemma_len_subset(seen, ids);
    if injective_on(number, places) {
        lemma_map_size(places, seen, number);
        assert(false);
    }
    let (a, b) = choose|a: int, b: int|
        places.contains(a) && places.contains(b) && #[trigger] number(a) == #[trigger] number(b)
            && a != b;
    if a < b {
        (a, b)
    } else {
        (b, a)
    }
}

/// A shell that is reached on the way up, behind processes that are no
/// shells, stands at most `MAX_STEPS` parent links above the start: a longer
/// way would pass one process twice, and so would have passed the shell
/// before.
pub proof fn lemma_shell_is_within_reach(
    exe_names: Map<u32, Seq<char>>,
    parents: Map<u32, u32>,
    pid: u32,
    links: nat,
)
    requires
        no_shell_among(exe_names, parents, pid, links),
        ancestor(parents, pid, links) matches Some(process) && shell_by_name(
            lookup(exe_names, process),
        ) is Some,
    ensures
        links <= MAX_STEPS,
{
    if links > MAX_STEPS {
        let (a, b) = lemma_some_process_stands_twice(parents, pid);
        assert(is_no_shell(exe_names, ancestor(parents, pid, a as nat)));
        assert(b < links ==> is_no_shell(exe_names, ancestor(parents, pid, b as nat)));
        assert(ancestor(parents, pid, a as nat) == ancestor(parents, pid, b as nat));
        let rest = (links - b) as nat;
        lemma_ancestor_in_two(parents, pid, a as nat, rest);
        lemma_ancestor_in_two(parents, pid, b as nat, rest);
        assert(b as nat + rest == links);
        let earlier = a as nat + rest;
        assert(ancestor(parents, pid, earlier) == ancestor(parents, pid, links));
        assert(is_no_shell(exe_names, ancestor(parents, pid, earlier)));
    }
}

/// The walk finds a shell that stands above `pid` behind processes that are
/// no shells, however far up it stands.
pub proof fn lemma_walk_finds_the_shell_above(
    exe_names: Map<u32, Seq<char>>,
    parents: Map<u32, u32>,
    pid: u32,
    links: nat,
)
    requires
        no_shell_among(exe_names, parents, pid, links),
        ancestor(parents, pid, links) matches Some(process) && shell_by_name(
            lookup(exe_names, process),
        ) is Some,
    ensures
        shell_above(exe_names, parents, pid, MAX_STEPS as nat) == shell_by_name(
            lookup(exe_names, ancestor(parents, pid, links)->0),
        ),
{
    lemma_shell_is_within_reach(exe_names, parents, pid, links);
    lemma_ancestor_shell_is_found(exe_names, parents, pid, MAX_STEPS as nat, links);
}

} // verus!
