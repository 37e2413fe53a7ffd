//! The process table of the running system, as `sysinfo` has read it.
use vstd::prelude::*;
use sysinfo::{Pid, System};
use super::helpers::{lookup, text_of, ProcessInspector, ProcessSnapshot};
use crate::fix::paths::{file_name, get_file_name};

verus! {

/// `sysinfo::System`: what was read of the system when it was last
/// refreshed.
#[verifier::external_type_specification]
#[verifier::external_body]
pub struct ExSystem(System);

/// The parent of each process that `system` holds and that has one.
pub uninterp spec fn system_parents(system: System) -> Map<u32, u32>;

/// The path of the executable of each process that `system` holds and whose
/// path is known, as text. What is not valid text in a path stands in it as
/// the replacement character U+FFFD.
pub uninterp spec fn system_exe_paths(system: System) -> Map<u32, Seq<char>>;

/// `System::process` followed by `Process::parent`: the parent of the
/// process `pid`, as `system` holds it. The answer is read from what
/// `system` holds, so it is the same each time.
#[verifier::external_body]
fn system_parent_pid(system: &System, pid: u32) -> (parent: Option<u32>)
    ensures
        parent == lookup(system_parents(*system), pid),
{
    system.process(Pid::from_u32(pid)).and_then(|process| process.parent()).map(
        |parent| parent.as_u32(),
    )
}

/// `System::process` followed by `Process::exe`: the path of the executable
/// of the process `pid`, as `system` holds it, turned into text by
/// `Path::to_string_lossy`. The answer is read from what `system` holds, so
/// it is the same each time.
#[verifier::external_body]
fn system_exe_path(system: &System, pid: u32) -> (path: Option<String>)
    ensures
        text_of(path) == lookup(system_exe_paths(*system), pid),
{
    system.process(Pid::from_u32(pid)).and_then(|process| process.exe()).map(
        |path| path.to_string_lossy().into_owned(),
    )
}

/// The process table of the running system.
pub struct SysinfoInspector<'a> {
    system: &'a System,
}

/// The file name of the executable of `pid`, where its path has one. The
/// name is taken from the path as text, so a directory whose name is not
/// valid text does not hide the file below it; a file name that is not valid
/// text itself is given with U+FFFD in it, which no shell's name holds.
pub open spec fn exe_name_in(paths: Map<u32, Seq<char>>, pid: u32) -> Option<Seq<char>> {
    match lookup(paths, pid) {
        Some(path) => file_name(path),
        None => None,
    }
}

impl<'a> SysinfoInspector<'a> {
    /// The system that is looked at.
    pub closed spec fn system(&self) -> System {
        *self.system
    }

    /// Looks at the processes that `system` holds.
    pub fn new(system: &'a System) -> (inspector: SysinfoInspector<'a>)
        ensures
            inspector.system() == *system,
    {
        SysinfoInspector { system }
    }
}

impl<'a> ProcessSnapshot for SysinfoInspector<'a> {
    open spec fn parents(&self) -> Map<u32, u32> {
        system_parents(self.system())
    }

    open spec fn exe_names(&self) -> Map<u32, Seq<char>> {
        Map::new(
            |pid: u32| exe_name_in(system_exe_paths(self.system()), pid) is Some,
            |pid: u32| exe_name_in(system_exe_paths(self.system()), pid)->0,
        )
    }

    fn parent_pid(&self, pid: u32) -> (parent: Option<u32>) {
        system_parent_pid(self.system, pid)
    }

    fn exe_name(&self, pid: u32) -> (name: Option<String>) {
        match system_exe_path(self.system, pid) {
            Some(path) => get_file_name(path.as_str()),
            None => None,
        }
    }
}

impl<'a> ProcessInspector for SysinfoInspector<'a> {
    fn get_parent_pid(&self, pid: u32) -> (parent: Option<u32>)
        ensures parent == lookup(system_parents(self.system()), pid),
    { self.parent_pid(pid) }

    fn get_exe_name(&self, pid: u32) -> (name: Option<String>)
        ensures text_of(name) == exe_name_in(system_exe_paths(self.system()), pid),
    { self.exe_name(pid) }
}

} // verus!
