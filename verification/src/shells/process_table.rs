//! A process table held as a list of entries.
use vstd::prelude::*;
use super::helpers::{ProcessInspector, ProcessSnapshot};

verus! {

/// What is known of one process.
#[derive(Debug)]
pub struct ProcessEntry {
    pub pid: u32,
    pub parent: Option<u32>,
    pub exe_name: Option<String>,
}

/// A list of processes. Where a process id stands twice, the first entry
/// counts.
#[derive(Debug)]
pub struct ProcessTable {
    pub entries: Vec<ProcessEntry>,
}

/// The first of `entries` that is about `pid`.
pub open spec fn first_entry(entries: Seq<ProcessEntry>, pid: u32) -> Option<ProcessEntry>
    decreases entries.len(),
{
    if entries.len() == 0 {
        None
    } else if entries[0].pid == pid {
        Some(entries[0])
    } else {
        first_entry(entries.drop_first(), pid)
    }
}

/// The parent that `entries` give for `pid`.
pub open spec fn parent_in(entries: Seq<ProcessEntry>, pid: u32) -> Option<u32> {
    match first_entry(entries, pid) {
        Some(entry) => entry.parent,
        None => None,
    }
}

/// The executable name that `entries` give for `pid`.
pub open spec fn exe_name_in(entries: Seq<ProcessEntry>, pid: u32) -> Option<Seq<char>> {
    match first_entry(entries, pid) {
        Some(entry) => match entry.exe_name {
            Some(name) => Some(name@),
            None => None,
        },
        None => None,
    }
}

impl ProcessTable {
    /// The place of the first entry about `pid`.
    fn find(&self, pid: u32) -> (place: Option<usize>)
        ensures
            match place {
                Some(i) => i < self.entries.len() && first_entry(self.entries@, pid) == Some(
                    self.entries@[i as int],
                ),
                None => first_entry(self.entries@, pid) is None,
            },
    {
        let mut i: usize = 0;
        proof {
            assert(self.entries@.skip(0) == self.entries@);
        }
        while i < self.entries.len()
            invariant
                i <= self.entries.len(),
                first_entry(self.entries@, pid) == first_entry(self.entries@.skip(i as int), pid),
            decreases self.entries.len() - i,
        {
            if self.entries[i].pid == pid {
                return Some(i);
            }
            proof {
                assert(self.entries@.skip(i as int).drop_first() == self.entries@.skip(i + 1));
            }
            i += 1;
        }
        None
    }
}

impl ProcessSnapshot for ProcessTable {
    open spec fn parents(&self) -> Map<u32, u32> {
        Map::new(
            |pid: u32| parent_in(self.entries@, pid) is Some,
            |pid: u32| parent_in(self.entries@, pid)->0,
        )
    }

    open spec fn exe_names(&self) -> Map<u32, Seq<char>> {
        Map::new(
            |pid: u32| exe_name_in(self.entries@, pid) is Some,
            |pid: u32| exe_name_in(self.entries@, pid)->0,
        )
    }

    fn parent_pid(&self, pid: u32) -> (parent: Option<u32>) {
        match self.find(pid) {
            Some(i) => self.entries[i].parent,
            None => None,
        }
    }

    fn exe_name(&self, pid: u32) -> (name: Option<String>) {
        match self.find(pid) {
            Some(i) => match &self.entries[i].exe_name {
                Some(name) => Some(name.clone()),
                None => None,
            },
            None => None,
        }
    }
}

impl ProcessInspector for ProcessTable {
    fn get_parent_pid(&self, pid: u32) -> (parent: Option<u32>)
        ensures
            parent == parent_in(self.entries@, pid),
    {
        self.parent_pid(pid)
    }

    fn get_exe_name(&self, pid: u32) -> (name: Option<String>)
        ensures
            match name {
                Some(text) => exe_name_in(self.entries@, pid) == Some(text@),
                None => exe_name_in(self.entries@, pid) is None,
            },
    {
        self.exe_name(pid)
    }
}

} // verus!
