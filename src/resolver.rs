use vstd::prelude::*;

use crate::process_table::{parse_process_table, snapshot_of, ProcessTable};

verus! {

/// The package name that `table` gives process `pid`, or the empty name
/// where it does not know the process.
pub open spec fn resolved_name(table: Map<Seq<char>, Seq<char>>, pid: Seq<char>) -> Seq<char> {
    if table.contains_key(pid) {
        table[pid]
    } else {
        Seq::empty()
    }
}

/// What looking a process up in the cached table found.
pub enum Resolution {
    /// The table knows the process: its package name.
    Known(String),
    /// The table does not know the process: a fresh process listing is needed.
    NeedsSnapshot,
}

/// Resolves process ids to package names from a cached process table,
/// replacing the whole table with a fresh listing on a miss.
pub struct PackageResolver {
    table: ProcessTable,
}

impl View for PackageResolver {
    type V = Map<Seq<char>, Seq<char>>;

    closed spec fn view(&self) -> Map<Seq<char>, Seq<char>> {
        self.table@
    }
}

impl PackageResolver {
    pub closed spec fn wf(&self) -> bool {
        self.table.wf()
    }

    /// A resolver whose table is not built yet: the first lookup misses.
    pub fn new() -> (r: PackageResolver)
        ensures
            r.wf(),
            r@ == Map::<Seq<char>, Seq<char>>::empty(),
    {
        PackageResolver { table: ProcessTable::new() }
    }

    /// Looks `pid` up in the cached table, without any outside work.
    pub fn resolve(&self, pid: &str) -> (r: Resolution)
        requires
            self.wf(),
        ensures
            match r {
                Resolution::Known(name) => self@.contains_key(pid@) && name@ == self@[pid@],
                Resolution::NeedsSnapshot => !self@.contains_key(pid@),
            },
    {
        match self.table.get(pid) {
            Some(name) => Resolution::Known(name),
            None => Resolution::NeedsSnapshot,
        }
    }

    /// Replaces the whole table with the one that the process listing
    /// `listing` gives, and resolves `pid` in it: its package name, or the
    /// empty name where the fresh table does not know it either.
    pub fn refresh(&mut self, listing: &str, pid: &str) -> (r: String)
        requires
            old(self).wf(),
        ensures
            final(self).wf(),
            final(self)@ == snapshot_of(listing@),
            r@ == resolved_name(snapshot_of(listing@), pid@),
    {
        self.table = parse_process_table(listing);
        match self.table.get(pid) {
            Some(name) => name,
            None => String::new(),
        }
    }
}

} // verus!
