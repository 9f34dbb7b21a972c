use vstd::prelude::*;

use crate::text::{lines, split_lines, split_tokens, tokens};

verus! {

/// A mapping from process id to package name, for one device at one moment.
pub struct ProcessTable {
    entries: Vec<(String, String)>,
    contents: Ghost<Map<Seq<char>, Seq<char>>>,
}

impl View for ProcessTable {
    type V = Map<Seq<char>, Seq<char>>;

    closed spec fn view(&self) -> Map<Seq<char>, Seq<char>> {
        self.contents@
    }
}

impl ProcessTable {
    /// Each process id stands once in the entries, and the entries are the mapping.
    pub closed spec fn wf(&self) -> bool {
        &&& forall|i: int, j: int|
            0 <= i < j < self.entries@.len() ==> self.entries@[i].0@ != self.entries@[j].0@
        &&& forall|i: int|
            0 <= i < self.entries@.len() ==> {
                &&& #[trigger] self.contents@.contains_key(self.entries@[i].0@)
                &&& self.contents@[self.entries@[i].0@] == self.entries@[i].1@
            }
        &&& forall|k: Seq<char>|
            #[trigger] self.contents@.contains_key(k) ==> exists|i: int|
                0 <= i < self.entries@.len() && self.entries@[i].0@ == k
    }

    /// A table that knows no process.
    pub fn new() -> (r: ProcessTable)
        ensures
            r.wf(),
            r@ == Map::<Seq<char>, Seq<char>>::empty(),
    {
        ProcessTable { entries: Vec::new(), contents: Ghost(Map::empty()) }
    }

    fn position(&self, pid: &str) -> (r: Option<usize>)
        requires
            self.wf(),
        ensures
            match r {
                Some(i) => i < self.entries@.len() && self.entries@[i as int].0@ == pid@,
                None => !self@.contains_key(pid@),
            },
    {
        let key = String::from_str(pid);
        let mut i: usize = 0;
        while i < self.entries.len()
            invariant
                self.wf(),
                key@ == pid@,
                i <= self.entries@.len(),
                forall|j: int| 0 <= j < i ==> self.entries@[j].0@ != pid@,
            decreases self.entries@.len() - i,
        {
            if self.entries[i].0 == key {
                return Some(i);
            }
            i = i + 1;
        }
        None
    }

    /// The package name of process `pid`, if the table knows it.
    pub fn get(&self, pid: &str) -> (r: Option<String>)
        requires
            self.wf(),
        ensures
            match r {
                Some(v) => self@.contains_key(pid@) && self@[pid@] == v@,
                None => !self@.contains_key(pid@),
            },
    {
        match self.position(pid) {
            Some(i) => {
                assert(self.contents@.contains_key(self.entries@[i as int].0@));
                Some(self.entries[i].1.clone())
            },
            None => None,
        }
    }

    /// Whether the table knows process `pid`.
    pub fn contains(&self, pid: &str) -> (r: bool)
        requires
            self.wf(),
        ensures
            r == self@.contains_key(pid@),
    {
        self.position(pid).is_some()
    }

    /// The number of processes the table knows.
    pub fn len(&self) -> (r: usize)
        requires
            self.wf(),
        ensures
            r == self@.len(),
    {
        proof {
            self.lemma_len();
        }
        self.entries.len()
    }

    proof fn lemma_len(&self)
        requires
            self.wf(),
        ensures
            self@.len() == self.entries@.len(),
            self@.dom().finite(),
    {
        let keys = Seq::new(self.entries@.len(), |i: int| self.entries@[i].0@);
        assert forall|q: Seq<char>| #[trigger] self@.dom().contains(q) implies keys.to_set().contains(q) by {
            let j = choose|j: int| 0 <= j < self.entries@.len() && self.entries@[j].0@ == q;
            assert(keys[j] == q);
        }
        assert forall|q: Seq<char>| #[trigger] keys.to_set().contains(q) implies self@.dom().contains(q) by {
            let j = choose|j: int| 0 <= j < keys.len() && keys[j] == q;
            assert(self.contents@.contains_key(self.entries@[j].0@));
        }
        assert(self@.dom() =~= keys.to_set());
        assert(keys.no_duplicates());
        keys.unique_seq_to_set();
    }

    /// Records that process `pid` runs package `package`, in place of what
    /// the table held for `pid` before.
    pub fn insert(&mut self, pid: String, package: String)
        requires
            old(self).wf(),
        ensures
            final(self).wf(),
            final(self)@ == old(self)@.insert(pid@, package@),
    {
        let ghost k = pid@;
        let ghost v = package@;
        match self.position(pid.as_str()) {
            Some(i) => {
                self.entries.set(i, (pid, package));
                self.contents = Ghost(self.contents@.insert(k, v));
                assert forall|a: int, b: int|
                    0 <= a < b < self.entries@.len() implies self.entries@[a].0@
                    != self.entries@[b].0@ by {
                    assert(old(self).entries@[a].0@ != old(self).entries@[b].0@);
                }
                assert forall|a: int| 0 <= a < self.entries@.len() implies {
                    &&& #[trigger] self.contents@.contains_key(self.entries@[a].0@)
                    &&& self.contents@[self.entries@[a].0@] == self.entries@[a].1@
                } by {
                    if a != i {
                        assert(old(self).entries@[a].0@ != k);
                    }
                }
                assert forall|q: Seq<char>| #[trigger] self.contents@.contains_key(q) implies exists|
                    j: int,
                |
                    0 <= j < self.entries@.len() && self.entries@[j].0@ == q by {
                    if q != k {
                        let j = choose|j: int|
                            0 <= j < old(self).entries@.len() && old(self).entries@[j].0@ == q;
                        assert(self.entries@[j].0@ == q);
                    } else {
                        assert(self.entries@[i as int].0@ == q);
                    }
                }
            },
            None => {
                self.entries.push((pid, package));
                self.contents = Ghost(self.contents@.insert(k, v));
                let ghost last = self.entries@.len() - 1;
                assert(self.entries@[last].0@ == k);
                assert forall|a: int, b: int|
                    0 <= a < b < self.entries@.len() implies self.entries@[a].0@
                    != self.entries@[b].0@ by {
                    if b < last {
                        assert(old(self).entries@[a].0@ != old(self).entries@[b].0@);
                    } else {
                        assert(old(self).entries@[a].0@ != k);
                    }
                }
                assert forall|a: int| 0 <= a < self.entries@.len() implies {
                    &&& #[trigger] self.contents@.contains_key(self.entries@[a].0@)
                    &&& self.contents@[self.entries@[a].0@] == self.entries@[a].1@
                } by {
                    if a != last {
                        assert(old(self).entries@[a].0@ != k);
                        assert(old(self).entries@[a] == self.entries@[a]);
                    }
                }
                assert forall|q: Seq<char>| #[trigger] self.contents@.contains_key(q) implies exists|
                    j: int,
                |
                    0 <= j < self.entries@.len() && self.entries@[j].0@ == q by {
                    if q != k {
                        let j = choose|j: int|
                            0 <= j < old(self).entries@.len() && old(self).entries@[j].0@ == q;
                        assert(self.entries@[j].0@ == q);
                    } else {
                        assert(self.entries@[last].0@ == q);
                    }
                }
            },
        }
    }
}

/// What one row of the process listing adds: a row of at least nine words
/// maps its second word (the process id) to its ninth (the name); a shorter
/// row adds nothing.
pub open spec fn row_insert(m: Map<Seq<char>, Seq<char>>, row: Seq<char>) -> Map<
    Seq<char>,
    Seq<char>,
> {
    let t = tokens(row);
    if t.len() >= 9 {
        m.insert(t[1], t[8])
    } else {
        m
    }
}

/// The mapping that rows `1..n` of `rows` give, later rows winning.
/// Row 0 is the header.
pub open spec fn table_of_rows(rows: Seq<Seq<char>>, n: int) -> Map<Seq<char>, Seq<char>>
    decreases n,
{
    if n <= 1 {
        Map::empty()
    } else {
        row_insert(table_of_rows(rows, n - 1), rows[n - 1])
    }
}

/// The mapping that a whole process listing gives.
pub open spec fn snapshot_of(output: Seq<char>) -> Map<Seq<char>, Seq<char>> {
    table_of_rows(lines(output), lines(output).len() as int)
}

/// Reads the output of the device's process listing (`ps`) into a table.
pub fn parse_process_table(output: &str) -> (r: ProcessTable)
    ensures
        r.wf(),
        r@ == snapshot_of(output@),
{
    let rows = split_lines(output);
    let mut table = ProcessTable::new();
    let mut k: usize = 1;
    while k < rows.len()
        invariant
            rows@.len() == lines(output@).len(),
            forall|j: int| 0 <= j < rows@.len() ==> #[trigger] rows@[j]@ == lines(output@)[j],
            1 <= k,
            k <= rows@.len() || k == 1,
            table.wf(),
            table@ == table_of_rows(lines(output@), k as int),
        decreases rows@.len() - k,
    {
        let words = split_tokens(rows[k].as_str());
        if words.len() >= 9 {
            table.insert(words[1].clone(), words[8].clone());
        }
        k = k + 1;
    }
    assert(table_of_rows(lines(output@), k as int) == snapshot_of(output@));
    table
}

} // verus!
