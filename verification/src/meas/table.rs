//! The per-task records, keyed by task name.

use crate::meas::enabled::RtTaskData;
use crate::meas::model::TaskStats;
use vstd::prelude::*;
use vstd::string::*;

verus! {

/// One task's name and record.
struct TaskEntry {
    name: String,
    data: RtTaskData,
}

/// A table from task names to task records, in the order in which the names
/// were first seen. No name occurs twice.
pub struct TaskTable {
    entries: Vec<TaskEntry>,
}

impl View for TaskTable {
    type V = Map<Seq<char>, TaskStats>;

    closed spec fn view(&self) -> Map<Seq<char>, TaskStats> {
        Map::new(|k: Seq<char>| self.has(k), |k: Seq<char>| self.entries[self.slot(k)].data@)
    }
}

impl TaskTable {
    spec fn has(self, k: Seq<char>) -> bool {
        exists|i: int| 0 <= i < self.entries.len() && #[trigger] self.entries[i].name@ == k
    }

    spec fn slot(self, k: Seq<char>) -> int {
        choose|i: int| 0 <= i < self.entries.len() && #[trigger] self.entries[i].name@ == k
    }

    /// No name occurs twice.
    pub closed spec fn wf(self) -> bool {
        forall|i: int, j: int|
            0 <= i < j < self.entries.len() ==> #[trigger] self.entries[i].name@
                != #[trigger] self.entries[j].name@
    }

    proof fn lemma_slot(self, i: int)
        requires
            self.wf(),
            0 <= i < self.entries.len(),
        ensures
            self.has(self.entries[i].name@),
            self.slot(self.entries[i].name@) == i,
            self@.contains_key(self.entries[i].name@),
            self@[self.entries[i].name@] == self.entries[i].data@,
    {
        let k = self.entries[i].name@;
        let j = self.slot(k);
        assert(0 <= j < self.entries.len() && self.entries[j].name@ == k);
        if j < i {
            assert(self.entries[j].name@ != self.entries[i].name@);
        } else if i < j {
            assert(self.entries[i].name@ != self.entries[j].name@);
        }
    }

    /// A table holds finitely many names.
    pub proof fn lemma_finite(self)
        requires
            self.wf(),
        ensures
            self@.dom().finite(),
    {
        self.lemma_len();
    }

    proof fn lemma_len(self)
        requires
            self.wf(),
        ensures
            self@.dom().finite(),
            self@.dom().len() == self.entries.len(),
    {
        let names = Seq::new(self.entries.len() as nat, |i: int| self.entries[i].name@);
        assert forall|i: int, j: int| 0 <= i < names.len() && 0 <= j < names.len() && i
            != j implies names[i] != names[j] by {
            if i < j {
                assert(self.entries[i].name@ != self.entries[j].name@);
            } else {
                assert(self.entries[j].name@ != self.entries[i].name@);
            }
        }
        assert(names.no_duplicates());
        names.unique_seq_to_set();
        assert(self@.dom() =~= names.to_set()) by {
            assert forall|k: Seq<char>| self@.dom().contains(k) implies names.to_set().contains(
                k,
            ) by {
                let i = self.slot(k);
                assert(names[i] == k);
            }
            assert forall|k: Seq<char>| names.to_set().contains(k) implies self@.dom().contains(
                k,
            ) by {
                let i = choose|i: int| 0 <= i < names.len() && names[i] == k;
                assert(self.entries[i].name@ == k);
            }
        }
    }

    /// An empty table.
    pub fn new() -> (r: TaskTable)
        ensures
            r.wf(),
            r@ == Map::<Seq<char>, TaskStats>::empty(),
    {
        let r = TaskTable { entries: Vec::new() };
        assert(r@ =~= Map::<Seq<char>, TaskStats>::empty());
        r
    }

    /// The number of names in the table.
    pub fn len(&self) -> (n: usize)
        requires
            self.wf(),
        ensures
            n == self@.dom().len(),
    {
        proof {
            self.lemma_len();
        }
        self.entries.len()
    }

    fn position(&self, key: &String) -> (r: Option<usize>)
        requires
            self.wf(),
        ensures
            match r {
                Some(i) => i < self.entries.len() && self.entries[i as int].name@ == key@,
                None => !self.has(key@),
            },
    {
        let mut i: usize = 0;
        while i < self.entries.len()
            invariant
                i <= self.entries.len(),
                forall|j: int| 0 <= j < i ==> #[trigger] self.entries[j].name@ != key@,
            decreases self.entries.len() - i,
        {
            if self.entries[i].name == *key {
                return Some(i);
            }
            i += 1;
        }
        None
    }

    /// Whether the table has a record under `name`.
    pub fn contains_key(&self, name: &str) -> (r: bool)
        requires
            self.wf(),
        ensures
            r == self@.contains_key(name@),
    {
        let key = String::from_str(name);
        match self.position(&key) {
            Some(i) => {
                proof {
                    self.lemma_slot(i as int);
                }
                true
            },
            None => false,
        }
    }

    /// The record under `name`, if there is one.
    pub fn get(&self, name: &str) -> (r: Option<RtTaskData>)
        requires
            self.wf(),
        ensures
            r is Some == self@.contains_key(name@),
            r matches Some(d) ==> d@ == self@[name@],
    {
        let key = String::from_str(name);
        match self.position(&key) {
            Some(i) => {
                proof {
                    self.lemma_slot(i as int);
                }
                Some(self.entries[i].data)
            },
            None => None,
        }
    }

    /// Puts `data` under `name`, in place of the record that was there, if any.
    pub fn insert(&mut self, name: &str, data: RtTaskData)
        requires
            old(self).wf(),
        ensures
            final(self).wf(),
            final(self)@ == old(self)@.insert(name@, data@),
    {
        let key = String::from_str(name);
        match self.position(&key) {
            Some(i) => {
                self.entries[i].data = data;
                proof {
                    let before = *old(self);
                    let after = *self;
                    assert(after.entries.len() == before.entries.len());
                    assert forall|j: int| 0 <= j < after.entries.len() implies
                        #[trigger] after.entries[j].name@ == before.entries[j].name@ by {}
                    assert(after.wf());
                    assert forall|k: Seq<char>| after.has(k) == before.has(k) by {
                        if before.has(k) {
                            let j = before.slot(k);
                            assert(after.entries[j].name@ == k);
                        }
                        if after.has(k) {
                            let j = after.slot(k);
                            assert(before.entries[j].name@ == k);
                        }
                    }
                    before.lemma_slot(i as int);
                    after.lemma_slot(i as int);
                    assert forall|k: Seq<char>| after.has(k) && k != name@ implies after@[k]
                        == before@[k] by {
                        let j = after.slot(k);
                        assert(before.entries[j].name@ == k);
                        after.lemma_slot(j);
                        before.lemma_slot(j);
                    }
                    assert(after@ =~= before@.insert(name@, data@));
                }
            },
            None => {
                self.entries.push(TaskEntry { name: key, data });
                proof {
                    let before = *old(self);
                    let after = *self;
                    let n = before.entries.len() as int;
                    assert(after.entries.len() == n + 1);
                    assert forall|j: int| 0 <= j < n implies #[trigger] after.entries[j]
                        == before.entries[j] by {}
                    assert(after.entries[n].name@ == name@);
                    assert(after.wf()) by {
                        assert forall|a: int, b: int| 0 <= a < b < after.entries.len() implies
                            #[trigger] after.entries[a].name@ != #[trigger] after.entries[b].name@ by {
                            if b < n {
                                assert(before.entries[a].name@ != before.entries[b].name@);
                            } else {
                                assert(before.entries[a].name@ != name@);
                            }
                        }
                    }
                    after.lemma_slot(n);
                    assert forall|k: Seq<char>| k != name@ implies after.has(k) == before.has(
                        k,
                    ) by {
                        if before.has(k) {
                            let j = before.slot(k);
                            assert(after.entries[j].name@ == k);
                        }
                        if after.has(k) {
                            let j = after.slot(k);
                            assert(before.entries[j].name@ == k);
                        }
                    }
                    assert forall|k: Seq<char>| before.has(k) && k != name@ implies after@[k]
                        == before@[k] by {
                        let j = before.slot(k);
                        assert(after.entries[j].name@ == k);
                        after.lemma_slot(j);
                        before.lemma_slot(j);
                    }
                    assert(after@ =~= before@.insert(name@, data@));
                }
            },
        }
    }

    /// Sets every record back to its start. The names stay.
    pub fn reset(&mut self)
        requires
            old(self).wf(),
        ensures
            final(self).wf(),
            final(self)@ == old(self)@.map_values(|v: TaskStats| TaskStats::fresh()),
    {
        let mut i: usize = 0;
        while i < self.entries.len()
            invariant
                i <= self.entries.len(),
                self.entries.len() == old(self).entries.len(),
                forall|j: int|
                    0 <= j < self.entries.len() ==> #[trigger] self.entries[j].name@ == old(
                        self,
                    ).entries[j].name@,
                forall|j: int| 0 <= j < i ==> #[trigger] self.entries[j].data@ == TaskStats::fresh(),
            decreases self.entries.len() - i,
        {
            self.entries[i].data = RtTaskData::new();
            i += 1;
        }
        proof {
            let before = *old(self);
            let after = *self;
            assert(after.wf()) by {
                assert forall|a: int, b: int| 0 <= a < b < after.entries.len() implies
                    #[trigger] after.entries[a].name@ != #[trigger] after.entries[b].name@ by {
                    assert(before.entries[a].name@ != before.entries[b].name@);
                }
            }
            assert forall|k: Seq<char>| after.has(k) == before.has(k) by {
                if before.has(k) {
                    let j = before.slot(k);
                    assert(after.entries[j].name@ == k);
                }
                if after.has(k) {
                    let j = after.slot(k);
                    assert(before.entries[j].name@ == k);
                }
            }
            assert forall|k: Seq<char>| after.has(k) implies after@[k] == TaskStats::fresh() by {
                let j = after.slot(k);
                after.lemma_slot(j);
            }
            assert(after@ =~= before@.map_values(|v: TaskStats| TaskStats::fresh()));
        }
    }
}

} // verus!
