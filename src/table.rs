//! A small association list keyed by user, with at most one entry per key.
use vstd::prelude::*;

verus! {

/// Entries keyed by a string, no key held twice.
#[derive(Debug)]
pub struct Table<V> {
    entries: Vec<(String, V)>,
}

impl<V> Table<V> {
    /// No two entries share a key.
    pub closed spec fn wf(&self) -> bool {
        forall|i: int, j: int|
            0 <= i < j < self.entries@.len() ==> #[trigger] self.entries@[i].0@
                != #[trigger] self.entries@[j].0@
    }

    pub closed spec fn has_key_at(&self, k: Seq<char>, i: int) -> bool {
        0 <= i < self.entries@.len() && self.entries@[i].0@ == k
    }

    /// The key-to-value map that the entries stand for.
    pub closed spec fn view(&self) -> Map<Seq<char>, V> {
        Map::new(
            |k: Seq<char>| exists|i: int| self.has_key_at(k, i),
            |k: Seq<char>| self.entries@[choose|i: int| self.has_key_at(k, i)].1,
        )
    }

    proof fn lemma_entry(&self, i: int)
        requires
            self.wf(),
            0 <= i < self.entries@.len(),
        ensures
            self.view().contains_key(self.entries@[i].0@),
            self.view()[self.entries@[i].0@] == self.entries@[i].1,
    {
        let k = self.entries@[i].0@;
        assert(self.has_key_at(k, i));
        let j = choose|j: int| self.has_key_at(k, j);
        assert(self.has_key_at(k, j));
        if i < j {
            assert(self.entries@[i].0@ != self.entries@[j].0@);
        } else if j < i {
            assert(self.entries@[j].0@ != self.entries@[i].0@);
        }
    }

    pub fn new() -> (r: Table<V>)
        ensures
            r.wf(),
            r.view() == Map::<Seq<char>, V>::empty(),
    {
        let r = Table { entries: Vec::new() };
        assert(r.view() =~= Map::<Seq<char>, V>::empty());
        r
    }

    fn find(&self, key: &String) -> (r: Option<usize>)
        requires
            self.wf(),
        ensures
            match r {
                Some(i) => i < self.entries@.len() && self.entries@[i as int].0@ == key@,
                None => !self.view().contains_key(key@),
            },
    {
        let mut i: usize = 0;
        while i < self.entries.len()
            invariant
                i <= self.entries@.len(),
                forall|j: int| 0 <= j < i ==> self.entries@[j].0@ != key@,
            decreases self.entries.len() - i,
        {
            if self.entries[i].0 == *key {
                return Some(i);
            }
            i = i + 1;
        }
        assert(!exists|j: int| self.has_key_at(key@, j));
        None
    }

    /// The value held under `key`, if any.
    pub fn get(&self, key: &String) -> (r: Option<&V>)
        requires
            self.wf(),
        ensures
            match r {
                Some(v) => self.view().contains_key(key@) && *v == self.view()[key@],
                None => !self.view().contains_key(key@),
            },
    {
        match self.find(key) {
            Some(i) => {
                proof {
                    self.lemma_entry(i as int);
                }
                Some(&self.entries[i].1)
            },
            None => None,
        }
    }

    /// Takes the value held under `key` out of the table.
    pub fn remove(&mut self, key: &String) -> (r: Option<V>)
        requires
            old(self).wf(),
        ensures
            final(self).wf(),
            final(self).view() == old(self).view().remove(key@),
            match r {
                Some(v) => old(self).view().contains_key(key@) && v == old(self).view()[key@],
                None => !old(self).view().contains_key(key@),
            },
    {
        match self.find(key) {
            Some(i) => {
                proof {
                    self.lemma_entry(i as int);
                }
                let ghost before = *self;
                let entry = self.entries.remove(i);
                proof {
                    assert forall|a: int, b: int|
                        0 <= a < b < self.entries@.len() implies #[trigger] self.entries@[a].0@
                        != #[trigger] self.entries@[b].0@ by {
                        let a0 = if a < i { a } else { a + 1 };
                        let b0 = if b < i { b } else { b + 1 };
                        assert(before.entries@[a0].0@ != before.entries@[b0].0@);
                    }
                    assert forall|k: Seq<char>|
                        #[trigger] self.view().contains_key(k) == before.view().remove(
                            key@,
                        ).contains_key(k) by {
                        if self.view().contains_key(k) {
                            let j = choose|j: int| self.has_key_at(k, j);
                            let j0 = if j < i { j } else { j + 1 };
                            assert(before.has_key_at(k, j0));
                            assert(j0 != i);
                            if k == key@ {
                                if j0 < i {
                                    assert(before.entries@[j0].0@ != before.entries@[i as int].0@);
                                } else {
                                    assert(before.entries@[i as int].0@ != before.entries@[j0].0@);
                                }
                            }
                        }
                        if before.view().remove(key@).contains_key(k) {
                            let j0 = choose|j: int| before.has_key_at(k, j);
                            assert(before.has_key_at(k, j0));
                            assert(j0 != i);
                            let j = if j0 < i { j0 } else { j0 - 1 };
                            assert(self.has_key_at(k, j));
                        }
                    }
                    assert forall|k: Seq<char>| #[trigger]
                        self.view().contains_key(k) implies self.view()[k] == before.view().remove(
                            key@,
                        )[k] by {
                        let j = choose|j: int| self.has_key_at(k, j);
                        assert(self.has_key_at(k, j));
                        self.lemma_entry(j);
                        let j0 = if j < i { j } else { j + 1 };
                        before.lemma_entry(j0);
                    }
                    assert(self.view() =~= before.view().remove(key@));
                }
                Some(entry.1)
            },
            None => {
                proof {
                    assert(self.view() =~= self.view().remove(key@));
                }
                None
            },
        }
    }

    /// Holds `value` under `key`, in place of what was held there.
    pub fn insert(&mut self, key: String, value: V)
        requires
            old(self).wf(),
        ensures
            final(self).wf(),
            final(self).view() == old(self).view().insert(key@, value),
    {
        let ghost k0 = key@;
        let ghost v0 = value;
        let _ = self.remove(&key);
        let ghost mid = *self;
        self.entries.push((key, value));
        proof {
            let n = mid.entries@.len() as int;
            assert forall|a: int, b: int|
                0 <= a < b < self.entries@.len() implies #[trigger] self.entries@[a].0@
                != #[trigger] self.entries@[b].0@ by {
                assert(self.entries@[a] == mid.entries@[a]);
                if b == n {
                    mid.lemma_entry(a);
                    assert(!mid.view().contains_key(k0));
                }
                else {
                    assert(mid.entries@[a].0@ != mid.entries@[b].0@);
                }
            }
            self.lemma_entry(n);
            assert forall|k: Seq<char>|
                #[trigger] self.view().contains_key(k) == mid.view().insert(k0, v0).contains_key(k)
                by {
                if self.view().contains_key(k) {
                    let j = choose|j: int| self.has_key_at(k, j);
                    if j < n {
                        assert(mid.has_key_at(k, j));
                    }
                }
                if mid.view().contains_key(k) {
                    let j = choose|j: int| mid.has_key_at(k, j);
                    assert(self.has_key_at(k, j));
                }
            }
            assert forall|k: Seq<char>| #[trigger]
                self.view().contains_key(k) implies self.view()[k] == mid.view().insert(
                    k0,
                    v0,
                )[k] by {
                let j = choose|j: int| self.has_key_at(k, j);
                assert(self.has_key_at(k, j));
                self.lemma_entry(j);
                if j < n {
                    mid.lemma_entry(j);
                }
            }
            assert(self.view() =~= mid.view().insert(k0, v0));
        }
    }
}

} // verus!
