//! A small keyed table kept as a list of entries, each key at most once.
//!
//! It holds the contract storage of the access-control model, whose keys
//! are account and role identifiers.

use vstd::prelude::*;

verus! {

/// Keys whose equality can be decided.
pub trait TableKey: Sized + Copy {
    fn same(&self, other: &Self) -> (b: bool)
        ensures
            b == (*self == *other);
}

/// A table from keys to values.
pub struct Table<K, V> {
    entries: Vec<(K, V)>,
}

/// The value of `k` among `entries`, if any.
pub open spec fn lookup<K, V>(entries: Seq<(K, V)>, k: K) -> Option<V>
    decreases entries.len(),
{
    if entries.len() == 0 {
        None
    } else if entries.last().0 == k {
        Some(entries.last().1)
    } else {
        lookup(entries.drop_last(), k)
    }
}

proof fn lemma_lookup_some<K, V>(entries: Seq<(K, V)>, k: K, i: int)
    requires
        0 <= i < entries.len(),
        entries[i].0 == k,
        forall|j: int| 0 <= j < entries.len() && j != i ==> entries[j].0 != k,
    ensures
        lookup(entries, k) == Some(entries[i].1),
    decreases entries.len(),
{
    if i < entries.len() - 1 {
        lemma_lookup_some(entries.drop_last(), k, i);
    }
}

proof fn lemma_lookup_none<K, V>(entries: Seq<(K, V)>, k: K)
    requires
        forall|j: int| 0 <= j < entries.len() ==> entries[j].0 != k,
    ensures
        lookup(entries, k) is None,
    decreases entries.len(),
{
    if entries.len() > 0 {
        lemma_lookup_none(entries.drop_last(), k);
    }
}

impl<K: TableKey, V> Table<K, V> {
    /// Each key occurs at most once.
    pub closed spec fn wf(&self) -> bool {
        forall|i: int, j: int|
            0 <= i < j < self.entries@.len() ==> #[trigger] self.entries@[i].0 != #[trigger] self.entries@[j].0
    }

    /// The table as a map.
    pub closed spec fn view(&self) -> Map<K, V> {
        Map::new(|k: K| lookup(self.entries@, k) is Some, |k: K| lookup(self.entries@, k).unwrap())
    }

    /// The keys in the order they were first set.
    pub closed spec fn keys(&self) -> Seq<K> {
        self.entries@.map_values(|e: (K, V)| e.0)
    }

    /// An empty table.
    pub fn new() -> (r: Self)
        ensures
            r.wf(),
            r.view() == Map::<K, V>::empty(),
    {
        let r = Table { entries: Vec::new() };
        assert(r.view() =~= Map::<K, V>::empty());
        r
    }

    fn find(&self, k: &K) -> (r: Option<usize>)
        requires
            self.wf(),
        ensures
            match r {
                Some(i) => i < self.entries@.len() && self.entries@[i as int].0 == *k,
                None => forall|j: int| 0 <= j < self.entries@.len() ==> self.entries@[j].0 != *k,
            },
    {
        for i in 0..self.entries.len()
            invariant
                forall|j: int| 0 <= j < i ==> self.entries@[j].0 != *k,
        {
            if self.entries[i].0.same(k) {
                return Some(i);
            }
        }
        None
    }

    proof fn lemma_view_at(&self, i: int)
        requires
            self.wf(),
            0 <= i < self.entries@.len(),
        ensures
            self.view().contains_key(self.entries@[i].0),
            self.view()[self.entries@[i].0] == self.entries@[i].1,
    {
        lemma_lookup_some(self.entries@, self.entries@[i].0, i);
    }

    /// The value of `k`.
    pub fn get(&self, k: &K) -> (r: Option<&V>)
        requires
            self.wf(),
        ensures
            match r {
                Some(v) => self.view().contains_key(*k) && self.view()[*k] == *v,
                None => !self.view().contains_key(*k),
            },
    {
        match self.find(k) {
            Some(i) => {
                proof {
                    self.lemma_view_at(i as int);
                }
                Some(&self.entries[i].1)
            },
            None => {
                proof {
                    lemma_lookup_none(self.entries@, *k);
                }
                None
            },
        }
    }

    /// Whether `k` has a value.
    pub fn contains(&self, k: &K) -> (b: bool)
        requires
            self.wf(),
        ensures
            b == self.view().contains_key(*k),
    {
        self.get(k).is_some()
    }

    /// Sets the value of `k`.
    pub fn set(&mut self, k: K, v: V)
        requires
            old(self).wf(),
        ensures
            final(self).wf(),
            final(self).view() == old(self).view().insert(k, v),
    {
        let ghost before = self.entries@;
        match self.find(&k) {
            Some(i) => {
                let _ = self.entries.remove(i);
                proof {
                    assert forall|a: int, b: int|
                        0 <= a < b < self.entries@.len() implies #[trigger] self.entries@[a].0 != #[trigger] self.entries@[b].0 by {
                        let a2 = if a < i { a } else { a + 1 };
                        let b2 = if b < i { b } else { b + 1 };
                        assert(before[a2].0 != before[b2].0);
                    }
                }
                self.entries.push((k, v));
                proof {
                    assert forall|kk: K| #[trigger] lookup(self.entries@, kk) == (if kk == k { Some(v) } else { lookup(before, kk) }) by {
                        if kk != k {
                            let rest = self.entries@.drop_last();
                            if exists|j: int| 0 <= j < before.len() && before[j].0 == kk {
                                let j = choose|j: int| 0 <= j < before.len() && before[j].0 == kk;
                                lemma_lookup_some(before, kk, j);
                                let j2 = if j < i { j } else { j - 1 };
                                assert(rest[j2] == before[j]);
                                assert forall|m: int| 0 <= m < rest.len() && m != j2 implies rest[m].0 != kk by {
                                    let m2 = if m < i { m } else { m + 1 };
                                    assert(rest[m] == before[m2]);
                                }
                                lemma_lookup_some(rest, kk, j2);
                            } else {
                                lemma_lookup_none(before, kk);
                                assert forall|m: int| 0 <= m < rest.len() implies rest[m].0 != kk by {
                                    let m2 = if m < i { m } else { m + 1 };
                                    assert(rest[m] == before[m2]);
                                }
                                lemma_lookup_none(rest, kk);
                            }
                        }
                    }
                }
            },
            None => {
                self.entries.push((k, v));
                proof {
                    assert(self.entries@.drop_last() == before);
                }
            },
        }
        proof {
            assert(self.view() =~= Map::<K, V>::new(|kk: K| lookup(before, kk) is Some, |kk: K| lookup(before, kk).unwrap()).insert(k, v));
        }
    }

    /// Removes the value of `k`, if any.
    pub fn remove(&mut self, k: &K)
        requires
            old(self).wf(),
        ensures
            final(self).wf(),
            final(self).view() == old(self).view().remove(*k),
    {
        let ghost before = self.entries@;
        match self.find(k) {
            Some(i) => {
                let _ = self.entries.remove(i);
                proof {
                    assert forall|a: int, b: int|
                        0 <= a < b < self.entries@.len() implies #[trigger] self.entries@[a].0 != #[trigger] self.entries@[b].0 by {
                        let a2 = if a < i { a } else { a + 1 };
                        let b2 = if b < i { b } else { b + 1 };
                        assert(before[a2].0 != before[b2].0);
                    }
                    assert forall|kk: K| #[trigger] lookup(self.entries@, kk) == (if kk == *k { None } else { lookup(before, kk) }) by {
                        let rest = self.entries@;
                        if kk == *k {
                            assert forall|m: int| 0 <= m < rest.len() implies rest[m].0 != kk by {
                                let m2 = if m < i { m } else { m + 1 };
                                assert(rest[m] == before[m2]);
                            }
                            lemma_lookup_none(rest, kk);
                        } else if exists|j: int| 0 <= j < before.len() && before[j].0 == kk {
                            let j = choose|j: int| 0 <= j < before.len() && before[j].0 == kk;
                            lemma_lookup_some(before, kk, j);
                            let j2 = if j < i { j } else { j - 1 };
                            assert(rest[j2] == before[j]);
                            assert forall|m: int| 0 <= m < rest.len() && m != j2 implies rest[m].0 != kk by {
                                let m2 = if m < i { m } else { m + 1 };
                                assert(rest[m] == before[m2]);
                            }
                            lemma_lookup_some(rest, kk, j2);
                        } else {
                            lemma_lookup_none(before, kk);
                            assert forall|m: int| 0 <= m < rest.len() implies rest[m].0 != kk by {
                                let m2 = if m < i { m } else { m + 1 };
                                assert(rest[m] == before[m2]);
                            }
                            lemma_lookup_none(rest, kk);
                        }
                    }
                }
            },
            None => {
                proof {
                    lemma_lookup_none(before, *k);
                }
            },
        }
        proof {
            assert(self.view() =~= Map::<K, V>::new(|kk: K| lookup(before, kk) is Some, |kk: K| lookup(before, kk).unwrap()).remove(*k));
        }
    }
}

} // verus!
