use vstd::prelude::*;

verus! {

/// Keys that can be compared by their view.
pub trait SameKey: View + Sized {
    fn same_key(&self, other: &Self) -> (r: bool)
        ensures
            r == (self@ == other@),
    ;
}

/// A finite mapping kept as a list of entries in insertion order, with at
/// most one entry per key.
#[derive(Debug)]
pub struct Table<K, V> {
    entries: Vec<(K, V)>,
}

impl<K: SameKey, V> Table<K, V> {
    pub closed spec fn wf(&self) -> bool {
        forall|i: int, j: int|
            0 <= i < j < self.entries@.len() ==> (#[trigger] self.entries@[i]).0@ != (
            #[trigger] self.entries@[j]).0@
    }

    pub closed spec fn has(&self, k: K::V) -> bool {
        exists|i: int| 0 <= i < self.entries@.len() && (#[trigger] self.entries@[i]).0@ == k
    }

    pub closed spec fn index_of(&self, k: K::V) -> int {
        choose|i: int| 0 <= i < self.entries@.len() && (#[trigger] self.entries@[i]).0@ == k
    }

    pub closed spec fn view(&self) -> Map<K::V, V> {
        Map::new(|k: K::V| self.has(k), |k: K::V| self.entries@[self.index_of(k)].1)
    }

    /// The entries in insertion order.
    pub closed spec fn entry_seq(&self) -> Seq<(K, V)> {
        self.entries@
    }

    pub proof fn lemma_entry_in_view(&self, i: int)
        requires
            self.wf(),
            0 <= i < self.entry_seq().len(),
        ensures
            self@.contains_key(self.entry_seq()[i].0@),
            self@[self.entry_seq()[i].0@] == self.entry_seq()[i].1,
    {
        let k = self.entries@[i].0@;
        assert(self.has(k));
        let j = self.index_of(k);
        assert(self.entries@[j].0@ == k);
        if i < j {
            assert(self.entries@[i].0@ != self.entries@[j].0@);
        } else if j < i {
            assert(self.entries@[j].0@ != self.entries@[i].0@);
        }
    }

    pub proof fn lemma_view_in_entries(&self, k: K::V)
        requires
            self.wf(),
            self@.contains_key(k),
        ensures
            exists|i: int|
                0 <= i < self.entry_seq().len() && (#[trigger] self.entry_seq()[i]).0@ == k,
    {
        assert(self.has(k));
        let i = self.index_of(k);
        assert(self.entry_seq()[i].0@ == k);
    }

    pub proof fn lemma_keys_distinct(&self, i: int, j: int)
        requires
            self.wf(),
            0 <= i < self.entry_seq().len(),
            0 <= j < self.entry_seq().len(),
            i != j,
        ensures
            self.entry_seq()[i].0@ != self.entry_seq()[j].0@,
    {
        if i < j {
            assert(self.entries@[i].0@ != self.entries@[j].0@);
        } else {
            assert(self.entries@[j].0@ != self.entries@[i].0@);
        }
    }

    pub fn new() -> (r: Self)
        ensures
            r.wf(),
            r@ == Map::<K::V, V>::empty(),
            r.entry_seq().len() == 0,
    {
        let r = Table { entries: Vec::new() };
        assert(r@ =~= Map::<K::V, V>::empty());
        r
    }

    pub fn len(&self) -> (r: usize)
        ensures
            r == self.entry_seq().len(),
    {
        self.entries.len()
    }

    pub fn entry_at(&self, i: usize) -> (r: (&K, &V))
        requires
            i < self.entry_seq().len(),
        ensures
            *r.0 == self.entry_seq()[i as int].0,
            *r.1 == self.entry_seq()[i as int].1,
    {
        let e = &self.entries[i];
        (&e.0, &e.1)
    }

    /// A copy of the table, each key and value cloned.
    pub fn copy(&self) -> (r: Self)
        where K: Clone, V: Clone
        requires
            self.wf(),
        ensures
            r.entry_seq().len() == self.entry_seq().len(),
            forall|i: int|
                0 <= i < self.entry_seq().len() ==> cloned(
                    #[trigger] self.entry_seq()[i].0,
                    r.entry_seq()[i].0,
                ) && cloned(self.entry_seq()[i].1, r.entry_seq()[i].1),
    {
        let mut entries: Vec<(K, V)> = Vec::new();
        let mut i: usize = 0;
        while i < self.entries.len()
            invariant
                i <= self.entries@.len(),
                entries@.len() == i,
                forall|j: int|
                    0 <= j < i ==> cloned(#[trigger] self.entries@[j].0, entries@[j].0) && cloned(
                        self.entries@[j].1,
                        entries@[j].1,
                    ),
            decreases self.entries@.len() - i,
        {
            let e = &self.entries[i];
            entries.push((e.0.clone(), e.1.clone()));
            i += 1;
        }
        Table { entries }
    }

    /// Tables with the same entries hold the same mapping.
    pub proof fn lemma_same_entries(&self, other: &Self)
        requires
            self.entry_seq() == other.entry_seq(),
        ensures
            self@ == other@,
            self.wf() == other.wf(),
    {
        assert(self@ =~= other@);
    }

    fn find(&self, k: &K) -> (r: Option<usize>)
        requires
            self.wf(),
        ensures
            match r {
                Some(i) => i < self.entries@.len() && self.entries@[i as int].0@ == k@,
                None => !self.has(k@),
            },
    {
        let mut i: usize = 0;
        while i < self.entries.len()
            invariant
                i <= self.entries@.len(),
                forall|j: int| 0 <= j < i ==> (#[trigger] self.entries@[j]).0@ != k@,
            decreases self.entries@.len() - i,
        {
            if self.entries[i].0.same_key(k) {
                return Some(i);
            }
            i += 1;
        }
        None
    }

    pub fn get(&self, k: &K) -> (r: Option<&V>)
        requires
            self.wf(),
        ensures
            match r {
                Some(v) => self@.contains_key(k@) && *v == self@[k@],
                None => !self@.contains_key(k@),
            },
    {
        match self.find(k) {
            Some(i) => {
                proof {
                    self.lemma_entry_in_view(i as int);
                }
                Some(&self.entries[i].1)
            },
            None => None,
        }
    }

    pub fn insert(&mut self, k: K, v: V)
        requires
            old(self).wf(),
        ensures
            final(self).wf(),
            final(self)@ == old(self)@.insert(k@, v),
            old(self)@.contains_key(k@) ==> final(self).entry_seq().len()
                == old(self).entry_seq().len(),
            !old(self)@.contains_key(k@) ==> final(self).entry_seq() == old(self).entry_seq().push(
                (k, v),
            ),
    {
        let ghost kv = k@;
        let ghost pre = *self;
        match self.find(&k) {
            Some(i) => {
                self.entries.set(i, (k, v));
                proof {
                    assert(self.wf()) by {
                        assert forall|a: int, b: int|
                            0 <= a < b < self.entries@.len() implies (
                            #[trigger] self.entries@[a]).0@ != (#[trigger] self.entries@[b]).0@ by {
                            assert(pre.entries@[a].0@ != pre.entries@[b].0@);
                        }
                    }
                    assert forall|q: K::V| #[trigger] self@.contains_key(q) implies pre@.insert(
                        kv,
                        v,
                    ).contains_key(q) && self@[q] == pre@.insert(kv, v)[q] by {
                        let j = self.index_of(q);
                        self.lemma_entry_in_view(j);
                        if q != kv {
                            pre.lemma_entry_in_view(j);
                        }
                    }
                    assert forall|q: K::V| #[trigger] pre@.insert(kv, v).contains_key(q)
                        implies self@.contains_key(q) by {
                        if q == kv {
                            self.lemma_entry_in_view(i as int);
                        } else {
                            let j = pre.index_of(q);
                            pre.lemma_entry_in_view(j);
                            assert(self.entries@[j].0@ == q);
                        }
                    }
                    assert(self@ =~= pre@.insert(kv, v));
                }
            },
            None => {
                self.entries.push((k, v));
                proof {
                    let n = pre.entries@.len() as int;
                    assert(self.wf()) by {
                        assert forall|a: int, b: int|
                            0 <= a < b < self.entries@.len() implies (
                            #[trigger] self.entries@[a]).0@ != (#[trigger] self.entries@[b]).0@ by {
                            if b < n {
                                assert(pre.entries@[a].0@ != pre.entries@[b].0@);
                            } else {
                                assert(pre.entries@[a] == self.entries@[a]);
                            }
                        }
                    }
                    assert forall|q: K::V| #[trigger] self@.contains_key(q) implies pre@.insert(
                        kv,
                        v,
                    ).contains_key(q) && self@[q] == pre@.insert(kv, v)[q] by {
                        let j = self.index_of(q);
                        self.lemma_entry_in_view(j);
                        if j < n {
                            assert(self.entries@[j] == pre.entries@[j]);
                            pre.lemma_entry_in_view(j);
                        }
                    }
                    assert forall|q: K::V| #[trigger] pre@.insert(kv, v).contains_key(q)
                        implies self@.contains_key(q) by {
                        if q == kv {
                            self.lemma_entry_in_view(n);
                        } else {
                            let j = pre.index_of(q);
                            pre.lemma_entry_in_view(j);
                            assert(self.entries@[j] == pre.entries@[j]);
                        }
                    }
                    assert(self@ =~= pre@.insert(kv, v));
                }
            },
        }
    }
}

} // verus!
