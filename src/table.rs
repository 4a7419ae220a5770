use vstd::prelude::*;

verus! {

/// An association list from textual identifiers to values, holding at most one
/// entry per identifier (identifiers are compared by their characters).
pub struct Table<V> {
    pub entries: Vec<(String, V)>,
}

impl<V: DeepView> View for Table<V> {
    type V = Map<Seq<char>, V::V>;

    /// The mapping from each identifier to the deep view of its value.
    open spec fn view(&self) -> Map<Seq<char>, V::V> {
        Map::new(
            |k: Seq<char>| self.has(k),
            |k: Seq<char>| self.entries@[self.index_of(k)].1.deep_view(),
        )
    }
}

impl<V: DeepView> Table<V> {
    /// No identifier occurs twice.
    pub open spec fn wf(&self) -> bool {
        forall|i: int, j: int|
            0 <= i < j < self.entries@.len() ==> #[trigger] self.entries@[i].0@
                != #[trigger] self.entries@[j].0@
    }

    pub open spec fn has(&self, k: Seq<char>) -> bool {
        exists|i: int| 0 <= i < self.entries@.len() && #[trigger] self.entries@[i].0@ == k
    }

    pub open spec fn index_of(&self, k: Seq<char>) -> int {
        choose|i: int| 0 <= i < self.entries@.len() && #[trigger] self.entries@[i].0@ == k
    }

    /// The entry at position `i` is what the view maps its identifier to.
    pub proof fn lemma_entry(&self, i: int)
        requires
            self.wf(),
            0 <= i < self.entries@.len(),
        ensures
            self.index_of(self.entries@[i].0@) == i,
            self@.contains_key(self.entries@[i].0@),
            self@[self.entries@[i].0@] == self.entries@[i].1.deep_view(),
    {
        let k = self.entries@[i].0@;
        assert(self.has(k));
        let j = self.index_of(k);
        assert(0 <= j < self.entries@.len() && self.entries@[j].0@ == k);
        if j < i {
            assert(self.entries@[j].0@ != self.entries@[i].0@);
        } else if i < j {
            assert(self.entries@[i].0@ != self.entries@[j].0@);
        }
    }

    pub fn new() -> (r: Self)
        ensures
            r.wf(),
            r@ == Map::<Seq<char>, V::V>::empty(),
    {
        let r = Table { entries: Vec::new() };
        assert(r@ =~= Map::<Seq<char>, V::V>::empty());
        r
    }

    /// The position of the entry for `k`, if there is one.
    pub fn find(&self, k: &String) -> (r: Option<usize>)
        ensures
            match r {
                Some(i) => i < self.entries@.len() && self.entries@[i as int].0@ == k@,
                None => !self.has(k@),
            },
    {
        let mut i: usize = 0;
        while i < self.entries.len()
            invariant
                0 <= i <= self.entries@.len(),
                forall|j: int| 0 <= j < i ==> #[trigger] self.entries@[j].0@ != k@,
            decreases self.entries@.len() - i,
        {
            if self.entries[i].0 == *k {
                return Some(i);
            }
            i += 1;
        }
        None
    }

    pub fn contains(&self, k: &String) -> (r: bool)
        requires
            self.wf(),
        ensures
            r == self@.contains_key(k@),
    {
        self.find(k).is_some()
    }

    pub fn get(&self, k: &String) -> (r: Option<&V>)
        requires
            self.wf(),
        ensures
            match r {
                Some(v) => self@.contains_key(k@) && self@[k@] == v.deep_view(),
                None => !self@.contains_key(k@),
            },
    {
        match self.find(k) {
            Some(i) => {
                proof {
                    self.lemma_entry(i as int);
                }
                Some(&self.entries[i].1)
            },
            None => None,
        }
    }

    /// Maps `k` to `v`, replacing the value it had.
    pub fn set(&mut self, k: String, v: V)
        requires
            old(self).wf(),
        ensures
            final(self).wf(),
            final(self)@ == old(self)@.insert(k@, v.deep_view()),
    {
        let ghost old_t = *self;
        let ghost kv = k@;
        let ghost vv = v.deep_view();
        match self.find(&k) {
            Some(i) => {
                self.entries[i] = (k, v);
                proof {
                    assert(self.wf()) by {
                        assert forall|a: int, b: int|
                            0 <= a < b < self.entries@.len() implies #[trigger] self.entries@[a].0@
                            != #[trigger] self.entries@[b].0@ by {
                            assert(old_t.entries@[a].0@ != old_t.entries@[b].0@);
                        }
                    }
                    assert forall|q: Seq<char>|
                        #![trigger self@.contains_key(q)]
                        self@.contains_key(q) == old_t@.insert(kv, vv).contains_key(q) && (
                        self@.contains_key(q) ==> self@[q] == old_t@.insert(kv, vv)[q]) by {
                        if q == kv {
                            self.lemma_entry(i as int);
                        } else if old_t.has(q) {
                            let j = old_t.index_of(q);
                            old_t.lemma_entry(j);
                            self.lemma_entry(j);
                        } else if self.has(q) {
                            let j = self.index_of(q);
                            assert(old_t.entries@[j].0@ == q);
                        }
                    }
                    assert(self@ =~= old_t@.insert(kv, vv));
                }
            },
            None => {
                self.entries.push((k, v));
                proof {
                    let n = old_t.entries@.len() as int;
                    assert(self.wf()) by {
                        assert forall|a: int, b: int|
                            0 <= a < b < self.entries@.len() implies #[trigger] self.entries@[a].0@
                            != #[trigger] self.entries@[b].0@ by {
                            if b == n {
                                assert(old_t.entries@[a].0@ != kv);
                            } else {
                                assert(old_t.entries@[a].0@ != old_t.entries@[b].0@);
                            }
                        }
                    }
                    assert forall|q: Seq<char>|
                        #![trigger self@.contains_key(q)]
                        self@.contains_key(q) == old_t@.insert(kv, vv).contains_key(q) && (
                        self@.contains_key(q) ==> self@[q] == old_t@.insert(kv, vv)[q]) by {
                        if q == kv {
                            self.lemma_entry(n);
                        } else if old_t.has(q) {
                            let j = old_t.index_of(q);
                            old_t.lemma_entry(j);
                            self.lemma_entry(j);
                        } else if self.has(q) {
                            let j = self.index_of(q);
                            assert(old_t.entries@[j].0@ == q);
                        }
                    }
                    assert(self@ =~= old_t@.insert(kv, vv));
                }
            },
        }
    }

    /// Drops the entry for `k`, if there is one.
    pub fn remove(&mut self, k: &String)
        requires
            old(self).wf(),
        ensures
            final(self).wf(),
            final(self)@ == old(self)@.remove(k@),
    {
        let ghost old_t = *self;
        match self.find(k) {
            Some(i) => {
                self.entries.remove(i);
                proof {
                    let ii = i as int;
                    assert(self.wf()) by {
                        assert forall|a: int, b: int|
                            0 <= a < b < self.entries@.len() implies #[trigger] self.entries@[a].0@
                            != #[trigger] self.entries@[b].0@ by {
                            let a0 = if a < ii { a } else { a + 1 };
                            let b0 = if b < ii { b } else { b + 1 };
                            assert(old_t.entries@[a0].0@ != old_t.entries@[b0].0@);
                        }
                    }
                    assert forall|q: Seq<char>|
                        #![trigger self@.contains_key(q)]
                        self@.contains_key(q) == old_t@.remove(k@).contains_key(q) && (
                        self@.contains_key(q) ==> self@[q] == old_t@.remove(k@)[q]) by {
                        if q == k@ {
                            if self.has(q) {
                                let j = self.index_of(q);
                                let j0 = if j < ii { j } else { j + 1 };
                                assert(old_t.entries@[j0].0@ == q);
                                old_t.lemma_entry(ii);
                                old_t.lemma_entry(j0);
                            }
                        } else if old_t.has(q) {
                            let j = old_t.index_of(q);
                            old_t.lemma_entry(j);
                            old_t.lemma_entry(ii);
                            let j1 = if j < ii { j } else { j - 1 };
                            assert(self.entries@[j1] == old_t.entries@[j]);
                            self.lemma_entry(j1);
                        } else if self.has(q) {
                            let j = self.index_of(q);
                            let j0 = if j < ii { j } else { j + 1 };
                            assert(old_t.entries@[j0].0@ == q);
                        }
                    }
                    assert(self@ =~= old_t@.remove(k@));
                }
            },
            None => {
                assert(self@ =~= old_t@.remove(k@));
            },
        }
    }
}

} // verus!
