//! A keyed table: a finite map from text keys to values, each key held once.

use vstd::prelude::*;

verus! {

#[derive(Debug)]
#[verifier::reject_recursive_types(V)]
pub struct KeyTable<V> {
    keys: Vec<String>,
    vals: Vec<V>,
}

impl<V> KeyTable<V> {
    /// Keys and values pair up one to one, and no key appears twice.
    pub closed spec fn wf(&self) -> bool {
        &&& self.keys@.len() == self.vals@.len()
        &&& forall|i: int, j: int|
            0 <= i < j < self.keys@.len() ==> #[trigger] self.keys@[i]@ != #[trigger] self.keys@[j]@
    }

    pub closed spec fn has_at(&self, k: Seq<char>, i: int) -> bool {
        0 <= i < self.keys@.len() && self.keys@[i]@ == k
    }

    pub closed spec fn view(&self) -> Map<Seq<char>, V> {
        Map::new(
            |k: Seq<char>| exists|i: int| self.has_at(k, i),
            |k: Seq<char>| self.vals@[choose|i: int| self.has_at(k, i)],
        )
    }

    proof fn lemma_lookup(&self, k: Seq<char>, i: int)
        requires
            self.wf(),
            self.has_at(k, i),
        ensures
            self.view().contains_key(k),
            self.view()[k] == self.vals@[i],
    {
        let j = choose|j: int| self.has_at(k, j);
        assert(self.has_at(k, j));
        if i < j {
            assert(self.keys@[i]@ != self.keys@[j]@);
        } else if j < i {
            assert(self.keys@[j]@ != self.keys@[i]@);
        }
    }

    proof fn lemma_finite(&self)
        requires
            self.wf(),
        ensures
            self.view().dom().finite(),
            self.view().dom().len() == self.keys@.len(),
        decreases self.keys@.len(),
    {
        let ks = self.keys@.map_values(|s: String| s@);
        assert(self.view().dom() =~= ks.to_set()) by {
            assert forall|k: Seq<char>| self.view().dom().contains(k) implies ks.to_set().contains(k) by {
                let i = choose|i: int| self.has_at(k, i);
                assert(ks[i] == k);
            }
            assert forall|k: Seq<char>| ks.to_set().contains(k) implies self.view().dom().contains(k) by {
                let i = choose|i: int| 0 <= i < ks.len() && ks[i] == k;
                assert(self.has_at(k, i));
            }
        }
        assert(ks.no_duplicates()) by {
            assert forall|i: int, j: int| 0 <= i < ks.len() && 0 <= j < ks.len() && i != j implies ks[i] != ks[j] by {
                if i < j {
                    assert(self.keys@[i]@ != self.keys@[j]@);
                } else {
                    assert(self.keys@[j]@ != self.keys@[i]@);
                }
            }
        }
        ks.unique_seq_to_set();
    }

    pub fn new() -> (r: Self)
        ensures
            r.wf(),
            r.view() == Map::<Seq<char>, V>::empty(),
    {
        let r = KeyTable { keys: Vec::new(), vals: Vec::new() };
        assert(r.view() =~= Map::<Seq<char>, V>::empty());
        r
    }

    /// The position of `key`, if present.
    fn find(&self, key: &String) -> (r: Option<usize>)
        requires
            self.wf(),
        ensures
            match r {
                Some(i) => self.has_at(key@, i as int),
                None => !self.view().contains_key(key@),
            },
    {
        let mut i: usize = 0;
        while i < self.keys.len()
            invariant
                self.wf(),
                i <= self.keys@.len(),
                forall|j: int| 0 <= j < i ==> self.keys@[j]@ != key@,
            decreases self.keys@.len() - i,
        {
            if self.keys[i] == *key {
                return Some(i);
            }
            i = i + 1;
        }
        None
    }

    pub fn contains(&self, key: &str) -> (r: bool)
        requires
            self.wf(),
        ensures
            r == self.view().contains_key(key@),
    {
        let k = key.to_owned();
        match self.find(&k) {
            Some(i) => {
                proof {
                    self.lemma_lookup(k@, i as int);
                }
                true
            },
            None => false,
        }
    }

    pub fn get(&self, key: &str) -> (r: Option<&V>)
        requires
            self.wf(),
        ensures
            match r {
                Some(v) => self.view().contains_key(key@) && *v == self.view()[key@],
                None => !self.view().contains_key(key@),
            },
    {
        let k = key.to_owned();
        match self.find(&k) {
            Some(i) => {
                proof {
                    self.lemma_lookup(k@, i as int);
                }
                Some(&self.vals[i])
            },
            None => None,
        }
    }

    pub fn remove(&mut self, key: &str) -> (r: Option<V>)
        requires
            old(self).wf(),
        ensures
            final(self).wf(),
            final(self).view() == old(self).view().remove(key@),
            match r {
                Some(v) => old(self).view().contains_key(key@) && v == old(self).view()[key@],
                None => !old(self).view().contains_key(key@),
            },
    {
        let k = key.to_owned();
        match self.find(&k) {
            Some(i) => {
                proof {
                    self.lemma_lookup(k@, i as int);
                }
                let ghost pre = *self;
                self.keys.swap_remove(i);
                let v = self.vals.swap_remove(i);
                let ghost last = pre.keys@.len() - 1;
                assert(self.wf()) by {
                    assert forall|a: int, b: int| 0 <= a < b < self.keys@.len() implies
                        #[trigger] self.keys@[a]@ != #[trigger] self.keys@[b]@ by {
                        let pa = if a == i { last } else { a };
                        let pb = if b == i { last } else { b };
                        assert(self.keys@[a] == pre.keys@[pa]);
                        assert(self.keys@[b] == pre.keys@[pb]);
                        if pa < pb {
                            assert(pre.keys@[pa]@ != pre.keys@[pb]@);
                        } else {
                            assert(pre.keys@[pb]@ != pre.keys@[pa]@);
                        }
                    }
                }
                assert(self.view() =~= pre.view().remove(k@)) by {
                    assert forall|q: Seq<char>| #[trigger] self.view().contains_key(q) implies
                        pre.view().remove(k@).contains_key(q) && self.view()[q] == pre.view().remove(k@)[q] by {
                        let a = choose|a: int| self.has_at(q, a);
                        let pa = if a == i { last } else { a };
                        assert(pre.has_at(q, pa));
                        pre.lemma_lookup(q, pa);
                        self.lemma_lookup(q, a);
                        if q == k@ {
                            if pa < i as int {
                                assert(pre.keys@[pa]@ != pre.keys@[i as int]@);
                            } else if pa > i as int {
                                assert(pre.keys@[i as int]@ != pre.keys@[pa]@);
                            }
                        }
                    }
                    assert forall|q: Seq<char>| #[trigger] pre.view().remove(k@).contains_key(q) implies
                        self.view().contains_key(q) by {
                        let pa = choose|a: int| pre.has_at(q, a);
                        assert(pa != i);
                        let a = if pa == last { i as int } else { pa };
                        assert(self.has_at(q, a));
                    }
                }
                Some(v)
            },
            None => {
                assert(self.view() =~= self.view().remove(k@));
                None
            },
        }
    }

    pub fn insert(&mut self, key: String, v: V)
        requires
            old(self).wf(),
        ensures
            final(self).wf(),
            final(self).view() == old(self).view().insert(key@, v),
    {
        let ghost k = key@;
        let _ = self.remove(key.as_str());
        let ghost mid = *self;
        self.keys.push(key);
        self.vals.push(v);
        let ghost n = mid.keys@.len() as int;
        assert(self.wf()) by {
            assert forall|a: int, b: int| 0 <= a < b < self.keys@.len() implies
                #[trigger] self.keys@[a]@ != #[trigger] self.keys@[b]@ by {
                if b == n {
                    assert(mid.has_at(self.keys@[a]@, a));
                    assert(mid.view().contains_key(self.keys@[a]@));
                } else {
                    assert(self.keys@[a] == mid.keys@[a]);
                    assert(self.keys@[b] == mid.keys@[b]);
                }
            }
        }
        assert(self.has_at(k, n));
        proof {
            self.lemma_lookup(k, n);
        }
        assert(self.view() =~= mid.view().insert(k, v)) by {
            assert forall|q: Seq<char>| #[trigger] self.view().contains_key(q) implies
                mid.view().insert(k, v).contains_key(q) && self.view()[q] == mid.view().insert(k, v)[q] by {
                if q != k {
                    let a = choose|a: int| self.has_at(q, a);
                    assert(a != n);
                    assert(mid.has_at(q, a));
                    mid.lemma_lookup(q, a);
                    self.lemma_lookup(q, a);
                }
            }
            assert forall|q: Seq<char>| #[trigger] mid.view().insert(k, v).contains_key(q) implies
                self.view().contains_key(q) by {
                if q != k {
                    let a = choose|a: int| mid.has_at(q, a);
                    assert(self.has_at(q, a));
                }
            }
        }
    }

    /// The number of keys held.
    pub fn len(&self) -> (r: usize)
        requires
            self.wf(),
        ensures
            r == self.view().dom().len(),
    {
        proof {
            self.lemma_finite();
        }
        self.keys.len()
    }
}

} // verus!
