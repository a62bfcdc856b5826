//! An association map with `u32` keys, used for the session and
//! executor tables of the session manager.

use vstd::prelude::*;

verus! {

/// Association map from `u32` keys to values of type `T`; the abstract
/// value is a `Map<u32, T>` and the keys keep their insertion order.
#[derive(Debug)]
pub struct IdMap<T> {
    keys: Vec<u32>,
    vals: Vec<T>,
}

impl<T> IdMap<T> {
    /// The keys in insertion order.
    pub closed spec fn key_seq(self) -> Seq<u32> {
        self.keys@
    }

    /// The values in insertion order.
    pub closed spec fn val_seq(self) -> Seq<T> {
        self.vals@
    }

    #[verifier::type_invariant]
    pub closed spec fn wf(self) -> bool {
        &&& self.keys@.len() == self.vals@.len()
        &&& self.keys@.no_duplicates()
    }

    pub closed spec fn view(self) -> Map<u32, T> {
        Map::new(
            |k: u32| self.keys@.contains(k),
            |k: u32| self.vals@[self.keys@.index_of(k)],
        )
    }

    proof fn lemma_wf(self)
        requires
            self.wf(),
        ensures
            self.key_seq().no_duplicates(),
            self.key_seq().len() == self.val_seq().len(),
            self@.dom() == self.key_seq().to_set(),
            forall|i: int|
                0 <= i < self.key_seq().len() ==> self@.contains_key(#[trigger] self.key_seq()[i])
                    && self@[self.key_seq()[i]] == self.val_seq()[i],
    {
        assert forall|i: int| 0 <= i < self.key_seq().len() implies self@.contains_key(
            #[trigger] self.key_seq()[i],
        ) && self@[self.key_seq()[i]] == self.val_seq()[i] by {
            let k = self.key_seq()[i];
            assert(self.keys@.contains(k));
            let j = self.keys@.index_of(k);
            assert(self.keys@[j] == k);
            assert(j == i);
        }
        assert(self@.dom() =~= self.key_seq().to_set());
    }

    pub fn new() -> (r: Self)
        ensures
            r@ == Map::<u32, T>::empty(),
            r.key_seq() == Seq::<u32>::empty(),
    {
        let r = IdMap { keys: Vec::new(), vals: Vec::new() };
        proof {
            assert(r@ =~= Map::<u32, T>::empty());
        }
        r
    }

    /// Number of entries, together with the relation between the key
    /// order and the abstract map.
    pub fn len(&self) -> (r: usize)
        ensures
            r == self.key_seq().len(),
            self.key_seq().no_duplicates(),
            self.key_seq().len() == self.val_seq().len(),
            self@.dom() == self.key_seq().to_set(),
            forall|i: int|
                0 <= i < self.key_seq().len() ==> self@.contains_key(#[trigger] self.key_seq()[i])
                    && self@[self.key_seq()[i]] == self.val_seq()[i],
    {
        proof {
            use_type_invariant(self);
            self.lemma_wf();
        }
        self.keys.len()
    }

    /// The key at position `i`, in insertion order.
    pub fn key_at(&self, i: usize) -> (r: u32)
        requires
            i < self.key_seq().len(),
        ensures
            r == self.key_seq()[i as int],
    {
        proof {
            use_type_invariant(self);
        }
        self.keys[i]
    }

    /// The value at position `i`, in insertion order.
    pub fn val_at(&self, i: usize) -> (r: &T)
        requires
            i < self.key_seq().len(),
        ensures
            *r == self.val_seq()[i as int],
            self@.contains_key(self.key_seq()[i as int]),
            *r == self@[self.key_seq()[i as int]],
    {
        proof {
            use_type_invariant(self);
            self.lemma_wf();
        }
        &self.vals[i]
    }

    /// Looks a key up.
    pub fn get(&self, key: u32) -> (r: Option<&T>)
        ensures
            match r {
                Some(v) => self@.contains_key(key) && *v == self@[key],
                None => !self@.contains_key(key),
            },
    {
        proof {
            use_type_invariant(self);
            self.lemma_wf();
        }
        let n = self.keys.len();
        for i in 0..n
            invariant
                n == self.keys@.len() == self.vals@.len(),
                self.keys@.no_duplicates(),
                forall|j: int| 0 <= j < i ==> self.keys@[j] != key,
            decreases n - i,
        {
            if self.keys[i] == key {
                proof {
                    use_type_invariant(self);
                    self.lemma_wf();
                }
                return Some(&self.vals[i]);
            }
        }
        proof {
            assert(!self.keys@.contains(key));
        }
        None
    }

    pub fn contains_key(&self, key: u32) -> (r: bool)
        ensures
            r == self@.contains_key(key),
    {
        self.get(key).is_some()
    }

    /// Inserts, replacing any entry under the same key.  A fresh key is
    /// appended at the end of the order.
    pub fn insert(&mut self, key: u32, val: T)
        ensures
            final(self)@ == old(self)@.insert(key, val),
            final(self).key_seq() == if old(self)@.contains_key(key) {
                old(self).key_seq()
            } else {
                old(self).key_seq().push(key)
            },
    {
        proof {
            use_type_invariant(&*self);
            old(self).lemma_wf();
        }
        let mut tmp = Self::new();
        std::mem::swap(self, &mut tmp);
        let ghost prev = tmp;
        let IdMap { mut keys, mut vals } = tmp;
        let n = keys.len();
        let mut found: Option<usize> = None;
        for i in 0..n
            invariant
                n == keys@.len() == vals@.len(),
                keys@ == prev.keys@,
                match found {
                    Some(f) => f < i && prev.keys@[f as int] == key,
                    None => forall|j: int| 0 <= j < i ==> prev.keys@[j] != key,
                },
            decreases n - i,
        {
            if found.is_none() && keys[i] == key {
                found = Some(i);
            }
        }
        match found {
            Some(i) => {
                vals[i] = val;
                proof {
                    prev.lemma_wf();
                }
                let next = IdMap { keys, vals };
                proof {
                    next.lemma_wf();
                    assert forall|k: u32| next@.contains_key(k) implies prev@.insert(
                        key,
                        val,
                    ).contains_key(k) && next@[k] == prev@.insert(key, val)[k] by {
                        let j = next.keys@.index_of(k);
                        assert(next.keys@[j] == k);
                        assert(next@[k] == next.val_seq()[j]);
                        if k == key {
                            assert(j == i);
                        } else {
                            assert(j != i as int);
                            assert(prev@[k] == prev.val_seq()[j]);
                        }
                    }
                    assert(next@ =~= prev@.insert(key, val));
                }
                *self = next;
            },
            None => {
                proof {
                    assert(!prev.keys@.contains(key));
                    prev.lemma_wf();
                }
                keys.push(key);
                vals.push(val);
                let next = IdMap { keys, vals };
                proof {
                    next.lemma_wf();
                    assert forall|k: u32| next@.contains_key(k) implies prev@.insert(
                        key,
                        val,
                    ).contains_key(k) && next@[k] == prev@.insert(key, val)[k] by {
                        let j = next.keys@.index_of(k);
                        assert(next.keys@[j] == k);
                        assert(next@[k] == next.val_seq()[j]);
                        if j == prev.keys@.len() {
                            assert(k == key);
                        } else {
                            assert(k != key);
                            assert(prev@[k] == prev.val_seq()[j]);
                        }
                    }
                    assert forall|k: u32|
                        prev@.insert(key, val).contains_key(k) implies next@.contains_key(k) by {
                        if k == key {
                            assert(next.keys@[prev.keys@.len() as int] == k);
                        } else {
                            let j = prev.keys@.index_of(k);
                            assert(prev.keys@[j] == k);
                            assert(next.keys@[j] == k);
                        }
                    }
                    assert(next@ =~= prev@.insert(key, val));
                }
                *self = next;
            },
        }
    }

    /// Removes a key if present; the order of the other keys is kept.
    pub fn remove(&mut self, key: u32)
        ensures
            final(self)@ == old(self)@.remove(key),
            final(self).key_seq() == old(self).key_seq().remove_value(key),
    {
        proof {
            use_type_invariant(&*self);
            old(self).lemma_wf();
        }
        let mut tmp = Self::new();
        std::mem::swap(self, &mut tmp);
        let ghost prev = tmp;
        let IdMap { mut keys, mut vals } = tmp;
        let n = keys.len();
        let mut found: Option<usize> = None;
        for i in 0..n
            invariant
                n == keys@.len() == vals@.len(),
                keys@ == prev.keys@,
                match found {
                    Some(f) => f < i && prev.keys@[f as int] == key,
                    None => forall|j: int| 0 <= j < i ==> prev.keys@[j] != key,
                },
            decreases n - i,
        {
            if found.is_none() && keys[i] == key {
                found = Some(i);
            }
        }
        match found {
            Some(i) => {
                keys.remove(i);
                vals.remove(i);
                proof {
                    prev.lemma_wf();
                    prev.keys@.unique_seq_to_set();
                    assert(keys@ =~= prev.keys@.remove(i as int));
                    assert(keys@.no_duplicates()) by {
                        assert forall|p: int, q: int|
                            0 <= p < q < keys@.len() implies keys@[p] != keys@[q] by {
                            let p0 = if p < i as int {
                                p
                            } else {
                                p + 1
                            };
                            let q0 = if q < i as int {
                                q
                            } else {
                                q + 1
                            };
                            assert(keys@[p] == prev.keys@[p0] && keys@[q] == prev.keys@[q0]);
                        }
                    }
                }
                let next = IdMap { keys, vals };
                proof {
                    next.lemma_wf();
                    assert(prev.keys@.index_of_first(key) == Some(i as int)) by {
                        prev.keys@.index_of_first_ensures(key);
                        assert(prev.keys@[i as int] == key);
                        assert(prev.keys@.contains(key));
                        let f = prev.keys@.index_of_first(key)->0;
                        assert(prev.keys@[f] == key);
                        assert(f == i as int);
                    }
                    assert(next.key_seq() =~= prev.key_seq().remove_value(key));
                    assert forall|k: u32| next@.contains_key(k) implies prev@.remove(
                        key,
                    ).contains_key(k) && next@[k] == prev@.remove(key)[k] by {
                        let j = next.keys@.index_of(k);
                        assert(next.keys@[j] == k);
                        let j0 = if j < i as int {
                            j
                        } else {
                            j + 1
                        };
                        assert(prev.keys@[j0] == k);
                        assert(k != key);
                        assert(prev@.contains_key(k) && prev@[k] == prev.val_seq()[j0]);
                        assert(next@[k] == next.val_seq()[j]);
                        assert(next.val_seq()[j] == prev.val_seq()[j0]);
                    }
                    assert forall|k: u32|
                        prev@.remove(key).contains_key(k) implies next@.contains_key(k) by {
                        let j0 = prev.keys@.index_of(k);
                        assert(prev.keys@[j0] == k);
                        assert(j0 != i as int);
                        let j = if j0 < i as int {
                            j0
                        } else {
                            j0 - 1
                        };
                        assert(next.keys@[j] == k);
                        assert(next.keys@.contains(k));
                    }
                    assert(next@ =~= prev@.remove(key));
                }
                *self = next;
            },
            None => {
                let next = IdMap { keys, vals };
                proof {
                    assert(!prev.keys@.contains(key));
                    assert(next@ =~= prev@.remove(key));
                    assert(next.key_seq() =~= prev.key_seq().remove_value(key)) by {
                        prev.keys@.index_of_first_ensures(key);
                    }
                }
                *self = next;
            },
        }
    }
}

} // verus!
