//! A small association map with `String` keys, used throughout the crate
//! for selector tables, environment blocks and device projections.
//!
//! The abstract value of a map is a `Map<Seq<char>, T>`; the keys keep
//! their insertion order, which the index-based accessors expose to
//! callers that iterate.

use vstd::prelude::*;

verus! {

/// The views of a sequence of strings, in order.
pub open spec fn string_views(s: Seq<String>) -> Seq<Seq<char>> {
    Seq::new(s.len(), |i: int| s[i]@)
}

/// Association map from `String` keys to values of type `T`.
#[derive(Debug)]
pub struct StrMap<T> {
    keys: Vec<String>,
    vals: Vec<T>,
}

impl<T> StrMap<T> {
    /// The keys in insertion order, as sequences of characters.
    pub closed spec fn key_seq(self) -> Seq<Seq<char>> {
        string_views(self.keys@)
    }

    /// The values in insertion order.
    pub closed spec fn val_seq(self) -> Seq<T> {
        self.vals@
    }

    #[verifier::type_invariant]
    pub closed spec fn wf(self) -> bool {
        &&& self.keys@.len() == self.vals@.len()
        &&& self.key_seq().no_duplicates()
    }

    pub closed spec fn view(self) -> Map<Seq<char>, T> {
        Map::new(
            |k: Seq<char>| self.key_seq().contains(k),
            |k: Seq<char>| self.vals@[self.key_seq().index_of(k)],
        )
    }

    proof fn lemma_wf(self)
        requires
            self.wf(),
        ensures
            self.key_seq().no_duplicates(),
            self.key_seq().len() == self.val_seq().len(),
            self@.dom() == self.key_seq().to_set(),
            forall|i: int|
                0 <= i < self.key_seq().len() ==> self@.contains_key(#[trigger] self.key_seq()[i])
                    && self@[self.key_seq()[i]] == self.val_seq()[i],
    {
        assert forall|i: int| 0 <= i < self.key_seq().len() implies self@.contains_key(
            #[trigger] self.key_seq()[i],
        ) && self@[self.key_seq()[i]] == self.val_seq()[i] by {
            let k = self.key_seq()[i];
            assert(self.key_seq().contains(k));
            let j = self.key_seq().index_of(k);
            assert(self.key_seq()[j] == k);
            assert(j == i);
        }
        assert(self@.dom() =~= self.key_seq().to_set());
    }

    pub fn new() -> (r: Self)
        ensures
            r@ == Map::<Seq<char>, T>::empty(),
            r.key_seq() == Seq::<Seq<char>>::empty(),
    {
        let keys: Vec<String> = Vec::new();
        let vals: Vec<T> = Vec::new();
        proof {
            assert(string_views(keys@) =~= Seq::<Seq<char>>::empty());
        }
        let r = StrMap { keys, vals };
        proof {
            assert(r@ =~= Map::<Seq<char>, T>::empty());
        }
        r
    }

    /// Number of entries.  The contract also publishes the relation
    /// between the key order and the abstract map, which callers that
    /// iterate by index rely on.
    pub fn len(&self) -> (r: usize)
        ensures
            r == self.key_seq().len(),
            self.key_seq().no_duplicates(),
            self.key_seq().len() == self.val_seq().len(),
            self@.dom() == self.key_seq().to_set(),
            forall|i: int|
                0 <= i < self.key_seq().len() ==> self@.contains_key(#[trigger] self.key_seq()[i])
                    && self@[self.key_seq()[i]] == self.val_seq()[i],
    {
        proof {
            use_type_invariant(self);
            self.lemma_wf();
        }
        self.keys.len()
    }

    /// The key at position `i`, in insertion order.
    pub fn key_at(&self, i: usize) -> (r: &String)
        requires
            i < self.key_seq().len(),
        ensures
            r@ == self.key_seq()[i as int],
    {
        proof {
            use_type_invariant(self);
        }
        &self.keys[i]
    }

    /// The value at position `i`, in insertion order.
    pub fn val_at(&self, i: usize) -> (r: &T)
        requires
            i < self.key_seq().len(),
        ensures
            *r == self.val_seq()[i as int],
            self@.contains_key(self.key_seq()[i as int]),
            *r == self@[self.key_seq()[i as int]],
    {
        proof {
            use_type_invariant(self);
            self.lemma_wf();
        }
        &self.vals[i]
    }

    /// Looks a key up.
    pub fn get(&self, key: &String) -> (r: Option<&T>)
        ensures
            match r {
                Some(v) => self@.contains_key(key@) && *v == self@[key@],
                None => !self@.contains_key(key@),
            },
    {
        proof {
            use_type_invariant(self);
            self.lemma_wf();
        }
        let n = self.keys.len();
        for i in 0..n
            invariant
                n == self.key_seq().len(),
                n == self.keys@.len() == self.vals@.len(),
                self.key_seq().no_duplicates(),
                forall|j: int| 0 <= j < i ==> self.key_seq()[j] != key@,
            decreases n - i,
        {
            if self.keys[i] == *key {
                proof {
                    use_type_invariant(self);
                    self.lemma_wf();
                    assert(self.key_seq()[i as int] == key@);
                }
                return Some(&self.vals[i]);
            }
            proof {
                assert(self.key_seq()[i as int] == self.keys@[i as int]@);
            }
        }
        proof {
            assert(!self.key_seq().contains(key@));
        }
        None
    }

    pub fn contains_key(&self, key: &String) -> (r: bool)
        ensures
            r == self@.contains_key(key@),
    {
        self.get(key).is_some()
    }

    /// Inserts, replacing any entry under the same key.  A fresh key is
    /// appended at the end of the order.
    pub fn insert(&mut self, key: String, val: T)
        ensures
            final(self)@ == old(self)@.insert(key@, val),
            final(self).key_seq() == if old(self)@.contains_key(key@) {
                old(self).key_seq()
            } else {
                old(self).key_seq().push(key@)
            },
    {
        proof {
            use_type_invariant(&*self);
            old(self).lemma_wf();
        }
        let mut tmp = Self::new();
        std::mem::swap(self, &mut tmp);
        let ghost prev = tmp;
        let StrMap { mut keys, mut vals } = tmp;
        let n = keys.len();
        let mut found: Option<usize> = None;
        for i in 0..n
            invariant
                n == keys@.len() == vals@.len(),
                keys@ == prev.keys@,
                match found {
                    Some(f) => f < i && prev.key_seq()[f as int] == key@,
                    None => forall|j: int| 0 <= j < i ==> prev.key_seq()[j] != key@,
                },
            decreases n - i,
        {
            if found.is_none() && keys[i] == key {
                found = Some(i);
            }
        }
        match found {
            Some(i) => {
                vals[i] = val;
                proof {
                    prev.lemma_wf();
                }
                let next = StrMap { keys, vals };
                proof {
                    assert(next.key_seq() == prev.key_seq());
                    next.lemma_wf();
                    assert(prev@.contains_key(key@));
                    assert(prev.key_seq()[i as int] == key@);
                    assert forall|k: Seq<char>| next@.contains_key(k) implies prev@.insert(
                        key@,
                        val,
                    ).contains_key(k) && next@[k] == prev@.insert(key@, val)[k] by {
                        let j = next.key_seq().index_of(k);
                        assert(next.key_seq()[j] == k);
                        assert(next@[k] == next.val_seq()[j]);
                        if k == key@ {
                            assert(j == i);
                        } else {
                            assert(j != i as int);
                            assert(prev@[k] == prev.val_seq()[j]);
                        }
                    }
                    assert(next@ =~= prev@.insert(key@, val));
                }
                *self = next;
            },
            None => {
                proof {
                    assert(!prev.key_seq().contains(key@));
                    prev.lemma_wf();
                }
                keys.push(key);
                vals.push(val);
                proof {
                    assert(string_views(keys@) =~= prev.key_seq().push(keys@.last()@));
                }
                let next = StrMap { keys, vals };
                proof {
                    let kv = next.keys@.last()@;
                    assert(next.key_seq() =~= prev.key_seq().push(kv));
                    next.lemma_wf();
                    assert forall|k: Seq<char>| next@.contains_key(k) implies prev@.insert(
                        kv,
                        val,
                    ).contains_key(k) && next@[k] == prev@.insert(kv, val)[k] by {
                        let j = next.key_seq().index_of(k);
                        assert(next.key_seq()[j] == k);
                        assert(next@[k] == next.val_seq()[j]);
                        if j == prev.key_seq().len() {
                            assert(k == kv);
                        } else {
                            assert(k != kv);
                            assert(prev.key_seq()[j] == k);
                            assert(prev@[k] == prev.val_seq()[j]);
                        }
                    }
                    assert forall|k: Seq<char>|
                        prev@.insert(kv, val).contains_key(k) implies next@.contains_key(k) by {
                        if k == kv {
                            assert(next.key_seq()[prev.key_seq().len() as int] == k);
                        } else {
                            let j = prev.key_seq().index_of(k);
                            assert(prev.key_seq()[j] == k);
                            assert(next.key_seq()[j] == k);
                        }
                    }
                    assert(next@ =~= prev@.insert(kv, val));
                }
                *self = next;
            },
        }
    }

    /// Removes a key if present; the order of the other keys is kept.
    pub fn remove(&mut self, key: &String)
        ensures
            final(self)@ == old(self)@.remove(key@),
            final(self).key_seq() == old(self).key_seq().remove_value(key@),
    {
        proof {
            use_type_invariant(&*self);
            old(self).lemma_wf();
        }
        let mut tmp = Self::new();
        std::mem::swap(self, &mut tmp);
        let ghost prev = tmp;
        let StrMap { mut keys, mut vals } = tmp;
        let n = keys.len();
        let mut found: Option<usize> = None;
        for i in 0..n
            invariant
                n == keys@.len() == vals@.len(),
                keys@ == prev.keys@,
                match found {
                    Some(f) => f < i && prev.key_seq()[f as int] == key@,
                    None => forall|j: int| 0 <= j < i ==> prev.key_seq()[j] != key@,
                },
            decreases n - i,
        {
            if found.is_none() && keys[i] == *key {
                found = Some(i);
            }
        }
        match found {
            Some(i) => {
                keys.remove(i);
                vals.remove(i);
                proof {
                    prev.lemma_wf();
                    lemma_remove_keeps_unique(prev.key_seq(), i as int);
                    assert(string_views(keys@) =~= prev.key_seq().remove(i as int));
                }
                let next = StrMap { keys, vals };
                proof {
                    assert(next.key_seq() =~= prev.key_seq().remove(i as int));
                    next.lemma_wf();
                    assert(prev.key_seq().index_of_first(key@) == Some(i as int)) by {
                        prev.key_seq().index_of_first_ensures(key@);
                        assert(prev.key_seq()[i as int] == key@);
                        assert(prev.key_seq().contains(key@));
                        let f = prev.key_seq().index_of_first(key@)->0;
                        assert(prev.key_seq()[f] == key@);
                        assert(f == i as int);
                    }
                    assert(next.key_seq() =~= prev.key_seq().remove_value(key@));
                    assert forall|k: Seq<char>| next@.contains_key(k) implies prev@.remove(
                        key@,
                    ).contains_key(k) && next@[k] == prev@.remove(key@)[k] by {
                        let j = next.key_seq().index_of(k);
                        assert(next.key_seq()[j] == k);
                        let j0 = if j < i as int {
                            j
                        } else {
                            j + 1
                        };
                        assert(prev.key_seq()[j0] == k);
                        assert(k != key@);
                        assert(prev@.contains_key(k) && prev@[k] == prev.val_seq()[j0]);
                        assert(next@[k] == next.val_seq()[j]);
                        assert(next.val_seq()[j] == prev.val_seq()[j0]);
                    }
                    assert forall|k: Seq<char>|
                        prev@.remove(key@).contains_key(k) implies next@.contains_key(k) by {
                        let j0 = prev.key_seq().index_of(k);
                        assert(prev.key_seq()[j0] == k);
                        assert(j0 != i as int);
                        let j = if j0 < i as int {
                            j0
                        } else {
                            j0 - 1
                        };
                        assert(next.key_seq()[j] == k);
                        assert(next.key_seq().contains(k));
                    }
                    assert(next@ =~= prev@.remove(key@));
                }
                *self = next;
            },
            None => {
                let next = StrMap { keys, vals };
                proof {
                    assert(!prev.key_seq().contains(key@));
                    assert(next.key_seq() == prev.key_seq());
                    assert(next@ =~= prev@.remove(key@));
                    assert(next.key_seq() =~= prev.key_seq().remove_value(key@)) by {
                        prev.key_seq().index_of_first_ensures(key@);
                    }
                }
                *self = next;
            },
        }
    }
}

impl<T: Clone> Clone for StrMap<T> {
    /// The clone keeps the keys; the values are clones, about which
    /// nothing further is known for a general `T`.
    fn clone(&self) -> (res: Self)
        ensures
            res.key_seq() == self.key_seq(),
            res.val_seq().len() == self.val_seq().len(),
    {
        proof {
            use_type_invariant(self);
        }
        let n = self.keys.len();
        let mut keys: Vec<String> = Vec::new();
        let mut vals: Vec<T> = Vec::new();
        for i in 0..n
            invariant
                n == self.keys@.len() == self.vals@.len(),
                keys@.len() == i && vals@.len() == i,
                forall|j: int| 0 <= j < i ==> keys@[j]@ == self.keys@[j]@,
            decreases n - i,
        {
            keys.push(self.keys[i].clone());
            vals.push(self.vals[i].clone());
        }
        proof {
            use_type_invariant(self);
            assert(string_views(keys@) =~= string_views(self.keys@));
        }
        StrMap { keys, vals }
    }
}

/// Equality of two string slices by content.
pub fn str_eq(a: &str, b: &str) -> (r: bool)
    ensures
        r == (a@ == b@),
{
    let sa = String::from_str(a);
    let sb = String::from_str(b);
    sa == sb
}

/// Removing one position from a duplicate-free sequence keeps it
/// duplicate-free.
proof fn lemma_remove_keeps_unique(s: Seq<Seq<char>>, i: int)
    requires
        s.no_duplicates(),
        0 <= i < s.len(),
    ensures
        s.remove(i).no_duplicates(),
{
    let t = s.remove(i);
    assert forall|p: int, q: int| 0 <= p < q < t.len() implies t[p] != t[q] by {
        let p0 = if p < i {
            p
        } else {
            p + 1
        };
        let q0 = if q < i {
            q
        } else {
            q + 1
        };
        assert(t[p] == s[p0] && t[q] == s[q0]);
    }
}

} // verus!
