//! A small map keyed by strings (tenant ids, provider names), kept as two
//! parallel vectors. Its abstract value is a `Map` from character sequences
//! to values; insertion order is not part of that value.
use vstd::prelude::*;

use crate::text::str_eq;

verus! {

/// A map from string keys to values.
pub struct StrMap<V> {
    keys: Vec<String>,
    vals: Vec<V>,
    model: Ghost<Map<Seq<char>, V>>,
}

impl<V> View for StrMap<V> {
    type V = Map<Seq<char>, V>;

    closed spec fn view(&self) -> Map<Seq<char>, V> {
        self.model@
    }
}

impl<V> StrMap<V> {
    /// The keys in storage order.
    pub closed spec fn key_seq(&self) -> Seq<Seq<char>> {
        Seq::new(self.keys@.len(), |i: int| self.keys@[i]@)
    }

    /// The values in storage order.
    pub closed spec fn val_seq(&self) -> Seq<V> {
        self.vals@
    }

    /// Storage and map agree, and no key is stored twice.
    pub closed spec fn wf(&self) -> bool {
        &&& self.keys@.len() == self.vals@.len()
        &&& forall|i: int|
            0 <= i < self.keys@.len() ==> #[trigger] self.model@.contains_key(self.keys@[i]@)
                && self.model@[self.keys@[i]@] == self.vals@[i]
        &&& forall|k: Seq<char>|
            #[trigger] self.model@.contains_key(k) ==> exists|i: int|
                0 <= i < self.keys@.len() && #[trigger] self.keys@[i]@ == k
        &&& forall|i: int, j: int|
            0 <= i < j < self.keys@.len() ==> #[trigger] self.keys@[i]@ != #[trigger] self.keys@[j]@
    }

    /// The stored sequences describe the map exactly: equal lengths,
    /// distinct keys, each key mapped to the value at its position, and
    /// nothing else in the map.
    pub proof fn lemma_seqs(&self)
        requires
            self.wf(),
        ensures
            self.key_seq().len() == self.val_seq().len(),
            forall|i: int|
                0 <= i < self.key_seq().len() ==> #[trigger] self@.contains_key(self.key_seq()[i])
                    && self@[self.key_seq()[i]] == self.val_seq()[i],
            forall|k: Seq<char>|
                #[trigger] self@.contains_key(k) ==> exists|i: int|
                    0 <= i < self.key_seq().len() && #[trigger] self.key_seq()[i] == k,
            forall|i: int, j: int|
                0 <= i < j < self.key_seq().len() ==> #[trigger] self.key_seq()[i]
                    != #[trigger] self.key_seq()[j],
    {
        assert forall|k: Seq<char>| #[trigger] self@.contains_key(k) implies exists|i: int|
            0 <= i < self.key_seq().len() && #[trigger] self.key_seq()[i] == k by {
            let i = choose|i: int| 0 <= i < self.keys@.len() && #[trigger] self.keys@[i]@ == k;
            assert(self.key_seq()[i] == k);
        }
    }

    /// An empty map.
    pub fn new() -> (m: Self)
        ensures
            m.wf(),
            m@ == Map::<Seq<char>, V>::empty(),
    {
        StrMap { keys: Vec::new(), vals: Vec::new(), model: Ghost(Map::empty()) }
    }

    /// Number of keys.
    pub fn len(&self) -> (n: usize)
        requires
            self.wf(),
        ensures
            n == self.key_seq().len(),
    {
        self.keys.len()
    }

    /// The key stored at position `i`.
    pub fn key_at(&self, i: usize) -> (k: &String)
        requires
            self.wf(),
            i < self.key_seq().len(),
        ensures
            k@ == self.key_seq()[i as int],
    {
        &self.keys[i]
    }

    /// The value stored at position `i`.
    pub fn val_at(&self, i: usize) -> (v: &V)
        requires
            self.wf(),
            i < self.key_seq().len(),
        ensures
            *v == self.val_seq()[i as int],
    {
        &self.vals[i]
    }

    /// Position of `k`, if present.
    fn index_of(&self, k: &str) -> (r: Option<usize>)
        requires
            self.wf(),
        ensures
            match r {
                Some(i) => i < self.keys@.len() && self.keys@[i as int]@ == k@,
                None => !self@.contains_key(k@),
            },
    {
        let mut i: usize = 0;
        while i < self.keys.len()
            invariant
                self.wf(),
                i <= self.keys@.len(),
                forall|j: int| 0 <= j < i ==> self.keys@[j]@ != k@,
            decreases self.keys@.len() - i,
        {
            if str_eq(self.keys[i].as_str(), k) {
                return Some(i);
            }
            i = i + 1;
        }
        None
    }

    /// Whether `k` is present.
    pub fn contains_key(&self, k: &str) -> (r: bool)
        requires
            self.wf(),
        ensures
            r == self@.contains_key(k@),
    {
        match self.index_of(k) {
            Some(i) => {
                assert(self.model@.contains_key(self.keys@[i as int]@));
                true
            },
            None => false,
        }
    }

    /// The value of `k`, if present.
    pub fn get(&self, k: &str) -> (r: Option<&V>)
        requires
            self.wf(),
        ensures
            match r {
                Some(v) => self@.contains_key(k@) && *v == self@[k@],
                None => !self@.contains_key(k@),
            },
    {
        match self.index_of(k) {
            Some(i) => {
                assert(self.model@.contains_key(self.keys@[i as int]@));
                Some(&self.vals[i])
            },
            None => None,
        }
    }

    /// Remove `k` and return its value, if present.
    pub fn remove(&mut self, k: &str) -> (r: Option<V>)
        requires
            old(self).wf(),
        ensures
            final(self).wf(),
            final(self)@ == old(self)@.remove(k@),
            match r {
                Some(v) => old(self)@.contains_key(k@) && v == old(self)@[k@],
                None => !old(self)@.contains_key(k@),
            },
    {
        match self.index_of(k) {
            None => {
                assert(self.model@.remove(k@) =~= self.model@);
                None
            },
            Some(i) => {
                let ghost old_keys = self.keys@;
                let ghost old_vals = self.vals@;
                let ghost old_model = self.model@;
                assert(old_model.contains_key(old_keys[i as int]@));
                let _key = self.keys.remove(i);
                let v = self.vals.remove(i);
                proof {
                    self.model@ = old_model.remove(k@);
                    assert forall|j: int| 0 <= j < self.keys@.len() implies #[trigger] self.model@.contains_key(
                        self.keys@[j]@,
                    ) && self.model@[self.keys@[j]@] == self.vals@[j] by {
                        if j < i {
                            assert(old_model.contains_key(old_keys[j]@));
                            assert(old_keys[j]@ != old_keys[i as int]@);
                        } else {
                            assert(old_model.contains_key(old_keys[j + 1]@));
                            assert(old_keys[j + 1]@ != old_keys[i as int]@);
                        }
                    }
                    assert forall|kk: Seq<char>| #[trigger] self.model@.contains_key(kk) implies exists|j: int|
                        0 <= j < self.keys@.len() && #[trigger] self.keys@[j]@ == kk by {
                        let j = choose|j: int| 0 <= j < old_keys.len() && #[trigger] old_keys[j]@ == kk;
                        if j < i {
                            assert(self.keys@[j]@ == kk);
                        } else {
                            assert(j != i);
                            assert(self.keys@[j - 1]@ == kk);
                        }
                    }
                    assert forall|a: int, b: int| 0 <= a < b < self.keys@.len() implies #[trigger] self.keys@[a]@
                        != #[trigger] self.keys@[b]@ by {
                        let a0 = if a < i { a } else { a + 1 };
                        let b0 = if b < i { b } else { b + 1 };
                        assert(old_keys[a0]@ != old_keys[b0]@);
                    }
                }
                Some(v)
            },
        }
    }

    /// Set the value of `k` to `v`, adding the key if it is new.
    pub fn insert(&mut self, k: &str, v: V)
        requires
            old(self).wf(),
        ensures
            final(self).wf(),
            final(self)@ == old(self)@.insert(k@, v),
    {
        let _ = self.remove(k);
        let ghost mid_keys = self.keys@;
        let ghost mid_model = self.model@;
        self.keys.push(k.to_owned());
        self.vals.push(v);
        proof {
            self.model@ = mid_model.insert(k@, v);
            assert forall|j: int| 0 <= j < self.keys@.len() implies #[trigger] self.model@.contains_key(
                self.keys@[j]@,
            ) && self.model@[self.keys@[j]@] == self.vals@[j] by {
                if j < mid_keys.len() {
                    assert(mid_model.contains_key(mid_keys[j]@));
                }
            }
            assert forall|kk: Seq<char>| #[trigger] self.model@.contains_key(kk) implies exists|j: int|
                0 <= j < self.keys@.len() && #[trigger] self.keys@[j]@ == kk by {
                if kk == k@ {
                    assert(self.keys@[mid_keys.len() as int]@ == kk);
                } else {
                    let j = choose|j: int| 0 <= j < mid_keys.len() && #[trigger] mid_keys[j]@ == kk;
                    assert(self.keys@[j]@ == kk);
                }
            }
            assert forall|a: int, b: int| 0 <= a < b < self.keys@.len() implies #[trigger] self.keys@[a]@
                != #[trigger] self.keys@[b]@ by {
                if b == mid_keys.len() {
                    assert(mid_model.contains_key(mid_keys[a]@));
                }
            }
        }
        assert(self.model@ =~= old(self)@.insert(k@, v));
    }

    /// Remove every key.
    pub fn clear(&mut self)
        requires
            old(self).wf(),
        ensures
            final(self).wf(),
            final(self)@ == Map::<Seq<char>, V>::empty(),
    {
        self.keys.clear();
        self.vals.clear();
        self.model = Ghost(Map::empty());
    }
}

} // verus!
