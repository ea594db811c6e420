//! String-keyed maps and sets with a mathematical view.
//!
//! Entries live in a vector whose keys never repeat; the view is the finite
//! map (or set) of their character sequences.

use vstd::prelude::*;

use crate::text::str_eq;

verus! {

/// A map from strings to values, viewed as `Map<Seq<char>, V>`.
pub struct StrMap<V> {
    entries: Vec<(String, V)>,
}

impl<V> StrMap<V> {
    /// The keys in storage order.
    pub closed spec fn keys(&self) -> Seq<Seq<char>> {
        self.entries@.map_values(|e: (String, V)| e.0@)
    }

    #[verifier::type_invariant]
    closed spec fn inv(&self) -> bool {
        self.keys().no_duplicates()
    }

    /// The mathematical map this value stands for.
    pub closed spec fn as_map(&self) -> Map<Seq<char>, V> {
        Map::new(
            |k: Seq<char>| self.keys().contains(k),
            |k: Seq<char>| self.entries@[self.keys().index_of(k)].1,
        )
    }

    proof fn lemma_index(&self, i: int)
        requires
            self.inv(),
            0 <= i < self.entries@.len(),
        ensures
            self.as_map().contains_key(self.entries@[i].0@),
            self.as_map()[self.entries@[i].0@] == self.entries@[i].1,
    {
        let k = self.entries@[i].0@;
        assert(self.keys()[i] == k);
        assert(self.keys().contains(k));
        let j = self.keys().index_of(k);
        assert(self.keys()[j] == k);
    }

    proof fn lemma_finite(&self)
        requires
            self.inv(),
        ensures
            self.as_map().dom().finite(),
            self.as_map().dom().len() == self.entries@.len(),
    {
        assert(self.as_map().dom() =~= self.keys().to_set());
        self.keys().unique_seq_to_set();
        vstd::seq_lib::seq_to_set_is_finite(self.keys());
    }

    /// An empty map.
    pub fn new() -> (m: Self)
        ensures
            m@ == Map::<Seq<char>, V>::empty(),
    {
        let m = StrMap { entries: Vec::new() };
        assert(m.as_map() =~= Map::<Seq<char>, V>::empty());
        m
    }

    fn find(&self, k: &str) -> (r: Option<usize>)
        ensures
            match r {
                Some(i) => i < self.entries@.len() && self.entries@[i as int].0@ == k@,
                None => !self@.contains_key(k@),
            },
    {
        let n = self.entries.len();
        let mut i: usize = 0;
        while i < n
            invariant
                n == self.entries@.len(),
                i <= n,
                forall|j: int| 0 <= j < i ==> self.entries@[j].0@ != k@,
            decreases n - i,
        {
            if str_eq(self.entries[i].0.as_str(), k) {
                return Some(i);
            }
            i = i + 1;
        }
        proof {
            if self.keys().contains(k@) {
                let j = self.keys().index_of(k@);
                assert(self.keys()[j] == self.entries@[j].0@);
            }
        }
        None
    }

    /// Number of keys.
    pub fn len(&self) -> (r: usize)
        ensures
            r == self@.len(),
            self@.dom().finite(),
    {
        proof {
            use_type_invariant(self);
            self.lemma_finite();
        }
        self.entries.len()
    }

    /// Whether the map has no keys.
    pub fn is_empty(&self) -> (r: bool)
        ensures
            r == (self@.len() == 0),
            self@.dom().finite(),
    {
        self.len() == 0
    }

    /// Whether `k` is a key.
    pub fn contains_key(&self, k: &str) -> (r: bool)
        ensures
            r == self@.contains_key(k@),
    {
        proof {
            use_type_invariant(self);
        }
        match self.find(k) {
            Some(i) => {
                proof {
                    self.lemma_index(i as int);
                }
                true
            },
            None => false,
        }
    }

    /// The value stored under `k`, if any.
    pub fn get(&self, k: &str) -> (r: Option<&V>)
        ensures
            match r {
                Some(v) => self@.contains_key(k@) && *v == self@[k@],
                None => !self@.contains_key(k@),
            },
    {
        proof {
            use_type_invariant(self);
        }
        match self.find(k) {
            Some(i) => {
                proof {
                    self.lemma_index(i as int);
                }
                Some(&self.entries[i].1)
            },
            None => None,
        }
    }

    /// Insert `v` under `k`, replacing any previous value.
    pub fn insert(&mut self, k: String, v: V)
        ensures
            final(self)@ == old(self)@.insert(k@, v),
    {
        proof {
            use_type_invariant(&*self);
        }
        let ghost old_map = self@;
        let ghost old_entries = self.entries@;
        match self.find(k.as_str()) {
            Some(i) => {
                let ghost kk = k@;
                let mut tmp: Vec<(String, V)> = Vec::new();
                std::mem::swap(&mut tmp, &mut self.entries);
                tmp.set(i, (k, v));
                let ghost new_entries = tmp@;
                assert(tmp@.map_values(|e: (String, V)| e.0@) =~= old_entries.map_values(
                    |e: (String, V)| e.0@,
                ));
                self.entries = tmp;
                proof {
                    assert(old_entries.map_values(|e: (String, V)| e.0@)[i as int] == kk);
                    assert(self.keys() == old_entries.map_values(|e: (String, V)| e.0@));
                    assert forall|key: Seq<char>| #![auto]
                        self.as_map().contains_key(key) == old_map.insert(kk, v).contains_key(
                            key,
                        ) by {}
                    assert forall|key: Seq<char>| #![auto]
                        self.as_map().contains_key(key) implies self.as_map()[key] == old_map.insert(
                            kk,
                            v,
                        )[key] by {
                        let j = self.keys().index_of(key);
                        assert(self.keys()[j] == key);
                        if key == kk {
                            assert(self.keys()[i as int] == kk);
                        } else {
                            let jj = old_entries.map_values(|e: (String, V)| e.0@).index_of(key);
                            assert(old_entries.map_values(|e: (String, V)| e.0@)[j] == key);
                            assert(old_entries.map_values(|e: (String, V)| e.0@)[jj] == key);
                        }
                    }
                    assert(self.as_map() =~= old_map.insert(kk, v));
                }
            },
            None => {
                let ghost kk = k@;
                let mut tmp: Vec<(String, V)> = Vec::new();
                std::mem::swap(&mut tmp, &mut self.entries);
                tmp.push((k, v));
                let ghost n = old_entries.len();
                assert(tmp@.map_values(|e: (String, V)| e.0@) =~= old_entries.map_values(
                    |e: (String, V)| e.0@,
                ).push(kk));
                assert(!old_entries.map_values(|e: (String, V)| e.0@).contains(kk));
                self.entries = tmp;
                proof {
                    assert forall|key: Seq<char>| #![auto]
                        self.as_map().contains_key(key) == old_map.insert(kk, v).contains_key(
                            key,
                        ) by {
                        if self.keys().contains(key) && key != kk {
                            let j = self.keys().index_of(key);
                            assert(old_entries.map_values(|e: (String, V)| e.0@)[j] == key);
                        }
                        if old_map.contains_key(key) {
                            let j = old_entries.map_values(|e: (String, V)| e.0@).index_of(key);
                            assert(self.keys()[j] == key);
                        }
                        if key == kk {
                            assert(self.keys()[n as int] == kk);
                        }
                    }
                    assert forall|key: Seq<char>| #![auto]
                        self.as_map().contains_key(key) implies self.as_map()[key] == old_map.insert(
                            kk,
                            v,
                        )[key] by {
                        let j = self.keys().index_of(key);
                        assert(self.keys()[j] == key);
                        if key == kk {
                            assert(self.keys()[n as int] == kk);
                        } else {
                            let jj = old_entries.map_values(|e: (String, V)| e.0@).index_of(key);
                            assert(old_entries.map_values(|e: (String, V)| e.0@)[j] == key);
                            assert(old_entries.map_values(|e: (String, V)| e.0@)[jj] == key);
                        }
                    }
                    assert(self.as_map() =~= old_map.insert(kk, v));
                }
            },
        }
    }

    /// The entries in storage order: each key once, each with its value.
    pub fn entries(&self) -> (r: &Vec<(String, V)>)
        ensures
            r@.len() == self@.len(),
            self@.dom().finite(),
            forall|i: int|
                0 <= i < r@.len() ==> self@.contains_key(#[trigger] r@[i].0@) && self@[r@[i].0@]
                    == r@[i].1,
            forall|k: Seq<char>|
                self@.contains_key(k) ==> exists|i: int| 0 <= i < r@.len() && #[trigger] r@[i].0@ == k,
            forall|i: int, j: int| 0 <= i < r@.len() && 0 <= j < r@.len() && i != j ==> r@[i].0@ != r@[j].0@,
    {
        proof {
            use_type_invariant(self);
            self.lemma_finite();
            assert forall|i: int| 0 <= i < self.entries@.len() implies self.as_map().contains_key(
                #[trigger] self.entries@[i].0@,
            ) && self.as_map()[self.entries@[i].0@] == self.entries@[i].1 by {
                self.lemma_index(i);
            }
            assert forall|k: Seq<char>| self.as_map().contains_key(k) implies exists|i: int|
                0 <= i < self.entries@.len() && #[trigger] self.entries@[i].0@ == k by {
                let i = self.keys().index_of(k);
                assert(self.keys()[i] == k);
            }
            assert forall|i: int, j: int|
                0 <= i < self.entries@.len() && 0 <= j < self.entries@.len() && i != j implies self.entries@[i].0@
                    != self.entries@[j].0@ by {
                assert(self.keys()[i] == self.entries@[i].0@);
                assert(self.keys()[j] == self.entries@[j].0@);
            }
        }
        &self.entries
    }

    /// The entries, taken out of the map: each key once, each with its value.
    pub fn into_entries(self) -> (r: Vec<(String, V)>)
        ensures
            r@.len() == self@.len(),
            self@.dom().finite(),
            forall|i: int|
                0 <= i < r@.len() ==> self@.contains_key(#[trigger] r@[i].0@) && self@[r@[i].0@]
                    == r@[i].1,
            forall|k: Seq<char>|
                self@.contains_key(k) ==> exists|i: int| 0 <= i < r@.len() && #[trigger] r@[i].0@ == k,
            forall|i: int, j: int| 0 <= i < r@.len() && 0 <= j < r@.len() && i != j ==> r@[i].0@ != r@[j].0@,
    {
        proof {
            use_type_invariant(&self);
            self.lemma_finite();
            assert forall|i: int| 0 <= i < self.entries@.len() implies self.as_map().contains_key(
                #[trigger] self.entries@[i].0@,
            ) && self.as_map()[self.entries@[i].0@] == self.entries@[i].1 by {
                self.lemma_index(i);
            }
            assert forall|k: Seq<char>| self.as_map().contains_key(k) implies exists|i: int|
                0 <= i < self.entries@.len() && #[trigger] self.entries@[i].0@ == k by {
                let i = self.keys().index_of(k);
                assert(self.keys()[i] == k);
            }
            assert forall|i: int, j: int|
                0 <= i < self.entries@.len() && 0 <= j < self.entries@.len() && i != j implies self.entries@[i].0@
                    != self.entries@[j].0@ by {
                assert(self.keys()[i] == self.entries@[i].0@);
                assert(self.keys()[j] == self.entries@[j].0@);
            }
        }
        self.entries
    }

    /// Remove `k` and its value, if present.
    pub fn remove(&mut self, k: &str)
        ensures
            final(self)@ == old(self)@.remove(k@),
    {
        proof {
            use_type_invariant(&*self);
        }
        let ghost old_map = self@;
        let ghost old_entries = self.entries@;
        let ghost old_keys = self.keys();
        match self.find(k) {
            Some(i) => {
                let mut tmp: Vec<(String, V)> = Vec::new();
                std::mem::swap(&mut tmp, &mut self.entries);
                let _ = tmp.remove(i);
                let ghost new_keys = tmp@.map_values(|e: (String, V)| e.0@);
                assert(new_keys =~= old_keys.remove(i as int));
                self.entries = tmp;
                proof {
                    assert(old_keys[i as int] == k@);
                    assert forall|key: Seq<char>| #![auto]
                        self.as_map().contains_key(key) == old_map.remove(k@).contains_key(key) by {
                        if self.keys().contains(key) {
                            let j = self.keys().index_of(key);
                            if j < i {
                                assert(old_keys[j] == key);
                            } else {
                                assert(old_keys[j + 1] == key);
                            }
                        }
                        if old_map.contains_key(key) && key != k@ {
                            let j = old_keys.index_of(key);
                            if j < i {
                                assert(self.keys()[j] == key);
                            } else {
                                assert(j != i);
                                assert(self.keys()[j - 1] == key);
                            }
                        }
                    }
                    assert forall|key: Seq<char>| #![auto]
                        self.as_map().contains_key(key) implies self.as_map()[key] == old_map.remove(
                            k@,
                        )[key] by {
                        let j = self.keys().index_of(key);
                        assert(self.keys()[j] == key);
                        let jj = old_keys.index_of(key);
                        if j < i {
                            assert(old_keys[j] == key);
                        } else {
                            assert(old_keys[j + 1] == key);
                        }
                        assert(old_keys[jj] == key);
                    }
                    assert(self.as_map() =~= old_map.remove(k@));
                }
            },
            None => {
                assert(self.as_map() =~= old_map.remove(k@));
            },
        }
    }

    /// Remove every key.
    pub fn clear(&mut self)
        ensures
            final(self)@ == Map::<Seq<char>, V>::empty(),
    {
        self.entries = Vec::new();
        assert(self.as_map() =~= Map::<Seq<char>, V>::empty());
    }
}

impl<V> View for StrMap<V> {
    type V = Map<Seq<char>, V>;

    open spec fn view(&self) -> Map<Seq<char>, V> {
        self.as_map()
    }
}

} // verus!

verus! {

/// A set of strings, viewed as `Set<Seq<char>>`.
pub struct StrSet {
    map: StrMap<()>,
}

impl StrSet {
    /// The mathematical set this value stands for.
    pub closed spec fn as_set(&self) -> Set<Seq<char>> {
        self.map@.dom()
    }

    /// An empty set.
    pub fn new() -> (s: Self)
        ensures
            s@ == Set::<Seq<char>>::empty(),
    {
        let s = StrSet { map: StrMap::new() };
        assert(s.as_set() =~= Set::<Seq<char>>::empty());
        s
    }

    /// Number of members.
    pub fn len(&self) -> (r: usize)
        ensures
            r == self@.len(),
            self@.finite(),
    {
        self.map.len()
    }

    /// Whether the set has no members.
    pub fn is_empty(&self) -> (r: bool)
        ensures
            r == (self@.len() == 0),
            self@.finite(),
    {
        self.map.len() == 0
    }

    /// Whether `k` is a member.
    pub fn contains(&self, k: &str) -> (r: bool)
        ensures
            r == self@.contains(k@),
    {
        self.map.contains_key(k)
    }

    /// Add `k`.
    pub fn insert(&mut self, k: String)
        ensures
            final(self)@ == old(self)@.insert(k@),
    {
        let ghost kk = k@;
        self.map.insert(k, ());
        assert(self.as_set() =~= old(self).as_set().insert(kk));
    }

    /// Add every string of `ks`.
    pub fn extend(&mut self, ks: Vec<String>)
        ensures
            final(self)@ == old(self)@.union(ks@.map_values(|k: String| k@).to_set()),
    {
        let ghost orig = ks@;
        let mut ks = ks;
        let mut i: usize = 0;
        let n = ks.len();
        while ks.len() > 0
            invariant
                n == orig.len(),
                i + ks@.len() == n,
                ks@ == orig.subrange(i as int, n as int),
                self@ == old(self)@.union(
                    orig.subrange(0, i as int).map_values(|k: String| k@).to_set(),
                ),
            decreases ks@.len(),
        {
            let k = ks.remove(0);
            let ghost prev = self@;
            self.insert(k);
            proof {
                assert(orig.subrange(0, i + 1).map_values(|k: String| k@) =~= orig.subrange(
                    0,
                    i as int,
                ).map_values(|k: String| k@).push(orig[i as int]@));
                orig.subrange(0, i as int).map_values(|k: String| k@).lemma_push_to_set_commute(
                    orig[i as int]@,
                );
                assert(orig.subrange(0, i + 1).map_values(|k: String| k@).to_set() =~= orig.subrange(
                    0,
                    i as int,
                ).map_values(|k: String| k@).to_set().insert(orig[i as int]@));
                assert(ks@ =~= orig.subrange(i + 1, n as int));
            }
            i = i + 1;
        }
        assert(orig.subrange(0, n as int) =~= orig);
    }

    /// Remove `k`, if present.
    pub fn remove(&mut self, k: &str)
        ensures
            final(self)@ == old(self)@.remove(k@),
    {
        self.map.remove(k);
        assert(self.as_set() =~= old(self).as_set().remove(k@));
    }

    /// Remove every member.
    pub fn clear(&mut self)
        ensures
            final(self)@ == Set::<Seq<char>>::empty(),
    {
        self.map.clear();
        assert(self.as_set() =~= Set::<Seq<char>>::empty());
    }
}

impl View for StrSet {
    type V = Set<Seq<char>>;

    open spec fn view(&self) -> Set<Seq<char>> {
        self.as_set()
    }
}

} // verus!
