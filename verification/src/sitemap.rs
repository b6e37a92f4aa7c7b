//! A small map keyed by site identifiers (or user names).
//!
//! Entries keep the order in which their keys were first inserted, and no key
//! occurs twice. Its view is a `Map` from the key's characters to the value.

use vstd::prelude::*;

verus! {

broadcast use vstd::string::group_string_axioms;

/// The keys of a sequence of pairs, in order.
pub open spec fn key_seq<K, T>(p: Seq<(K, T)>) -> Seq<K> {
    p.map_values(|e: (K, T)| e.0)
}

/// The map that a sequence of pairs with distinct keys stands for.
pub open spec fn pairs_to_map<K, T>(p: Seq<(K, T)>) -> Map<K, T> {
    Map::new(|k: K| key_seq(p).contains(k), |k: K| p[key_seq(p).index_of(k)].1)
}

/// The value at `k`, or `dflt` where `m` has no entry for `k`.
pub open spec fn get_or<K, T>(m: Map<K, T>, k: K, dflt: T) -> T {
    if m.contains_key(k) {
        m[k]
    } else {
        dflt
    }
}

/// Within a sequence of pairs with distinct keys, the entry at `i` is what the map holds.
pub proof fn lemma_pair_in_map<K, T>(p: Seq<(K, T)>, i: int)
    requires
        key_seq(p).no_duplicates(),
        0 <= i < p.len(),
    ensures
        pairs_to_map(p).contains_key(p[i].0),
        pairs_to_map(p)[p[i].0] == p[i].1,
        key_seq(p).index_of(p[i].0) == i,
{
    let ks = key_seq(p);
    assert(ks[i] == p[i].0);
    assert(ks.contains(p[i].0));
    let j = ks.index_of(p[i].0);
    assert(0 <= j < ks.len() && ks[j] == p[i].0);
}

/// The domain of the map is the set of keys, and its size is the number of pairs.
pub proof fn lemma_map_len<K, T>(p: Seq<(K, T)>)
    requires
        key_seq(p).no_duplicates(),
    ensures
        pairs_to_map(p).dom() == key_seq(p).to_set(),
        pairs_to_map(p).dom().finite(),
        pairs_to_map(p).dom().len() == p.len(),
{
    let ks = key_seq(p);
    assert(pairs_to_map(p).dom() =~= ks.to_set());
    ks.unique_seq_to_set();
    vstd::seq_lib::seq_to_set_is_finite(ks);
}

/// Appending a pair with a new key inserts it into the map.
pub proof fn lemma_push_pair<K, T>(p: Seq<(K, T)>, k: K, v: T)
    requires
        key_seq(p).no_duplicates(),
        !key_seq(p).contains(k),
    ensures
        key_seq(p.push((k, v))).no_duplicates(),
        pairs_to_map(p.push((k, v))) == pairs_to_map(p).insert(k, v),
{
    let q = p.push((k, v));
    assert(key_seq(q) =~= key_seq(p).push(k));
    assert forall|a: int, b: int|
        0 <= a < key_seq(q).len() && 0 <= b < key_seq(q).len() && a != b implies key_seq(q)[a]
        != key_seq(q)[b] by {
        if a < p.len() && b < p.len() {
        } else if a == p.len() {
            assert(key_seq(p)[b] == key_seq(q)[b]);
        } else {
            assert(key_seq(p)[a] == key_seq(q)[a]);
        }
    }
    assert forall|key: K|
        #![auto]
        pairs_to_map(q).contains_key(key) <==> pairs_to_map(p).insert(k, v).contains_key(key) by {
        if key_seq(p).contains(key) {
            let j = key_seq(p).index_of(key);
            assert(key_seq(q)[j] == key);
        }
        if key == k {
            assert(key_seq(q)[p.len() as int] == k);
        }
        if key_seq(q).contains(key) && key != k {
            let j = key_seq(q).index_of(key);
            assert(j < p.len());
            assert(key_seq(p)[j] == key);
        }
    }
    assert forall|key: K| #[trigger]
        pairs_to_map(q).contains_key(key) implies pairs_to_map(q)[key] == pairs_to_map(p).insert(
        k,
        v,
    )[key] by {
        let j = key_seq(q).index_of(key);
        lemma_pair_in_map(q, j);
        if j < p.len() {
            assert(q[j] == p[j]);
            lemma_pair_in_map(p, j);
        }
    }
    assert(pairs_to_map(q) =~= pairs_to_map(p).insert(k, v));
}

/// Replacing the value at an existing position updates the map at that key.
pub proof fn lemma_update_pair<K, T>(p: Seq<(K, T)>, i: int, v: T)
    requires
        key_seq(p).no_duplicates(),
        0 <= i < p.len(),
    ensures
        key_seq(p.update(i, (p[i].0, v))) == key_seq(p),
        pairs_to_map(p.update(i, (p[i].0, v))) == pairs_to_map(p).insert(p[i].0, v),
{
    let q = p.update(i, (p[i].0, v));
    assert(key_seq(q) =~= key_seq(p));
    lemma_pair_in_map(p, i);
    assert forall|key: K| #[trigger]
        pairs_to_map(q).contains_key(key) implies pairs_to_map(q)[key] == pairs_to_map(p).insert(
        p[i].0,
        v,
    )[key] by {
        let j = key_seq(q).index_of(key);
        lemma_pair_in_map(q, j);
        if j != i {
            lemma_pair_in_map(p, j);
        }
    }
    assert(pairs_to_map(q) =~= pairs_to_map(p).insert(p[i].0, v));
}

/// Removing the pair at a position removes its key from the map.
pub proof fn lemma_remove_pair<K, T>(p: Seq<(K, T)>, i: int)
    requires
        key_seq(p).no_duplicates(),
        0 <= i < p.len(),
    ensures
        key_seq(p.remove(i)) == key_seq(p).remove(i),
        key_seq(p.remove(i)).no_duplicates(),
        pairs_to_map(p.remove(i)) == pairs_to_map(p).remove(p[i].0),
{
    let q = p.remove(i);
    let k = p[i].0;
    assert(key_seq(q) =~= key_seq(p).remove(i));
    assert forall|a: int, b: int|
        0 <= a < key_seq(q).len() && 0 <= b < key_seq(q).len() && a != b implies key_seq(q)[a]
        != key_seq(q)[b] by {
        let a2 = if a < i { a } else { a + 1 };
        let b2 = if b < i { b } else { b + 1 };
        assert(key_seq(q)[a] == key_seq(p)[a2]);
        assert(key_seq(q)[b] == key_seq(p)[b2]);
    }
    assert forall|key: K|
        #![auto]
        pairs_to_map(q).contains_key(key) <==> pairs_to_map(p).remove(k).contains_key(key) by {
        if key_seq(q).contains(key) {
            let j = key_seq(q).index_of(key);
            let j2 = if j < i { j } else { j + 1 };
            assert(key_seq(p)[j2] == key);
            assert(key_seq(p)[i] == k);
        }
        if key_seq(p).contains(key) && key != k {
            let j = key_seq(p).index_of(key);
            assert(j != i);
            let j2 = if j < i { j } else { j - 1 };
            assert(key_seq(q)[j2] == key);
        }
    }
    assert forall|key: K| #[trigger]
        pairs_to_map(q).contains_key(key) implies pairs_to_map(q)[key] == pairs_to_map(p).remove(
        k,
    )[key] by {
        let j = key_seq(q).index_of(key);
        lemma_pair_in_map(q, j);
        let j2 = if j < i { j } else { j + 1 };
        assert(q[j] == p[j2]);
        lemma_pair_in_map(p, j2);
    }
    assert(pairs_to_map(q) =~= pairs_to_map(p).remove(k));
}

/// Extending a prefix of a sequence of pairs with distinct keys by its next pair
/// inserts that pair into the map of the prefix.
pub proof fn lemma_prefix_step<K, T>(p: Seq<(K, T)>, i: int)
    requires
        key_seq(p).no_duplicates(),
        0 <= i < p.len(),
    ensures
        key_seq(p.take(i)).no_duplicates(),
        key_seq(p.take(i + 1)).no_duplicates(),
        !pairs_to_map(p.take(i)).contains_key(p[i].0),
        pairs_to_map(p.take(i + 1)) == pairs_to_map(p.take(i)).insert(p[i].0, p[i].1),
{
    let a = p.take(i);
    assert(key_seq(a) =~= key_seq(p).take(i));
    assert(p.take(i + 1) =~= a.push(p[i]));
    if key_seq(a).contains(p[i].0) {
        let j = key_seq(a).index_of(p[i].0);
        assert(key_seq(p)[j] == key_seq(p)[i]);
    }
    lemma_push_pair(a, p[i].0, p[i].1);
}

/// A sequence of pairs with distinct keys stands for the same map as all of it taken.
pub proof fn lemma_take_all<K, T>(p: Seq<(K, T)>)
    ensures
        p.take(p.len() as int) == p,
{
    assert(p.take(p.len() as int) =~= p);
}

/// An ordered map from site identifiers to values in which no identifier occurs twice.
#[derive(Debug)]
pub struct SiteMap<T> {
    entries: Vec<(String, T)>,
}

impl<T> View for SiteMap<T> {
    type V = Map<Seq<char>, T>;

    open spec fn view(&self) -> Map<Seq<char>, T> {
        pairs_to_map(self.pairs())
    }
}

impl<T> SiteMap<T> {
    /// The entries as (key, value) pairs, in the order the keys were first inserted.
    pub closed spec fn pairs(&self) -> Seq<(Seq<char>, T)> {
        self.entries@.map_values(|e: (String, T)| (e.0@, e.1))
    }

    /// The keys, in order.
    pub open spec fn keys(&self) -> Seq<Seq<char>> {
        key_seq(self.pairs())
    }

    /// The values, in the order of their keys.
    pub open spec fn values(&self) -> Seq<T> {
        self.pairs().map_values(|e: (Seq<char>, T)| e.1)
    }

    /// The position of a key that the map holds.
    pub open spec fn position(&self, k: Seq<char>) -> int {
        self.keys().index_of(k)
    }

    /// No key occurs twice (the type's invariant).
    #[verifier::type_invariant]
    pub open spec fn inv(&self) -> bool {
        self.keys().no_duplicates()
    }

    /// Creates an empty map.
    pub fn new() -> (m: Self)
        ensures
            m@ == Map::<Seq<char>, T>::empty(),
            m.pairs() == Seq::<(Seq<char>, T)>::empty(),
    {
        let m = SiteMap { entries: Vec::new() };
        assert(m.pairs() =~= Seq::<(Seq<char>, T)>::empty());
        assert(m@ =~= Map::<Seq<char>, T>::empty());
        m
    }

    /// Keys never occur twice, and the map has one key per entry.
    pub proof fn lemma_distinct(&self)
        requires
            self.inv(),
        ensures
            self.keys().no_duplicates(),
            self@.dom() == self.keys().to_set(),
            self@.dom().finite(),
            self@.dom().len() == self.pairs().len(),
            forall|i: int|
                0 <= i < self.pairs().len() ==> #[trigger] self@.contains_key(self.pairs()[i].0)
                    && self@[self.pairs()[i].0] == self.pairs()[i].1 && self.position(
                    self.pairs()[i].0,
                ) == i,
    {
        lemma_map_len(self.pairs());
        assert forall|i: int| 0 <= i < self.pairs().len() implies #[trigger] self@.contains_key(
            self.pairs()[i].0,
        ) && self@[self.pairs()[i].0] == self.pairs()[i].1 && self.position(self.pairs()[i].0)
            == i by {
            lemma_pair_in_map(self.pairs(), i);
        }
    }

    /// The number of entries.
    pub fn len(&self) -> (n: usize)
        ensures
            n == self@.dom().len(),
            n == self.pairs().len(),
    {
        proof {
            use_type_invariant(self);
            lemma_map_len(self.pairs());
        }
        self.entries.len()
    }

    /// Whether the map has no entry.
    pub fn is_empty(&self) -> (b: bool)
        ensures
            b == (self@.dom().len() == 0),
            b == (self.pairs().len() == 0),
    {
        self.len() == 0
    }

    /// The key at a position.
    pub fn key_at(&self, i: usize) -> (k: &String)
        requires
            i < self.pairs().len(),
        ensures
            k@ == self.pairs()[i as int].0,
    {
        &self.entries[i].0
    }

    /// The value at a position.
    pub fn value_at(&self, i: usize) -> (v: &T)
        requires
            i < self.pairs().len(),
        ensures
            *v == self.pairs()[i as int].1,
    {
        &self.entries[i].1
    }

    /// The position of `key`, where the map holds it.
    fn find(&self, key: &str) -> (r: Option<usize>)
        ensures
            r is Some <==> self@.contains_key(key@),
            r matches Some(i) ==> i < self.pairs().len() && self.pairs()[i as int].0 == key@
                && i == self.position(key@),
    {
        proof {
            use_type_invariant(self);
        }
        let k = key.to_string();
        let mut i: usize = 0;
        while i < self.entries.len()
            invariant
                i <= self.entries.len(),
                k@ == key@,
                self.keys().no_duplicates(),
                forall|j: int| 0 <= j < i ==> self.pairs()[j].0 != key@,
            decreases self.entries.len() - i,
        {
            if self.entries[i].0 == k {
                proof {
                    assert(self.pairs()[i as int].0 == key@);
                    lemma_pair_in_map(self.pairs(), i as int);
                }
                return Some(i);
            }
            i += 1;
        }
        proof {
            if self@.contains_key(key@) {
                let j = self.keys().index_of(key@);
                assert(self.keys()[j] == self.pairs()[j].0);
            }
        }
        None
    }

    /// Whether the map holds `key`.
    pub fn contains_key(&self, key: &str) -> (b: bool)
        ensures
            b == self@.contains_key(key@),
    {
        self.find(key).is_some()
    }

    /// The value held for `key`, if any.
    pub fn get(&self, key: &str) -> (r: Option<&T>)
        ensures
            r is Some <==> self@.contains_key(key@),
            r matches Some(v) ==> *v == self@[key@],
    {
        match self.find(key) {
            Some(i) => {
                proof {
                    use_type_invariant(self);
                    lemma_pair_in_map(self.pairs(), i as int);
                }
                Some(&self.entries[i].1)
            },
            None => None,
        }
    }

    /// Sets the value for `key`: in place where the key is held, else as a new last entry.
    pub fn insert(&mut self, key: String, value: T)
        ensures
            final(self)@ == old(self)@.insert(key@, value),
            old(self)@.contains_key(key@) ==> final(self).pairs() == old(self).pairs().update(
                old(self).position(key@),
                (key@, value),
            ),
            !old(self)@.contains_key(key@) ==> final(self).pairs() == old(self).pairs().push(
                (key@, value),
            ),
    {
        proof {
            use_type_invariant(&*self);
        }
        let ghost p = self.pairs();
        match self.find(key.as_str()) {
            Some(i) => {
                proof {
                    lemma_pair_in_map(p, i as int);
                    lemma_update_pair(p, i as int, value);
                }
                let mut e = Vec::new();
                std::mem::swap(&mut e, &mut self.entries);
                e.set(i, (key, value));
                let ghost q = e@.map_values(|x: (String, T)| (x.0@, x.1));
                assert(q =~= p.update(i as int, (p[i as int].0, value)));
                self.entries = e;
            },
            None => {
                proof {
                    assert(!key_seq(p).contains(key@));
                    lemma_push_pair(p, key@, value);
                }
                let mut e = Vec::new();
                std::mem::swap(&mut e, &mut self.entries);
                e.push((key, value));
                let ghost q = e@.map_values(|x: (String, T)| (x.0@, x.1));
                assert(q =~= p.push((key@, value)));
                self.entries = e;
            },
        }
    }

    /// Removes `key` and gives back its value, if the map held it.
    pub fn remove(&mut self, key: &str) -> (r: Option<T>)
        ensures
            final(self)@ == old(self)@.remove(key@),
            r is Some <==> old(self)@.contains_key(key@),
            r matches Some(v) ==> v == old(self)@[key@],
            old(self)@.contains_key(key@) ==> final(self).pairs() == old(self).pairs().remove(
                old(self).position(key@),
            ),
            !old(self)@.contains_key(key@) ==> final(self).pairs() == old(self).pairs(),
    {
        proof {
            use_type_invariant(&*self);
        }
        let ghost p = self.pairs();
        match self.find(key) {
            Some(i) => {
                proof {
                    lemma_pair_in_map(p, i as int);
                    lemma_remove_pair(p, i as int);
                }
                let mut e = Vec::new();
                std::mem::swap(&mut e, &mut self.entries);
                let (_k, v) = e.remove(i);
                let ghost q = e@.map_values(|x: (String, T)| (x.0@, x.1));
                assert(q =~= p.remove(i as int));
                self.entries = e;
                Some(v)
            },
            None => {
                assert(self@ =~= old(self)@.remove(key@));
                None
            },
        }
    }
}

impl<T: Copy> SiteMap<T> {
    /// A copy of the map, with the same entries in the same order.
    pub fn copied(&self) -> (r: Self)
        ensures
            r.pairs() == self.pairs(),
            r@ == self@,
    {
        proof {
            use_type_invariant(self);
        }
        let mut e: Vec<(String, T)> = Vec::new();
        let mut i: usize = 0;
        while i < self.entries.len()
            invariant
                i <= self.entries.len(),
                e@.map_values(|x: (String, T)| (x.0@, x.1)) =~= self.pairs().take(i as int),
            decreases self.entries.len() - i,
        {
            let k = self.entries[i].0.clone();
            let v = self.entries[i].1;
            e.push((k, v));
            proof {
                assert(self.pairs().take(i as int + 1) =~= self.pairs().take(i as int).push(
                    self.pairs()[i as int],
                ));
                assert(e@.map_values(|x: (String, T)| (x.0@, x.1)) =~= self.pairs().take(
                    i as int,
                ).push(self.pairs()[i as int]));
            }
            i += 1;
        }
        proof {
            lemma_take_all(self.pairs());
        }
        SiteMap { entries: e }
    }
}

impl<T: Clone> Clone for SiteMap<T> {
    /// A copy with the same keys in the same order; each value is cloned.
    fn clone(&self) -> (r: Self)
        ensures
            r.keys() == self.keys(),
    {
        proof {
            use_type_invariant(self);
        }
        let mut e: Vec<(String, T)> = Vec::new();
        let mut i: usize = 0;
        while i < self.entries.len()
            invariant
                i <= self.entries.len(),
                e.len() == i,
                forall|j: int| 0 <= j < i ==> (#[trigger] e@[j]).0@ == self.entries@[j].0@,
            decreases self.entries.len() - i,
        {
            let k = self.entries[i].0.clone();
            let v = self.entries[i].1.clone();
            e.push((k, v));
            i += 1;
        }
        assert(key_seq(e@.map_values(|x: (String, T)| (x.0@, x.1))) =~= self.keys());
        let r = SiteMap { entries: e };
        r
    }
}

} // verus!
