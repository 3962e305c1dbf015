//! A map that remembers the order in which its keys were first inserted.
//!
//! The maps of this crate are kept here as vectors of entries with distinct keys, in place of
//! `indexmap::IndexMap`: a photon value holds maps of photon values, and Verus accepts neither
//! `IndexMap` declared as an outside type in that recursive position nor a struct that hides it
//! behind a name for its contents (the definitions over the contents could not be shown to end).
use vstd::prelude::*;

verus! {

/// Keys whose equality can be decided at run time, in agreement with their view.
pub trait MapKey: View + Sized {
    fn same_key(&self, other: &Self) -> (r: bool)
        ensures
            r == (self@ == other@),
    ;
}

impl MapKey for u8 {
    fn same_key(&self, other: &Self) -> (r: bool) {
        *self == *other
    }
}

impl MapKey for i32 {
    fn same_key(&self, other: &Self) -> (r: bool) {
        *self == *other
    }
}

impl MapKey for String {
    fn same_key(&self, other: &Self) -> (r: bool) {
        *self == *other
    }
}

/// No two entries of `s` have keys with the same view.
pub open spec fn keys_unique<K: View, V>(s: Seq<(K, V)>) -> bool {
    forall|i: int, j: int| 0 <= i < s.len() && 0 <= j < s.len() && i != j ==> #[trigger] s[i].0@ != #[trigger] s[j].0@
}

/// The index of the entry of `s` whose key has view `k`, if there is one.
pub open spec fn index_of<K: View, V>(s: Seq<(K, V)>, k: K::V) -> Option<int> {
    if exists|i: int| 0 <= i < s.len() && #[trigger] s[i].0@ == k {
        Some(choose|i: int| 0 <= i < s.len() && #[trigger] s[i].0@ == k)
    } else {
        None
    }
}

/// The entries after inserting `(k, v)`: an entry with an equal key keeps its place and takes the
/// new value, otherwise the pair is appended.
pub open spec fn insert_entry<K: View, V>(s: Seq<(K, V)>, k: K, v: V) -> Seq<(K, V)> {
    match index_of(s, k@) {
        Some(i) => s.update(i, (s[i].0, v)),
        None => s.push((k, v)),
    }
}

/// The entries after removing the one with key `k`, keeping the order of the others.
pub open spec fn remove_entry<K: View, V>(s: Seq<(K, V)>, k: K::V) -> Seq<(K, V)> {
    match index_of(s, k) {
        Some(i) => s.remove(i),
        None => s,
    }
}

/// The entries after removing the one with key `k`, the last entry taking its place.
pub open spec fn swap_remove_entry<K: View, V>(s: Seq<(K, V)>, k: K::V) -> Seq<(K, V)> {
    match index_of(s, k) {
        Some(i) => s.update(i, s.last()).drop_last(),
        None => s,
    }
}

/// The value stored under `k`, if any.
pub open spec fn lookup<K: View, V>(s: Seq<(K, V)>, k: K::V) -> Option<V> {
    match index_of(s, k) {
        Some(i) => Some(s[i].1),
        None => None,
    }
}

/// Inserting every pair of `pairs` in order into an empty map.
pub open spec fn insert_all<K: View, V>(pairs: Seq<(K, V)>) -> Seq<(K, V)>
    decreases pairs.len(),
{
    if pairs.len() == 0 {
        Seq::empty()
    } else {
        insert_entry(insert_all(pairs.drop_last()), pairs.last().0, pairs.last().1)
    }
}

pub proof fn lemma_keys_differ<K: View, V>(s: Seq<(K, V)>, a: int, b: int)
    requires
        keys_unique(s),
        0 <= a < s.len(),
        0 <= b < s.len(),
        a != b,
    ensures
        s[a].0@ != s[b].0@,
{
}

pub proof fn lemma_index_of_unique<K: View, V>(s: Seq<(K, V)>, i: int)
    requires
        keys_unique(s),
        0 <= i < s.len(),
    ensures
        index_of(s, s[i].0@) == Some(i),
{
    assert(s[i].0@ == s[i].0@);
}

pub proof fn lemma_insert_keeps_unique<K: View, V>(s: Seq<(K, V)>, k: K, v: V)
    requires
        keys_unique(s),
    ensures
        keys_unique(insert_entry(s, k, v)),
        insert_entry(s, k, v).len() == s.len() + (if index_of(s, k@) is Some { 0int } else { 1 }),
        lookup(insert_entry(s, k, v), k@) == Some(v),
{
    let r = insert_entry(s, k, v);
    match index_of(s, k@) {
        Some(i) => {
            assert forall|a: int, b: int| 0 <= a < r.len() && 0 <= b < r.len() && a != b implies #[trigger] r[a].0@ != #[trigger] r[b].0@ by {
                assert(r[a].0 == s[a].0 && r[b].0 == s[b].0);
            }
            lemma_index_of_unique(r, i);
        },
        None => {
            assert forall|a: int, b: int| 0 <= a < r.len() && 0 <= b < r.len() && a != b implies #[trigger] r[a].0@ != #[trigger] r[b].0@ by {
                if a == s.len() {
                    assert(!(s[b].0@ == k@));
                } else if b == s.len() {
                    assert(!(s[a].0@ == k@));
                }
            }
            lemma_index_of_unique(r, s.len() as int);
        },
    }
}

/// Looking up after appending an entry under a new key: the new key gives the new value, and the
/// others what they gave before.
pub proof fn lemma_lookup_push<K: View, V>(s: Seq<(K, V)>, k: K, v: V, q: K::V)
    requires
        keys_unique(s.push((k, v))),
    ensures
        keys_unique(s),
        lookup(s.push((k, v)), q) == if k@ == q {
            Some(v)
        } else {
            lookup(s, q)
        },
{
    let t = s.push((k, v));
    assert forall|a: int, b: int| 0 <= a < s.len() && 0 <= b < s.len() && a != b implies #[trigger] s[a].0@ != #[trigger] s[b].0@ by {
        assert(t[a] == s[a] && t[b] == s[b]);
    }
    if k@ == q {
        lemma_index_of_unique(t, s.len() as int);
    } else {
        match index_of(s, q) {
            Some(i) => {
                lemma_index_of_unique(s, i);
                assert(t[i] == s[i]);
                lemma_index_of_unique(t, i);
            },
            None => {
                if exists|j: int| 0 <= j < t.len() && #[trigger] t[j].0@ == q {
                    let j = choose|j: int| 0 <= j < t.len() && #[trigger] t[j].0@ == q;
                    if j < s.len() {
                        assert(t[j] == s[j]);
                    }
                }
            },
        }
    }
}

/// After removing `k` by swapping in the last entry, `k` is gone, every other key gives what it
/// gave before, and the keys stay distinct.
pub proof fn lemma_swap_remove_lookup<K: View, V>(s: Seq<(K, V)>, k: K::V, q: K::V)
    requires
        keys_unique(s),
    ensures
        keys_unique(swap_remove_entry(s, k)),
        lookup(swap_remove_entry(s, k), q) == if q == k {
            None
        } else {
            lookup(s, q)
        },
{
    let r = swap_remove_entry(s, k);
    match index_of(s, k) {
        None => {
            if q == k {
                if exists|j: int| 0 <= j < s.len() && #[trigger] s[j].0@ == q {
                    let j = choose|j: int| 0 <= j < s.len() && #[trigger] s[j].0@ == q;
                }
            }
        },
        Some(i) => {
            let n = s.len() as int;
            lemma_index_of_unique(s, i);
            assert(r.len() == n - 1);
            assert forall|a: int| 0 <= a < r.len() implies #[trigger] r[a] == (if a == i { s[n - 1] } else { s[a] }) by {}
            assert forall|a: int, b: int| 0 <= a < r.len() && 0 <= b < r.len() && a != b implies #[trigger] r[a].0@ != #[trigger] r[b].0@ by {
                let fa = if a == i { n - 1 } else { a };
                let fb = if b == i { n - 1 } else { b };
                assert(r[a] == s[fa] && r[b] == s[fb]);
            }
            if q == k {
                if exists|j: int| 0 <= j < r.len() && #[trigger] r[j].0@ == q {
                    let j = choose|j: int| 0 <= j < r.len() && #[trigger] r[j].0@ == q;
                    let fj = if j == i { n - 1 } else { j };
                    assert(r[j] == s[fj]);
                    assert(fj != i);
                }
            } else {
                match index_of(s, q) {
                    Some(j) => {
                        lemma_index_of_unique(s, j);
                        assert(j != i);
                        let a = if j == n - 1 { i } else { j };
                        assert(r[a] == s[j]);
                        lemma_index_of_unique(r, a);
                    },
                    None => {
                        if exists|j: int| 0 <= j < r.len() && #[trigger] r[j].0@ == q {
                            let j = choose|j: int| 0 <= j < r.len() && #[trigger] r[j].0@ == q;
                            let fj = if j == i { n - 1 } else { j };
                            assert(r[j] == s[fj]);
                        }
                    },
                }
            }
        },
    }
}

/// Looking up by the first entry and the rest.
pub proof fn lemma_lookup_first<K: View, V>(s: Seq<(K, V)>, q: K::V)
    requires
        keys_unique(s),
        s.len() > 0,
    ensures
        keys_unique(s.drop_first()),
        lookup(s, q) == if s[0].0@ == q {
            Some(s[0].1)
        } else {
            lookup(s.drop_first(), q)
        },
        s[0].0@ == q ==> lookup(s.drop_first(), q) is None,
{
    let rest = s.drop_first();
    assert forall|a: int, b: int| 0 <= a < rest.len() && 0 <= b < rest.len() && a != b implies #[trigger] rest[a].0@ != #[trigger] rest[b].0@ by {
        assert(rest[a] == s[a + 1] && rest[b] == s[b + 1]);
    }
    if exists|j: int| 0 <= j < rest.len() && #[trigger] rest[j].0@ == q {
        let j = choose|j: int| 0 <= j < rest.len() && #[trigger] rest[j].0@ == q;
        assert(rest[j] == s[j + 1]);
        lemma_index_of_unique(rest, j);
        lemma_index_of_unique(s, j + 1);
    } else {
        if s[0].0@ == q {
            lemma_index_of_unique(s, 0);
        } else if exists|i: int| 0 <= i < s.len() && #[trigger] s[i].0@ == q {
            let i = choose|i: int| 0 <= i < s.len() && #[trigger] s[i].0@ == q;
            assert(rest[i - 1] == s[i]);
        }
    }
}

/// Inserting pairs whose keys are already distinct rebuilds exactly those pairs.
pub proof fn lemma_insert_all_unique<K: View, V>(pairs: Seq<(K, V)>)
    requires
        keys_unique(pairs),
    ensures
        insert_all(pairs) == pairs,
    decreases pairs.len(),
{
    if pairs.len() > 0 {
        let init = pairs.drop_last();
        assert forall|a: int, b: int| 0 <= a < init.len() && 0 <= b < init.len() && a != b implies #[trigger] init[a].0@ != #[trigger] init[b].0@ by {
            assert(init[a] == pairs[a] && init[b] == pairs[b]);
        }
        lemma_insert_all_unique(init);
        let k = pairs.last().0;
        assert(index_of(init, k@) is None) by {
            if exists|i: int| 0 <= i < init.len() && #[trigger] init[i].0@ == k@ {
                let i = choose|i: int| 0 <= i < init.len() && #[trigger] init[i].0@ == k@;
                assert(pairs[i].0@ == pairs[pairs.len() - 1].0@);
            }
        }
        assert(init.push(pairs.last()) =~= pairs);
    }
}

pub proof fn lemma_insert_all_unique_keys<K: View, V>(pairs: Seq<(K, V)>)
    ensures
        keys_unique(insert_all(pairs)),
    decreases pairs.len(),
{
    if pairs.len() > 0 {
        lemma_insert_all_unique_keys(pairs.drop_last());
        lemma_insert_keeps_unique(insert_all(pairs.drop_last()), pairs.last().0, pairs.last().1);
    }
}

/* Operations on a vector of entries with distinct keys */

/// The position of the entry whose key has the view of `k`.
pub fn entries_index_of<K: MapKey, V>(es: &Vec<(K, V)>, k: &K) -> (r: Option<usize>)
    requires
        keys_unique(es@),
    ensures
        r matches Some(i) ==> i < es@.len() && es@[i as int].0@ == k@,
        r is None <==> index_of(es@, k@) is None,
        r matches Some(i) ==> index_of(es@, k@) == Some(i as int),
{
    let mut i: usize = 0;
    while i < es.len()
        invariant
            i <= es@.len(),
            keys_unique(es@),
            forall|j: int| 0 <= j < i ==> #[trigger] es@[j].0@ != k@,
        decreases es@.len() - i,
    {
        if es[i].0.same_key(k) {
            proof {
                lemma_index_of_unique(es@, i as int);
            }
            return Some(i);
        }
        i = i + 1;
    }
    None
}

/// Stores `v` under `k`: an existing entry with an equal key keeps its place.
pub fn entries_insert<K: MapKey, V>(es: &mut Vec<(K, V)>, k: K, v: V)
    requires
        keys_unique(old(es)@),
    ensures
        final(es)@ == insert_entry(old(es)@, k, v),
        keys_unique(final(es)@),
{
    proof {
        lemma_insert_keeps_unique(es@, k, v);
    }
    match entries_index_of(es, &k) {
        Some(i) => {
            let (old_k, _old_v) = es.remove(i);
            es.insert(i, (old_k, v));
            assert(es@ =~= old(es)@.update(i as int, (old(es)@[i as int].0, v)));
        },
        None => {
            es.push((k, v));
        },
    }
}

/// Removes the entry with key `k`, keeping the order of the others, and returns its value.
pub fn entries_remove<K: MapKey, V>(es: &mut Vec<(K, V)>, k: &K) -> (r: Option<V>)
    requires
        keys_unique(old(es)@),
    ensures
        final(es)@ == remove_entry(old(es)@, k@),
        r == lookup(old(es)@, k@),
        keys_unique(final(es)@),
{
    match entries_index_of(es, k) {
        Some(i) => {
            let (_k, v) = es.remove(i);
            assert(keys_unique(es@)) by {
                let s = old(es)@;
                assert forall|a: int, b: int| 0 <= a < es@.len() && 0 <= b < es@.len() && a != b implies #[trigger] es@[a].0@ != #[trigger] es@[b].0@ by {
                    let a2 = if a < i { a } else { a + 1 };
                    let b2 = if b < i { b } else { b + 1 };
                    assert(es@[a] == s[a2] && es@[b] == s[b2]);
                }
            }
            Some(v)
        },
        None => None,
    }
}

/// Removes the entry with key `k`, the last entry taking its place, and returns its value.
pub fn entries_swap_remove<K: MapKey, V>(es: &mut Vec<(K, V)>, k: &K) -> (r: Option<V>)
    requires
        keys_unique(old(es)@),
    ensures
        final(es)@ == swap_remove_entry(old(es)@, k@),
        r == lookup(old(es)@, k@),
        keys_unique(final(es)@),
{
    match entries_index_of(es, k) {
        Some(i) => {
            let (_k, v) = es.swap_remove(i);
            assert(keys_unique(es@)) by {
                let s = old(es)@;
                let n = s.len() - 1;
                assert forall|a: int, b: int| 0 <= a < es@.len() && 0 <= b < es@.len() && a != b implies #[trigger] es@[a].0@ != #[trigger] es@[b].0@ by {
                    let a2 = if a == i { n } else { a };
                    let b2 = if b == i { n } else { b };
                    assert(es@[a] == s[a2] && es@[b] == s[b2]);
                }
            }
            Some(v)
        },
        None => None,
    }
}

/// Replaces the value of the entry at `i`, returning the previous value.
pub fn entries_replace_value<K: MapKey, V>(es: &mut Vec<(K, V)>, i: usize, v: V) -> (r: V)
    requires
        i < old(es)@.len(),
        keys_unique(old(es)@),
    ensures
        final(es)@ == old(es)@.update(i as int, (old(es)@[i as int].0, v)),
        r == old(es)@[i as int].1,
        keys_unique(final(es)@),
{
    let (k, old_v) = es.remove(i);
    es.insert(i, (k, v));
    assert(es@ =~= old(es)@.update(i as int, (old(es)@[i as int].0, v)));
    proof {
        let s = es@;
        assert forall|a: int, b: int| 0 <= a < s.len() && 0 <= b < s.len() && a != b implies #[trigger] s[a].0@ != #[trigger] s[b].0@ by {
            assert(s[a].0 == old(es)@[a].0 && s[b].0 == old(es)@[b].0);
        }
    }
    old_v
}

/// A map that remembers the order in which its keys were first inserted. No two of its keys
/// are equal.
#[derive(Debug)]
pub struct OrderedMap<K: View, V> {
    entries: Vec<(K, V)>,
}

impl<K: View, V> OrderedMap<K, V> {
    /// The entries, in order.
    pub closed spec fn entries(&self) -> Seq<(K, V)> {
        self.entries@
    }

    /// No two keys are equal.
    #[verifier::type_invariant]
    pub open spec fn wf(&self) -> bool {
        keys_unique(self.entries())
    }
}

impl<K: MapKey, V> OrderedMap<K, V> {
    pub fn new() -> (r: Self)
        ensures
            r.entries() == Seq::<(K, V)>::empty(),
    {
        OrderedMap { entries: Vec::new() }
    }

    /// The entries, in order.
    pub fn as_vec(&self) -> (r: &Vec<(K, V)>)
        ensures
            r@ == self.entries(),
    {
        &self.entries
    }

    pub fn len(&self) -> (r: usize)
        ensures
            r == self.entries().len(),
    {
        self.entries.len()
    }

    /// The key and value of the entry at `i`.
    pub fn entry_at(&self, i: usize) -> (r: (&K, &V))
        requires
            i < self.entries().len(),
        ensures
            *r.0 == self.entries()[i as int].0,
            *r.1 == self.entries()[i as int].1,
    {
        let e = &self.entries[i];
        (&e.0, &e.1)
    }

    /// The position of the entry whose key has the view of `k`.
    pub fn index_of(&self, k: &K) -> (r: Option<usize>)
        ensures
            r matches Some(i) ==> i < self.entries().len() && self.entries()[i as int].0@ == k@,
            r is None <==> index_of(self.entries(), k@) is None,
            r matches Some(i) ==> index_of(self.entries(), k@) == Some(i as int),
    {
        proof {
            use_type_invariant(self);
        }
        entries_index_of(&self.entries, k)
    }

    pub fn contains_key(&self, k: &K) -> (r: bool)
        ensures
            r == (index_of(self.entries(), k@) is Some),
    {
        self.index_of(k).is_some()
    }

    /// The value stored under `k`.
    pub fn get(&self, k: &K) -> (r: Option<&V>)
        ensures
            match r {
                Some(x) => lookup(self.entries(), k@) == Some(*x),
                None => lookup(self.entries(), k@) is None,
            },
    {
        match self.index_of(k) {
            Some(i) => Some(&self.entries[i].1),
            None => None,
        }
    }

    /// Stores `v` under `k`: an existing entry with an equal key keeps its place.
    pub fn insert(&mut self, k: K, v: V)
        ensures
            final(self).entries() == insert_entry(old(self).entries(), k, v),
    {
        proof {
            use_type_invariant(&*self);
        }
        let mut es: Vec<(K, V)> = Vec::new();
        std::mem::swap(&mut es, &mut self.entries);
        entries_insert(&mut es, k, v);
        self.entries = es;
    }

    /// Removes the entry with key `k`, keeping the order of the others, and returns its value.
    pub fn shift_remove(&mut self, k: &K) -> (r: Option<V>)
        ensures
            final(self).entries() == remove_entry(old(self).entries(), k@),
            r == lookup(old(self).entries(), k@),
    {
        proof {
            use_type_invariant(&*self);
        }
        let mut es: Vec<(K, V)> = Vec::new();
        std::mem::swap(&mut es, &mut self.entries);
        let r = entries_remove(&mut es, k);
        self.entries = es;
        r
    }

    /// Removes the entry with key `k`, the last entry taking its place, and returns its value.
    pub fn swap_remove(&mut self, k: &K) -> (r: Option<V>)
        ensures
            final(self).entries() == swap_remove_entry(old(self).entries(), k@),
            r == lookup(old(self).entries(), k@),
    {
        proof {
            use_type_invariant(&*self);
        }
        let mut es: Vec<(K, V)> = Vec::new();
        std::mem::swap(&mut es, &mut self.entries);
        let r = entries_swap_remove(&mut es, k);
        self.entries = es;
        r
    }

    /// Replaces the value of the entry at `i`, returning the previous value.
    pub fn replace_value_at(&mut self, i: usize, v: V) -> (r: V)
        requires
            i < old(self).entries().len(),
        ensures
            final(self).entries() == old(self).entries().update(
                i as int,
                (old(self).entries()[i as int].0, v),
            ),
            r == old(self).entries()[i as int].1,
    {
        proof {
            use_type_invariant(&*self);
        }
        let mut es: Vec<(K, V)> = Vec::new();
        std::mem::swap(&mut es, &mut self.entries);
        let r = entries_replace_value(&mut es, i, v);
        self.entries = es;
        r
    }

    /// Takes all entries out, in order, leaving the map empty.
    pub fn drain_all(&mut self) -> (r: Vec<(K, V)>)
        ensures
            r@ == old(self).entries(),
            final(self).entries() == Seq::<(K, V)>::empty(),
    {
        let mut out: Vec<(K, V)> = Vec::new();
        std::mem::swap(&mut out, &mut self.entries);
        out
    }
}

} // verus!
