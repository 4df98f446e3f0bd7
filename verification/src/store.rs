//! An insertion-ordered map from string keys to values, with at most one
//! entry per key.
use vstd::prelude::*;
use crate::text::{chars_of, has_prefix, starts_with_seq};

verus! {

/// Some entry of `es` has key `k`.
pub open spec fn has_key<V>(es: Seq<(Seq<char>, V)>, k: Seq<char>) -> bool {
    exists|i: int| 0 <= i < es.len() && (#[trigger] es[i]).0 == k
}

/// The value stored under `k` in `es` (meaningful when `has_key(es, k)`).
pub open spec fn value_at_key<V>(es: Seq<(Seq<char>, V)>, k: Seq<char>) -> V {
    es[choose|i: int| 0 <= i < es.len() && (#[trigger] es[i]).0 == k].1
}

/// No two entries of `es` share a key.
pub open spec fn keys_distinct<V>(es: Seq<(Seq<char>, V)>) -> bool {
    forall|i: int, j: int|
        0 <= i < es.len() && 0 <= j < es.len() && i != j ==> (#[trigger] es[i]).0 != (#[trigger] es[j]).0
}

/// `es` after storing `v` under `k`: an entry with that key keeps its place
/// and takes the new value, a new key is added at the end.
pub open spec fn upserted<V>(es: Seq<(Seq<char>, V)>, k: Seq<char>, v: V) -> Seq<(Seq<char>, V)> {
    if has_key(es, k) {
        es.map_values(|e: (Seq<char>, V)| if e.0 == k { (k, v) } else { e })
    } else {
        es.push((k, v))
    }
}

/// What storing `v` under `k` does to the entries: afterwards `k` is present
/// with value `v`, the length grows by one exactly when `k` was new, every
/// old position keeps its key, and an entry under another key is unchanged.
pub proof fn lemma_upserted<V>(es: Seq<(Seq<char>, V)>, k: Seq<char>, v: V)
    ensures
        has_key(upserted(es, k, v), k),
        upserted(es, k, v).len() == (if has_key(es, k) { es.len() } else { es.len() + 1 }),
        forall|i: int| 0 <= i < upserted(es, k, v).len() && (#[trigger] upserted(es, k, v)[i]).0 == k
            ==> upserted(es, k, v)[i].1 == v,
        forall|i: int| 0 <= i < es.len() ==> (#[trigger] upserted(es, k, v)[i]).0 == es[i].0,
        forall|i: int| 0 <= i < es.len() && (#[trigger] es[i]).0 != k ==> upserted(es, k, v)[i] == es[i],
        !has_key(es, k) ==> upserted(es, k, v)[es.len() as int] == (k, v),
{
    let u = upserted(es, k, v);
    if has_key(es, k) {
        let i = choose|i: int| 0 <= i < es.len() && (#[trigger] es[i]).0 == k;
        assert(u[i].0 == k);
    } else {
        assert(u[es.len() as int].0 == k);
    }
}

/// Storing twice under one key leaves what storing the second value alone
/// would: a later value replaces an earlier one, in the earlier one's place.
pub proof fn law_upsert_twice<V>(es: Seq<(Seq<char>, V)>, k: Seq<char>, v1: V, v2: V)
    ensures
        upserted(upserted(es, k, v1), k, v2) == upserted(es, k, v2),
{
    lemma_upserted(es, k, v1);
    let u1 = upserted(es, k, v1);
    if has_key(es, k) {
        assert(upserted(u1, k, v2) =~= upserted(es, k, v2));
    } else {
        assert(upserted(u1, k, v2) =~= upserted(es, k, v2));
    }
}

/// The map that a sequence of entries stands for.
pub open spec fn map_of<V>(es: Seq<(Seq<char>, V)>) -> Map<Seq<char>, V> {
    Map::new(|k: Seq<char>| has_key(es, k), |k: Seq<char>| value_at_key(es, k))
}

/// With distinct keys, the value under the key of entry `i` is that entry's value.
pub proof fn lemma_value_at_index<V>(es: Seq<(Seq<char>, V)>, i: int)
    requires
        keys_distinct(es),
        0 <= i < es.len(),
    ensures
        has_key(es, es[i].0),
        value_at_key(es, es[i].0) == es[i].1,
        map_of(es).contains_key(es[i].0),
        map_of(es)[es[i].0] == es[i].1,
{
    let k = es[i].0;
    assert(0 <= i < es.len() && es[i].0 == k);
    let j = choose|j: int| 0 <= j < es.len() && (#[trigger] es[j]).0 == k;
    assert(j == i);
}

/// Map of `es` with a changed entry `i` (same key): the value under that key changes.
proof fn lemma_update_value<V>(es: Seq<(Seq<char>, V)>, i: int, v: V)
    requires
        keys_distinct(es),
        0 <= i < es.len(),
    ensures
        keys_distinct(es.update(i, (es[i].0, v))),
        map_of(es.update(i, (es[i].0, v))) == map_of(es).insert(es[i].0, v),
{
    let es2 = es.update(i, (es[i].0, v));
    let k = es[i].0;
    assert forall|a: int, b: int|
        0 <= a < es2.len() && 0 <= b < es2.len() && a != b implies (#[trigger] es2[a]).0 != (#[trigger] es2[b]).0 by {
        assert(es2[a].0 == es[a].0);
        assert(es2[b].0 == es[b].0);
    }
    assert forall|kk: Seq<char>| #[trigger] map_of(es2).contains_key(kk) == map_of(es).insert(k, v).contains_key(kk) by {
        if has_key(es2, kk) {
            let j = choose|j: int| 0 <= j < es2.len() && (#[trigger] es2[j]).0 == kk;
            assert(es[j].0 == kk);
        }
        if has_key(es, kk) {
            let j = choose|j: int| 0 <= j < es.len() && (#[trigger] es[j]).0 == kk;
            assert(es2[j].0 == kk);
        }
        if kk == k {
            assert(es2[i].0 == kk);
        }
    }
    assert forall|kk: Seq<char>| #[trigger] map_of(es2).contains_key(kk) implies map_of(es2)[kk]
        == map_of(es).insert(k, v)[kk] by {
        let j = choose|j: int| 0 <= j < es2.len() && (#[trigger] es2[j]).0 == kk;
        lemma_value_at_index(es2, j);
        if j != i {
            assert(es[j] == es2[j]);
            lemma_value_at_index(es, j);
        }
    }
    assert(map_of(es2) =~= map_of(es).insert(k, v));
}

/// Map of `es` with one more entry under a new key.
proof fn lemma_push_value<V>(es: Seq<(Seq<char>, V)>, k: Seq<char>, v: V)
    requires
        keys_distinct(es),
        !has_key(es, k),
    ensures
        keys_distinct(es.push((k, v))),
        map_of(es.push((k, v))) == map_of(es).insert(k, v),
{
    let es2 = es.push((k, v));
    assert forall|a: int, b: int|
        0 <= a < es2.len() && 0 <= b < es2.len() && a != b implies (#[trigger] es2[a]).0 != (#[trigger] es2[b]).0 by {
        if a == es.len() {
            assert(es2[b] == es[b]);
        } else if b == es.len() {
            assert(es2[a] == es[a]);
        } else {
            assert(es2[a] == es[a] && es2[b] == es[b]);
        }
    }
    assert forall|kk: Seq<char>| #[trigger] map_of(es2).contains_key(kk) == map_of(es).insert(k, v).contains_key(kk) by {
        if has_key(es2, kk) {
            let j = choose|j: int| 0 <= j < es2.len() && (#[trigger] es2[j]).0 == kk;
            if j < es.len() {
                assert(es[j].0 == kk);
            }
        }
        if has_key(es, kk) {
            let j = choose|j: int| 0 <= j < es.len() && (#[trigger] es[j]).0 == kk;
            assert(es2[j].0 == kk);
        }
        if kk == k {
            assert(es2[es.len() as int].0 == kk);
        }
    }
    assert forall|kk: Seq<char>| #[trigger] map_of(es2).contains_key(kk) implies map_of(es2)[kk]
        == map_of(es).insert(k, v)[kk] by {
        let j = choose|j: int| 0 <= j < es2.len() && (#[trigger] es2[j]).0 == kk;
        lemma_value_at_index(es2, j);
        if j < es.len() {
            assert(es[j] == es2[j]);
            lemma_value_at_index(es, j);
        }
    }
    assert(map_of(es2) =~= map_of(es).insert(k, v));
}

/// Map of `es` without entry `i`.
proof fn lemma_remove_value<V>(es: Seq<(Seq<char>, V)>, i: int)
    requires
        keys_distinct(es),
        0 <= i < es.len(),
    ensures
        keys_distinct(es.remove(i)),
        map_of(es.remove(i)) == map_of(es).remove(es[i].0),
{
    let es2 = es.remove(i);
    let k = es[i].0;
    assert forall|a: int, b: int|
        0 <= a < es2.len() && 0 <= b < es2.len() && a != b implies (#[trigger] es2[a]).0 != (#[trigger] es2[b]).0 by {
        let a1 = if a < i { a } else { a + 1 };
        let b1 = if b < i { b } else { b + 1 };
        assert(es2[a] == es[a1] && es2[b] == es[b1]);
    }
    assert forall|kk: Seq<char>| #[trigger] map_of(es2).contains_key(kk) == map_of(es).remove(k).contains_key(kk) by {
        if has_key(es2, kk) {
            let j = choose|j: int| 0 <= j < es2.len() && (#[trigger] es2[j]).0 == kk;
            let j1 = if j < i { j } else { j + 1 };
            assert(es[j1].0 == kk);
            assert(j1 != i);
        }
        if has_key(es, kk) && kk != k {
            let j = choose|j: int| 0 <= j < es.len() && (#[trigger] es[j]).0 == kk;
            assert(j != i);
            if j < i {
                assert(es2[j].0 == kk);
            } else {
                assert(es2[j - 1].0 == kk);
            }
        }
    }
    assert forall|kk: Seq<char>| #[trigger] map_of(es2).contains_key(kk) implies map_of(es2)[kk]
        == map_of(es).remove(k)[kk] by {
        let j = choose|j: int| 0 <= j < es2.len() && (#[trigger] es2[j]).0 == kk;
        lemma_value_at_index(es2, j);
        let j1 = if j < i { j } else { j + 1 };
        assert(es[j1] == es2[j]);
        lemma_value_at_index(es, j1);
    }
    assert(map_of(es2) =~= map_of(es).remove(k));
}

/// Entries stored under string keys, in insertion order, at most one per key.
pub struct KeyedStore<V> {
    items: Vec<(String, V)>,
}

impl<V> KeyedStore<V> {
    /// The entries, keys taken as character sequences, in order.
    pub closed spec fn entries(&self) -> Seq<(Seq<char>, V)> {
        self.items@.map_values(|e: (String, V)| (e.0@, e.1))
    }

    #[verifier::type_invariant]
    closed spec fn inv(&self) -> bool {
        keys_distinct(self.entries())
    }

    /// An empty store.
    pub fn new() -> (s: Self)
        ensures
            s.entries() == Seq::<(Seq<char>, V)>::empty(),
            s@ == Map::<Seq<char>, V>::empty(),
    {
        let s = KeyedStore { items: Vec::new() };
        assert(s.entries() =~= Seq::<(Seq<char>, V)>::empty());
        assert(map_of(s.entries()) =~= Map::<Seq<char>, V>::empty());
        s
    }

    /// Number of entries.
    pub fn len(&self) -> (n: usize)
        ensures
            n == self.entries().len(),
            n == self@.dom().len(),
    {
        proof {
            use_type_invariant(self);
            lemma_dom_of_distinct(self.entries());
        }
        self.items.len()
    }

    /// Whether the store holds no entry.
    pub fn is_empty(&self) -> (b: bool)
        ensures
            b == (self.entries().len() == 0),
            b == (self@ == Map::<Seq<char>, V>::empty()),
    {
        proof {
            if self.entries().len() == 0 {
                assert(self@ =~= Map::<Seq<char>, V>::empty());
            } else {
                use_type_invariant(self);
                lemma_value_at_index(self.entries(), 0);
                assert(self@.contains_key(self.entries()[0].0));
            }
        }
        self.items.len() == 0
    }

    /// The key of entry `i`.
    pub fn key_at(&self, i: usize) -> (k: &String)
        requires
            i < self.entries().len(),
        ensures
            k@ == self.entries()[i as int].0,
    {
        &self.items[i].0
    }

    /// The value of entry `i`.
    pub fn value_at(&self, i: usize) -> (v: &V)
        requires
            i < self.entries().len(),
        ensures
            *v == self.entries()[i as int].1,
    {
        &self.items[i].1
    }

    /// Position of the entry with key `key`.
    pub fn index_of(&self, key: &String) -> (r: Option<usize>)
        ensures
            match r {
                Some(i) => i < self.entries().len() && self.entries()[i as int].0 == key@,
                None => !has_key(self.entries(), key@),
            },
            r is Some == self@.contains_key(key@),
    {
        let mut i: usize = 0;
        while i < self.items.len()
            invariant
                i <= self.items.len(),
                self.entries().len() == self.items.len(),
                forall|j: int| 0 <= j < i ==> (#[trigger] self.entries()[j]).0 != key@,
            decreases self.items.len() - i,
        {
            if self.items[i].0 == *key {
                return Some(i);
            }
            i += 1;
        }
        None
    }

    /// The value stored under `key`, if any.
    pub fn get(&self, key: &String) -> (r: Option<&V>)
        ensures
            match r {
                Some(v) => self@.contains_key(key@) && *v == self@[key@],
                None => !self@.contains_key(key@),
            },
    {
        match self.index_of(key) {
            Some(i) => {
                proof {
                    use_type_invariant(self);
                    lemma_value_at_index(self.entries(), i as int);
                }
                Some(&self.items[i].1)
            },
            None => None,
        }
    }

    /// Whether some entry has key `key`.
    pub fn contains_key(&self, key: &String) -> (b: bool)
        ensures
            b == self@.contains_key(key@),
    {
        self.index_of(key).is_some()
    }

    /// Stores `value` under `key`: an existing entry keeps its place and takes
    /// the new value, a new key is added at the end.
    pub fn insert(&mut self, key: String, value: V)
        ensures
            final(self)@ == old(self)@.insert(key@, value),
            final(self).entries() == upserted(old(self).entries(), key@, value),
            keys_distinct(final(self).entries()),
            old(self)@.contains_key(key@) ==> final(self).entries().len() == old(self).entries().len(),
            !old(self)@.contains_key(key@) ==> final(self).entries() == old(self).entries().push((key@, value)),
    {
        proof { use_type_invariant(&*self); }
        match self.index_of(&key) {
            Some(i) => {
                let ghost es = self.entries();
                let mut items: Vec<(String, V)> = Vec::new();
                std::mem::swap(&mut items, &mut self.items);
                items.set(i, (key, value));
                proof {
                    assert(items@.map_values(|e: (String, V)| (e.0@, e.1)) =~= es.update(i as int, (es[i as int].0, value)));
                    lemma_update_value(es, i as int, value);
                }
                self.items = items;
                proof {
                    assert(self.entries() =~= es.update(i as int, (es[i as int].0, value)));
                    lemma_update_value(es, i as int, value);
                    assert(has_key(es, es[i as int].0));
                    assert forall|j: int| 0 <= j < es.len() && j != i implies es[j].0 != key@ by {
                        assert(es[j].0 != es[i as int].0);
                    }
                    assert(self.entries() =~= upserted(es, key@, value));
                }
                proof { use_type_invariant(&*self); }
            },
            None => {
                let ghost es = self.entries();
                let ghost k = key@;
                let mut items: Vec<(String, V)> = Vec::new();
                std::mem::swap(&mut items, &mut self.items);
                items.push((key, value));
                proof {
                    assert(items@.map_values(|e: (String, V)| (e.0@, e.1)) =~= es.push((k, value)));
                    lemma_push_value(es, k, value);
                }
                self.items = items;
                proof {
                    assert(self.entries() =~= es.push((k, value)));
                    lemma_push_value(es, k, value);
                    assert(self.entries() == upserted(es, k, value));
                }
                proof { use_type_invariant(&*self); }
            },
        }
    }

    /// Removes the entry with key `key`, handing back its value.
    pub fn remove(&mut self, key: &String) -> (r: Option<V>)
        ensures
            final(self)@ == old(self)@.remove(key@),
            match r {
                Some(v) => old(self)@.contains_key(key@) && v == old(self)@[key@],
                None => !old(self)@.contains_key(key@) && final(self).entries() == old(self).entries(),
            },
    {
        proof { use_type_invariant(&*self); }
        match self.index_of(key) {
            Some(i) => {
                let ghost es = self.entries();
                proof { lemma_value_at_index(es, i as int); }
                let mut items: Vec<(String, V)> = Vec::new();
                std::mem::swap(&mut items, &mut self.items);
                let (_, v) = items.remove(i);
                proof {
                    assert(items@.map_values(|e: (String, V)| (e.0@, e.1)) =~= es.remove(i as int));
                    lemma_remove_value(es, i as int);
                }
                self.items = items;
                proof {
                    assert(self.entries() =~= es.remove(i as int));
                    lemma_remove_value(es, i as int);
                }
                Some(v)
            },
            None => {
                assert(old(self)@.remove(key@) =~= old(self)@);
                None
            },
        }
    }

    /// Removes every entry.
    pub fn clear(&mut self)
        ensures
            final(self)@ == Map::<Seq<char>, V>::empty(),
            final(self).entries() == Seq::<(Seq<char>, V)>::empty(),
    {
        self.items = Vec::new();
        assert(self.entries() =~= Seq::<(Seq<char>, V)>::empty());
        assert(self@ =~= Map::<Seq<char>, V>::empty());
    }

}

/// The keys of `es`, as a set, has as many elements as `es` when keys are distinct.
pub proof fn lemma_dom_of_distinct<V>(es: Seq<(Seq<char>, V)>)
    requires
        keys_distinct(es),
    ensures
        map_of(es).dom().finite(),
        map_of(es).dom().len() == es.len(),
    decreases es.len(),
{
    if es.len() == 0 {
        assert(map_of(es).dom() =~= Set::<Seq<char>>::empty());
    } else {
        let init = es.drop_last();
        assert forall|a: int, b: int|
            0 <= a < init.len() && 0 <= b < init.len() && a != b implies (#[trigger] init[a]).0 != (#[trigger] init[b]).0 by {
            assert(init[a] == es[a] && init[b] == es[b]);
        }
        lemma_dom_of_distinct(init);
        let k = es.last().0;
        assert(!has_key(init, k)) by {
            if has_key(init, k) {
                let j = choose|j: int| 0 <= j < init.len() && (#[trigger] init[j]).0 == k;
                assert(es[j].0 == k);
                assert(es[es.len() - 1].0 == k);
            }
        }
        assert(es =~= init.push((k, es.last().1)));
        lemma_push_value(init, k, es.last().1);
        assert(map_of(es).dom() =~= map_of(init).dom().insert(k));
    }
}

impl<V> KeyedStore<V> {
    /// Position of the first entry whose key begins with `prefix`.
    fn first_with_prefix(&self, prefix: &Vec<char>) -> (r: Option<usize>)
        ensures
            match r {
                Some(j) => j < self.entries().len() && has_prefix(self.entries()[j as int].0, prefix@),
                None => forall|j: int| 0 <= j < self.entries().len() ==> !has_prefix(#[trigger] self.entries()[j].0, prefix@),
            },
    {
        let n = self.len();
        let mut i: usize = 0;
        while i < n
            invariant
                n == self.entries().len(),
                i <= n,
                forall|j: int| 0 <= j < i ==> !has_prefix(#[trigger] self.entries()[j].0, prefix@),
            decreases n - i,
        {
            let key = chars_of(self.key_at(i).as_str());
            if starts_with_seq(&key, prefix) {
                return Some(i);
            }
            i += 1;
        }
        None
    }

    /// Drops every entry whose key begins with `prefix`; the others stay.
    pub fn remove_keys_with_prefix(&mut self, prefix: &Vec<char>)
        ensures
            final(self)@ == old(self)@.restrict(old(self)@.dom().filter(|k: Seq<char>| !has_prefix(k, prefix@))),
    {
        loop
            invariant
                self@.dom().subset_of(old(self)@.dom()),
                forall|k: Seq<char>| #[trigger] self@.contains_key(k) ==> self@[k] == old(self)@[k],
                forall|k: Seq<char>| #[trigger] old(self)@.contains_key(k) && !has_prefix(k, prefix@) ==> self@.contains_key(k),
            decreases self.entries().len(),
        {
            let found = self.first_with_prefix(prefix);
            match found {
                None => {
                    proof {
                        assert forall|k: Seq<char>| #[trigger] self@.contains_key(k) implies !has_prefix(k, prefix@) by {
                            let j = choose|j: int| 0 <= j < self.entries().len() && (#[trigger] self.entries()[j]).0 == k;
                            assert(!has_prefix(self.entries()[j].0, prefix@));
                        }
                    }
                    assert(self@ =~= old(self)@.restrict(old(self)@.dom().filter(|k: Seq<char>| !has_prefix(k, prefix@))));
                    return;
                },
                Some(j) => {
                    let key = self.key_at(j).clone();
                    proof {
                        use_type_invariant(&*self);
                        lemma_dom_of_distinct(self.entries());
                        assert(has_key(self.entries(), self.entries()[j as int].0));
                    }
                    let ghost before = self@;
                    let _ = self.remove(&key);
                    proof {
                        use_type_invariant(&*self);
                        lemma_dom_of_distinct(self.entries());
                        assert(has_prefix(key@, prefix@));
                    }
                },
            }
        }
    }
}

impl<V> View for KeyedStore<V> {
    type V = Map<Seq<char>, V>;

    open spec fn view(&self) -> Map<Seq<char>, V> {
        map_of(self.entries())
    }
}

} // verus!
