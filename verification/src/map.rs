//! A unique-key associative map with upsert semantics.
//!
//! Keys are compared by value equality through the [`MapKey`] capability;
//! inserting an existing key overwrites (and hands back) the prior value.
//! The entry-style operations compose as upserts: `and_modify` followed by
//! `or_insert` modifies a present value and otherwise inserts a default.

use vstd::prelude::*;

verus! {

/// The key capability: an executable equality that decides mathematical
/// equality of keys.  Total and consistent by construction, since it is
/// held to the mathematical `==` itself.
pub trait MapKey: Sized {
    /// Decides whether the two keys are equal.
    fn key_eq(&self, other: &Self) -> (r: bool)
        ensures
            r == (self == other),
    ;
}

impl MapKey for u64 {
    fn key_eq(&self, other: &Self) -> (r: bool) {
        *self == *other
    }
}

impl MapKey for i32 {
    fn key_eq(&self, other: &Self) -> (r: bool) {
        *self == *other
    }
}

spec fn distinct_keys<K, V>(s: Seq<(K, V)>) -> bool {
    forall|i: int, j: int| 0 <= i < j < s.len() ==> (#[trigger] s[i]).0 != (#[trigger] s[j]).0
}

spec fn seq_has_key<K, V>(s: Seq<(K, V)>, k: K) -> bool {
    exists|i: int| 0 <= i < s.len() && (#[trigger] s[i]).0 == k
}

spec fn seq_key_index<K, V>(s: Seq<(K, V)>, k: K) -> int
    recommends
        seq_has_key(s, k),
{
    choose|i: int| 0 <= i < s.len() && (#[trigger] s[i]).0 == k
}

spec fn entry_map<K, V>(s: Seq<(K, V)>) -> Map<K, V> {
    Map::new(|k: K| seq_has_key(s, k), |k: K| s[seq_key_index(s, k)].1)
}

proof fn lemma_key_index_unique<K, V>(s: Seq<(K, V)>, i: int)
    requires
        distinct_keys(s),
        0 <= i < s.len(),
    ensures
        seq_has_key(s, s[i].0),
        seq_key_index(s, s[i].0) == i,
{
    assert(seq_has_key(s, s[i].0));
    let ix = seq_key_index(s, s[i].0);
    assert(0 <= ix < s.len() && s[ix].0 == s[i].0);
    if ix != i {
        assert(false);
    }
}

proof fn lemma_push_entry<K, V>(s: Seq<(K, V)>, key: K, value: V)
    requires
        distinct_keys(s),
        !seq_has_key(s, key),
    ensures
        distinct_keys(s.push((key, value))),
        entry_map(s.push((key, value))) == entry_map(s).insert(key, value),
{
    let t = s.push((key, value));
    assert(t[s.len() as int] == (key, value));
    assert(distinct_keys(t)) by {
        assert forall|i: int, j: int| 0 <= i < j < t.len() implies (#[trigger] t[i]).0 != (
        #[trigger] t[j]).0 by {
            assert(t[i] == s[i]);
            if j == s.len() {
                if s[i].0 == key {
                    assert(seq_has_key(s, key));
                }
            } else {
                assert(t[j] == s[j]);
            }
        }
    }
    assert(entry_map(t) =~= entry_map(s).insert(key, value)) by {
        assert forall|k: K| #![auto] seq_has_key(t, k) == (seq_has_key(s, k) || k == key) by {
            if seq_has_key(t, k) {
                let i = choose|i: int| 0 <= i < t.len() && (#[trigger] t[i]).0 == k;
                if i < s.len() {
                    assert(t[i] == s[i]);
                    assert(seq_has_key(s, k));
                } else {
                    assert(k == key);
                }
            }
            if k == key {
                assert(t[s.len() as int].0 == k);
                assert(seq_has_key(t, k));
            }
            if seq_has_key(s, k) {
                let i = choose|i: int| 0 <= i < s.len() && (#[trigger] s[i]).0 == k;
                assert(t[i] == s[i]);
                assert(seq_has_key(t, k));
            }
        }
        assert forall|k: K| seq_has_key(s, k) && k != key implies entry_map(t)[k] == entry_map(
            s,
        )[k] by {
            let it = seq_key_index(t, k);
            let is_ = seq_key_index(s, k);
            assert(seq_has_key(t, k));
            assert(0 <= it < t.len() && t[it].0 == k);
            assert(0 <= is_ < s.len() && s[is_].0 == k);
            assert(it != s.len());
            assert(t[it] == s[it]);
            if it != is_ {
                assert(false);
            }
        }
        assert(entry_map(t)[key] == value) by {
            lemma_key_index_unique(t, s.len() as int);
        }
    }
}

proof fn lemma_update_entry<K, V>(s: Seq<(K, V)>, i: int, value: V)
    requires
        distinct_keys(s),
        0 <= i < s.len(),
    ensures
        distinct_keys(s.update(i, (s[i].0, value))),
        entry_map(s.update(i, (s[i].0, value))) == entry_map(s).insert(s[i].0, value),
{
    let key = s[i].0;
    let t = s.update(i, (key, value));
    assert(t[i] == (key, value));
    assert(distinct_keys(t)) by {
        assert forall|a: int, b: int| 0 <= a < b < t.len() implies (#[trigger] t[a]).0 != (
        #[trigger] t[b]).0 by {
            assert(t[a].0 == s[a].0 && t[b].0 == s[b].0);
        }
    }
    assert(entry_map(t) =~= entry_map(s).insert(key, value)) by {
        assert forall|k: K| #![auto] seq_has_key(t, k) == (seq_has_key(s, k) || k == key) by {
            if seq_has_key(t, k) {
                let a = choose|a: int| 0 <= a < t.len() && (#[trigger] t[a]).0 == k;
                assert(s[a].0 == t[a].0);
                assert(seq_has_key(s, k));
            }
            if k == key {
                assert(t[i].0 == k);
                assert(seq_has_key(t, k));
            }
            if seq_has_key(s, k) {
                let a = choose|a: int| 0 <= a < s.len() && (#[trigger] s[a]).0 == k;
                assert(t[a].0 == s[a].0);
                assert(seq_has_key(t, k));
            }
        }
        assert forall|k: K| seq_has_key(s, k) && k != key implies entry_map(t)[k] == entry_map(
            s,
        )[k] by {
            let it = seq_key_index(t, k);
            let is_ = seq_key_index(s, k);
            assert(seq_has_key(t, k));
            assert(0 <= it < t.len() && t[it].0 == k);
            assert(0 <= is_ < s.len() && s[is_].0 == k);
            assert(it != i);
            assert(t[it] == s[it]);
            if it != is_ {
                assert(false);
            }
        }
        assert(entry_map(t)[key] == value) by {
            lemma_key_index_unique(t, i);
        }
    }
}

/// A unique-key mapping backed by contiguous storage in insertion order.
///
/// Lookups and upserts compare keys with `MapKey::key_eq`; the mathematical
/// view is the finite `Map` from keys to values.
pub struct AssociativeMap<K, V> {
    entries: Vec<(K, V)>,
}

impl<K, V> View for AssociativeMap<K, V> {
    type V = Map<K, V>;

    closed spec fn view(&self) -> Map<K, V> {
        entry_map(self.entries@)
    }
}

impl<K, V> AssociativeMap<K, V> {
    #[verifier::type_invariant]
    spec fn wf(self) -> bool {
        distinct_keys(self.entries@)
    }
}

impl<K: MapKey, V> AssociativeMap<K, V> {
    /// An empty map.
    pub fn new() -> (r: Self)
        ensures
            r@ == Map::<K, V>::empty(),
    {
        let r = AssociativeMap { entries: Vec::new() };
        proof {
            assert(r@ =~= Map::<K, V>::empty());
        }
        r
    }

    /// Shared-borrow read of the value under `key`; never mutates.
    pub fn get(&self, key: &K) -> (r: Option<&V>)
        ensures
            self@.contains_key(*key) ==> (r matches Some(v) && *v == self@[*key]),
            !self@.contains_key(*key) ==> r is None,
    {
        let n = self.entries.len();
        let mut i: usize = 0;
        while i < n
            invariant
                n == self.entries@.len(),
                i <= n,
                forall|k: int| 0 <= k < i ==> (#[trigger] self.entries@[k]).0 != *key,
            decreases n - i,
        {
            if self.entries[i].0.key_eq(key) {
                proof {
                    use_type_invariant(&*self);
                    lemma_key_index_unique(self.entries@, i as int);
                }
                return Some(&self.entries[i].1);
            }
            i = i + 1;
        }
        proof {
            if seq_has_key(self.entries@, *key) {
                let a = choose|a: int|
                    0 <= a < self.entries@.len() && (#[trigger] self.entries@[a]).0 == *key;
                assert(false);
            }
        }
        None
    }

    /// Inserts `key -> value`.  An existing key is overwritten, and its
    /// prior value handed back; a fresh key returns absent.
    pub fn insert(&mut self, key: K, value: V) -> (prior: Option<V>)
        ensures
            final(self)@ == old(self)@.insert(key, value),
            old(self)@.contains_key(key) ==> (prior matches Some(v) && v == old(self)@[key]),
            !old(self)@.contains_key(key) ==> prior is None,
    {
        proof {
            use_type_invariant(&*self);
        }
        let n = self.entries.len();
        let mut i: usize = 0;
        while i < n
            invariant
                self.entries@ == old(self).entries@,
                n == self.entries@.len(),
                i <= n,
                forall|k: int| 0 <= k < i ==> (#[trigger] self.entries@[k]).0 != key,
            decreases n - i,
        {
            if self.entries[i].0.key_eq(&key) {
                proof {
                    use_type_invariant(&*self);
                    lemma_key_index_unique(self.entries@, i as int);
                    lemma_update_entry(self.entries@, i as int, value);
                }
                let ghost s = self.entries@;
                let mut entries: Vec<(K, V)> = Vec::new();
                std::mem::swap(&mut entries, &mut self.entries);
                let pair = entries.remove(i);
                entries.insert(i, (key, value));
                self.entries = entries;
                proof {
                    assert(self.entries@ =~= s.update(i as int, (s[i as int].0, value)));
                }
                return Some(pair.1);
            }
            i = i + 1;
        }
        proof {
            use_type_invariant(&*self);
            if seq_has_key(self.entries@, key) {
                let a = choose|a: int|
                    0 <= a < self.entries@.len() && (#[trigger] self.entries@[a]).0 == key;
                assert(false);
            }
            lemma_push_entry(self.entries@, key, value);
        }
        let mut entries: Vec<(K, V)> = Vec::new();
        std::mem::swap(&mut entries, &mut self.entries);
        entries.push((key, value));
        self.entries = entries;
        None
    }

    /// The entry-style upsert: inserts `default` only if `key` is absent,
    /// and hands back a handle to the stored value — the existing value,
    /// unchanged, when the key was present.
    pub fn or_insert(&mut self, key: K, default: V) -> (v: &V)
        ensures
            old(self)@.contains_key(key) ==> final(self)@ == old(self)@,
            !old(self)@.contains_key(key) ==> final(self)@ == old(self)@.insert(key, default),
            final(self)@.contains_key(key),
            *v == final(self)@[key],
    {
        proof {
            use_type_invariant(&*self);
        }
        let n = self.entries.len();
        let mut i: usize = 0;
        while i < n
            invariant
                self.entries@ == old(self).entries@,
                n == self.entries@.len(),
                i <= n,
                forall|k: int| 0 <= k < i ==> (#[trigger] self.entries@[k]).0 != key,
            decreases n - i,
        {
            if self.entries[i].0.key_eq(&key) {
                proof {
                    use_type_invariant(&*self);
                    lemma_key_index_unique(self.entries@, i as int);
                }
                return &self.entries[i].1;
            }
            i = i + 1;
        }
        proof {
            use_type_invariant(&*self);
            if seq_has_key(self.entries@, key) {
                let a = choose|a: int|
                    0 <= a < self.entries@.len() && (#[trigger] self.entries@[a]).0 == key;
                assert(false);
            }
            lemma_push_entry(self.entries@, key, default);
        }
        let mut entries: Vec<(K, V)> = Vec::new();
        std::mem::swap(&mut entries, &mut self.entries);
        entries.push((key, default));
        self.entries = entries;
        let last = self.entries.len() - 1;
        proof {
            lemma_key_index_unique(self.entries@, last as int);
        }
        &self.entries[last].1
    }

    /// The entry-style conditional update: applies `f` exactly once to the
    /// value under `key` if the key is present, and does nothing otherwise.
    pub fn and_modify<F: Fn(V) -> V>(&mut self, key: &K, f: F)
        requires
            old(self)@.contains_key(*key) ==> call_requires(f, (old(self)@[*key],)),
        ensures
            !old(self)@.contains_key(*key) ==> final(self)@ == old(self)@,
            old(self)@.contains_key(*key) ==> (exists|w: V|
                call_ensures(f, (old(self)@[*key],), w) && final(self)@ == old(self)@.insert(
                    *key,
                    w,
                )),
    {
        proof {
            use_type_invariant(&*self);
        }
        let n = self.entries.len();
        let mut i: usize = 0;
        while i < n
            invariant
                self.entries@ == old(self).entries@,
                n == self.entries@.len(),
                i <= n,
                forall|k: int| 0 <= k < i ==> (#[trigger] self.entries@[k]).0 != *key,
                old(self)@.contains_key(*key) ==> call_requires(f, (old(self)@[*key],)),
            decreases n - i,
        {
            if self.entries[i].0.key_eq(key) {
                proof {
                    use_type_invariant(&*self);
                    lemma_key_index_unique(self.entries@, i as int);
                }
                let ghost s = self.entries@;
                proof {
                    assert(old(self)@.contains_key(*key));
                    assert(old(self)@[*key] == s[i as int].1);
                }
                let mut entries: Vec<(K, V)> = Vec::new();
                std::mem::swap(&mut entries, &mut self.entries);
                let pair = entries.remove(i);
                let updated = f(pair.1);
                proof {
                    lemma_update_entry(s, i as int, updated);
                }
                entries.insert(i, (pair.0, updated));
                self.entries = entries;
                proof {
                    assert(self.entries@ =~= s.update(i as int, (s[i as int].0, updated)));
                }
                return ;
            }
            i = i + 1;
        }
        proof {
            if seq_has_key(self.entries@, *key) {
                let a = choose|a: int|
                    0 <= a < self.entries@.len() && (#[trigger] self.entries@[a]).0 == *key;
                assert(false);
            }
        }
    }
}

} // verus!
