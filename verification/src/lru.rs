//! A bounded cache of key/value entries. When a new key arrives at a full
//! cache, the entry inserted longest ago is dropped first.
use vstd::prelude::*;

verus! {

/// Keys of a bounded cache: compared and copied by their abstract value.
pub trait LruKey: Sized {
    type KeyView;

    /// The key's abstract value.
    spec fn key_view(&self) -> Self::KeyView;

    /// Whether two keys have the same abstract value.
    fn key_eq(&self, other: &Self) -> (r: bool)
        ensures
            r == (self.key_view() == other.key_view()),
    ;

    /// A copy of the key.
    fn key_clone(&self) -> (r: Self)
        ensures
            r.key_view() == self.key_view(),
    ;
}

impl LruKey for String {
    type KeyView = Seq<char>;

    open spec fn key_view(&self) -> Seq<char> {
        self@
    }

    fn key_eq(&self, other: &Self) -> (r: bool) {
        *self == *other
    }

    fn key_clone(&self) -> (r: Self) {
        self.clone()
    }
}

/// The keys of a sequence of entries, by abstract value.
pub open spec fn entry_keys<K: LruKey, V>(s: Seq<(K, V)>) -> Seq<K::KeyView> {
    s.map_values(|e: (K, V)| e.0.key_view())
}

/// No key occurs twice among the entries.
pub open spec fn distinct_keys<K: LruKey, V>(s: Seq<(K, V)>) -> bool {
    forall|i: int, j: int| 0 <= i < j < s.len() ==> #[trigger] s[i].0.key_view() != #[trigger] s[j].0.key_view()
}

/// The position of the entry with key `k`, if any.
pub open spec fn position_of<K: LruKey, V>(s: Seq<(K, V)>, k: K::KeyView) -> Option<int> {
    if exists|i: int| 0 <= i < s.len() && #[trigger] s[i].0.key_view() == k {
        Some(choose|i: int| 0 <= i < s.len() && #[trigger] s[i].0.key_view() == k)
    } else {
        None
    }
}

/// The entries as a map from key to value.
pub open spec fn entries_map<K: LruKey, V>(s: Seq<(K, V)>) -> Map<K::KeyView, V> {
    Map::new(
        |k: K::KeyView| position_of(s, k) is Some,
        |k: K::KeyView| s[position_of(s, k)->0].1,
    )
}

/// The entries after storing `value` under `key` in a cache of capacity
/// `cap`: a present key has its value replaced in place; a new key is
/// appended, after the oldest entry is dropped when the cache is full.
pub open spec fn put_entries<K: LruKey, V>(s: Seq<(K, V)>, cap: usize, key: K, value: V) -> Seq<(K, V)> {
    match position_of(s, key.key_view()) {
        Some(i) => s.update(i, (s[i].0, value)),
        None => (if s.len() >= cap && s.len() > 0 {
            s.drop_first()
        } else {
            s
        }).push((key, value)),
    }
}

/// The key whose entry storing under `k` drops, or `k` itself when none is
/// dropped: the oldest entry when `k` is new and the cache is full.
pub open spec fn dropped_by_put<K: LruKey, V>(s: Seq<(K, V)>, cap: usize, k: K::KeyView) -> K::KeyView {
    if position_of(s, k) is None && s.len() >= cap && s.len() > 0 {
        s[0].0.key_view()
    } else {
        k
    }
}

/// The number of entries after storing under `k`: one more when `k` is new
/// and the cache is not full, the same otherwise.
pub open spec fn count_after_put<K: LruKey, V>(s: Seq<(K, V)>, cap: usize, k: K::KeyView) -> nat {
    if position_of(s, k) is None && !(s.len() >= cap && s.len() > 0) {
        s.len() + 1
    } else {
        s.len()
    }
}

/// A cache within a capacity that is not zero stays within it when a value
/// is stored.
pub proof fn lemma_put_within_capacity<K: LruKey, V>(s: Seq<(K, V)>, cap: usize, key: K, value: V)
    requires
        s.len() <= cap,
        cap > 0,
    ensures
        put_entries(s, cap, key, value).len() <= cap,
{
}

/// A bounded cache.
pub struct LruCache<K, V> {
    /// Entries, oldest insertion first.
    pub entries: Vec<(K, V)>,
    pub capacity: usize,
}

impl<K: LruKey, V> LruCache<K, V> {
    /// The cache's invariant: no key occurs twice.
    pub open spec fn wf(&self) -> bool {
        distinct_keys(self.entries@)
    }

    /// The cache's content as a map.
    pub open spec fn map(&self) -> Map<K::KeyView, V> {
        entries_map(self.entries@)
    }

    /// An empty cache holding at most `capacity` entries.
    pub fn new(capacity: usize) -> (r: LruCache<K, V>)
        ensures
            r.wf(),
            r.entries@.len() == 0,
            r.capacity == capacity,
    {
        LruCache { entries: Vec::new(), capacity }
    }

    /// The position of `key`'s entry, if present.
    pub fn position(&self, key: &K) -> (r: Option<usize>)
        requires
            self.wf(),
        ensures
            r matches Some(i) ==> i < self.entries@.len() && self.entries@[i as int].0.key_view()
                == key.key_view() && position_of(self.entries@, key.key_view()) == Some(i as int),
            r is None ==> position_of(self.entries@, key.key_view()) is None,
    {
        let mut i: usize = 0;
        while i < self.entries.len()
            invariant
                self.wf(),
                i <= self.entries@.len(),
                forall|j: int| 0 <= j < i ==> #[trigger] self.entries@[j].0.key_view() != key.key_view(),
            decreases self.entries.len() - i,
        {
            if self.entries[i].0.key_eq(key) {
                proof {
                    let s = self.entries@;
                    let w = choose|j: int| 0 <= j < s.len() && #[trigger] s[j].0.key_view() == key.key_view();
                    if w != i as int {
                        if w > i {
                            assert(s[i as int].0.key_view() != s[w].0.key_view());
                        }
                    }
                }
                return Some(i);
            }
            i = i + 1;
        }
        None
    }

    /// The value stored under `key`, if any.
    pub fn get(&self, key: &K) -> (r: Option<&V>)
        requires
            self.wf(),
        ensures
            r matches Some(v) ==> self.map().contains_key(key.key_view()) && *v == self.map()[key.key_view()],
            r is None ==> !self.map().contains_key(key.key_view()),
    {
        match self.position(key) {
            Some(i) => Some(&self.entries[i].1),
            None => None,
        }
    }

    /// Mutable access to the value stored under `key`, if any; the entry keeps
    /// its key and its place.
    pub fn get_mut(&mut self, key: &K) -> (r: Option<&mut V>)
        requires
            old(self).wf(),
        ensures
            final(self).capacity == old(self).capacity,
            r is None ==> *final(self) == *old(self) && !old(self).map().contains_key(key.key_view()),
            r matches Some(v) ==> {
                &&& old(self).map().contains_key(key.key_view())
                &&& *v == old(self).map()[key.key_view()]
                &&& final(self).entries@ == old(self).entries@.update(
                    position_of(old(self).entries@, key.key_view())->0,
                    (old(self).entries@[position_of(old(self).entries@, key.key_view())->0].0, *final(v)),
                )
            },
    {
        match self.position(key) {
            Some(i) => Some(&mut self.entries[i].1),
            None => None,
        }
    }

    /// Stores `value` under `key` and returns the value it replaces. When
    /// `key` is new and the cache is full, the entry inserted longest ago is
    /// dropped first.
    pub fn put(&mut self, key: K, value: V) -> (r: Option<V>)
        requires
            old(self).wf(),
        ensures
            final(self).wf(),
            final(self).capacity == old(self).capacity,
            final(self).map() == old(self).map().remove(
                if old(self).entries@.len() >= old(self).capacity && position_of(
                    old(self).entries@,
                    key.key_view(),
                ) is None && old(self).entries@.len() > 0 {
                    old(self).entries@[0].0.key_view()
                } else {
                    key.key_view()
                },
            ).insert(key.key_view(), value),
            position_of(old(self).entries@, key.key_view()) matches Some(i) ==> (r == Some(
                old(self).entries@[i].1,
            ) && final(self).entries@ == old(self).entries@.update(i, (old(self).entries@[i].0, value))),
            position_of(old(self).entries@, key.key_view()) is None ==> r is None && final(self).entries@
                == (if old(self).entries@.len() >= old(self).capacity && old(self).entries@.len() > 0 {
                old(self).entries@.drop_first()
            } else {
                old(self).entries@
            }).push((key, value)),
            final(self).entries@ == put_entries(old(self).entries@, old(self).capacity, key, value),
            final(self).entries@.len() == count_after_put(old(self).entries@, old(self).capacity, key.key_view()),
            final(self).map() == old(self).map().remove(
                dropped_by_put(old(self).entries@, old(self).capacity, key.key_view()),
            ).insert(key.key_view(), value),
    {
        let ghost old_entries = self.entries@;
        match self.position(&key) {
            Some(i) => {
                let ghost s = self.entries@;
                let (k, old_v) = self.entries.remove(i);
                self.entries.insert(i, (k, value));
                assert(self.entries@ =~= s.update(i as int, (s[i as int].0, value)));
                proof {
                    lemma_update_value_map(s, i as int, value);
                }
                Some(old_v)
            },
            None => {
                if self.entries.len() >= self.capacity && self.entries.len() > 0 {
                    let ghost s = self.entries@;
                    let _evicted = self.entries.remove(0);
                    assert(self.entries@ =~= s.drop_first());
                    proof {
                        lemma_drop_first_map(s);
                    }
                }
                let ghost s2 = self.entries@;
                proof {
                    assert(position_of(s2, key.key_view()) is None) by {
                        if exists|j: int| 0 <= j < s2.len() && #[trigger] s2[j].0.key_view() == key.key_view() {
                            let j = choose|j: int| 0 <= j < s2.len() && #[trigger] s2[j].0.key_view() == key.key_view();
                            if old_entries.len() >= self.capacity && old_entries.len() > 0 {
                                assert(s2[j] == old_entries[j + 1]);
                            } else {
                                assert(s2[j] == old_entries[j]);
                            }
                        }
                    }
                    lemma_push_new_map(s2, key, value);
                }
                self.entries.push((key, value));
                proof {
                    if old_entries.len() >= self.capacity && old_entries.len() > 0 {
                    } else {
                        assert(old_entries.len() == 0 || old_entries.len() < self.capacity);
                        assert(!old(self).map().contains_key(key.key_view()));
                        assert(old(self).map().remove(key.key_view()) =~= old(self).map());
                    }
                }
                None
            },
        }
    }

    /// Stores `value` under `key` whatever the capacity: the value of a
    /// present key is replaced in place, a new key is appended.
    pub fn insert(&mut self, key: K, value: V) -> (r: Option<V>)
        requires
            old(self).wf(),
        ensures
            final(self).wf(),
            final(self).capacity == old(self).capacity,
            final(self).map() == old(self).map().insert(key.key_view(), value),
            position_of(old(self).entries@, key.key_view()) matches Some(i) ==> (r == Some(
                old(self).entries@[i].1,
            ) && final(self).entries@ == old(self).entries@.update(i, (old(self).entries@[i].0, value))),
            position_of(old(self).entries@, key.key_view()) is None ==> r is None && final(self).entries@
                == old(self).entries@.push((key, value)),
    {
        match self.position(&key) {
            Some(i) => {
                let ghost s = self.entries@;
                let (k, old_v) = self.entries.remove(i);
                self.entries.insert(i, (k, value));
                assert(self.entries@ =~= s.update(i as int, (s[i as int].0, value)));
                proof {
                    lemma_update_value_map(s, i as int, value);
                }
                Some(old_v)
            },
            None => {
                proof {
                    lemma_push_new_map(self.entries@, key, value);
                }
                self.entries.push((key, value));
                None
            },
        }
    }

    /// Removes the entry of `key` and returns its value.
    pub fn remove(&mut self, key: &K) -> (r: Option<V>)
        requires
            old(self).wf(),
        ensures
            final(self).wf(),
            final(self).capacity == old(self).capacity,
            final(self).map() == old(self).map().remove(key.key_view()),
            r matches Some(v) ==> old(self).map().contains_key(key.key_view()) && v == old(self).map()[key.key_view()],
            r is None ==> !old(self).map().contains_key(key.key_view()) && final(self).entries@ == old(self).entries@,
            position_of(old(self).entries@, key.key_view()) matches Some(i) ==> final(self).entries@
                == old(self).entries@.remove(i),
    {
        match self.position(key) {
            Some(i) => {
                let ghost s = self.entries@;
                let (_, v) = self.entries.remove(i);
                proof {
                    lemma_remove_map(s, i as int);
                }
                Some(v)
            },
            None => {
                assert(self.map().remove(key.key_view()) =~= self.map());
                None
            },
        }
    }

    /// Removes every entry.
    pub fn clear(&mut self)
        ensures
            final(self).wf(),
            final(self).entries@.len() == 0,
            final(self).capacity == old(self).capacity,
    {
        self.entries.clear();
    }

    /// The number of entries.
    pub fn len(&self) -> (r: usize)
        ensures
            r == self.entries@.len(),
    {
        self.entries.len()
    }

    /// The entries, oldest insertion first.
    pub fn iter(&self) -> (r: &Vec<(K, V)>)
        ensures
            r@ == self.entries@,
    {
        &self.entries
    }

    /// Removes the entry at position `i` and returns it.
    pub fn remove_at(&mut self, i: usize) -> (r: (K, V))
        requires
            old(self).wf(),
            i < old(self).entries@.len(),
        ensures
            final(self).wf(),
            final(self).capacity == old(self).capacity,
            r == old(self).entries@[i as int],
            final(self).entries@ == old(self).entries@.remove(i as int),
            final(self).map() == old(self).map().remove(r.0.key_view()),
    {
        let ghost s = self.entries@;
        proof {
            lemma_remove_map(s, i as int);
        }
        self.entries.remove(i)
    }
}

impl<K: LruKey, V> LruCache<K, V> {
    /// Keeps the entries for which `keep` holds, in their order; `keep`
    /// computes the predicate `pred`.
    pub fn retain_where<F: Fn(&(K, V)) -> bool>(&mut self, keep: F, Ghost(pred): Ghost<spec_fn((K, V)) -> bool>)
        requires
            old(self).wf(),
            forall|e: (K, V)| #[trigger] keep.requires((&e,)),
            forall|e: (K, V), r: bool| #[trigger] keep.ensures((&e,), r) ==> r == pred(e),
        ensures
            final(self).wf(),
            final(self).capacity == old(self).capacity,
            final(self).entries@ == old(self).entries@.filter(pred),
    {
        let ghost orig = self.entries@;
        let mut src: Vec<(K, V)> = Vec::new();
        std::mem::swap(&mut src, &mut self.entries);
        assert(orig.take(0).filter(pred) =~= Seq::<(K, V)>::empty()) by {
            reveal(Seq::filter);
        }
        let ghost mut k: int = 0;
        while src.len() > 0
            invariant
                0 <= k <= orig.len(),
                self.capacity == old(self).capacity,
                src@ == orig.skip(k),
                self.entries@ == orig.take(k).filter(pred),
                distinct_keys(orig),
                forall|e: (K, V)| #[trigger] keep.requires((&e,)),
                forall|e: (K, V), r: bool| #[trigger] keep.ensures((&e,), r) ==> r == pred(e),
            decreases src.len(),
        {
            let e = src.remove(0);
            assert(e == orig[k]);
            let b = keep(&e);
            proof {
                assert(orig.take(k + 1) =~= orig.take(k).push(orig[k]));
                orig.take(k).lemma_filter_push(orig[k], pred);
            }
            if b {
                self.entries.push(e);
            }
            proof {
                k = k + 1;
                assert(src@ =~= orig.skip(k));
            }
        }
        assert(orig.take(k) =~= orig);
        proof {
            lemma_filter_distinct(orig, pred);
        }
    }
}

/// Keeping some entries of a table without duplicate keys leaves no
/// duplicate keys.
proof fn lemma_filter_distinct<K: LruKey, V>(s: Seq<(K, V)>, pred: spec_fn((K, V)) -> bool)
    requires
        distinct_keys(s),
    ensures
        distinct_keys(s.filter(pred)),
    decreases s.len(),
{
    reveal(Seq::filter);
    if s.len() > 0 {
        let t = s.drop_last();
        assert forall|a: int, b: int| 0 <= a < b < t.len() implies #[trigger] t[a].0.key_view() != #[trigger] t[b].0.key_view() by {
            assert(t[a] == s[a] && t[b] == s[b]);
        }
        lemma_filter_distinct(t, pred);
        let f = t.filter(pred);
        if pred(s.last()) {
            let g = f.push(s.last());
            assert forall|a: int, b: int| 0 <= a < b < g.len() implies #[trigger] g[a].0.key_view() != #[trigger] g[b].0.key_view() by {
                if b == f.len() {
                    t.lemma_filter_contains_rev(pred, f[a]);
                    assert(f.contains(f[a]));
                    assert(t.contains(f[a]));
                    let j = choose|j: int| 0 <= j < t.len() && t[j] == f[a];
                    assert(s[j] == t[j]);
                    assert(s[j].0.key_view() != s[s.len() - 1].0.key_view());
                } else {
                    assert(g[a] == f[a] && g[b] == f[b]);
                }
            }
        }
    }
}

/// The map of entries after a value is replaced in place.
pub proof fn lemma_update_value_map<K: LruKey, V>(s: Seq<(K, V)>, i: int, v: V)
    requires
        distinct_keys(s),
        0 <= i < s.len(),
    ensures
        distinct_keys(s.update(i, (s[i].0, v))),
        entries_map(s.update(i, (s[i].0, v))) == entries_map(s).insert(s[i].0.key_view(), v),
{
    let t = s.update(i, (s[i].0, v));
    assert forall|a: int, b: int| 0 <= a < b < t.len() implies #[trigger] t[a].0.key_view() != #[trigger] t[b].0.key_view() by {
        assert(t[a].0 == s[a].0 && t[b].0 == s[b].0);
    }
    lemma_positions(s);
    lemma_positions(t);
    assert(entries_map(t) =~= entries_map(s).insert(s[i].0.key_view(), v)) by {
        assert forall|k: K::KeyView| #[trigger] entries_map(t).contains_key(k) == entries_map(s).insert(s[i].0.key_view(), v).contains_key(k) by {
            if position_of(s, k) is Some {
                let p = position_of(s, k)->0;
                assert(t[p].0.key_view() == k);
            }
            if position_of(t, k) is Some {
                let p = position_of(t, k)->0;
                assert(s[p].0.key_view() == k);
            }
        }
        assert forall|k: K::KeyView| #[trigger] entries_map(t).contains_key(k) implies entries_map(t)[k] == entries_map(s).insert(s[i].0.key_view(), v)[k] by {
            let p = position_of(t, k)->0;
            assert(s[p].0.key_view() == k);
            if p == i {
            } else {
                assert(s[i].0.key_view() != k);
            }
        }
    }
}

/// The position of a key, when present in a table without duplicates, is
/// the unique index holding it.
proof fn lemma_positions<K: LruKey, V>(s: Seq<(K, V)>)
    requires
        distinct_keys(s),
    ensures
        forall|k: K::KeyView| #[trigger] position_of(s, k) matches Some(p) ==> 0 <= p < s.len() && s[p].0.key_view() == k,
        forall|j: int| 0 <= j < s.len() ==> #[trigger] position_of(s, s[j].0.key_view()) == Some(j),
{
    assert forall|j: int| 0 <= j < s.len() implies #[trigger] position_of(s, s[j].0.key_view()) == Some(j) by {
        let k = s[j].0.key_view();
        assert(exists|i: int| 0 <= i < s.len() && #[trigger] s[i].0.key_view() == k);
        let p = choose|i: int| 0 <= i < s.len() && #[trigger] s[i].0.key_view() == k;
        if p != j {
            if p < j {
                assert(s[p].0.key_view() != s[j].0.key_view());
            } else {
                assert(s[j].0.key_view() != s[p].0.key_view());
            }
        }
    }
}

/// The map of entries after the oldest entry is dropped.
proof fn lemma_drop_first_map<K: LruKey, V>(s: Seq<(K, V)>)
    requires
        distinct_keys(s),
        s.len() > 0,
    ensures
        distinct_keys(s.drop_first()),
        entries_map(s.drop_first()) == entries_map(s).remove(s[0].0.key_view()),
{
    lemma_remove_map(s, 0);
    assert(s.drop_first() =~= s.remove(0));
}

/// The map of entries after the entry at `i` is removed.
proof fn lemma_remove_map<K: LruKey, V>(s: Seq<(K, V)>, i: int)
    requires
        distinct_keys(s),
        0 <= i < s.len(),
    ensures
        distinct_keys(s.remove(i)),
        entries_map(s.remove(i)) == entries_map(s).remove(s[i].0.key_view()),
{
    let t = s.remove(i);
    assert forall|a: int, b: int| 0 <= a < b < t.len() implies #[trigger] t[a].0.key_view() != #[trigger] t[b].0.key_view() by {
        let a2 = if a < i { a } else { a + 1 };
        let b2 = if b < i { b } else { b + 1 };
        assert(t[a] == s[a2] && t[b] == s[b2]);
    }
    lemma_positions(s);
    lemma_positions(t);
    let ki = s[i].0.key_view();
    assert(entries_map(t) =~= entries_map(s).remove(ki)) by {
        assert forall|k: K::KeyView| #[trigger] entries_map(t).contains_key(k) == entries_map(s).remove(ki).contains_key(k) by {
            if position_of(s, k) is Some {
                let p = position_of(s, k)->0;
                if p < i {
                    assert(t[p] == s[p]);
                } else if p > i {
                    assert(t[p - 1] == s[p]);
                }
            }
            if position_of(t, k) is Some {
                let p = position_of(t, k)->0;
                let p2 = if p < i { p } else { p + 1 };
                assert(t[p] == s[p2]);
                assert(position_of(s, s[p2].0.key_view()) == Some(p2));
            }
        }
        assert forall|k: K::KeyView| #[trigger] entries_map(t).contains_key(k) implies entries_map(t)[k] == entries_map(s).remove(ki)[k] by {
            let p = position_of(t, k)->0;
            let p2 = if p < i { p } else { p + 1 };
            assert(t[p] == s[p2]);
            assert(position_of(s, s[p2].0.key_view()) == Some(p2));
        }
    }
}

/// The map of entries after a new key is appended.
proof fn lemma_push_new_map<K: LruKey, V>(s: Seq<(K, V)>, k: K, v: V)
    requires
        distinct_keys(s),
        position_of(s, k.key_view()) is None,
    ensures
        distinct_keys(s.push((k, v))),
        entries_map(s.push((k, v))) == entries_map(s).insert(k.key_view(), v),
{
    let t = s.push((k, v));
    assert forall|a: int, b: int| 0 <= a < b < t.len() implies #[trigger] t[a].0.key_view() != #[trigger] t[b].0.key_view() by {
        if b == s.len() {
            assert(t[a] == s[a]);
            if s[a].0.key_view() == k.key_view() {
                assert(exists|j: int| 0 <= j < s.len() && #[trigger] s[j].0.key_view() == k.key_view());
            }
        } else {
            assert(t[a] == s[a] && t[b] == s[b]);
        }
    }
    lemma_positions(s);
    lemma_positions(t);
    assert(entries_map(t) =~= entries_map(s).insert(k.key_view(), v)) by {
        assert forall|q: K::KeyView| #[trigger] entries_map(t).contains_key(q) == entries_map(s).insert(k.key_view(), v).contains_key(q) by {
            if position_of(s, q) is Some {
                let p = position_of(s, q)->0;
                assert(t[p] == s[p]);
            }
            if position_of(t, q) is Some {
                let p = position_of(t, q)->0;
                if p < s.len() {
                    assert(t[p] == s[p]);
                }
            }
            if q == k.key_view() {
                assert(t[s.len() as int].0.key_view() == q);
            }
        }
        assert forall|q: K::KeyView| #[trigger] entries_map(t).contains_key(q) implies entries_map(t)[q] == entries_map(s).insert(k.key_view(), v)[q] by {
            let p = position_of(t, q)->0;
            if p < s.len() {
                assert(t[p] == s[p]);
                if q == k.key_view() {
                    assert(exists|j: int| 0 <= j < s.len() && #[trigger] s[j].0.key_view() == k.key_view());
                }
            }
        }
    }
}

/// After a value is stored under a key, reading that key gives the value:
/// whatever the cache held before, and whether or not an entry was dropped
/// to make room.
pub proof fn lemma_put_then_get<K: LruKey, V>(before: Map<K::KeyView, V>, dropped: K::KeyView, k: K::KeyView, v: V)
    ensures
        before.remove(dropped).insert(k, v).contains_key(k),
        before.remove(dropped).insert(k, v)[k] == v,
{
}

} // verus!
