//! Small association lists keyed by strings: a vector of `(key, value)`
//! pairs in which each key occurs at most once.
use vstd::prelude::*;

verus! {

/// The keys of a table hold no duplicates.
pub open spec fn keys_distinct<V>(t: Seq<(String, V)>) -> bool {
    forall|i: int, j: int| 0 <= i < j < t.len() ==> #[trigger] t[i].0@ != #[trigger] t[j].0@
}

/// The position of key `k` in the table, if present.
pub open spec fn key_pos<V>(t: Seq<(String, V)>, k: Seq<char>) -> Option<int> {
    if exists|i: int| 0 <= i < t.len() && #[trigger] t[i].0@ == k {
        Some(choose|i: int| 0 <= i < t.len() && #[trigger] t[i].0@ == k)
    } else {
        None
    }
}

/// The table as a map from key text to value.
pub open spec fn table_map<V>(t: Seq<(String, V)>) -> Map<Seq<char>, V> {
    Map::new(
        |k: Seq<char>| key_pos(t, k) is Some,
        |k: Seq<char>| t[key_pos(t, k)->0].1,
    )
}

/// The position of key `k`, if present.
pub fn find_key<V>(t: &Vec<(String, V)>, k: &str) -> (r: Option<usize>)
    ensures
        r matches Some(i) ==> i < t@.len() && t@[i as int].0@ == k@,
        r is None ==> key_pos(t@, k@) is None,
        keys_distinct(t@) ==> (r matches Some(i) ==> key_pos(t@, k@) == Some(i as int)),
{
    let mut i: usize = 0;
    while i < t.len()
        invariant
            i <= t@.len(),
            forall|j: int| 0 <= j < i ==> #[trigger] t@[j].0@ != k@,
        decreases t.len() - i,
    {
        if crate::text::str_is(t[i].0.as_str(), k) {
            proof {
                if keys_distinct(t@) {
                    let w = choose|j: int| 0 <= j < t@.len() && #[trigger] t@[j].0@ == k@;
                    if w != i {
                        if w < i {
                        } else {
                            assert(t@[i as int].0@ != t@[w].0@);
                        }
                    }
                }
            }
            return Some(i);
        }
        i = i + 1;
    }
    None
}

} // verus!
