//! Grouping of the properties of a multi-status response by status, error
//! condition and description: each group becomes one `propstat` element.
use vstd::prelude::*;

use crate::text::str_is;

verus! {

/// What the properties of one group share: the status, the error
/// condition, if any, and the response description, if any.
#[derive(Debug, Clone, PartialEq, Eq)]
pub struct PropStatKey {
    pub status: u16,
    pub condition: Option<String>,
    pub description: Option<String>,
}

/// A key as plain values.
pub type KeyView = (u16, Option<Seq<char>>, Option<Seq<char>>);

/// The view of an optional text.
pub open spec fn opt_chars(o: Option<String>) -> Option<Seq<char>> {
    match o {
        Some(s) => Some(s@),
        None => None,
    }
}

/// The view of a key.
pub open spec fn key_view(k: PropStatKey) -> KeyView {
    (k.status, opt_chars(k.condition), opt_chars(k.description))
}

/// One `propstat` element: the properties, their status, the error
/// condition and the response description.
#[derive(Debug, Clone, PartialEq, Eq)]
pub struct PropStat<P> {
    pub props: Vec<P>,
    pub status: u16,
    pub error: Option<String>,
    pub response_description: Option<String>,
}

/// Properties grouped by key, each key once, in the order keys were first
/// used.
pub struct PropStatBuilder<P> {
    pub propstats: Vec<(PropStatKey, Vec<P>)>,
}

/// The groups as plain values.
pub open spec fn groups_of<P>(g: Seq<(PropStatKey, Vec<P>)>) -> Seq<(KeyView, Seq<P>)> {
    g.map_values(|e: (PropStatKey, Vec<P>)| (key_view(e.0), e.1@))
}

/// The position of the group of key `k`, if any.
pub open spec fn group_at<P>(g: Seq<(KeyView, Seq<P>)>, k: KeyView) -> Option<int>
    decreases g.len(),
{
    if g.len() == 0 {
        None
    } else if g.last().0 == k {
        Some(g.len() - 1)
    } else {
        group_at(g.drop_last(), k)
    }
}

/// The groups with `p` added under key `k`: at the end of its group, or in
/// a new group at the end.
pub open spec fn with_prop<P>(g: Seq<(KeyView, Seq<P>)>, k: KeyView, p: P) -> Seq<(KeyView, Seq<P>)> {
    match group_at(g, k) {
        Some(i) => g.update(i, (k, g[i].1.push(p))),
        None => g.push((k, seq![p])),
    }
}

/// A found group is a group of that key.
proof fn lemma_group_at<P>(g: Seq<(KeyView, Seq<P>)>, k: KeyView)
    ensures
        group_at(g, k) matches Some(i) ==> 0 <= i < g.len() && g[i].0 == k,
    decreases g.len(),
{
    if g.len() > 0 && g.last().0 != k {
        lemma_group_at(g.drop_last(), k);
    }
}

/// Whether two optional texts are the same.
fn same_text(a: &Option<String>, b: &Option<String>) -> (r: bool)
    ensures
        r == (opt_chars(*a) == opt_chars(*b)),
{
    match (a, b) {
        (Some(x), Some(y)) => str_is(x.as_str(), y.as_str()),
        (None, None) => true,
        _ => false,
    }
}

/// Whether two keys are the same.
fn same_key(a: &PropStatKey, b: &PropStatKey) -> (r: bool)
    ensures
        r == (key_view(*a) == key_view(*b)),
{
    a.status == b.status && same_text(&a.condition, &b.condition) && same_text(&a.description, &b.description)
}

impl<P> PropStatBuilder<P> {
    /// A builder with no property.
    pub fn new() -> (r: PropStatBuilder<P>)
        ensures
            r.propstats@.len() == 0,
    {
        PropStatBuilder { propstats: Vec::new() }
    }

    /// The position of the group of key `k`, if any.
    fn find(&self, k: &PropStatKey) -> (r: Option<usize>)
        ensures
            r matches Some(i) ==> i < self.propstats@.len() && group_at(groups_of(self.propstats@), key_view(*k))
                == Some(i as int),
            r is None ==> group_at(groups_of(self.propstats@), key_view(*k)) is None,
    {
        let ghost g = groups_of(self.propstats@);
        let mut i: usize = self.propstats.len();
        assert(g.take(i as int) =~= g);
        while i > 0
            invariant
                i <= self.propstats@.len(),
                g == groups_of(self.propstats@),
                group_at(g, key_view(*k)) == group_at(g.take(i as int), key_view(*k)),
            decreases i,
        {
            assert(g.take(i as int).drop_last() =~= g.take(i - 1));
            assert(g.take(i as int).last() == g[i - 1]);
            if same_key(&self.propstats[i - 1].0, k) {
                return Some(i - 1);
            }
            i = i - 1;
        }
        assert(g.take(0) =~= Seq::<(KeyView, Seq<P>)>::empty());
        None
    }

    /// Adds property `prop` under key `k`.
    pub fn insert(&mut self, prop: P, k: PropStatKey)
        ensures
            groups_of(final(self).propstats@) == with_prop(groups_of(old(self).propstats@), key_view(k), prop),
    {
        let ghost before = groups_of(self.propstats@);
        proof {
            lemma_group_at(before, key_view(k));
        }
        match self.find(&k) {
            Some(pos) => {
                let ghost old_v = self.propstats@;
                let mut entry = self.propstats.remove(pos);
                entry.1.push(prop);
                self.propstats.insert(pos, entry);
                assert(self.propstats@.len() == old_v.len());
                assert(forall|j: int| 0 <= j < old_v.len() && j != pos ==> #[trigger] self.propstats@[j] == old_v[j]);
                assert(groups_of(self.propstats@) =~= with_prop(before, key_view(k), prop));
            },
            None => {
                let mut v: Vec<P> = Vec::new();
                v.push(prop);
                self.propstats.push((k, v));
                assert(groups_of(self.propstats@) =~= with_prop(before, key_view(k), prop));
            },
        }
    }

    /// Adds a property found (200).
    pub fn insert_ok(&mut self, prop: P)
        ensures
            groups_of(final(self).propstats@) == with_prop(groups_of(old(self).propstats@), (200u16, None, None), prop),
    {
        self.insert(prop, PropStatKey { status: 200, condition: None, description: None });
    }

    /// Adds a property with a status.
    pub fn insert_with_status(&mut self, prop: P, status: u16)
        ensures
            groups_of(final(self).propstats@) == with_prop(groups_of(old(self).propstats@), (status, None, None), prop),
    {
        self.insert(prop, PropStatKey { status, condition: None, description: None });
    }

    /// Adds a property with an error status and a description.
    pub fn insert_error_with_description(&mut self, prop: P, status: u16, description: String)
        ensures
            groups_of(final(self).propstats@) == with_prop(
                groups_of(old(self).propstats@),
                (status, None, Some(description@)),
                prop,
            ),
    {
        self.insert(prop, PropStatKey { status, condition: None, description: Some(description) });
    }

    /// Adds a property whose precondition failed.
    pub fn insert_precondition_failed(&mut self, prop: P, status: u16, condition: String)
        ensures
            groups_of(final(self).propstats@) == with_prop(
                groups_of(old(self).propstats@),
                (status, Some(condition@), None),
                prop,
            ),
    {
        self.insert(prop, PropStatKey { status, condition: Some(condition), description: None });
    }

    /// Adds a property whose precondition failed, with a description.
    pub fn insert_precondition_failed_with_description(
        &mut self,
        prop: P,
        status: u16,
        condition: String,
        description: String,
    )
        ensures
            groups_of(final(self).propstats@) == with_prop(
                groups_of(old(self).propstats@),
                (status, Some(condition@), Some(description@)),
                prop,
            ),
    {
        self.insert(prop, PropStatKey { status, condition: Some(condition), description: Some(description) });
    }

    /// One `propstat` element per group, in the order of the groups.
    pub fn build(self) -> (r: Vec<PropStat<P>>)
        ensures
            r@.len() == self.propstats@.len(),
            forall|i: int|
                0 <= i < r@.len() ==> {
                    let g = groups_of(self.propstats@)[i];
                    &&& #[trigger] r@[i].props@ == g.1
                    &&& r@[i].status == g.0.0
                    &&& opt_chars(r@[i].error) == g.0.1
                    &&& opt_chars(r@[i].response_description) == g.0.2
                },
    {
        let ghost g = groups_of(self.propstats@);
        let mut src = self.propstats;
        let ghost n = src@.len();
        let mut out: Vec<PropStat<P>> = Vec::new();
        while src.len() > 0
            invariant
                out@.len() + src@.len() == n,
                n == g.len(),
                forall|j: int| 0 <= j < src@.len() ==> groups_of(src@)[j] == g[out@.len() + j],
                forall|i: int|
                    0 <= i < out@.len() ==> {
                        &&& #[trigger] out@[i].props@ == g[i].1
                        &&& out@[i].status == g[i].0.0
                        &&& opt_chars(out@[i].error) == g[i].0.1
                        &&& opt_chars(out@[i].response_description) == g[i].0.2
                    },
            decreases src@.len(),
        {
            let ghost before = src@;
            let (k, props) = src.remove(0);
            assert(groups_of(before)[0] == g[out@.len() as int]);
            assert forall|j: int| 0 <= j < src@.len() implies groups_of(src@)[j] == g[out@.len() + 1 + j] by {
                assert(src@[j] == before[j + 1]);
                assert(groups_of(before)[j + 1] == g[out@.len() + j + 1]);
            }
            let ghost old_out = out@;
            out.push(PropStat { props, status: k.status, error: k.condition, response_description: k.description });
            assert forall|i: int| 0 <= i < out@.len() implies {
                &&& #[trigger] out@[i].props@ == g[i].1
                &&& out@[i].status == g[i].0.0
                &&& opt_chars(out@[i].error) == g[i].0.1
                &&& opt_chars(out@[i].response_description) == g[i].0.2
            } by {
                if i < old_out.len() {
                    assert(out@[i] == old_out[i]);
                }
            }
        }
        out
    }
}

} // verus!
