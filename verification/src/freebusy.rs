//! Busy time: the busy intervals found in a calendar are ordered by start
//! and overlapping or touching intervals are merged into one period.
//!
//! Times are UTC timestamps in seconds.
use vstd::prelude::*;

verus! {

/// Where an interval goes in a list ordered by start: after every interval
/// that starts no later, so that intervals with equal starts keep their
/// order.
pub open spec fn insert_slot(s: Seq<(i64, i64)>, x: (i64, i64)) -> int
    decreases s.len(),
{
    if s.len() == 0 {
        0
    } else if x.0 < s.last().0 {
        insert_slot(s.drop_last(), x)
    } else {
        s.len() as int
    }
}

/// The intervals ordered by start, intervals with equal starts in their
/// original order (a stable sort).
pub open spec fn sorted_by_start(s: Seq<(i64, i64)>) -> Seq<(i64, i64)>
    decreases s.len(),
{
    if s.len() == 0 {
        s
    } else {
        let t = sorted_by_start(s.drop_last());
        t.insert(insert_slot(t, s.last()), s.last())
    }
}

/// The starts are in order.
pub open spec fn starts_ordered(s: Seq<(i64, i64)>) -> bool {
    forall|i: int, j: int| 0 <= i < j < s.len() ==> #[trigger] s[i].0 <= #[trigger] s[j].0
}

/// The merged periods of the first `n` intervals of an ordered list, with
/// the period still open: each interval that starts no later than the open
/// period ends extends it, any other closes it and opens a new one.
pub open spec fn merge_prefix(s: Seq<(i64, i64)>, n: int) -> (Seq<(i64, i64)>, (i64, i64))
    recommends
        1 <= n <= s.len(),
    decreases n,
{
    if n <= 1 {
        (Seq::empty(), s[0])
    } else {
        let (done, open) = merge_prefix(s, n - 1);
        let x = s[n - 1];
        if x.0 <= open.1 {
            (done, (open.0, if open.1 >= x.1 { open.1 } else { x.1 }))
        } else {
            (done.push(open), x)
        }
    }
}

/// The merged periods of an ordered list.
pub open spec fn merged(s: Seq<(i64, i64)>) -> Seq<(i64, i64)> {
    if s.len() <= 1 {
        s
    } else {
        let (done, open) = merge_prefix(s, s.len() as int);
        done.push(open)
    }
}

/// The periods of busy time: the intervals ordered by start and merged.
pub open spec fn busy_periods(intervals: Seq<(i64, i64)>) -> Seq<(i64, i64)> {
    if intervals.len() <= 1 {
        intervals
    } else {
        merged(sorted_by_start(intervals))
    }
}

/// Every interval ends no earlier than it starts.
pub open spec fn well_formed(s: Seq<(i64, i64)>) -> bool {
    forall|i: int| 0 <= i < s.len() ==> #[trigger] s[i].0 <= s[i].1
}

/// Periods that are in order and apart: each ends before the next starts.
pub open spec fn disjoint_in_order(s: Seq<(i64, i64)>) -> bool {
    &&& well_formed(s)
    &&& forall|i: int| 0 <= i < s.len() - 1 ==> #[trigger] s[i].1 < s[i + 1].0
}

/// Orders the intervals by start; intervals with equal starts keep their
/// order.
pub fn sort_by_start(v: Vec<(i64, i64)>) -> (r: Vec<(i64, i64)>)
    ensures
        r@ == sorted_by_start(v@),
        starts_ordered(r@),
        r@.to_multiset() == v@.to_multiset(),
{
    let mut out: Vec<(i64, i64)> = Vec::new();
    let mut i: usize = 0;
    assert(v@.take(0) =~= out@);
    while i < v.len()
        invariant
            i <= v@.len(),
            out@ == sorted_by_start(v@.take(i as int)),
            starts_ordered(out@),
            out@.to_multiset() == v@.take(i as int).to_multiset(),
        decreases v.len() - i,
    {
        let x = v[i];
        let ghost t = out@;
        let mut k: usize = out.len();
        assert(t.take(k as int) =~= t);
        while k > 0 && x.0 < out[k - 1].0
            invariant
                k <= out@.len(),
                out@ == t,
                insert_slot(t, x) == insert_slot(t.take(k as int), x),
                forall|j: int| k <= j < t.len() ==> x.0 < #[trigger] t[j].0,
            decreases k,
        {
            assert(t.take(k as int).drop_last() =~= t.take(k - 1));
            k = k - 1;
        }
        proof {
            if k > 0 {
                assert(t.take(k as int).last() == t[k - 1]);
            }
            assert(insert_slot(t.take(k as int), x) == k);
        }
        out.insert(k, x);
        proof {
            assert(v@.take(i + 1).drop_last() =~= v@.take(i as int));
            assert(v@.take(i + 1).last() == x);
            assert forall|a: int, b: int| 0 <= a < b < out@.len() implies #[trigger] out@[a].0
                <= #[trigger] out@[b].0 by {
                if b < k {
                    assert(out@[a] == t[a] && out@[b] == t[b]);
                } else if b == k {
                    assert(out@[a] == t[a]);
                    if k > 0 {
                        assert(t[a].0 <= t[k - 1].0);
                    }
                } else if a < k {
                    assert(out@[a] == t[a] && out@[b] == t[b - 1]);
                } else if a == k {
                    assert(out@[b] == t[b - 1]);
                } else {
                    assert(out@[a] == t[a - 1] && out@[b] == t[b - 1]);
                }
            }
            vstd::seq_lib::to_multiset_insert(t, k as int, x);
            assert(v@.take(i + 1) =~= v@.take(i as int).push(x));
            v@.take(i as int).to_multiset_ensures();
        }
        i = i + 1;
    }
    assert(v@.take(i as int) =~= v@);
    out
}

/// Merges the intervals of an ordered list into periods.
pub fn merge_sorted(s: &Vec<(i64, i64)>) -> (r: Vec<(i64, i64)>)
    ensures
        r@ == merged(s@),
{
    if s.len() <= 1 {
        let mut r: Vec<(i64, i64)> = Vec::new();
        if s.len() == 1 {
            r.push(s[0]);
        }
        assert(r@ =~= s@);
        return r;
    }
    let mut done: Vec<(i64, i64)> = Vec::new();
    let mut start = s[0].0;
    let mut end = s[0].1;
    let mut i: usize = 1;
    while i < s.len()
        invariant
            1 <= i <= s@.len(),
            merge_prefix(s@, i as int) == (done@, (start, end)),
        decreases s.len() - i,
    {
        let (cs, ce) = s[i];
        if cs <= end {
            if ce > end {
                end = ce;
            }
        } else {
            done.push((start, end));
            start = cs;
            end = ce;
        }
        i = i + 1;
    }
    done.push((start, end));
    done
}

/// The periods of busy time in a set of intervals: ordered by start, with
/// overlapping and touching intervals merged. A single interval, or none,
/// is returned as it is.
pub fn merge_intervals(intervals: Vec<(i64, i64)>) -> (r: Vec<(i64, i64)>)
    ensures
        r@ == busy_periods(intervals@),
{
    if intervals.len() > 1 {
        let sorted = sort_by_start(intervals);
        merge_sorted(&sorted)
    } else {
        intervals
    }
}

/// Merging an ordered list of well-formed intervals gives periods that are
/// well formed, in order and apart.
pub proof fn lemma_merged_disjoint(s: Seq<(i64, i64)>)
    requires
        starts_ordered(s),
        well_formed(s),
    ensures
        disjoint_in_order(merged(s)),
{
    if s.len() > 1 {
        lemma_merge_prefix_disjoint(s, s.len() as int);
        let (done, open) = merge_prefix(s, s.len() as int);
        let m = done.push(open);
        assert forall|i: int| 0 <= i < m.len() implies #[trigger] m[i].0 <= m[i].1 by {
            if i < done.len() {
                assert(m[i] == done[i]);
            }
        }
        assert forall|i: int| 0 <= i < m.len() - 1 implies #[trigger] m[i].1 < m[i + 1].0 by {
            if i + 1 < done.len() {
                assert(m[i] == done[i] && m[i + 1] == done[i + 1]);
            } else {
                assert(m[i] == done[i]);
                assert(m[i + 1] == open);
            }
        }
    }
}

/// The periods merged so far are well formed, in order and apart, and end
/// before the open period starts; the open period is well formed and
/// starts no later than the next interval.
proof fn lemma_merge_prefix_disjoint(s: Seq<(i64, i64)>, n: int)
    requires
        starts_ordered(s),
        well_formed(s),
        1 <= n <= s.len(),
    ensures
        ({
            let (done, open) = merge_prefix(s, n);
            &&& disjoint_in_order(done)
            &&& open.0 <= open.1
            &&& done.len() > 0 ==> done.last().1 < open.0
            &&& n < s.len() ==> open.0 <= s[n].0
            &&& open.0 >= s[0].0
        }),
    decreases n,
{
    if n > 1 {
        lemma_merge_prefix_disjoint(s, n - 1);
        let (done, open) = merge_prefix(s, n - 1);
        let x = s[n - 1];
        if x.0 <= open.1 {
        } else {
            let d2 = done.push(open);
            assert forall|i: int| 0 <= i < d2.len() implies #[trigger] d2[i].0 <= d2[i].1 by {
                if i < done.len() {
                    assert(d2[i] == done[i]);
                }
            }
            assert forall|i: int| 0 <= i < d2.len() - 1 implies #[trigger] d2[i].1 < d2[i + 1].0 by {
                if i + 1 < done.len() {
                    assert(d2[i] == done[i] && d2[i + 1] == done[i + 1]);
                } else {
                    assert(d2[i] == done[i]);
                }
            }
            if n < s.len() {
                assert(s[n - 1].0 <= s[n].0);
            }
        }
    }
}

/// The busy periods of well-formed intervals are well formed, in order and
/// apart.
pub proof fn lemma_busy_periods_disjoint(intervals: Seq<(i64, i64)>)
    requires
        well_formed(intervals),
    ensures
        disjoint_in_order(busy_periods(intervals)),
{
    if intervals.len() <= 1 {
    } else {
        lemma_sorted_by_start(intervals);
        lemma_merged_disjoint(sorted_by_start(intervals));
    }
}

/// Merging the first `n` intervals closes at most `n - 1` periods.
proof fn lemma_merge_prefix_len(s: Seq<(i64, i64)>, n: int)
    requires
        1 <= n <= s.len(),
    ensures
        merge_prefix(s, n).0.len() <= n - 1,
    decreases n,
{
    if n > 1 {
        lemma_merge_prefix_len(s, n - 1);
    }
}

/// Sorting keeps the number of intervals.
proof fn lemma_sorted_len(s: Seq<(i64, i64)>)
    ensures
        sorted_by_start(s).len() == s.len(),
    decreases s.len(),
{
    if s.len() > 0 {
        lemma_sorted_len(s.drop_last());
        lemma_sorted_by_start(s.drop_last());
        lemma_insert_slot(sorted_by_start(s.drop_last()), s.last());
    }
}

/// Merging never gives more periods than there were intervals.
pub proof fn lemma_busy_periods_len(intervals: Seq<(i64, i64)>)
    ensures
        busy_periods(intervals).len() <= intervals.len(),
{
    if intervals.len() > 1 {
        let t = sorted_by_start(intervals);
        lemma_sorted_len(intervals);
        lemma_merge_prefix_len(t, t.len() as int);
    }
}

/// Time `t` lies in interval `iv` (both ends included).
pub open spec fn in_interval(iv: (i64, i64), t: int) -> bool {
    iv.0 <= t <= iv.1
}

/// Time `t` lies in some interval of `s`.
pub open spec fn covered(s: Seq<(i64, i64)>, t: int) -> bool {
    exists|i: int| 0 <= i < s.len() && #[trigger] in_interval(s[i], t)
}

/// Covering by a list with one more interval.
proof fn lemma_covered_push(s: Seq<(i64, i64)>, x: (i64, i64), t: int)
    ensures
        covered(s.push(x), t) <==> covered(s, t) || in_interval(x, t),
{
    let r = s.push(x);
    if covered(s, t) {
        let i = choose|i: int| 0 <= i < s.len() && #[trigger] in_interval(s[i], t);
        assert(r[i] == s[i]);
    }
    if in_interval(x, t) {
        assert(r[s.len() as int] == x);
    }
    if covered(r, t) {
        let i = choose|i: int| 0 <= i < r.len() && #[trigger] in_interval(r[i], t);
        if i < s.len() {
            assert(r[i] == s[i]);
        }
    }
}

/// Merging the first `n` intervals of an ordered list covers what they
/// cover, the open period starting no later than the last of them.
proof fn lemma_merge_prefix_covers(s: Seq<(i64, i64)>, n: int, t: int)
    requires
        starts_ordered(s),
        1 <= n <= s.len(),
    ensures
        (covered(merge_prefix(s, n).0, t) || in_interval(merge_prefix(s, n).1, t)) <==> covered(s.take(n), t),
        merge_prefix(s, n).1.0 <= s[n - 1].0,
    decreases n,
{
    if n == 1 {
        assert(s.take(1) =~= Seq::<(i64, i64)>::empty().push(s[0]));
        lemma_covered_push(Seq::empty(), s[0], t);
        assert(!covered(Seq::<(i64, i64)>::empty(), t));
    } else {
        lemma_merge_prefix_covers(s, n - 1, t);
        let (done, open) = merge_prefix(s, n - 1);
        let x = s[n - 1];
        assert(s[n - 2].0 <= x.0);
        assert(s.take(n) =~= s.take(n - 1).push(x));
        lemma_covered_push(s.take(n - 1), x, t);
        if x.0 <= open.1 {
        } else {
            lemma_covered_push(done, open, t);
        }
    }
}

/// Merging an ordered list covers exactly the times the intervals cover.
pub proof fn lemma_merged_covers(s: Seq<(i64, i64)>, t: int)
    requires
        starts_ordered(s),
    ensures
        covered(merged(s), t) <==> covered(s, t),
{
    if s.len() > 1 {
        lemma_merge_prefix_covers(s, s.len() as int, t);
        let (done, open) = merge_prefix(s, s.len() as int);
        lemma_covered_push(done, open, t);
        assert(s.take(s.len() as int) =~= s);
    }
}

/// Lists with the same intervals cover the same times.
proof fn lemma_same_intervals_cover(a: Seq<(i64, i64)>, b: Seq<(i64, i64)>, t: int)
    requires
        a.to_multiset() == b.to_multiset(),
    ensures
        covered(a, t) ==> covered(b, t),
{
    broadcast use vstd::seq_lib::group_to_multiset_ensures;
    if covered(a, t) {
        let i = choose|i: int| 0 <= i < a.len() && #[trigger] in_interval(a[i], t);
        assert(a.contains(a[i]));
        assert(a.to_multiset().count(a[i]) > 0);
        assert(b.to_multiset().count(a[i]) > 0);
        assert(b.contains(a[i]));
        let j = choose|j: int| 0 <= j < b.len() && b[j] == a[i];
        assert(in_interval(b[j], t));
    }
}

/// The busy periods cover exactly the times that the intervals cover.
pub proof fn lemma_busy_periods_cover(intervals: Seq<(i64, i64)>, t: int)
    ensures
        covered(busy_periods(intervals), t) <==> covered(intervals, t),
{
    if intervals.len() > 1 {
        lemma_sorted_by_start(intervals);
        lemma_merged_covers(sorted_by_start(intervals), t);
        lemma_same_intervals_cover(sorted_by_start(intervals), intervals, t);
        lemma_same_intervals_cover(intervals, sorted_by_start(intervals), t);
    }
}

/// Sorting orders the starts and keeps the intervals.
pub proof fn lemma_sorted_by_start(s: Seq<(i64, i64)>)
    ensures
        starts_ordered(sorted_by_start(s)),
        sorted_by_start(s).to_multiset() == s.to_multiset(),
        well_formed(s) ==> well_formed(sorted_by_start(s)),
    decreases s.len(),
{
    if s.len() > 0 {
        let t = sorted_by_start(s.drop_last());
        let x = s.last();
        lemma_sorted_by_start(s.drop_last());
        let k = lemma_insert_slot(t, x);
        let r = t.insert(k, x);
        assert forall|a: int, b: int| 0 <= a < b < r.len() implies #[trigger] r[a].0 <= #[trigger] r[b].0 by {
            if b < k {
                assert(r[a] == t[a] && r[b] == t[b]);
            } else if b == k {
                assert(r[a] == t[a]);
                if k > 0 {
                    assert(t[a].0 <= t[k - 1].0);
                }
            } else if a < k {
                assert(r[a] == t[a] && r[b] == t[b - 1]);
            } else if a == k {
                assert(r[b] == t[b - 1]);
            } else {
                assert(r[a] == t[a - 1] && r[b] == t[b - 1]);
            }
        }
        vstd::seq_lib::to_multiset_insert(t, k, x);
        assert(s =~= s.drop_last().push(x));
        s.drop_last().to_multiset_ensures();
        if well_formed(s) {
            assert(well_formed(s.drop_last()));
            assert forall|i: int| 0 <= i < r.len() implies #[trigger] r[i].0 <= r[i].1 by {
                if i < k {
                    assert(r[i] == t[i]);
                } else if i > k {
                    assert(r[i] == t[i - 1]);
                }
            }
        }
    }
}

/// The slot of an interval in an ordered list: everything before starts no
/// later, everything after starts later.
proof fn lemma_insert_slot(t: Seq<(i64, i64)>, x: (i64, i64)) -> (k: int)
    requires
        starts_ordered(t),
    ensures
        k == insert_slot(t, x),
        0 <= k <= t.len(),
        forall|j: int| 0 <= j < k ==> #[trigger] t[j].0 <= x.0,
        forall|j: int| k <= j < t.len() ==> x.0 < #[trigger] t[j].0,
    decreases t.len(),
{
    if t.len() == 0 {
        0
    } else if x.0 < t.last().0 {
        let u = t.drop_last();
        let k = lemma_insert_slot(u, x);
        assert forall|j: int| 0 <= j < k implies #[trigger] t[j].0 <= x.0 by {
            assert(t[j] == u[j]);
        }
        assert forall|j: int| k <= j < t.len() implies x.0 < #[trigger] t[j].0 by {
            if j < u.len() {
                assert(t[j] == u[j]);
            }
        }
        k
    } else {
        assert forall|j: int| 0 <= j < t.len() implies #[trigger] t[j].0 <= x.0 by {
            assert(t[j].0 <= t[t.len() - 1].0 || j == t.len() - 1);
        }
        t.len() as int
    }
}


/// Free-busy types of time.
#[derive(Debug, Clone, PartialEq, Eq)]
pub enum FreeBusyType {
    Free,
    Busy,
    BusyUnavailable,
    BusyTentative,
    Other(String),
}

/// A free-busy type, with its text for other types.
pub enum FbView {
    Free,
    Busy,
    BusyUnavailable,
    BusyTentative,
    Other(Seq<char>),
}

/// The view of a free-busy type.
pub open spec fn fb_view(t: FreeBusyType) -> FbView {
    match t {
        FreeBusyType::Free => FbView::Free,
        FreeBusyType::Busy => FbView::Busy,
        FreeBusyType::BusyUnavailable => FbView::BusyUnavailable,
        FreeBusyType::BusyTentative => FbView::BusyTentative,
        FreeBusyType::Other(s) => FbView::Other(s@),
    }
}

/// Whether an event lets time through (`TRANSP`).
#[derive(Debug, Clone, Copy, PartialEq, Eq, Structural)]
pub enum Transparency {
    Opaque,
    Transparent,
}

/// The status of an event.
#[derive(Debug, Clone, PartialEq, Eq)]
pub enum EventStatus {
    Confirmed,
    Tentative,
    Cancelled,
    Other(String),
}

/// A component of a stored calendar object, as free-busy time reads it.
#[derive(Debug, Clone, PartialEq, Eq)]
pub enum FbComponent {
    /// An event: its transparency and status, when given, and the start and
    /// end of its instances within the requested range.
    Event { transparency: Option<Transparency>, status: Option<EventStatus>, instances: Vec<(i64, i64)> },
    /// A `FREEBUSY` entry of a free-busy component: its type, when given,
    /// and its periods within the requested range.
    FreeBusy { fbtype: Option<FreeBusyType>, periods: Vec<(i64, i64)> },
    /// Any other component, which holds no free-busy time.
    Other,
}

/// A stored calendar object within the requested range.
#[derive(Debug, Clone, PartialEq, Eq)]
pub struct FbEvent {
    /// Whether expanding the object over the range gave any instance.
    pub has_instances: bool,
    pub components: Vec<FbComponent>,
}

/// Intervals tagged with one type.
pub open spec fn tagged(t: FbView, ivs: Seq<(i64, i64)>) -> Seq<(FbView, (i64, i64))> {
    ivs.map_values(|iv: (i64, i64)| (t, iv))
}

/// The free-busy time a component holds, as typed intervals: an event that
/// is not transparent and not cancelled is busy, tentatively for a
/// tentative event, with the type named by another status; a `FREEBUSY`
/// entry is of its type, busy by default.
pub open spec fn component_time(c: FbComponent) -> Seq<(FbView, (i64, i64))> {
    match c {
        FbComponent::Event { transparency, status, instances } => if transparency == Some(Transparency::Transparent) {
            Seq::empty()
        } else {
            match status {
                Some(EventStatus::Cancelled) => Seq::empty(),
                Some(EventStatus::Tentative) => tagged(FbView::BusyTentative, instances@),
                Some(EventStatus::Other(v)) => tagged(FbView::Other(v@), instances@),
                _ => tagged(FbView::Busy, instances@),
            }
        },
        FbComponent::FreeBusy { fbtype, periods } => tagged(
            match fbtype {
                Some(t) => fb_view(t),
                None => FbView::Busy,
            },
            periods@,
        ),
        FbComponent::Other => Seq::empty(),
    }
}

/// The free-busy time of components, in order.
pub open spec fn components_time(cs: Seq<FbComponent>) -> Seq<(FbView, (i64, i64))>
    decreases cs.len(),
{
    if cs.len() == 0 {
        Seq::empty()
    } else {
        components_time(cs.drop_last()) + component_time(cs.last())
    }
}

/// The free-busy time of calendar objects, in order; an object without
/// instances in the range holds none.
pub open spec fn events_time(es: Seq<FbEvent>) -> Seq<(FbView, (i64, i64))>
    decreases es.len(),
{
    if es.len() == 0 {
        Seq::empty()
    } else {
        events_time(es.drop_last()) + if es.last().has_instances {
            components_time(es.last().components@)
        } else {
            Seq::empty()
        }
    }
}

/// Groups of intervals by type.
pub type Groups = Seq<(FbView, Seq<(i64, i64)>)>;

/// The position of type `t` among the groups, if any.
pub open spec fn group_of(g: Groups, t: FbView) -> Option<int>
    decreases g.len(),
{
    if g.len() == 0 {
        None
    } else if g.last().0 == t {
        Some(g.len() - 1)
    } else {
        group_of(g.drop_last(), t)
    }
}

/// A group found for a type is a group of that type.
proof fn lemma_group_of(g: Groups, t: FbView)
    ensures
        group_of(g, t) matches Some(i) ==> 0 <= i < g.len() && g[i].0 == t,
    decreases g.len(),
{
    if g.len() > 0 && g.last().0 != t {
        lemma_group_of(g.drop_last(), t);
    }
}

/// The groups with interval `iv` added under type `t`: to its group, or in
/// a new group at the end.
pub open spec fn add_to_group(g: Groups, t: FbView, iv: (i64, i64)) -> Groups {
    match group_of(g, t) {
        Some(i) => g.update(i, (t, g[i].1.push(iv))),
        None => g.push((t, seq![iv])),
    }
}

/// The groups after adding typed intervals in order.
pub open spec fn grouped(g: Groups, cs: Seq<(FbView, (i64, i64))>) -> Groups
    decreases cs.len(),
{
    if cs.len() == 0 {
        g
    } else {
        add_to_group(grouped(g, cs.drop_last()), cs.last().0, cs.last().1)
    }
}

/// Adding two runs of intervals is adding the first, then the second.
pub proof fn lemma_grouped_concat(g: Groups, a: Seq<(FbView, (i64, i64))>, b: Seq<(FbView, (i64, i64))>)
    ensures
        grouped(g, a + b) == grouped(grouped(g, a), b),
    decreases b.len(),
{
    if b.len() == 0 {
        assert(a + b =~= a);
    } else {
        assert((a + b).drop_last() =~= a + b.drop_last());
        assert((a + b).last() == b.last());
        lemma_grouped_concat(g, a, b.drop_last());
    }
}

/// The groups, as views.
pub open spec fn groups_view(v: Seq<(FreeBusyType, Vec<(i64, i64)>)>) -> Groups {
    v.map_values(|e: (FreeBusyType, Vec<(i64, i64)>)| (fb_view(e.0), e.1@))
}

/// A copy of a free-busy type.
fn copy_type(t: &FreeBusyType) -> (r: FreeBusyType)
    ensures
        fb_view(r) == fb_view(*t),
{
    match t {
        FreeBusyType::Free => FreeBusyType::Free,
        FreeBusyType::Busy => FreeBusyType::Busy,
        FreeBusyType::BusyUnavailable => FreeBusyType::BusyUnavailable,
        FreeBusyType::BusyTentative => FreeBusyType::BusyTentative,
        FreeBusyType::Other(s) => FreeBusyType::Other(s.clone()),
    }
}

/// Whether two free-busy types are the same.
fn same_type(a: &FreeBusyType, b: &FreeBusyType) -> (r: bool)
    ensures
        r == (fb_view(*a) == fb_view(*b)),
{
    match (a, b) {
        (FreeBusyType::Free, FreeBusyType::Free) => true,
        (FreeBusyType::Busy, FreeBusyType::Busy) => true,
        (FreeBusyType::BusyUnavailable, FreeBusyType::BusyUnavailable) => true,
        (FreeBusyType::BusyTentative, FreeBusyType::BusyTentative) => true,
        (FreeBusyType::Other(x), FreeBusyType::Other(y)) => crate::text::str_is(x.as_str(), y.as_str()),
        _ => false,
    }
}

/// The position of the group of type `t`, if any.
fn find_group(groups: &Vec<(FreeBusyType, Vec<(i64, i64)>)>, t: &FreeBusyType) -> (r: Option<usize>)
    ensures
        r matches Some(p) ==> p < groups@.len() && group_of(groups_view(groups@), fb_view(*t)) == Some(p as int),
        r is None ==> group_of(groups_view(groups@), fb_view(*t)) is None,
{
    let ghost g = groups_view(groups@);
    let ghost tv = fb_view(*t);
    let mut i: usize = groups.len();
    assert(g.take(g.len() as int) =~= g);
    while i > 0
        invariant
            i <= groups@.len(),
            g == groups_view(groups@),
            tv == fb_view(*t),
            group_of(g, tv) == group_of(g.take(i as int), tv),
        decreases i,
    {
        assert(g.take(i as int).drop_last() =~= g.take(i - 1));
        assert(g.take(i as int).last() == g[i - 1]);
        if same_type(&groups[i - 1].0, t) {
            return Some(i - 1);
        }
        i = i - 1;
    }
    assert(g.take(0) =~= Seq::<(FbView, Seq<(i64, i64)>)>::empty());
    None
}

/// A copy of a list of intervals.
fn copy_intervals(v: &Vec<(i64, i64)>) -> (r: Vec<(i64, i64)>)
    ensures
        r@ == v@,
{
    let mut r: Vec<(i64, i64)> = Vec::new();
    let mut k: usize = 0;
    while k < v.len()
        invariant
            k <= v@.len(),
            r@ == v@.take(k as int),
        decreases v@.len() - k,
    {
        r.push(v[k]);
        assert(r@ =~= v@.take(k + 1));
        k = k + 1;
    }
    assert(v@.take(v@.len() as int) =~= v@);
    r
}

/// Adds the intervals `ivs` under type `t`, in order.
fn add_intervals(groups: &mut Vec<(FreeBusyType, Vec<(i64, i64)>)>, t: &FreeBusyType, ivs: &Vec<(i64, i64)>)
    ensures
        groups_view(final(groups)@) == grouped(groups_view(old(groups)@), tagged(fb_view(*t), ivs@)),
{
    let ghost g0 = groups_view(groups@);
    let ghost tv = fb_view(*t);
    let mut k: usize = 0;
    assert(tagged(tv, ivs@.take(0)) =~= Seq::<(FbView, (i64, i64))>::empty());
    while k < ivs.len()
        invariant
            k <= ivs@.len(),
            tv == fb_view(*t),
            groups_view(groups@) == grouped(g0, tagged(tv, ivs@.take(k as int))),
        decreases ivs@.len() - k,
    {
        let iv = ivs[k];
        assert(tagged(tv, ivs@.take(k + 1)) =~= tagged(tv, ivs@.take(k as int)).push((tv, iv)));
        let ghost before = groups_view(groups@);
        let found = find_group(groups, t);
        proof {
            lemma_group_of(before, tv);
            let tk = tagged(tv, ivs@.take(k + 1));
            assert(tk.drop_last() =~= tagged(tv, ivs@.take(k as int)));
            assert(tk.last() == (tv, iv));
        }
        if let Some(pos) = found {
            let ghost old_v = groups@;
            let mut entry = groups.remove(pos);
            entry.1.push(iv);
            groups.insert(pos, entry);
            assert(groups@.len() == old_v.len());
            assert(forall|j: int| 0 <= j < old_v.len() && j != pos ==> #[trigger] groups@[j] == old_v[j]);
            assert(groups@[pos as int].0 == old_v[pos as int].0);
            assert(groups@[pos as int].1@ == old_v[pos as int].1@.push(iv));
            assert(groups_view(groups@) =~= before.update(pos as int, (tv, before[pos as int].1.push(iv))));
            assert(groups_view(groups@) =~= add_to_group(before, tv, iv));
        } else {
            let mut v: Vec<(i64, i64)> = Vec::new();
            v.push(iv);
            groups.push((copy_type(t), v));
            assert(groups_view(groups@) =~= add_to_group(before, tv, iv));
        }
        k = k + 1;
    }
    assert(ivs@.take(ivs@.len() as int) =~= ivs@);
}

/// Adds the free-busy time of a component.
fn add_component(groups: &mut Vec<(FreeBusyType, Vec<(i64, i64)>)>, c: &FbComponent)
    ensures
        groups_view(final(groups)@) == grouped(groups_view(old(groups)@), component_time(*c)),
{
    match c {
        FbComponent::Event { transparency, status, instances } => {
            if *transparency == Some(Transparency::Transparent) {
                return ;
            }
            match status {
                Some(EventStatus::Cancelled) => {},
                Some(EventStatus::Tentative) => {
                    add_intervals(groups, &FreeBusyType::BusyTentative, instances);
                },
                Some(EventStatus::Other(v)) => {
                    add_intervals(groups, &FreeBusyType::Other(v.clone()), instances);
                },
                _ => {
                    add_intervals(groups, &FreeBusyType::Busy, instances);
                },
            }
        },
        FbComponent::FreeBusy { fbtype, periods } => {
            match fbtype {
                Some(t) => {
                    add_intervals(groups, t, periods);
                },
                None => {
                    add_intervals(groups, &FreeBusyType::Busy, periods);
                },
            }
        },
        FbComponent::Other => {},
    }
}

/// The free-busy periods of calendar objects within a requested range, by
/// type: each type that holds time once, in the order it first appears,
/// with its intervals merged into busy periods.
pub fn freebusy_entries(events: &Vec<FbEvent>) -> (r: Vec<(FreeBusyType, Vec<(i64, i64)>)>)
    ensures
        ({
            let g = grouped(Seq::empty(), events_time(events@));
            &&& r@.len() == g.len()
            &&& forall|i: int|
                0 <= i < g.len() ==> fb_view(#[trigger] r@[i].0) == g[i].0 && r@[i].1@ == busy_periods(g[i].1)
        }),
{
    let mut groups: Vec<(FreeBusyType, Vec<(i64, i64)>)> = Vec::new();
    let mut e: usize = 0;
    assert(events@.take(0) =~= Seq::<FbEvent>::empty());
    assert(groups_view(groups@) =~= Seq::<(FbView, Seq<(i64, i64)>)>::empty());
    while e < events.len()
        invariant
            e <= events@.len(),
            groups_view(groups@) == grouped(Seq::empty(), events_time(events@.take(e as int))),
        decreases events@.len() - e,
    {
        assert(events@.take(e + 1).drop_last() =~= events@.take(e as int));
        assert(events@.take(e + 1).last() == events@[e as int]);
        let ghost start = groups_view(groups@);
        let ghost done = events_time(events@.take(e as int));
        let ev = &events[e];
        if ev.has_instances {
            let mut c: usize = 0;
            let ghost comps = ev.components@;
            assert(comps.take(0) =~= Seq::<FbComponent>::empty());
            assert(grouped(start, Seq::<(FbView, (i64, i64))>::empty()) == start);
            while c < ev.components.len()
                invariant
                    c <= comps.len(),
                    comps == ev.components@,
                    groups_view(groups@) == grouped(start, components_time(comps.take(c as int))),
                decreases comps.len() - c,
            {
                assert(comps.take(c + 1).drop_last() =~= comps.take(c as int));
                assert(comps.take(c + 1).last() == comps[c as int]);
                let ghost mid = groups_view(groups@);
                add_component(&mut groups, &ev.components[c]);
                proof {
                    lemma_grouped_concat(start, components_time(comps.take(c as int)), component_time(comps[c as int]));
                }
                c = c + 1;
            }
            assert(comps.take(comps.len() as int) =~= comps);
            proof {
                lemma_grouped_concat(Seq::empty(), done, components_time(comps));
            }
        } else {
            assert(done + Seq::<(FbView, (i64, i64))>::empty() =~= done);
        }
        e = e + 1;
    }
    assert(events@.take(events@.len() as int) =~= events@);
    let mut r: Vec<(FreeBusyType, Vec<(i64, i64)>)> = Vec::new();
    let ghost g = groups_view(groups@);
    let mut i: usize = 0;
    while i < groups.len()
        invariant
            i <= groups@.len(),
            g == groups_view(groups@),
            r@.len() == i,
            forall|j: int| 0 <= j < i ==> fb_view(#[trigger] r@[j].0) == g[j].0 && r@[j].1@ == busy_periods(g[j].1),
        decreases groups@.len() - i,
    {
        let t = copy_type(&groups[i].0);
        let ivs = copy_intervals(&groups[i].1);
        let merged = merge_intervals(ivs);
        r.push((t, merged));
        i = i + 1;
    }
    r
}

} // verus!
