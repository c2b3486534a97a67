//! The names an event or a card goes by: one per container that holds it.
//! Copying, moving and renaming change these lists; these are the changes.
use vstd::prelude::*;

verus! {

/// A name of an item in a container.
#[derive(Debug, Clone, PartialEq, Eq)]
pub struct DavName {
    pub name: String,
    pub parent_id: u32,
}

/// A name, as text and container.
pub open spec fn name_view(n: DavName) -> (Seq<char>, u32) {
    (n.name@, n.parent_id)
}

/// The names, as text and container.
pub open spec fn names_view(ns: Seq<DavName>) -> Seq<(Seq<char>, u32)> {
    ns.map_values(|n: DavName| name_view(n))
}

/// A copy of a name.
pub fn copy_name(n: &DavName) -> (r: DavName)
    ensures
        name_view(r) == name_view(*n),
{
    DavName { name: n.name.clone(), parent_id: n.parent_id }
}

/// The position of the first name in container `parent`, if any.
pub open spec fn first_in(ns: Seq<(Seq<char>, u32)>, parent: u32) -> Option<int> {
    if exists|i: int| 0 <= i < ns.len() && ns[i].1 == parent {
        Some(choose|i: int| 0 <= i < ns.len() && ns[i].1 == parent && forall|j: int| 0 <= j < i ==> ns[j].1 != parent)
    } else {
        None
    }
}

/// The position of the first name in container `parent`, if any.
pub fn position_in(names: &Vec<DavName>, parent: u32) -> (r: Option<usize>)
    ensures
        r matches Some(i) ==> i < names@.len() && names@[i as int].parent_id == parent,
        match r {
            Some(i) => first_in(names_view(names@), parent) == Some(i as int),
            None => first_in(names_view(names@), parent) is None,
        },
{
    let ghost ns = names_view(names@);
    let mut i: usize = 0;
    while i < names.len()
        invariant
            i <= names@.len(),
            ns == names_view(names@),
            forall|j: int| 0 <= j < i ==> ns[j].1 != parent,
        decreases names@.len() - i,
    {
        if names[i].parent_id == parent {
            proof {
                let w = choose|k: int| 0 <= k < ns.len() && ns[k].1 == parent && forall|j: int| 0 <= j < k ==> ns[j].1 != parent;
                assert(ns[i as int].1 == parent);
                assert(exists|k: int| 0 <= k < ns.len() && ns[k].1 == parent);
                if w < i {
                } else if w > i {
                    assert(ns[i as int].1 != parent);
                }
            }
            return Some(i);
        }
        i = i + 1;
    }
    None
}

/// The name an event gets when its calendar `from` is copied to `to`: the
/// last of its names in `from`, passing over those already in `to`.
pub open spec fn copied_name(ns: Seq<(Seq<char>, u32)>, from: u32, to: u32) -> Option<Seq<char>>
    decreases ns.len(),
{
    if ns.len() == 0 {
        None
    } else {
        let last = ns.last();
        if last.1 != to && last.1 == from {
            Some(last.0)
        } else {
            copied_name(ns.drop_last(), from, to)
        }
    }
}

/// The name an event gets when its calendar `from` is copied to `to`, if
/// it has one there.
pub fn copied_event_name(names: &Vec<DavName>, from: u32, to: u32) -> (r: Option<String>)
    ensures
        match copied_name(names_view(names@), from, to) {
            Some(n) => r matches Some(s) && s@ == n,
            None => r is None,
        },
{
    let ghost ns = names_view(names@);
    let mut found: Option<String> = None;
    let mut i: usize = 0;
    while i < names.len()
        invariant
            i <= names@.len(),
            ns == names_view(names@),
            match copied_name(ns.take(i as int), from, to) {
                Some(n) => found matches Some(s) && s@ == n,
                None => found is None,
            },
        decreases names@.len() - i,
    {
        assert(ns.take(i + 1).drop_last() =~= ns.take(i as int));
        if names[i].parent_id == to {
        } else if names[i].parent_id == from {
            found = Some(names[i].name.clone());
        }
        i = i + 1;
    }
    assert(ns.take(names@.len() as int) =~= ns);
    found
}

/// The names that are not in container `from`, in order.
pub open spec fn names_outside(ns: Seq<(Seq<char>, u32)>, from: u32) -> Seq<(Seq<char>, u32)>
    decreases ns.len(),
{
    if ns.len() == 0 {
        Seq::empty()
    } else {
        let rest = names_outside(ns.drop_last(), from);
        if ns.last().1 != from {
            rest.push(ns.last())
        } else {
            rest
        }
    }
}

/// The names of an event copied within its account: the new name added
/// after the others, which lose those in `from` when the event is moved
/// (`remove_source`).
pub open spec fn names_after_copy(ns: Seq<(Seq<char>, u32)>, from: u32, new_name: (Seq<char>, u32), remove_source: bool) -> Seq<
    (Seq<char>, u32),
> {
    (if remove_source {
        names_outside(ns, from)
    } else {
        ns
    }).push(new_name)
}

/// Viewing a list with one more name adds that name's view.
proof fn lemma_view_push(s: Seq<DavName>, x: DavName)
    ensures
        names_view(s.push(x)) == names_view(s).push(name_view(x)),
{
    assert(names_view(s.push(x)) =~= names_view(s).push(name_view(x)));
}

/// The names of an event copied within its account.
pub fn names_for_copy(names: &Vec<DavName>, from: u32, new_name: DavName, remove_source: bool) -> (r: Vec<DavName>)
    ensures
        names_view(r@) == names_after_copy(names_view(names@), from, name_view(new_name), remove_source),
{
    let ghost ns = names_view(names@);
    let mut r: Vec<DavName> = Vec::new();
    let mut i: usize = 0;
    assert(ns.take(0) =~= Seq::<(Seq<char>, u32)>::empty());
    assert(names_view(r@) =~= Seq::<(Seq<char>, u32)>::empty());
    while i < names.len()
        invariant
            i <= names@.len(),
            ns == names_view(names@),
            names_view(r@) == (if remove_source {
                names_outside(ns.take(i as int), from)
            } else {
                ns.take(i as int)
            }),
        decreases names@.len() - i,
    {
        assert(ns.take(i + 1).drop_last() =~= ns.take(i as int));
        assert(ns.take(i + 1).last() == ns[i as int]);
        assert(ns.take(i + 1) =~= ns.take(i as int).push(ns[i as int]));
        let ghost before = r@;
        if !remove_source || names[i].parent_id != from {
            let c = copy_name(&names[i]);
            r.push(c);
            proof {
                lemma_view_push(before, c);
            }
        }
        i = i + 1;
    }
    assert(ns.take(names@.len() as int) =~= ns);
    let ghost before = r@;
    r.push(new_name);
    proof {
        lemma_view_push(before, new_name);
    }
    r
}

/// The names of an event moved within its account from calendar `from` to
/// `to` as `new_name`: its name in `from` is taken out as `swap_remove`
/// does (the last name takes its place) and the new name is added; `None`
/// when it has no name in `from`.
pub open spec fn names_after_move(ns: Seq<(Seq<char>, u32)>, from: u32, new_name: (Seq<char>, u32)) -> Option<
    Seq<(Seq<char>, u32)>,
> {
    match first_in(ns, from) {
        None => None,
        Some(i) => Some(ns.update(i, ns.last()).drop_last().push(new_name)),
    }
}

/// The names of an event moved within its account, or `None` when it is
/// not in the calendar it is moved from.
pub fn names_for_move(names: &Vec<DavName>, from: u32, new_name: DavName) -> (r: Option<Vec<DavName>>)
    ensures
        match names_after_move(names_view(names@), from, name_view(new_name)) {
            Some(ns) => r matches Some(v) && names_view(v@) == ns,
            None => r is None,
        },
{
    let idx = match position_in(names, from) {
        None => {
            return None;
        },
        Some(i) => i,
    };
    let ghost ns = names_view(names@);
    let ghost t = ns.update(idx as int, ns.last()).drop_last();
    let n = names.len();
    let mut v: Vec<DavName> = Vec::new();
    let mut i: usize = 0;
    while i < n
        invariant
            idx < n,
            n == names@.len(),
            i <= n,
            ns == names_view(names@),
            v@.len() == i,
            forall|j: int| 0 <= j < i ==> #[trigger] name_view(v@[j]) == ns[j],
        decreases n - i,
    {
        v.push(copy_name(&names[i]));
        i = i + 1;
    }
    let ghost full = v@;
    v.swap_remove(idx);
    assert forall|j: int| 0 <= j < t.len() implies #[trigger] name_view(v@[j]) == t[j] by {
        if j == idx {
            assert(v@[j] == full.last());
        } else {
            assert(v@[j] == full[j]);
        }
    }
    assert(names_view(v@) =~= t);
    let ghost before = v@;
    v.push(new_name);
    proof {
        lemma_view_push(before, new_name);
    }
    Some(v)
}

/// The names of an event renamed in calendar `parent`: its first name there
/// takes the new text; `None` when it has no name there.
pub open spec fn names_after_rename(ns: Seq<(Seq<char>, u32)>, parent: u32, new_name: Seq<char>) -> Option<
    Seq<(Seq<char>, u32)>,
> {
    match first_in(ns, parent) {
        None => None,
        Some(i) => Some(ns.update(i, (new_name, ns[i].1))),
    }
}

/// The names of an event renamed in a calendar, or `None` when it is not
/// in that calendar.
pub fn names_for_rename(names: &Vec<DavName>, parent: u32, new_name: &str) -> (r: Option<Vec<DavName>>)
    ensures
        match names_after_rename(names_view(names@), parent, new_name@) {
            Some(ns) => r matches Some(v) && names_view(v@) == ns,
            None => r is None,
        },
{
    let idx = match position_in(names, parent) {
        None => {
            return None;
        },
        Some(i) => i,
    };
    let ghost ns = names_view(names@);
    let ghost t = ns.update(idx as int, (new_name@, ns[idx as int].1));
    let mut v: Vec<DavName> = Vec::new();
    let mut i: usize = 0;
    while i < names.len()
        invariant
            idx < names@.len(),
            i <= names@.len(),
            ns == names_view(names@),
            t == ns.update(idx as int, (new_name@, ns[idx as int].1)),
            v@.len() == i,
            forall|j: int| 0 <= j < i ==> #[trigger] name_view(v@[j]) == t[j],
        decreases names@.len() - i,
    {
        let c = if i == idx {
            DavName { name: String::from_str(new_name), parent_id: names[i].parent_id }
        } else {
            copy_name(&names[i])
        };
        v.push(c);
        i = i + 1;
    }
    assert(names_view(v@) =~= t);
    Some(v)
}

/// Whether moving an event must check that its UID is unique in the
/// destination calendar: it changes account or calendar, or creates a new
/// event there.
pub fn move_needs_uid_check(from_account: u32, to_account: u32, from_calendar: u32, to_calendar: u32, overwrites: bool) -> (r:
    bool)
    ensures
        r == (from_account != to_account || from_calendar != to_calendar || !overwrites),
{
    from_account != to_account || from_calendar != to_calendar || !overwrites
}

/// The status answering a copy or a move: 204 when it replaced a resource,
/// 201 when it created one.
pub fn copy_status(overwrites: bool) -> (r: u16)
    ensures
        r == (if overwrites {
            204u16
        } else {
            201u16
        }),
{
    if overwrites {
        204
    } else {
        201
    }
}

} // verus!
