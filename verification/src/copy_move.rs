//! The decisions of a calendar COPY or MOVE request: from what is known of
//! the source, the destination and the user's rights, which refusal answers
//! the request or which store operation carries it out.
//!
//! Resolving the URIs, reading the resources and checking the request's
//! conditional headers are done by the caller, which hands in the outcome;
//! the operation chosen is then carried out on the store.
use vstd::prelude::*;

use crate::acl::{Acl, AclSet, no_rights};
use crate::path::{last_segment, last_segment_of};

verus! {

/// A calendar or an event as the request names it.
#[derive(Debug, Clone, PartialEq, Eq)]
pub struct DavItem {
    pub document_id: u32,
    /// The calendar an event is in; `None` for a calendar.
    pub parent_id: Option<u32>,
    pub is_container: bool,
    pub path: String,
}

/// The destination URI, as resolved.
#[derive(Debug, Clone, PartialEq, Eq)]
pub struct Destination {
    /// Whether it lies in a calendar home.
    pub is_calendar: bool,
    pub account_id: Option<u32>,
    /// The path of the destination below the account.
    pub resource: Option<String>,
}

/// What is known of a COPY or MOVE request of a calendar or an event.
#[derive(Debug, Clone, PartialEq, Eq)]
pub struct CopyMoveRequest {
    pub is_move: bool,
    pub from: DavItem,
    /// Whether the source is the account's default calendar.
    pub from_is_default_calendar: bool,
    pub from_account_id: u32,
    /// Whether the user is a member of the source account.
    pub from_member: bool,
    /// The user's effective rights on the containers of the source account.
    pub from_rights: Vec<(u32, AclSet)>,
    /// The destination, when the request names one.
    pub destination: Option<Destination>,
    /// Whether the user is a member of the destination account.
    pub to_member: bool,
    /// The user's effective rights on the containers of the destination
    /// account.
    pub to_rights: Vec<(u32, AclSet)>,
    /// The resource already at the destination path, if any.
    pub to_resource: Option<DavItem>,
    /// When nothing is at the destination: the parent it would go under
    /// (`Some(None)` for the account's root) and the new name; `None` when
    /// its parent does not exist.
    pub to_parent: Option<(Option<DavItem>, String)>,
    /// Whether the request's depth is zero.
    pub depth_zero: bool,
}

/// The store operation that carries out a COPY or MOVE.
#[derive(Debug, Clone, PartialEq, Eq)]
pub enum CopyMoveAction {
    /// Copies (or, when `is_move`, moves) a calendar, with its events when
    /// `with_children`, over the calendar `to_document` or as a new one.
    CopyContainer {
        from_document: u32,
        with_children: bool,
        to_document: Option<u32>,
        new_name: String,
        is_move: bool,
    },
    /// Renames a calendar in place.
    RenameContainer { document: u32, new_name: String },
    /// Copies an event into a calendar, over the event `to_document` or as
    /// a new one.
    CopyEvent { from_document: u32, to_document: Option<u32>, to_calendar: u32, new_name: String },
    /// Moves an event into a calendar, over the event `to_document` or as a
    /// new one.
    MoveEvent {
        from_document: u32,
        from_calendar: u32,
        to_document: Option<u32>,
        to_calendar: u32,
        new_name: String,
    },
    /// Renames an event in its calendar.
    RenameEvent { document: u32, calendar: u32, new_name: String },
}

/// Why a COPY or MOVE is refused.
#[derive(Debug, Clone, Copy, PartialEq, Eq, Structural)]
pub enum CopyMoveError {
    /// Answered with this HTTP status.
    Status(u16),
    /// The default calendar cannot be moved away (403).
    DefaultCalendarNeeded,
}

/// The user's rights on container `id`: those listed for it first, none if
/// it is not listed.
pub open spec fn rights_on(rights: Seq<(u32, AclSet)>, id: u32) -> AclSet
    decreases rights.len(),
{
    if rights.len() == 0 {
        no_rights()
    } else if rights[0].0 == id {
        rights[0].1
    } else {
        rights_on(rights.drop_first(), id)
    }
}

/// Whether the user may use container `id` for `acl`: as a member of the
/// account, or by its rights there.
pub open spec fn may(member: bool, rights: Seq<(u32, AclSet)>, id: u32, acl: Acl) -> bool {
    member || rights_on(rights, id).has(acl)
}

/// The container that holds an item: the item itself for a calendar, its
/// calendar for an event.
pub open spec fn holder(item: DavItem) -> u32 {
    if item.is_container {
        item.document_id
    } else {
        item.parent_id->0
    }
}

/// What the plan of a request is, written over views: the operation, or the
/// refusal.
pub enum PlanView {
    CopyContainer { from_document: u32, with_children: bool, to_document: Option<u32>, new_name: Seq<char>, is_move: bool },
    RenameContainer { document: u32, new_name: Seq<char> },
    CopyEvent { from_document: u32, to_document: Option<u32>, to_calendar: u32, new_name: Seq<char> },
    MoveEvent { from_document: u32, from_calendar: u32, to_document: Option<u32>, to_calendar: u32, new_name: Seq<char> },
    RenameEvent { document: u32, calendar: u32, new_name: Seq<char> },
}

/// The operation, as a view.
pub open spec fn action_view(a: CopyMoveAction) -> PlanView {
    match a {
        CopyMoveAction::CopyContainer { from_document, with_children, to_document, new_name, is_move } =>
            PlanView::CopyContainer { from_document, with_children, to_document, new_name: new_name@, is_move },
        CopyMoveAction::RenameContainer { document, new_name } => PlanView::RenameContainer {
            document,
            new_name: new_name@,
        },
        CopyMoveAction::CopyEvent { from_document, to_document, to_calendar, new_name } => PlanView::CopyEvent {
            from_document,
            to_document,
            to_calendar,
            new_name: new_name@,
        },
        CopyMoveAction::MoveEvent { from_document, from_calendar, to_document, to_calendar, new_name } =>
            PlanView::MoveEvent { from_document, from_calendar, to_document, to_calendar, new_name: new_name@ },
        CopyMoveAction::RenameEvent { document, calendar, new_name } => PlanView::RenameEvent {
            document,
            calendar,
            new_name: new_name@,
        },
    }
}

/// The acl the source's container must allow: removing items for a move,
/// reading them for a copy.
pub open spec fn source_acl(is_move: bool) -> Acl {
    if is_move {
        Acl::RemoveItems
    } else {
        Acl::ReadItems
    }
}

/// The checks on the source and the destination URI, in order: a moved
/// default calendar is refused; the user must read the source's container;
/// the destination must be given, lie in a calendar home of an account and
/// name a resource (502 otherwise).
pub open spec fn copy_move_precheck(q: CopyMoveRequest) -> Result<(u32, Seq<char>), CopyMoveError> {
    if q.is_move && q.from.is_container && q.from_is_default_calendar {
        Err(CopyMoveError::DefaultCalendarNeeded)
    } else if !may(q.from_member, q.from_rights@, holder(q.from), Acl::ReadItems) {
        Err(CopyMoveError::Status(403))
    } else {
        match q.destination {
            None => Err(CopyMoveError::Status(502)),
            Some(d) => if !d.is_calendar {
                Err(CopyMoveError::Status(502))
            } else {
                match d.account_id {
                    None => Err(CopyMoveError::Status(502)),
                    Some(to_account) => match d.resource {
                        None => Err(CopyMoveError::Status(502)),
                        Some(name) => Ok((to_account, name@)),
                    },
                }
            },
        }
    }
}

/// The plan of a request that passed the prechecks and the header checks,
/// for destination account `to_account` and destination path `to_name`.
pub open spec fn copy_move_plan(q: CopyMoveRequest, to_account: u32, to_name: Seq<char>) -> Result<
    PlanView,
    CopyMoveError,
> {
    let acl = source_acl(q.is_move);
    match q.to_resource {
        Some(t) => if q.from.path@ == t.path@ {
            Err(CopyMoveError::Status(502))
        } else if q.from.is_container && t.is_container {
            if !q.to_member || !may(q.from_member, q.from_rights@, q.from.document_id, acl) {
                Err(CopyMoveError::Status(403))
            } else {
                Ok(
                    PlanView::CopyContainer {
                        from_document: q.from.document_id,
                        with_children: true,
                        to_document: Some(t.document_id),
                        new_name: last_segment(to_name),
                        is_move: q.is_move,
                    },
                )
            }
        } else if !q.from.is_container && !t.is_container {
            let from_calendar = q.from.parent_id->0;
            let to_calendar = t.parent_id->0;
            if !may(q.from_member, q.from_rights@, from_calendar, acl) || !may(
                q.to_member,
                q.to_rights@,
                to_calendar,
                Acl::RemoveItems,
            ) {
                Err(CopyMoveError::Status(403))
            } else if q.is_move {
                Ok(
                    PlanView::MoveEvent {
                        from_document: q.from.document_id,
                        from_calendar,
                        to_document: Some(t.document_id),
                        to_calendar,
                        new_name: last_segment(to_name),
                    },
                )
            } else {
                Ok(
                    PlanView::CopyEvent {
                        from_document: q.from.document_id,
                        to_document: Some(t.document_id),
                        to_calendar,
                        new_name: last_segment(to_name),
                    },
                )
            }
        } else {
            Err(CopyMoveError::Status(502))
        },
        None => match q.to_parent {
            None => Err(CopyMoveError::Status(409)),
            Some((Some(p), new_name)) => if !p.is_container || q.from.is_container {
                Err(CopyMoveError::Status(502))
            } else {
                let from_calendar = q.from.parent_id->0;
                let to_calendar = p.document_id;
                if !may(q.from_member, q.from_rights@, from_calendar, acl) || !may(
                    q.to_member,
                    q.to_rights@,
                    to_calendar,
                    Acl::AddItems,
                ) {
                    Err(CopyMoveError::Status(403))
                } else if q.is_move {
                    if q.from_account_id != to_account || to_calendar != from_calendar {
                        Ok(
                            PlanView::MoveEvent {
                                from_document: q.from.document_id,
                                from_calendar,
                                to_document: None,
                                to_calendar,
                                new_name: new_name@,
                            },
                        )
                    } else {
                        Ok(
                            PlanView::RenameEvent {
                                document: q.from.document_id,
                                calendar: from_calendar,
                                new_name: new_name@,
                            },
                        )
                    }
                } else {
                    Ok(
                        PlanView::CopyEvent {
                            from_document: q.from.document_id,
                            to_document: None,
                            to_calendar,
                            new_name: new_name@,
                        },
                    )
                }
            },
            Some((None, new_name)) => if !q.from.is_container {
                Err(CopyMoveError::Status(502))
            } else if !q.to_member {
                Err(CopyMoveError::Status(403))
            } else if !may(q.from_member, q.from_rights@, q.from.document_id, acl) {
                Err(CopyMoveError::Status(403))
            } else if q.is_move {
                if q.from_account_id != to_account {
                    if q.depth_zero {
                        Err(CopyMoveError::Status(502))
                    } else {
                        Ok(
                            PlanView::CopyContainer {
                                from_document: q.from.document_id,
                                with_children: true,
                                to_document: None,
                                new_name: new_name@,
                                is_move: true,
                            },
                        )
                    }
                } else {
                    Ok(PlanView::RenameContainer { document: q.from.document_id, new_name: new_name@ })
                }
            } else {
                Ok(
                    PlanView::CopyContainer {
                        from_document: q.from.document_id,
                        with_children: !q.depth_zero,
                        to_document: None,
                        new_name: new_name@,
                        is_move: false,
                    },
                )
            },
        },
    }
}

/// The user's rights on container `id`.
pub fn rights_of(rights: &Vec<(u32, AclSet)>, id: u32) -> (r: AclSet)
    ensures
        r == rights_on(rights@, id),
{
    let mut i: usize = 0;
    assert(rights@.skip(0) =~= rights@);
    while i < rights.len()
        invariant
            i <= rights@.len(),
            rights_on(rights@, id) == rights_on(rights@.skip(i as int), id),
        decreases rights@.len() - i,
    {
        assert(rights@.skip(i as int).drop_first() =~= rights@.skip(i + 1));
        if rights[i].0 == id {
            return rights[i].1;
        }
        i = i + 1;
    }
    AclSet::empty()
}

/// Whether the user may use container `id` for `acl`.
fn allowed(member: bool, rights: &Vec<(u32, AclSet)>, id: u32, acl: Acl) -> (r: bool)
    ensures
        r == may(member, rights@, id, acl),
{
    member || rights_of(rights, id).contains(acl)
}

/// Checks the source and the destination URI of a request, as
/// `copy_move_precheck` says; on success, the destination account and
/// path.
pub fn precheck_copy_move(q: &CopyMoveRequest) -> (r: Result<(u32, String), CopyMoveError>)
    requires
        !q.from.is_container ==> q.from.parent_id is Some,
    ensures
        match copy_move_precheck(*q) {
            Ok((a, n)) => r matches Ok((a2, n2)) && a2 == a && n2@ == n,
            Err(e) => r == Err::<(u32, String), CopyMoveError>(e),
        },
{
    if q.is_move && q.from.is_container && q.from_is_default_calendar {
        return Err(CopyMoveError::DefaultCalendarNeeded);
    }
    let holder_id = if q.from.is_container {
        q.from.document_id
    } else {
        match q.from.parent_id {
            Some(p) => p,
            None => q.from.document_id,
        }
    };
    if !allowed(q.from_member, &q.from_rights, holder_id, Acl::ReadItems) {
        return Err(CopyMoveError::Status(403));
    }
    let d = match &q.destination {
        None => {
            return Err(CopyMoveError::Status(502));
        },
        Some(d) => d,
    };
    if !d.is_calendar {
        return Err(CopyMoveError::Status(502));
    }
    let to_account = match d.account_id {
        None => {
            return Err(CopyMoveError::Status(502));
        },
        Some(a) => a,
    };
    match &d.resource {
        None => Err(CopyMoveError::Status(502)),
        Some(name) => Ok((to_account, name.clone())),
    }
}

/// Chooses the operation of a request that passed the checks, as
/// `copy_move_plan` says.
pub fn plan_copy_move(q: &CopyMoveRequest, to_account: u32, to_name: &str) -> (r: Result<CopyMoveAction, CopyMoveError>)
    requires
        !q.from.is_container ==> q.from.parent_id is Some,
        q.to_resource is Some && !q.to_resource->0.is_container ==> q.to_resource->0.parent_id is Some,
    ensures
        match copy_move_plan(*q, to_account, to_name@) {
            Ok(p) => r matches Ok(a) && action_view(a) == p,
            Err(e) => r == Err::<CopyMoveAction, CopyMoveError>(e),
        },
{
    let acl = if q.is_move {
        Acl::RemoveItems
    } else {
        Acl::ReadItems
    };
    let from_calendar = match q.from.parent_id {
        Some(p) => p,
        None => 0,
    };
    match &q.to_resource {
        Some(t) => {
            if crate::text::str_is(q.from.path.as_str(), t.path.as_str()) {
                return Err(CopyMoveError::Status(502));
            }
            if q.from.is_container && t.is_container {
                if !q.to_member || !allowed(q.from_member, &q.from_rights, q.from.document_id, acl) {
                    return Err(CopyMoveError::Status(403));
                }
                Ok(
                    CopyMoveAction::CopyContainer {
                        from_document: q.from.document_id,
                        with_children: true,
                        to_document: Some(t.document_id),
                        new_name: last_segment_of(to_name),
                        is_move: q.is_move,
                    },
                )
            } else if !q.from.is_container && !t.is_container {
                let to_calendar = match t.parent_id {
                    Some(p) => p,
                    None => 0,
                };
                if !allowed(q.from_member, &q.from_rights, from_calendar, acl) || !allowed(
                    q.to_member,
                    &q.to_rights,
                    to_calendar,
                    Acl::RemoveItems,
                ) {
                    return Err(CopyMoveError::Status(403));
                }
                if q.is_move {
                    Ok(
                        CopyMoveAction::MoveEvent {
                            from_document: q.from.document_id,
                            from_calendar,
                            to_document: Some(t.document_id),
                            to_calendar,
                            new_name: last_segment_of(to_name),
                        },
                    )
                } else {
                    Ok(
                        CopyMoveAction::CopyEvent {
                            from_document: q.from.document_id,
                            to_document: Some(t.document_id),
                            to_calendar,
                            new_name: last_segment_of(to_name),
                        },
                    )
                }
            } else {
                Err(CopyMoveError::Status(502))
            }
        },
        None => match &q.to_parent {
            None => Err(CopyMoveError::Status(409)),
            Some((Some(p), new_name)) => {
                if !p.is_container || q.from.is_container {
                    return Err(CopyMoveError::Status(502));
                }
                let to_calendar = p.document_id;
                if !allowed(q.from_member, &q.from_rights, from_calendar, acl) || !allowed(
                    q.to_member,
                    &q.to_rights,
                    to_calendar,
                    Acl::AddItems,
                ) {
                    return Err(CopyMoveError::Status(403));
                }
                if q.is_move {
                    if q.from_account_id != to_account || to_calendar != from_calendar {
                        Ok(
                            CopyMoveAction::MoveEvent {
                                from_document: q.from.document_id,
                                from_calendar,
                                to_document: None,
                                to_calendar,
                                new_name: new_name.clone(),
                            },
                        )
                    } else {
                        Ok(
                            CopyMoveAction::RenameEvent {
                                document: q.from.document_id,
                                calendar: from_calendar,
                                new_name: new_name.clone(),
                            },
                        )
                    }
                } else {
                    Ok(
                        CopyMoveAction::CopyEvent {
                            from_document: q.from.document_id,
                            to_document: None,
                            to_calendar,
                            new_name: new_name.clone(),
                        },
                    )
                }
            },
            Some((None, new_name)) => {
                if !q.from.is_container {
                    return Err(CopyMoveError::Status(502));
                }
                if !q.to_member {
                    return Err(CopyMoveError::Status(403));
                }
                if !allowed(q.from_member, &q.from_rights, q.from.document_id, acl) {
                    return Err(CopyMoveError::Status(403));
                }
                if q.is_move {
                    if q.from_account_id != to_account {
                        if q.depth_zero {
                            Err(CopyMoveError::Status(502))
                        } else {
                            Ok(
                                CopyMoveAction::CopyContainer {
                                    from_document: q.from.document_id,
                                    with_children: true,
                                    to_document: None,
                                    new_name: new_name.clone(),
                                    is_move: true,
                                },
                            )
                        }
                    } else {
                        Ok(CopyMoveAction::RenameContainer { document: q.from.document_id, new_name: new_name.clone() })
                    }
                } else {
                    Ok(
                        CopyMoveAction::CopyContainer {
                            from_document: q.from.document_id,
                            with_children: !q.depth_zero,
                            to_document: None,
                            new_name: new_name.clone(),
                            is_move: false,
                        },
                    )
                }
            },
        },
    }
}


/// Every copied or moved event goes into the destination's calendar: the
/// calendar of the event already at the destination, or else the calendar
/// the destination path lies in. A move within one calendar of one account
/// is a rename there; every operation acts on the source document.
pub proof fn lemma_event_lands_in_destination_calendar(q: CopyMoveRequest, to_account: u32, to_name: Seq<char>)
    ensures
        copy_move_plan(q, to_account, to_name) matches Ok(PlanView::CopyEvent { from_document, to_calendar, .. })
            ==> from_document == q.from.document_id && (match q.to_resource {
            Some(t) => to_calendar == t.parent_id->0,
            None => q.to_parent matches Some((Some(p), _)) && to_calendar == p.document_id,
        }),
        copy_move_plan(q, to_account, to_name) matches Ok(PlanView::MoveEvent { from_document, from_calendar, to_calendar, .. })
            ==> from_document == q.from.document_id && from_calendar == q.from.parent_id->0 && (match q.to_resource {
            Some(t) => to_calendar == t.parent_id->0,
            None => q.to_parent matches Some((Some(p), _)) && to_calendar == p.document_id,
        }),
        copy_move_plan(q, to_account, to_name) matches Ok(PlanView::RenameEvent { document, calendar, .. })
            ==> document == q.from.document_id && q.is_move && q.from_account_id == to_account && calendar
            == q.from.parent_id->0 && q.to_resource is None && (q.to_parent matches Some((Some(p), _))
            && p.document_id == calendar),
{
}

/// A copy of an event, by a user who is a member of both accounts, to a
/// new name in an existing calendar always succeeds: it copies the event
/// into that calendar under the new name.
pub proof fn lemma_member_copies_event_into_parent(
    q: CopyMoveRequest,
    to_account: u32,
    to_name: Seq<char>,
    p: DavItem,
    new_name: String,
)
    requires
        !q.is_move,
        !q.from.is_container,
        q.from_member,
        q.to_member,
        q.to_resource is None,
        q.to_parent == Some((Some(p), new_name)),
        p.is_container,
    ensures
        copy_move_plan(q, to_account, to_name) == Ok::<PlanView, CopyMoveError>(
            PlanView::CopyEvent {
                from_document: q.from.document_id,
                to_document: None,
                to_calendar: p.document_id,
                new_name: new_name@,
            },
        ),
{
}

/// The operation goes over what is at the destination, keeping the name of
/// the destination path, or else creates a resource under the name given
/// for the new resource; it always starts from the source document.
pub proof fn lemma_plan_targets_destination(q: CopyMoveRequest, to_account: u32, to_name: Seq<char>)
    ensures
        copy_move_plan(q, to_account, to_name) matches Ok(PlanView::CopyEvent { to_document, new_name, .. })
            ==> (match q.to_resource {
            Some(t) => to_document == Some(t.document_id) && new_name == last_segment(to_name),
            None => to_document is None && (q.to_parent matches Some((_, n)) && new_name == n@),
        }),
        copy_move_plan(q, to_account, to_name) matches Ok(PlanView::MoveEvent { to_document, new_name, .. })
            ==> (match q.to_resource {
            Some(t) => to_document == Some(t.document_id) && new_name == last_segment(to_name),
            None => to_document is None && (q.to_parent matches Some((_, n)) && new_name == n@),
        }),
        copy_move_plan(q, to_account, to_name) matches Ok(PlanView::CopyContainer { from_document, to_document, is_move, .. })
            ==> from_document == q.from.document_id && is_move == q.is_move && q.from.is_container && (match q.to_resource {
            Some(t) => to_document == Some(t.document_id),
            None => to_document is None,
        }),
        copy_move_plan(q, to_account, to_name) matches Ok(PlanView::RenameContainer { document, .. })
            ==> document == q.from.document_id && q.is_move && q.from.is_container && q.from_account_id == to_account,
{
}

/// A planned operation needs the user's rights on both sides: on the
/// source's calendar, removing (for a move) or reading (for a copy); on the
/// destination's calendar, removing the event replaced or adding a new one.
pub proof fn lemma_plan_needs_rights(q: CopyMoveRequest, to_account: u32, to_name: Seq<char>)
    ensures
        copy_move_plan(q, to_account, to_name) matches Ok(PlanView::CopyEvent { to_calendar, .. }) ==> !q.is_move
            && may(q.from_member, q.from_rights@, q.from.parent_id->0, Acl::ReadItems) && may(
            q.to_member,
            q.to_rights@,
            to_calendar,
            if q.to_resource is Some {
                Acl::RemoveItems
            } else {
                Acl::AddItems
            },
        ),
        copy_move_plan(q, to_account, to_name) matches Ok(PlanView::MoveEvent { from_calendar, to_calendar, .. })
            ==> q.is_move && may(q.from_member, q.from_rights@, from_calendar, Acl::RemoveItems) && may(
            q.to_member,
            q.to_rights@,
            to_calendar,
            if q.to_resource is Some {
                Acl::RemoveItems
            } else {
                Acl::AddItems
            },
        ),
{
}
} // verus!
