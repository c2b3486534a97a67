//! The decisions of a DELETE request on a calendar or an address book, or
//! on an event or a card: which refusal answers it, and what is deleted.
//!
//! Resolving the URI, reading the resources and checking the request's
//! conditional headers are done by the caller, which hands in the outcome;
//! the deletion is then carried out on the store.
use vstd::prelude::*;

use crate::acl::{Acl, AclSet};
use crate::copy_move::{rights_on, DavItem, may, rights_of};

verus! {

/// The kind of home a DELETE is in.
#[derive(Debug, Clone, Copy, PartialEq, Eq, Structural)]
pub enum DeleteHome {
    Calendar,
    AddressBook,
}

/// What is known of a DELETE request before its conditional headers are
/// checked.
#[derive(Debug, Clone, PartialEq, Eq)]
pub struct DeleteRequest {
    pub home: DeleteHome,
    /// The path below the account, when the URI names one.
    pub path: Option<String>,
    /// The resource at the path, if any.
    pub resource: Option<DavItem>,
    /// Whether the path names the account's default calendar.
    pub is_default_calendar: bool,
    /// Whether the user is a member of the account.
    pub is_member: bool,
    /// For a container: the user's effective rights on it, `None` when it
    /// is no longer stored.
    pub container_rights: Option<AclSet>,
    /// For an item: the user's effective rights on the containers.
    pub rights: Vec<(u32, AclSet)>,
    /// For an item: whether it is still stored.
    pub item_found: bool,
}

/// What a DELETE removes, once its checks passed.
#[derive(Debug, Clone, Copy, PartialEq, Eq, Structural)]
pub enum DeleteTarget {
    /// A calendar or an address book, with all it holds.
    Container { document: u32 },
    /// An event or a card, from its container.
    Item { document: u32, container: u32 },
}

/// Why a DELETE is refused.
#[derive(Debug, Clone, Copy, PartialEq, Eq, Structural)]
pub enum DeleteError {
    Status(u16),
    /// The default calendar cannot be deleted (403).
    DefaultCalendarNeeded,
}

/// The checks of a DELETE before its headers, in order: the URI must name a
/// non-empty path (403) of an existing resource (404). A calendar that is
/// the default one is refused; a container must still be stored (404) and
/// the user must be a member or may delete it and remove what it holds
/// (403). For an item, the user must be a member or may remove items from
/// its container (403), and the item must still be stored (404).
pub open spec fn delete_check(q: DeleteRequest) -> Result<DeleteTarget, DeleteError> {
    match q.path {
        None => Err(DeleteError::Status(403)),
        Some(p) => if p@.len() == 0 {
            Err(DeleteError::Status(403))
        } else {
            match q.resource {
                None => Err(DeleteError::Status(404)),
                Some(r) => if r.is_container {
                    if q.home == DeleteHome::Calendar && q.is_default_calendar {
                        Err(DeleteError::DefaultCalendarNeeded)
                    } else {
                        match q.container_rights {
                            None => Err(DeleteError::Status(404)),
                            Some(acls) => if !q.is_member && !(acls.has(Acl::Delete) && acls.has(
                                Acl::RemoveItems,
                            )) {
                                Err(DeleteError::Status(403))
                            } else {
                                Ok(DeleteTarget::Container { document: r.document_id })
                            },
                        }
                    }
                } else {
                    let container = r.parent_id->0;
                    if !may(q.is_member, q.rights@, container, Acl::RemoveItems) {
                        Err(DeleteError::Status(403))
                    } else if !q.item_found {
                        Err(DeleteError::Status(404))
                    } else {
                        Ok(DeleteTarget::Item { document: r.document_id, container })
                    }
                },
            }
        },
    }
}

/// Checks a DELETE request, as `delete_check` says.
pub fn check_delete(q: &DeleteRequest) -> (r: Result<DeleteTarget, DeleteError>)
    requires
        q.resource is Some && !q.resource->0.is_container ==> q.resource->0.parent_id is Some,
    ensures
        r == delete_check(*q),
{
    match &q.path {
        None => {
            return Err(DeleteError::Status(403));
        },
        Some(p) => {
            if p.as_str().unicode_len() == 0 {
                return Err(DeleteError::Status(403));
            }
        },
    }
    let r = match &q.resource {
        None => {
            return Err(DeleteError::Status(404));
        },
        Some(r) => r,
    };
    if r.is_container {
        if q.home == DeleteHome::Calendar && q.is_default_calendar {
            return Err(DeleteError::DefaultCalendarNeeded);
        }
        match q.container_rights {
            None => Err(DeleteError::Status(404)),
            Some(acls) => {
                if !q.is_member && !(acls.contains(Acl::Delete) && acls.contains(Acl::RemoveItems)) {
                    Err(DeleteError::Status(403))
                } else {
                    Ok(DeleteTarget::Container { document: r.document_id })
                }
            },
        }
    } else {
        let container = match r.parent_id {
            Some(c) => c,
            None => 0,
        };
        if !(q.is_member || rights_of(&q.rights, container).contains(Acl::RemoveItems)) {
            Err(DeleteError::Status(403))
        } else if !q.item_found {
            Err(DeleteError::Status(404))
        } else {
            Ok(DeleteTarget::Item { document: r.document_id, container })
        }
    }
}

/// Whether deleting from a calendar notifies the attendees: scheduling
/// messages are on, the request does not ask for no reply, and the user has
/// an address and may send scheduling messages.
pub open spec fn sends_itip(itip_enabled: bool, no_schedule_reply: bool, has_emails: bool, may_schedule: bool) -> bool {
    itip_enabled && !no_schedule_reply && has_emails && may_schedule
}

/// Whether a calendar DELETE notifies the attendees.
pub fn send_itip(itip_enabled: bool, no_schedule_reply: bool, has_emails: bool, may_schedule: bool) -> (r: bool)
    ensures
        r == sends_itip(itip_enabled, no_schedule_reply, has_emails, may_schedule),
{
    itip_enabled && !no_schedule_reply && has_emails && may_schedule
}

/// The check of an event's schedule tag after the headers: when the request
/// names a tag, it must be the event's (412).
pub fn check_schedule_tag(if_schedule_tag: Option<u32>, schedule_tag: Option<u32>) -> (r: Result<(), DeleteError>)
    ensures
        r is Ok <==> (if_schedule_tag is None || schedule_tag == if_schedule_tag),
        r is Err ==> r == Err::<(), DeleteError>(DeleteError::Status(412)),
{
    match if_schedule_tag {
        None => Ok(()),
        Some(t) => match schedule_tag {
            Some(s) => {
                if s == t {
                    Ok(())
                } else {
                    Err(DeleteError::Status(412))
                }
            },
            None => Err(DeleteError::Status(412)),
        },
    }
}


/// A member of the account may delete anything of it: an event or card of
/// theirs that is still stored is deleted from its container whatever rights
/// are listed, and a container still stored is deleted unless it is the
/// default calendar.
pub proof fn lemma_member_may_delete(q: DeleteRequest, r: DavItem, p: String)
    requires
        q.is_member,
        q.path == Some(p),
        p@.len() > 0,
        q.resource == Some(r),
    ensures
        !r.is_container && q.item_found ==> delete_check(q) == Ok::<DeleteTarget, DeleteError>(
            DeleteTarget::Item { document: r.document_id, container: r.parent_id->0 },
        ),
        r.is_container && q.container_rights is Some && !(q.home == DeleteHome::Calendar && q.is_default_calendar)
            ==> delete_check(q) == Ok::<DeleteTarget, DeleteError>(DeleteTarget::Container { document: r.document_id }),
        delete_check(q) != Err::<DeleteTarget, DeleteError>(DeleteError::Status(403)),
{
}

/// A user who is not a member deletes an item only with the right to
/// remove items from its container, and a container only with the rights
/// to delete it and to remove what it holds.
pub proof fn lemma_delete_needs_rights(q: DeleteRequest)
    requires
        !q.is_member,
        q.resource is Some,
    ensures
        delete_check(q) matches Ok(DeleteTarget::Item { container, .. }) ==> rights_on(q.rights@, container).has(
            Acl::RemoveItems,
        ),
        delete_check(q) matches Ok(DeleteTarget::Container { .. }) ==> q.container_rights matches Some(a) && a.has(
            Acl::Delete,
        ) && a.has(Acl::RemoveItems),
{
}
} // verus!
