//! The checks of GET, HEAD and MKCOL requests on calendars and address
//! books: which status refuses a request, from what is known of the
//! resource and the user's rights.
//!
//! Resolving the URI and reading the resources are done by the caller,
//! which hands in the outcome.
use vstd::prelude::*;

use crate::acl::{Acl, AclSet};
use crate::copy_move::{DavItem, may, rights_of};
use crate::text::{chars_of, find_char, has_char};

verus! {

/// What is known of a GET or HEAD request on an event or a card.
#[derive(Debug, Clone, PartialEq, Eq)]
pub struct GetRequest {
    /// The path below the account, when the URI names one.
    pub path: Option<String>,
    /// The resource at the path, if any.
    pub resource: Option<DavItem>,
    /// Whether the user is a member of the account.
    pub is_member: bool,
    /// The user's effective rights on the account's containers.
    pub rights: Vec<(u32, AclSet)>,
    /// Whether the item is still stored.
    pub item_found: bool,
}

/// The checks of a GET or HEAD, in order: the URI must name a path (405)
/// of an existing resource (404) that is not a container (405); the user
/// must be a member or may read the items of its container (403); and the
/// item must still be stored (404). On success, the item's document.
pub open spec fn get_check(q: GetRequest) -> Result<u32, u16> {
    match q.path {
        None => Err(405),
        Some(_) => match q.resource {
            None => Err(404),
            Some(r) => if r.is_container {
                Err(405)
            } else if !may(q.is_member, q.rights@, r.parent_id->0, Acl::ReadItems) {
                Err(403)
            } else if !q.item_found {
                Err(404)
            } else {
                Ok(r.document_id)
            },
        },
    }
}

/// Checks a GET or HEAD request, as `get_check` says.
pub fn check_get(q: &GetRequest) -> (r: Result<u32, u16>)
    requires
        q.resource is Some && !q.resource->0.is_container ==> q.resource->0.parent_id is Some,
    ensures
        r == get_check(*q),
{
    if q.path.is_none() {
        return Err(405);
    }
    let r = match &q.resource {
        None => {
            return Err(404);
        },
        Some(r) => r,
    };
    if r.is_container {
        return Err(405);
    }
    let container = match r.parent_id {
        Some(c) => c,
        None => 0,
    };
    if !(q.is_member || rights_of(&q.rights, container).contains(Acl::ReadItems)) {
        Err(403)
    } else if !q.item_found {
        Err(404)
    } else {
        Ok(r.document_id)
    }
}

/// The checks of a MKCOL creating a calendar named `name`, in order: the URI
/// must name one (403); only members of the account may create calendars
/// (403); and the name may not hold a `/` nor be taken (405). `taken` says
/// whether a resource has the name.
pub open spec fn mkcol_check(name: Option<Seq<char>>, is_member: bool, taken: bool) -> Result<(), u16> {
    match name {
        None => Err(403),
        Some(n) => if !is_member {
            Err(403)
        } else if has_char(n, '/') || taken {
            Err(405)
        } else {
            Ok(())
        },
    }
}

/// Checks a MKCOL request, as `mkcol_check` says.
pub fn check_mkcol(name: Option<&str>, is_member: bool, taken: bool) -> (r: Result<(), u16>)
    ensures
        r == mkcol_check(
            match name {
                Some(n) => Some(n@),
                None => None,
            },
            is_member,
            taken,
        ),
{
    match name {
        None => Err(403),
        Some(n) => {
            if !is_member {
                return Err(403);
            }
            let cs = chars_of(n);
            if find_char(cs.as_slice(), '/').is_some() || taken {
                Err(405)
            } else {
                Ok(())
            }
        },
    }
}

} // verus!
