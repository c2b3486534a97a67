//! Access control lists: the WebDAV privileges a client grants in an ACL
//! request, mapped to the access rights that the store keeps, and back.
//!
//! The rights, privileges and access control entries are held here as plain
//! values with what the mapping reads. Resolving a principal's address to an
//! account is done by the caller, which hands in the outcome.
use vstd::prelude::*;

use crate::resource_uri::{current_user_principal, principal_path};
use crate::text::{decimal, decimal_chars, string_from_chars};

verus! {

/// Access rights on a container, as the store keeps them.
#[derive(Debug, Clone, Copy, PartialEq, Eq, Structural)]
pub enum Acl {
    Read,
    Write,
    Modify,
    Delete,
    ReadItems,
    AddItems,
    ModifyItems,
    RemoveItems,
    Administer,
    SchedulingReadFreeBusy,
    SchedulingInvite,
    SchedulingReply,
}

/// A set of access rights.
#[derive(Debug, Clone, Copy, PartialEq, Eq, Structural)]
pub struct AclSet {
    pub read: bool,
    pub write: bool,
    pub modify: bool,
    pub delete: bool,
    pub read_items: bool,
    pub add_items: bool,
    pub modify_items: bool,
    pub remove_items: bool,
    pub administer: bool,
    pub scheduling_read_free_busy: bool,
    pub scheduling_invite: bool,
    pub scheduling_reply: bool,
}

/// The empty set of rights.
pub open spec fn no_rights() -> AclSet {
    AclSet {
        read: false,
        write: false,
        modify: false,
        delete: false,
        read_items: false,
        add_items: false,
        modify_items: false,
        remove_items: false,
        administer: false,
        scheduling_read_free_busy: false,
        scheduling_invite: false,
        scheduling_reply: false,
    }
}

/// The rights of both sets.
pub open spec fn union(a: AclSet, b: AclSet) -> AclSet {
    AclSet {
        read: a.read || b.read,
        write: a.write || b.write,
        modify: a.modify || b.modify,
        delete: a.delete || b.delete,
        read_items: a.read_items || b.read_items,
        add_items: a.add_items || b.add_items,
        modify_items: a.modify_items || b.modify_items,
        remove_items: a.remove_items || b.remove_items,
        administer: a.administer || b.administer,
        scheduling_read_free_busy: a.scheduling_read_free_busy || b.scheduling_read_free_busy,
        scheduling_invite: a.scheduling_invite || b.scheduling_invite,
        scheduling_reply: a.scheduling_reply || b.scheduling_reply,
    }
}

impl AclSet {
    /// Whether the set holds `acl`.
    pub open spec fn has(self, acl: Acl) -> bool {
        match acl {
            Acl::Read => self.read,
            Acl::Write => self.write,
            Acl::Modify => self.modify,
            Acl::Delete => self.delete,
            Acl::ReadItems => self.read_items,
            Acl::AddItems => self.add_items,
            Acl::ModifyItems => self.modify_items,
            Acl::RemoveItems => self.remove_items,
            Acl::Administer => self.administer,
            Acl::SchedulingReadFreeBusy => self.scheduling_read_free_busy,
            Acl::SchedulingInvite => self.scheduling_invite,
            Acl::SchedulingReply => self.scheduling_reply,
        }
    }

    /// The set with `acl` added.
    pub open spec fn with(self, acl: Acl) -> AclSet {
        AclSet {
            read: self.read || acl == Acl::Read,
            write: self.write || acl == Acl::Write,
            modify: self.modify || acl == Acl::Modify,
            delete: self.delete || acl == Acl::Delete,
            read_items: self.read_items || acl == Acl::ReadItems,
            add_items: self.add_items || acl == Acl::AddItems,
            modify_items: self.modify_items || acl == Acl::ModifyItems,
            remove_items: self.remove_items || acl == Acl::RemoveItems,
            administer: self.administer || acl == Acl::Administer,
            scheduling_read_free_busy: self.scheduling_read_free_busy || acl == Acl::SchedulingReadFreeBusy,
            scheduling_invite: self.scheduling_invite || acl == Acl::SchedulingInvite,
            scheduling_reply: self.scheduling_reply || acl == Acl::SchedulingReply,
        }
    }

    /// The empty set.
    pub fn empty() -> (r: AclSet)
        ensures
            r == no_rights(),
    {
        AclSet {
            read: false,
            write: false,
            modify: false,
            delete: false,
            read_items: false,
            add_items: false,
            modify_items: false,
            remove_items: false,
            administer: false,
            scheduling_read_free_busy: false,
            scheduling_invite: false,
            scheduling_reply: false,
        }
    }

    /// Adds `acl` to the set.
    pub fn insert(&mut self, acl: Acl)
        ensures
            *final(self) == old(self).with(acl),
    {
        self.read = self.read || acl == Acl::Read;
        self.write = self.write || acl == Acl::Write;
        self.modify = self.modify || acl == Acl::Modify;
        self.delete = self.delete || acl == Acl::Delete;
        self.read_items = self.read_items || acl == Acl::ReadItems;
        self.add_items = self.add_items || acl == Acl::AddItems;
        self.modify_items = self.modify_items || acl == Acl::ModifyItems;
        self.remove_items = self.remove_items || acl == Acl::RemoveItems;
        self.administer = self.administer || acl == Acl::Administer;
        self.scheduling_read_free_busy = self.scheduling_read_free_busy || acl == Acl::SchedulingReadFreeBusy;
        self.scheduling_invite = self.scheduling_invite || acl == Acl::SchedulingInvite;
        self.scheduling_reply = self.scheduling_reply || acl == Acl::SchedulingReply;
    }

    /// Adds every right of `other` to the set.
    pub fn insert_all(&mut self, other: &AclSet)
        ensures
            *final(self) == union(*old(self), *other),
    {
        self.read = self.read || other.read;
        self.write = self.write || other.write;
        self.modify = self.modify || other.modify;
        self.delete = self.delete || other.delete;
        self.read_items = self.read_items || other.read_items;
        self.add_items = self.add_items || other.add_items;
        self.modify_items = self.modify_items || other.modify_items;
        self.remove_items = self.remove_items || other.remove_items;
        self.administer = self.administer || other.administer;
        self.scheduling_read_free_busy = self.scheduling_read_free_busy || other.scheduling_read_free_busy;
        self.scheduling_invite = self.scheduling_invite || other.scheduling_invite;
        self.scheduling_reply = self.scheduling_reply || other.scheduling_reply;
    }

    /// Whether the set holds `acl`.
    pub fn contains(&self, acl: Acl) -> (r: bool)
        ensures
            r == self.has(acl),
    {
        match acl {
            Acl::Read => self.read,
            Acl::Write => self.write,
            Acl::Modify => self.modify,
            Acl::Delete => self.delete,
            Acl::ReadItems => self.read_items,
            Acl::AddItems => self.add_items,
            Acl::ModifyItems => self.modify_items,
            Acl::RemoveItems => self.remove_items,
            Acl::Administer => self.administer,
            Acl::SchedulingReadFreeBusy => self.scheduling_read_free_busy,
            Acl::SchedulingInvite => self.scheduling_invite,
            Acl::SchedulingReply => self.scheduling_reply,
        }
    }

    /// Whether the set holds no right.
    pub fn is_empty(&self) -> (r: bool)
        ensures
            r == (*self == no_rights()),
    {
        !(self.read || self.write || self.modify || self.delete || self.read_items || self.add_items
            || self.modify_items || self.remove_items || self.administer || self.scheduling_read_free_busy
            || self.scheduling_invite || self.scheduling_reply)
    }
}

/// WebDAV privileges, as an ACL request names them.
#[derive(Debug, Clone, Copy, PartialEq, Eq, Structural)]
pub enum Privilege {
    Read,
    Write,
    WriteProperties,
    WriteContent,
    Unlock,
    ReadAcl,
    ReadCurrentUserPrivilegeSet,
    WriteAcl,
    Bind,
    Unbind,
    All,
    ReadFreeBusy,
    ScheduleQueryFreeBusy,
    ScheduleSendFreeBusy,
    ScheduleDeliver,
    ScheduleDeliverInvite,
    ScheduleDeliverReply,
    ScheduleSend,
    ScheduleSendInvite,
    ScheduleSendReply,
}

/// Why an access control entry is refused; each is answered with 403.
#[derive(Debug, Clone, Copy, PartialEq, Eq, Structural)]
pub enum AclCondition {
    /// Inverted entries are not supported.
    NoInvert,
    /// Only grants are supported, no denials.
    GrantOnly,
    /// The principal is not a known individual or group.
    AllowedPrincipal,
    /// The abstract `all` privilege cannot be granted.
    NoAbstract,
    /// Scheduling privileges exist on calendars only.
    NotSupportedPrivilege,
}

/// The principal an entry is about.
#[derive(Debug, Clone, PartialEq, Eq)]
pub enum Principal {
    Href(String),
    All,
    Authenticated,
    Unauthenticated,
    Property,
    Self_,
}

/// Whether an entry grants or denies its privileges.
#[derive(Debug, Clone, PartialEq, Eq)]
pub enum GrantDeny {
    Grant(Vec<Privilege>),
    Deny(Vec<Privilege>),
}

/// An access control entry of an ACL request.
#[derive(Debug, Clone, PartialEq, Eq)]
pub struct Ace {
    pub principal: Principal,
    pub grant_deny: GrantDeny,
    pub invert: bool,
}

/// Rights granted to an account.
#[derive(Debug, Clone, Copy, PartialEq, Eq, Structural)]
pub struct AclGrant {
    pub account_id: u32,
    pub grants: AclSet,
}

/// The rights a privilege grants on a calendar (when `is_calendar`) or on
/// another collection, or why it cannot be granted: `all` is abstract, and
/// the scheduling privileges exist on calendars only.
pub open spec fn privilege_rights(p: Privilege, is_calendar: bool) -> Result<AclSet, AclCondition> {
    match p {
        Privilege::Read => Ok(no_rights().with(Acl::Read).with(Acl::ReadItems)),
        Privilege::Write => Ok(
            no_rights().with(Acl::Modify).with(Acl::Delete).with(Acl::AddItems).with(Acl::ModifyItems).with(Acl::RemoveItems),
        ),
        Privilege::WriteContent => Ok(no_rights().with(Acl::AddItems).with(Acl::Modify).with(Acl::ModifyItems)),
        Privilege::WriteProperties => Ok(no_rights().with(Acl::Modify)),
        Privilege::ReadCurrentUserPrivilegeSet | Privilege::Unlock | Privilege::Bind | Privilege::Unbind
        | Privilege::ReadAcl => Ok(no_rights()),
        Privilege::All => Err(AclCondition::NoAbstract),
        Privilege::WriteAcl => Ok(no_rights().with(Acl::Administer)),
        Privilege::ReadFreeBusy | Privilege::ScheduleQueryFreeBusy | Privilege::ScheduleSendFreeBusy => if is_calendar {
            Ok(no_rights().with(Acl::SchedulingReadFreeBusy))
        } else {
            Err(AclCondition::NotSupportedPrivilege)
        },
        Privilege::ScheduleDeliver | Privilege::ScheduleSend => if is_calendar {
            Ok(no_rights().with(Acl::SchedulingReadFreeBusy).with(Acl::SchedulingInvite).with(Acl::SchedulingReply))
        } else {
            Err(AclCondition::NotSupportedPrivilege)
        },
        Privilege::ScheduleDeliverInvite | Privilege::ScheduleSendInvite => if is_calendar {
            Ok(no_rights().with(Acl::SchedulingInvite))
        } else {
            Err(AclCondition::NotSupportedPrivilege)
        },
        Privilege::ScheduleDeliverReply | Privilege::ScheduleSendReply => if is_calendar {
            Ok(no_rights().with(Acl::SchedulingReply))
        } else {
            Err(AclCondition::NotSupportedPrivilege)
        },
    }
}

/// The rights granted by a list of privileges: the union of each one's, or
/// the refusal of the first that cannot be granted.
pub open spec fn privileges_rights(ps: Seq<Privilege>, is_calendar: bool) -> Result<AclSet, AclCondition>
    decreases ps.len(),
{
    if ps.len() == 0 {
        Ok(no_rights())
    } else {
        match privileges_rights(ps.drop_last(), is_calendar) {
            Err(c) => Err(c),
            Ok(s) => match privilege_rights(ps.last(), is_calendar) {
                Err(c) => Err(c),
                Ok(t) => Ok(union(s, t)),
            },
        }
    }
}

/// The rights granted by one privilege, or why it cannot be granted.
pub fn privilege_acls(p: Privilege, is_calendar: bool) -> (r: Result<AclSet, AclCondition>)
    ensures
        r == privilege_rights(p, is_calendar),
{
    let mut a = AclSet::empty();
    match p {
        Privilege::Read => {
            a.insert(Acl::Read);
            a.insert(Acl::ReadItems);
        },
        Privilege::Write => {
            a.insert(Acl::Modify);
            a.insert(Acl::Delete);
            a.insert(Acl::AddItems);
            a.insert(Acl::ModifyItems);
            a.insert(Acl::RemoveItems);
        },
        Privilege::WriteContent => {
            a.insert(Acl::AddItems);
            a.insert(Acl::Modify);
            a.insert(Acl::ModifyItems);
        },
        Privilege::WriteProperties => {
            a.insert(Acl::Modify);
        },
        Privilege::ReadCurrentUserPrivilegeSet | Privilege::Unlock | Privilege::Bind | Privilege::Unbind => {},
        Privilege::All => {
            return Err(AclCondition::NoAbstract);
        },
        Privilege::ReadAcl => {},
        Privilege::WriteAcl => {
            a.insert(Acl::Administer);
        },
        Privilege::ReadFreeBusy | Privilege::ScheduleQueryFreeBusy | Privilege::ScheduleSendFreeBusy => {
            if is_calendar {
                a.insert(Acl::SchedulingReadFreeBusy);
            } else {
                return Err(AclCondition::NotSupportedPrivilege);
            }
        },
        Privilege::ScheduleDeliver | Privilege::ScheduleSend => {
            if is_calendar {
                a.insert(Acl::SchedulingReadFreeBusy);
                a.insert(Acl::SchedulingInvite);
                a.insert(Acl::SchedulingReply);
            } else {
                return Err(AclCondition::NotSupportedPrivilege);
            }
        },
        Privilege::ScheduleDeliverInvite | Privilege::ScheduleSendInvite => {
            if is_calendar {
                a.insert(Acl::SchedulingInvite);
            } else {
                return Err(AclCondition::NotSupportedPrivilege);
            }
        },
        Privilege::ScheduleDeliverReply | Privilege::ScheduleSendReply => {
            if is_calendar {
                a.insert(Acl::SchedulingReply);
            } else {
                return Err(AclCondition::NotSupportedPrivilege);
            }
        },
    }
    Ok(a)
}

/// The rights granted by a list of privileges, or the refusal of the first
/// that cannot be granted.
pub fn map_privileges(privileges: &Vec<Privilege>, is_calendar: bool) -> (r: Result<AclSet, AclCondition>)
    ensures
        r == privileges_rights(privileges@, is_calendar),
{
    let mut acls = AclSet::empty();
    let mut i: usize = 0;
    assert(privileges@.take(0) =~= Seq::<Privilege>::empty());
    while i < privileges.len()
        invariant
            i <= privileges@.len(),
            privileges_rights(privileges@.take(i as int), is_calendar) == Ok::<AclSet, AclCondition>(acls),
        decreases privileges@.len() - i,
    {
        assert(privileges@.take(i + 1).drop_last() =~= privileges@.take(i as int));
        assert(privileges@.take(i + 1).last() == privileges@[i as int]);
        match privilege_acls(privileges[i], is_calendar) {
            Ok(a) => {
                acls.insert_all(&a);
            },
            Err(c) => {
                proof {
                    lemma_rights_refusal_stays(privileges@, is_calendar, i as int + 1);
                }
                return Err(c);
            },
        }
        i = i + 1;
    }
    assert(privileges@.take(privileges@.len() as int) =~= privileges@);
    Ok(acls)
}

/// A refusal among the first `n` privileges is the refusal of the whole
/// list.
proof fn lemma_rights_refusal_stays(ps: Seq<Privilege>, is_calendar: bool, n: int)
    requires
        0 <= n <= ps.len(),
        privileges_rights(ps.take(n), is_calendar) is Err,
    ensures
        privileges_rights(ps, is_calendar) == privileges_rights(ps.take(n), is_calendar),
    decreases ps.len() - n,
{
    if n < ps.len() {
        assert(ps.take(n + 1).drop_last() =~= ps.take(n));
        lemma_rights_refusal_stays(ps, is_calendar, n + 1);
    } else {
        assert(ps.take(n) =~= ps);
    }
}

/// What an access control entry asks for, before its principal is resolved:
/// inverted entries, denials and principals other than an address are
/// refused, in that order; then the privileges are mapped. `None` stands for
/// an entry that grants no right and is skipped.
pub open spec fn ace_request(ace: Ace, is_calendar: bool) -> Result<Option<(Seq<char>, AclSet)>, AclCondition> {
    if ace.invert {
        Err(AclCondition::NoInvert)
    } else {
        match ace.grant_deny {
            GrantDeny::Deny(_) => Err(AclCondition::GrantOnly),
            GrantDeny::Grant(ps) => match ace.principal {
                Principal::Href(href) => match privileges_rights(ps@, is_calendar) {
                    Err(c) => Err(c),
                    Ok(s) => if s == no_rights() {
                        Ok(None)
                    } else {
                        Ok(Some((href@, s)))
                    },
                },
                _ => Err(AclCondition::AllowedPrincipal),
            },
        }
    }
}

/// Checks an access control entry and maps its privileges; `None` for an
/// entry that grants no right.
pub fn check_ace(ace: &Ace, is_calendar: bool) -> (r: Result<Option<(String, AclSet)>, AclCondition>)
    ensures
        match ace_request(*ace, is_calendar) {
            Err(c) => r == Err::<Option<(String, AclSet)>, AclCondition>(c),
            Ok(None) => r == Ok::<Option<(String, AclSet)>, AclCondition>(None),
            Ok(Some((href, s))) => r matches Ok(Some((h, a))) && h@ == href && a == s,
        },
{
    if ace.invert {
        return Err(AclCondition::NoInvert);
    }
    let privileges = match &ace.grant_deny {
        GrantDeny::Grant(list) => list,
        GrantDeny::Deny(_) => {
            return Err(AclCondition::GrantOnly);
        },
    };
    let href = match &ace.principal {
        Principal::Href(h) => h,
        _ => {
            return Err(AclCondition::AllowedPrincipal);
        },
    };
    let acls = match map_privileges(privileges, is_calendar) {
        Ok(a) => a,
        Err(c) => {
            return Err(c);
        },
    };
    if acls.is_empty() {
        return Ok(None);
    }
    Ok(Some((href.clone(), acls)))
}

/// The grants of an ACL request, entry by entry: an entry is refused as
/// `check_ace` refuses it, skipped when it grants no right, and otherwise
/// granted to the account its principal resolves to; `principals[i]` is
/// that account for entry `i`, `None` when the address names no individual
/// or group, which refuses the entry. The first refusal ends the request.
pub open spec fn mapped_grants(
    aces: Seq<Ace>,
    principals: Seq<Option<u32>>,
    is_calendar: bool,
) -> Result<Seq<AclGrant>, AclCondition>
    decreases aces.len(),
{
    if aces.len() == 0 {
        Ok(Seq::empty())
    } else {
        let n = aces.len() - 1;
        match mapped_grants(aces.drop_last(), principals, is_calendar) {
            Err(c) => Err(c),
            Ok(gs) => match ace_request(aces[n], is_calendar) {
                Err(c) => Err(c),
                Ok(None) => Ok(gs),
                Ok(Some((_, s))) => match principals[n] {
                    None => Err(AclCondition::AllowedPrincipal),
                    Some(id) => Ok(gs.push(AclGrant { account_id: id, grants: s })),
                },
            },
        }
    }
}

/// Validates the entries of an ACL request and maps them to grants, given
/// the account each entry's principal resolves to.
pub fn validate_and_map_aces(aces: &Vec<Ace>, principals: &Vec<Option<u32>>, is_calendar: bool) -> (r: Result<
    Vec<AclGrant>,
    AclCondition,
>)
    requires
        principals@.len() == aces@.len(),
    ensures
        match mapped_grants(aces@, principals@, is_calendar) {
            Ok(gs) => r matches Ok(v) && v@ == gs,
            Err(c) => r == Err::<Vec<AclGrant>, AclCondition>(c),
        },
{
    let mut grants: Vec<AclGrant> = Vec::new();
    let mut i: usize = 0;
    assert(aces@.take(0) =~= Seq::<Ace>::empty());
    while i < aces.len()
        invariant
            i <= aces@.len(),
            principals@.len() == aces@.len(),
            mapped_grants(aces@.take(i as int), principals@, is_calendar) == Ok::<Seq<AclGrant>, AclCondition>(
                grants@,
            ),
        decreases aces@.len() - i,
    {
        assert(aces@.take(i + 1).drop_last() =~= aces@.take(i as int));
        assert(aces@.take(i + 1)[i as int] == aces@[i as int]);
        match check_ace(&aces[i], is_calendar) {
            Err(c) => {
                proof {
                    lemma_grants_refusal_stays(aces@, principals@, is_calendar, i as int + 1);
                }
                return Err(c);
            },
            Ok(None) => {},
            Ok(Some((_, acls))) => match principals[i] {
                None => {
                    proof {
                        lemma_grants_refusal_stays(aces@, principals@, is_calendar, i as int + 1);
                    }
                    return Err(AclCondition::AllowedPrincipal);
                },
                Some(id) => {
                    grants.push(AclGrant { account_id: id, grants: acls });
                },
            },
        }
        i = i + 1;
    }
    assert(aces@.take(aces@.len() as int) =~= aces@);
    Ok(grants)
}

/// A refusal among the first `n` entries is the refusal of the request.
proof fn lemma_grants_refusal_stays(aces: Seq<Ace>, principals: Seq<Option<u32>>, is_calendar: bool, n: int)
    requires
        0 <= n <= aces.len(),
        mapped_grants(aces.take(n), principals, is_calendar) is Err,
    ensures
        mapped_grants(aces, principals, is_calendar) == mapped_grants(aces.take(n), principals, is_calendar),
    decreases aces.len() - n,
{
    if n < aces.len() {
        assert(aces.take(n + 1).drop_last() =~= aces.take(n));
        assert(aces.take(n + 1)[n] == aces[n]);
        lemma_grants_refusal_stays(aces, principals, is_calendar, n + 1);
    } else {
        assert(aces.take(n) =~= aces);
    }
}

/// Whether the current user has privilege `p` given the rights `acls` it
/// holds: reading from read rights, writing from delete or item removal,
/// content writing from item modification, property writing from
/// modification, the ACL privileges from administration, and free-busy
/// reading from its scheduling right.
pub open spec fn user_privilege(acls: AclSet, p: Privilege) -> bool {
    match p {
        Privilege::Read | Privilege::ReadCurrentUserPrivilegeSet => acls.has(Acl::Read) || acls.has(
            Acl::ReadItems,
        ),
        Privilege::WriteProperties => acls.has(Acl::Modify),
        Privilege::WriteContent => acls.has(Acl::ModifyItems),
        Privilege::Write => acls.has(Acl::Delete) || acls.has(Acl::RemoveItems),
        Privilege::ReadAcl | Privilege::WriteAcl => acls.has(Acl::Administer),
        Privilege::ReadFreeBusy => acls.has(Acl::SchedulingReadFreeBusy),
        _ => false,
    }
}

/// Appends a privilege that the list does not hold yet.
fn push_new(r: &mut Vec<Privilege>, p: Privilege)
    requires
        old(r)@.no_duplicates(),
        !old(r)@.contains(p),
    ensures
        final(r)@.no_duplicates(),
        forall|q: Privilege| #[trigger] final(r)@.contains(q) <==> (old(r)@.contains(q) || q == p),
{
    broadcast use vstd::seq_lib::lemma_seq_contains_after_push;
    let ghost before = r@;
    r.push(p);
    assert forall|a: int, b: int| 0 <= a < b < r@.len() implies r@[a] != r@[b] by {
        if b == r@.len() - 1 {
            assert(before[a] == r@[a]);
            assert(before.contains(r@[a]));
        }
    }
}

/// The privileges the current user has given the rights it holds, each
/// once.
pub fn current_user_privilege_set(acls: &AclSet) -> (r: Vec<Privilege>)
    ensures
        r@.no_duplicates(),
        forall|p: Privilege| r@.contains(p) <==> user_privilege(*acls, p),
{
    let mut r: Vec<Privilege> = Vec::new();
    let read = acls.contains(Acl::Read) || acls.contains(Acl::ReadItems);
    let modify = acls.contains(Acl::Modify);
    let modify_items = acls.contains(Acl::ModifyItems);
    let write = acls.contains(Acl::Delete) || acls.contains(Acl::RemoveItems);
    let administer = acls.contains(Acl::Administer);
    let free_busy = acls.contains(Acl::SchedulingReadFreeBusy);
    if read {
        push_new(&mut r, Privilege::Read);
        push_new(&mut r, Privilege::ReadCurrentUserPrivilegeSet);
    }
    if modify {
        push_new(&mut r, Privilege::WriteProperties);
    }
    if modify_items {
        push_new(&mut r, Privilege::WriteContent);
    }
    if write {
        push_new(&mut r, Privilege::Write);
    }
    if administer {
        push_new(&mut r, Privilege::ReadAcl);
        push_new(&mut r, Privilege::WriteAcl);
    }
    if free_busy {
        push_new(&mut r, Privilege::ReadFreeBusy);
    }
    r
}

/// The principal path of the account a grant is for: by the account's
/// name when the directory knows it, else by `_` and its id.
pub open spec fn grant_href(account_id: u32, name: Option<Seq<char>>) -> Seq<char> {
    principal_path(
        match name {
            Some(n) => n,
            None => seq!['_'] + decimal(account_id as nat),
        },
    )
}

/// The name known for the `i`-th grant, if any.
pub open spec fn name_at(names: Seq<Option<String>>, i: int) -> Option<Seq<char>> {
    if 0 <= i < names.len() {
        match names[i] {
            Some(n) => Some(n@),
            None => None,
        }
    } else {
        None
    }
}

/// Whether entry `a` shows grant `g`: a grant, not inverted, to the
/// principal path of the grant's account, of exactly the privileges the
/// grant's rights give.
pub open spec fn shows_grant(a: Ace, g: AclGrant, name: Option<Seq<char>>) -> bool {
    &&& !a.invert
    &&& a.principal matches Principal::Href(h) && h@ == grant_href(g.account_id, name)
    &&& a.grant_deny matches GrantDeny::Grant(ps) && ps@.no_duplicates() && forall|p: Privilege|
        ps@.contains(p) <==> user_privilege(g.grants, p)
}

/// The access control entries shown for a resource's grants, one for each
/// grant in order, to a member of the account or a user who may administer
/// the resource; none to anyone else. `names` holds, for each grant, the
/// account's name when the directory knows it.
pub fn resolve_aces(is_member: bool, effective: &AclSet, grants: &Vec<AclGrant>, names: &Vec<Option<String>>) -> (r: Vec<Ace>)
    ensures
        !(is_member || effective.has(Acl::Administer)) ==> r@.len() == 0,
        (is_member || effective.has(Acl::Administer)) ==> {
            &&& r@.len() == grants@.len()
            &&& forall|i: int| 0 <= i < grants@.len() ==> #[trigger] shows_grant(r@[i], grants@[i], name_at(names@, i))
        },
{
    let mut r: Vec<Ace> = Vec::new();
    if !(is_member || effective.contains(Acl::Administer)) {
        return r;
    }
    let mut i: usize = 0;
    while i < grants.len()
        invariant
            i <= grants@.len(),
            r@.len() == i,
            forall|k: int| 0 <= k < i ==> #[trigger] shows_grant(r@[k], grants@[k], name_at(names@, k)),
        decreases grants@.len() - i,
    {
        let g = grants[i];
        let name: String = if i < names.len() {
            match &names[i] {
                Some(n) => string_from_chars(crate::text::chars_of(n.as_str()).as_slice()),
                None => fallback_name(g.account_id),
            }
        } else {
            fallback_name(g.account_id)
        };
        assert(Some(name@) == name_at(names@, i as int) || (name_at(names@, i as int) is None && name@ == seq!['_'] + decimal(g.account_id as nat)));
        let href = current_user_principal(name.as_str());
        let privileges = current_user_privilege_set(&g.grants);
        let ace = Ace { principal: Principal::Href(href), grant_deny: GrantDeny::Grant(privileges), invert: false };
        assert(shows_grant(ace, grants@[i as int], name_at(names@, i as int)));
        r.push(ace);
        i = i + 1;
    }
    r
}

/// The name by which an account without a known name is shown: `_` and
/// its id.
fn fallback_name(account_id: u32) -> (r: String)
    ensures
        r@ == seq!['_'] + decimal(account_id as nat),
{
    let mut cs: Vec<char> = vec!['_'];
    let digits = decimal_chars(account_id as u64);
    crate::text::append_chars(&mut cs, digits.as_slice());
    string_from_chars(cs.as_slice())
}

/// The parent that a new resource gets: with a parent, a member of the
/// account or a user with the checked rights on the parent (`has_access`)
/// gets the parent's id plus one; without one, only a member gets the root,
/// zero. Others are refused with 403.
pub fn validate_and_map_parent_acl(is_member: bool, parent_id: Option<u32>, has_access: bool) -> (r: Result<
    u32,
    u16,
>)
    requires
        parent_id matches Some(p) ==> p < u32::MAX,
    ensures
        r == match parent_id {
            Some(p) => if is_member || has_access {
                Ok::<u32, u16>((p + 1) as u32)
            } else {
                Err(403)
            },
            None => if is_member {
                Ok::<u32, u16>(0)
            } else {
                Err(403)
            },
        },
{
    match parent_id {
        Some(p) => {
            if is_member || has_access {
                Ok(p + 1)
            } else {
                Err(403)
            }
        },
        None => {
            if is_member {
                Ok(0)
            } else {
                Err(403)
            }
        },
    }
}


/// The kind of collection an ACL request is about.
#[derive(Debug, Clone, Copy, PartialEq, Eq, Structural)]
pub enum AclCollection {
    Calendar,
    AddressBook,
    FileNode,
    /// Any other collection, which holds no ACL.
    Other,
}

/// The answer to a request that changes an ACL, before its entries are
/// read: only calendars, address books and file nodes hold ACLs (403);
/// the resource must exist (404, `resource` is whether it is a container);
/// only containers hold ACLs, but for file nodes (403); and the user must
/// be a member of the account or administer the resource (403).
pub open spec fn acl_change_check(
    collection: AclCollection,
    resource: Option<bool>,
    is_member: bool,
    effective: AclSet,
) -> Result<(), u16> {
    if collection == AclCollection::Other {
        Err(403)
    } else {
        match resource {
            None => Err(404),
            Some(is_container) => if !is_container && collection != AclCollection::FileNode {
                Err(403)
            } else if !is_member && !effective.has(Acl::Administer) {
                Err(403)
            } else {
                Ok(())
            },
        }
    }
}

/// Checks a request that changes an ACL, as `acl_change_check` says.
pub fn check_acl_change(collection: AclCollection, resource: Option<bool>, is_member: bool, effective: &AclSet) -> (r:
    Result<(), u16>)
    ensures
        r == acl_change_check(collection, resource, is_member, *effective),
{
    if collection == AclCollection::Other {
        return Err(403);
    }
    match resource {
        None => Err(404),
        Some(is_container) => {
            if !is_container && collection != AclCollection::FileNode {
                Err(403)
            } else if !is_member && !effective.contains(Acl::Administer) {
                Err(403)
            } else {
                Ok(())
            }
        },
    }
}

/// The answer to a request that reads who an ACL names: the resource must
/// exist (404), only calendars, address books and file nodes hold ACLs
/// (403), and the user must be a member of the account or may read the
/// resource (403).
pub open spec fn acl_read_check(collection: AclCollection, found: bool, is_member: bool, effective: AclSet) -> Result<
    (),
    u16,
> {
    if !found {
        Err(404)
    } else if collection == AclCollection::Other {
        Err(403)
    } else if !is_member && !effective.has(Acl::Read) {
        Err(403)
    } else {
        Ok(())
    }
}

/// Checks a request that reads who an ACL names, as `acl_read_check` says.
pub fn check_acl_read(collection: AclCollection, found: bool, is_member: bool, effective: &AclSet) -> (r: Result<
    (),
    u16,
>)
    ensures
        r == acl_read_check(collection, found, is_member, *effective),
{
    if !found {
        Err(404)
    } else if collection == AclCollection::Other {
        Err(403)
    } else if !is_member && !effective.contains(Acl::Read) {
        Err(403)
    } else {
        Ok(())
    }
}

/// Whether new grants differ from the current ones, so that the ACL must be
/// written.
pub fn grants_changed(current: &Vec<AclGrant>, new: &Vec<AclGrant>) -> (r: bool)
    ensures
        r == (current@ != new@),
{
    if current.len() != new.len() {
        return true;
    }
    let mut i: usize = 0;
    while i < current.len()
        invariant
            current@.len() == new@.len(),
            i <= current@.len(),
            forall|j: int| 0 <= j < i ==> current@[j] == new@[j],
        decreases current@.len() - i,
    {
        if current[i] != new[i] {
            return true;
        }
        i = i + 1;
    }
    assert(current@ =~= new@);
    false
}

/// The accounts that grants name, each once, in ascending order.
pub fn principal_ids(grants: &Vec<AclGrant>) -> (r: Vec<u32>)
    ensures
        forall|i: int, j: int| 0 <= i < j < r@.len() ==> r@[i] < r@[j],
        forall|id: u32| r@.contains(id) <==> exists|k: int| 0 <= k < grants@.len() && #[trigger] grants@[k].account_id == id,
{
    let mut r: Vec<u32> = Vec::new();
    let mut k: usize = 0;
    while k < grants.len()
        invariant
            k <= grants@.len(),
            forall|i: int, j: int| 0 <= i < j < r@.len() ==> r@[i] < r@[j],
            forall|id: u32| r@.contains(id) <==> exists|m: int| 0 <= m < k && #[trigger] grants@[m].account_id == id,
        decreases grants@.len() - k,
    {
        let id = grants[k].account_id;
        let ghost before = r@;
        let mut pos: usize = 0;
        while pos < r.len() && r[pos] < id
            invariant
                pos <= r@.len(),
                r@ == before,
                forall|j: int| 0 <= j < pos ==> r@[j] < id,
            decreases r@.len() - pos,
        {
            pos = pos + 1;
        }
        if pos < r.len() && r[pos] == id {
            proof {
                assert forall|x: u32| r@.contains(x) <==> exists|m: int| 0 <= m < k + 1 && #[trigger] grants@[m].account_id == x by {
                    if x == id {
                        assert(r@[pos as int] == id);
                        assert(grants@[k as int].account_id == id);
                    } else {
                        if exists|m: int| 0 <= m < k + 1 && #[trigger] grants@[m].account_id == x {
                            let m = choose|m: int| 0 <= m < k + 1 && #[trigger] grants@[m].account_id == x;
                            assert(m != k);
                            assert(exists|m2: int| 0 <= m2 < k && #[trigger] grants@[m2].account_id == x);
                        }
                    }
                }
            }
        } else {
            r.insert(pos, id);
            proof {
                assert forall|i: int, j: int| 0 <= i < j < r@.len() implies r@[i] < r@[j] by {
                    if j < pos {
                    } else if j == pos {
                        assert(r@[i] == before[i]);
                    } else if i < pos {
                        assert(r@[j] == before[j - 1]);
                        if pos < before.len() {
                            assert(before[pos as int] >= id);
                            assert(before[pos as int] != id);
                            assert(before[i] < before[pos as int] || i == pos);
                        }
                    } else if i == pos {
                        assert(r@[j] == before[j - 1]);
                        assert(before[pos as int] > id);
                        if j - 1 > pos {
                            assert(before[pos as int] < before[j - 1]);
                        }
                    } else {
                        assert(r@[i] == before[i - 1] && r@[j] == before[j - 1]);
                    }
                }
                assert forall|x: u32| r@.contains(x) <==> exists|m: int| 0 <= m < k + 1 && #[trigger] grants@[m].account_id == x by {
                    if x == id {
                        assert(r@[pos as int] == id);
                        assert(grants@[k as int].account_id == id);
                    } else {
                        if r@.contains(x) {
                            let i = choose|i: int| 0 <= i < r@.len() && r@[i] == x;
                            if i < pos {
                                assert(before[i] == x);
                            } else {
                                assert(before[i - 1] == x);
                            }
                            assert(before.contains(x));
                        }
                        if exists|m: int| 0 <= m < k + 1 && #[trigger] grants@[m].account_id == x {
                            let m = choose|m: int| 0 <= m < k + 1 && #[trigger] grants@[m].account_id == x;
                            assert(m != k);
                            assert(exists|m2: int| 0 <= m2 < k && #[trigger] grants@[m2].account_id == x);
                            assert(before.contains(x));
                            let i = choose|i: int| 0 <= i < before.len() && before[i] == x;
                            if i < pos {
                                assert(r@[i] == x);
                            } else {
                                assert(r@[i + 1] == x);
                            }
                        }
                    }
                }
            }
        }
        k = k + 1;
    }
    r
}

} // verus!
