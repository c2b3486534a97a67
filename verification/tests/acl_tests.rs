use dav::acl::{
    check_ace, check_acl_change, check_acl_read, current_user_privilege_set, grants_changed, map_privileges,
    principal_ids, privilege_acls, resolve_aces, validate_and_map_aces, validate_and_map_parent_acl, Ace, Acl, AclCollection,
    AclCondition, AclGrant, AclSet, GrantDeny, Principal, Privilege,
};

fn set_of(acls: &[Acl]) -> AclSet {
    let mut s = AclSet::empty();
    for a in acls {
        s.insert(*a);
    }
    s
}

fn grant(principal: &str, privileges: Vec<Privilege>) -> Ace {
    Ace { principal: Principal::Href(principal.to_string()), grant_deny: GrantDeny::Grant(privileges), invert: false }
}

#[test]
fn test_acl_privileges() {
    assert_eq!(format!("{:?}", Privilege::Read), "Read");
    assert_eq!(format!("{:?}", Privilege::Write), "Write");
    assert_eq!(format!("{:?}", Privilege::WriteProperties), "WriteProperties");
    assert_eq!(format!("{:?}", Privilege::WriteContent), "WriteContent");
    assert_eq!(format!("{:?}", Privilege::ReadAcl), "ReadAcl");
    assert_eq!(format!("{:?}", Privilege::WriteAcl), "WriteAcl");
    assert_eq!(format!("{:?}", Privilege::ReadFreeBusy), "ReadFreeBusy");
}

#[test]
fn test_acl_types() {
    assert_eq!(format!("{:?}", Acl::Read), "Read");
    assert_eq!(format!("{:?}", Acl::Write), "Write");
    assert_eq!(format!("{:?}", Acl::Modify), "Modify");
    assert_eq!(format!("{:?}", Acl::ModifyItems), "ModifyItems");
    assert_eq!(format!("{:?}", Acl::Delete), "Delete");
    assert_eq!(format!("{:?}", Acl::RemoveItems), "RemoveItems");
    assert_eq!(format!("{:?}", Acl::Administer), "Administer");
    assert_eq!(format!("{:?}", Acl::SchedulingReadFreeBusy), "SchedulingReadFreeBusy");
}

#[test]
fn test_acl_principal_types() {
    let href_principal = Principal::Href("/principals/user/".to_string());
    assert!(matches!(href_principal, Principal::Href(_)));
    assert!(matches!(Principal::All, Principal::All));
    assert!(matches!(Principal::Authenticated, Principal::Authenticated));
    assert!(matches!(Principal::Unauthenticated, Principal::Unauthenticated));
    assert!(matches!(Principal::Self_, Principal::Self_));
}

#[test]
fn test_acl_collection_types() {
    assert_eq!(format!("{:?}", AclCollection::Calendar), "Calendar");
    assert_eq!(format!("{:?}", AclCollection::AddressBook), "AddressBook");
    assert_eq!(format!("{:?}", AclCollection::FileNode), "FileNode");
}

#[test]
fn privileges_map_to_rights() {
    assert_eq!(privilege_acls(Privilege::Read, false), Ok(set_of(&[Acl::Read, Acl::ReadItems])));
    assert_eq!(
        privilege_acls(Privilege::Write, false),
        Ok(set_of(&[Acl::Modify, Acl::Delete, Acl::AddItems, Acl::ModifyItems, Acl::RemoveItems]))
    );
    assert_eq!(privilege_acls(Privilege::WriteContent, false), Ok(set_of(&[Acl::AddItems, Acl::Modify, Acl::ModifyItems])));
    assert_eq!(privilege_acls(Privilege::WriteProperties, true), Ok(set_of(&[Acl::Modify])));
    assert_eq!(privilege_acls(Privilege::WriteAcl, false), Ok(set_of(&[Acl::Administer])));
    assert_eq!(privilege_acls(Privilege::ReadAcl, false), Ok(AclSet::empty()));
    assert_eq!(privilege_acls(Privilege::Unlock, false), Ok(AclSet::empty()));
    assert_eq!(privilege_acls(Privilege::All, true), Err(AclCondition::NoAbstract));
    assert_eq!(privilege_acls(Privilege::ReadFreeBusy, true), Ok(set_of(&[Acl::SchedulingReadFreeBusy])));
    assert_eq!(privilege_acls(Privilege::ReadFreeBusy, false), Err(AclCondition::NotSupportedPrivilege));
    assert_eq!(
        privilege_acls(Privilege::ScheduleSend, true),
        Ok(set_of(&[Acl::SchedulingReadFreeBusy, Acl::SchedulingInvite, Acl::SchedulingReply]))
    );
    assert_eq!(privilege_acls(Privilege::ScheduleDeliverInvite, true), Ok(set_of(&[Acl::SchedulingInvite])));
    assert_eq!(privilege_acls(Privilege::ScheduleSendReply, true), Ok(set_of(&[Acl::SchedulingReply])));
    assert_eq!(privilege_acls(Privilege::ScheduleSendReply, false), Err(AclCondition::NotSupportedPrivilege));
}

#[test]
fn privilege_lists_union_or_stop_at_first_refusal() {
    let both = map_privileges(&vec![Privilege::Read, Privilege::WriteAcl], false).unwrap();
    assert_eq!(both, set_of(&[Acl::Read, Acl::ReadItems, Acl::Administer]));
    assert_eq!(
        map_privileges(&vec![Privilege::Read, Privilege::ReadFreeBusy, Privilege::All], false),
        Err(AclCondition::NotSupportedPrivilege)
    );
    assert_eq!(map_privileges(&vec![], true), Ok(AclSet::empty()));
}

#[test]
fn entries_are_checked_in_order() {
    let mut inverted = grant("/p/a/", vec![Privilege::Read]);
    inverted.invert = true;
    assert_eq!(check_ace(&inverted, false), Err(AclCondition::NoInvert));
    let deny = Ace {
        principal: Principal::Href("/p/a/".to_string()),
        grant_deny: GrantDeny::Deny(vec![Privilege::Read]),
        invert: false,
    };
    assert_eq!(check_ace(&deny, false), Err(AclCondition::GrantOnly));
    let all = Ace { principal: Principal::All, grant_deny: GrantDeny::Grant(vec![Privilege::Read]), invert: false };
    assert_eq!(check_ace(&all, false), Err(AclCondition::AllowedPrincipal));
    assert_eq!(check_ace(&grant("/p/a/", vec![Privilege::ReadAcl]), false), Ok(None));
    assert_eq!(
        check_ace(&grant("/p/a/", vec![Privilege::Read]), false),
        Ok(Some(("/p/a/".to_string(), set_of(&[Acl::Read, Acl::ReadItems]))))
    );
}

#[test]
fn aces_become_grants_for_resolved_principals() {
    let aces = vec![
        grant("/p/a/", vec![Privilege::Read]),
        grant("/p/b/", vec![Privilege::Unlock]),
        grant("/p/c/", vec![Privilege::WriteAcl]),
    ];
    let grants = validate_and_map_aces(&aces, &vec![Some(7), None, Some(9)], false).unwrap();
    assert_eq!(
        grants,
        vec![
            AclGrant { account_id: 7, grants: set_of(&[Acl::Read, Acl::ReadItems]) },
            AclGrant { account_id: 9, grants: set_of(&[Acl::Administer]) },
        ]
    );
    assert_eq!(
        validate_and_map_aces(&aces, &vec![None, None, Some(9)], false),
        Err(AclCondition::AllowedPrincipal)
    );
    let scheduling = vec![grant("/p/a/", vec![Privilege::ScheduleDeliver])];
    assert_eq!(validate_and_map_aces(&scheduling, &vec![Some(1)], false), Err(AclCondition::NotSupportedPrivilege));
    assert_eq!(validate_and_map_aces(&scheduling, &vec![Some(1)], true).unwrap().len(), 1);
}

#[test]
fn current_user_privileges_from_rights() {
    let privileges = current_user_privilege_set(&set_of(&[Acl::ReadItems, Acl::RemoveItems, Acl::Administer]));
    assert_eq!(
        privileges,
        vec![Privilege::Read, Privilege::ReadCurrentUserPrivilegeSet, Privilege::Write, Privilege::ReadAcl, Privilege::WriteAcl]
    );
    assert!(current_user_privilege_set(&set_of(&[Acl::AddItems, Acl::SchedulingInvite])).is_empty());
    assert_eq!(current_user_privilege_set(&set_of(&[Acl::SchedulingReadFreeBusy])), vec![Privilege::ReadFreeBusy]);
    assert_eq!(
        current_user_privilege_set(&set_of(&[Acl::Modify, Acl::ModifyItems])),
        vec![Privilege::WriteProperties, Privilege::WriteContent]
    );
}

#[test]
fn parent_acl_mapping() {
    assert_eq!(validate_and_map_parent_acl(true, Some(4), false), Ok(5));
    assert_eq!(validate_and_map_parent_acl(false, Some(4), true), Ok(5));
    assert_eq!(validate_and_map_parent_acl(false, Some(4), false), Err(403));
    assert_eq!(validate_and_map_parent_acl(true, None, false), Ok(0));
    assert_eq!(validate_and_map_parent_acl(false, None, true), Err(403));
}

#[test]
fn acl_request_checks() {
    let admin = set_of(&[Acl::Administer]);
    let none = AclSet::empty();
    assert_eq!(check_acl_change(AclCollection::Other, Some(true), true, &admin), Err(403));
    assert_eq!(check_acl_change(AclCollection::Calendar, None, true, &admin), Err(404));
    assert_eq!(check_acl_change(AclCollection::Calendar, Some(false), true, &admin), Err(403));
    assert_eq!(check_acl_change(AclCollection::FileNode, Some(false), false, &admin), Ok(()));
    assert_eq!(check_acl_change(AclCollection::AddressBook, Some(true), false, &none), Err(403));
    assert_eq!(check_acl_change(AclCollection::AddressBook, Some(true), true, &none), Ok(()));
    assert_eq!(check_acl_read(AclCollection::Calendar, false, true, &none), Err(404));
    assert_eq!(check_acl_read(AclCollection::Other, true, true, &none), Err(403));
    assert_eq!(check_acl_read(AclCollection::Calendar, true, false, &none), Err(403));
    assert_eq!(check_acl_read(AclCollection::Calendar, true, false, &set_of(&[Acl::Read])), Ok(()));
}

#[test]
fn grant_changes_and_principals() {
    let a = AclGrant { account_id: 3, grants: set_of(&[Acl::Read]) };
    let b = AclGrant { account_id: 1, grants: set_of(&[Acl::Administer]) };
    let c = AclGrant { account_id: 3, grants: set_of(&[Acl::Modify]) };
    assert!(!grants_changed(&vec![a, b], &vec![a, b]));
    assert!(grants_changed(&vec![a, b], &vec![b, a]));
    assert!(grants_changed(&vec![a], &vec![a, b]));
    assert_eq!(principal_ids(&vec![a, b, c]), vec![1, 3]);
    assert!(principal_ids(&vec![]).is_empty());
}

#[test]
fn resolved_aces_name_each_grant_and_its_privileges() {
    let grants = vec![
        AclGrant { account_id: 7, grants: set_of(&[Acl::Read]) },
        AclGrant { account_id: 42, grants: set_of(&[Acl::ModifyItems]) },
    ];
    let names = vec![Some("jane doe".to_string()), None];
    let aces = resolve_aces(true, &AclSet::empty(), &grants, &names);
    assert_eq!(aces.len(), 2);
    assert_eq!(aces[0].principal, Principal::Href("/dav/principal/jane%20doe/".to_string()));
    match &aces[0].grant_deny {
        GrantDeny::Grant(ps) => {
            assert_eq!(ps.len(), 2);
            assert!(ps.contains(&Privilege::Read));
            assert!(ps.contains(&Privilege::ReadCurrentUserPrivilegeSet));
        }
        GrantDeny::Deny(_) => panic!("grants only"),
    }
    assert!(!aces[0].invert);
    assert_eq!(aces[1], grant("/dav/principal/_42/", vec![Privilege::WriteContent]));
}

#[test]
fn resolved_aces_are_shown_to_members_and_administrators_only() {
    let grants = vec![AclGrant { account_id: 3, grants: set_of(&[Acl::Read]) }];
    assert!(resolve_aces(false, &set_of(&[Acl::Read, Acl::Modify]), &grants, &vec![]).is_empty());
    let aces = resolve_aces(false, &set_of(&[Acl::Administer]), &grants, &vec![]);
    assert_eq!(aces.len(), 1);
    assert_eq!(aces[0].principal, Principal::Href("/dav/principal/_3/".to_string()));
}
