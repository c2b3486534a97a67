use dav::acl::{Acl, AclSet};
use dav::copy_move::{
    plan_copy_move, precheck_copy_move, rights_of, CopyMoveAction, CopyMoveError, CopyMoveRequest, DavItem,
    Destination,
};

fn calendar(id: u32, path: &str) -> DavItem {
    DavItem { document_id: id, parent_id: None, is_container: true, path: path.to_string() }
}

fn event(id: u32, calendar: u32, path: &str) -> DavItem {
    DavItem { document_id: id, parent_id: Some(calendar), is_container: false, path: path.to_string() }
}

fn rights(acls: &[Acl]) -> AclSet {
    let mut s = AclSet::empty();
    for a in acls {
        s.insert(*a);
    }
    s
}

fn request(is_move: bool, from: DavItem) -> CopyMoveRequest {
    CopyMoveRequest {
        is_move,
        from,
        from_is_default_calendar: false,
        from_account_id: 1,
        from_member: true,
        from_rights: Vec::new(),
        destination: Some(Destination { is_calendar: true, account_id: Some(1), resource: Some("work/b.ics".to_string()) }),
        to_member: true,
        to_rights: Vec::new(),
        to_resource: None,
        to_parent: None,
        depth_zero: false,
    }
}

#[test]
fn prechecks_refuse_in_order() {
    let mut q = request(true, calendar(5, "default"));
    q.from_is_default_calendar = true;
    assert_eq!(precheck_copy_move(&q), Err(CopyMoveError::DefaultCalendarNeeded));

    let mut q = request(false, event(9, 5, "home/a.ics"));
    q.from_member = false;
    assert_eq!(precheck_copy_move(&q), Err(CopyMoveError::Status(403)));
    q.from_rights = vec![(5, rights(&[Acl::ReadItems]))];
    assert_eq!(precheck_copy_move(&q), Ok((1, "work/b.ics".to_string())));

    let mut q = request(false, event(9, 5, "home/a.ics"));
    q.destination = None;
    assert_eq!(precheck_copy_move(&q), Err(CopyMoveError::Status(502)));
    q.destination = Some(Destination { is_calendar: false, account_id: Some(1), resource: Some("x".to_string()) });
    assert_eq!(precheck_copy_move(&q), Err(CopyMoveError::Status(502)));
    q.destination = Some(Destination { is_calendar: true, account_id: None, resource: Some("x".to_string()) });
    assert_eq!(precheck_copy_move(&q), Err(CopyMoveError::Status(502)));
    q.destination = Some(Destination { is_calendar: true, account_id: Some(2), resource: None });
    assert_eq!(precheck_copy_move(&q), Err(CopyMoveError::Status(502)));
}

#[test]
fn overwriting_an_event_moves_or_copies_it() {
    let mut q = request(true, event(9, 5, "home/a.ics"));
    q.to_resource = Some(event(12, 6, "work/b.ics"));
    assert_eq!(
        plan_copy_move(&q, 1, "work/b.ics"),
        Ok(CopyMoveAction::MoveEvent {
            from_document: 9,
            from_calendar: 5,
            to_document: Some(12),
            to_calendar: 6,
            new_name: "b.ics".to_string(),
        })
    );
    q.is_move = false;
    assert_eq!(
        plan_copy_move(&q, 1, "work/b.ics"),
        Ok(CopyMoveAction::CopyEvent { from_document: 9, to_document: Some(12), to_calendar: 6, new_name: "b.ics".to_string() })
    );
    q.to_member = false;
    assert_eq!(plan_copy_move(&q, 1, "work/b.ics"), Err(CopyMoveError::Status(403)));
    q.to_rights = vec![(6, rights(&[Acl::RemoveItems]))];
    assert!(plan_copy_move(&q, 1, "work/b.ics").is_ok());
}

#[test]
fn same_path_and_mixed_kinds_are_bad_gateways() {
    let mut q = request(false, event(9, 5, "home/a.ics"));
    q.to_resource = Some(event(9, 5, "home/a.ics"));
    assert_eq!(plan_copy_move(&q, 1, "home/a.ics"), Err(CopyMoveError::Status(502)));
    q.to_resource = Some(calendar(6, "work"));
    assert_eq!(plan_copy_move(&q, 1, "work"), Err(CopyMoveError::Status(502)));
}

#[test]
fn overwriting_a_calendar_needs_membership() {
    let mut q = request(true, calendar(5, "home"));
    q.to_resource = Some(calendar(6, "work"));
    assert_eq!(
        plan_copy_move(&q, 1, "work"),
        Ok(CopyMoveAction::CopyContainer {
            from_document: 5,
            with_children: true,
            to_document: Some(6),
            new_name: "work".to_string(),
            is_move: true,
        })
    );
    q.to_member = false;
    assert_eq!(plan_copy_move(&q, 1, "work"), Err(CopyMoveError::Status(403)));
}

#[test]
fn new_event_under_a_calendar() {
    let mut q = request(true, event(9, 5, "home/a.ics"));
    q.to_parent = Some((Some(calendar(5, "home")), "renamed.ics".to_string()));
    assert_eq!(
        plan_copy_move(&q, 1, "home/renamed.ics"),
        Ok(CopyMoveAction::RenameEvent { document: 9, calendar: 5, new_name: "renamed.ics".to_string() })
    );
    q.to_parent = Some((Some(calendar(6, "work")), "a.ics".to_string()));
    assert_eq!(
        plan_copy_move(&q, 1, "work/a.ics"),
        Ok(CopyMoveAction::MoveEvent {
            from_document: 9,
            from_calendar: 5,
            to_document: None,
            to_calendar: 6,
            new_name: "a.ics".to_string(),
        })
    );
    q.to_parent = Some((Some(event(7, 6, "work/x.ics")), "a.ics".to_string()));
    assert_eq!(plan_copy_move(&q, 1, "work/x.ics/a.ics"), Err(CopyMoveError::Status(502)));
    q.to_parent = None;
    assert_eq!(plan_copy_move(&q, 1, "nowhere/a.ics"), Err(CopyMoveError::Status(409)));
}

#[test]
fn calendars_at_the_root() {
    let mut q = request(true, calendar(5, "home"));
    q.to_parent = Some((None, "moved".to_string()));
    assert_eq!(
        plan_copy_move(&q, 1, "moved"),
        Ok(CopyMoveAction::RenameContainer { document: 5, new_name: "moved".to_string() })
    );
    assert_eq!(
        plan_copy_move(&q, 2, "moved"),
        Ok(CopyMoveAction::CopyContainer {
            from_document: 5,
            with_children: true,
            to_document: None,
            new_name: "moved".to_string(),
            is_move: true,
        })
    );
    q.depth_zero = true;
    assert_eq!(plan_copy_move(&q, 2, "moved"), Err(CopyMoveError::Status(502)));
    q.is_move = false;
    assert_eq!(
        plan_copy_move(&q, 2, "moved"),
        Ok(CopyMoveAction::CopyContainer {
            from_document: 5,
            with_children: false,
            to_document: None,
            new_name: "moved".to_string(),
            is_move: false,
        })
    );
    let mut e = request(false, event(9, 5, "home/a.ics"));
    e.to_parent = Some((None, "a.ics".to_string()));
    assert_eq!(plan_copy_move(&e, 1, "a.ics"), Err(CopyMoveError::Status(502)));
}

#[test]
fn rights_lookup_takes_first_listing() {
    let list = vec![(3, rights(&[Acl::Read])), (3, rights(&[Acl::Administer])), (4, rights(&[Acl::AddItems]))];
    assert_eq!(rights_of(&list, 3), rights(&[Acl::Read]));
    assert_eq!(rights_of(&list, 4), rights(&[Acl::AddItems]));
    assert_eq!(rights_of(&list, 5), AclSet::empty());
}
