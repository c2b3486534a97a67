use dav::acl::{Acl, AclSet};
use dav::copy_move::DavItem;
use dav::delete::{check_delete, check_schedule_tag, send_itip, DeleteError, DeleteHome, DeleteRequest, DeleteTarget};

fn rights(acls: &[Acl]) -> AclSet {
    let mut s = AclSet::empty();
    for a in acls {
        s.insert(*a);
    }
    s
}

fn request(resource: Option<DavItem>) -> DeleteRequest {
    DeleteRequest {
        home: DeleteHome::Calendar,
        path: Some("home".to_string()),
        resource,
        is_default_calendar: false,
        is_member: true,
        container_rights: Some(AclSet::empty()),
        rights: Vec::new(),
        item_found: true,
    }
}

fn container(id: u32) -> Option<DavItem> {
    Some(DavItem { document_id: id, parent_id: None, is_container: true, path: "home".to_string() })
}

fn item(id: u32, parent: u32) -> Option<DavItem> {
    Some(DavItem { document_id: id, parent_id: Some(parent), is_container: false, path: "home/a.ics".to_string() })
}

#[test]
fn path_and_resource_must_exist() {
    let mut q = request(container(3));
    q.path = None;
    assert_eq!(check_delete(&q), Err(DeleteError::Status(403)));
    q.path = Some(String::new());
    assert_eq!(check_delete(&q), Err(DeleteError::Status(403)));
    let q = request(None);
    assert_eq!(check_delete(&q), Err(DeleteError::Status(404)));
}

#[test]
fn containers_need_delete_and_remove_rights() {
    let mut q = request(container(3));
    assert_eq!(check_delete(&q), Ok(DeleteTarget::Container { document: 3 }));
    q.is_member = false;
    q.container_rights = Some(rights(&[Acl::Delete]));
    assert_eq!(check_delete(&q), Err(DeleteError::Status(403)));
    q.container_rights = Some(rights(&[Acl::Delete, Acl::RemoveItems]));
    assert_eq!(check_delete(&q), Ok(DeleteTarget::Container { document: 3 }));
    q.container_rights = None;
    assert_eq!(check_delete(&q), Err(DeleteError::Status(404)));
    q.is_default_calendar = true;
    assert_eq!(check_delete(&q), Err(DeleteError::DefaultCalendarNeeded));
    q.home = DeleteHome::AddressBook;
    assert_eq!(check_delete(&q), Err(DeleteError::Status(404)));
}

#[test]
fn items_need_remove_rights_on_their_container() {
    let mut q = request(item(8, 3));
    q.is_member = false;
    assert_eq!(check_delete(&q), Err(DeleteError::Status(403)));
    q.rights = vec![(3, rights(&[Acl::RemoveItems]))];
    assert_eq!(check_delete(&q), Ok(DeleteTarget::Item { document: 8, container: 3 }));
    q.item_found = false;
    assert_eq!(check_delete(&q), Err(DeleteError::Status(404)));
}

#[test]
fn itip_and_schedule_tags() {
    assert!(send_itip(true, false, true, true));
    assert!(!send_itip(true, true, true, true));
    assert!(!send_itip(false, false, true, true));
    assert!(!send_itip(true, false, false, true));
    assert!(!send_itip(true, false, true, false));
    assert_eq!(check_schedule_tag(None, Some(4)), Ok(()));
    assert_eq!(check_schedule_tag(Some(4), Some(4)), Ok(()));
    assert_eq!(check_schedule_tag(Some(4), Some(5)), Err(DeleteError::Status(412)));
    assert_eq!(check_schedule_tag(Some(4), None), Err(DeleteError::Status(412)));
}
