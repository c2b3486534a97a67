use dav::access::{check_get, check_mkcol, GetRequest};
use dav::acl::{Acl, AclSet};
use dav::copy_move::DavItem;

fn reader() -> AclSet {
    let mut s = AclSet::empty();
    s.insert(Acl::ReadItems);
    s
}

fn get(resource: Option<DavItem>) -> GetRequest {
    GetRequest { path: Some("home/a.ics".to_string()), resource, is_member: false, rights: Vec::new(), item_found: true }
}

fn event() -> Option<DavItem> {
    Some(DavItem { document_id: 11, parent_id: Some(2), is_container: false, path: "home/a.ics".to_string() })
}

#[test]
fn get_checks_in_order() {
    let mut q = get(event());
    q.path = None;
    assert_eq!(check_get(&q), Err(405));
    assert_eq!(check_get(&get(None)), Err(404));
    let calendar = Some(DavItem { document_id: 2, parent_id: None, is_container: true, path: "home".to_string() });
    assert_eq!(check_get(&get(calendar)), Err(405));
    let mut q = get(event());
    assert_eq!(check_get(&q), Err(403));
    q.rights = vec![(2, reader())];
    assert_eq!(check_get(&q), Ok(11));
    q.item_found = false;
    assert_eq!(check_get(&q), Err(404));
    let mut q = get(event());
    q.is_member = true;
    assert_eq!(check_get(&q), Ok(11));
}

#[test]
fn mkcol_checks_in_order() {
    assert_eq!(check_mkcol(None, true, false), Err(403));
    assert_eq!(check_mkcol(Some("work"), false, false), Err(403));
    assert_eq!(check_mkcol(Some("a/b"), true, false), Err(405));
    assert_eq!(check_mkcol(Some("work"), true, true), Err(405));
    assert_eq!(check_mkcol(Some("work"), true, false), Ok(()));
}
