use dav::file_resource::{assert_is_unique_uid, DavResourcePath, DavResources, FileItemId, ItemUri, ParentUri};
use dav::request::DavResourceName;
use dav::resource_uri::OwnedUri;

#[test]
fn test_file_item_id_structure() {
    let file_id = FileItemId { document_id: 123, parent_id: 456, is_container: false };
    assert_eq!(file_id.document_id, 123);
    assert_eq!(file_id.parent_id, 456);
    assert!(!file_id.is_container);

    let container_id = FileItemId { document_id: 789, parent_id: 101, is_container: true };
    assert_eq!(container_id.document_id, 789);
    assert_eq!(container_id.parent_id, 101);
    assert!(container_id.is_container);
}

fn entry(path: &str, document_id: u32, parent_id: u32, is_container: bool) -> DavResourcePath {
    DavResourcePath { path: path.to_string(), document_id, parent_id, is_container }
}

fn tree() -> DavResources {
    DavResources {
        resources: vec![
            entry("docs", 1, 0, true),
            entry("docs/a.txt", 2, 1, false),
            entry("docs/old", 3, 1, true),
        ],
    }
}

fn owned(resource: Option<&str>) -> OwnedUri {
    OwnedUri::new_owned(DavResourceName::File, 7, resource.map(|r| r.to_string()))
}

#[test]
fn listed_resources_are_found_by_path() {
    let t = tree();
    assert_eq!(t.by_path("docs/a.txt"), Some(FileItemId { document_id: 2, parent_id: 1, is_container: false }));
    assert_eq!(t.by_path("docs/b.txt"), None);
    assert_eq!(FileItemId::from_dav_resource(&t.resources[2]), FileItemId { document_id: 3, parent_id: 1, is_container: true });
}

#[test]
fn map_resource_needs_a_listed_path() {
    let t = tree();
    assert_eq!(
        t.map_resource(&owned(Some("docs"))),
        Ok(ItemUri {
            collection: DavResourceName::File,
            account_id: 7,
            resource: FileItemId { document_id: 1, parent_id: 0, is_container: true },
        })
    );
    assert_eq!(t.map_resource(&owned(Some("nope"))), Err(404));
    assert_eq!(t.map_resource(&owned(None)), Err(404));
}

#[test]
fn map_parent_cuts_at_the_last_slash() {
    let t = tree();
    assert_eq!(
        t.map_parent("docs/old/new.txt"),
        Some((Some(FileItemId { document_id: 3, parent_id: 1, is_container: true }), "new.txt".to_string()))
    );
    assert_eq!(t.map_parent("top.txt"), Some((None, "top.txt".to_string())));
    assert_eq!(t.map_parent("missing/x"), None);
}

#[test]
fn map_parent_resource_refuses_existing_and_orphan_paths() {
    let t = tree();
    assert_eq!(t.map_parent_resource(&owned(None)), Err(405));
    assert_eq!(t.map_parent_resource(&owned(Some("docs/a.txt"))), Err(405));
    assert_eq!(t.map_parent_resource(&owned(Some("missing/x"))), Err(409));
    assert_eq!(
        t.map_parent_resource(&owned(Some("docs/b.txt"))),
        Ok(ParentUri {
            collection: DavResourceName::File,
            account_id: 7,
            parent: Some(FileItemId { document_id: 1, parent_id: 0, is_container: true }),
            name: "b.txt".to_string(),
        })
    );
}

#[test]
fn uid_conflicts_name_the_first_clashing_child() {
    let cal = DavResources {
        resources: vec![
            entry("work", 10, 0, true),
            entry("work/a.ics", 11, 10, false),
            entry("home/b.ics", 12, 20, false),
            entry("work/c.ics", 13, 10, false),
        ],
    };
    assert_eq!(assert_is_unique_uid(&cal, 10, &vec![13, 11]), Err("work/a.ics".to_string()));
    assert_eq!(assert_is_unique_uid(&cal, 10, &vec![12]), Ok(()));
    assert_eq!(assert_is_unique_uid(&cal, 20, &vec![12]), Err("home/b.ics".to_string()));
    assert_eq!(assert_is_unique_uid(&cal, 10, &vec![]), Ok(()));
}
