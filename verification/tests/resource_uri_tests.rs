use dav::request::DavResourceName;
use dav::resource_uri::{current_user_principal, known_account_id, parse_dav_uri, resolve_uri, AccountRef, DavUri, OwnedUri, UnresolvedUri};

fn uri(collection: DavResourceName, account: Option<AccountRef>, resource: Option<&str>) -> DavUri {
    DavUri { collection, account, resource: resource.map(|r| r.to_string()) }
}

#[test]
fn account_id_and_resource_path_are_read() {
    assert_eq!(
        parse_dav_uri("/dav/calendar/_5/work/event.ics"),
        Some(uri(DavResourceName::Cal, Some(AccountRef::Id(5)), Some("work/event.ics")))
    );
}

#[test]
fn trailing_slashes_and_host_prefix_are_ignored() {
    assert_eq!(
        parse_dav_uri("https://example.org/dav/addressbook/jane///"),
        Some(uri(DavResourceName::Card, Some(AccountRef::Name("jane".to_string())), None))
    );
    assert_eq!(parse_dav_uri("/dav/principal"), Some(uri(DavResourceName::Principal, None, None)));
}

#[test]
fn account_names_are_percent_decoded() {
    assert_eq!(
        parse_dav_uri("/dav/file/jane%20doe/docs"),
        Some(uri(DavResourceName::File, Some(AccountRef::Name("jane doe".to_string())), Some("docs")))
    );
}

#[test]
fn account_ids_read_as_std_parses_them() {
    assert_eq!(
        parse_dav_uri("/dav/scheduling/_+12"),
        Some(uri(DavResourceName::Scheduling, Some(AccountRef::Id(12)), None))
    );
    assert_eq!(parse_dav_uri("/dav/calendar/_abc"), None);
    assert_eq!(parse_dav_uri("/dav/calendar/_"), None);
    assert_eq!(parse_dav_uri("/dav/calendar/_4294967296"), None);
}

#[test]
fn empty_pieces_are_dropped_after_the_cut() {
    // The text is cut at its first two slashes before empty pieces are
    // dropped, so the account piece here keeps the rest of the path.
    assert_eq!(parse_dav_uri("/dav/file//_7//x"), None);
    assert_eq!(
        parse_dav_uri("/dav/file//bob/x"),
        Some(uri(DavResourceName::File, Some(AccountRef::Name("bob/x".to_string())), None))
    );
}

#[test]
fn paths_outside_the_dav_tree_are_refused() {
    assert_eq!(parse_dav_uri("/api/calendar/_1"), None);
    assert_eq!(parse_dav_uri("/dav/"), None);
    assert_eq!(parse_dav_uri("/dav/mailbox/_1"), None);
}

#[test]
fn known_accounts_come_from_the_path_or_the_user() {
    assert_eq!(known_account_id(&AccountRef::Id(9), "jane", 3), Some(9));
    assert_eq!(known_account_id(&AccountRef::Name("jane".to_string()), "jane", 3), Some(3));
    assert_eq!(known_account_id(&AccountRef::Name("bob".to_string()), "jane", 3), None);
}

#[test]
fn resolution_checks_account_and_access() {
    let cal = uri(DavResourceName::Cal, Some(AccountRef::Id(9)), Some("a.ics"));
    assert_eq!(
        resolve_uri(cal.clone(), Some(9), true, 404),
        Ok(UnresolvedUri { collection: DavResourceName::Cal, account_id: Some(9), resource: Some("a.ics".to_string()) })
    );
    assert_eq!(resolve_uri(cal.clone(), Some(9), false, 404), Err(403));
    assert_eq!(resolve_uri(cal, None, true, 404), Err(404));
    let principal = uri(DavResourceName::Principal, Some(AccountRef::Name("bob".to_string())), None);
    assert_eq!(
        resolve_uri(principal, Some(4), false, 404),
        Ok(UnresolvedUri { collection: DavResourceName::Principal, account_id: Some(4), resource: None })
    );
    let root = uri(DavResourceName::File, None, None);
    assert_eq!(
        resolve_uri(root, None, false, 400),
        Ok(UnresolvedUri { collection: DavResourceName::File, account_id: None, resource: None })
    );
}

#[test]
fn owned_uris_need_an_account() {
    let none = UnresolvedUri { collection: DavResourceName::Card, account_id: None, resource: None };
    assert_eq!(none.into_owned_uri(), Err(403));
    let some = UnresolvedUri { collection: DavResourceName::Card, account_id: Some(2), resource: Some("c.vcf".to_string()) };
    assert_eq!(
        some.into_owned_uri(),
        Ok(OwnedUri::new_owned(DavResourceName::Card, 2, Some("c.vcf".to_string())))
    );
}

#[test]
fn test_principal_path_format() {
    let base_path = DavResourceName::Principal.base_path();
    assert!(base_path.contains("principal"));
    let username = "testuser";
    let expected_path = format!("{}/{}/", base_path, username);
    assert!(expected_path.starts_with(&base_path));
    assert!(expected_path.contains(username));
    assert!(expected_path.ends_with("/"));
}

#[test]
fn test_principal_resource_name() {
    let principal_resource = DavResourceName::Principal;
    let base_path = principal_resource.base_path();
    assert!(base_path.contains("principal"));
    assert!(base_path.starts_with("/"));
}

#[test]
fn principal_paths_encode_the_user_name() {
    assert_eq!(current_user_principal("jane"), "/dav/principal/jane/");
    assert_eq!(current_user_principal("jane doe@x.org"), "/dav/principal/jane%20doe%40x.org/");
    assert_eq!(DavResourceName::Cal.base_path(), "/dav/calendar");
}

#[test]
fn principal_paths_read_back() {
    assert_eq!(
        parse_dav_uri(&current_user_principal("jane doe")),
        Some(uri(DavResourceName::Principal, Some(AccountRef::Name("jane doe".to_string())), None))
    );
}
