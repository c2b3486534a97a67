use dav::propstat::{PropStat, PropStatBuilder};

#[test]
fn properties_are_grouped_by_status_condition_and_description() {
    let mut b: PropStatBuilder<&str> = PropStatBuilder::new();
    b.insert_ok("displayname");
    b.insert_with_status("quota", 404);
    b.insert_ok("getetag");
    b.insert_precondition_failed("acl", 403, "no-ace-conflict".to_string());
    b.insert_error_with_description("owner", 403, "read only".to_string());
    b.insert_precondition_failed_with_description("acl2", 403, "no-ace-conflict".to_string(), "why".to_string());
    b.insert_with_status("resourcetype", 200);
    let groups = b.build();
    assert_eq!(
        groups,
        vec![
            PropStat { props: vec!["displayname", "getetag", "resourcetype"], status: 200, error: None, response_description: None },
            PropStat { props: vec!["quota"], status: 404, error: None, response_description: None },
            PropStat { props: vec!["acl"], status: 403, error: Some("no-ace-conflict".to_string()), response_description: None },
            PropStat { props: vec!["owner"], status: 403, error: None, response_description: Some("read only".to_string()) },
            PropStat {
                props: vec!["acl2"],
                status: 403,
                error: Some("no-ace-conflict".to_string()),
                response_description: Some("why".to_string()),
            },
        ]
    );
}

#[test]
fn empty_builder_builds_nothing() {
    let b: PropStatBuilder<u32> = PropStatBuilder::new();
    assert!(b.build().is_empty());
}
