use dav::names::{
    copied_event_name, copy_status, move_needs_uid_check, names_for_copy, names_for_move, names_for_rename,
    position_in, DavName,
};

fn name(text: &str, parent: u32) -> DavName {
    DavName { name: text.to_string(), parent_id: parent }
}

#[test]
fn first_position_in_a_container() {
    let names = vec![name("a.ics", 1), name("b.ics", 2), name("c.ics", 2)];
    assert_eq!(position_in(&names, 2), Some(1));
    assert_eq!(position_in(&names, 3), None);
}

#[test]
fn copied_name_is_the_last_in_the_source() {
    let names = vec![name("a.ics", 1), name("b.ics", 2), name("c.ics", 1)];
    assert_eq!(copied_event_name(&names, 1, 5), Some("c.ics".to_string()));
    assert_eq!(copied_event_name(&names, 2, 5), Some("b.ics".to_string()));
    assert_eq!(copied_event_name(&names, 3, 5), None);
    assert_eq!(copied_event_name(&names, 1, 1), None);
}

#[test]
fn copy_keeps_or_drops_source_names() {
    let names = vec![name("a.ics", 1), name("b.ics", 2), name("c.ics", 1)];
    assert_eq!(
        names_for_copy(&names, 1, name("n.ics", 9), false),
        vec![name("a.ics", 1), name("b.ics", 2), name("c.ics", 1), name("n.ics", 9)]
    );
    assert_eq!(names_for_copy(&names, 1, name("n.ics", 9), true), vec![name("b.ics", 2), name("n.ics", 9)]);
}

#[test]
fn move_swaps_out_the_source_name() {
    let names = vec![name("a.ics", 1), name("b.ics", 2), name("c.ics", 3)];
    assert_eq!(
        names_for_move(&names, 1, name("n.ics", 9)),
        Some(vec![name("c.ics", 3), name("b.ics", 2), name("n.ics", 9)])
    );
    assert_eq!(names_for_move(&names, 3, name("n.ics", 9)), Some(vec![name("a.ics", 1), name("b.ics", 2), name("n.ics", 9)]));
    assert_eq!(names_for_move(&names, 4, name("n.ics", 9)), None);
}

#[test]
fn rename_changes_the_first_name_in_the_container() {
    let names = vec![name("a.ics", 1), name("b.ics", 2), name("c.ics", 2)];
    assert_eq!(names_for_rename(&names, 2, "z.ics"), Some(vec![name("a.ics", 1), name("z.ics", 2), name("c.ics", 2)]));
    assert_eq!(names_for_rename(&names, 7, "z.ics"), None);
}

#[test]
fn uid_checks_and_statuses() {
    assert!(!move_needs_uid_check(1, 1, 5, 5, true));
    assert!(move_needs_uid_check(1, 2, 5, 5, true));
    assert!(move_needs_uid_check(1, 1, 5, 6, true));
    assert!(move_needs_uid_check(1, 1, 5, 5, false));
    assert_eq!(copy_status(true), 204);
    assert_eq!(copy_status(false), 201);
}
