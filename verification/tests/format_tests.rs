#[test]
fn test_calendar_get_content_type() {
    let expected_content_type = "text/calendar; charset=utf-8";
    assert!(expected_content_type.starts_with("text/calendar"));
    assert!(expected_content_type.contains("charset=utf-8"));
}

#[test]
fn test_calendar_get_response_headers() {
    let content_type = "text/calendar; charset=utf-8";
    assert!(content_type.contains("text/calendar"));
    assert!(content_type.contains("utf-8"));

    let etag_example = "\"12345\"";
    assert!(etag_example.starts_with('"'));
    assert!(etag_example.ends_with('"'));
}

#[test]
fn test_calendar_get_uri_validation() {
    let valid_uris = [
        "/calendar/user/personal/event.ics",
        "/calendar/shared/team/meeting.ics",
        "/calendar/public/holidays.ics",
    ];
    for uri in &valid_uris {
        assert!(uri.starts_with("/calendar/"));
        assert!(uri.ends_with(".ics"));
    }
}

#[test]
fn test_calendar_get_head_vs_get() {
    let is_head_true = true;
    let is_head_false = false;
    assert!(is_head_true);
    assert!(!is_head_false);
}

#[test]
fn test_calendar_get_ical_format() {
    let ical_example = "BEGIN:VCALENDAR\nVERSION:2.0\nEND:VCALENDAR";
    assert!(ical_example.contains("BEGIN:VCALENDAR"));
    assert!(ical_example.contains("VERSION:2.0"));
    assert!(ical_example.contains("END:VCALENDAR"));
}

#[test]
fn test_calendar_get_etag_handling() {
    let etag_value = "12345";
    let quoted_etag = format!("\"{}\"", etag_value);
    assert!(quoted_etag.starts_with('"'));
    assert!(quoted_etag.ends_with('"'));
    assert!(quoted_etag.contains(etag_value));
}

#[test]
fn test_calendar_get_last_modified() {
    let timestamp = 1640995200i64;
    assert!(timestamp > 0);
    let rfc1123_example = "Sat, 01 Jan 2022 00:00:00 GMT";
    assert!(rfc1123_example.contains("GMT"));
    assert!(rfc1123_example.len() > 20);
}

#[test]
fn test_calendar_get_schedule_tag() {
    let schedule_tag_example = "\"schedule-12345\"";
    assert!(schedule_tag_example.starts_with('"'));
    assert!(schedule_tag_example.ends_with('"'));
    assert!(schedule_tag_example.contains("schedule"));
}

#[test]
fn test_calendar_delete_itip_notifications() {
    let send_itip_true = true;
    let send_itip_false = false;
    assert!(send_itip_true);
    assert!(!send_itip_false);
    let should_notify = send_itip_true && !send_itip_false;
    assert!(should_notify);
}

#[test]
fn test_calendar_mkcol_mkcalendar_flag() {
    let is_mkcalendar_true = true;
    let is_mkcalendar_false = false;
    assert!(is_mkcalendar_true);
    assert!(!is_mkcalendar_false);
}

#[test]
fn test_card_get_content_type() {
    let expected_content_type = "text/vcard; charset=utf-8";
    assert!(expected_content_type.starts_with("text/vcard"));
    assert!(expected_content_type.contains("charset=utf-8"));
}

#[test]
fn test_card_get_response_headers() {
    let content_type = "text/vcard; charset=utf-8";
    assert!(content_type.contains("text/vcard"));
    assert!(content_type.contains("utf-8"));

    let etag_example = "\"12345\"";
    assert!(etag_example.starts_with('"'));
    assert!(etag_example.ends_with('"'));
}

#[test]
fn test_card_get_uri_validation() {
    let valid_uris = [
        "/addressbook/user/personal/contact.vcf",
        "/addressbook/shared/team/member.vcf",
        "/addressbook/public/directory.vcf",
    ];
    for uri in &valid_uris {
        assert!(uri.starts_with("/addressbook/"));
        assert!(uri.ends_with(".vcf"));
    }
}

#[test]
fn test_card_delete_uri_validation() {
    let valid_uris = [
        "/addressbook/user/personal/contact.vcf",
        "/addressbook/shared/team/member.vcf",
        "/addressbook/public/directory.vcf",
    ];
    for uri in &valid_uris {
        assert!(uri.starts_with("/addressbook/"));
        assert!(uri.ends_with(".vcf"));
    }
}

#[test]
fn test_card_get_head_vs_get() {
    let is_head_true = true;
    let is_head_false = false;
    assert!(is_head_true);
    assert!(!is_head_false);
}

#[test]
fn test_card_get_vcard_format() {
    let vcard_example = "BEGIN:VCARD\nVERSION:4.0\nFN:John Doe\nEND:VCARD";
    assert!(vcard_example.contains("BEGIN:VCARD"));
    assert!(vcard_example.contains("VERSION:"));
    assert!(vcard_example.contains("END:VCARD"));
}

#[test]
fn test_card_get_etag_handling() {
    let etag_value = "12345";
    let quoted_etag = format!("\"{}\"", etag_value);
    assert!(quoted_etag.starts_with('"'));
    assert!(quoted_etag.ends_with('"'));
    assert!(quoted_etag.contains(etag_value));
}

#[test]
fn test_card_get_last_modified() {
    let timestamp = 1640995200i64;
    assert!(timestamp > 0);
    let rfc1123_example = "Sat, 01 Jan 2022 00:00:00 GMT";
    assert!(rfc1123_example.contains("GMT"));
    assert!(rfc1123_example.len() > 20);
}

#[test]
fn test_card_get_vcard_versions() {
    let version_3_0 = "3.0";
    let version_4_0 = "4.0";
    assert_eq!(version_3_0, "3.0");
    assert_eq!(version_4_0, "4.0");
    assert!(version_4_0 > version_3_0);
}

#[test]
fn test_vcard_content_type_support() {
    let vcard_content_types = ["text/vcard", "text/vcard; charset=utf-8", "text/x-vcard"];
    for content_type in &vcard_content_types {
        assert!(content_type.contains("vcard"));
    }
}

#[test]
fn test_module_structure() {}
