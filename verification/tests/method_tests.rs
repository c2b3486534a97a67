use dav::error::{DavError, DavErrorCondition};
use dav::method::DavMethod;
use dav::path::fix_percent_encoding;

#[test]
fn test_utils_test_dav_method_has_body() {
    assert!(DavMethod::PUT.has_body());
    assert!(DavMethod::POST.has_body());
    assert!(DavMethod::PATCH.has_body());
    assert!(DavMethod::PROPPATCH.has_body());
    assert!(DavMethod::PROPFIND.has_body());
    assert!(DavMethod::REPORT.has_body());
    assert!(DavMethod::LOCK.has_body());
    assert!(DavMethod::ACL.has_body());
    assert!(DavMethod::MKCALENDAR.has_body());

    assert!(!DavMethod::GET.has_body());
    assert!(!DavMethod::DELETE.has_body());
    assert!(!DavMethod::HEAD.has_body());
    assert!(!DavMethod::OPTIONS.has_body());
    assert!(!DavMethod::MKCOL.has_body());
    assert!(!DavMethod::COPY.has_body());
    assert!(!DavMethod::MOVE.has_body());
    assert!(!DavMethod::UNLOCK.has_body());
}

#[test]
fn test_dav_method_parsing() {
    assert_eq!(DavMethod::parse("GET"), Some(DavMethod::GET));
    assert_eq!(DavMethod::parse("PUT"), Some(DavMethod::PUT));
    assert_eq!(DavMethod::parse("DELETE"), Some(DavMethod::DELETE));
    assert_eq!(DavMethod::parse("POST"), Some(DavMethod::POST));
    assert_eq!(DavMethod::parse("PATCH"), Some(DavMethod::PATCH));
    assert_eq!(DavMethod::parse("HEAD"), Some(DavMethod::HEAD));
    assert_eq!(DavMethod::parse("OPTIONS"), Some(DavMethod::OPTIONS));
    assert_eq!(DavMethod::parse("PROPFIND"), Some(DavMethod::PROPFIND));
    assert_eq!(DavMethod::parse("PROPPATCH"), Some(DavMethod::PROPPATCH));
    assert_eq!(DavMethod::parse("REPORT"), Some(DavMethod::REPORT));
    assert_eq!(DavMethod::parse("MKCOL"), Some(DavMethod::MKCOL));
    assert_eq!(DavMethod::parse("MKCALENDAR"), Some(DavMethod::MKCALENDAR));
}

#[test]
fn method_parsing_is_case_sensitive() {
    assert_eq!(DavMethod::parse("get"), None);
    assert_eq!(DavMethod::parse("BREW"), None);
    assert_eq!(DavMethod::parse(DavMethod::UNLOCK.as_str()), Some(DavMethod::UNLOCK));
}

#[test]
fn test_calendar_delete_method() {
    let delete_method = DavMethod::DELETE;
    assert_eq!(format!("{:?}", delete_method), "DELETE");
}

#[test]
fn test_card_delete_method() {
    let delete_method = DavMethod::DELETE;
    assert_eq!(format!("{:?}", delete_method), "DELETE");
}

#[test]
fn test_calendar_get_http_methods() {
    let get_method = DavMethod::GET;
    let head_method = DavMethod::HEAD;
    assert_eq!(format!("{:?}", get_method), "GET");
    assert_eq!(format!("{:?}", head_method), "HEAD");
}

#[test]
fn test_card_get_http_methods() {
    let get_method = DavMethod::GET;
    let head_method = DavMethod::HEAD;
    assert_eq!(format!("{:?}", get_method), "GET");
    assert_eq!(format!("{:?}", head_method), "HEAD");
}

#[test]
fn test_calendar_mkcol_methods() {
    let mkcol_method = DavMethod::MKCOL;
    let mkcalendar_method = DavMethod::MKCALENDAR;
    assert_eq!(format!("{:?}", mkcol_method), "MKCOL");
    assert_eq!(format!("{:?}", mkcalendar_method), "MKCALENDAR");
}

#[test]
fn test_dav_error_creation() {
    let auth_error = DavError::auth("Invalid credentials", 401);
    assert_eq!(auth_error.status_code(), 401);
    assert_eq!(auth_error.category(), "auth");
    assert!(!auth_error.is_retryable());

    let not_found_error = DavError::not_found("calendar", "/calendars/user/personal");
    assert_eq!(not_found_error.status_code(), 404);
    assert_eq!(not_found_error.category(), "not_found");
    assert!(!not_found_error.is_retryable());

    let conflict_error = DavError::conflict("Resource already exists");
    assert_eq!(conflict_error.status_code(), 409);
    assert_eq!(conflict_error.category(), "conflict");
    assert!(!conflict_error.is_retryable());

    let validation_error = DavError::validation_with_field("Invalid email format", "email");
    assert_eq!(validation_error.status_code(), 400);
    assert_eq!(validation_error.category(), "validation");
    assert!(!validation_error.is_retryable());

    let storage_error = DavError::storage("Database connection failed", "query");
    assert_eq!(storage_error.status_code(), 500);
    assert_eq!(storage_error.category(), "storage");
    assert!(storage_error.is_retryable());

    let network_error = DavError::network("Connection reset");
    assert_eq!(network_error.status_code(), 502);
    assert_eq!(network_error.category(), "network");
    assert!(network_error.is_retryable());
}

#[test]
fn test_utils_test_dav_error_display() {
    let auth_error = DavError::auth("Invalid token", 401);
    let display_str = auth_error.to_string();
    assert!(display_str.contains("Auth error"));
    assert!(display_str.contains("401"));
    assert!(display_str.contains("Invalid token"));

    let not_found_error = DavError::not_found("contact", "/contacts/user/personal");
    let display_str = not_found_error.to_string();
    assert!(display_str.contains("Resource 'contact' not found"));
    assert!(display_str.contains("/contacts/user/personal"));

    let validation_error = DavError::validation_with_field("Required field missing", "name");
    let display_str = validation_error.to_string();
    assert!(display_str.contains("Validation error"));
    assert!(display_str.contains("Required field missing"));
    assert!(display_str.contains("field: name"));
}

#[test]
fn dav_error_messages_exact() {
    assert_eq!(DavError::auth("Invalid token", 401).to_string(), "Auth error (401 Unauthorized): Invalid token");
    assert_eq!(DavError::Code(404).to_string(), "HTTP error: 404 Not Found");
    assert_eq!(DavError::Code(42).to_string(), "HTTP error: 42");
    assert_eq!(DavError::storage("disk full", "write").to_string(), "Storage error during write: disk full");
    assert_eq!(DavError::validation("bad").to_string(), "Validation error: bad");
    assert_eq!(
        DavError::conflict_with_condition("exists", "NoConflictingLock").to_string(),
        "Conflict: exists (condition: NoConflictingLock)"
    );
    let c = DavErrorCondition::new(412, "SupportedCalendarData")
        .with_details("Unsupported calendar format")
        .with_context("During calendar import");
    assert_eq!(
        DavError::Condition(c).to_string(),
        "WebDAV condition error: SupportedCalendarData (Unsupported calendar format) [During calendar import]"
    );
}

#[test]
fn test_dav_error_condition() {
    let condition = DavErrorCondition::new(412, "SupportedCalendarData")
        .with_details("Unsupported calendar format")
        .with_context("During calendar import");

    assert_eq!(condition.code, 412);
    assert_eq!(condition.condition, "SupportedCalendarData");
    assert_eq!(condition.details, Some("Unsupported calendar format".to_string()));
    assert_eq!(condition.context, Some("During calendar import".to_string()));

    let simple_condition = DavErrorCondition::from_condition("ValidCalendarData");
    assert_eq!(simple_condition.code, 409);
    assert_eq!(simple_condition.condition, "ValidCalendarData");
    assert_eq!(simple_condition.details, None);
    assert_eq!(simple_condition.context, None);
}

#[test]
fn test_fix_percent_encoding() {
    assert_eq!(fix_percent_encoding("simple"), "simple");
    assert_eq!(fix_percent_encoding("path/to/file"), "path/to/file");
    assert_eq!(fix_percent_encoding("file-name_123.txt"), "file-name_123.txt");
    assert_eq!(fix_percent_encoding("already%20encoded"), "already%20encoded");

    assert_eq!(fix_percent_encoding("file name"), "file%20name");
    assert_eq!(fix_percent_encoding("path/to/file name"), "path/to/file%20name");
    assert_eq!(fix_percent_encoding("special@char"), "special%40char");
    assert_eq!(fix_percent_encoding("unicode🔒"), "unicode%F0%9F%94%92");

    assert_eq!(fix_percent_encoding(""), "");
    assert_eq!(fix_percent_encoding("/"), "/");
    assert_eq!(fix_percent_encoding("path/"), "path/");
}

#[test]
fn percent_fix_only_touches_last_segment() {
    assert_eq!(fix_percent_encoding("a b/c"), "a b/c");
    assert_eq!(fix_percent_encoding("a b/c d"), "a b/c%20d");
    assert_eq!(fix_percent_encoding("x/50% off"), "x/50%25%20off");
}

#[test]
fn repairing_twice_changes_nothing_more() {
    for p in ["/dav/file/a b.txt", "/dav/file/ok.txt", "x y", "/a/b/c%20d", "/dir/ü"] {
        let once = fix_percent_encoding(p);
        assert_eq!(fix_percent_encoding(&once), once);
        let cut = p.rfind('/').map(|i| i + 1).unwrap_or(0);
        assert_eq!(&once[..cut], &p[..cut]);
    }
}

#[test]
fn repair_changes_only_unsafe_last_segments() {
    assert_eq!(fix_percent_encoding("/dav/file/ok-name_1.txt"), "/dav/file/ok-name_1.txt");
    assert_eq!(fix_percent_encoding("/dav/file/a%20b"), "/dav/file/a%20b");
    assert_ne!(fix_percent_encoding("/dav/file/a b"), "/dav/file/a b");
    assert_eq!(fix_percent_encoding("/dav/fi le/ok"), "/dav/fi le/ok");
}
