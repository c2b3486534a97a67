use dav::request::{parse_method, DavError, DavMethod, DavResourceName, DavResponse, RequestHeaders};

#[test]
fn test_request_headers_creation() {
    let headers = RequestHeaders::new("/calendar/user/personal");
    assert_eq!(headers.uri, "/calendar/user/personal");
    assert!(headers.content_type.is_none());
    assert!(headers.if_match.is_none());
    assert!(headers.if_none_match.is_none());
}

#[test]
fn test_request_headers_parsing() {
    let mut headers = RequestHeaders::new("/test");

    headers.parse("content-type", "text/calendar; charset=utf-8");
    assert!(headers.content_type.is_some());
    assert!(headers.content_type.clone().unwrap().contains("text/calendar"));

    headers.parse("if-match", "\"etag123\"");
    assert!(headers.if_match.is_some());

    headers.parse("if-none-match", "\"etag456\"");
    assert!(headers.if_none_match.is_some());

    headers.parse("depth", "1");
    assert_eq!(headers.depth, Some(1));

    headers.parse("destination", "/new/path");
    assert!(headers.destination.is_some());

    headers.parse("overwrite", "T");
    assert_eq!(headers.overwrite, Some(true));

    headers.parse("overwrite", "F");
    assert_eq!(headers.overwrite, Some(false));
}

#[test]
fn request_test_dav_method_has_body() {
    assert!(DavMethod::PUT.has_body());
    assert!(DavMethod::POST.has_body());
    assert!(DavMethod::PATCH.has_body());
    assert!(DavMethod::PROPPATCH.has_body());
    assert!(DavMethod::MKCOL.has_body());
    assert!(DavMethod::MKCALENDAR.has_body());
    assert!(DavMethod::LOCK.has_body());
    assert!(DavMethod::ACL.has_body());
    assert!(DavMethod::REPORT.has_body());

    assert!(!DavMethod::GET.has_body());
    assert!(!DavMethod::DELETE.has_body());
    assert!(!DavMethod::OPTIONS.has_body());
    assert!(!DavMethod::UNLOCK.has_body());
    assert!(!DavMethod::COPY.has_body());
    assert!(!DavMethod::MOVE.has_body());
}

#[test]
fn test_dav_method_to_string() {
    assert_eq!(DavMethod::GET.to_string(), "GET");
    assert_eq!(DavMethod::PUT.to_string(), "PUT");
    assert_eq!(DavMethod::PROPFIND.to_string(), "PROPFIND");
    assert_eq!(DavMethod::MKCALENDAR.to_string(), "MKCALENDAR");
}

#[test]
fn test_dav_resource_name() {
    assert_eq!(DavResourceName::Cal.name(), "calendar");
    assert_eq!(DavResourceName::Card.name(), "addressbook");
    assert_eq!(DavResourceName::File.name(), "file");
    assert_eq!(DavResourceName::Principal.name(), "principal");
    assert_eq!(DavResourceName::Scheduling.name(), "scheduling");
}

#[test]
fn request_test_dav_error_display() {
    let error = DavError::Parse("test error".to_string());
    assert_eq!(error.to_string(), "Parse error: test error");

    let error = DavError::Internal("internal issue".to_string());
    assert_eq!(error.to_string(), "Internal error: internal issue");

    let error = DavError::Validation("validation failed".to_string());
    assert_eq!(error.to_string(), "Validation error: validation failed");

    let error = DavError::NotFound;
    assert_eq!(error.to_string(), "Not found");

    let error = DavError::Unauthorized;
    assert_eq!(error.to_string(), "Unauthorized");
}

#[test]
fn test_dav_response_creation() {
    let response = DavResponse {
        status: 200,
        headers: vec![
            ("Content-Type".to_string(), "application/xml".to_string()),
            ("DAV".to_string(), "1, 2, 3".to_string()),
        ],
        body: b"<response></response>".to_vec(),
    };

    assert_eq!(response.status, 200);
    assert_eq!(response.headers.len(), 2);
    assert!(!response.body.is_empty());
}

#[test]
fn test_request_headers_depth_parsing() {
    let mut headers = RequestHeaders::new("/test");

    headers.parse("depth", "0");
    assert_eq!(headers.depth, Some(0));

    headers.parse("depth", "1");
    assert_eq!(headers.depth, Some(1));

    headers.parse("depth", "infinity");
    assert_eq!(headers.depth, Some(u32::MAX));

    headers.parse("depth", "invalid");
    assert_eq!(headers.depth, Some(u32::MAX));
}

#[test]
fn test_request_headers_boolean_parsing() {
    let mut headers = RequestHeaders::new("/test");

    headers.parse("overwrite", "T");
    assert_eq!(headers.overwrite, Some(true));

    headers.parse("overwrite", "F");
    assert_eq!(headers.overwrite, Some(false));

    headers.parse("overwrite", "true");
    assert_eq!(headers.overwrite, Some(true));

    headers.parse("overwrite", "false");
    assert_eq!(headers.overwrite, Some(false));

    headers.parse("overwrite", "maybe");
    assert_eq!(headers.overwrite, Some(false));
}

#[test]
fn test_request_headers_case_insensitive() {
    let mut headers = RequestHeaders::new("/test");

    headers.parse("Content-Type", "text/calendar");
    assert!(headers.content_type.is_some());

    headers.parse("CONTENT-TYPE", "application/xml");
    assert!(headers.content_type.is_some());

    headers.parse("content-type", "text/plain");
    assert!(headers.content_type.is_some());
}

#[test]
fn invalid_values_leave_the_field_as_it_was() {
    let mut headers = RequestHeaders::new("/test");
    headers.parse("depth", "invalid");
    assert_eq!(headers.depth, None);
    headers.parse("depth", "1");
    headers.parse("depth", "invalid");
    assert_eq!(headers.depth, Some(1));
    headers.parse("Depth", "infinity");
    assert_eq!(headers.depth, Some(u32::MAX));
    headers.parse("depth", "INFINITY");
    assert_eq!(headers.depth, Some(u32::MAX));
    headers.parse("depth", "42");
    assert_eq!(headers.depth, Some(42));
    headers.parse("schedule-reply", "T");
    headers.parse("schedule-reply", "perhaps");
    assert_eq!(headers.schedule_reply, Some(true));
}

#[test]
fn method_parsing_is_case_insensitive() {
    assert!(matches!(parse_method("propfind"), Ok(DavMethod::PROPFIND)));
    assert!(matches!(parse_method("MkCalendar"), Ok(DavMethod::MKCALENDAR)));
    assert!(parse_method("BREW").is_err());
}
