use dav::security::{DavSecurity, IpAddress, SecurityConfig, SecurityEventType};

#[test]
fn security_test_rate_limiting() {
    let config = SecurityConfig { rate_limit_per_minute: 5, ..Default::default() };
    let mut security = DavSecurity::new(config);
    let ip = IpAddress::v4(192, 168, 1, 1);

    for _ in 0..5 {
        assert!(security.check_rate_limit(ip).is_ok());
    }

    assert!(security.check_rate_limit(ip).is_err());
}

#[test]
fn test_auth_failure_blocking() {
    let config = SecurityConfig { max_auth_failures: 3, ..Default::default() };
    let mut security = DavSecurity::new(config);
    let ip = IpAddress::v4(192, 168, 1, 2);

    for i in 1..=3 {
        security.record_auth_failure(ip, &format!("failure {}", i));
    }

    assert!(security.check_rate_limit(ip).is_err());
}

#[test]
fn test_path_validation() {
    let security = DavSecurity::new(SecurityConfig::default());

    assert!(security.validate_path("/calendar/user/personal").is_ok());
    assert!(security.validate_path("/contacts/user/work").is_ok());

    assert!(security.validate_path("/calendar/../../../etc/passwd").is_err());
    assert!(security.validate_path("/calendar/./secret").is_err());
    assert!(security.validate_path("/calendar\\user").is_err());
    assert!(security.validate_path("/calendar/user\0").is_err());
}

#[test]
fn test_body_size_validation() {
    let config = SecurityConfig { max_body_size: 1024, ..Default::default() };
    let security = DavSecurity::new(config);

    assert!(security.validate_body_size(512).is_ok());
    assert!(security.validate_body_size(1024).is_ok());
    assert!(security.validate_body_size(1025).is_err());
}

#[test]
fn test_file_extension_validation() {
    let config = SecurityConfig {
        allowed_extensions: vec!["ics".to_string(), "vcf".to_string()],
        ..Default::default()
    };
    let security = DavSecurity::new(config);

    assert!(security.validate_file_extension("calendar.ics").is_ok());
    assert!(security.validate_file_extension("contacts.vcf").is_ok());
    assert!(security.validate_file_extension("script.js").is_err());
    assert!(security.validate_file_extension("malware.exe").is_err());
}

#[test]
fn test_security_headers() {
    let security = DavSecurity::new(SecurityConfig::default());
    let headers = security.generate_security_headers();
    let has = |name: &str| headers.iter().any(|(n, _)| n.eq_ignore_ascii_case(name));

    assert!(has("Content-Security-Policy"));
    assert!(has("X-Frame-Options"));
    assert!(has("X-Content-Type-Options"));
    assert!(has("Referrer-Policy"));
    assert!(has("Permissions-Policy"));
}

#[test]
fn test_security_stats() {
    let mut security = DavSecurity::new(SecurityConfig::default());
    let ip = IpAddress::v4(192, 168, 1, 3);

    security.record_auth_failure(ip, "test failure");
    let _ = security.check_rate_limit(ip);

    let stats = security.get_security_stats();
    assert!(stats.auth_failures > 0);
    assert!(stats.security_events > 0);
    assert!(!stats.recent_events.is_empty());
}

#[test]
fn test_cleanup() {
    let mut security = DavSecurity::new(SecurityConfig::default());
    let ip = IpAddress::v4(192, 168, 1, 4);

    let _ = security.check_rate_limit(ip);
    security.record_auth_failure(ip, "test");

    let stats_before = security.get_security_stats();
    assert!(stats_before.rate_limited_ips > 0);

    security.cleanup();

    let stats_after = security.get_security_stats();
    assert_eq!(stats_after.rate_limited_ips, stats_before.rate_limited_ips);
}

#[test]
fn block_lifts_after_its_duration() {
    let config = SecurityConfig { max_auth_failures: 1, block_duration: 1000, ..Default::default() };
    let mut security = DavSecurity::new(config);
    let ip = IpAddress::v6(1);
    security.record_auth_failure_at(ip, "bad password", 0);
    let err = security.check_rate_limit_at(ip, 999).unwrap_err();
    assert_eq!(err.status_code(), 403);
    assert!(security.check_rate_limit_at(ip, 1000).is_ok());
    assert_eq!(security.get_security_stats().blocked_ips, 0);
}

#[test]
fn rate_window_restarts_after_a_minute() {
    let config = SecurityConfig { rate_limit_per_minute: 2, ..Default::default() };
    let mut security = DavSecurity::new(config);
    let ip = IpAddress::v4(10, 0, 0, 1);
    assert!(security.check_rate_limit_at(ip, 0).is_ok());
    assert!(security.check_rate_limit_at(ip, 10).is_ok());
    let err = security.check_rate_limit_at(ip, 20).unwrap_err();
    assert_eq!(err.status_code(), 429);
    assert!(security.check_rate_limit_at(ip, 60_001).is_ok());
    let other = IpAddress::v4(10, 0, 0, 2);
    assert!(security.check_rate_limit_at(other, 20).is_ok());
}

#[test]
fn events_are_logged_with_details() {
    let config = SecurityConfig { max_auth_failures: 2, ..Default::default() };
    let mut security = DavSecurity::new(config);
    let ip = IpAddress::v4(1, 2, 3, 4);
    security.record_auth_failure_at(ip, "bad", 5);
    security.record_auth_failure_at(ip, "worse", 6);
    let stats = security.get_security_stats();
    assert_eq!(stats.security_events, 3);
    assert_eq!(stats.auth_failures, 2);
    assert_eq!(stats.recent_events[0].event_type, SecurityEventType::IpBlocked);
    assert_eq!(stats.recent_events[0].details, "IP blocked due to 2 authentication failures");
    assert_eq!(stats.recent_events[1].details, "Authentication failure: worse (attempt 2)");
    assert_eq!(stats.recent_events[2].details, "Authentication failure: bad (attempt 1)");
    assert_eq!(stats.recent_events[2].timestamp, 5);
}

#[test]
fn path_errors_name_the_problem() {
    let security = DavSecurity::new(SecurityConfig::default());
    let deep = "/a/b/c/d/e/f/g/h/i/j/k";
    assert_eq!(
        security.validate_path(deep).unwrap_err().to_string(),
        "Validation error: Path depth 11 exceeds maximum 10 (field: path)"
    );
    assert!(security.validate_path("/a//b///c").is_ok());
    assert!(security.validate_path("/tab\tallowed").is_ok());
    assert_eq!(
        security.validate_path("/bell\u{7}").unwrap_err().to_string(),
        "Validation error: Path contains control characters (field: path)"
    );
    assert_eq!(
        security.validate_path("/nul\0").unwrap_err().to_string(),
        "Validation error: Path contains null bytes (field: path)"
    );
}

#[test]
fn extension_check_lowercases_and_uses_last_dot() {
    let security = DavSecurity::new(SecurityConfig::default());
    assert!(security.validate_file_extension("Event.ICS").is_ok());
    assert!(security.validate_file_extension("archive.tar.xml").is_ok());
    assert_eq!(
        security.validate_file_extension("notes").unwrap_err().to_string(),
        "Validation error: File extension 'notes' is not allowed (field: filename)"
    );
    assert!(security.validate_body_size(10 * 1024 * 1024).is_ok());
}

#[test]
fn headers_absent_when_disabled() {
    let config = SecurityConfig { enable_security_headers: false, ..Default::default() };
    let security = DavSecurity::new(config);
    assert!(security.generate_security_headers().is_empty());
}

#[test]
fn cleanup_drops_expired_state() {
    let mut security = DavSecurity::new(SecurityConfig::default());
    let ip = IpAddress::v4(9, 9, 9, 9);
    let _ = security.check_rate_limit_at(ip, 0);
    security.record_auth_failure_at(ip, "x", 0);
    security.cleanup_at(300_000);
    let stats = security.get_security_stats();
    assert_eq!(stats.rate_limited_ips, 0);
    assert_eq!(stats.auth_failures, 0);
}
