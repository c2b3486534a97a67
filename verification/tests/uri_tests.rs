use dav::uri::Urn;

#[test]
fn test_urn_lock_variant() {
    let lock_urn = Urn::Lock(12345);

    assert_eq!(lock_urn.try_unwrap_lock(), Some(12345));
    assert_eq!(lock_urn.try_unwrap_sync(), None);

    let display_str = lock_urn.to_string();
    assert!(display_str.starts_with("urn:a3mailer:davlock:"));
    assert!(display_str.contains("3039"));
}

#[test]
fn test_urn_sync_variant() {
    let sync_urn = Urn::Sync { id: 67890, seq: 42 };

    assert_eq!(sync_urn.try_unwrap_sync(), Some((67890, 42)));
    assert_eq!(sync_urn.try_unwrap_lock(), None);

    let display_str = sync_urn.to_string();
    assert!(display_str.starts_with("urn:a3mailer:davsync:"));
    assert!(display_str.contains("10932"));
    assert!(display_str.contains("2a"));
}

#[test]
fn test_urn_sync_zero_sequence() {
    let sync_urn = Urn::Sync { id: 12345, seq: 0 };

    assert_eq!(sync_urn.try_unwrap_sync(), Some((12345, 0)));

    let display_str = sync_urn.to_string();
    assert!(display_str.starts_with("urn:a3mailer:davsync:"));
    assert!(display_str.contains("3039"));
    assert!(!display_str.contains(":0"));
}

#[test]
fn test_urn_hex_formatting() {
    let lock_urn = Urn::Lock(255);
    let display_str = lock_urn.to_string();
    assert!(display_str.contains("ff"));

    let sync_urn = Urn::Sync { id: 255, seq: 16 };
    let display_str = sync_urn.to_string();
    assert!(display_str.contains("ff"));
    assert!(display_str.contains("10"));
}

#[test]
fn urn_text_round_trips() {
    for u in [Urn::Lock(0), Urn::Lock(u64::MAX), Urn::Sync { id: 7, seq: 0 }, Urn::Sync { id: 255, seq: 16 }] {
        assert_eq!(Urn::parse(&u.to_string()), Some(u));
    }
    assert_eq!(Urn::Lock(255).to_string(), "urn:a3mailer:davlock:ff");
    assert_eq!(Urn::Sync { id: 255, seq: 16 }.to_string(), "urn:a3mailer:davsync:ff:10");
}

#[test]
fn urn_parse_rejects_foreign_text() {
    assert_eq!(Urn::parse("urn:other:davlock:ff"), None);
    assert_eq!(Urn::parse("urn:a3mailer:davlock:zz"), None);
    assert_eq!(Urn::parse("urn:a3mailer:davsync:ff"), Some(Urn::Sync { id: 255, seq: 0 }));
    assert_eq!(Urn::try_extract_sync_id("urn:a3mailer:davsync:ff:10"), Some("ff".to_string()));
}
