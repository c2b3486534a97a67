use dav::config::{
    config_format, ConfigError, ConfigFormat, ConfigManager, DavServerConfig, LogFormat, LogOutput,
    LogRotation, LoggingConfig, ServerConfig,
};

fn manager_with(config: DavServerConfig) -> ConfigManager {
    ConfigManager { config, config_path: None, environment_overrides: Vec::new() }
}

#[test]
fn test_default_config() {
    let config = DavServerConfig::default();

    assert_eq!(config.server.port, 8080);
    assert_eq!(config.server.bind_address, "0.0.0.0");
    assert!(!config.server.enable_tls);
    assert!(config.features.enable_webdav);
    assert!(config.features.enable_caldav);
    assert!(config.features.enable_carddav);
}

#[test]
fn test_config_validation() {
    let mut config = DavServerConfig::default();
    config.server.port = 0;

    let manager = manager_with(config);

    assert!(manager.validate().is_err());
}

#[test]
fn test_feature_flags() {
    let config = DavServerConfig::default();

    assert!(config.features.enable_webdav);
    assert!(config.features.enable_caldav);
    assert!(config.features.enable_carddav);
    assert!(config.features.enable_principals);
    assert!(config.features.enable_scheduling);
    assert!(config.features.enable_acl);
    assert!(config.features.enable_locking);
    assert!(!config.features.enable_versioning);
    assert!(!config.features.enable_experimental);
}

#[test]
fn test_config_manager_creation() {
    let manager = ConfigManager::new();

    assert!(manager.config_path.is_none());
    assert!(manager.environment_overrides.is_empty());
    assert_eq!(manager.config.server.port, 8080);
}

#[test]
fn test_config_builder_pattern() {
    let config = ConfigManager::new()
        .load_environment_overrides(Vec::new())
        .apply_environment_overrides()
        .unwrap()
        .validate()
        .unwrap()
        .build();

    assert_eq!(config.server.port, 8080);
    assert!(config.features.enable_webdav);
}

#[test]
fn test_server_config_defaults() {
    let config = ServerConfig::default();

    assert_eq!(config.bind_address, "0.0.0.0");
    assert_eq!(config.port, 8080);
    assert_eq!(config.server_name, "A3Mailer DAV Server");
    assert_eq!(config.max_request_size, 100 * 1024 * 1024);
    assert!(!config.enable_tls);
    assert!(config.enable_graceful_shutdown);
}

#[test]
fn test_logging_config_defaults() {
    let config = LoggingConfig::default();

    assert_eq!(config.level, "info");
    assert!(matches!(config.format, LogFormat::Json));
    assert!(matches!(config.output, LogOutput::Stdout));
    assert!(config.structured);
    assert!(config.enable_request_logging);
    assert!(config.enable_performance_logging);
    assert!(config.enable_security_logging);
}

#[test]
fn test_log_rotation_defaults() {
    let rotation = LogRotation::default();

    assert!(rotation.enabled);
    assert_eq!(rotation.max_size, 100 * 1024 * 1024);
    assert_eq!(rotation.max_files, 10);
    assert_eq!(rotation.interval, 86_400_000);
}

#[test]
fn test_config_validation_tls() {
    let mut config = DavServerConfig::default();
    config.server.enable_tls = true;

    let manager = manager_with(config);

    let result = manager.validate();
    assert!(result.is_err());
    assert!(result.unwrap_err().to_string().contains("TLS certificate"));
}

#[test]
fn test_config_validation_async_pool() {
    let mut config = DavServerConfig::default();
    config.async_pool.max_concurrent_requests = 0;

    let manager = manager_with(config);

    let result = manager.validate();
    assert!(result.is_err());
    assert!(result.unwrap_err().to_string().contains("Max concurrent requests"));
}

#[test]
fn test_config_validation_database_connections() {
    let mut config = DavServerConfig::default();
    config.data_access.min_connections = 10;
    config.data_access.max_connections = 5;

    let manager = manager_with(config);

    let result = manager.validate();
    assert!(result.is_err());
    assert!(result.unwrap_err().to_string().contains("Min connections cannot be greater"));
}

#[test]
fn test_apply_override_server_port() {
    let mut manager = ConfigManager::new();

    let result = manager.apply_override("DAV_SERVER_PORT", "9090");
    assert!(result.is_ok());
    assert_eq!(manager.config.server.port, 9090);
}

#[test]
fn test_apply_override_invalid_port() {
    let mut manager = ConfigManager::new();

    let result = manager.apply_override("DAV_SERVER_PORT", "invalid");
    assert!(result.is_err());
    assert!(matches!(result.unwrap_err(), ConfigError::InvalidOverride(_, _)));
}

#[test]
fn test_apply_override_bind_address() {
    let mut manager = ConfigManager::new();

    let result = manager.apply_override("DAV_SERVER_BIND_ADDRESS", "127.0.0.1");
    assert!(result.is_ok());
    assert_eq!(manager.config.server.bind_address, "127.0.0.1");
}

#[test]
fn test_apply_override_server_name() {
    let mut manager = ConfigManager::new();

    let result = manager.apply_override("DAV_SERVER_NAME", "Custom DAV Server");
    assert!(result.is_ok());
    assert_eq!(manager.config.server.server_name, "Custom DAV Server");
}

#[test]
fn test_apply_override_enable_tls() {
    let mut manager = ConfigManager::new();

    let result = manager.apply_override("DAV_ENABLE_TLS", "true");
    assert!(result.is_ok());
    assert!(manager.config.server.enable_tls);

    let result = manager.apply_override("DAV_ENABLE_TLS", "false");
    assert!(result.is_ok());
    assert!(!manager.config.server.enable_tls);
}

#[test]
fn test_apply_override_max_concurrent_requests() {
    let mut manager = ConfigManager::new();

    let result = manager.apply_override("DAV_MAX_CONCURRENT_REQUESTS", "5000");
    assert!(result.is_ok());
    assert_eq!(manager.config.async_pool.max_concurrent_requests, 5000);
}

#[test]
fn test_apply_override_worker_count() {
    let mut manager = ConfigManager::new();

    let result = manager.apply_override("DAV_WORKER_COUNT", "8");
    assert!(result.is_ok());
    assert_eq!(manager.config.async_pool.worker_count, 8);
}

#[test]
fn test_apply_override_log_level() {
    let mut manager = ConfigManager::new();

    let result = manager.apply_override("DAV_LOG_LEVEL", "debug");
    assert!(result.is_ok());
    assert_eq!(manager.config.logging.level, "debug");
}

#[test]
fn test_apply_override_unknown_key() {
    let mut manager = ConfigManager::new();

    let result = manager.apply_override("DAV_UNKNOWN_KEY", "value");
    assert!(result.is_ok());
}

#[test]
fn test_config_error_display() {
    let error = ConfigError::ValidationError("Test error".to_string());
    assert_eq!(error.to_string(), "Configuration validation error: Test error");

    let error = ConfigError::InvalidOverride("KEY".to_string(), "value".to_string());
    assert_eq!(error.to_string(), "Invalid environment override KEY=value");

    let error = ConfigError::NoConfigFile;
    assert_eq!(error.to_string(), "No configuration file loaded");
}

#[test]
fn test_reload_without_config_file() {
    let mut manager = ConfigManager::new();

    let result = manager.reload(|_path: &String| -> Result<ConfigManager, ConfigError> {
        panic!("no file should be read")
    });
    assert!(result.is_err());
    assert!(matches!(result.unwrap_err(), ConfigError::NoConfigFile));
}

#[test]
fn environment_overrides_apply_in_order() {
    let mut manager = ConfigManager::new();
    manager.environment_overrides = vec![
        ("DAV_SERVER_PORT".to_string(), "9090".to_string()),
        ("DAV_SERVER_NAME".to_string(), "Test Server".to_string()),
    ];
    let manager = manager.apply_environment_overrides().unwrap();
    assert_eq!(manager.config.server.port, 9090);
    assert_eq!(manager.config.server.server_name, "Test Server");
}

#[test]
fn environment_overrides_stop_at_first_invalid() {
    let mut manager = ConfigManager::new();
    manager.environment_overrides = vec![
        ("DAV_SERVER_NAME".to_string(), "Named".to_string()),
        ("DAV_WORKER_COUNT".to_string(), "-3".to_string()),
        ("DAV_SERVER_PORT".to_string(), "70000".to_string()),
    ];
    match manager.apply_environment_overrides() {
        Err(ConfigError::InvalidOverride(k, v)) => {
            assert_eq!(k, "DAV_WORKER_COUNT");
            assert_eq!(v, "-3");
        }
        _ => panic!("expected an invalid override"),
    }
}

#[test]
fn port_override_rejects_out_of_range_and_accepts_plus() {
    let mut manager = ConfigManager::new();
    assert!(manager.apply_override("DAV_SERVER_PORT", "65536").is_err());
    assert_eq!(manager.config.server.port, 8080);
    assert!(manager.apply_override("DAV_SERVER_PORT", "+443").is_ok());
    assert_eq!(manager.config.server.port, 443);
    assert!(manager.apply_override("DAV_SERVER_PORT", "").is_err());
    assert!(manager.apply_override("DAV_ENABLE_TLS", "TRUE").is_err());
}

#[test]
fn validation_messages_in_order() {
    let messages = [
        "Configuration validation error: Server port cannot be 0",
        "Configuration validation error: Server bind address cannot be empty",
        "Configuration validation error: TLS private key path required when TLS is enabled",
        "Configuration validation error: Worker count cannot be 0",
        "Configuration validation error: L1 cache size cannot be 0",
        "Configuration validation error: Max database connections cannot be 0",
    ];
    let mut c = DavServerConfig::default();
    c.server.port = 0;
    assert_eq!(manager_with(c).validate().err().unwrap().to_string(), messages[0]);
    let mut c = DavServerConfig::default();
    c.server.bind_address = String::new();
    assert_eq!(manager_with(c).validate().err().unwrap().to_string(), messages[1]);
    let mut c = DavServerConfig::default();
    c.server.enable_tls = true;
    c.server.tls_cert_path = Some("cert.pem".to_string());
    assert_eq!(manager_with(c).validate().err().unwrap().to_string(), messages[2]);
    let mut c = DavServerConfig::default();
    c.async_pool.worker_count = 0;
    assert_eq!(manager_with(c).validate().err().unwrap().to_string(), messages[3]);
    let mut c = DavServerConfig::default();
    c.cache.l1_size = 0;
    assert_eq!(manager_with(c).validate().err().unwrap().to_string(), messages[4]);
    let mut c = DavServerConfig::default();
    c.data_access.max_connections = 0;
    assert_eq!(manager_with(c).validate().err().unwrap().to_string(), messages[5]);
}

#[test]
fn default_configuration_validates() {
    assert!(ConfigManager::new().validate().is_ok());
}

#[test]
fn config_format_by_extension() {
    assert_eq!(config_format("dav.toml").unwrap(), ConfigFormat::Toml);
    assert_eq!(config_format("/etc/dav.yaml").unwrap(), ConfigFormat::Yaml);
    assert_eq!(config_format("dav.yml").unwrap(), ConfigFormat::Yaml);
    assert_eq!(config_format("dav.json").unwrap(), ConfigFormat::Json);
    match config_format("dav.ini") {
        Err(ConfigError::UnsupportedFormat(p)) => assert_eq!(p, "dav.ini"),
        _ => panic!("expected an unsupported format"),
    }
    assert!(config_format("dav").is_err());
}

#[test]
fn config_error_messages_quote_paths() {
    let e = ConfigError::UnsupportedFormat("dav.ini".to_string());
    assert_eq!(e.to_string(), "Unsupported config format: \"dav.ini\"");
    let e = ConfigError::FileRead("a.toml".to_string(), "missing".to_string());
    assert_eq!(e.to_string(), "Failed to read config file \"a.toml\": missing");
    let e = ConfigError::ParseError("TOML".to_string(), "bad".to_string());
    assert_eq!(e.to_string(), "Failed to parse TOML config: bad");
}

#[test]
fn reload_replaces_configuration_from_loader() {
    let mut manager = ConfigManager::new();
    manager.config_path = Some("dav.toml".to_string());
    let result = manager.reload(|path: &String| {
        assert_eq!(path, "dav.toml");
        let mut fresh = ConfigManager::new();
        fresh.environment_overrides = vec![("DAV_SERVER_PORT".to_string(), "7070".to_string())];
        Ok(fresh)
    });
    assert!(result.is_ok());
    assert_eq!(manager.config.server.port, 7070);

    let result = manager.reload(|_path: &String| {
        let mut fresh = ConfigManager::new();
        fresh.config.server.port = 0;
        Ok(fresh)
    });
    assert!(result.is_err());
    assert_eq!(manager.config.server.port, 7070);
}

fn var(name: &str, value: &str) -> (String, String) {
    (name.to_string(), value.to_string())
}

#[test]
fn test_environment_overrides() {
    let vars = vec![var("DAV_SERVER_PORT", "9090"), var("DAV_SERVER_NAME", "Test Server")];
    let manager = ConfigManager::new().load_environment_overrides(vars).apply_environment_overrides().unwrap();

    assert_eq!(manager.config.server.port, 9090);
    assert_eq!(manager.config.server.server_name, "Test Server");
}

#[test]
fn environment_loading_keeps_only_dav_variables() {
    let vars = vec![
        var("HOME", "/root"),
        var("DAV_LOG_LEVEL", "debug"),
        var("PATH_DAV_X", "1"),
        var("DAV_SERVER_PORT", "81"),
        var("DAV_LOG_LEVEL", "warn"),
    ];
    let manager = ConfigManager::new().load_environment_overrides(vars);
    assert_eq!(manager.environment_overrides, vec![var("DAV_LOG_LEVEL", "warn"), var("DAV_SERVER_PORT", "81")]);
    let manager = manager.load_environment_overrides(vec![var("DAV_SERVER_PORT", "82"), var("dav_lower", "x")]);
    assert_eq!(manager.environment_overrides, vec![var("DAV_LOG_LEVEL", "warn"), var("DAV_SERVER_PORT", "82")]);
    let manager = manager.apply_environment_overrides().unwrap();
    assert_eq!(manager.config.server.port, 82);
    assert_eq!(manager.config.logging.level, "warn");
}

#[test]
fn file_configuration_is_installed_with_its_path() {
    let mut config = DavServerConfig::default();
    config.server.port = 7000;
    let manager = ConfigManager::new()
        .load_environment_overrides(vec![var("DAV_SERVER_PORT", "7001")])
        .with_file_config(config, "/etc/dav.toml".to_string());
    assert_eq!(manager.config.server.port, 7000);
    assert_eq!(manager.config_path, Some("/etc/dav.toml".to_string()));
    assert_eq!(manager.environment_overrides.len(), 1);
    let manager = manager.apply_environment_overrides().unwrap();
    assert_eq!(manager.config.server.port, 7001);
}

#[test]
fn reload_failures_are_passed_on() {
    let mut manager = ConfigManager::new();
    assert!(matches!(manager.reload(|_p: &String| Ok(ConfigManager::new())), Err(ConfigError::NoConfigFile)));
    manager.config_path = Some("dav.toml".to_string());
    let r = manager.take_reloaded(Err(ConfigError::FileRead("dav.toml".to_string(), "gone".to_string())));
    assert!(matches!(r, Err(ConfigError::FileRead(ref p, ref m)) if p == "dav.toml" && m == "gone"));
    let mut bad = ConfigManager::new();
    bad.environment_overrides = vec![var("DAV_SERVER_PORT", "port")];
    assert!(matches!(manager.take_reloaded(Ok(bad)), Err(ConfigError::InvalidOverride(ref k, ref v)) if k == "DAV_SERVER_PORT" && v == "port"));
    assert_eq!(manager.config.server.port, ConfigManager::new().config.server.port);
}
