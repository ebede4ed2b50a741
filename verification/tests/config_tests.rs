use std::time::Duration;

use arqen::config::{
    AppConfig, CliOverrides, EnvVars, HealthConfig, LogFormat, LoggingConfig, Secret,
    ServerConfig, StorageConfig, StorageMode, ThingdSyncMode, WorkerConfig,
};

#[test]
fn test_secret_redaction() {
    let secret = Secret::new("my-secret-key".to_string());
    assert_eq!(secret.redacted(), "[REDACTED]");
    assert_eq!(secret.redacted(), "[REDACTED]");
    assert_eq!(secret.into_inner(), "my-secret-key");
}

#[test]
fn test_default_config() {
    let config = AppConfig::default();
    assert_eq!(config.server.host, "127.0.0.1");
    assert_eq!(config.server.port, 8888);
    assert_eq!(config.storage.mode, StorageMode::Memory);
    assert!(!config.auth.enabled);
    assert_eq!(config.logging.level, "info");
    assert!(!config.worker.enabled);
    assert_eq!(config.worker.queues, vec!["default".to_string()]);
}

#[test]
fn test_config_validation() {
    let mut config = AppConfig::default();
    assert!(config.validate().is_ok());

    config.server.port = 0;
    assert!(config.validate().is_err());

    config.server.port = 8888;
    config.storage.mode = StorageMode::Persistent;
    assert!(config.validate().is_err());

    config.storage.persistent_path = Some("/tmp/data".to_string());
    assert!(config.validate().is_ok());
}

#[test]
fn test_storage_mode_from_str() {
    assert_eq!(StorageMode::parse_str("memory").unwrap(), StorageMode::Memory);
    assert_eq!(StorageMode::parse_str("persistent").unwrap(), StorageMode::Persistent);
    assert_eq!(StorageMode::parse_str("http").unwrap(), StorageMode::Http);
    assert_eq!(StorageMode::parse_str("MEMORY").unwrap(), StorageMode::Memory);
    assert!(StorageMode::parse_str("invalid").is_err());
}

#[test]
fn test_cli_overrides() {
    let config = AppConfig::default();
    let cli = CliOverrides {
        host: Some("0.0.0.0".to_string()),
        port: Some(8080),
        log_level: Some("debug".to_string()),
        log_format: None,
        storage_mode: None,
    };
    let config = config.apply_cli(cli);
    assert_eq!(config.server.host, "0.0.0.0");
    assert_eq!(config.server.port, 8080);
    assert_eq!(config.logging.level, "debug");
}

#[test]
fn test_worker_config_defaults() {
    let config = WorkerConfig::default();
    assert!(!config.enabled);
    assert_eq!(config.queues, vec!["default".to_string()]);
    assert_eq!(Duration::from_secs(config.poll_interval), Duration::from_secs(1));
    assert_eq!(config.lease_seconds, 30);
    assert_eq!(config.max_retries, 3);
    assert_eq!(config.concurrency, 4);
}

#[test]
fn test_health_config_defaults() {
    let config = HealthConfig::default();
    assert_eq!(Duration::from_secs(config.check_timeout), Duration::from_secs(5));
    assert_eq!(Duration::from_secs(config.startup_delay), Duration::ZERO);
}

#[test]
fn test_invalid_port() {
    let config = AppConfig {
        server: ServerConfig {
            port: 0,
            ..Default::default()
        },
        ..Default::default()
    };
    assert!(config.validate().is_err());
}

#[test]
fn test_persistent_requires_path() {
    let config = AppConfig {
        storage: StorageConfig {
            mode: StorageMode::Persistent,
            persistent_path: None,
            ..Default::default()
        },
        ..Default::default()
    };
    assert!(config.validate().is_err());
}

#[test]
fn test_http_requires_url() {
    let config = AppConfig {
        storage: StorageConfig {
            mode: StorageMode::Http,
            http_url: None,
            ..Default::default()
        },
        ..Default::default()
    };
    assert!(config.validate().is_err());
}

#[test]
fn sync_mode_defaults_to_disabled() {
    let config = AppConfig::default();
    assert_eq!(config.sync.mode, ThingdSyncMode::Disabled);
    assert!(!config.sync.enabled);
}

#[test]
fn native_sync_requires_embedded_native_storage() {
    let mut config = AppConfig::default();
    config.sync.enabled = true;
    config.sync.mode = ThingdSyncMode::Native;
    config.sync.source_id = Some("local".to_string());
    config.sync.target_url = Some("https://cloud.example".to_string());
    let error = config.validate().unwrap_err();
    assert!(error.message().contains("storage.mode"));

    config.storage.mode = StorageMode::Native;
    config.storage.persistent_path = Some("/tmp/thingd".into());
    config.sync.collections = vec!["notes".into()];
    assert!(config.validate().is_ok());
}

#[test]
fn test_logging_config_default() {
    let config = LoggingConfig::default();
    assert_eq!(config.level, "info");
    assert!(matches!(config.format, LogFormat::Pretty));
}

#[test]
fn test_logging_config_custom() {
    let config = LoggingConfig {
        level: "debug".to_string(),
        format: LogFormat::Json,
        request_level: "warn".to_string(),
    };
    assert_eq!(config.level, "debug");
    assert!(matches!(config.format, LogFormat::Json));
    assert_eq!(config.request_level, "warn");
}

#[test]
fn env_overrides_apply_in_layers() {
    let env = EnvVars::new()
        .with("ARQEN_PORT", "9000")
        .with("ARQEN_STORAGE_MODE", "HTTP")
        .with("ARQEN_THINGD_URL", "http://thingd:7000")
        .with("ARQEN_SYNC_COLLECTIONS", " notes , ,tasks")
        .with("ARQEN_WORKER_QUEUES", "jobs, events")
        .with("ARQEN_JWT_SECRET", "s3cret")
        .with("ARQEN_LOG_FORMAT", "Json")
        .with("ARQEN_MAX_BODY_SIZE", "+2048");
    let cli = CliOverrides {
        port: Some(9100),
        ..Default::default()
    };
    let config = match AppConfig::load(None, &env, cli) {
        Ok(c) => c,
        Err(e) => panic!("{}", e.message()),
    };
    assert_eq!(config.server.port, 9100);
    assert_eq!(config.storage.mode, StorageMode::Http);
    assert_eq!(config.storage.http_url.as_deref(), Some("http://thingd:7000"));
    assert_eq!(config.sync.collections, vec!["notes".to_string(), "tasks".to_string()]);
    assert_eq!(config.worker.queues, vec!["jobs".to_string(), "events".to_string()]);
    assert!(config.auth.enabled);
    assert_eq!(config.auth.jwt_secret.unwrap().into_inner(), "s3cret");
    assert_eq!(config.logging.format, LogFormat::Json);
    assert_eq!(config.server.max_body_size, 2048);
}

#[test]
fn env_rejects_bad_numbers_in_order() {
    let env = EnvVars::new()
        .with("ARQEN_WORKER_LEASE_SECONDS", "abc")
        .with("ARQEN_PORT", "70000");
    let error = AppConfig::default().apply_env(&env).err().unwrap();
    assert_eq!(
        error.message(),
        "invalid value for port: '70000' (expected a valid u16)"
    );
    let env = EnvVars::new().with("ARQEN_WORKER_LEASE_SECONDS", "-1");
    let error = AppConfig::default().apply_env(&env).err().unwrap();
    assert_eq!(
        error.message(),
        "invalid value for worker_lease_seconds: '-1' (expected a valid u32)"
    );
}

#[test]
fn sync_enabled_without_mode_selects_http() {
    let env = EnvVars::new().with("ARQEN_SYNC_ENABLED", "1");
    let config = match AppConfig::default().apply_env(&env) {
        Ok(c) => c,
        Err(e) => panic!("{}", e.message()),
    };
    assert!(config.sync.enabled);
    assert_eq!(config.sync.mode, ThingdSyncMode::Http);
    assert_eq!(ThingdSyncMode::parse_str("  OFF ").unwrap(), ThingdSyncMode::Disabled);
}

#[test]
fn production_guardrails() {
    let config = AppConfig::default();
    let error = config.validate_production().unwrap_err();
    assert_eq!(
        error.message(),
        "invalid value for storage.mode: 'memory' (expected native, http, or cloud in production)"
    );
    let mut config = AppConfig::default();
    config.storage.mode = StorageMode::Native;
    config.storage.persistent_path = Some("/data".into());
    config.auth.enabled = true;
    config.logging.format = LogFormat::Json;
    assert!(config.validate_production().is_err());
    assert!(config.validate_production_with_schema_validation(false).is_ok());
    config.storage.schema_path = Some("app.thingd".into());
    assert!(config.validate_production().is_ok());
}

#[test]
fn batch_size_error_names_the_value() {
    let mut config = AppConfig::default();
    config.sync.enabled = true;
    config.sync.mode = ThingdSyncMode::Http;
    config.sync.source_id = Some("a".into());
    config.sync.target_url = Some("http://t".into());
    config.sync.replicate_all = true;
    config.sync.batch_size = 1500;
    let error = config.validate().unwrap_err();
    assert_eq!(
        error.message(),
        "invalid value for sync.batch_size: '1500' (expected between 1 and 1000)"
    );
}

#[test]
fn storage_mode_names_read_back() {
    let modes = [
        StorageMode::Memory,
        StorageMode::Native,
        StorageMode::Persistent,
        StorageMode::Http,
        StorageMode::Cloud,
    ];
    for m in modes {
        assert_eq!(StorageMode::parse_str(m.as_str()).unwrap(), m);
    }
    for a in modes {
        for b in modes {
            if a != b {
                assert_ne!(a.as_str(), b.as_str());
            }
        }
    }
    assert_eq!(StorageMode::parse_str("MeMoRy").unwrap(), StorageMode::Memory);
}

#[test]
fn secret_clone_keeps_value() {
    let s = Secret::new("token-123".to_string());
    let c = s.clone();
    assert_eq!(s.inner(), "token-123");
    assert_eq!(c.into_inner(), *s.inner());
}
