use arqen::config::EnvVars;
use arqen::error::{AppError, ErrorKind};
use arqen::oenv::{
    default_environment, default_executable, default_project_file, load_configured, OenvConfig, OenvProvider,
    OenvRun, OenvVersionRun, SecretEnvironment,
};

#[test]
fn oenv_config_defaults() {
    let c = OenvConfig::default();
    assert!(!c.enabled);
    assert!(!c.required);
    assert_eq!(c.environment, "dev");
    assert_eq!(c.project_file, "open-envault.yaml");
    assert_eq!(c.executable, "oenv");
    assert_eq!(default_environment(), "dev");
    assert_eq!(default_project_file(), "open-envault.yaml");
    assert_eq!(default_executable(), "oenv");
    let r = OenvConfig::required("prod");
    assert!(r.enabled && r.required);
    assert_eq!(r.environment, "prod");
}

#[test]
fn env_listing_becomes_secret_variables() {
    let env = SecretEnvironment::from_env_output("A=1\r\nB=x=y\nnoise\nA=2\n\nC=\n");
    assert_eq!(env.get("A"), Some("2"));
    assert_eq!(env.get("B"), Some("x=y"));
    assert_eq!(env.get("C"), Some(""));
    assert_eq!(env.get("noise"), None);
    assert_eq!(env.len(), 3);
    assert!(!env.is_empty());
    assert!(SecretEnvironment::from_env_output("").is_empty());
}

#[test]
fn last_line_without_newline_counts() {
    let env = SecretEnvironment::from_env_output("KEY=value\r");
    assert_eq!(env.get("KEY"), Some("value\r"));
}

#[test]
fn secrets_override_the_environment() {
    let env = SecretEnvironment::from_env_output("A=secret\nB=other\n");
    let mut target = EnvVars::new().with("A", "plain").with("C", "kept");
    env.merge_into(&mut target);
    assert_eq!(target.get("A"), Some("secret".to_string()));
    assert_eq!(target.get("B"), Some("other".to_string()));
    assert_eq!(target.get("C"), Some("kept".to_string()));
}

#[test]
fn oenv_runs_become_errors_or_secrets() {
    let provider = OenvProvider::from_config(&OenvConfig::default());
    match provider.load_from(OenvRun::SpawnFailed("no such file".to_string())) {
        Err(e) => {
            assert_eq!(e.kind, ErrorKind::Dependency);
            assert_eq!(e.message, "failed to run oenv: no such file");
        },
        Ok(_) => panic!("expected an error"),
    }
    match provider.load_from(OenvRun::Failed) {
        Err(e) => assert_eq!(e.message, "oenv could not load the selected environment"),
        Ok(_) => panic!("expected an error"),
    }
    match provider.load_from(OenvRun::NotText) {
        Err(e) => assert_eq!(e.message, "oenv returned invalid environment data"),
        Ok(_) => panic!("expected an error"),
    }
    let env = provider.load_from(OenvRun::Listing("X=1\n".to_string())).ok().unwrap();
    assert_eq!(env.get("X"), Some("1"));
    let args = provider.exec_args("staging");
    assert_eq!(args, vec!["exec", "staging", "--", "env"]);
    let status = provider.check_from("dev", OenvVersionRun::Succeeded).ok().unwrap();
    assert!(status.available);
    assert_eq!(status.environment, "dev");
    match provider.check_from("dev", OenvVersionRun::Failed) {
        Err(e) => assert_eq!(e.message, "oenv version check failed"),
        Ok(_) => panic!("expected an error"),
    }
}

#[test]
fn loading_failures_are_fatal_only_when_required() {
    let disabled = OenvConfig::default();
    assert!(matches!(load_configured(&disabled, None), Ok(None)));
    let mut optional = OenvConfig::default();
    optional.enabled = true;
    let failed = || Some(Err(AppError::new(ErrorKind::Dependency, "down")));
    assert!(matches!(load_configured(&optional, failed()), Ok(None)));
    let required = OenvConfig::required("dev");
    match load_configured(&required, failed()) {
        Err(e) => assert_eq!(e.message, "down"),
        Ok(_) => panic!("expected the error"),
    }
    let loaded = load_configured(&required, Some(Ok(SecretEnvironment::from_env_output("K=v")))).ok().unwrap().unwrap();
    assert_eq!(loaded.get("K"), Some("v"));
}
