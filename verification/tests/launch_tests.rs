use arqen::config::LogFormat;
use arqen::launch::{
    application_launch, application_outcome, dev_overrides, manifest_uses_arqen, start_overrides, watch_outcome,
    LaunchExit, ProcessRun,
};
use arqen::tooling::ExitCode;

#[test]
fn arqen_projects_are_recognised_by_their_manifest() {
    assert!(manifest_uses_arqen("[dependencies]\n  arqen = \"0.1\"\n"));
    assert!(manifest_uses_arqen("[dependencies]\narqen = { version = \"0.1\" }"));
    assert!(!manifest_uses_arqen("[dependencies]\narqen-core = \"0.1\"\n"));
    assert!(!manifest_uses_arqen(""));
}

#[test]
fn overrides_by_mode() {
    let dev = dev_overrides(Some("0.0.0.0"), Some(9000), None, Some("native"), None, false);
    assert_eq!(dev.host, Some("0.0.0.0".to_string()));
    assert_eq!(dev.port, Some(9000));
    assert_eq!(dev.log_format, Some(LogFormat::Compact));
    assert_eq!(dev.storage_mode, Some("native".to_string()));
    assert_eq!(dev_overrides(None, None, None, None, None, true).log_format, None);
    assert_eq!(dev_overrides(None, None, None, None, Some(LogFormat::Pretty), true).log_format, Some(LogFormat::Pretty));
    assert_eq!(start_overrides(None, None, Some("warn"), None, None).log_format, Some(LogFormat::Json));
    assert_eq!(start_overrides(None, None, Some("warn"), None, None).log_level, Some("warn".to_string()));
}

#[test]
fn applications_are_launched_with_their_environment() {
    let launch = application_launch(true, false, Some("prod.toml"), None, Some(80), None, None, None, false);
    assert_eq!(launch.args, vec!["run", "--quiet"]);
    assert_eq!(
        launch.env,
        vec![
            ("ARQEN_CONFIG_FILE".to_string(), "prod.toml".to_string()),
            ("ARQEN_PORT".to_string(), "80".to_string()),
            ("ARQEN_LOG_FORMAT".to_string(), "json".to_string()),
            ("ARQEN_LAUNCH_MODE".to_string(), "production".to_string()),
        ]
    );
    assert_eq!(launch.announcement, "Starting application in production mode");
    let dev = application_launch(false, true, None, None, None, Some("debug"), None, None, true);
    assert_eq!(dev.args, vec!["watch", "--why", "-x", "run"]);
    assert_eq!(dev.env, vec![("ARQEN_LOG_LEVEL".to_string(), "debug".to_string())]);
    assert_eq!(dev.announcement, "Starting application in development mode with automatic reload");
}

#[test]
fn application_exits() {
    assert_eq!(application_outcome(ProcessRun::Succeeded), (LaunchExit::Status(ExitCode::Success), None));
    assert_eq!(
        application_outcome(ProcessRun::Exited(Some(4))),
        (LaunchExit::Code(4), Some("application process exited with code 4".to_string()))
    );
    assert_eq!(
        application_outcome(ProcessRun::Exited(None)),
        (LaunchExit::Status(ExitCode::Runtime), Some("application process exited with a signal".to_string()))
    );
    assert_eq!(application_outcome(ProcessRun::NotFound).0, LaunchExit::Status(ExitCode::Config));
    assert_eq!(watch_outcome(ProcessRun::Exited(Some(2))), (LaunchExit::Code(2), None));
    assert_eq!(
        watch_outcome(ProcessRun::Failed("denied".to_string())).1,
        Some("failed to start automatic reload: denied".to_string())
    );
}
