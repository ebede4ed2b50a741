use arqen::config::{AppConfig, ConfigError};
use arqen::tooling::{
    cargo_report, check_report, configured_data_dir, doctor_report, failure_detail, format_report, lint_exit,
    lint_step, step_line, step_shown, CargoRun, ConfigProbe, ExitCode, FormatRun, LintRun, StepStatus, ToolStep,
};

#[test]
fn failure_details_keep_three_lines() {
    assert_eq!(failure_detail("  \n ", "nothing"), "nothing");
    assert_eq!(failure_detail("\na\nb\r\nc\nd\n", "x"), "a; b; c");
    assert_eq!(failure_detail("only one", "x"), "only one");
}

#[test]
fn report_lines() {
    let s = ToolStep { name: "rustc".to_string(), status: StepStatus::Failure, detail: "rustc not found".to_string() };
    assert_eq!(step_line(&s, None), "  [FAIL] rustc: rustc not found");
    assert_eq!(step_line(&s, Some(3)), "  3. [FAIL] rustc: rustc not found");
    assert!(step_shown(true, &s));
    let ok = ToolStep { name: "a".to_string(), status: StepStatus::Pass, detail: "b".to_string() };
    assert!(!step_shown(true, &ok));
    assert!(step_shown(false, &ok));
    assert_eq!(StepStatus::Warning.as_str(), "warn");
    assert_eq!(StepStatus::Failure.as_str(), "fail");
}

#[test]
fn doctor_needs_rustc_and_cargo() {
    let vars = vec![Some("0.0.0.0".to_string()), None, None, Some("memory".to_string())];
    let (steps, code) = doctor_report(Some("rustc 1.9".to_string()), None, None, Some("v2".to_string()), None, &vars);
    assert_eq!(code, ExitCode::Dependency);
    assert_eq!(steps.len(), 6);
    assert_eq!(steps[1].detail, "cargo not found");
    assert_eq!(steps[2].detail, "docker not found (optional)");
    assert_eq!(steps[2].status, StepStatus::Warning);
    assert_eq!(steps[4].detail, "ARQEN_THINGD_URL not set");
    assert_eq!(
        steps[5].detail,
        "ARQEN_HOST=0.0.0.0, ARQEN_PORT (default), ARQEN_LOG_LEVEL (default), ARQEN_STORAGE_MODE=memory"
    );
    let (_, fine) = doctor_report(Some("r".to_string()), Some("c".to_string()), None, None, None, &vec![None, None, None, None]);
    assert_eq!(fine, ExitCode::Success);
}

#[test]
fn check_reports_configuration_problems() {
    let (steps, code) = check_report(Some("r".to_string()), Some("c".to_string()), false, "arqen.toml", ConfigProbe::Absent);
    assert_eq!(code, ExitCode::Success);
    assert_eq!(steps[2].detail, "Cargo.toml not found in current directory");
    assert_eq!(steps[3].detail, "arqen.toml not found (using defaults)");
    let err = ConfigError::missing_field("persistent_path", "persistent storage mode");
    let text = err.message();
    let (steps, code) =
        check_report(Some("r".to_string()), Some("c".to_string()), true, "arqen.toml", ConfigProbe::Invalid(err));
    assert_eq!(code, ExitCode::Config);
    assert_eq!(steps[3].detail, format!("arqen.toml: {}", text));
    let (_, code) = check_report(None, Some("c".to_string()), true, "arqen.toml", ConfigProbe::Valid);
    assert_eq!(code, ExitCode::Dependency);
}

#[test]
fn cargo_command_reports() {
    let ok = cargo_report(CargoRun::Succeeded, "All tests passed", "Tests failed");
    assert_eq!(ok.exit, ExitCode::Success);
    assert_eq!(ok.message, "All tests passed");
    let failed = cargo_report(CargoRun::Failed(Some(101)), "All tests passed", "Tests failed");
    assert_eq!(failed.exit, ExitCode::Runtime);
    assert_eq!(failed.exit_code, Some(101));
    assert_eq!(failed.message, "Tests failed (exit code 101)");
    let killed = cargo_report(CargoRun::Failed(None), "Build succeeded", "Build failed");
    assert_eq!(killed.message, "Build failed (exit code 1)");
    let missing = cargo_report(CargoRun::NotRun("No such file".to_string()), "Docs generated", "Docs failed");
    assert_eq!(missing.exit, ExitCode::Dependency);
    assert_eq!(missing.detail, Some("cargo not found: No such file".to_string()));
    assert!(!missing.hidden_when_quiet);
    let fmt = format_report(FormatRun::Failed("  bad file \n".to_string()));
    assert_eq!(fmt.message, "Format failed: bad file");
    assert_eq!(format_report(FormatRun::Succeeded).message, "Formatted successfully");
}

#[test]
fn lint_steps_and_exit() {
    let (fmt, stop) = lint_step("fmt", LintRun::Failed(String::new()), "formatting OK", "formatting issues found");
    assert!(!stop);
    assert_eq!(fmt.detail, "formatting issues found");
    let (clippy, _) = lint_step("clippy", LintRun::Passed, "no warnings", "warnings found");
    assert_eq!(clippy.status, StepStatus::Pass);
    assert_eq!(lint_exit(&vec![fmt, clippy], false), ExitCode::Runtime);
    let (missing, stop) = lint_step("fmt", LintRun::NotRun("gone".to_string()), "ok", "x");
    assert!(stop);
    assert_eq!(missing.detail, "cargo not found: gone");
    assert_eq!(lint_exit(&vec![missing], true), ExitCode::Dependency);
    assert_eq!(lint_exit(&vec![], false), ExitCode::Success);
}

#[test]
fn data_directory_comes_from_flag_or_config() {
    assert_eq!(configured_data_dir(Some("/data"), None), Ok("/data".to_string()));
    let mut config = AppConfig::default();
    assert_eq!(
        configured_data_dir(None, Some(Ok(config.clone()))),
        Err("native store path is not configured; pass --data-dir".to_string())
    );
    config.storage.persistent_path = Some("/var/arqen".to_string());
    assert_eq!(configured_data_dir(None, Some(Ok(config))), Ok("/var/arqen".to_string()));
}

#[test]
fn doctor_reports_found_versions() {
    let (steps, code) = doctor_report(
        Some("rustc 1.80.0".to_string()),
        Some("cargo 1.80.0".to_string()),
        Some("Docker version 27".to_string()),
        None,
        None,
        &vec![None, None, None, None],
    );
    assert_eq!(code, ExitCode::Success);
    assert_eq!(steps[0].detail, "rustc 1.80.0");
    assert_eq!(steps[1].detail, "cargo 1.80.0");
    assert_eq!(steps[2].detail, "Docker version 27");
    assert_eq!(steps[3].detail, "docker-compose not found (optional)");
    let (steps, _) = check_report(None, Some("cargo 1".to_string()), true, "arqen.toml", ConfigProbe::Valid);
    assert_eq!(steps[0].detail, "rustc not found");
    assert_eq!(steps[1].detail, "cargo 1");
}
