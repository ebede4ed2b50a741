use arqen::dev::{
    join_args, readiness, select_services, spawn_outcome, Console, DevConfig, DevSection, DevService, ExitStatusInfo,
    UpState,
};

fn service(name: &str) -> DevService {
    DevService {
        name: name.into(),
        command: "true".into(),
        args: vec![],
        cwd: None,
        env: Default::default(),
        ready_url: None,
        ready_timeout_seconds: None,
    }
}

#[test]
fn rejects_unknown_selection() {
    let config = DevConfig {
        dev: DevSection {
            services: vec![DevService {
                name: "backend".into(),
                command: "true".into(),
                args: vec![],
                cwd: None,
                env: Default::default(),
                ready_url: None,
                ready_timeout_seconds: None,
            }],
        },
    };
    let err = select_services(&config, &vec!["nope".to_string()]).unwrap_err();
    assert!(err.to_string().contains("unknown dev service"));
}

#[test]
fn selects_all_or_the_named_services() {
    let config = DevConfig { dev: DevSection { services: vec![service("db"), service("api"), service("web")] } };
    let all = select_services(&config, &vec![]).unwrap();
    assert_eq!(all.iter().map(|s| s.name.as_str()).collect::<Vec<_>>(), vec!["db", "api", "web"]);
    let some = select_services(&config, &vec!["web".to_string(), "db".to_string()]).unwrap();
    assert_eq!(some.iter().map(|s| s.name.as_str()).collect::<Vec<_>>(), vec!["web", "db"]);
    let err = select_services(&config, &vec!["api".to_string(), "x".to_string(), "y".to_string()]).unwrap_err();
    assert_eq!(err, "unknown dev service 'x'");
}

#[test]
fn readiness_defaults_to_sixty_seconds() {
    let mut a = service("a");
    a.ready_url = Some("http://localhost:1/health".into());
    let mut b = service("b");
    b.ready_url = Some("http://localhost:2/health".into());
    b.ready_timeout_seconds = Some(5);
    let c = service("c");
    let probes = readiness(&vec![&a, &c, &b]);
    assert_eq!(
        probes,
        vec![
            ("a".to_string(), "http://localhost:1/health".to_string(), 60),
            ("b".to_string(), "http://localhost:2/health".to_string(), 5),
        ]
    );
}

#[test]
fn console_lines_without_colour() {
    let c = Console { color: false };
    assert_eq!(c.paint("x", 31), "x");
    assert_eq!(c.dim("x"), "x");
    assert_eq!(c.service("api"), "api         ");
    assert_eq!(c.service("a-very-long-name"), "a-very-long-name");
    assert_eq!(c.header(1), "◆ arqen dev · 1 service");
    assert_eq!(c.header(2), "◆ arqen dev · 2 services");
    assert_eq!(c.plan("api", "cargo", "run --release", "backend"), "  │ api          cargo run --release · backend");
    assert_eq!(c.plan("api", "cargo", "", "."), "  │ api          cargo · .");
    assert_eq!(c.footer(), "  └ Ctrl+C to stop");
    assert_eq!(c.child_line("api", "hello"), "api          │ hello");
    assert_eq!(join_args(&vec!["compose".to_string(), "up".to_string()]), "compose up");
}

#[test]
fn console_lines_with_colour() {
    let c = Console { color: true };
    assert_eq!(c.paint("x", 31), "\x1b[31mx\x1b[0m");
    assert_eq!(c.dim("x"), "\x1b[2mx\x1b[0m");
    // "a" is byte 97; 97 % 5 == 2 picks colour 33.
    assert_eq!(c.service("a"), "\x1b[33ma           \x1b[0m");
    assert_eq!(c.success("done"), "\x1b[32m✓\x1b[0m done");
}

#[test]
fn exit_reports() {
    let c = Console { color: false };
    let ok = Some(ExitStatusInfo { code: Some(0), success: true });
    let bad = Some(ExitStatusInfo { code: Some(3), success: false });
    let neg = Some(ExitStatusInfo { code: Some(-2), success: false });
    let sig = Some(ExitStatusInfo { code: None, success: false });
    assert_eq!(c.exit_line("db", ok), "✓ db exited cleanly");
    assert_eq!(c.exit_line("db", bad), "× db exited with code 3");
    assert_eq!(c.exit_line("db", neg), "× db exited with code -2");
    assert_eq!(c.exit_line("db", sig), "× db terminated by signal");
    assert_eq!(c.exit_line("db", None), "× db terminated by signal");
}

#[test]
fn first_service_to_fail_stops_the_rest() {
    let c = Console { color: false };
    let mut state = UpState::new();
    let first = state.on_exit(&c, "quick", Some(ExitStatusInfo { code: Some(3), success: false }));
    assert!(first.stop_others);
    assert_eq!(first.lines, vec!["× quick exited with code 3".to_string(), "! quick stopped; shutting down the rest".to_string()]);
    let second = state.on_exit(&c, "slow", None);
    assert!(!second.stop_others);
    assert_eq!(second.lines.len(), 1);
    assert_eq!(state.outcome(), Err("dev service 'quick' exited with an error".to_string()));
}

#[test]
fn successful_exit_and_interrupt_end_cleanly() {
    let c = Console { color: false };
    let mut state = UpState::new();
    let a = state.on_exit(&c, "quick", Some(ExitStatusInfo { code: Some(0), success: true }));
    assert!(a.stop_others);
    assert_eq!(state.outcome(), Ok(()));
    let mut interrupted = UpState::new();
    let i1 = interrupted.on_interrupt(&c);
    assert!(i1.stop_others);
    assert_eq!(i1.lines, vec!["ℹ stopping services".to_string()]);
    let i2 = interrupted.on_interrupt(&c);
    assert!(!i2.stop_others);
    let late = interrupted.on_exit(&c, "slow", None);
    assert!(!late.stop_others);
    assert_eq!(interrupted.outcome(), Ok(()));
}

#[test]
fn failed_spawn_stops_started_services() {
    assert_eq!(spawn_outcome(2, Some("e".to_string())), (true, Some("e".to_string())));
    assert_eq!(spawn_outcome(0, Some("e".to_string())), (false, Some("e".to_string())));
    assert_eq!(spawn_outcome(3, None), (false, None));
}
