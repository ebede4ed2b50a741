use arqen::health::{
    build_report, timeout_status, AlwaysDegraded, AlwaysHealthy, AlwaysTimeout, AlwaysUnhealthy,
    CheckResult, HealthCheck, HealthRegistry, HealthStatus, OptionalCheck, ProbeType,
};
use std::sync::Arc;

fn result(name: &str, status: HealthStatus) -> CheckResult {
    CheckResult { name: name.to_string(), status, duration_ms: 1 }
}

#[test]
fn test_health_status_is_healthy() {
    assert!(HealthStatus::Healthy.is_healthy());
    assert!(!HealthStatus::Degraded { reason: "test".to_string() }.is_healthy());
    assert!(!HealthStatus::Unhealthy { reason: "test".to_string() }.is_healthy());
}

#[test]
fn test_health_status_is_degraded() {
    assert!(!HealthStatus::Healthy.is_degraded());
    assert!(HealthStatus::Degraded { reason: "test".to_string() }.is_degraded());
    assert!(!HealthStatus::Unhealthy { reason: "test".to_string() }.is_degraded());
}

#[test]
fn test_health_status_is_unhealthy() {
    assert!(!HealthStatus::Healthy.is_unhealthy());
    assert!(!HealthStatus::Degraded { reason: "test".to_string() }.is_unhealthy());
    assert!(HealthStatus::Unhealthy { reason: "test".to_string() }.is_unhealthy());
}

#[test]
fn test_health_status_display() {
    assert_eq!(HealthStatus::Healthy.to_text(), "healthy");
    assert_eq!(
        HealthStatus::Degraded { reason: "slow".to_string() }.to_text(),
        "degraded: slow"
    );
    assert_eq!(
        HealthStatus::Unhealthy { reason: "down".to_string() }.to_text(),
        "unhealthy: down"
    );
}

#[test]
fn test_health_status_http_codes() {
    assert_eq!(HealthStatus::Healthy.to_http_status(), 200);
    assert_eq!(HealthStatus::Degraded { reason: "slow".to_string() }.to_http_status(), 200);
    assert_eq!(HealthStatus::Unhealthy { reason: "down".to_string() }.to_http_status(), 503);
}

#[test]
fn test_health_registry_empty() {
    let report = build_report(vec![], "t".to_string(), ProbeType::Liveness);
    assert_eq!(report.status, HealthStatus::Healthy);
    assert!(report.checks.is_empty());
}

#[test]
fn test_health_registry_degraded() {
    let checks = vec![
        result("always_healthy", AlwaysHealthy.status()),
        result("always_degraded", AlwaysDegraded::new("slow").status()),
    ];
    let report = build_report(checks, "t".to_string(), ProbeType::Liveness);
    assert!(report.status.is_degraded());
    assert_eq!(report.checks.len(), 2);
}

#[test]
fn test_health_registry_unhealthy() {
    let checks = vec![
        result("always_healthy", AlwaysHealthy.status()),
        result("always_unhealthy", AlwaysUnhealthy::new("down").status()),
    ];
    let report = build_report(checks, "t".to_string(), ProbeType::Liveness);
    assert!(report.status.is_unhealthy());
    assert_eq!(report.checks.len(), 2);
}

#[test]
fn unhealthy_dominates_and_first_degraded_counts() {
    let checks = vec![
        result("a", HealthStatus::Degraded { reason: "first".to_string() }),
        result("b", HealthStatus::Degraded { reason: "second".to_string() }),
    ];
    let report = build_report(checks, "t".to_string(), ProbeType::Liveness);
    assert_eq!(report.status, HealthStatus::Degraded { reason: "first".to_string() });
    let checks = vec![
        result("a", HealthStatus::Unhealthy { reason: "x".to_string() }),
        result("b", HealthStatus::Degraded { reason: "y".to_string() }),
    ];
    let report = build_report(checks, "t".to_string(), ProbeType::Readiness);
    assert_eq!(report.status, HealthStatus::Unhealthy { reason: "x".to_string() });
}

#[test]
fn test_health_registry_timeout() {
    let check = AlwaysTimeout::new(100);
    assert_eq!(check.name(), "always_timeout");
    let status = timeout_status(check.timeout_ms());
    assert_eq!(status, HealthStatus::Unhealthy { reason: "check timed out after 10ms".to_string() });
    let report = build_report(vec![result("always_timeout", status)], "t".to_string(), ProbeType::Liveness);
    assert!(report.status.is_unhealthy());
}

#[test]
fn test_readiness_skips_optional() {
    let mut registry: HealthRegistry<Arc<dyn HealthCheck>> = HealthRegistry::new();
    registry.register(Arc::new(AlwaysHealthy));
    registry.register(Arc::new(OptionalCheck));

    let liveness = registry.checks_for(ProbeType::Liveness);
    let outcomes = liveness.iter().map(|_| (HealthStatus::Healthy, 1)).collect();
    let liveness = registry.report_for(ProbeType::Liveness, outcomes, "t".to_string());
    assert_eq!(liveness.checks.len(), 2);

    let readiness = registry.checks_for(ProbeType::Readiness);
    let outcomes = readiness.iter().map(|_| (HealthStatus::Healthy, 1)).collect();
    let readiness = registry.report_for(ProbeType::Readiness, outcomes, "t".to_string());
    assert_eq!(readiness.checks.len(), 1);
    assert_eq!(readiness.checks[0].name, "always_healthy");
}

#[test]
fn registry_reports_in_registration_order() {
    let mut registry: HealthRegistry<Arc<dyn HealthCheck>> = HealthRegistry::new();
    registry.register(Arc::new(AlwaysHealthy));
    registry.register(Arc::new(AlwaysDegraded::new("slow")));
    registry.register(Arc::new(AlwaysTimeout::new(100)));
    assert_eq!(registry.len(), 3);
    assert_eq!(registry.check(2).timeout_ms(), 10);
    assert_eq!(registry.check(0).timeout_ms(), 5000);
    let outcomes = vec![
        (AlwaysHealthy.status(), 1),
        (AlwaysDegraded::new("slow").status(), 2),
        (timeout_status(10), 10),
    ];
    let report = registry.report_for(ProbeType::Liveness, outcomes, "t".to_string());
    let names: Vec<&str> = report.checks.iter().map(|c| c.name.as_str()).collect();
    assert_eq!(names, vec!["always_healthy", "always_degraded", "always_timeout"]);
    assert_eq!(report.checks[1].duration_ms, 2);
    assert!(report.status.is_unhealthy());
    assert_eq!(report.probe_type, ProbeType::Liveness);
}

#[test]
fn test_always_degraded() {
    let check = AlwaysDegraded::new("slow");
    assert_eq!(check.name(), "always_degraded");
    assert!(check.status().is_degraded());
    let check = AlwaysUnhealthy::new("down");
    assert_eq!(check.name(), "always_unhealthy");
    assert!(check.status().is_unhealthy());
}
