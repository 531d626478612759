use orchestrator::health::{
    derive_service_health, service_health, HealthSpec, ManifestStatus, Observation,
    ServiceState,
};

fn spec(name: &str, expected: &str) -> HealthSpec {
    HealthSpec {
        name: name.to_string(),
        manifest_path: format!("/run/{name}.json"),
        expected_version: expected.to_string(),
    }
}

fn obs(version: &str, status: ManifestStatus, alive: bool) -> Option<Observation> {
    Some(Observation { pid: 7, version: version.to_string(), status, alive })
}

#[test]
fn each_service_is_reported_in_order() {
    let specs = vec![spec("gate", "1.0.0"), spec("daemon", "1.0.0")];
    let health = derive_service_health(
        &specs,
        vec![obs("1.0.0", ManifestStatus::Ready, true), None],
    );
    assert_eq!(health.len(), 2);
    assert_eq!(health[0].name, "gate");
    assert_eq!(health[0].state, ServiceState::Ready);
    assert_eq!(health[0].version.as_deref(), Some("1.0.0"));
    assert_eq!(health[1].name, "daemon");
    assert_eq!(health[1].state, ServiceState::Unavailable);
    assert_eq!(health[1].version, None);
}

#[test]
fn a_dead_process_reads_as_unavailable() {
    let h = service_health(&spec("gate", "1.0.0"), obs("1.0.0", ManifestStatus::Ready, false));
    assert_eq!(h.state, ServiceState::Unavailable);
    assert_eq!(h.version, None);
}

#[test]
fn another_version_is_a_mismatch() {
    let h = service_health(&spec("gate", "1.0.0"), obs("0.9.0", ManifestStatus::Ready, true));
    assert_eq!(h.state, ServiceState::VersionMismatch);
    assert_eq!(h.version.as_deref(), Some("0.9.0"));
}

#[test]
fn lifecycle_statuses_carry_over() {
    let s = spec("gate", "2");
    assert_eq!(service_health(&s, obs("2", ManifestStatus::Starting, true)).state, ServiceState::Starting);
    assert_eq!(service_health(&s, obs("2", ManifestStatus::Draining, true)).state, ServiceState::Draining);
}
