use url_shortener::enums::{HealthStatus, ServiceStatus};

#[test]
fn health_status_reads_healthy_and_nothing_else() {
    assert_eq!(HealthStatus::from_str("healthy"), HealthStatus::Healthy);
    assert_eq!(HealthStatus::from_str("unhealthy"), HealthStatus::Unhealthy);
    assert_eq!(HealthStatus::from_str("Healthy"), HealthStatus::Unhealthy);
    assert_eq!(HealthStatus::from_str(""), HealthStatus::Unhealthy);
    assert_eq!(HealthStatus::from_str("healthy "), HealthStatus::Unhealthy);
}

#[test]
fn health_status_has_lower_case_wire_names() {
    assert_eq!(HealthStatus::Healthy.as_str(), "healthy");
    assert_eq!(HealthStatus::Unhealthy.as_str(), "unhealthy");
    assert_eq!(HealthStatus::from_ok(true), HealthStatus::Healthy);
    assert_eq!(HealthStatus::from_ok(false), HealthStatus::Unhealthy);
}

#[test]
fn service_status_falls_back_to_failed() {
    assert_eq!(ServiceStatus::from_str("pending"), ServiceStatus::Pending);
    assert_eq!(ServiceStatus::from_str("running"), ServiceStatus::Running);
    assert_eq!(ServiceStatus::from_str("completed"), ServiceStatus::Completed);
    assert_eq!(ServiceStatus::from_str("failed"), ServiceStatus::Failed);
    assert_eq!(ServiceStatus::from_str("RUNNING"), ServiceStatus::Failed);
    assert_eq!(ServiceStatus::from_str("done"), ServiceStatus::Failed);
}

#[test]
fn service_status_round_trips_through_its_wire_name() {
    for status in [
        ServiceStatus::Pending,
        ServiceStatus::Running,
        ServiceStatus::Completed,
        ServiceStatus::Failed,
    ] {
        assert_eq!(ServiceStatus::from_str(status.as_str()), status);
    }
}
