//! Health check scheduling and evaluation.

use bun::clock::{Duration, Instant};
use bun::health::{
    evaluate_result, ContainerState, HealthCheckConfig, HealthChecker, HealthCounters,
    HealthProtocol, HealthSpec, HealthStatus, InstanceId,
};

fn start() -> Instant {
    Instant { nanos: 7_000_000_000 }
}


// -- HealthCheckConfig resolution -----------------------------------------

fn make_spec(path: &str) -> HealthSpec {
    HealthSpec {
        path: path.to_string(),
        port: None,
        protocol: HealthProtocol::Http,
        interval: None,
        timeout: None,
        threshold_unhealthy: None,
        threshold_healthy: None,
        initial_delay: None,
    }
}

#[test]
fn config_from_spec_applies_defaults() {
    let spec = make_spec("/healthz");
    let config = HealthCheckConfig::from_spec(&spec, 8080);
    assert_eq!(config.path, "/healthz");
    assert_eq!(config.port, 8080);
    assert_eq!(config.interval, Duration::from_secs(10));
    assert_eq!(config.timeout, Duration::from_secs(5));
    assert_eq!(config.threshold_unhealthy, 3);
    assert_eq!(config.threshold_healthy, 1);
    assert_eq!(config.initial_delay, Duration::from_secs(0));
}

#[test]
fn config_from_spec_uses_custom_values() {
    let spec = HealthSpec {
        path: "/ready".to_string(),
        port: Some(9090),
        protocol: HealthProtocol::Https,
        interval: Some(30),
        timeout: Some(10),
        threshold_unhealthy: Some(5),
        threshold_healthy: Some(2),
        initial_delay: Some(15),
    };
    let config = HealthCheckConfig::from_spec(&spec, 8080);
    assert_eq!(config.port, 9090);
    assert_eq!(config.protocol, HealthProtocol::Https);
    assert_eq!(config.interval, Duration::from_secs(30));
    assert_eq!(config.timeout, Duration::from_secs(10));
    assert_eq!(config.threshold_unhealthy, 5);
    assert_eq!(config.threshold_healthy, 2);
    assert_eq!(config.initial_delay, Duration::from_secs(15));
}

#[test]
fn config_from_spec_falls_back_to_app_port() {
    let spec = make_spec("/health");
    let config = HealthCheckConfig::from_spec(&spec, 3000);
    assert_eq!(config.port, 3000);
}

// -- HealthCounters -------------------------------------------------------

#[test]
fn counters_start_at_zero() {
    let counters = HealthCounters::new();
    assert_eq!(counters.consecutive_healthy, 0);
    assert_eq!(counters.consecutive_unhealthy, 0);
}

#[test]
fn record_healthy_increments_and_resets_unhealthy() {
    let mut counters = HealthCounters::new();
    counters.record_unhealthy();
    counters.record_unhealthy();
    counters.record_healthy();
    assert_eq!(counters.consecutive_healthy, 1);
    assert_eq!(counters.consecutive_unhealthy, 0);
}

#[test]
fn record_unhealthy_increments_and_resets_healthy() {
    let mut counters = HealthCounters::new();
    counters.record_healthy();
    counters.record_healthy();
    counters.record_unhealthy();
    assert_eq!(counters.consecutive_unhealthy, 1);
    assert_eq!(counters.consecutive_healthy, 0);
}

#[test]
fn reset_clears_both_counters() {
    let mut counters = HealthCounters::new();
    counters.record_healthy();
    counters.record_healthy();
    counters.reset();
    assert_eq!(counters.consecutive_healthy, 0);
    assert_eq!(counters.consecutive_unhealthy, 0);
}

// -- HealthStatus ---------------------------------------------------------

#[test]
fn healthy_is_healthy() {
    assert!(HealthStatus::Healthy.is_healthy());
}

#[test]
fn unhealthy_statuses_are_not_healthy() {
    assert!(!HealthStatus::Unhealthy.is_healthy());
    assert!(!HealthStatus::Timeout.is_healthy());
    assert!(!HealthStatus::ConnectionRefused.is_healthy());
}

// -- evaluate_result ------------------------------------------------------

fn default_config() -> HealthCheckConfig {
    HealthCheckConfig::from_spec(&make_spec("/healthz"), 8080)
}

#[test]
fn health_wait_transitions_to_running_when_threshold_met() {
    let config = default_config();
    let counters = HealthCounters {
        consecutive_healthy: 1,
        consecutive_unhealthy: 0,
    };
    let result = evaluate_result(
        HealthStatus::Healthy,
        &counters,
        ContainerState::HealthWait,
        &config,
    );
    assert_eq!(result, Some(ContainerState::Running));
}

#[test]
fn health_wait_no_transition_below_threshold() {
    let mut config = default_config();
    config.threshold_healthy = 3;
    let counters = HealthCounters {
        consecutive_healthy: 2,
        consecutive_unhealthy: 0,
    };
    let result = evaluate_result(
        HealthStatus::Healthy,
        &counters,
        ContainerState::HealthWait,
        &config,
    );
    assert_eq!(result, None);
}

#[test]
fn running_transitions_to_unhealthy_when_threshold_met() {
    let config = default_config();
    let counters = HealthCounters {
        consecutive_healthy: 0,
        consecutive_unhealthy: 3,
    };
    let result = evaluate_result(
        HealthStatus::Unhealthy,
        &counters,
        ContainerState::Running,
        &config,
    );
    assert_eq!(result, Some(ContainerState::Unhealthy));
}

#[test]
fn running_no_transition_below_unhealthy_threshold() {
    let config = default_config();
    let counters = HealthCounters {
        consecutive_healthy: 0,
        consecutive_unhealthy: 2,
    };
    let result = evaluate_result(
        HealthStatus::Unhealthy,
        &counters,
        ContainerState::Running,
        &config,
    );
    assert_eq!(result, None);
}

#[test]
fn unhealthy_recovers_to_running() {
    let config = default_config();
    let counters = HealthCounters {
        consecutive_healthy: 1,
        consecutive_unhealthy: 0,
    };
    let result = evaluate_result(
        HealthStatus::Healthy,
        &counters,
        ContainerState::Unhealthy,
        &config,
    );
    assert_eq!(result, Some(ContainerState::Running));
}

#[test]
fn timeout_counts_as_unhealthy() {
    let config = default_config();
    let counters = HealthCounters {
        consecutive_healthy: 0,
        consecutive_unhealthy: 3,
    };
    let result = evaluate_result(
        HealthStatus::Timeout,
        &counters,
        ContainerState::Running,
        &config,
    );
    assert_eq!(result, Some(ContainerState::Unhealthy));
}

#[test]
fn connection_refused_counts_as_unhealthy() {
    let config = default_config();
    let counters = HealthCounters {
        consecutive_healthy: 0,
        consecutive_unhealthy: 3,
    };
    let result = evaluate_result(
        HealthStatus::ConnectionRefused,
        &counters,
        ContainerState::Running,
        &config,
    );
    assert_eq!(result, Some(ContainerState::Unhealthy));
}

#[test]
fn irrelevant_state_returns_none() {
    let config = default_config();
    let counters = HealthCounters {
        consecutive_healthy: 10,
        consecutive_unhealthy: 0,
    };
    // Pending state: health checks don't drive transitions
    let result = evaluate_result(
        HealthStatus::Healthy,
        &counters,
        ContainerState::Pending,
        &config,
    );
    assert_eq!(result, None);
}

#[test]
fn stopping_state_ignores_health_results() {
    let config = default_config();
    let counters = HealthCounters {
        consecutive_healthy: 0,
        consecutive_unhealthy: 10,
    };
    let result = evaluate_result(
        HealthStatus::Unhealthy,
        &counters,
        ContainerState::Stopping,
        &config,
    );
    assert_eq!(result, None);
}

// -- HealthChecker scheduling ---------------------------------------------

#[test]
fn register_schedules_first_check_after_initial_delay() {
    let mut checker = HealthChecker::new();
    let now = start();
    let mut config = default_config();
    config.initial_delay = Duration::from_secs(5);

    checker.register(InstanceId("web-0".to_string()), config, now);

    assert_eq!(checker.registered_count(), 1);
    let deadline = checker.next_deadline().unwrap();
    assert_eq!(deadline, now.plus(Duration::from_secs(5)));
}

#[test]
fn register_with_zero_delay_schedules_immediately() {
    let mut checker = HealthChecker::new();
    let now = start();
    let config = default_config();

    checker.register(InstanceId("web-0".to_string()), config, now);
    assert_eq!(checker.next_deadline().unwrap(), now);
}

#[test]
fn pop_due_returns_none_before_deadline() {
    let mut checker = HealthChecker::new();
    let now = start();
    let mut config = default_config();
    config.initial_delay = Duration::from_secs(10);

    checker.register(InstanceId("web-0".to_string()), config, now);

    // 5 seconds later: not yet due
    assert!(checker.pop_due(now.plus(Duration::from_secs(5))).is_none());
}

#[test]
fn pop_due_returns_entry_at_deadline() {
    let mut checker = HealthChecker::new();
    let now = start();
    let config = default_config();

    checker.register(InstanceId("web-0".to_string()), config, now);

    let (id, _cfg) = checker.pop_due(now).unwrap();
    assert_eq!(id, InstanceId("web-0".to_string()));
}

#[test]
fn pop_due_returns_earliest_first() {
    let mut checker = HealthChecker::new();
    let now = start();

    let mut early_config = default_config();
    early_config.initial_delay = Duration::from_secs(1);
    let mut late_config = default_config();
    late_config.initial_delay = Duration::from_secs(5);

    checker.register(InstanceId("late-0".to_string()), late_config, now);
    checker.register(InstanceId("early-0".to_string()), early_config, now);

    let after_both = now.plus(Duration::from_secs(10));
    let (first_id, _) = checker.pop_due(after_both).unwrap();
    assert_eq!(first_id, InstanceId("early-0".to_string()));

    let (second_id, _) = checker.pop_due(after_both).unwrap();
    assert_eq!(second_id, InstanceId("late-0".to_string()));
}

#[test]
fn unregister_causes_lazy_skip() {
    let mut checker = HealthChecker::new();
    let now = start();
    let config = default_config();

    checker.register(InstanceId("web-0".to_string()), config.clone(), now);
    checker.register(InstanceId("web-1".to_string()), config, now);
    checker.unregister(&InstanceId("web-0".to_string()));

    assert_eq!(checker.registered_count(), 1);

    let (id, _) = checker.pop_due(now).unwrap();
    assert_eq!(id, InstanceId("web-1".to_string()));
}

#[test]
fn schedule_next_adds_interval() {
    let mut checker = HealthChecker::new();
    let now = start();
    let config = default_config(); // interval = 10s

    checker.register(InstanceId("web-0".to_string()), config, now);
    // Pop the initial entry
    let _ = checker.pop_due(now).unwrap();

    // Schedule next
    checker.schedule_next(InstanceId("web-0".to_string()), now);

    let deadline = checker.next_deadline().unwrap();
    assert_eq!(deadline, now.plus(Duration::from_secs(10)));
}

#[test]
fn empty_checker_has_no_deadline() {
    let checker = HealthChecker::new();
    assert!(checker.next_deadline().is_none());
    assert_eq!(checker.registered_count(), 0);
}

#[test]
fn pop_due_on_empty_returns_none() {
    let mut checker = HealthChecker::new();
    assert!(checker.pop_due(start()).is_none());
}

// -- Laws ------------------------------------------------------------------

#[test]
fn checks_of_one_deadline_come_as_they_were_registered() {
    let mut checker = HealthChecker::new();
    let now = start();
    for name in ["web-2", "web-0", "web-1"] {
        checker.register(InstanceId(name.to_string()), default_config(), now);
    }
    let mut order = Vec::new();
    while let Some((id, _)) = checker.pop_due(now) {
        order.push(id.0);
    }
    assert_eq!(order, vec!["web-2", "web-0", "web-1"]);
    assert!(checker.next_deadline().is_none());
}

#[test]
fn popping_hands_out_the_registered_configuration() {
    let mut checker = HealthChecker::new();
    let now = start();
    let mut config = default_config();
    config.path = "/first".to_string();
    checker.register(InstanceId("web-0".to_string()), config, now);
    let mut renewed = default_config();
    renewed.path = "/second".to_string();
    renewed.initial_delay = Duration::from_secs(3);
    checker.register(InstanceId("web-0".to_string()), renewed, now);
    assert_eq!(checker.registered_count(), 1);
    let (_, config) = checker.pop_due(now).unwrap();
    assert_eq!(config.path, "/second");
    assert!(checker.pop_due(now).is_none());
    assert_eq!(checker.next_deadline(), Some(now.plus(Duration::from_secs(3))));
}

#[test]
fn scheduling_an_unregistered_instance_queues_nothing() {
    let mut checker = HealthChecker::default();
    checker.schedule_next(InstanceId("ghost-0".to_string()), start());
    assert!(checker.next_deadline().is_none());
}

#[test]
fn a_new_registration_waits_its_own_delay() {
    let mut checker = HealthChecker::new();
    let now = start();
    let id = InstanceId("web-0".to_string());
    checker.register(id.clone(), default_config(), now);
    checker.unregister(&id);
    let mut delayed = default_config();
    delayed.initial_delay = Duration::from_secs(10);
    checker.register(id.clone(), delayed, now);
    assert!(checker.pop_due(now).is_none());
    assert!(checker.pop_due(now.plus(Duration::from_secs(9))).is_none());
    let due = now.plus(Duration::from_secs(10));
    assert_eq!(checker.next_deadline(), Some(due));
    assert_eq!(checker.pop_due(due).map(|(id, _)| id), Some(id));
    assert!(checker.pop_due(due).is_none());
}

#[test]
fn stale_checks_wait_until_they_are_skipped() {
    let mut checker = HealthChecker::new();
    let now = start();
    let id = InstanceId("web-0".to_string());
    checker.register(id.clone(), default_config(), now);
    checker.unregister(&id);
    assert_eq!(checker.registered_count(), 0);
    assert_eq!(checker.next_deadline(), Some(now));
    assert!(checker.pop_due(now).is_none());
    assert!(checker.next_deadline().is_none());
}
