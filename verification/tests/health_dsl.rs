//! Scenarios of the health-check library. A check body's run is represented by
//! the `BodyEvent` it ends with; the registry turns those events into a report.

use health_dsl::{BodyEvent, BuildError, CheckResult, Critical, HealthRegistry, Status, Timeout};

fn finished(result: CheckResult) -> (BodyEvent, u64) {
    (BodyEvent::Finished(result), 1)
}

fn pairs(items: &[(&str, &str)]) -> Vec<(String, String)> {
    items
        .iter()
        .map(|(k, v)| (k.to_string(), v.to_string()))
        .collect()
}

#[test]
fn ordering_is_up_degraded_down() {
    assert!(Status::Up < Status::Degraded);
    assert!(Status::Degraded < Status::Down);
    assert!(Status::Up < Status::Down);
}

#[test]
fn worst_takes_the_least_healthy() {
    assert_eq!(Status::Up.worst(Status::Degraded), Status::Degraded);
    assert_eq!(Status::Down.worst(Status::Up), Status::Down);
    assert_eq!(Status::Degraded.worst(Status::Degraded), Status::Degraded);
}

#[test]
fn all_up_yields_up() {
    let registry = HealthRegistry::builder()
        .check_default("a", ())
        .check("b", Critical::Yes, Timeout::from_secs(5), ())
        .build()
        .unwrap();
    let report = registry.report(
        vec![
            finished(CheckResult::up()),
            finished(CheckResult::up_with(pairs(&[("region", "us-east-1")]))),
        ],
        3,
    );

    assert_eq!(report.status, Status::Up);
    assert!(report.is_healthy());
    let names: Vec<&str> = report.checks.iter().map(|o| o.name.as_str()).collect();
    assert_eq!(names, vec!["a", "b"]);
}

#[test]
fn critical_down_fails_the_report() {
    let registry = HealthRegistry::builder()
        .check("db", Critical::Yes, Timeout::from_secs(5), ())
        .check_default("cache", ())
        .build()
        .unwrap();
    let report = registry.report(
        vec![
            finished(CheckResult::down("connection refused")),
            finished(CheckResult::up()),
        ],
        2,
    );

    assert_eq!(report.status, Status::Down);
    assert!(!report.is_healthy());
}

#[test]
fn non_critical_down_only_degrades() {
    let registry = HealthRegistry::builder()
        .check("db", Critical::Yes, Timeout::from_secs(5), ())
        .check_default("metrics", ())
        .build()
        .unwrap();
    let report = registry.report(
        vec![
            finished(CheckResult::up()),
            finished(CheckResult::down("sink unreachable")),
        ],
        2,
    );

    assert_eq!(report.status, Status::Degraded);
    assert!(report.is_healthy()); // still serving
}

#[test]
fn degraded_propagates() {
    let registry = HealthRegistry::builder()
        .check_default("disk", ())
        .build()
        .unwrap();
    let report = registry.report(vec![finished(CheckResult::degraded("low space"))], 1);

    assert_eq!(report.status, Status::Degraded);
}

#[test]
fn panics_become_down_not_thrown() {
    let registry = HealthRegistry::builder()
        .check("boom", Critical::Yes, Timeout::from_secs(5), ())
        .build()
        .unwrap();
    let report = registry.report(
        vec![(BodyEvent::Panicked(Some("kaboom".to_string())), 0)],
        0,
    );

    assert_eq!(report.status, Status::Down);
    assert_eq!(report.checks[0].message.as_deref(), Some("kaboom"));
}

#[test]
fn errors_become_down_via_returning() {
    // The idiomatic path: wrap fallible work in a Result and map Err -> down.
    fn ping() -> Result<(), String> {
        Err("connection refused".to_string())
    }
    let registry = HealthRegistry::builder()
        .check("db", Critical::Yes, Timeout::from_secs(5), ())
        .build()
        .unwrap();
    let result = match ping() {
        Ok(()) => CheckResult::up(),
        Err(e) => CheckResult::down(&e),
    };
    let report = registry.report(vec![finished(result)], 1);

    assert_eq!(report.status, Status::Down);
    assert_eq!(
        report.checks[0].message.as_deref(),
        Some("connection refused")
    );
}

#[test]
fn timeout_becomes_down() {
    let registry = HealthRegistry::builder()
        .check("slow", Critical::Yes, Timeout::from_millis(50), ())
        .build()
        .unwrap();
    let report = registry.report(vec![(BodyEvent::TimedOut, 50)], 50);

    assert_eq!(report.status, Status::Down);
    assert!(report.checks[0]
        .message
        .as_deref()
        .unwrap()
        .contains("timed out"));
}

#[test]
fn empty_registry_is_up() {
    let registry = HealthRegistry::<()>::builder().build().unwrap();
    let report = registry.report(Vec::new(), 0);
    assert_eq!(report.status, Status::Up);
    assert!(report.checks.is_empty());
}

#[test]
fn duplicate_names_are_rejected() {
    let err = HealthRegistry::builder()
        .check_default("x", ())
        .check_default("x", ())
        .build()
        .unwrap_err();
    assert_eq!(err, BuildError::DuplicateName("x".to_string()));
}

#[test]
fn blank_names_are_rejected() {
    let err = HealthRegistry::builder()
        .check_default("  ", ())
        .build()
        .unwrap_err();
    assert_eq!(err, BuildError::BlankName);
}

#[test]
fn json_renders_status_checks_and_escapes_message() {
    let registry = HealthRegistry::builder()
        .check("db", Critical::Yes, Timeout::from_secs(5), ())
        .build()
        .unwrap();
    let report = registry.report(
        vec![finished(CheckResult::down("line1\n\"quoted\""))],
        1,
    );

    let json = report.to_json();
    assert!(json.contains("\"status\":\"DOWN\""));
    assert!(json.contains("\"db\""));
    assert!(json.contains("\"critical\":true"));
    // newline and quote are escaped
    assert!(json.contains("line1\\n\\\"quoted\\\""));
}

#[test]
fn details_are_carried_into_outcomes() {
    let registry = HealthRegistry::builder()
        .check_default("cache", ())
        .build()
        .unwrap();
    let report = registry.report(
        vec![finished(CheckResult::up_with(pairs(&[("hitRate", "0.93")])))],
        1,
    );

    let outcome = &report.checks[0];
    assert_eq!(
        outcome.details.get("hitRate").map(String::as_str),
        Some("0.93")
    );
}
