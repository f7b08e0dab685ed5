//! Concrete instances of the library's laws and edge cases.

use health_dsl::{
    aggregate, default_timeout, BodyEvent, BuildError, Check, CheckOutcome, CheckResult, Critical,
    HealthRegistry, HealthReport, Status, StringMap, Timeout, DEFAULT_TIMEOUT_SECS,
};

fn outcome(name: &str, critical: bool, status: Status) -> CheckOutcome {
    CheckOutcome {
        name: name.to_string(),
        critical,
        status,
        message: None,
        details: StringMap::new(),
        duration_ms: 0,
    }
}

#[test]
fn status_wire_names() {
    assert_eq!(Status::Up.as_str(), "UP");
    assert_eq!(Status::Degraded.as_str(), "DEGRADED");
    assert_eq!(Status::Down.as_str(), "DOWN");
}

#[test]
fn worst_is_commutative_and_up_is_neutral() {
    let all = [Status::Up, Status::Degraded, Status::Down];
    for a in all {
        assert_eq!(a.worst(Status::Up), a);
        assert_eq!(a.worst(Status::Down), Status::Down);
        for b in all {
            assert_eq!(a.worst(b), b.worst(a));
        }
    }
}

#[test]
fn critical_converts_from_bool() {
    assert_eq!(Critical::from(true), Critical::Yes);
    assert_eq!(Critical::from(false), Critical::No);
    assert!(Critical::Yes.is_critical());
    assert!(!Critical::No.is_critical());
    let c: Critical = true.into();
    assert!(c.is_critical());
}

#[test]
fn aggregate_follows_the_status_table() {
    assert_eq!(aggregate(&[]), Status::Up);
    assert_eq!(aggregate(&[outcome("a", true, Status::Up)]), Status::Up);
    assert_eq!(aggregate(&[outcome("a", false, Status::Down)]), Status::Degraded);
    assert_eq!(aggregate(&[outcome("a", true, Status::Degraded)]), Status::Degraded);
    assert_eq!(
        aggregate(&[outcome("a", false, Status::Degraded), outcome("b", true, Status::Down)]),
        Status::Down
    );
}

#[test]
fn aggregate_ignores_order() {
    let a = [outcome("a", false, Status::Down), outcome("b", true, Status::Up)];
    let b = [outcome("b", true, Status::Up), outcome("a", false, Status::Down)];
    assert_eq!(aggregate(&a), aggregate(&b));
    assert_eq!(aggregate(&a), Status::Degraded);
}

#[test]
fn report_from_outcomes_aggregates() {
    let report = HealthReport::from_outcomes(vec![outcome("db", true, Status::Down)], 7);
    assert_eq!(report.status, Status::Down);
    assert_eq!(report.duration_ms, 7);
    assert!(!report.is_healthy());
}

#[test]
fn zero_timeout_is_rejected() {
    let err = HealthRegistry::builder()
        .check("db", Critical::Yes, Timeout::from_secs(0), ())
        .build()
        .unwrap_err();
    assert_eq!(err, BuildError::NonPositiveTimeout("db".to_string()));
}

#[test]
fn sub_millisecond_timeout_is_accepted() {
    let registry = HealthRegistry::builder()
        .check("db", Critical::Yes, Timeout::new(0, 1), ())
        .build();
    assert!(registry.is_ok());
}

#[test]
fn first_problem_in_declaration_order_wins() {
    let err = HealthRegistry::builder()
        .check_default("a", ())
        .check("b", Critical::No, Timeout::from_secs(0), ())
        .check_default("a", ())
        .check_default(" ", ())
        .build()
        .unwrap_err();
    assert_eq!(err, BuildError::NonPositiveTimeout("b".to_string()));

    // Within one check, a blank name is reported before a zero timeout.
    let err = HealthRegistry::builder()
        .check("\t\u{a0}", Critical::No, Timeout::from_secs(0), ())
        .build()
        .unwrap_err();
    assert_eq!(err, BuildError::BlankName);
}

#[test]
fn empty_name_is_blank() {
    let err = HealthRegistry::builder().check_default("", ()).build().unwrap_err();
    assert_eq!(err, BuildError::BlankName);
}

#[test]
fn build_error_texts() {
    assert_eq!(
        BuildError::DuplicateName("x".to_string()).to_string(),
        "duplicate check name: x"
    );
    assert_eq!(BuildError::BlankName.to_string(), "check name must not be blank");
    assert_eq!(
        BuildError::NonPositiveTimeout("db".to_string()).to_string(),
        "timeout for 'db' must be positive"
    );
}

#[test]
fn names_follow_declaration_order() {
    let registry = HealthRegistry::builder()
        .check_default("zeta", 1u8)
        .check_default("alpha", 2u8)
        .build()
        .unwrap();
    assert_eq!(registry.names(), vec!["zeta", "alpha"]);
    assert_eq!(registry.len(), 2);
    let checks = registry.checks();
    assert_eq!(checks[0].body, 1u8);
    assert!(!checks[0].critical);
    assert_eq!(checks[0].timeout, default_timeout());
    assert_eq!(checks[0].timeout.as_secs(), DEFAULT_TIMEOUT_SECS);
}

#[test]
fn timeout_message_has_the_milliseconds() {
    let check = Check {
        name: "slow".to_string(),
        critical: true,
        timeout: Timeout::new(1, 250_000_000),
        body: (),
    };
    let o = check.settle(BodyEvent::TimedOut, 1250);
    assert_eq!(o.status, Status::Down);
    assert_eq!(o.message.as_deref(), Some("timed out after 1250ms"));
    assert_eq!(o.duration_ms, 1250);
    assert!(o.critical);
}

#[test]
fn panic_without_text_says_panicked() {
    let check = Check {
        name: "boom".to_string(),
        critical: false,
        timeout: Timeout::from_secs(1),
        body: (),
    };
    let o = check.settle(BodyEvent::Panicked(None), 3);
    assert_eq!(o.status, Status::Down);
    assert_eq!(o.message.as_deref(), Some("panicked"));
}

#[test]
fn finished_result_is_kept() {
    let check = Check {
        name: "disk".to_string(),
        critical: false,
        timeout: Timeout::from_secs(1),
        body: (),
    };
    let result = CheckResult::degraded_with(
        "disk low: 12%",
        vec![("freePercent".to_string(), "12".to_string())],
    );
    let o = check.settle(BodyEvent::Finished(result), 4);
    assert_eq!(o.name, "disk");
    assert_eq!(o.status, Status::Degraded);
    assert_eq!(o.message.as_deref(), Some("disk low: 12%"));
    assert_eq!(o.details.get("freePercent").map(String::as_str), Some("12"));
}

#[test]
fn timeout_conversions() {
    let t = Timeout::from_millis(2500);
    assert_eq!(t.as_secs(), 2);
    assert_eq!(t.subsec_nanos(), 500_000_000);
    assert_eq!(t.as_millis(), 2500);
    assert!(!t.is_zero());
    let t = Timeout::new(1, 2_000_000_001);
    assert_eq!(t.as_secs(), 3);
    assert_eq!(t.subsec_nanos(), 1);
    assert!(Timeout::new(0, 0).is_zero());
}

#[test]
fn details_keep_the_last_value_in_key_order() {
    let r = CheckResult::up_with(vec![
        ("b".to_string(), "1".to_string()),
        ("a".to_string(), "2".to_string()),
        ("b".to_string(), "3".to_string()),
    ]);
    let keys: Vec<&str> = r.details.entries().iter().map(|(k, _)| k.as_str()).collect();
    assert_eq!(keys, vec!["a", "b"]);
    assert_eq!(r.details.get("b").map(String::as_str), Some("3"));
    assert_eq!(r.details.get("c"), None);
    assert_eq!(r.details.len(), 2);
}

#[test]
fn string_map_orders_by_characters() {
    let mut m = StringMap::new();
    assert!(m.is_empty());
    m.insert("é".to_string(), "1".to_string());
    m.insert("z".to_string(), "2".to_string());
    m.insert("Z".to_string(), "3".to_string());
    m.insert("".to_string(), "4".to_string());
    m.insert("zz".to_string(), "5".to_string());
    let keys: Vec<&str> = m.entries().iter().map(|(k, _)| k.as_str()).collect();
    assert_eq!(keys, vec!["", "Z", "z", "zz", "é"]);
    let copy = m.clone();
    assert_eq!(copy, m);
}

#[test]
fn constructors_set_status_and_message() {
    let r = CheckResult::up();
    assert_eq!(r.status, Status::Up);
    assert_eq!(r.message, None);
    assert!(r.details.is_empty());
    let r = CheckResult::degraded("slow");
    assert_eq!(r.status, Status::Degraded);
    assert_eq!(r.message.as_deref(), Some("slow"));
    let r = CheckResult::down("gone");
    assert_eq!(r.status, Status::Down);
    assert_eq!(r.message.as_deref(), Some("gone"));
    let r = CheckResult::down_with("gone", vec![("k".to_string(), "v".to_string())]);
    assert_eq!(r.status, Status::Down);
    assert_eq!(r.details.get("k").map(String::as_str), Some("v"));
}

#[test]
fn json_document_exact_shape() {
    let mut checks = vec![
        outcome("zeta", false, Status::Up),
        outcome("alpha", true, Status::Degraded),
    ];
    checks[0].duration_ms = 12;
    checks[0].details.insert("hitRate".to_string(), "0.93".to_string());
    checks[1].message = Some("disk low: 12%".to_string());
    let report = HealthReport::from_outcomes(checks, 41);
    assert_eq!(
        report.to_json(),
        "{\"status\":\"DEGRADED\",\"checks\":{\"alpha\":{\"critical\":true,\"durationMs\":0,\
         \"message\":\"disk low: 12%\",\"status\":\"DEGRADED\"},\"zeta\":{\"critical\":false,\
         \"details\":{\"hitRate\":\"0.93\"},\"durationMs\":12,\"status\":\"UP\"}},\"durationMs\":41}"
    );
}

#[test]
fn json_escapes_control_characters_and_keys() {
    let mut o = outcome("a\"b", false, Status::Up);
    o.message = Some("x\u{1}y\\z\t".to_string());
    let report = HealthReport::from_outcomes(vec![o], 0);
    let json = report.to_json();
    assert!(json.contains("\"a\\\"b\":"));
    assert!(json.contains("\"message\":\"x\\u0001y\\\\z\\t\""));
}

#[test]
fn json_of_empty_report() {
    let report = HealthReport::from_outcomes(Vec::new(), 0);
    assert_eq!(report.to_json(), "{\"status\":\"UP\",\"checks\":{},\"durationMs\":0}");
}

#[test]
fn json_agrees_with_serde_json_parsing() {
    let mut o = outcome("db", true, Status::Down);
    o.message = Some("line1\n\"quoted\"".to_string());
    let report = HealthReport::from_outcomes(vec![o], 5);
    let value: serde_json::Value = serde_json::from_str(&report.to_json()).unwrap();
    assert_eq!(value["status"], "DOWN");
    assert_eq!(value["durationMs"], 5);
    assert_eq!(value["checks"]["db"]["message"], "line1\n\"quoted\"");
    assert_eq!(value["checks"]["db"]["critical"], true);
}

#[test]
fn later_outcome_with_same_name_stands_in_json() {
    let report = HealthReport::from_outcomes(
        vec![outcome("a", false, Status::Up), outcome("a", false, Status::Down)],
        0,
    );
    let json = report.to_json();
    assert!(json.contains("\"checks\":{\"a\":{\"critical\":false,\"durationMs\":0,\"status\":\"DOWN\"}}"));
}

#[test]
fn registry_debug_text_lists_names_only() {
    let registry = HealthRegistry::builder()
        .check_default("db", 1u8)
        .check_default("a\"b\n", 2u8)
        .build()
        .unwrap();
    let expected = format!("HealthRegistry {{ names: {:?} }}", vec!["db", "a\"b\n"]);
    assert_eq!(registry.debug_text(), expected);
    let empty = HealthRegistry::<()>::builder().build().unwrap();
    assert_eq!(empty.debug_text(), "HealthRegistry { names: [] }");
}

#[test]
fn string_map_debug_text_is_a_map() {
    let mut m = StringMap::new();
    assert_eq!(m.debug_text(), "{}");
    m.insert("z".to_string(), "1".to_string());
    m.insert("a\t".to_string(), "q\"".to_string());
    let mut expected = std::collections::BTreeMap::new();
    expected.insert("z".to_string(), "1".to_string());
    expected.insert("a\t".to_string(), "q\"".to_string());
    assert_eq!(m.debug_text(), format!("{:?}", expected));
}
