use tenkai::environment::{
    EnvironmentInspectReport, EnvironmentLeaseInspect, EnvironmentPlanSummary,
    EnvironmentSubscriptionView,
};
use tenkai::fleet::drift::is_hard_drift_posture;
use tenkai::fleet::{
    compare_fleet_posture, fleet_posture_snapshot, fleet_row_from_inspect,
    fleet_status_from_inspects, FleetPostureSnapshot,
};
use tenkai::text_map::TextMap;

fn subscription(head: &str, deployed: Option<&str>, health: &str, state: &str) -> EnvironmentSubscriptionView {
    EnvironmentSubscriptionView {
        product: "api".into(),
        channel: "stable".into(),
        head: head.into(),
        deployed: deployed.map(String::from),
        health: Some(health.into()),
        error: None,
        overlay_digest: None,
        applied_overlay: None,
        state: state.into(),
    }
}

fn inspect(name: &str, subscriptions: Vec<EnvironmentSubscriptionView>) -> EnvironmentInspectReport {
    EnvironmentInspectReport {
        name: name.into(),
        id: format!("tenkai:env:{name}"),
        description: "fixture".into(),
        subscriptions,
        facts: TextMap::new(),
        lease: EnvironmentLeaseInspect {
            held: false,
            owner: None,
            generation: None,
            expires_at_ms: None,
            status: "absent".into(),
        },
        latest_plan: None,
        execution_note: "fixture".into(),
    }
}

#[test]
fn fleet_status_classifies_current_behind_unhealthy_and_empty() {
    let mut current =
        inspect("alpha", vec![subscription("1.0.0", Some("1.0.0"), "healthy", "current")]);
    current.latest_plan = Some(EnvironmentPlanSummary {
        id: "plan-a".into(),
        state: "succeeded".into(),
        created_at: 1,
        step_count: 1,
        status_detail: String::new(),
        steps: Vec::new(),
        steps_truncated: false,
    });
    let mut behind =
        inspect("beta", vec![subscription("2.0.0", Some("1.0.0"), "healthy", "behind")]);
    behind.lease = EnvironmentLeaseInspect {
        held: true,
        owner: Some("owner".into()),
        generation: Some(1),
        expires_at_ms: Some(99),
        status: "active".into(),
    };
    let mut unhealthy =
        inspect("gamma", vec![subscription("1.0.0", Some("1.0.0"), "unknown", "unknown")]);
    unhealthy.subscriptions[0].error = Some("probe failed".into());
    let empty = inspect("delta", Vec::new());
    let report = fleet_status_from_inspects(vec![behind, empty, unhealthy, current]);
    assert_eq!(report.environment_count, 4);
    assert_eq!(report.environments_current, 1);
    assert_eq!(report.environments_behind, 1);
    assert_eq!(report.environments_unhealthy, 1);
    assert_eq!(report.environments_empty, 1);
    let by_name = |name: &str| {
        report
            .environments
            .iter()
            .find(|row| row.name == name)
            .unwrap()
    };
    assert_eq!(by_name("alpha").posture, "current");
    assert_eq!(by_name("alpha").latest_plan_state.as_deref(), Some("succeeded"));
    assert_eq!(by_name("beta").posture, "behind");
    assert!(by_name("beta").lease_held);
    assert_eq!(by_name("gamma").posture, "unhealthy");
    assert_eq!(by_name("gamma").health_summary, "error");
    assert_eq!(by_name("delta").posture, "empty");
    let names = report.environments.iter().map(|row| row.name.as_str()).collect::<Vec<_>>();
    assert_eq!(names, vec!["alpha", "beta", "delta", "gamma"]);
    let shown = format!("{report:?}");
    assert!(!shown.contains("Bearer"));
    assert!(!shown.contains("token="));
}

#[test]
fn fleet_status_treats_config_stale_as_behind() {
    let mut stale =
        inspect("edge", vec![subscription("1.0.0", Some("1.0.0"), "healthy", "config_stale")]);
    stale.subscriptions[0].overlay_digest = Some("abc".into());
    let report = fleet_status_from_inspects(vec![stale]);
    assert_eq!(report.environments[0].posture, "behind");
    assert_eq!(report.environments[0].products_behind, 1);
    assert!(!report.environments[0].unhealthy);
}

#[test]
fn products_of_an_environment_are_counted_once_each() {
    let row = fleet_row_from_inspect(&inspect(
        "mixed",
        vec![
            subscription("1.0.0", Some("1.0.0"), "healthy", "current"),
            subscription("2.0.0", Some("1.0.0"), "healthy", "behind"),
            subscription("2.0.0", None, "healthy", "missing"),
        ],
    ));
    assert_eq!(row.subscription_count, 3);
    assert_eq!(
        row.products_current + row.products_behind + row.products_missing,
        row.subscription_count
    );
    assert_eq!(row.products_missing, 1);
}

fn snapshot(postures: &[(&str, &str)]) -> FleetPostureSnapshot {
    let mut snapshot = FleetPostureSnapshot::default();
    for (name, posture) in postures {
        snapshot.postures.insert(name.to_string(), posture.to_string());
    }
    snapshot
}

#[test]
fn fleet_drift_reports_new_behind_and_unhealthy_transitions() {
    let previous =
        snapshot(&[("alpha", "current"), ("beta", "current"), ("gamma", "current")]);
    let current =
        snapshot(&[("alpha", "current"), ("beta", "behind"), ("gamma", "unhealthy")]);
    let delta = compare_fleet_posture(&previous, &current);
    assert_eq!(delta.entered_behind, vec!["beta".to_string()]);
    assert_eq!(delta.entered_unhealthy, vec!["gamma".to_string()]);
    assert_eq!(
        delta.new_hard_drift,
        vec!["beta".to_string(), "gamma".to_string()]
    );
    assert!(delta.has_new_hard_drift);
    assert!(delta.has_any_hard_drift);
    assert!(delta.has_any_posture_change);
    assert!(delta.left_current.contains(&"beta".to_string()));
    assert!(delta.left_current.contains(&"gamma".to_string()));
    assert!(delta.entered_empty.is_empty());
    assert!(delta.appeared.is_empty());
    assert!(delta.disappeared.is_empty());

    let stable = compare_fleet_posture(&current, &current);
    assert!(!stable.has_new_hard_drift);
    assert!(stable.has_any_hard_drift);
    assert!(!stable.has_any_posture_change);
    assert!(stable.new_hard_drift.is_empty());

    let recovered =
        snapshot(&[("alpha", "current"), ("beta", "current"), ("gamma", "current")]);
    let back = compare_fleet_posture(&current, &recovered);
    assert!(!back.has_new_hard_drift);
    assert!(!back.has_any_hard_drift);
    assert_eq!(back.left_behind, vec!["beta".to_string()]);
    assert_eq!(back.left_unhealthy, vec!["gamma".to_string()]);
    assert_eq!(back.entered_current.len(), 2);

    let from_status = fleet_posture_snapshot(&fleet_status_from_inspects(vec![]));
    assert_eq!(from_status.postures.len(), 0);
    assert_eq!(from_status.schema, "tenkai.fleet-posture.v1");

    let shown = format!("{delta:?}");
    assert!(!shown.contains("Bearer"));
    assert!(!shown.contains("token="));
    assert!(!shown.contains("TENKAI_MANAGEMENT_TOKEN"));
}

#[test]
fn environments_appear_and_disappear() {
    let delta = compare_fleet_posture(
        &snapshot(&[("gone", "current")]),
        &snapshot(&[("new", "behind")]),
    );
    assert_eq!(delta.appeared, vec!["new".to_string()]);
    assert_eq!(delta.disappeared, vec!["gone".to_string()]);
    assert_eq!(delta.new_hard_drift, vec!["new".to_string()]);
    assert!(is_hard_drift_posture("unhealthy"));
    assert!(!is_hard_drift_posture("empty"));
}

#[test]
fn the_order_of_inspects_does_not_show() {
    let reports = |order: &[&str]| {
        fleet_status_from_inspects(order.iter().map(|name| inspect(name, Vec::new())).collect())
    };
    let report = reports(&["beta", "alpha", "gamma"]);
    assert_eq!(report, reports(&["gamma", "beta", "alpha"]));
    let names: Vec<&str> = report.environments.iter().map(|row| row.name.as_str()).collect();
    assert_eq!(names, vec!["alpha", "beta", "gamma"]);
    assert_eq!(report.environment_count, 3);
}
