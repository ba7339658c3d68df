use tenkai::metrics::{body_leaks_secret, render_reconcile_openmetrics, sanitize_label_value};
use tenkai::reconciler::ReconcileDiagnostics;

fn diagnostics() -> ReconcileDiagnostics {
    ReconcileDiagnostics {
        ticks_total: 3,
        ticks_failed: 1,
        last_outcome: "degraded".into(),
        last_environments_total: 4,
        last_environments_failed: 1,
        environments_busy_total: 2,
    }
}

#[test]
fn openmetrics_contains_documented_series_without_secrets() {
    let body = render_reconcile_openmetrics(&diagnostics());
    assert!(body.contains("tenkai_reconcile_ticks_total 3"));
    assert!(body.contains("tenkai_reconcile_ticks_failed_total 1"));
    assert!(body.contains("tenkai_reconcile_last_environments 4"));
    assert!(body.contains("tenkai_reconcile_last_environments_failed 1"));
    assert!(body.contains("outcome=\"degraded\""));
    assert!(body.contains("tenkai_reconcile_environments_busy_total 2"));
    assert!(body.contains("# EOF"));
    assert!(!body_leaks_secret(
        &body,
        &["management-secret", "Bearer ", "token="]
    ));
    assert!(!body.contains("tenant"));
}

#[test]
fn exposition_is_exact() {
    let body = render_reconcile_openmetrics(&diagnostics());
    assert_eq!(
        body,
        "# HELP tenkai_reconcile_ticks_total Total reconcile ticks attempted.\n\
         # TYPE tenkai_reconcile_ticks_total counter\n\
         tenkai_reconcile_ticks_total 3\n\
         # HELP tenkai_reconcile_ticks_failed_total Reconcile ticks with environment failures or tick errors.\n\
         # TYPE tenkai_reconcile_ticks_failed_total counter\n\
         tenkai_reconcile_ticks_failed_total 1\n\
         # HELP tenkai_reconcile_last_environments Environments considered on the last successful tick structure.\n\
         # TYPE tenkai_reconcile_last_environments gauge\n\
         tenkai_reconcile_last_environments 4\n\
         # HELP tenkai_reconcile_last_environments_failed Environments failed on the last tick.\n\
         # TYPE tenkai_reconcile_last_environments_failed gauge\n\
         tenkai_reconcile_last_environments_failed 1\n\
         # HELP tenkai_reconcile_last_outcome Last tick outcome (ok, degraded, error, or empty).\n\
         # TYPE tenkai_reconcile_last_outcome gauge\n\
         tenkai_reconcile_last_outcome{outcome=\"degraded\"} 1\n\
         # HELP tenkai_reconcile_environments_busy_total Environments skipped as Busy (in-flight or fence).\n\
         # TYPE tenkai_reconcile_environments_busy_total counter\n\
         tenkai_reconcile_environments_busy_total 2\n\
         # EOF\n"
    );
}

#[test]
fn sanitize_outcome_label() {
    assert_eq!(sanitize_label_value("ok"), "ok");
    assert_eq!(sanitize_label_value("bad\"quote"), "bad_quote");
    assert_eq!(sanitize_label_value(""), "none");
}

#[test]
fn labels_are_short_and_trimmed() {
    assert_eq!(sanitize_label_value("  a b\n"), "a_b");
    assert_eq!(sanitize_label_value(&"x".repeat(40)), "x".repeat(32));
    assert_eq!(sanitize_label_value("überlauf"), "_berlauf");
}

#[test]
fn leaks_are_found_and_empty_secrets_do_not_count() {
    assert!(body_leaks_secret("a token=b", &["", "token="]));
    assert!(!body_leaks_secret("a token=b", &[""]));
}
