use tenkai::crypto::SigningKey;
use tenkai::environment::{
    EnvironmentInspectReport, EnvironmentLeaseInspect, EnvironmentSubscriptionView,
    StoredEnvironment,
};
use tenkai::fleet_budget::{
    format_report, sample_of, settle_samples, timeval_ms, BudgetSample, ResourceBudget, Usage,
};
use tenkai::fleet_fairness::{
    check_fairness, count_failing_applied, format_report as format_fairness, settle_observation,
    stored_postures, FairnessReport, Tick, TickEntry,
};
use tenkai::fleet_workload::{
    plan_workload, stored_posture_counts, WorkloadPosture, WorkloadSpec, PROPERTY_POSTURE,
    PROPERTY_SEED,
};
use tenkai::offline_fleet_drill::{
    check_applied, check_replay, hub_version, hub_versions, interrupted_spoke,
    isolated_trust_roots, settle_drill, show_map, spoke_name, spoke_names, spoke_version,
    spoke_versions, SpokeStatus, UpgradeSpoke, ROLLBACK_COUNT, SPOKE_COUNT,
};
use tenkai::text_map::TextMap;

fn sample(wall_ms: u64, memory_bytes: u64) -> BudgetSample {
    BudgetSample {
        wall_ms,
        cpu_ms: 5,
        memory_bytes,
        storage_bytes: 7,
        environments: 1000,
        tick_failures: 2,
    }
}

#[test]
fn zero_budget_fails_closed() {
    let err = ResourceBudget {
        wall_ms: 0,
        cpu_ms: 1,
        memory_bytes: 1,
        storage_bytes: 1,
    }
    .validate()
    .unwrap_err()
    .to_string();
    assert!(err.contains("greater than zero"), "{err}");
}

#[test]
fn samples_within_the_budget_are_reported() {
    let budget = ResourceBudget::ci_embedded_sqlite();
    budget.validate().unwrap();
    assert_eq!(budget.memory_bytes, 2 * 1024 * 1024 * 1024);
    assert_eq!(budget.storage_bytes, 512 * 1024 * 1024);
    let report = settle_samples(vec![sample(30, 9), sample(12, 9)], &budget, "sha256:s").unwrap();
    assert!(report.passed);
    assert!(!report.skip_gates);
    assert_eq!(report.wall_ms_variance, 18);
    assert_eq!(
        format_report(&report),
        "fleet budget profile=ci-embedded-sqlite seed_digest=sha256:s samples=2 passed=true skip_gates=false\n  sample1 wall_ms=30 cpu_ms=5 memory_bytes=9 storage_bytes=7 environments=1000 tick_failures=2\n  sample2 wall_ms=12 cpu_ms=5 memory_bytes=9 storage_bytes=7 environments=1000 tick_failures=2\n  wall_ms_variance=18 limiting=none"
    );
}

#[test]
fn a_breach_names_the_resource_of_the_last_sample_with_one() {
    let budget = ResourceBudget { wall_ms: 10, cpu_ms: 10, memory_bytes: 10, storage_bytes: 10 };
    let breach = |samples: Vec<BudgetSample>| {
        settle_samples(samples, &budget, "s").unwrap_err().to_string()
    };
    assert_eq!(
        breach(vec![sample(11, 1), sample(1, 11)]),
        "budget breach on profile ci-embedded-sqlite: limiting memory"
    );
    assert_eq!(
        breach(vec![sample(11, 11), sample(1, 1)]),
        "budget breach on profile ci-embedded-sqlite: limiting wall"
    );
}

#[test]
fn usage_is_counted_in_milliseconds() {
    assert_eq!(timeval_ms(2, 3_999), 2_003);
    assert_eq!(timeval_ms(u64::MAX, 0), u64::MAX);
    let before = Usage { cpu_ms: 50, memory_bytes: 1 };
    let after = Usage { cpu_ms: 80, memory_bytes: 2 };
    assert_eq!(sample_of(before, after, 4, 5, 6, 7).cpu_ms, 30);
    assert_eq!(sample_of(after, before, 4, 5, 6, 7).cpu_ms, 0);
    assert_eq!(sample_of(before, after, 4, 5, 6, 7).memory_bytes, 2);
}

fn entry(environment: &str, applied: bool) -> TickEntry {
    TickEntry { environment: environment.into(), applied }
}

fn postures() -> TextMap<WorkloadPosture> {
    let mut map = TextMap::new();
    map.insert("good".to_string(), WorkloadPosture::Current);
    map.insert("sick".to_string(), WorkloadPosture::Unhealthy);
    map
}

#[test]
fn failures_neither_starve_nor_pass_for_success() {
    let fair = Tick { entries: vec![entry("good", true), entry("sick", false)], failures: 1 };
    let unfair = Tick { entries: vec![entry("sick", true), entry("other", true)], failures: 0 };
    let starved = Tick { entries: vec![entry("sick", false)], failures: 1 };
    assert_eq!(check_fairness(&fair, &fair, &postures()), Ok(1));
    assert_eq!(count_failing_applied(&unfair, &postures()), 1);
    assert_eq!(
        check_fairness(&fair, &unfair, &postures()).unwrap_err().to_string(),
        "failing environments manufactured success (1 applied)"
    );
    assert_eq!(
        check_fairness(&starved, &fair, &postures()).unwrap_err().to_string(),
        "failing environments starved healthy work"
    );
}

#[test]
fn an_observation_needs_a_complete_backup() {
    let plan = plan_workload(&WorkloadSpec {
        seed: "abc".into(),
        product: "scale-app".into(),
        channel: "stable".into(),
        current_version: "1.1.0".into(),
        behind_version: "1.0.0".into(),
    })
    .unwrap();
    let tick = Tick { entries: Vec::new(), failures: 4 };
    assert_eq!(
        settle_observation(&plan, &tick, &tick, 3, 999).unwrap_err().to_string(),
        "backup recovered 999 synthetic environments, expected 1000"
    );
    let report = settle_observation(&plan, &tick, &tick, 3, 1000).unwrap();
    assert_eq!(report.failing_applied, 0);
    assert_eq!(
        format_fairness(&FairnessReport { seed_digest: "d".into(), ..report }),
        "fleet fairness seed_digest=d first_failures=4 second_failures=4 failing_applied=0 healthy_results=3 backup_environments=1000"
    );
}

fn deployed(rolled_back: &str, upgraded: &str) -> TextMap<String> {
    let mut map = TextMap::new();
    for index in 0..SPOKE_COUNT {
        let version = if index < ROLLBACK_COUNT { rolled_back } else { upgraded };
        map.insert(spoke_name(index), version.to_string());
    }
    map
}

#[test]
fn spokes_have_padded_names() {
    assert_eq!(spoke_name(3), "spoke-03");
    assert_eq!(spoke_name(42), "spoke-42");
    assert_eq!(spoke_names(1, 3), vec!["spoke-01".to_string(), "spoke-02".to_string()]);
}

#[test]
fn a_drill_settles_where_hub_and_spokes_agree() {
    let report =
        settle_drill(deployed("1.0.0", "1.1.0"), deployed("1.0.0", "1.1.0"), 25, 25).unwrap();
    assert_eq!(report.upgraded.len(), SPOKE_COUNT - ROLLBACK_COUNT);
    assert_eq!(report.rolled_back[0], "spoke-00");
    assert_eq!(report.upgraded[0], "spoke-25");
    assert_eq!(
        settle_drill(deployed("1.0.0", "1.1.0"), deployed("1.0.0", "1.1.0"), 24, 25)
            .unwrap_err()
            .to_string(),
        "hub fleet posture current=24 behind=25 expected current=25 behind=25"
    );
    let drifted = settle_drill(deployed("1.0.0", "1.1.0"), deployed("1.0.0", "1.0.0"), 25, 25);
    assert!(drifted.unwrap_err().to_string().starts_with("hub fleet status does not match"));
    let stale = settle_drill(deployed("1.0.0", "1.0.0"), deployed("1.0.0", "1.0.0"), 25, 25);
    assert!(stale
        .unwrap_err()
        .to_string()
        .starts_with("upgraded spoke spoke-25 should remain on 1.1.0"));
    let stuck = settle_drill(deployed("1.1.0", "1.1.0"), deployed("1.1.0", "1.1.0"), 25, 25);
    assert!(stuck
        .unwrap_err()
        .to_string()
        .starts_with("rolled-back spoke spoke-00 should return to 1.0.0"));
}

#[test]
fn maps_are_shown_in_order() {
    let mut map: TextMap<String> = TextMap::new();
    map.insert("b".to_string(), "2".to_string());
    map.insert("a\"".to_string(), "1".to_string());
    assert_eq!(show_map(&map), "{\"a\\\"\": \"1\", \"b\": \"2\"}");
    assert_eq!(
        spoke_version("spoke-01", &map).unwrap_err().to_string(),
        "spoke spoke-01 has no local deployed.edge-app evidence"
    );
    map.insert("deployed.edge-app".to_string(), "1.1.0".to_string());
    assert_eq!(spoke_version("spoke-01", &map), Ok("1.1.0".to_string()));
}

fn spoke(name: &str, status: SpokeStatus, plan: Option<&str>, isolated: bool) -> UpgradeSpoke {
    UpgradeSpoke { name: name.into(), plan_id: plan.map(String::from), status, isolated }
}

#[test]
fn bundles_are_exported_for_the_first_spoke_that_waits() {
    let spokes = vec![
        spoke("a", SpokeStatus::Applied, Some("plan-a"), true),
        spoke("b", SpokeStatus::Interrupted, Some("plan-b"), false),
        spoke("c", SpokeStatus::Interrupted, None, false),
    ];
    assert_eq!(interrupted_spoke(&spokes), Ok(("b".to_string(), "plan-b".to_string())));
    assert_eq!(
        interrupted_spoke(&spokes.into_iter().skip(2).collect()).unwrap_err().to_string(),
        "isolated spoke c has no plan"
    );
    assert_eq!(
        interrupted_spoke(&Vec::new()).unwrap_err().to_string(),
        "upgrade did not interrupt an isolated spoke"
    );
}

#[test]
fn every_spoke_applies_and_keeps_its_evidence() {
    let spokes = vec![
        spoke("a", SpokeStatus::Applied, None, true),
        spoke("b", SpokeStatus::Applied, None, false),
    ];
    check_applied(&spokes, "shown").unwrap();
    check_replay(&spokes, "a").unwrap();
    assert_eq!(
        check_replay(&spokes, "b").unwrap_err().to_string(),
        "re-importing the same bundle dropped isolated evidence"
    );
    assert_eq!(
        check_replay(&spokes, "c").unwrap_err().to_string(),
        "missing spoke c after replay"
    );
    assert_eq!(
        check_applied(&vec![spoke("a", SpokeStatus::Other, None, true)], "shown")
            .unwrap_err()
            .to_string(),
        "expected every spoke to apply from the bundle, got shown"
    );
}

fn inspected(subscriptions: &[(&str, Option<&str>)]) -> EnvironmentInspectReport {
    EnvironmentInspectReport {
        name: "spoke-00".into(),
        id: "tenkai:env:spoke-00".into(),
        description: String::new(),
        subscriptions: subscriptions
            .iter()
            .map(|(product, deployed)| EnvironmentSubscriptionView {
                product: product.to_string(),
                channel: "stable".into(),
                head: "1.1.0".into(),
                deployed: deployed.map(String::from),
                health: None,
                error: None,
                overlay_digest: None,
                applied_overlay: None,
                state: "current".into(),
            })
            .collect(),
        facts: TextMap::new(),
        lease: EnvironmentLeaseInspect {
            held: false,
            owner: None,
            generation: None,
            expires_at_ms: None,
            status: "unheld".into(),
        },
        latest_plan: None,
        execution_note: String::new(),
    }
}

#[test]
fn the_hub_tells_the_version_of_the_first_subscription() {
    let report = inspected(&[
        ("other", Some("9.0.0")),
        ("edge-app", Some("1.1.0")),
        ("edge-app", Some("1.0.0")),
    ]);
    assert_eq!(hub_version("spoke-00", &report), Ok("1.1.0".to_string()));
    for report in [
        inspected(&[]),
        inspected(&[("edge-app", None), ("edge-app", Some("1.0.0"))]),
    ] {
        assert_eq!(
            hub_version("spoke-00", &report).unwrap_err().to_string(),
            "hub inspect for spoke-00 has no deployed edge-app"
        );
    }
}

#[test]
fn a_drill_trusts_its_exporter_and_its_runtime() {
    let exporter = SigningKey::from_bytes(&[7; 32]);
    let runtime = SigningKey::from_bytes(&[8; 32]);
    let roots = isolated_trust_roots(&exporter, &runtime);
    roots.validate("bundle").unwrap();
    assert_eq!(roots.signers[0].identity, "exporter");
    assert_eq!(roots.signers[1].identity, "airgap-runtime");
    assert_ne!(roots.signers[0].key_id, roots.signers[1].key_id);
}

fn held(name: &str, properties: &[(&str, &str)]) -> StoredEnvironment {
    let mut map = TextMap::new();
    for (key, value) in properties {
        map.insert(key.to_string(), value.to_string());
    }
    StoredEnvironment { name: name.into(), properties: map }
}

#[test]
fn stored_postures_are_counted_by_seed() {
    let mut environments = vec![
        held("a", &[(PROPERTY_SEED, "s"), (PROPERTY_POSTURE, "blocked")]),
        held("b", &[(PROPERTY_SEED, "other"), (PROPERTY_POSTURE, "current")]),
        held("c", &[]),
        held("d", &[(PROPERTY_SEED, "s"), (PROPERTY_POSTURE, "current")]),
        held("e", &[(PROPERTY_SEED, "s"), (PROPERTY_POSTURE, "blocked")]),
    ];
    let counts = stored_posture_counts(&environments, "s").unwrap();
    assert_eq!(counts.len(), 2);
    assert_eq!(counts.get("blocked"), Some(&2));
    assert_eq!(counts.get("current"), Some(&1));
    let postures = stored_postures(&environments).unwrap();
    assert_eq!(postures.len(), 4);
    assert_eq!(postures.get("b"), Some(&WorkloadPosture::Current));
    assert_eq!(postures.get("c"), None);
    environments.push(held("f", &[(PROPERTY_SEED, "s")]));
    environments.push(held("g", &[(PROPERTY_SEED, "s"), (PROPERTY_POSTURE, "odd")]));
    assert_eq!(
        stored_posture_counts(&environments, "s").unwrap_err().to_string(),
        "environment f is missing workload posture"
    );
    assert_eq!(
        stored_postures(&environments).unwrap_err().to_string(),
        "unknown workload posture \"odd\""
    );
}

#[test]
fn versions_are_gathered_from_spokes_and_hub() {
    let spokes = vec![
        held("spoke-00", &[("deployed.edge-app", "1.0.0")]),
        held("spoke-01", &[("deployed.edge-app", "1.1.0")]),
    ];
    let versions = spoke_versions(&spokes).unwrap();
    assert_eq!(show_map(&versions), "{\"spoke-00\": \"1.0.0\", \"spoke-01\": \"1.1.0\"}");
    let names = vec!["spoke-00".to_string(), "spoke-01".to_string()];
    let seen = vec![
        inspected(&[("edge-app", Some("1.0.0"))]),
        inspected(&[("edge-app", Some("1.1.0"))]),
    ];
    assert_eq!(hub_versions(&names, &seen), Ok(versions));
    assert_eq!(
        spoke_versions(&vec![held("spoke-00", &[])]).unwrap_err().to_string(),
        "spoke spoke-00 has no local deployed.edge-app evidence"
    );
    let unseen = vec![inspected(&[("edge-app", Some("1.0.0"))]), inspected(&[])];
    assert_eq!(
        hub_versions(&names, &unseen).unwrap_err().to_string(),
        "hub inspect for spoke-01 has no deployed edge-app"
    );
}
