use tenkai::fleet_workload::{
    format_workload, incomplete, plan_workload, planting, posture_counts, require_channel,
    seed_digest, stored_posture, validate_members, WorkloadMember, WorkloadPosture, WorkloadSpec,
    POSTURE_BEHIND, POSTURE_BLOCKED, POSTURE_CURRENT, POSTURE_DISCONNECTED, POSTURE_UNHEALTHY,
    PROPERTY_POSTURE, PROPERTY_SEED, WORKLOAD_SIZE,
};
use tenkai::text_map::TextMap;

fn spec(seed: &str) -> WorkloadSpec {
    WorkloadSpec {
        seed: seed.into(),
        product: "scale-app".into(),
        channel: "stable".into(),
        current_version: "1.1.0".into(),
        behind_version: "1.0.0".into(),
    }
}

#[test]
fn same_seed_reproduces_identities_and_mixed_counts() {
    let first = plan_workload(&spec("demo-seed")).unwrap();
    let second = plan_workload(&spec("demo-seed")).unwrap();
    assert_eq!(first, second);
    assert_eq!(first.members.len(), WORKLOAD_SIZE as usize);
    let counts = posture_counts(&first);
    assert_eq!(counts.get(POSTURE_CURRENT).copied(), Some(200));
    assert_eq!(counts.get(POSTURE_BEHIND).copied(), Some(200));
    assert_eq!(counts.get(POSTURE_UNHEALTHY).copied(), Some(200));
    assert_eq!(counts.get(POSTURE_BLOCKED).copied(), Some(200));
    assert_eq!(counts.get(POSTURE_DISCONNECTED).copied(), Some(200));
    assert_ne!(plan_workload(&spec("other-seed")).unwrap(), first);
}

#[test]
fn unknown_posture_duplicate_identity_and_all_healthy_fail_closed() {
    let err = WorkloadPosture::parse("modem").unwrap_err().to_string();
    assert!(err.contains("unknown workload posture"), "{err}");
    let err = seed_digest("bearer secret-token").unwrap_err().to_string();
    assert!(err.contains("credential material"), "{err}");
    let err = spec(" demo ").validate().unwrap_err().to_string();
    assert!(err.contains("non-canonical"), "{err}");
    let mut identical = spec("demo-seed");
    identical.behind_version = identical.current_version.clone();
    let err = plan_workload(&identical).unwrap_err().to_string();
    assert!(err.contains("must differ"), "{err}");
    let all_current = (0..WORKLOAD_SIZE)
        .map(|index| WorkloadMember {
            name: format!("synx{index:04}"),
            posture: WorkloadPosture::Current,
        })
        .collect::<Vec<_>>();
    let err = validate_members(&all_current).unwrap_err().to_string();
    assert!(err.contains("all-healthy"), "{err}");
    let mut duplicated = plan_workload(&spec("demo-seed")).unwrap().members;
    duplicated[1].name = duplicated[0].name.clone();
    let err = validate_members(&duplicated).unwrap_err().to_string();
    assert!(err.contains("duplicate environment identity"), "{err}");
}

#[test]
fn format_names_the_mix_without_secrets() {
    let plan = plan_workload(&spec("demo-seed")).unwrap();
    let text = format_workload(&plan);
    assert!(text.contains("environments=1000"), "{text}");
    assert!(text.contains("current=200"), "{text}");
    assert!(!text.to_ascii_lowercase().contains("bearer"), "{text}");
    assert!(!text.contains("token="), "{text}");
}

#[test]
fn names_come_from_the_digest_of_the_seed() {
    let plan = plan_workload(&spec("abc")).unwrap();
    assert_eq!(
        plan.seed_digest,
        "sha256:ba7816bf8f01cfea414140de5dae2223b00361a396177a9cb410ff61f20015ad"
    );
    assert_eq!(plan.members[0].name, "synba7816bf0000");
    assert_eq!(plan.members[0].posture, WorkloadPosture::Current);
    assert_eq!(plan.members[42].name, "synba7816bf0042");
    assert_eq!(plan.members[42].posture, WorkloadPosture::Unhealthy);
    assert_eq!(plan.members[999].posture, WorkloadPosture::Disconnected);
    validate_members(&plan.members).unwrap();
    assert_eq!(
        format_workload(&plan),
        "synthetic workload seed_digest=sha256:ba7816bf8f01cfea414140de5dae2223b00361a396177a9cb410ff61f20015ad environments=1000\n  current=200 behind=200 unhealthy=200 blocked=200 disconnected=200"
    );
}

#[test]
fn seeds_are_bounded_and_plain() {
    seed_digest(&"s".repeat(128)).unwrap();
    assert!(seed_digest(&"s".repeat(129)).is_err());
    assert!(seed_digest("").is_err());
    assert_eq!(
        seed_digest("a\u{7}b").unwrap_err().to_string(),
        "workload seed must not contain control characters"
    );
    assert!(seed_digest("PassWord=1").is_err());
    let mut bad = spec("demo-seed");
    bad.channel = "a/b".into();
    assert!(bad.validate().unwrap_err().to_string().starts_with("channel "));
    let short = vec![
        WorkloadMember { name: "a".into(), posture: WorkloadPosture::Current },
        WorkloadMember { name: "b".into(), posture: WorkloadPosture::Behind },
    ];
    assert_eq!(
        validate_members(&short).unwrap_err().to_string(),
        "workload must contain 1000 environments, got 2"
    );
}

#[test]
fn plantings_follow_the_posture() {
    let plan = plan_workload(&spec("abc")).unwrap();
    let healthy = planting(&plan, WorkloadPosture::Current);
    assert_eq!(healthy.deployed.as_deref(), Some("1.1.0"));
    assert!(healthy.subscribed && !healthy.isolated && !healthy.blocked);
    assert_eq!(planting(&plan, WorkloadPosture::Behind).deployed.as_deref(), Some("1.0.0"));
    let sick = planting(&plan, WorkloadPosture::Unhealthy);
    assert_eq!(sick.properties.text("deployment_health.scale-app"), Some("unhealthy"));
    assert_eq!(sick.properties.text(PROPERTY_POSTURE), Some("unhealthy"));
    let apart = planting(&plan, WorkloadPosture::Disconnected);
    assert!(apart.isolated && !apart.subscribed && apart.deployed.is_none());
    assert!(planting(&plan, WorkloadPosture::Blocked).blocked);
    require_channel(&plan, true).unwrap();
    assert!(require_channel(&plan, false)
        .unwrap_err()
        .to_string()
        .contains("publish and promote a signed release first"));
    assert_eq!(
        incomplete(3, "boom").to_string(),
        "partial materialization is incomplete (3/1000): boom"
    );
}

#[test]
fn stored_postures_are_read_for_one_seed() {
    let mut properties: TextMap<String> = TextMap::new();
    assert_eq!(stored_posture("e", &properties, "sha256:x"), Ok(None));
    properties.insert(PROPERTY_SEED.to_string(), "sha256:x".to_string());
    assert_eq!(
        stored_posture("e", &properties, "sha256:x").unwrap_err().to_string(),
        "environment e is missing workload posture"
    );
    properties.insert(PROPERTY_POSTURE.to_string(), "blocked".to_string());
    assert_eq!(
        stored_posture("e", &properties, "sha256:x"),
        Ok(Some(WorkloadPosture::Blocked))
    );
    assert_eq!(stored_posture("e", &properties, "sha256:y"), Ok(None));
    properties.insert(PROPERTY_POSTURE.to_string(), "modem".to_string());
    assert!(stored_posture("e", &properties, "sha256:x").is_err());
}
