use tenkai::error::Error;
use tenkai::graph::Object;
use tenkai::manifest::{ModelRequirementsSection, ProductKind};
use tenkai::ontology::{plan_id, release_id};
use tenkai::plan::convergence::{
    assemble_steps, classify_change, content_address, content_reason, normalized_steps,
    numbered_steps, rollback_step, rollback_target, Channel, Pending,
};
use tenkai::plan::lifecycle::{
    check_replacement, confirms, executable_digest, from_object, json_array_is_empty,
    require_indexed_created_at_matches_payload, require_indexed_identity, settle_update,
    to_object, validated_plan_object, PlanPayloadPeek, StoredPlan, Transition,
};
use tenkai::plan::reads::{
    keep_listed, newest_plan_from_objects, plan_query, plans_from_objects,
    reject_retargeted_environment_index, require_environment_indexes_match_payloads, retire_empty,
};
use tenkai::plan::release_selection::{
    check_required_fact, release_product_kind, required_facts, resolve_constrained_release,
    select_model_runtime_variant, version_in_range, ChannelHead, PublishedRelease,
    StoredManifest,
};
use tenkai::plan::snapshot::{compute_snapshot, planned_channels, restore_needed, Resolved};
use tenkai::plan::{
    model_requirements_fit, model_routing_rollout_rank, validate_model_routing_rollout_order,
    Action, DesiredStateInput, Plan, PlanState, ReleasePin, Step, NO_OP_STATUS_DETAIL,
    PLAN_FORMAT_VERSION,
};
use tenkai::text_map::TextMap;

fn content(plan: &Plan) -> Vec<u8> {
    format!(
        "{:?}",
        (
            &plan.environment,
            plan.created_at,
            &plan.inputs,
            normalized_steps(&plan.steps),
            content_reason(plan.recalled_recovery_reason.as_deref()),
        )
    )
    .into_bytes()
}

fn executable(plan: &Plan) -> Vec<u8> {
    format!(
        "{:?}",
        (
            &plan.id,
            &plan.content_id,
            &plan.inputs,
            &plan.steps,
            &plan.recalled_recovery_reason
        )
    )
    .into_bytes()
}

fn address(mut plan: Plan) -> Plan {
    plan.content_id = content_address(&content(&plan));
    plan.id = plan_id(&plan.environment, plan.created_at, &plan.content_id);
    for (index, step) in plan.steps.iter_mut().enumerate() {
        step.id = format!("{}:step:{index}", plan.id);
    }
    plan
}

fn unaddressed_plan() -> Plan {
    Plan {
        format_version: PLAN_FORMAT_VERSION,
        id: String::new(),
        content_id: String::new(),
        environment: "prod".into(),
        created_at: 123,
        inputs: vec![DesiredStateInput {
            product: "api".into(),
            channel: "stable".into(),
            channel_id: "tenkai:channel:api/stable".into(),
            desired_version: "2.0.0".into(),
            release_id: "tenkai:release:api@2.0.0".into(),
            release_digest: "target-digest".into(),
            artifact_digest: "target-artifact-digest".into(),
            deployed_version: Some("1.0.0".into()),
        }],
        steps: vec![Step {
            id: String::new(),
            order: 0,
            product: "api".into(),
            action: Action::Upgrade,
            from: Some("1.0.0".into()),
            to: "2.0.0".into(),
            release_id: "tenkai:release:api@2.0.0".into(),
            release_digest: "target-digest".into(),
            artifact_digest: "target-artifact-digest".into(),
            workdir: "/srv/api".into(),
            restore: Some(ReleasePin {
                release_id: "tenkai:release:api@1.0.0".into(),
                digest: "restore-digest".into(),
                artifact_digest: "restore-artifact-digest".into(),
                workdir: "/srv/api".into(),
            }),
        }],
        state: PlanState::Computed,
        gates_skipped: None,
        status_detail: String::new(),
        maintenance_blocked: false,
        prior_warnings: Vec::new(),
        recalled_recovery_reason: None,
    }
}

fn example_plan() -> Plan {
    address(unaddressed_plan())
}

fn stored(plan: Plan) -> Option<StoredPlan> {
    Some(StoredPlan {
        content: content(&plan),
        executable: executable(&plan),
        plan,
    })
}

fn object_of(plan: &Plan) -> Object {
    to_object(plan, "{}", &executable(plan), 1_000)
}

fn read(object: &Object, plan: Plan) -> Result<Plan, String> {
    from_object(object, stored(plan))
        .map(|found| found.plan)
        .map_err(|error| error.to_string())
}

#[test]
fn recalled_recovery_reason_is_part_of_signed_plan_identity() {
    let left = example_plan();
    let mut right = unaddressed_plan();
    right.recalled_recovery_reason = Some("restore last known-good".into());
    let right = address(right);
    assert_ne!(left.content_id, right.content_id);
    assert_ne!(
        executable_digest(&executable(&left)),
        executable_digest(&executable(&right))
    );
}

#[test]
fn serialized_plan_round_trips() {
    let plan = example_plan();
    let object = object_of(&plan);
    assert_eq!(read(&object, example_plan()).unwrap(), plan);
}

#[test]
fn lifecycle_changes_do_not_change_executable_digest() {
    let plan = example_plan();
    let mut blocked = example_plan();
    blocked.state = PlanState::Blocked;
    blocked.maintenance_blocked = true;
    assert_eq!(
        executable_digest(&executable(&plan)),
        executable_digest(&executable(&blocked))
    );
    let object = object_of(&blocked);
    assert!(read(&object, blocked).unwrap().maintenance_blocked);
}

#[test]
fn executable_mutation_is_detected() {
    let object = object_of(&example_plan());
    let mut changed = example_plan();
    changed.steps[0].to = "3.0.0".into();
    let error = read(&object, changed).unwrap_err();
    assert!(error.contains("content-addressed id"));
}

#[test]
fn stored_plans_are_checked_in_every_field() {
    let object = object_of(&example_plan());
    let refused = |change: fn(&mut Plan)| {
        let mut plan = example_plan();
        change(&mut plan);
        read(&object, plan).unwrap_err()
    };
    assert!(refused(|p| p.format_version = 9).contains("uses unsupported format version 9"));
    assert!(refused(|p| p.maintenance_blocked = true).contains("maintenance-block marker"));
    assert!(refused(|p| p.id = "x".into()).contains("does not match object id"));
    assert!(refused(|p| p.steps[0].id = "x".into()).contains("invalid step ordering or ids"));
    assert!(refused(|p| p.state = PlanState::Running).contains("inconsistent lifecycle state"));
    let mut tampered = object_of(&example_plan());
    tampered.properties.insert("content_digest".into(), "0".into());
    assert!(read(&tampered, example_plan())
        .unwrap_err()
        .contains("executable content was mutated"));
    let mut foreign = object_of(&example_plan());
    foreign.kind = "tenkai.product".into();
    assert!(read(&foreign, example_plan()).unwrap_err().contains("not tenkai.plan"));
    assert!(from_object(&object, None)
        .unwrap_err()
        .to_string()
        .starts_with("parsing stored plan "));
}

fn plan(created_at: i64) -> Plan {
    let mut plan = unaddressed_plan();
    plan.environment = "lifecycle-test".into();
    plan.created_at = created_at;
    plan.inputs = Vec::new();
    plan.steps = Vec::new();
    address(plan)
}

fn peek(plan: &Plan) -> Option<PlanPayloadPeek> {
    Some(PlanPayloadPeek {
        created_at: plan.created_at,
        environment: plan.environment.clone(),
        state: plan.state,
        steps_empty: plan.steps.is_empty(),
    })
}

fn lifecycle_object(change: fn(&mut Object)) -> Object {
    let mut object = object_of(&plan(10));
    change(&mut object);
    object
}

fn identity(object: &Object, peek: Option<PlanPayloadPeek>) -> Result<PlanPayloadPeek, String> {
    require_indexed_identity(object, peek).map_err(|error| error.to_string())
}

#[test]
fn from_object_rejects_created_at_index_drift() {
    let object = lifecycle_object(|_| {});
    assert_eq!(read(&object, plan(10)).unwrap().created_at, 10);

    let missing = lifecycle_object(|o| o.properties.remove("created_at"));
    assert!(read(&missing, plan(10)).unwrap_err().contains("no created_at index"));

    let non_integer =
        lifecycle_object(|o| o.properties.insert("created_at".into(), "later".into()));
    assert!(read(&non_integer, plan(10)).unwrap_err().contains("not an integer"));

    let mismatch = lifecycle_object(|o| o.properties.insert("created_at".into(), "99".into()));
    let error = read(&mismatch, plan(10)).unwrap_err();
    assert!(error.contains("does not match payload"), "{error}");

    let peek_error = require_indexed_created_at_matches_payload(&mismatch, peek(&plan(10)))
        .unwrap_err()
        .to_string();
    assert!(
        peek_error.contains("does not match payload"),
        "{peek_error}"
    );
    assert_eq!(
        require_indexed_created_at_matches_payload(&object, peek(&plan(10)))
            .unwrap()
            .created_at,
        10
    );
}

#[test]
fn from_object_rejects_has_steps_index_drift() {
    let object = lifecycle_object(|_| {});
    assert_eq!(
        object.properties.get("has_steps").map(String::as_str),
        Some("false")
    );

    let missing = lifecycle_object(|o| o.properties.remove("has_steps"));
    let missing_error = read(&missing, plan(10)).unwrap_err();
    assert!(
        missing_error.contains("no has_steps index"),
        "{missing_error}"
    );
    assert!(identity(&missing, peek(&plan(10)))
        .unwrap_err()
        .contains("no has_steps index"));

    let mismatch = lifecycle_object(|o| o.properties.insert("has_steps".into(), "true".into()));
    assert!(read(&mismatch, plan(10))
        .unwrap_err()
        .contains("does not match payload steps"));
    assert!(identity(&mismatch, peek(&plan(10)))
        .unwrap_err()
        .contains("does not match payload steps"));

    let mut stepped = peek(&plan(10)).unwrap();
    stepped.steps_empty = json_array_is_empty("[{\"opaque\": true}]").unwrap();
    let stepped_missing = identity(&missing, Some(stepped)).unwrap_err();
    assert!(
        stepped_missing.contains("no has_steps index"),
        "{stepped_missing}"
    );
}

#[test]
fn identity_peek_does_not_materialize_typed_step_bodies() {
    let object = lifecycle_object(|_| {});
    assert!(identity(&object, peek(&plan(10))).unwrap().steps_empty);

    let raw = format!(
        "[{{\"opaque\": true, \"blob\": \"{}\"}}, {{\"nested\": {{\"more\": [1, 2, 3]}}}}]",
        "x".repeat(4096)
    );
    let untyped = || {
        let mut untyped = peek(&plan(10)).unwrap();
        untyped.steps_empty = json_array_is_empty(&raw).unwrap();
        Some(untyped)
    };
    assert!(identity(&object, untyped())
        .unwrap_err()
        .contains("does not match payload steps"));
    let stepped = lifecycle_object(|o| o.properties.insert("has_steps".into(), "true".into()));
    let peeked = identity(&stepped, untyped()).unwrap();
    assert!(!peeked.steps_empty);
    assert_eq!(peeked.environment, "lifecycle-test");

    let error = json_array_is_empty("{\"not\": \"an array\"}").unwrap_err().to_string();
    assert!(error.contains("plan steps must be a JSON array"), "{error}");
}

#[test]
fn identity_peek_treats_whitespace_only_steps_array_as_empty() {
    let object = lifecycle_object(|_| {});
    let mut peeked = peek(&plan(10)).unwrap();
    peeked.steps_empty = json_array_is_empty("[\n  \n]").unwrap();
    assert!(identity(&object, Some(peeked)).unwrap().steps_empty);
    assert_eq!(json_array_is_empty(" [1] "), Ok(false));
    assert!(json_array_is_empty("[").is_err());
}

#[test]
fn from_object_rejects_environment_index_drift() {
    let object = lifecycle_object(|_| {});
    assert_eq!(read(&object, plan(10)).unwrap().environment, "lifecycle-test");

    let missing = lifecycle_object(|o| o.properties.remove("environment"));
    assert!(read(&missing, plan(10)).unwrap_err().contains("no environment index"));

    let mismatch = lifecycle_object(|o| o.properties.insert("environment".into(), "other".into()));
    let error = read(&mismatch, plan(10)).unwrap_err();
    assert!(error.contains("does not match payload"), "{error}");
    let identity_error = identity(&mismatch, peek(&plan(10))).unwrap_err();
    assert!(
        identity_error.contains("does not match payload"),
        "{identity_error}"
    );
}

#[test]
fn retarget_scan_fails_closed_when_index_leaves_payload_environment() {
    let payloads = || vec![Some("lifecycle-test".to_string())];
    let retargeted =
        lifecycle_object(|o| o.properties.insert("environment".into(), "other".into()));
    let error =
        reject_retargeted_environment_index(&vec![retargeted], &payloads(), "lifecycle-test")
            .unwrap_err()
            .to_string();
    assert!(
        error.contains("environment index other does not match payload lifecycle-test"),
        "{error}"
    );

    let missing = lifecycle_object(|o| o.properties.remove("environment"));
    let missing_error =
        reject_retargeted_environment_index(&vec![missing], &payloads(), "lifecycle-test")
            .unwrap_err()
            .to_string();
    assert!(
        missing_error.contains("no environment index"),
        "{missing_error}"
    );
}

#[test]
fn retarget_scan_skips_unreadable_foreign_plans() {
    let local = || lifecycle_object(|_| {});
    let mut foreign = object_of(&plan(20));
    foreign.properties.insert("environment".into(), "other".into());
    reject_retargeted_environment_index(
        &vec![local(), foreign],
        &vec![Some("lifecycle-test".to_string()), None],
        "lifecycle-test",
    )
    .unwrap();

    let error = reject_retargeted_environment_index(&vec![local()], &vec![None], "lifecycle-test")
        .unwrap_err()
        .to_string();
    assert!(error.contains("parsing stored plan environment"), "{error}");
}

#[test]
fn newest_plan_from_objects_decodes_the_newest_validated_row() {
    let objects = vec![object_of(&plan(10)), object_of(&plan(20))];
    let peeks = vec![peek(&plan(10)), peek(&plan(20))];
    let at = newest_plan_from_objects(&objects, &peeks, "lifecycle-test")
        .unwrap()
        .unwrap();
    assert_eq!(peeks[at].as_ref().unwrap().created_at, 20);
    let error =
        newest_plan_from_objects(&vec![object_of(&plan(10))], &vec![peek(&plan(10))], "other")
            .unwrap_err()
            .to_string();
    assert!(error.contains("expected other"), "{error}");
    assert_eq!(newest_plan_from_objects(&Vec::new(), &Vec::new(), "other"), Ok(None));
}

#[test]
fn index_scans_reject_poisoned_rows() {
    let poisoned =
        lifecycle_object(|o| o.properties.insert("status".into(), "succeeded".into()));
    let error = require_environment_indexes_match_payloads(
        &vec![poisoned],
        &vec![peek(&plan(10))],
        "lifecycle-test",
    )
    .unwrap_err()
    .to_string();
    assert!(
        error.contains("status index succeeded does not match payload computed"),
        "{error}"
    );
}

fn replacement(
    from: fn(&mut Plan),
    to: fn(&mut Plan),
) -> Result<(), String> {
    let mut before = example_plan();
    from(&mut before);
    let mut after = example_plan();
    to(&mut after);
    check_replacement(&stored(before).unwrap(), &after, &executable(&after))
        .map_err(|error| error.to_string())
}

#[test]
fn terminal_states_are_not_left() {
    assert_eq!(replacement(|_| {}, |p| p.state = PlanState::Running), Ok(()));
    assert!(replacement(|p| p.state = PlanState::Failed, |p| p.state = PlanState::Running)
        .unwrap_err()
        .contains("cannot transition from failed to running"));
    assert!(replacement(
        |p| p.state = PlanState::Failed,
        |p| {
            p.state = PlanState::Failed;
            p.status_detail = "changed failure".into();
        }
    )
    .unwrap_err()
    .contains("lifecycle audit fields are immutable"));
    assert!(replacement(|_| {}, |p| p.steps[0].to = "3.0.0".into())
        .unwrap_err()
        .contains("executable content is immutable"));
    assert!(replacement(|_| {}, |p| p.state = PlanState::Succeeded).is_err());
    let empty = plan(30);
    let mut retired = plan(30);
    retire_empty(&empty).unwrap().apply(&mut retired);
    assert_eq!(retired.state, PlanState::Succeeded);
    assert_eq!(retired.status_detail, NO_OP_STATUS_DETAIL);
    check_replacement(&stored(empty).unwrap(), &retired, &executable(&retired)).unwrap();
    assert!(retire_empty(&example_plan()).is_err());
}

#[test]
fn transitions_carry_their_audit_fields() {
    let mut plan = example_plan();
    Transition::execution(PlanState::Running, false, "admitted").apply(&mut plan);
    assert_eq!((plan.state, plan.gates_skipped), (PlanState::Running, Some(false)));
    Transition::maintenance_blocked(true, "closed").apply(&mut plan);
    assert_eq!((plan.state, plan.maintenance_blocked), (PlanState::Blocked, true));
    let mut same = example_plan();
    Transition::maintenance_blocked(true, "closed").apply(&mut same);
    assert!(confirms(&plan, &same));
    assert!(!confirms(&plan, &example_plan()));
}

#[test]
fn a_plan_is_stored_over_the_row_that_holds_it() {
    let before = object_of(&example_plan());
    let mut after = example_plan();
    after.state = PlanState::Running;
    let object = validated_plan_object(
        Some(&before),
        stored(example_plan()),
        &after,
        "{\"running\":1}",
        &executable(&after),
        2_000,
    )
    .unwrap();
    assert_eq!(object.properties.text("status"), Some("running"));
    assert_eq!(object.properties.text("plan"), Some("{\"running\":1}"));
    assert_eq!(object.updated, 2_000);
    assert!(validated_plan_object(None, None, &after, "{}", &executable(&after), 1).is_ok());
}

#[test]
fn listings_hold_what_was_asked_for() {
    let plan = example_plan();
    let computed = vec![PlanState::Computed];
    assert_eq!(keep_listed(&plan, "prod", Some(&computed), Some(true)), Ok(true));
    assert_eq!(keep_listed(&plan, "prod", None, Some(false)), Ok(false));
    assert!(keep_listed(&plan, "other", None, None).is_err());
    assert!(keep_listed(&plan, "prod", Some(&vec![PlanState::Running]), None).is_err());
    let query = plan_query("prod", Some(&computed), true, Some(8), None, Some(true)).unwrap();
    assert_eq!(query.statuses, Some(vec!["computed".to_string()]));
    assert_eq!(query.has_steps.as_deref(), Some("true"));
    assert!(plan_query(" ", None, true, None, None, None)
        .unwrap_err()
        .to_string()
        .contains("required"));
}

#[test]
fn semantic_version_direction_is_recorded() {
    assert_eq!(classify_change("2.0.0", "1.9.0"), Action::Downgrade);
    assert_eq!(classify_change("1.9.0", "2.0.0"), Action::Upgrade);
}

#[test]
fn model_routing_forward_order_requires_model_before_routing() {
    validate_model_routing_rollout_order(&[
        (ProductKind::ModelRuntime, Action::Install),
        (ProductKind::RoutingConfig, Action::Upgrade),
    ])
    .unwrap();
    let err = validate_model_routing_rollout_order(&[
        (ProductKind::RoutingConfig, Action::Upgrade),
        (ProductKind::ModelRuntime, Action::Install),
    ])
    .unwrap_err()
    .to_string();
    assert!(err.contains("unsafe rollout order"), "{err}");
}

#[test]
fn model_routing_rollback_order_requires_routing_before_model() {
    validate_model_routing_rollout_order(&[
        (ProductKind::RoutingConfig, Action::Rollback),
        (ProductKind::ModelRuntime, Action::Downgrade),
    ])
    .unwrap();
    let err = validate_model_routing_rollout_order(&[
        (ProductKind::ModelRuntime, Action::Downgrade),
        (ProductKind::RoutingConfig, Action::Rollback),
    ])
    .unwrap_err()
    .to_string();
    assert!(err.contains("unsafe rollback order"), "{err}");
}

#[test]
fn model_routing_rejects_mixed_forward_and_reverse_directions() {
    let err = validate_model_routing_rollout_order(&[
        (ProductKind::ModelRuntime, Action::Downgrade),
        (ProductKind::RoutingConfig, Action::Upgrade),
    ])
    .unwrap_err()
    .to_string();
    assert!(err.contains("mixed model/routing"), "{err}");
}

#[test]
fn model_routing_rank_orders_forward_and_reverse() {
    assert!(
        model_routing_rollout_rank(ProductKind::ModelRuntime, Action::Install)
            < model_routing_rollout_rank(ProductKind::RoutingConfig, Action::Install)
    );
    assert!(
        model_routing_rollout_rank(ProductKind::RoutingConfig, Action::Rollback)
            < model_routing_rollout_rank(ProductKind::ModelRuntime, Action::Rollback)
    );
}

#[test]
fn version_range_is_half_open() {
    assert!(version_in_range("1.0.0", "1.0.0..2.0.0").unwrap());
    assert!(version_in_range("1.9.9", "1.0.0..2.0.0").unwrap());
    assert!(!version_in_range("2.0.0", "1.0.0..2.0.0").unwrap());
    assert!(!version_in_range("0.9.0", "1.0.0..2.0.0").unwrap());
    assert!(version_in_range("bad", "1.0.0..2.0.0").is_err());
    assert!(version_in_range("1.0.0", "2.0.0..1.0.0").is_err());
}

fn facts(memory: &str, architecture: &str) -> TextMap<String> {
    let mut facts = TextMap::new();
    facts.insert("architecture".into(), architecture.into());
    facts.insert("memory_gib".into(), memory.into());
    facts.insert("accelerator".into(), "apple-metal".into());
    facts
}

fn requirements(memory_gib: u32) -> ModelRequirementsSection {
    ModelRequirementsSection {
        architecture: vec!["arm64".into(), "x86_64".into()],
        memory_gib,
        accelerator: vec!["apple-metal".into()],
    }
}

#[test]
fn model_requirements_match_architecture_memory_and_accelerator() {
    let requirements = requirements(24);
    model_requirements_fit("local", "qwen", "1.0.0", &facts("32", "arm64"), &requirements)
        .unwrap();

    let err = model_requirements_fit("local", "qwen", "1.0.0", &facts("8", "arm64"), &requirements)
        .unwrap_err()
        .to_string();
    assert!(err.contains("memory_gib"), "{err}");

    let err =
        model_requirements_fit("local", "qwen", "1.0.0", &facts("32", "riscv"), &requirements)
            .unwrap_err()
            .to_string();
    assert!(err.contains("architecture"), "{err}");
}

fn model_release(version: &str, memory_gib: u32) -> PublishedRelease {
    PublishedRelease {
        id: release_id("qwen-coder", version),
        version: Some(version.into()),
        manifest: StoredManifest::Present {
            kind: ProductKind::ModelRuntime,
            requirements: Some(requirements(memory_gib)),
        },
    }
}

fn variant(memory: &str, range: Option<&str>) -> Result<(String, String), String> {
    let head = model_release("1.1.0", 48);
    select_model_runtime_variant(
        "local",
        &ChannelHead {
            product: "qwen-coder",
            version: "1.1.0",
            release_id: "tenkai:release:qwen-coder@1.1.0",
        },
        Some(&head),
        range,
        &facts(memory, "arm64"),
        &vec![model_release("1.0.0", 16), model_release("1.1.0", 48)],
    )
    .map_err(|error| error.to_string())
}

#[test]
fn the_highest_variant_that_fits_is_selected() {
    assert_eq!(
        variant("24", None),
        Ok(("1.0.0".to_string(), release_id("qwen-coder", "1.0.0")))
    );
    assert_eq!(variant("64", None).unwrap().0, "1.1.0");
    assert_eq!(variant("64", Some("1.0.0..1.1.0")).unwrap().0, "1.0.0");
    let err = variant("8", None).unwrap_err();
    assert!(err.contains("no model_runtime variant"), "{err}");
}

fn environment(properties: &[(&str, &str)]) -> Object {
    let mut map = TextMap::new();
    for (key, value) in properties {
        map.insert(key.to_string(), value.to_string());
    }
    Object {
        id: "tenkai:env:prod".into(),
        kind: "tenkai.environment".into(),
        name: "prod".into(),
        namespace: "tenkai".into(),
        external_id: String::new(),
        properties: map,
        created: 1,
        updated: 1,
    }
}

fn software(version: &str) -> PublishedRelease {
    PublishedRelease {
        id: release_id("api", version),
        version: Some(version.into()),
        manifest: StoredManifest::Present { kind: ProductKind::Software, requirements: None },
    }
}

fn resolve(properties: &[(&str, &str)], pinned: Option<&PublishedRelease>) -> Result<String, String> {
    let head = software("2.0.0");
    resolve_constrained_release(
        &environment(properties),
        "prod",
        &ChannelHead {
            product: "api",
            version: "2.0.0",
            release_id: "tenkai:release:api@2.0.0",
        },
        pinned,
        Some(&head),
        &TextMap::new(),
        &vec![software("1.0.0"), software("2.0.0")],
    )
    .map(|(version, _)| version)
    .map_err(|error| error.to_string())
}

#[test]
fn constraints_override_the_channel() {
    let old = software("1.0.0");
    assert_eq!(resolve(&[], None), Ok("2.0.0".to_string()));
    assert_eq!(
        resolve(&[("constraint.version_pin.api", "1.0.0")], Some(&old)),
        Ok("1.0.0".to_string())
    );
    assert!(resolve(&[("constraint.version_pin.api", "1.0.0")], None).is_err());
    assert!(resolve(&[("constraint.version_range.api", "1.0.0..2.0.0")], None).is_err());
}

#[test]
fn required_facts_are_read_from_the_constraints() {
    let listed = required_facts(&environment(&[
        ("constraint.require_fact.region", "eu"),
        ("description", "x"),
    ]));
    assert_eq!(listed.len(), 1);
    assert_eq!((listed[0].fact.as_str(), listed[0].expected.as_str()), ("region", "eu"));
    check_required_fact("prod", &listed[0], "eu").unwrap();
    assert!(check_required_fact("prod", &listed[0], "us").is_err());
}

fn pin(product: &str, version: &str) -> ReleasePin {
    ReleasePin {
        release_id: release_id(product, version),
        digest: format!("{product}-{version}"),
        artifact_digest: format!("artifact-{product}-{version}"),
        workdir: format!("/srv/{product}"),
    }
}

fn resolved(product: &str, desired: &str, kind: ProductKind, restore: Option<&str>) -> Resolved {
    Resolved {
        channel: Channel {
            id: format!("tenkai:channel:{product}/stable"),
            product: product.into(),
            channel: "stable".into(),
            version: desired.into(),
            release: release_id(product, desired),
        },
        desired: desired.into(),
        release: release_id(product, desired),
        kind,
        target: pin(product, desired),
        restore: restore.map(|version| pin(product, version)),
    }
}

#[test]
fn a_snapshot_plans_what_differs_from_the_deployed_state() {
    let environment = environment(&[("deployed.api", "1.0.0"), ("deployed.db", "3.0.0")]);
    assert_eq!(
        restore_needed(&environment, "api", "2.0.0"),
        Some("tenkai:release:api@1.0.0".to_string())
    );
    assert_eq!(restore_needed(&environment, "db", "3.0.0"), None);
    assert_eq!(restore_needed(&environment, "router", "1.0.0"), None);
    let snapshot = compute_snapshot(
        &environment,
        "prod",
        &vec![
            resolved("router", "1.0.0", ProductKind::RoutingConfig, None),
            resolved("db", "3.0.0", ProductKind::Software, None),
            resolved("api", "2.0.0", ProductKind::Software, Some("1.0.0")),
            resolved("model", "1.0.0", ProductKind::ModelRuntime, None),
        ],
    )
    .unwrap();
    let planned = snapshot
        .steps
        .iter()
        .map(|step| (step.order, step.product.as_str(), step.action))
        .collect::<Vec<_>>();
    assert_eq!(
        planned,
        vec![
            (0, "model", Action::Install),
            (1, "api", Action::Upgrade),
            (2, "router", Action::Install),
        ]
    );
    assert_eq!(
        snapshot.inputs.iter().map(|input| input.product.as_str()).collect::<Vec<_>>(),
        vec!["api", "db", "model", "router"]
    );
    assert_eq!(snapshot.steps[1].restore, Some(pin("api", "1.0.0")));
}

#[test]
fn converged_environments_have_nothing_to_do() {
    let snapshot = compute_snapshot(
        &environment(&[("deployed.api", "2.0.0")]),
        "prod",
        &vec![resolved("api", "2.0.0", ProductKind::Software, None)],
    )
    .unwrap();
    assert!(snapshot.steps.is_empty());
    let unknown = compute_snapshot(
        &environment(&[("deployed.api", "1.0.0"), ("deployment_health.api", "unknown")]),
        "prod",
        &vec![resolved("api", "2.0.0", ProductKind::Software, Some("1.0.0"))],
    );
    assert!(unknown
        .unwrap_err()
        .to_string()
        .starts_with("deployment state for api in prod is unknown: "));
}

#[test]
fn only_promoted_channels_are_planned_and_each_product_once() {
    let channel = |product: &str, name: &str, version: &str| {
        let mut object = environment(&[
            ("product", product),
            ("channel", name),
            ("current_version", version),
            ("current_release", &release_id(product, version)),
        ]);
        object.id = format!("tenkai:channel:{product}/{name}");
        object
    };
    let planned = planned_channels(
        "prod",
        &vec![channel("api", "stable", "1.0.0"), channel("db", "stable", "")],
    )
    .unwrap();
    assert_eq!(planned.len(), 1);
    assert_eq!(planned[0].product, "api");
    assert!(planned_channels(
        "prod",
        &vec![channel("api", "stable", "1.0.0"), channel("api", "beta", "2.0.0")],
    )
    .is_err());
}

#[test]
fn rollback_needs_a_previous_version() {
    let known = environment(&[("deployed.api", "2.0.0"), ("deployed_prev.api", "1.0.0")]);
    assert_eq!(
        rollback_target(&known, "prod", "api"),
        Ok(("1.0.0".to_string(), Some("2.0.0".to_string())))
    );
    assert!(rollback_target(&environment(&[]), "prod", "api").is_err());
    assert!(rollback_target(&known, "prod", "a/b").is_err());
}

#[test]
fn assembled_steps_are_ranked_and_numbered() {
    let pending = |product: &str, kind: ProductKind, action: Action| Pending {
        product: product.into(),
        action,
        from: None,
        to: "1.0.0".into(),
        target: pin(product, "1.0.0"),
        restore: None,
        kind,
    };
    let steps = assemble_steps(
        "prod",
        &vec![
            pending("router", ProductKind::RoutingConfig, Action::Install),
            pending("model", ProductKind::ModelRuntime, Action::Install),
        ],
    )
    .unwrap();
    assert_eq!(steps[0].product, "model");
    assert_eq!((steps[1].product.as_str(), steps[1].order), ("router", 1));
    assert!(assemble_steps(
        "prod",
        &vec![
            pending("router", ProductKind::RoutingConfig, Action::Rollback),
            pending("model", ProductKind::ModelRuntime, Action::Install),
        ],
    )
    .is_err());
}

#[test]
fn an_unanswered_update_counts_where_it_is_stored() {
    let wanted = plan(10);
    let mut other = plan(10);
    other.status_detail = "elsewhere".into();
    let fault = || Err(Error::fixed("lost"));
    settle_update(&wanted, Ok(()), false, None).unwrap();
    settle_update(&wanted, fault(), true, Some(&plan(10))).unwrap();
    for (confirm, stored) in [(false, Some(&wanted)), (true, None), (true, Some(&other))] {
        assert_eq!(
            settle_update(&wanted, fault(), confirm, stored).unwrap_err().to_string(),
            "lost"
        );
    }
}

#[test]
fn a_rollback_is_one_step_to_the_previous_version() {
    let target = pin("api", "1.0.0");
    let step = rollback_step("prod", "api", "1.0.0", &Some("2.0.0".into()), &target, &None);
    assert_eq!(step.id, "tenkai:env:prod:rollback:api");
    assert_eq!(step.order, 0);
    assert_eq!(step.action, Action::Rollback);
    assert_eq!(step.from.as_deref(), Some("2.0.0"));
    assert_eq!(step.to, "1.0.0");
    assert_eq!(step.release_id, target.release_id);
    assert_eq!(step.release_digest, target.digest);
    assert_eq!(step.restore, None);
    let again = rollback_step("prod", "db", "1.0.0", &None, &target, &Some(pin("db", "2.0.0")));
    let numbered = numbered_steps(&vec![step, again]);
    assert_eq!(numbered[0].order, 0);
    assert_eq!(numbered[1].order, 1);
    assert_eq!(numbered[1].product, "db");
    assert_eq!(numbered[1].restore, Some(pin("db", "2.0.0")));
}

#[test]
fn the_kind_of_a_release_is_that_of_its_manifest() {
    let kind = |release: Option<&PublishedRelease>| {
        release_product_kind("r", release).map_err(|error| error.to_string())
    };
    assert_eq!(kind(Some(&software("1.0.0"))), Ok(ProductKind::Software));
    assert_eq!(kind(Some(&model_release("1.0.0", 16))), Ok(ProductKind::ModelRuntime));
    assert_eq!(kind(None).unwrap_err(), "release r not found for product kind lookup");
    let bare = PublishedRelease { manifest: StoredManifest::Absent, ..software("1.0.0") };
    assert_eq!(kind(Some(&bare)).unwrap_err(), "release r has no stored manifest");
    let damaged = PublishedRelease { manifest: StoredManifest::Unreadable, ..software("1.0.0") };
    assert!(kind(Some(&damaged)).is_err());
}

#[test]
fn lookups_hand_out_the_plans_they_hold() {
    let with_steps = || {
        let mut plan = unaddressed_plan();
        plan.environment = "lifecycle-test".into();
        address(plan)
    };
    let rows = || vec![plan(10), with_steps(), plan(30)];
    let listing = |statuses: Option<&Vec<PlanState>>, has_steps: Option<bool>| {
        let objects = rows().iter().map(object_of).collect();
        let read = rows().into_iter().map(stored).collect();
        plans_from_objects(&objects, read, "lifecycle-test", statuses, has_steps)
            .map_err(|error| error.to_string())
    };
    assert_eq!(listing(None, None), Ok(rows()));
    assert_eq!(listing(None, Some(true)), Ok(vec![with_steps()]));
    assert_eq!(listing(None, Some(false)), Ok(vec![plan(10), plan(30)]));
    assert!(listing(Some(&vec![PlanState::Failed]), None)
        .unwrap_err()
        .contains("outside the requested filter"));
    let objects = vec![object_of(&plan(10)), object_of(&plan(20))];
    let unreadable = vec![stored(plan(10)), None];
    assert_eq!(
        plans_from_objects(&objects, unreadable, "lifecycle-test", None, None)
            .unwrap_err()
            .to_string(),
        format!("parsing stored plan {}", objects[1].id)
    );
}
