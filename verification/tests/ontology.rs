use tenkai::graph::ObjectType;
use tenkai::ontology::{
    action_types, channel_id, configure_maintenance_action, confirm_registration, deployment_id,
    env_id, evolve_schema, object_type, plan_id, plan_registration, product_id, prop, release_id,
    release_verification_id, require_canary_schema, schema_includes, schema_preserves,
    schema_types, validate_identifier, Registration, KIND_MAINTENANCE_CONFIG,
};

#[test]
fn graph_identifier_components_reject_delimiters() {
    assert!(validate_identifier("product", "api-service_2.0").is_ok());
    assert!(validate_identifier("product", "api@1").is_err());
    assert!(validate_identifier("environment", "prod:eu").is_err());
    assert!(validate_identifier("channel", "stable/eu").is_err());
}

#[test]
fn maintenance_action_mutates_the_configuration_object() {
    let action = configure_maintenance_action(1_000);
    assert_eq!(action.target_kind, KIND_MAINTENANCE_CONFIG);
    assert_eq!(
        action
            .ops
            .iter()
            .map(|operation| operation.property.as_str())
            .collect::<Vec<_>>(),
        vec![
            "environment",
            "windows",
            "revision",
            "last_update_correlation"
        ]
    );
    assert_eq!(action.created, 1_000);
}

#[test]
fn schema_evolution_detects_missing_or_incompatible_properties() {
    let expected = object_type(
        "example",
        "expected",
        vec![prop("existing", true, ""), prop("added", false, "")],
    );
    let legacy = object_type("example", "legacy", vec![prop("existing", true, "")]);
    assert!(!schema_includes(&legacy, &expected));

    let current = object_type(
        "example",
        "current",
        vec![prop("existing", true, ""), prop("added", false, "")],
    );
    assert!(schema_includes(&current, &expected));

    let incompatible = object_type(
        "example",
        "incompatible",
        vec![prop("existing", true, ""), prop("added", true, "")],
    );
    assert!(!schema_includes(&incompatible, &expected));
    assert!(evolve_schema(&incompatible, &expected).is_err());

    let mut custom = object_type(
        "example",
        "custom description",
        vec![prop("existing", true, "custom metadata")],
    );
    custom.implements.push("custom.interface".into());
    custom
        .properties
        .push(prop("installation_specific", false, "must survive"));
    let evolved = evolve_schema(&custom, &expected).unwrap();
    assert_eq!(evolved.description, "custom description");
    assert_eq!(evolved.implements, vec!["custom.interface"]);
    assert_eq!(evolved.properties[0].description, "custom metadata");
    assert!(evolved
        .properties
        .iter()
        .any(|property| property.name == "installation_specific"));
    assert!(schema_includes(&evolved, &expected));
    assert!(schema_preserves(&evolved, &custom));
}

#[test]
fn identifiers_are_built_from_their_parts() {
    assert_eq!(product_id("api"), "tenkai:product:api");
    assert_eq!(release_id("api", "1.0.0"), "tenkai:release:api@1.0.0");
    assert_eq!(channel_id("api", "stable"), "tenkai:channel:api/stable");
    assert_eq!(env_id("prod"), "tenkai:env:prod");
    assert_ne!(release_id("api", "1.0.0"), release_id("api", "1.0.1"));
    assert!(release_verification_id("tenkai:release:api@1.0.0").contains("api@1.0.0"));
    assert!(plan_id("prod", -5, "c").contains("prod"));
    assert!(deployment_id("prod", "api", 7).contains("api"));
    assert_ne!(plan_id("prod", 1, "c"), plan_id("prod", 2, "c"));
}

fn sample() -> ObjectType {
    object_type("example", "d", vec![prop("name", true, "")])
}

#[test]
fn registration_creates_what_is_missing_and_keeps_what_fits() {
    let expected = sample();
    assert_eq!(
        plan_registration(&Vec::new(), &expected),
        Ok(Registration::Create(sample()))
    );
    assert_eq!(plan_registration(&vec![sample()], &expected), Ok(Registration::Keep));
    let foreign = object_type("example", "d", vec![prop("name", false, "")]);
    assert!(plan_registration(&vec![foreign], &expected).is_err());
    assert_eq!(confirm_registration(&vec![sample()], &expected, &sample(), true), Ok(true));
    assert_eq!(confirm_registration(&vec![sample()], &expected, &sample(), false), Ok(false));
    assert!(confirm_registration(&Vec::new(), &expected, &sample(), true).is_err());
}

#[test]
fn schema_types_are_valid_for_canaries() {
    let types = schema_types();
    require_canary_schema(&types).unwrap();
    assert!(require_canary_schema(&Vec::new()).is_err());
    assert!(action_types(5).iter().all(|action| action.created == 5));
    let mut kinds = types.iter().map(|schema| schema.kind.as_str()).collect::<Vec<_>>();
    kinds.sort();
    let count = kinds.len();
    kinds.dedup();
    assert_eq!(kinds.len(), count);
}
