use tenkai::auth_context::PrincipalKind;
use tenkai::error::Error;
use tenkai::management_lifecycle::{
    admit_management_lifecycle, authorize_management_lifecycle_scope,
    parse_management_lifecycle_operation, require_management_lifecycle_api_version,
    AdmittedManagementLifecycle, ManagementLifecycleEnvelope, ManagementLifecycleOperation,
    MANAGEMENT_LIFECYCLE_API_VERSION,
};

fn fleet_publish() -> ManagementLifecycleEnvelope {
    ManagementLifecycleEnvelope {
        version: 1,
        operation: "publish".into(),
        environment: None,
        expected_generation: None,
    }
}

fn env_apply() -> ManagementLifecycleEnvelope {
    ManagementLifecycleEnvelope {
        version: 1,
        operation: "apply".into(),
        environment: Some("stage".into()),
        expected_generation: Some(7),
    }
}

fn refused(result: Result<AdmittedManagementLifecycle, Error>) -> String {
    result.unwrap_err().to_string()
}

#[test]
fn version_and_unknown_operation_fail_closed() {
    require_management_lifecycle_api_version(MANAGEMENT_LIFECYCLE_API_VERSION).unwrap();
    let err = require_management_lifecycle_api_version(99)
        .unwrap_err()
        .to_string();
    assert!(
        err.contains("unsupported management lifecycle API version 99"),
        "{err}"
    );
    let err = parse_management_lifecycle_operation("deploy")
        .unwrap_err()
        .to_string();
    assert!(
        err.contains("unknown management lifecycle operation \"deploy\""),
        "{err}"
    );
}

#[test]
fn known_version_and_operation_admit() {
    let admitted =
        admit_management_lifecycle(&fleet_publish(), PrincipalKind::Management, None).unwrap();
    assert_eq!(admitted.operation, ManagementLifecycleOperation::Publish);
    assert_eq!(admitted.environment, None);

    let admitted =
        admit_management_lifecycle(&env_apply(), PrincipalKind::Management, None).unwrap();
    assert_eq!(admitted.operation, ManagementLifecycleOperation::Apply);
    assert_eq!(admitted.environment.as_deref(), Some("stage"));
    assert_eq!(admitted.expected_generation, Some(7));
}

#[test]
fn runtime_and_crossed_environment_scope_fail_closed() {
    let err = refused(admit_management_lifecycle(
        &env_apply(),
        PrincipalKind::Runtime,
        Some("stage"),
    ));
    assert!(
        err.contains("runtime credentials cannot call management lifecycle"),
        "{err}"
    );

    let err = refused(admit_management_lifecycle(
        &env_apply(),
        PrincipalKind::Management,
        Some("prod"),
    ));
    assert!(err.contains("cannot act on another environment"), "{err}");

    let err = refused(admit_management_lifecycle(
        &fleet_publish(),
        PrincipalKind::Management,
        Some("stage"),
    ));
    assert!(
        err.contains("cannot call catalog-wide management operation publish"),
        "{err}"
    );
}

#[test]
fn environment_scoped_apply_on_granted_environment_admits() {
    let admitted =
        admit_management_lifecycle(&env_apply(), PrincipalKind::Management, Some("stage")).unwrap();
    assert_eq!(admitted.environment.as_deref(), Some("stage"));
}

#[test]
fn fields_must_go_with_the_operation() {
    let about = |envelope: &ManagementLifecycleEnvelope| {
        refused(admit_management_lifecycle(envelope, PrincipalKind::Human, None))
    };
    let mut request = env_apply();
    request.environment = Some("  ".into());
    assert_eq!(about(&request), "management operation apply requires environment");
    request = env_apply();
    request.expected_generation = None;
    assert_eq!(about(&request), "management operation apply requires expected_generation");
    request = fleet_publish();
    request.environment = Some("stage".into());
    assert_eq!(
        about(&request),
        "management operation publish is catalog-wide and forbids environment"
    );
    request = fleet_publish();
    request.expected_generation = Some(1);
    assert_eq!(about(&request), "management operation publish forbids expected_generation");
    assert_eq!(
        authorize_management_lifecycle_scope(
            PrincipalKind::Management,
            Some("stage"),
            ManagementLifecycleOperation::Plan,
            None
        )
        .unwrap_err()
        .to_string(),
        "management operation plan requires environment stage"
    );
}

#[test]
fn every_operation_is_found_under_its_name() {
    for operation in [
        ManagementLifecycleOperation::Publish,
        ManagementLifecycleOperation::Promote,
        ManagementLifecycleOperation::Subscribe,
        ManagementLifecycleOperation::Plan,
        ManagementLifecycleOperation::Approve,
        ManagementLifecycleOperation::Apply,
        ManagementLifecycleOperation::Rollback,
        ManagementLifecycleOperation::Recall,
    ] {
        assert_eq!(
            parse_management_lifecycle_operation(operation.as_str()),
            Ok(operation)
        );
        assert_eq!(operation.is_catalog_wide(), !operation.requires_environment());
        assert_eq!(
            operation.requires_environment(),
            operation.requires_expected_generation()
        );
    }
}
