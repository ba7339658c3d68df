use tenkai::auth_context::{AuthError, AuthMode, DeliveryCapability};
use tenkai::crypto::digest_hex;
use tenkai::fenced_mutation::{
    check_go, check_ready, deploy_child_environment, guard_arguments, guard_executable,
    inherited_variables, on_guard_event, settle_child, ChildEnd, GuardEvent, GuardStep,
    MutationCommand, GO, READY,
};
use tenkai::management_operations::{
    audit_entry, audit_failed, authorize_read, authorize_reconcile, map_environment_error,
    map_tenant_error, reconcile_outcome, settle_authentication, settle_reconcile, AuthFault,
    Caller, Dispatch, ManagementError, TenantEnvironmentError, RECONCILE_REQUESTED,
};
use tenkai::text_map::TextMap;

#[test]
fn deploy_child_environment_excludes_control_plane_secrets() {
    let keys = [
        ("TENKAI_MANAGEMENT_TOKEN", "mgmt-secret"),
        ("TENKAI_RUNTIME_TOKEN", "runtime-secret"),
        ("TENKAI_RUNTIME_TOKENS", r#"{"t":"prod"}"#),
        ("TENKAI_OUTCOME_PROVIDER_TOKEN", "outcome-secret"),
        ("SEKAI_AUTH_TOKEN", "sekai-secret"),
        ("TENKAI_POSTGRES_URL", "postgres://secret"),
        ("PATH", "/usr/bin:/bin"),
    ];
    let mut parent = TextMap::new();
    for (key, value) in keys {
        parent.insert(key.to_string(), value.to_string());
    }
    let env = deploy_child_environment(&parent, "lab", "app", Some(7));
    for (forbidden, _) in &keys[..6] {
        assert!(
            !env.contains_key(forbidden),
            "deploy child env must not contain {forbidden}"
        );
    }
    assert_eq!(env.text("TENKAI_ENVIRONMENT"), Some("lab"));
    assert_eq!(env.text("TENKAI_PRODUCT"), Some("app"));
    assert_eq!(env.text("TENKAI_FENCING_GENERATION"), Some("7"));
    assert!(
        env.contains_key("PATH"),
        "PATH should remain available for install tools"
    );
    let inherited = inherited_variables();
    for i in 0..env.len() {
        let key = env.key_at(i);
        assert!(
            inherited.contains(key)
                || key == "TENKAI_ENVIRONMENT"
                || key == "TENKAI_PRODUCT"
                || key == "TENKAI_FENCING_GENERATION"
                || key == "COMPOSE_PROJECT_NAME",
            "unexpected deploy child key: {key}"
        );
    }
    let project = digest_hex(b"lab\0app");
    assert_eq!(
        env.text("COMPOSE_PROJECT_NAME"),
        Some(format!("tenkai-{}", &project[..16]).as_str())
    );
}

#[test]
fn guards_are_found_beside_the_executable() {
    assert_eq!(
        guard_executable(Some("/bin/guard"), true, "/bin/tenkai", "tenkai", None),
        Ok("/bin/guard".to_string())
    );
    assert!(guard_executable(Some("/bin/guard"), false, "/bin/tenkai", "tenkai", None).is_err());
    assert_eq!(
        guard_executable(None, false, "/bin/tenkai", "tenkai", Some("/bin/tenkai-executor-guard")),
        Ok("/bin/tenkai-executor-guard".to_string())
    );
    assert!(guard_executable(None, false, "/bin/tenkai", "tenkai", None)
        .unwrap_err()
        .to_string()
        .contains("was not found beside /bin/tenkai"));
}

#[test]
fn guards_are_told_the_mutation_and_the_generation() {
    let mutation = MutationCommand {
        lock_path: "/locks/prod",
        workdir: "/srv/api",
        environment: "prod",
        product: "api",
        command: "make install",
    };
    let words = guard_arguments("/bin/tenkai", &mutation, 7);
    for word in ["/locks/prod", "/srv/api", "prod", "api", "make install", "7"] {
        assert!(words.iter().any(|found| found == word), "{word}: {words:?}");
    }
    check_ready(READY).unwrap();
    assert!(check_ready(GO).is_err());
    check_go(GO).unwrap();
    assert!(check_go(0).is_err());
}

#[test]
fn a_lost_fence_stops_the_guard() {
    assert_eq!(on_guard_event(&GuardEvent::Refreshed(None)), GuardStep::Wait);
    assert_eq!(
        on_guard_event(&GuardEvent::Refreshed(Some("expired".into()))),
        GuardStep::Stop("deployment command lost its environment fence: expired".into())
    );
    assert_eq!(
        on_guard_event(&GuardEvent::TimedOut),
        GuardStep::Stop("deployment command exceeded the 10 minute timeout".into())
    );
    assert_eq!(on_guard_event(&GuardEvent::Exited(None)), GuardStep::Finish(None));
    assert_eq!(
        on_guard_event(&GuardEvent::Exited(Some("exit status: 2".into()))),
        GuardStep::Finish(Some("deployment command exited with exit status: 2".into()))
    );
    assert_eq!(
        settle_child(&ChildEnd::ControllerGone).unwrap_err().to_string(),
        "deployment controller exited"
    );
    settle_child(&ChildEnd::Exited(None)).unwrap();
}

fn caller(capabilities: Vec<DeliveryCapability>, tenant: Option<&str>) -> Caller {
    Caller {
        principal: "user-42".into(),
        tenant: tenant.map(String::from),
        capabilities,
    }
}

#[test]
fn capabilities_gate_reads_and_reconciles() {
    let none = caller(Vec::new(), None);
    assert_eq!(
        authorize_reconcile(&none, false, false),
        Err(ManagementError::Forbidden("insufficient delivery capability".into()))
    );
    assert!(matches!(
        authorize_read(&none, false, false),
        Err(ManagementError::Forbidden(ref msg)) if msg.contains("capability")
    ));
    let reader = caller(vec![DeliveryCapability::Read], None);
    assert_eq!(authorize_read(&reader, false, false), Ok(Dispatch::Host));
    assert!(authorize_reconcile(&reader, false, false).is_err());
    let manager = caller(
        vec![DeliveryCapability::Read, DeliveryCapability::Management],
        Some("tenant-a"),
    );
    assert_eq!(authorize_reconcile(&manager, false, false), Ok(Dispatch::Host));
    assert_eq!(authorize_reconcile(&manager, true, true), Ok(Dispatch::Tenant));
    assert_eq!(
        authorize_reconcile(&manager, true, false),
        Err(ManagementError::Unavailable("tenant store unavailable".into()))
    );
}

#[test]
fn faults_of_authentication_tell_nothing() {
    let outcome = |fault: AuthFault| settle_authentication(AuthMode::Enterprise, Err(fault));
    assert_eq!(
        outcome(AuthFault::Known(AuthError::InvalidCredential("secret detail".into()))),
        Err(ManagementError::Unauthorized("invalid management credential".into()))
    );
    assert_eq!(
        outcome(AuthFault::Other("secret detail".into())),
        Err(ManagementError::Forbidden("invalid management credential".into()))
    );
    assert!(settle_authentication(
        AuthMode::Community,
        Ok(caller(Vec::new(), Some("tenant-a")))
    )
    .is_err());
}

#[test]
fn reconciles_are_audited() {
    assert_eq!(RECONCILE_REQUESTED, "reconcile.requested");
    assert_ne!(reconcile_outcome(Some(0)), reconcile_outcome(Some(1)));
    assert_ne!(reconcile_outcome(None), reconcile_outcome(Some(0)));
    let entry = audit_entry("id-1", 5, "user-42", RECONCILE_REQUESTED);
    assert_eq!((entry.id.as_str(), entry.occurred_at), ("id-1", 5));
    assert_eq!(entry.principal, "user-42");
    assert_eq!(settle_reconcile(Ok(3), Ok(())), Ok(3));
    assert!(settle_reconcile(Ok(3), Err(audit_failed("disk"))).is_err());
    assert!(matches!(
        map_tenant_error(TenantEnvironmentError::NotFound, "denied"),
        ManagementError::NotFound(_)
    ));
    assert!(matches!(
        map_environment_error("environment x is not registered".into()),
        ManagementError::NotFound(_)
    ));
    assert!(matches!(
        map_environment_error("disk full".into()),
        ManagementError::Internal(_)
    ));
}
