use tenkai::auth_context::AuthError;
use tenkai::federated_identity::{
    audit_correlation_token, provider_unavailability_outcome, reject_caller_selected_tenant,
    standalone_enterprise_requires_governance_provider, FederatedIdentifier,
    FederatingAuthExtension, FederationConfig, FederationError, IdentityAuthority,
    IdentityDirectory, IdentityKind, IdentityMapping, MappingAuthority,
    ProviderAvailabilityOutcome, ProviderDecisionClass, SignedIdentityContext,
};

const ISSUER: &str = "https://identity.example/issuer";

fn principal() -> FederatedIdentifier {
    FederatedIdentifier::new(IdentityKind::Principal, ISSUER, "tenkai-server", "user-42").unwrap()
}

fn tenant() -> FederatedIdentifier {
    FederatedIdentifier::new(IdentityKind::Tenant, ISSUER, "tenkai-server", "tenant-7").unwrap()
}

fn enterprise_config() -> FederationConfig {
    FederationConfig::enterprise(ISSUER, "tenkai-server")
}

fn signed_context(assertion_id: &str) -> SignedIdentityContext {
    SignedIdentityContext {
        issuer: ISSUER.into(),
        audience: "tenkai-server".into(),
        issued_at: 1_000,
        not_before: 1_000,
        expires_at: 10_000,
        assertion_id: assertion_id.into(),
        principal: principal(),
        tenant: Some(tenant()),
        service: None,
    }
}

fn mapping(handle: &str, generation: u64) -> IdentityMapping {
    IdentityMapping {
        external: principal(),
        local_handle: handle.into(),
        created_at: 1_000,
        expires_at: None,
        revoked_at: None,
        generation,
    }
}

fn authority_of(issuer: &str) -> MappingAuthority {
    IdentityDirectory::new()
        .mapping_authority(&FederationConfig::enterprise(issuer, "tenkai-server"))
        .unwrap()
}

#[test]
fn tenkai_owns_delivery_identities() {
    assert_eq!(IdentityKind::Environment.default_authority(), IdentityAuthority::Tenkai);
    assert_eq!(IdentityKind::Agent.default_authority(), IdentityAuthority::Tenkai);
    assert_eq!(IdentityKind::Product.default_authority(), IdentityAuthority::Tenkai);
    assert_eq!(IdentityKind::Plan.default_authority(), IdentityAuthority::Tenkai);
    assert_eq!(
        IdentityKind::Evidence.default_authority(),
        IdentityAuthority::GovernanceProvider
    );
    assert_eq!(
        IdentityKind::Tenant.default_authority(),
        IdentityAuthority::EnterpriseIdentityPlane
    );
}

#[test]
fn identifiers_require_issuer_audience_subject() {
    assert!(matches!(
        FederatedIdentifier::new(IdentityKind::Principal, "", "aud", "sub"),
        Err(FederationError::InvalidIdentifier(_))
    ));
}

#[test]
fn signed_context_binds_issuer_and_audience() {
    let config = enterprise_config();
    let context = signed_context("assert-1");
    let mut dir = IdentityDirectory::new();
    dir.accept_signed_context(&config, &context, 2_000).unwrap();
    assert!(matches!(
        dir.accept_signed_context(&config, &context, 2_000),
        Err(FederationError::Replay)
    ));
}

#[test]
fn audit_correlation_token_contains_no_secrets() {
    let token = audit_correlation_token("assert-secret-material");
    assert!(token.starts_with("fed:"));
    assert!(!token.contains("assert-secret-material"));
    assert!(!token.contains("Bearer"));
    assert_eq!(token.len(), 4 + 64);
}

#[test]
fn correlation_tokens_are_digests() {
    assert_eq!(
        audit_correlation_token("abc"),
        "fed:ba7816bf8f01cfea414140de5dae2223b00361a396177a9cb410ff61f20015ad"
    );
}

#[test]
fn federating_extension_replays_fail_closed_and_mappings_need_authority() {
    let config = enterprise_config();
    let mut extension =
        FederatingAuthExtension::new(IdentityDirectory::new(), enterprise_config());
    let now = 1_700_000_000_000;
    let live = || {
        let mut signed = signed_context("assert-live-1");
        signed.issued_at = now - 1_000;
        signed.not_before = now - 1_000;
        signed.expires_at = now + 60_000;
        signed
    };
    extension.check_assertion(Some(Ok(live())), now).unwrap();
    let replay = extension.check_assertion(Some(Ok(live())), now).unwrap_err();
    assert!(
        matches!(replay, AuthError::Unauthorized(ref msg) if msg.contains("replay")),
        "{replay:?}"
    );

    let mut directory = IdentityDirectory::new();
    let mapping_authority = directory.mapping_authority(&config).unwrap();
    directory
        .put_mapping(
            &mapping_authority,
            IdentityMapping {
                external: principal(),
                local_handle: "tenkai-principal-local".into(),
                created_at: now,
                expires_at: None,
                revoked_at: None,
                generation: 1,
            },
            now,
        )
        .unwrap();
    let foreign = authority_of("https://other");
    assert!(matches!(
        directory.put_mapping(
            &foreign,
            IdentityMapping {
                external: principal(),
                local_handle: "hijack".into(),
                created_at: now,
                expires_at: None,
                revoked_at: None,
                generation: 2,
            },
            now,
        ),
        Err(FederationError::UnauthorizedMapping)
    ));
    directory.revoke(&mapping_authority, &principal(), now).unwrap();
    assert!(matches!(
        directory.resolve(&principal(), now),
        Err(FederationError::Revoked)
    ));
    directory.delete(&mapping_authority, &principal()).unwrap();
    assert!(matches!(
        directory.resolve(&principal(), now),
        Err(FederationError::NotFound)
    ));
}

#[test]
fn requests_without_an_assertion_pass_and_unreadable_ones_do_not() {
    let mut extension =
        FederatingAuthExtension::new(IdentityDirectory::new(), enterprise_config());
    assert_eq!(extension.config().expected_audience, "tenkai-server");
    extension.check_assertion(None, 2_000).unwrap();
    assert_eq!(
        extension.check_assertion(Some(Err("expected value".into())), 2_000),
        Err(AuthError::InvalidCredential(
            "signed identity context is not valid federation JSON: expected value".into()
        ))
    );
    let mut context = signed_context("assert-kind");
    context.principal = tenant();
    assert_eq!(
        extension.check_assertion(Some(Ok(context)), 2_000),
        Err(AuthError::InvalidCredential(
            "invalid federated identifier: principal claim must have kind principal".into()
        ))
    );
    assert_eq!(
        extension.directory().resolve(&principal(), 2_000),
        Err(FederationError::NotFound)
    );
}

#[test]
fn wrong_issuer_or_audience_fails_closed() {
    let config = enterprise_config();
    let mut context = signed_context("assert-2");
    context.issuer = "https://other.example/issuer".into();
    let mut dir = IdentityDirectory::new();
    assert!(matches!(
        dir.accept_signed_context(&config, &context, 2_000),
        Err(FederationError::IssuerMismatch { .. })
    ));
    context = signed_context("assert-3");
    context.audience = "other-service".into();
    context.principal.audience = "other-service".into();
    context.tenant.as_mut().unwrap().audience = "other-service".into();
    assert!(matches!(
        dir.accept_signed_context(&config, &context, 2_000),
        Err(FederationError::AudienceMismatch { .. })
    ));
}

#[test]
fn contexts_are_valid_between_their_instants_give_or_take_the_skew() {
    let context = signed_context("assert-time");
    let at = |now: i64| context.validate(ISSUER, "tenkai-server", now, 100);
    assert_eq!(at(899), Err(FederationError::NotYetValid));
    assert_eq!(at(900), Ok(()));
    assert_eq!(at(10_099), Ok(()));
    assert_eq!(at(10_100), Err(FederationError::Expired));
    assert_eq!(at(i64::MAX), Err(FederationError::Expired));
    assert_eq!(
        context.validate(ISSUER, "tenkai-server", i64::MAX, i64::MAX),
        Ok(())
    );
}

#[test]
fn the_assertion_that_expires_first_is_forgotten_at_the_capacity() {
    let mut config = enterprise_config();
    config.replay_cache_capacity = 2;
    let mut dir = IdentityDirectory::new();
    let mut accept = |id: &str, expires_at: i64| {
        let mut context = signed_context(id);
        context.expires_at = expires_at;
        dir.accept_signed_context(&config, &context, 2_000)
    };
    accept("first", 8_000).unwrap();
    accept("second", 7_000).unwrap();
    accept("third", 9_000).unwrap();
    assert_eq!(accept("first", 8_000), Err(FederationError::Replay));
    assert_eq!(accept("third", 9_000), Err(FederationError::Replay));
    accept("second", 7_000).unwrap();
}

#[test]
fn tenant_mapping_requires_authority_not_caller_metadata() {
    assert!(matches!(
        reject_caller_selected_tenant(Some("tenant-7")),
        Err(FederationError::CallerMetadataForbidden)
    ));
    reject_caller_selected_tenant(None).unwrap();

    let mut dir = IdentityDirectory::new();
    let config = enterprise_config();
    let authority = dir.mapping_authority(&config).unwrap();
    let mapping = || IdentityMapping {
        external: tenant(),
        local_handle: "tenkai-tenant-correlation-7".into(),
        created_at: 1_000,
        expires_at: Some(20_000),
        revoked_at: None,
        generation: 1,
    };
    dir.put_mapping(&authority, mapping(), 2_000).unwrap();
    let resolved = dir.resolve(&tenant(), 2_000).unwrap();
    assert_eq!(resolved.local_handle, "tenkai-tenant-correlation-7");

    let foreign = authority_of("https://evil.example");
    assert!(matches!(
        dir.put_mapping(&foreign, mapping(), 2_000),
        Err(FederationError::UnauthorizedMapping)
    ));
}

#[test]
fn rotation_revocation_and_deletion() {
    let created = |handle: &str, generation: u64, at: i64| IdentityMapping {
        created_at: at,
        ..mapping(handle, generation)
    };
    let mut dir = IdentityDirectory::new();
    let config = enterprise_config();
    let authority = dir.mapping_authority(&config).unwrap();
    dir.put_mapping(&authority, created("principal-v1", 1, 1_000), 1_000).unwrap();
    dir.put_mapping(&authority, created("principal-v2", 2, 2_000), 2_000).unwrap();
    assert_eq!(
        dir.resolve(&principal(), 3_000).unwrap().local_handle,
        "principal-v2"
    );
    assert!(matches!(
        dir.put_mapping(&authority, created("stale", 1, 3_000), 3_000),
        Err(FederationError::StaleGeneration { .. })
    ));
    dir.revoke(&authority, &principal(), 4_000).unwrap();
    assert!(matches!(
        dir.resolve(&principal(), 4_000),
        Err(FederationError::Revoked)
    ));
    dir.delete(&authority, &principal()).unwrap();
    assert!(matches!(
        dir.resolve(&principal(), 5_000),
        Err(FederationError::NotFound)
    ));
}

#[test]
fn mappings_of_one_generation_keep_their_handle() {
    let mut dir = IdentityDirectory::new();
    let authority = dir.mapping_authority(&enterprise_config()).unwrap();
    assert_eq!((authority.issuer(), authority.audience()), (ISSUER, "tenkai-server"));
    dir.put_mapping(&authority, mapping("one", 3), 1_000).unwrap();
    dir.put_mapping(&authority, mapping("one", 3), 1_000).unwrap();
    assert_eq!(
        dir.put_mapping(&authority, mapping("two", 3), 1_000),
        Err(FederationError::MappingConflict)
    );
    let stale = dir.put_mapping(&authority, mapping("two", 2), 1_000).unwrap_err();
    assert_eq!(stale.to_string(), "mapping generation 2 is stale; current is 3");
}

#[test]
fn mappings_are_checked_before_they_are_recorded() {
    assert!(mapping("one", 1).is_active(1_000));
    assert!(!mapping("one", 0).is_active(1_000));
    assert!(!mapping("  ", 1).is_active(1_000));
    let mut expiring = mapping("one", 1);
    expiring.expires_at = Some(5_000);
    assert_eq!(expiring.validate(4_999), Ok(()));
    assert_eq!(expiring.validate(5_000), Err(FederationError::Expired));
    let mut old = principal();
    old.contract_version = 7;
    assert_eq!(
        old.validate().unwrap_err().to_string(),
        "incompatible federated identity contract version 7, expected 1"
    );
}

#[test]
fn provider_unavailability_policy() {
    assert!(matches!(
        provider_unavailability_outcome(ProviderDecisionClass::Required, "gate"),
        ProviderAvailabilityOutcome::FailClosed { .. }
    ));
    assert!(matches!(
        provider_unavailability_outcome(ProviderDecisionClass::Optional, "audit"),
        ProviderAvailabilityOutcome::Degrade { .. }
    ));
    assert!(!standalone_enterprise_requires_governance_provider());
}

#[test]
fn community_mode_has_no_required_issuer() {
    let config = FederationConfig::community();
    assert!(config.required_enterprise_issuer.is_none());
    let dir = IdentityDirectory::new();
    assert!(matches!(
        dir.mapping_authority(&config),
        Err(FederationError::EnterpriseIssuerNotConfigured)
    ));
}

#[test]
fn audit_correlation_contains_no_secrets() {
    let id = principal();
    let token = id.audit_correlation_id();
    assert!(token.contains("user-42"));
    assert!(!token.contains("password"));
    assert!(!token.contains("Bearer"));
}

#[test]
fn no_cross_product_database_reads_in_contract() {
    let env = FederatedIdentifier::new(
        IdentityKind::Environment,
        "tenkai",
        "tenkai-server",
        "env-prod",
    )
    .unwrap();
    assert_eq!(env.kind.default_authority(), IdentityAuthority::Tenkai);
    assert!(!env.subject.contains("postgres://"));
}

#[test]
fn a_revocation_lasts_and_touches_one_identifier() {
    let mut dir = IdentityDirectory::new();
    let authority = dir.mapping_authority(&enterprise_config()).unwrap();
    let mut held = mapping("one", 1);
    held.expires_at = Some(9_000);
    dir.put_mapping(&authority, held, 1_000).unwrap();
    let mut other = mapping("seven", 1);
    other.external = tenant();
    dir.put_mapping(&authority, other, 1_000).unwrap();
    assert_eq!(
        dir.revoke(&authority_of("https://other.example"), &principal(), 2_000),
        Err(FederationError::UnauthorizedMapping)
    );
    dir.resolve(&principal(), 2_000).unwrap();
    dir.revoke(&authority, &principal(), 2_000).unwrap();
    assert_eq!(dir.resolve(&tenant(), 2_000).unwrap().local_handle, "seven");
    assert_eq!(dir.resolve(&principal(), 1_000), Err(FederationError::Revoked));
    dir.delete(&authority, &tenant()).unwrap();
    assert_eq!(dir.resolve(&principal(), 8_999), Err(FederationError::Revoked));
    assert_eq!(dir.resolve(&principal(), 9_000), Err(FederationError::Expired));
    assert_eq!(dir.revoke(&authority, &tenant(), 3_000), Err(FederationError::NotFound));
    dir.put_mapping(&authority, mapping("two", 2), 3_000).unwrap();
    assert_eq!(dir.resolve(&principal(), 9_000).unwrap().local_handle, "two");
}
