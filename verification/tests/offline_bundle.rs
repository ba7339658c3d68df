use base64::engine::general_purpose::STANDARD;
use base64::Engine as _;
use tenkai::crypto::{digest_of, SigningKey};
use tenkai::offline_bundle::bundle::{BundleEnvelope, VerifiedBundle};
use tenkai::offline_bundle::receipt::{
    offline_receipt_id, OfflineStepReceipt, ReceiptEnvelope, ReceiptStatement, ReceiptTrustScope,
};
use tenkai::offline_bundle::rules::{validate_path, validate_text};
use tenkai::offline_bundle::statement::BundleStatement;
use tenkai::signature_verification::key_id;
use tenkai::text_map::TextMap;
use tenkai::trust::{TrustRoots, TrustedSigner};

fn signing_key_id(key: &SigningKey) -> String {
    key_id(&key.public_key())
}

fn roots(key: &SigningKey, identity: &str) -> TrustRoots {
    TrustRoots {
        version: 1,
        signers: vec![TrustedSigner {
            key_id: signing_key_id(key),
            identity: identity.into(),
            public_key: STANDARD.encode(key.public_key()),
        }],
    }
}

fn payloads() -> TextMap<(String, Vec<u8>)> {
    let mut payloads = TextMap::new();
    payloads.insert(
        "approvals/plan-1.json".to_string(),
        ("application/json".to_string(), br#"{"approval":"plan-1"}"#.to_vec()),
    );
    payloads.insert(
        "plans/plan-1.json".to_string(),
        ("application/json".to_string(), br#"{"plan":"plan-1"}"#.to_vec()),
    );
    payloads.insert(
        "releases/app@1.0.0/payload.bin".to_string(),
        ("application/octet-stream".to_string(), b"immutable payload".to_vec()),
    );
    payloads
}

fn statement() -> BundleStatement {
    BundleStatement {
        tenant_id: "tenant-1".into(),
        environment_id: "airgap-1".into(),
        plan_id: "plan-1".into(),
        plan_digest: digest_of(br#"{"plan":"plan-1"}"#),
        approval_digest: digest_of(br#"{"approval":"plan-1"}"#),
        release_ids: vec!["app@1.0.0".into()],
        exporter_identity: "exporter".into(),
        issued_at_unix_ms: 1_000,
        expires_at_unix_ms: 10_000,
        entries: Vec::new(),
    }
}

fn bundle(key: &SigningKey) -> BundleEnvelope {
    BundleEnvelope::create(statement(), &payloads(), key).unwrap()
}

fn receipt_statement(verified: &VerifiedBundle, detail: &str) -> ReceiptStatement {
    ReceiptStatement {
        bundle_digest: verified.digest().to_string(),
        tenant_id: "tenant-1".into(),
        environment_id: "airgap-1".into(),
        runtime_id: "runtime-1".into(),
        plan_id: "plan-1".into(),
        plan_digest: verified.statement().plan_digest.clone(),
        generation: 1,
        succeeded: true,
        detail: detail.into(),
        completed_at_unix_ms: 3_000,
        receipts: vec![OfflineStepReceipt {
            receipt_id: offline_receipt_id("airgap-1", "plan-1", "step-1", 1),
            step_id: "step-1".into(),
            attempt: 1,
            succeeded: true,
            result_digest: digest_of(b"installed"),
        }],
    }
}

fn scope(runtime: &SigningKey, environment: &str) -> ReceiptTrustScope {
    ReceiptTrustScope {
        tenant_id: "tenant-1".into(),
        environment_id: environment.into(),
        runtime_id: "runtime-1".into(),
        key_id: signing_key_id(runtime),
    }
}

fn verified_bundle() -> VerifiedBundle {
    let exporter = SigningKey::from_bytes(&[7; 32]);
    bundle(&exporter)
        .verify(&roots(&exporter, "exporter"), "tenant-1", "airgap-1", 2_000)
        .unwrap()
}

#[test]
fn network_isolated_bundle_execution_and_receipt_round_trip() {
    let runtime = SigningKey::from_bytes(&[9; 32]);
    let verified = verified_bundle();
    assert_eq!(
        verified.entry("releases/app@1.0.0/payload.bin"),
        Some(&b"immutable payload"[..])
    );
    assert_eq!(verified.signer_identity(), "exporter");

    let receipt = ReceiptEnvelope::create(
        receipt_statement(&verified, "offline execution completed"),
        &runtime,
    )
    .unwrap();
    let imported = receipt
        .verify(
            &roots(&runtime, "airgap runtime"),
            &scope(&runtime, "airgap-1"),
            &verified,
            4_000,
        )
        .unwrap();
    assert!(imported.runtime_completion().succeeded);
    assert_eq!(imported.signer_identity(), "airgap runtime");
    let (import, steps) = imported.import_records("{}".to_string());
    assert_eq!(import.bundle_digest, verified.digest());
    assert_eq!(steps.len(), 1);
    assert_eq!(steps[0].step_id, "step-1");
}

#[test]
fn every_changed_signed_input_fails_verification() {
    let key = SigningKey::from_bytes(&[7; 32]);
    let roots = roots(&key, "exporter");
    for mutate in [
        |bundle: &mut BundleEnvelope| bundle.statement.plan_digest = digest_of(b"changed plan"),
        |bundle: &mut BundleEnvelope| {
            bundle.statement.approval_digest = digest_of(b"changed approval")
        },
        |bundle: &mut BundleEnvelope| bundle.statement.release_ids[0] = "app@2.0.0".into(),
        |bundle: &mut BundleEnvelope| {
            bundle.entries[0].content_base64 = STANDARD.encode(b"changed artifact")
        },
    ] {
        let mut changed = bundle(&key);
        mutate(&mut changed);
        assert!(changed
            .verify(&roots, "tenant-1", "airgap-1", 2_000)
            .is_err());
    }
}

#[test]
fn signed_root_cannot_claim_different_plan_or_approval_payloads() {
    let key = SigningKey::from_bytes(&[7; 32]);
    let roots = roots(&key, "exporter");
    for change in [
        |statement: &mut BundleStatement| statement.plan_digest = digest_of(b"other plan"),
        |statement: &mut BundleStatement| statement.approval_digest = digest_of(b"other approval"),
    ] {
        let mut archive = bundle(&key);
        change(&mut archive.statement);
        archive.signature =
            STANDARD.encode(key.sign(&archive.statement.canonical_bytes().unwrap()));
        assert!(archive
            .verify(&roots, "tenant-1", "airgap-1", 2_000)
            .is_err());
    }
}

#[test]
fn rejects_scope_replay_expiry_and_unsafe_paths() {
    let key = SigningKey::from_bytes(&[7; 32]);
    let roots = roots(&key, "exporter");
    let archive = bundle(&key);
    assert!(archive
        .verify(&roots, "other-tenant", "airgap-1", 2_000)
        .is_err());
    assert!(archive
        .verify(&roots, "tenant-1", "airgap-1", 10_000)
        .is_err());

    let mut unsafe_archive = archive;
    unsafe_archive.statement.entries[0].path = "../escape".into();
    assert!(unsafe_archive
        .verify(&roots, "tenant-1", "airgap-1", 2_000)
        .is_err());
}

#[test]
fn binds_claimed_identities_to_explicit_signer_scopes() {
    let exporter = SigningKey::from_bytes(&[7; 32]);
    let mut archive = bundle(&exporter);
    archive.statement.exporter_identity = "impersonated exporter".into();
    archive.signature =
        STANDARD.encode(exporter.sign(&archive.statement.canonical_bytes().unwrap()));
    assert!(archive
        .verify(&roots(&exporter, "exporter"), "tenant-1", "airgap-1", 2_000)
        .is_err());

    let verified = verified_bundle();
    let runtime = SigningKey::from_bytes(&[9; 32]);
    let receipt =
        ReceiptEnvelope::create(receipt_statement(&verified, "completed"), &runtime).unwrap();
    assert!(receipt
        .verify(
            &roots(&runtime, "runtime"),
            &scope(&runtime, "other-environment"),
            &verified,
            4_000
        )
        .is_err());
}

#[test]
fn sealed_entries_are_indexed_in_order() {
    let key = SigningKey::from_bytes(&[7; 32]);
    let sealed = bundle(&key);
    let paths = sealed
        .statement
        .entries
        .iter()
        .map(|entry| entry.path.as_str())
        .collect::<Vec<_>>();
    assert_eq!(
        paths,
        vec![
            "approvals/plan-1.json",
            "plans/plan-1.json",
            "releases/app@1.0.0/payload.bin"
        ]
    );
    assert_eq!(sealed.statement.entries[2].size, 17);
    assert_eq!(sealed.statement.entries[2].digest, digest_of(b"immutable payload"));
    assert_eq!(
        sealed.statement.digest().unwrap(),
        digest_of(&sealed.statement.canonical_bytes().unwrap())
    );
    assert_eq!(verified_bundle().digest(), sealed.statement.digest().unwrap());
}

#[test]
fn statements_are_checked_before_they_are_sealed() {
    let key = SigningKey::from_bytes(&[7; 32]);
    let refused = |change: fn(&mut BundleStatement)| {
        let mut statement = statement();
        change(&mut statement);
        BundleEnvelope::create(statement, &payloads(), &key).is_err()
    };
    assert!(refused(|s| s.tenant_id = " ".into()));
    assert!(refused(|s| s.expires_at_unix_ms = 1_000));
    assert!(refused(|s| s.plan_digest = "sha256:zz".into()));
    assert!(refused(|s| s.release_ids = Vec::new()));
    assert!(validate_path("a/b").is_ok());
    assert!(validate_path("/a").is_err());
    assert!(validate_path("a/../b").is_err());
    assert!(validate_text("name", "value", 5).is_ok());
    assert!(validate_text("name", "values", 5).is_err());
    assert!(validate_text("name", "", 5).is_err());
}

#[test]
fn receipts_are_consistent() {
    let runtime = SigningKey::from_bytes(&[9; 32]);
    let verified = verified_bundle();
    let refused = |change: fn(&mut ReceiptStatement)| {
        let mut statement = receipt_statement(&verified, "completed");
        change(&mut statement);
        ReceiptEnvelope::create(statement, &runtime).is_err()
    };
    assert!(refused(|s| s.receipts[0].receipt_id = "other".into()));
    assert!(refused(|s| s.receipts[0].succeeded = false));
    assert!(refused(|s| s.receipts[0].attempt = 0));
    let late = ReceiptEnvelope::create(receipt_statement(&verified, "completed"), &runtime)
        .unwrap()
        .verify(
            &roots(&runtime, "runtime"),
            &scope(&runtime, "airgap-1"),
            &verified,
            2_999,
        );
    assert!(late.is_err());
    assert_ne!(
        offline_receipt_id("e", "p", "s", 1),
        offline_receipt_id("e", "p", "s", 2)
    );
}

#[test]
fn encoded_bundles_are_bounded() {
    let limit = tenkai::offline_bundle::rules::MAX_ARCHIVE_BYTES * 4 / 3 + 4 * 1024 * 1024;
    tenkai::offline_bundle::rules::check_encoded_size(limit).unwrap();
    assert_eq!(
        tenkai::offline_bundle::rules::check_encoded_size(limit + 1).unwrap_err().to_string(),
        "offline bundle exceeds the encoded archive byte limit"
    );
}
