use base64::engine::general_purpose::STANDARD;
use base64::Engine as _;
use tenkai::crypto::SigningKey;
use tenkai::package_migration::admission::{
    catalog_digest, check_request, new_record, require_package_pin, CatalogFacts,
};
use tenkai::package_migration::approval::{
    canonical_approval_bytes, require_approval, verify_approval_envelope, verify_authorization,
};
use tenkai::package_migration::approval_files::{
    require_migration_api_version, validate_plan_approval_filename, RemoteApprovalFiles,
};
use tenkai::package_migration::checkpoint::{
    deployed_pin, pin_start, pin_step, restore_release_id, revalidate_pins, settle_application,
    PinStart, ReleaseDescriptor,
};
use tenkai::package_migration::compensate::{
    must_restore_source, require_plan_succeeded, require_rollback_approval,
    require_rollback_target,
};
use tenkai::package_migration::execute::{
    approve, check_step, next_work, settle_step, start_step, CheckpointOutcome, StepStart, Work,
};
use tenkai::package_migration::leases::{
    authorize_plan_on_lock, claim_environment_lock, clear_authorized_plan, lock_object,
    may_release_lock,
};
use tenkai::package_migration::persist::{persist_new, record_object};
use tenkai::package_migration::preview::{
    format_migration, require_same_run, run_goes_on, run_start, RunStart,
};
use tenkai::package_migration::rollback::{
    check_loaded, check_rollback, finish_rollback, plan_undo, start_rollback, RollbackStart, Undo,
};
use tenkai::package_migration::types::{
    catalog_id, exec_lease_name, record_catalog_id, ApprovalTrustRoots, ApprovalTrustedSigner,
    CheckpointClass, CheckpointDecl, CompatibilityEvidence, CompatibilityStatus,
    MigrationApprovalEnvelope, MigrationApprovalStatement, MigrationAuthorization,
    MigrationDeclaration, MigrationRecord, MigrationStatus, PackageMigrationResult, PackagePin,
    APPROVAL_PURPOSE, APPROVAL_SCHEMA, MIGRATION_API_VERSION, MIGRATION_PROFILE,
};
use tenkai::plan::{Action, PlanState};
use tenkai::plan_approval::{ApprovalEnvelope, ApprovalStatement};
use tenkai::signature_verification::key_id;
use tenkai::text_map::TextMap;

fn digest(nibble: char) -> String {
    format!("sha256:{}", nibble.to_string().repeat(64))
}

fn declaration(irreversible: bool) -> MigrationDeclaration {
    let mut checkpoints = vec![
        CheckpointDecl {
            id: "preflight".into(),
            class: CheckpointClass::Reversible,
            pre_admission: None,
        },
        CheckpointDecl {
            id: "switch".into(),
            class: CheckpointClass::Compensating,
            pre_admission: None,
        },
    ];
    if irreversible {
        checkpoints.push(CheckpointDecl {
            id: "drop-old".into(),
            class: CheckpointClass::Irreversible,
            pre_admission: Some("require_backup_receipt".into()),
        });
    }
    MigrationDeclaration {
        version: 1,
        profile: MIGRATION_PROFILE.into(),
        source: PackagePin {
            product: "pkg".into(),
            version: "1.0.0".into(),
            digest: digest('1'),
        },
        target: PackagePin {
            product: "pkg".into(),
            version: "1.1.0".into(),
            digest: digest('2'),
        },
        compatibility: CompatibilityEvidence {
            version: 1,
            status: CompatibilityStatus::Compatible,
            evidence_digest: digest('e'),
        },
        checkpoints,
    }
}

fn published() -> (String, String) {
    ("1".repeat(64), "2".repeat(64))
}

fn create(
    name: &str,
    environment: &str,
    declaration: MigrationDeclaration,
    backup: Option<&str>,
    partition: Option<&str>,
) -> Result<MigrationRecord, String> {
    check_request(name, environment, partition, &declaration).map_err(|error| error.to_string())?;
    let (source, target) = published();
    let canonical = format!("{declaration:?}").into_bytes();
    new_record(
        name,
        environment,
        declaration,
        backup,
        partition,
        &CatalogFacts { source: Some(&source), target: Some(&target), recalled: false },
        &canonical,
    )
    .map_err(|error| error.to_string())
}

fn admitted(name: &str, irreversible: bool) -> MigrationRecord {
    let backup = digest('b');
    let backup = if irreversible { Some(backup.as_str()) } else { None };
    create(name, "local", declaration(irreversible), backup, None).unwrap()
}

const DRILL: MigrationAuthorization<'static> =
    MigrationAuthorization::LocalDevelopment { reason: "package migration drill" };

fn approved(name: &str, irreversible: bool) -> MigrationRecord {
    approve(admitted(name, irreversible), &DRILL, 5).unwrap()
}

fn step(record: MigrationRecord, resume: bool, plan_id: Option<&str>) -> MigrationRecord {
    check_step(&record, &DRILL, None, 5).unwrap();
    let started = match start_step(record, resume).unwrap() {
        StepStart::Finished(record) => return record,
        StepStart::Started(record) => record,
    };
    match next_work(started) {
        Work::Perform(record, checkpoint) => {
            let settled = settle_step(
                record,
                &checkpoint,
                CheckpointOutcome::Accepted { plan_id: plan_id.map(String::from) },
            );
            assert!(settled.error.is_none());
            settled.record
        }
        Work::Finish(record) | Work::Recorded(record) => record,
        Work::Refuse(_, error) => panic!("{}", error.to_string()),
    }
}

#[test]
fn partitions_have_separate_identities_for_the_same_migration_name() {
    let scoped = |partition: &str| {
        create("cutover", "prod", declaration(false), None, Some(partition)).unwrap()
    };
    let (a, b) = (scoped("tenant-a"), scoped("tenant-b"));
    assert_eq!(a.partition.as_deref(), Some("tenant-a"));
    assert_eq!(b.partition.as_deref(), Some("tenant-b"));
    assert_ne!(record_catalog_id(&a), record_catalog_id(&b));
    assert_ne!(record_catalog_id(&a), catalog_id(None, "cutover"));
    assert_ne!(exec_lease_name(Some("tenant-a"), "x"), exec_lease_name(None, "x"));
    assert!(check_loaded(&a, "cutover", Some("tenant-b")).is_err());
    check_loaded(&a, "cutover", Some("tenant-a")).unwrap();
}

fn trust_roots(id: &str, public: &str) -> ApprovalTrustRoots {
    ApprovalTrustRoots {
        version: 1,
        signers: vec![ApprovalTrustedSigner {
            key_id: id.into(),
            identity: "approver".into(),
            public_key: public.into(),
        }],
    }
}

fn plan_approval() -> ApprovalEnvelope {
    ApprovalEnvelope {
        schema: tenkai::plan_approval::APPROVAL_SCHEMA.into(),
        key_id: "k".into(),
        statement: ApprovalStatement {
            plan_digest: digest('p'),
            environment: "stage".into(),
            purpose: "execute_plan".into(),
            skip_gates: false,
            issued_at: 1,
            expires_at: 2,
            policy_provider: "none".into(),
            policy_evidence_id: "none".into(),
            policy_digest: digest('q'),
        },
        signature: "c2ln".into(),
    }
}

#[test]
fn remote_api_version_and_unknown_fields_fail_closed() {
    require_migration_api_version(MIGRATION_API_VERSION).unwrap();
    let err = require_migration_api_version(99).unwrap_err().to_string();
    assert!(
        err.contains("unsupported package migration API version 99"),
        "{err}"
    );
    let mut approvals = TextMap::new();
    approvals.insert("../escape".to_string(), plan_approval());
    let err = RemoteApprovalFiles::materialize("/tmp/files", &trust_roots("k", "cA=="), &approvals)
        .unwrap_err()
        .to_string();
    assert!(err.contains("safe file name"), "{err}");
    validate_plan_approval_filename("tenkai:plan:stage:1:sha256:abc").unwrap();
}

#[test]
fn approval_files_lie_in_their_directory() {
    let files =
        RemoteApprovalFiles::materialize("/tmp/files", &trust_roots("k", "cA=="), &TextMap::new())
            .unwrap();
    assert!(files.approval.starts_with("/tmp/files/"));
    assert!(files.trust_roots.starts_with("/tmp/files/"));
    assert!(files.plan_file("tenkai:plan:stage:1:sha256:abc").starts_with("/tmp/files/"));
}

#[test]
fn compatible_migration_approves_executes_resumes_and_rolls_back_in_memory() {
    let record = approved("cutover", false);
    let first = step(record, false, None);
    assert_eq!(first.receipts.len(), 1);
    assert_eq!(first.status, MigrationStatus::Running);
    assert!(run_goes_on(&first, 0));
    let resumed = step(first, true, Some("plan-1"));
    assert_eq!(resumed.receipts.len(), 2);
    assert_eq!(resumed.status, MigrationStatus::Succeeded);
    assert_eq!(resumed.receipts[1].effect, "apply_target");
    assert_eq!(resumed.receipts[1].plan_id.as_deref(), Some("plan-1"));
    let generation = resumed.fence_generation;
    assert_eq!(run_start(&resumed), RunStart::Ended);
    assert!(format_migration(&resumed).contains("cutover"));
    check_rollback(&resumed, &DRILL, Some(generation), 5).unwrap();
    let undo = match start_rollback(resumed) {
        RollbackStart::Undo(record) => plan_undo(record),
        RollbackStart::Done(_) => panic!("nothing was rolled back"),
    };
    let record = match undo {
        Undo::Compensate(record) => record,
        Undo::Refuse(_, error) => panic!("{}", error.to_string()),
    };
    assert!(must_restore_source(&record, None));
    require_rollback_target(&record, None, Some("1.1.0")).unwrap();
    assert!(require_rollback_target(&record, None, Some("2.0.0")).is_err());
    let rolled = finish_rollback(record);
    assert_eq!(rolled.status, MigrationStatus::RolledBack);
    assert!(rolled
        .receipts
        .iter()
        .all(|receipt| receipt.result == "rolled_back"));
    assert_eq!(PackageMigrationResult::from_record(rolled).version, 1);
}

#[test]
fn requests_are_refused_with_their_reason() {
    let refused = |change: fn(&mut MigrationDeclaration)| {
        let mut declaration = declaration(false);
        change(&mut declaration);
        create("cutover", "local", declaration, None, None).unwrap_err()
    };
    assert!(refused(|d| d.compatibility.status = CompatibilityStatus::Incompatible)
        .contains("not compatible"));
    assert!(refused(|d| d.target.product = "other".into()).contains("same product"));
    assert!(!refused(|d| d.version = 2).is_empty());
    assert!(!refused(|d| d.profile = "x".into()).is_empty());
    assert!(!refused(|d| d.checkpoints = Vec::new()).is_empty());
    assert_eq!(
        refused(|d| {
            d.target.version = "1.0.0".into();
            d.target.digest = d.source.digest.clone();
        }),
        "package migration source and target must differ"
    );
    assert!(create("drop", "local", declaration(true), None, None)
        .unwrap_err()
        .contains("backup receipt"));
    assert!(create("a/b", "local", declaration(false), None, None).is_err());
    let (source, target) = published();
    let recalled = new_record(
        "cutover",
        "local",
        declaration(false),
        None,
        None,
        &CatalogFacts { source: Some(&source), target: Some(&target), recalled: true },
        b"canonical",
    );
    assert!(recalled.unwrap_err().to_string().contains("recalled"));
    let record = admitted("cutover", false);
    assert!(check_step(&record, &DRILL, None, 5)
        .unwrap_err()
        .to_string()
        .contains("not approved"));
}

#[test]
fn stale_generations_are_fenced_off() {
    let record = approved("cutover", false);
    assert!(check_step(&record, &DRILL, Some(99), 5)
        .unwrap_err()
        .to_string()
        .contains("stale fencing"));
    let other = MigrationAuthorization::LocalDevelopment { reason: "another reason" };
    assert!(require_approval(&record, &other, 5)
        .unwrap_err()
        .to_string()
        .contains("does not match the stored digest"));
    let running = step(record, false, None);
    assert!(approve(running, &DRILL, 5).unwrap_err().to_string().contains("not admitted"));
}

#[test]
fn irreversible_checkpoints_forbid_rollback() {
    let record = step(
        step(step(approved("drop", true), false, None), true, Some("p")),
        true,
        None,
    );
    assert_eq!(record.status, MigrationStatus::Succeeded);
    let undo = match start_rollback(record) {
        RollbackStart::Undo(record) => plan_undo(record),
        RollbackStart::Done(_) => panic!("nothing was rolled back"),
    };
    match undo {
        Undo::Refuse(record, error) => {
            assert!(error.to_string().contains("irreversible"));
            assert_eq!(record.status, MigrationStatus::RecoveryRequired);
            assert_eq!(record.backup_receipt_digest, Some(digest('b')));
        }
        Undo::Compensate(_) => panic!("an irreversible checkpoint was undone"),
    }
}

#[test]
fn a_failed_checkpoint_fails_the_migration() {
    let started = match start_step(approved("cutover", false), false).unwrap() {
        StepStart::Started(record) => record,
        StepStart::Finished(_) => panic!("nothing was done"),
    };
    let (record, checkpoint) = match next_work(started) {
        Work::Perform(record, checkpoint) => (record, checkpoint),
        _ => panic!("no checkpoint"),
    };
    let settled = settle_step(
        record,
        &checkpoint,
        CheckpointOutcome::Failed {
            error: tenkai::error::Error::fixed("boom"),
            pending: None,
        },
    );
    assert_eq!(settled.record.status, MigrationStatus::Failed);
    assert!(settled.error.unwrap().to_string().contains("boom"));
}

fn signed(record: &MigrationRecord, identity: &str) -> (MigrationApprovalEnvelope, ApprovalTrustRoots) {
    let key = SigningKey::from_bytes(&[9; 32]);
    let public = key.public_key();
    let id = key_id(&public);
    let statement = MigrationApprovalStatement {
        identity_digest: identity.into(),
        environment: record.environment.clone(),
        purpose: APPROVAL_PURPOSE.into(),
        issued_at: 1,
        expires_at: i64::MAX / 4,
    };
    let signature = STANDARD.encode(key.sign(&canonical_approval_bytes(&statement).unwrap()));
    (
        MigrationApprovalEnvelope {
            schema: APPROVAL_SCHEMA.into(),
            key_id: id.clone(),
            statement,
            signature,
        },
        trust_roots(&id, &STANDARD.encode(&public)),
    )
}

#[test]
fn signed_approvals_are_bound_to_one_identity() {
    let record = admitted("signed", false);
    let (bad, roots) = signed(&record, &digest('a'));
    let bad = MigrationAuthorization::Signed { approval: &bad, trust_roots: &roots };
    let err = approve(admitted("signed", false), &bad, 5).unwrap_err().to_string();
    assert!(err.contains("different identity"), "{err}");
    let (good, roots) = signed(&record, &record.identity_digest);
    verify_approval_envelope(&record.identity_digest, "local", &good, &roots, 5).unwrap();
    assert!(verify_approval_envelope(&record.identity_digest, "local", &good, &roots, 0).is_err());
    let good = MigrationAuthorization::Signed { approval: &good, trust_roots: &roots };
    approve(admitted("signed", false), &good, 5).unwrap();
    let remote = create("remote", "stage", declaration(false), None, None).unwrap();
    let err = approve(remote, &DRILL, 5).unwrap_err().to_string();
    assert!(err.contains("built-in local"), "{err}");
}

#[test]
fn an_environment_is_locked_by_one_migration() {
    let record = approved("cutover", false);
    let mut lock = lock_object(&record, 7);
    claim_environment_lock(&record, None).unwrap();
    claim_environment_lock(&record, Some(&lock)).unwrap();
    let other = approved("other", false);
    assert!(claim_environment_lock(&other, Some(&lock))
        .unwrap_err()
        .to_string()
        .contains("already has package migration"));
    assert!(may_release_lock(&record, &lock));
    assert!(!may_release_lock(&other, &lock));
    authorize_plan_on_lock(&mut lock, "plan-1", 8);
    assert_eq!(lock.updated, 8);
    clear_authorized_plan(&mut lock, 9);
    assert_eq!(lock.updated, 9);
}

#[test]
fn records_are_stored_once_per_identity() {
    let record = admitted("cutover", false);
    persist_new(&record, None).unwrap();
    persist_new(&record, Some(&admitted("cutover", false))).unwrap();
    let mut shorter = declaration(false);
    shorter.checkpoints.pop();
    let changed = create("cutover", "local", shorter, None, None).unwrap();
    assert!(persist_new(&changed, Some(&record))
        .unwrap_err()
        .to_string()
        .contains("different identity"));
    require_same_run(&record, "cutover", "local", &record.identity_digest).unwrap();
    assert!(require_same_run(&record, "cutover", "local", &digest('f')).is_err());
    assert_eq!(record_object(&record, "{}", 3).id, record_catalog_id(&record));
}

#[test]
fn pins_are_held_to_the_catalog() {
    assert_eq!(catalog_digest(&"1".repeat(64)), Ok(digest('1')));
    assert_eq!(catalog_digest(&digest('1')), Ok(digest('1')));
    let pin = declaration(false).source;
    require_package_pin(&pin, Some(&digest('1'))).unwrap();
    assert!(require_package_pin(&pin, Some(&digest('2'))).is_err());
    assert!(require_package_pin(&pin, None)
        .unwrap_err()
        .to_string()
        .contains("is not published"));
    let record = approved("cutover", false);
    let (source, target) = published();
    let check = |deployed: Option<&str>| {
        revalidate_pins(&record, Some(&source), Some(&target), deployed, false)
    };
    check(Some("1.0.0")).unwrap();
    check(Some("1.1.0")).unwrap();
    assert!(check(None).is_err());
    let descriptor = |version: &str, nibble: char| ReleaseDescriptor {
        release_id: format!("tenkai:release:pkg@{version}"),
        manifest_digest: nibble.to_string().repeat(64),
        artifact_digest: "artifact".into(),
        content_path: "/srv/pkg".into(),
    };
    let target = declaration(false).target;
    let step = pin_step(&target, &descriptor("1.1.0", '2'), Some("1.0.0"), &descriptor("1.0.0", '1'))
        .unwrap();
    assert_eq!(step.action, Action::Upgrade);
    assert_eq!(step.to, "1.1.0");
    assert!(pin_step(&target, &descriptor("1.1.0", '3'), None, &descriptor("1.0.0", '1')).is_err());
    assert_eq!(
        restore_release_id(&record, &target, Some("1.0.0")),
        "tenkai:release:pkg@1.0.0"
    );
    require_plan_succeeded("p", PlanState::Succeeded).unwrap();
    assert!(require_plan_succeeded("p", PlanState::Failed).is_err());
}

#[test]
fn what_is_deployed_is_read_from_the_environment() {
    let mut environment = lock_object(&approved("cutover", false), 7);
    environment.properties = TextMap::new();
    assert_eq!(deployed_pin(&environment, "pkg"), None);
    environment.properties.insert("deployed.pkg".into(), String::new());
    assert_eq!(deployed_pin(&environment, "pkg"), None);
    environment.properties.insert("deployed.pkg".into(), "1.0.0".into());
    assert_eq!(deployed_pin(&environment, "pkg"), Some("1.0.0".to_string()));
    assert_eq!(deployed_pin(&environment, "other"), None);
}

#[test]
fn signed_migrations_wait_for_the_approval_of_each_plan() {
    let record = admitted("signed", false);
    let (approval, roots) = signed(&record, &record.identity_digest);
    let authorization = MigrationAuthorization::Signed { approval: &approval, trust_roots: &roots };
    verify_authorization(&record, &authorization, 5).unwrap();
    assert!(verify_authorization(&record, &authorization, i64::MAX).is_err());
    assert_eq!(pin_start(&authorization, false), PinStart::AwaitApproval);
    assert_eq!(pin_start(&authorization, true), PinStart::Apply);
    assert_eq!(pin_start(&DRILL, false), PinStart::Apply);
    require_rollback_approval(&authorization, "p", "/a/p.json", true).unwrap();
    require_rollback_approval(&DRILL, "p", "/a/p.json", false).unwrap();
    assert_eq!(
        require_rollback_approval(&authorization, "p", "/a/p.json", false)
            .unwrap_err()
            .to_string(),
        "package migration rollback plan p is waiting for a signed plan approval at /a/p.json"
    );
}

#[test]
fn an_applied_plan_counts_where_it_succeeded() {
    assert_eq!(settle_application("p", Ok(PlanState::Succeeded)), Ok("p".to_string()));
    assert_eq!(
        settle_application("p", Ok(PlanState::Failed)).unwrap_err().to_string(),
        "package migration plan p ended in failed"
    );
    assert_eq!(
        settle_application("p", Err(tenkai::error::Error::fixed("boom")))
            .unwrap_err()
            .to_string(),
        "boom"
    );
}
