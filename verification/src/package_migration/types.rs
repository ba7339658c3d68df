//! Migration declarations, records and requests.
use crate::plan_approval::ApprovalEnvelope;
use crate::signature_verification::SignerModel;
use crate::text::{copy_opt, opt_text};
use crate::text_map::TextMap;
use vstd::prelude::*;

verus! {

pub const MIGRATION_PROFILE: &'static str = "tenkai.package_migration.v1";

pub const MIGRATION_DOCUMENT_VERSION: u32 = 1;

pub const COMPATIBILITY_VERSION: u32 = 1;

pub const MIGRATION_API_VERSION: u32 = 1;

pub const APPROVAL_SCHEMA: &'static str = "tenkai.package-migration-approval.v1";

pub const APPROVAL_DOMAIN: &'static str = "TENKAI-PACKAGE-MIGRATION-APPROVAL-V1";

pub const APPROVAL_PURPOSE: &'static str = "execute_package_migration";

pub const TRUST_ROOT_VERSION: u32 = 1;

pub const MIGRATION_EXEC_NAMESPACE: &'static str = "tenkai.package-migration";

pub const MIGRATION_EXEC_TTL_MS: i64 = 7_200_000;

/// How a checkpoint can be undone.
#[derive(Debug, Clone, Copy, PartialEq, Eq, Structural)]
pub enum CheckpointClass {
    Reversible,
    Compensating,
    Irreversible,
}

impl CheckpointClass {
    /// The word for the class.
    pub open spec fn word(self) -> Seq<char> {
        match self {
            CheckpointClass::Reversible => "reversible"@,
            CheckpointClass::Compensating => "compensating"@,
            CheckpointClass::Irreversible => "irreversible"@,
        }
    }

    /// The word for the class.
    pub fn as_str(self) -> (word: &'static str)
        ensures
            word@ == self.word(),
    {
        match self {
            CheckpointClass::Reversible => "reversible",
            CheckpointClass::Compensating => "compensating",
            CheckpointClass::Irreversible => "irreversible",
        }
    }
}

/// The verdict of the compatibility authority.
#[derive(Debug, Clone, Copy, PartialEq, Eq, Structural)]
pub enum CompatibilityStatus {
    Compatible,
    Incompatible,
}

/// Where a migration is in its life.
#[derive(Debug, Clone, Copy, PartialEq, Eq, Structural)]
pub enum MigrationStatus {
    Admitted,
    Running,
    Succeeded,
    Failed,
    RolledBack,
    RecoveryRequired,
}

impl MigrationStatus {
    /// The word for the status.
    pub open spec fn word(self) -> Seq<char> {
        match self {
            MigrationStatus::Admitted => "admitted"@,
            MigrationStatus::Running => "running"@,
            MigrationStatus::Succeeded => "succeeded"@,
            MigrationStatus::Failed => "failed"@,
            MigrationStatus::RolledBack => "rolled_back"@,
            MigrationStatus::RecoveryRequired => "recovery_required"@,
        }
    }

    /// The word for the status.
    pub fn as_str(self) -> (word: &'static str)
        ensures
            word@ == self.word(),
    {
        match self {
            MigrationStatus::Admitted => "admitted",
            MigrationStatus::Running => "running",
            MigrationStatus::Succeeded => "succeeded",
            MigrationStatus::Failed => "failed",
            MigrationStatus::RolledBack => "rolled_back",
            MigrationStatus::RecoveryRequired => "recovery_required",
        }
    }

    /// The statuses that end a run.
    pub open spec fn ends_run(self) -> bool {
        self == MigrationStatus::Succeeded || self == MigrationStatus::Failed || self
            == MigrationStatus::RolledBack || self == MigrationStatus::RecoveryRequired
    }
}

/// A release by product, version and content digest.
#[derive(Debug, PartialEq, Eq)]
pub struct PackagePin {
    pub product: String,
    pub version: String,
    pub digest: String,
}

/// A declared checkpoint.
#[derive(Debug, PartialEq, Eq)]
pub struct CheckpointDecl {
    pub id: String,
    pub class: CheckpointClass,
    pub pre_admission: Option<String>,
}

/// The verdict that a migration rests on.
#[derive(Debug, PartialEq, Eq)]
pub struct CompatibilityEvidence {
    pub version: u32,
    pub status: CompatibilityStatus,
    pub evidence_digest: String,
}

/// The immutable content of a migration.
#[derive(Debug, PartialEq, Eq)]
pub struct MigrationDeclaration {
    pub version: u32,
    pub profile: String,
    pub source: PackagePin,
    pub target: PackagePin,
    pub compatibility: CompatibilityEvidence,
    pub checkpoints: Vec<CheckpointDecl>,
}

/// The record of one performed checkpoint.
#[derive(Debug, PartialEq, Eq)]
pub struct CheckpointReceipt {
    pub checkpoint_id: String,
    pub class: CheckpointClass,
    pub effect: String,
    pub result: String,
    pub fence_generation: u64,
    pub plan_id: Option<String>,
}

/// A stored migration.
#[derive(Debug, PartialEq, Eq)]
pub struct MigrationRecord {
    pub name: String,
    pub environment: String,
    pub partition: Option<String>,
    pub identity_digest: String,
    pub declaration: MigrationDeclaration,
    pub approval_digest: String,
    pub fence_generation: u64,
    pub status: MigrationStatus,
    pub receipts: Vec<CheckpointReceipt>,
    pub backup_receipt_digest: Option<String>,
    pub pending_plan_id: Option<String>,
    pub pending_rollback_plan_id: Option<String>,
}

/// Who allows a migration to run.
pub enum MigrationAuthorization<'a> {
    LocalDevelopment { reason: &'a str },
    Signed { approval: &'a MigrationApprovalEnvelope, trust_roots: &'a ApprovalTrustRoots },
}

/// What a signed approval states.
#[derive(Debug, PartialEq, Eq)]
pub struct MigrationApprovalStatement {
    pub identity_digest: String,
    pub environment: String,
    pub purpose: String,
    pub issued_at: i64,
    pub expires_at: i64,
}

/// A signed approval.
#[derive(Debug, PartialEq, Eq)]
pub struct MigrationApprovalEnvelope {
    pub schema: String,
    pub key_id: String,
    pub statement: MigrationApprovalStatement,
    pub signature: String,
}

/// The signers whose approvals count.
#[derive(Debug, PartialEq, Eq)]
pub struct ApprovalTrustRoots {
    pub version: u32,
    pub signers: Vec<ApprovalTrustedSigner>,
}

/// A signer whose approvals count.
#[derive(Debug, PartialEq, Eq)]
pub struct ApprovalTrustedSigner {
    pub key_id: String,
    pub identity: String,
    pub public_key: String,
}

/// A request to preview a migration.
#[derive(Debug, PartialEq, Eq)]
pub struct PackageMigrationPreviewRequest {
    pub version: u32,
    pub environment: String,
    pub declaration: MigrationDeclaration,
    pub backup_receipt_digest: Option<String>,
}

/// A request to run a migration.
#[derive(Debug, PartialEq, Eq)]
pub struct PackageMigrationApplyRequest {
    pub version: u32,
    pub environment: String,
    pub declaration: MigrationDeclaration,
    pub expected_generation: u64,
    pub approval: MigrationApprovalEnvelope,
    pub trust_roots: ApprovalTrustRoots,
    pub backup_receipt_digest: Option<String>,
    pub plan_approvals: TextMap<ApprovalEnvelope>,
}

/// A request to resume or roll back a migration.
#[derive(Debug, PartialEq, Eq)]
pub struct PackageMigrationMutateRequest {
    pub version: u32,
    pub expected_generation: u64,
    pub approval: MigrationApprovalEnvelope,
    pub trust_roots: ApprovalTrustRoots,
    pub plan_approvals: TextMap<ApprovalEnvelope>,
}

/// The reply to a migration request.
#[derive(Debug, PartialEq, Eq)]
pub struct PackageMigrationResult {
    pub version: u32,
    pub record: MigrationRecord,
}

impl PackageMigrationResult {
    /// The reply that carries a record.
    pub fn from_record(record: MigrationRecord) -> (result: Self)
        ensures
            result.version == MIGRATION_API_VERSION,
            result.record == record,
    {
        PackageMigrationResult { version: MIGRATION_API_VERSION, record }
    }
}

/// What a package pin says.
pub struct PinModel {
    pub product: Seq<char>,
    pub version: Seq<char>,
    pub digest: Seq<char>,
}

impl View for PackagePin {
    type V = PinModel;

    open spec fn view(&self) -> PinModel {
        PinModel { product: self.product@, version: self.version@, digest: self.digest@ }
    }
}

/// What a declared checkpoint says.
pub struct CheckpointModel {
    pub id: Seq<char>,
    pub class: CheckpointClass,
    pub pre_admission: Option<Seq<char>>,
}

impl View for CheckpointDecl {
    type V = CheckpointModel;

    open spec fn view(&self) -> CheckpointModel {
        CheckpointModel {
            id: self.id@,
            class: self.class,
            pre_admission: opt_text(self.pre_admission),
        }
    }
}

/// What declared checkpoints say, in order.
pub open spec fn checkpoint_models(list: Seq<CheckpointDecl>) -> Seq<CheckpointModel> {
    list.map_values(|item: CheckpointDecl| item@)
}

/// What compatibility evidence says.
pub struct EvidenceModel {
    pub version: u32,
    pub status: CompatibilityStatus,
    pub evidence_digest: Seq<char>,
}

impl View for CompatibilityEvidence {
    type V = EvidenceModel;

    open spec fn view(&self) -> EvidenceModel {
        EvidenceModel {
            version: self.version,
            status: self.status,
            evidence_digest: self.evidence_digest@,
        }
    }
}

/// What a declaration says.
pub struct DeclarationModel {
    pub version: u32,
    pub profile: Seq<char>,
    pub source: PinModel,
    pub target: PinModel,
    pub compatibility: EvidenceModel,
    pub checkpoints: Seq<CheckpointModel>,
}

impl View for MigrationDeclaration {
    type V = DeclarationModel;

    open spec fn view(&self) -> DeclarationModel {
        DeclarationModel {
            version: self.version,
            profile: self.profile@,
            source: self.source@,
            target: self.target@,
            compatibility: self.compatibility@,
            checkpoints: checkpoint_models(self.checkpoints@),
        }
    }
}

/// What a receipt says.
pub struct ReceiptModel {
    pub checkpoint_id: Seq<char>,
    pub class: CheckpointClass,
    pub effect: Seq<char>,
    pub result: Seq<char>,
    pub fence_generation: u64,
    pub plan_id: Option<Seq<char>>,
}

impl View for CheckpointReceipt {
    type V = ReceiptModel;

    open spec fn view(&self) -> ReceiptModel {
        ReceiptModel {
            checkpoint_id: self.checkpoint_id@,
            class: self.class,
            effect: self.effect@,
            result: self.result@,
            fence_generation: self.fence_generation,
            plan_id: opt_text(self.plan_id),
        }
    }
}

/// What receipts say, in order.
pub open spec fn receipt_models(list: Seq<CheckpointReceipt>) -> Seq<ReceiptModel> {
    list.map_values(|item: CheckpointReceipt| item@)
}

/// What a record says.
pub struct RecordModel {
    pub name: Seq<char>,
    pub environment: Seq<char>,
    pub partition: Option<Seq<char>>,
    pub identity_digest: Seq<char>,
    pub declaration: DeclarationModel,
    pub approval_digest: Seq<char>,
    pub fence_generation: u64,
    pub status: MigrationStatus,
    pub receipts: Seq<ReceiptModel>,
    pub backup_receipt_digest: Option<Seq<char>>,
    pub pending_plan_id: Option<Seq<char>>,
    pub pending_rollback_plan_id: Option<Seq<char>>,
}

impl View for MigrationRecord {
    type V = RecordModel;

    open spec fn view(&self) -> RecordModel {
        RecordModel {
            name: self.name@,
            environment: self.environment@,
            partition: opt_text(self.partition),
            identity_digest: self.identity_digest@,
            declaration: self.declaration@,
            approval_digest: self.approval_digest@,
            fence_generation: self.fence_generation,
            status: self.status,
            receipts: receipt_models(self.receipts@),
            backup_receipt_digest: opt_text(self.backup_receipt_digest),
            pending_plan_id: opt_text(self.pending_plan_id),
            pending_rollback_plan_id: opt_text(self.pending_rollback_plan_id),
        }
    }
}

impl View for ApprovalTrustedSigner {
    type V = SignerModel;

    open spec fn view(&self) -> SignerModel {
        SignerModel {
            key_id: self.key_id@,
            identity: self.identity@,
            public_key: self.public_key@,
        }
    }
}

/// What trusted signers say, in order.
pub open spec fn signer_models(list: Seq<ApprovalTrustedSigner>) -> Seq<SignerModel> {
    list.map_values(|item: ApprovalTrustedSigner| item@)
}

/// A copy of a package pin.
pub fn copy_pin(pin: &PackagePin) -> (copy: PackagePin)
    ensures
        copy@ == pin@,
{
    PackagePin {
        product: pin.product.clone(),
        version: pin.version.clone(),
        digest: pin.digest.clone(),
    }
}

/// A copy of a declared checkpoint.
pub fn copy_checkpoint(checkpoint: &CheckpointDecl) -> (copy: CheckpointDecl)
    ensures
        copy@ == checkpoint@,
{
    CheckpointDecl {
        id: checkpoint.id.clone(),
        class: checkpoint.class,
        pre_admission: copy_opt(&checkpoint.pre_admission),
    }
}

/// The text that names a migration in its partition.
pub open spec fn scoped_name(partition: Option<Seq<char>>, name: Seq<char>) -> Seq<char> {
    match partition {
        Some(value) => if value.len() > 0 {
            value + ":"@ + name
        } else {
            name
        },
        None => name,
    }
}

/// The id text of a stored migration.
pub open spec fn catalog_id_text(partition: Option<Seq<char>>, name: Seq<char>) -> Seq<char> {
    "tenkai:package-migration:"@ + scoped_name(partition, name)
}

/// The id text of the migration lock of an environment.
pub open spec fn lock_id_text(partition: Option<Seq<char>>, environment: Seq<char>) -> Seq<char> {
    "tenkai:package-migration-lock:"@ + scoped_name(partition, environment)
}

fn scoped(partition: Option<&str>, name: &str) -> (text: String)
    ensures
        text@ == scoped_name(crate::text::opt_str(partition), name@),
{
    match partition {
        Some(value) => {
            if value.is_empty() {
                name.to_owned()
            } else {
                let mut text = value.to_owned();
                text.append(":");
                text.append(name);
                text
            }
        },
        None => name.to_owned(),
    }
}

fn borrowed(item: &Option<String>) -> (text: Option<&str>)
    ensures
        crate::text::opt_str(text) == opt_text(*item),
{
    match item {
        Some(value) => Some(value.as_str()),
        None => None,
    }
}

/// The id of a stored migration.
pub fn catalog_id(partition: Option<&str>, name: &str) -> (id: String)
    ensures
        id@ == catalog_id_text(crate::text::opt_str(partition), name@),
{
    let mut id = "tenkai:package-migration:".to_owned();
    id.append(scoped(partition, name).as_str());
    id
}

/// The id that a record is stored under.
pub fn record_catalog_id(record: &MigrationRecord) -> (id: String)
    ensures
        id@ == catalog_id_text(record@.partition, record@.name),
{
    catalog_id(borrowed(&record.partition), record.name.as_str())
}

/// The id of the lock that a record's migration takes.
pub fn record_lock_id(record: &MigrationRecord) -> (id: String)
    ensures
        id@ == lock_id_text(record@.partition, record@.environment),
{
    let mut id = "tenkai:package-migration-lock:".to_owned();
    id.append(scoped(borrowed(&record.partition), record.environment.as_str()).as_str());
    id
}

/// The name of the execution lease of a migration.
pub fn exec_lease_name(partition: Option<&str>, name: &str) -> (lease: String)
    ensures
        lease@ == scoped_name(crate::text::opt_str(partition), name@),
{
    scoped(partition, name)
}

/// Partitions keep records apart: migrations with identifiers for names and
/// partitions share a stored id only where both are the same.
pub proof fn partitions_are_separate(
    partition: Option<Seq<char>>,
    name: Seq<char>,
    other_partition: Option<Seq<char>>,
    other_name: Seq<char>,
)
    requires
        crate::ontology::identifier(name),
        crate::ontology::identifier(other_name),
        partition matches Some(value) ==> crate::ontology::identifier(value),
        other_partition matches Some(value) ==> crate::ontology::identifier(value),
        catalog_id_text(partition, name) == catalog_id_text(other_partition, other_name),
    ensures
        partition == other_partition,
        name == other_name,
{
    reveal_strlit(":");
    assert(":"@ =~= seq![':']);
    let head = "tenkai:package-migration:"@;
    let left = scoped_name(partition, name);
    let right = scoped_name(other_partition, other_name);
    assert(left =~= right) by {
        let whole = head + left;
        let other = head + right;
        assert(whole.len() == other.len());
        assert forall|i: int| 0 <= i < left.len() implies left[i] == right[i] by {
            assert(whole[head.len() + i] == left[i]);
            assert(other[head.len() + i] == right[i]);
        }
    }
    match (partition, other_partition) {
        (Some(p), Some(q)) => {
            let e = Seq::<char>::empty();
            assert(e + p + ":"@ + name =~= left);
            assert(e + q + ":"@ + other_name =~= right);
            crate::ontology::lemma_delimited(e, p, q, name, other_name, ':', ":"@);
        },
        (Some(p), None) => {
            assert(left[p.len() as int] == ':');
            assert(crate::ontology::identifier_char(right[p.len() as int]));
        },
        (None, Some(q)) => {
            assert(right[q.len() as int] == ':');
            assert(crate::ontology::identifier_char(left[q.len() as int]));
        },
        (None, None) => {},
    }
}

/// The words of the classes and of the statuses tell them apart.
pub proof fn words_tell_apart(
    class: CheckpointClass,
    other_class: CheckpointClass,
    status: MigrationStatus,
    other_status: MigrationStatus,
    class_word: &'static str,
    other_class_word: &'static str,
    word: &'static str,
    other_word: &'static str,
)
    requires
        call_ensures(CheckpointClass::as_str, (class,), class_word),
        call_ensures(CheckpointClass::as_str, (other_class,), other_class_word),
        call_ensures(MigrationStatus::as_str, (status,), word),
        call_ensures(MigrationStatus::as_str, (other_status,), other_word),
    ensures
        class_word@ == other_class_word@ ==> class == other_class,
        word@ == other_word@ ==> status == other_status,
        class is Reversible ==> class_word@ == "reversible"@,
        class is Compensating ==> class_word@ == "compensating"@,
        class is Irreversible ==> class_word@ == "irreversible"@,
        status is Admitted ==> word@ == "admitted"@,
        status is Running ==> word@ == "running"@,
        status is Succeeded ==> word@ == "succeeded"@,
        status is Failed ==> word@ == "failed"@,
        status is RolledBack ==> word@ == "rolled_back"@,
        status is RecoveryRequired ==> word@ == "recovery_required"@,
{
    reveal_strlit("reversible");
    reveal_strlit("compensating");
    reveal_strlit("irreversible");
    reveal_strlit("admitted");
    reveal_strlit("running");
    reveal_strlit("succeeded");
    reveal_strlit("failed");
    reveal_strlit("rolled_back");
    reveal_strlit("recovery_required");
    assert("reversible"@.len() == 10);
    assert("compensating"@[0] == 'c' && "irreversible"@[0] == 'i');
    assert("admitted"@.len() == 8 && "running"@.len() == 7);
    assert("succeeded"@.len() == 9 && "failed"@.len() == 6);
    assert("rolled_back"@.len() == 11 && "recovery_required"@.len() == 17);
    assert("compensating"@.len() == 12 && "irreversible"@.len() == 12);
}

/// A record is stored under its name in its partition, its lease has that name
/// too, and its lock is that of its environment. No partition and an empty one
/// are the same.
pub proof fn records_are_named_in_their_partition(
    record: &MigrationRecord,
    partition: Option<&str>,
    name: &str,
    id: String,
    lock: String,
    catalog: String,
    lease: String,
)
    requires
        crate::text::opt_str(partition) == opt_text(record.partition),
        name@ == record.name@,
        call_ensures(record_catalog_id, (record,), id),
        call_ensures(record_lock_id, (record,), lock),
        call_ensures(catalog_id, (partition, name), catalog),
        call_ensures(exec_lease_name, (partition, name), lease),
    ensures
        id@ == catalog@,
        catalog@ == "tenkai:package-migration:"@ + lease@,
        partition is None || partition->0@.len() == 0 ==> lease@ == name@ && lock@
            == "tenkai:package-migration-lock:"@ + record.environment@,
        partition is Some && partition->0@.len() > 0 ==> lease@ == partition->0@ + ":"@ + name@
            && lock@ == "tenkai:package-migration-lock:"@ + (partition->0@ + ":"@
            + record.environment@),
{
}

} // verus!
