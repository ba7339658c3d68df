//! Approve a migration and take it from checkpoint to checkpoint.
use super::admission::admitted_record;
use super::approval::{
    approval_binding, approval_digest, approval_refusal, authorization_refusal, require_approval,
};
use super::declaration::{checkpoint_effect, effect_word, valid_declaration};
use super::types::{
    copy_checkpoint, receipt_models, CheckpointClass, CheckpointDecl, CheckpointModel,
    CheckpointReceipt, MigrationAuthorization, MigrationRecord, MigrationStatus, ReceiptModel,
    RecordModel,
};
use crate::error::{first_refusal, refusal, refuse_unless, Error};
use crate::plan::PlanState;
use crate::text::{copy_opt, decimal, decimal_text, opt_text, same};
use vstd::prelude::*;

verus! {

/// Why a record cannot be approved.
pub open spec fn approve_refusal(
    record: RecordModel,
    authorization: super::approval::AuthorizationModel,
    now: i64,
) -> Option<Seq<char>> {
    first_refusal(
        refuse_unless(
            record.status == MigrationStatus::Admitted,
            "package migration "@ + record.name + " is "@ + record.status.word()
                + ", not admitted"@,
        ),
        authorization_refusal(record, authorization, now),
    )
}

/// Approve an admitted migration: its record takes on the digest that binds
/// the authorization.
pub fn approve(
    record: MigrationRecord,
    authorization: &MigrationAuthorization<'_>,
    now: i64,
) -> (result: Result<MigrationRecord, Error>)
    ensures
        refusal(result) == approve_refusal(record@, authorization@, now),
        result matches Ok(approved) ==> approved@ == (RecordModel {
            approval_digest: approval_binding(record@, authorization@),
            ..record@
        }),
{
    if record.status != MigrationStatus::Admitted {
        let mut message = "package migration ".to_owned();
        message.append(record.name.as_str());
        message.append(" is ");
        message.append(record.status.as_str());
        message.append(", not admitted");
        return Err(Error::new(message));
    }
    let digest = match approval_digest(&record, authorization, now) {
        Err(error) => return Err(error),
        Ok(value) => value,
    };
    let mut approved = record;
    approved.approval_digest = digest;
    Ok(approved)
}

/// Why a fencing generation that a caller expects is refused.
pub open spec fn fence_refusal(
    record: RecordModel,
    expected: Option<u64>,
    operation: Seq<char>,
) -> Option<Seq<char>> {
    match expected {
        None => None,
        Some(generation) => refuse_unless(
            generation == record.fence_generation,
            "stale fencing generation "@ + decimal(generation as nat) + operation + record.name
                + "; current is "@ + decimal(record.fence_generation as nat),
        ),
    }
}

/// Require the fencing generation that a caller expects, if any.
pub fn require_fence(record: &MigrationRecord, expected: Option<u64>, operation: &str) -> (result:
    Result<(), Error>)
    ensures
        refusal(result) == fence_refusal(record@, expected, operation@),
{
    match expected {
        None => Ok(()),
        Some(generation) => {
            if generation != record.fence_generation {
                let mut message = "stale fencing generation ".to_owned();
                message.append(decimal_text(generation).as_str());
                message.append(operation);
                message.append(record.name.as_str());
                message.append("; current is ");
                message.append(decimal_text(record.fence_generation).as_str());
                return Err(Error::new(message));
            }
            Ok(())
        },
    }
}

/// Check a step before its execution lease is taken.
pub fn check_step(
    record: &MigrationRecord,
    authorization: &MigrationAuthorization<'_>,
    expected_generation: Option<u64>,
    now: i64,
) -> (result: Result<(), Error>)
    ensures
        refusal(result) == first_refusal(
            approval_refusal(record@, authorization@, now),
            fence_refusal(record@, expected_generation, " for package migration "@),
        ),
{
    match require_approval(record, authorization, now) {
        Err(error) => Err(error),
        Ok(_) => require_fence(record, expected_generation, " for package migration "),
    }
}

/// How a step goes on once its execution lease is held.
#[derive(Debug, PartialEq, Eq)]
pub enum StepStart {
    /// The migration had succeeded: there is nothing to do.
    Finished(MigrationRecord),
    /// The migration runs.
    Started(MigrationRecord),
}

/// A migration may run on from here.
pub open spec fn can_continue(record: RecordModel, resume: bool) -> bool {
    record.status == MigrationStatus::Running && (resume || record.receipts.len() > 0)
}

/// Start or continue a migration. A start from `Admitted` opens a new fencing
/// generation; to resume one that succeeded changes nothing.
pub fn start_step(record: MigrationRecord, resume: bool) -> (result: Result<StepStart, Error>)
    requires
        record.status == MigrationStatus::Admitted && !resume ==> record.fence_generation
            < u64::MAX,
    ensures
        match result {
            Ok(StepStart::Started(started)) => if record.status == MigrationStatus::Admitted {
                !resume && started@ == (RecordModel {
                    fence_generation: (record.fence_generation + 1) as u64,
                    status: MigrationStatus::Running,
                    ..record@
                })
            } else {
                can_continue(record@, resume) && started@ == record@
            },
            Ok(StepStart::Finished(finished)) => resume && record.status
                == MigrationStatus::Succeeded && finished@ == record@,
            Err(error) => {
                &&& !(record.status == MigrationStatus::Admitted && !resume)
                &&& !can_continue(record@, resume)
                &&& !(record.status == MigrationStatus::Succeeded && resume)
                &&& error@ == "package migration "@ + record.name@ + " cannot execute from "@
                    + record.status.word()
            },
        },
{
    assert(record@.receipts.len() == record.receipts@.len());
    match record.status {
        MigrationStatus::Admitted => {
            if !resume {
                let mut started = record;
                started.fence_generation = started.fence_generation + 1;
                started.status = MigrationStatus::Running;
                return Ok(StepStart::Started(started));
            }
        },
        MigrationStatus::Running => {
            if resume || record.receipts.len() > 0 {
                return Ok(StepStart::Started(record));
            }
        },
        MigrationStatus::Succeeded => {
            if resume {
                return Ok(StepStart::Finished(record));
            }
        },
        _ => {},
    }
    let mut message = "package migration ".to_owned();
    message.append(record.name.as_str());
    message.append(" cannot execute from ");
    message.append(record.status.as_str());
    Err(Error::new(message))
}

/// What a started migration does next.
#[derive(Debug, PartialEq, Eq)]
pub enum Work {
    /// Every checkpoint has its receipt: store the record and release the
    /// environment lock.
    Finish(MigrationRecord),
    /// The next checkpoint is refused: store the record, release the
    /// environment lock and report the error.
    Refuse(MigrationRecord, Error),
    /// The next checkpoint has a receipt already: store the record.
    Recorded(MigrationRecord),
    /// Perform the checkpoint.
    Perform(MigrationRecord, CheckpointDecl),
}

/// A checkpoint has a receipt.
pub open spec fn receipted(receipts: Seq<ReceiptModel>, id: Seq<char>) -> bool {
    exists|i: int| 0 <= i < receipts.len() && (#[trigger] receipts[i]).checkpoint_id == id
}

/// An irreversible checkpoint without a backup receipt.
pub open spec fn unprotected(record: RecordModel, checkpoint: CheckpointModel) -> bool {
    checkpoint.class == CheckpointClass::Irreversible && record.backup_receipt_digest is None
}

/// The checkpoint behind the last receipt of a record.
pub open spec fn next_checkpoint(record: RecordModel) -> Option<CheckpointModel> {
    if record.receipts.len() < record.declaration.checkpoints.len() {
        Some(record.declaration.checkpoints[record.receipts.len() as int])
    } else {
        None
    }
}

/// Decide what a started migration does next.
pub fn next_work(record: MigrationRecord) -> (work: Work)
    ensures
        match work {
            Work::Finish(finished) => next_checkpoint(record@) is None && finished@ == (
            RecordModel { status: MigrationStatus::Succeeded, ..record@ }),
            Work::Refuse(refused, error) => {
                &&& next_checkpoint(record@) matches Some(checkpoint)
                &&& unprotected(record@, checkpoint)
                &&& refused@ == (RecordModel { status: MigrationStatus::Failed, ..record@ })
                &&& error@ == "irreversible checkpoint "@ + checkpoint.id
                    + " has no backup receipt; refusing the first effect"@
            },
            Work::Recorded(same) => {
                &&& next_checkpoint(record@) matches Some(checkpoint)
                &&& !unprotected(record@, checkpoint)
                &&& receipted(record@.receipts, checkpoint.id)
                &&& same@ == record@
            },
            Work::Perform(same, performed) => {
                &&& next_checkpoint(record@) matches Some(checkpoint)
                &&& !unprotected(record@, checkpoint)
                &&& !receipted(record@.receipts, checkpoint.id)
                &&& same@ == record@
                &&& performed@ == checkpoint
            },
        },
{
    assert(record@.receipts.len() == record.receipts@.len());
    assert(record@.declaration.checkpoints.len() == record.declaration.checkpoints@.len());
    let at = record.receipts.len();
    if at >= record.declaration.checkpoints.len() {
        let mut finished = record;
        finished.status = MigrationStatus::Succeeded;
        return Work::Finish(finished);
    }
    let checkpoint = copy_checkpoint(&record.declaration.checkpoints[at]);
    assert(checkpoint@ == record@.declaration.checkpoints[at as int]);
    if checkpoint.class == CheckpointClass::Irreversible && record.backup_receipt_digest.is_none() {
        let mut message = "irreversible checkpoint ".to_owned();
        message.append(checkpoint.id.as_str());
        message.append(" has no backup receipt; refusing the first effect");
        let mut refused = record;
        refused.status = MigrationStatus::Failed;
        return Work::Refuse(refused, Error::new(message));
    }
    let mut i: usize = 0;
    while i < record.receipts.len()
        invariant
            i <= record.receipts.len(),
            next_checkpoint(record@) == Some(checkpoint@),
            !unprotected(record@, checkpoint@),
            forall|k: int|
                0 <= k < i ==> (#[trigger] record@.receipts[k]).checkpoint_id != checkpoint@.id,
        decreases record.receipts.len() - i,
    {
        assert(record@.receipts[i as int] == record.receipts@[i as int]@);
        if same(&record.receipts[i].checkpoint_id, &checkpoint.id) {
            assert(receipted(record@.receipts, checkpoint@.id));
            return Work::Recorded(record);
        }
        i = i + 1;
    }
    assert(!receipted(record@.receipts, checkpoint@.id));
    Work::Perform(record, checkpoint)
}

/// What came of performing a checkpoint.
#[derive(Debug, PartialEq, Eq)]
pub enum CheckpointOutcome {
    /// Its effect was accepted, through a plan where it applies one.
    Accepted { plan_id: Option<String> },
    /// Its plan waits for a signed approval.
    AwaitingPlanApproval { waiting_plan: String },
    /// It failed. `pending` is the state of the pending plan of the record,
    /// where it has one that could be loaded.
    Failed { error: Error, pending: Option<PlanState> },
}

/// The receipt of an accepted checkpoint.
pub open spec fn accepted_receipt(
    record: RecordModel,
    checkpoint: CheckpointModel,
    plan_id: Option<Seq<char>>,
) -> ReceiptModel {
    ReceiptModel {
        checkpoint_id: checkpoint.id,
        class: checkpoint.class,
        effect: effect_word(checkpoint.class),
        result: "accepted"@,
        fence_generation: record.fence_generation,
        plan_id,
    }
}

/// A record with one more receipt. The migration has succeeded where that was
/// the last.
pub open spec fn with_receipt(
    record: RecordModel,
    checkpoint: CheckpointModel,
    plan_id: Option<Seq<char>>,
) -> RecordModel {
    RecordModel {
        pending_plan_id: None,
        receipts: record.receipts.push(accepted_receipt(record, checkpoint, plan_id)),
        status: if record.receipts.len() + 1 == record.declaration.checkpoints.len() {
            MigrationStatus::Succeeded
        } else {
            MigrationStatus::Running
        },
        ..record
    }
}

/// A record after a performed checkpoint, whether the environment lock is to
/// be released, and the error to report.
#[derive(Debug, PartialEq, Eq)]
pub struct Settled {
    pub record: MigrationRecord,
    pub release_lock: bool,
    pub error: Option<Error>,
}

fn push_receipt(record: MigrationRecord, checkpoint: &CheckpointDecl, plan_id: Option<String>) -> (updated:
    MigrationRecord)
    ensures
        updated@ == with_receipt(record@, checkpoint@, opt_text(plan_id)),
{
    let mut updated = record;
    updated.pending_plan_id = None;
    let ghost before = updated.receipts@;
    updated.receipts.push(
        CheckpointReceipt {
            checkpoint_id: checkpoint.id.clone(),
            class: checkpoint.class,
            effect: checkpoint_effect(checkpoint.class).to_owned(),
            result: "accepted".to_owned(),
            fence_generation: updated.fence_generation,
            plan_id,
        },
    );
    assert(receipt_models(updated.receipts@) =~= receipt_models(before).push(
        accepted_receipt(record@, checkpoint@, opt_text(plan_id)),
    ));
    assert(record@.declaration.checkpoints.len() == record.declaration.checkpoints@.len());
    if updated.receipts.len() == updated.declaration.checkpoints.len() {
        updated.status = MigrationStatus::Succeeded;
    } else {
        updated.status = MigrationStatus::Running;
    }
    updated
}

/// The pending plan of a failed checkpoint, where the record has one.
pub open spec fn known_pending(record: RecordModel, pending: Option<PlanState>) -> Option<
    PlanState,
> {
    if record.pending_plan_id is Some {
        pending
    } else {
        None
    }
}

/// The record after a performed checkpoint.
pub open spec fn settled_record(
    record: RecordModel,
    checkpoint: CheckpointModel,
    outcome: CheckpointOutcome,
) -> RecordModel {
    match outcome {
        CheckpointOutcome::Accepted { plan_id } => RecordModel {
            pending_rollback_plan_id: None,
            ..with_receipt(record, checkpoint, opt_text(plan_id))
        },
        CheckpointOutcome::AwaitingPlanApproval { waiting_plan } => RecordModel {
            pending_plan_id: Some(waiting_plan@),
            ..record
        },
        CheckpointOutcome::Failed { error, pending } => match known_pending(record, pending) {
            Some(PlanState::Succeeded) => with_receipt(record, checkpoint, record.pending_plan_id),
            Some(PlanState::Running) => RecordModel {
                status: MigrationStatus::RecoveryRequired,
                ..record
            },
            Some(PlanState::Blocked) => RecordModel {
                status: MigrationStatus::RecoveryRequired,
                ..record
            },
            Some(PlanState::Failed) => RecordModel {
                status: MigrationStatus::RecoveryRequired,
                ..record
            },
            _ => RecordModel { status: MigrationStatus::Failed, ..record },
        },
    }
}

/// The error to report after a performed checkpoint.
pub open spec fn settled_error(record: RecordModel, outcome: CheckpointOutcome) -> Option<
    Seq<char>,
> {
    match outcome {
        CheckpointOutcome::Failed { error, pending } => if known_pending(record, pending) == Some(
            PlanState::Succeeded,
        ) {
            None
        } else {
            Some(error@)
        },
        _ => None,
    }
}

/// What an optional error says.
pub open spec fn opt_error(error: Option<Error>) -> Option<Seq<char>> {
    match error {
        Some(value) => Some(value@),
        None => None,
    }
}

/// Take the outcome of a checkpoint into the record. A failure after its plan
/// succeeded counts as accepted; a failure after its plan started leaves the
/// migration to recovery, with its lock; any other failure ends it.
pub fn settle_step(record: MigrationRecord, checkpoint: &CheckpointDecl, outcome: CheckpointOutcome) -> (settled:
    Settled)
    ensures
        settled.record@ == settled_record(record@, checkpoint@, outcome),
        opt_error(settled.error) == settled_error(record@, outcome),
        settled.release_lock == (match outcome {
            CheckpointOutcome::AwaitingPlanApproval { .. } => false,
            _ => settled.record.status == MigrationStatus::Succeeded || settled.record.status
                == MigrationStatus::Failed,
        }),
{
    match outcome {
        CheckpointOutcome::Accepted { plan_id } => {
            let mut updated = push_receipt(record, checkpoint, plan_id);
            updated.pending_rollback_plan_id = None;
            let release_lock = updated.status == MigrationStatus::Succeeded;
            Settled { record: updated, release_lock, error: None }
        },
        CheckpointOutcome::AwaitingPlanApproval { waiting_plan } => {
            let mut updated = record;
            updated.pending_plan_id = Some(waiting_plan);
            Settled { record: updated, release_lock: false, error: None }
        },
        CheckpointOutcome::Failed { error, pending } => {
            if record.pending_plan_id.is_some() {
                match pending {
                    Some(PlanState::Succeeded) => {
                        let plan_id = copy_opt(&record.pending_plan_id);
                        let updated = push_receipt(record, checkpoint, plan_id);
                        let release_lock = updated.status == MigrationStatus::Succeeded;
                        return Settled { record: updated, release_lock, error: None };
                    },
                    Some(PlanState::Running) | Some(PlanState::Blocked) | Some(
                        PlanState::Failed,
                    ) => {
                        let mut updated = record;
                        updated.status = MigrationStatus::RecoveryRequired;
                        return Settled {
                            record: updated,
                            release_lock: false,
                            error: Some(error),
                        };
                    },
                    _ => {},
                }
            }
            let mut updated = record;
            updated.status = MigrationStatus::Failed;
            Settled { record: updated, release_lock: true, error: Some(error) }
        },
    }
}

/// What holds of every stored record: a valid declaration, receipts for its
/// first checkpoints in order, no receipt from a later fencing generation,
/// none before the first start, and all of them once it has succeeded.
pub open spec fn consistent(record: RecordModel) -> bool {
    let checkpoints = record.declaration.checkpoints;
    &&& valid_declaration(record.declaration)
    &&& record.receipts.len() <= checkpoints.len()
    &&& forall|i: int|
        0 <= i < record.receipts.len() ==> {
            &&& (#[trigger] record.receipts[i]).checkpoint_id == checkpoints[i].id
            &&& record.receipts[i].class == checkpoints[i].class
            &&& record.receipts[i].effect == effect_word(checkpoints[i].class)
            &&& record.receipts[i].fence_generation <= record.fence_generation
        }
    &&& record.status == MigrationStatus::Admitted ==> record.receipts.len() == 0
    &&& record.status == MigrationStatus::Succeeded ==> record.receipts.len() == checkpoints.len()
}

/// An admitted record is consistent.
pub proof fn admission_is_consistent(
    name: Seq<char>,
    environment: Seq<char>,
    partition: Option<Seq<char>>,
    declaration: super::types::DeclarationModel,
    backup: Option<Seq<char>>,
    identity_digest: Seq<char>,
)
    requires
        valid_declaration(declaration),
    ensures
        consistent(
            admitted_record(name, environment, partition, declaration, backup, identity_digest),
        ),
{
}

/// To start a migration keeps its record consistent and opens a new fencing
/// generation.
pub proof fn start_keeps_consistent(record: RecordModel)
    requires
        consistent(record),
        record.status == MigrationStatus::Admitted,
        record.fence_generation < u64::MAX,
    ensures
        consistent(
            RecordModel {
                fence_generation: (record.fence_generation + 1) as u64,
                status: MigrationStatus::Running,
                ..record
            },
        ),
{
}

/// Whatever comes of the next checkpoint, the record stays consistent, its
/// declaration, identity and fencing generation do not change, and it gains
/// at most the receipt of that checkpoint.
pub proof fn settlement_keeps_consistent(
    record: RecordModel,
    checkpoint: CheckpointModel,
    outcome: CheckpointOutcome,
)
    requires
        consistent(record),
        record.status == MigrationStatus::Running,
        next_checkpoint(record) == Some(checkpoint),
    ensures
        consistent(settled_record(record, checkpoint, outcome)),
        settled_record(record, checkpoint, outcome).declaration == record.declaration,
        settled_record(record, checkpoint, outcome).identity_digest == record.identity_digest,
        settled_record(record, checkpoint, outcome).fence_generation == record.fence_generation,
        settled_record(record, checkpoint, outcome).receipts.len() <= record.receipts.len() + 1,
        settled_record(record, checkpoint, outcome).receipts.take(record.receipts.len() as int)
            == record.receipts,
{
    let after = settled_record(record, checkpoint, outcome);
    assert(after.receipts.take(record.receipts.len() as int) =~= record.receipts);
    assert forall|i: int| 0 <= i < after.receipts.len() implies {
        &&& (#[trigger] after.receipts[i]).checkpoint_id == record.declaration.checkpoints[i].id
        &&& after.receipts[i].class == record.declaration.checkpoints[i].class
        &&& after.receipts[i].effect == effect_word(record.declaration.checkpoints[i].class)
        &&& after.receipts[i].fence_generation <= record.fence_generation
    } by {
        if i < record.receipts.len() {
            assert(after.receipts[i] == record.receipts[i]);
        }
    }
}

/// The next checkpoint of a consistent record has no receipt yet: each
/// checkpoint is performed at most once.
pub proof fn next_checkpoint_is_fresh(record: RecordModel)
    requires
        consistent(record),
        next_checkpoint(record) is Some,
    ensures
        !receipted(record.receipts, next_checkpoint(record)->0.id),
{
    let checkpoints = record.declaration.checkpoints;
    let at = record.receipts.len() as int;
    assert forall|i: int| 0 <= i < record.receipts.len() implies (
    #[trigger] record.receipts[i]).checkpoint_id != checkpoints[at].id by {
        assert(checkpoints[i].id != checkpoints[at].id);
    }
}

/// After a failed checkpoint whose plan is known and has left the computed
/// state without success, the migration waits for recovery: it keeps its lock
/// and its receipts, and the failure is reported.
pub proof fn started_plan_needs_recovery(
    record: MigrationRecord,
    checkpoint: &CheckpointDecl,
    error: Error,
    state: PlanState,
    settled: Settled,
)
    requires
        call_ensures(
            settle_step,
            (record, checkpoint, CheckpointOutcome::Failed { error, pending: Some(state) }),
            settled,
        ),
        record.pending_plan_id is Some,
        state != PlanState::Computed && state != PlanState::Succeeded,
    ensures
        settled.record.status == MigrationStatus::RecoveryRequired,
        !settled.release_lock,
        settled.error matches Some(reported) && reported@ == error@,
        settled.record@.receipts == record@.receipts,
        settled.record@.pending_plan_id == record@.pending_plan_id,
        settled.record@.fence_generation == record@.fence_generation,
{
}

/// A failure after the plan of the checkpoint succeeded counts as accepted:
/// nothing is reported, and the receipt names the plan.
pub proof fn succeeded_plan_is_accepted(
    record: MigrationRecord,
    checkpoint: &CheckpointDecl,
    error: Error,
    settled: Settled,
)
    requires
        call_ensures(
            settle_step,
            (
                record,
                checkpoint,
                CheckpointOutcome::Failed { error, pending: Some(PlanState::Succeeded) },
            ),
            settled,
        ),
        record.pending_plan_id is Some,
    ensures
        settled.error is None,
        settled.record.receipts@.len() == record.receipts@.len() + 1,
        settled.record.receipts@.last()@.checkpoint_id == checkpoint.id@,
        settled.record.receipts@.last()@.result == "accepted"@,
        opt_text(settled.record.receipts@.last().plan_id) == opt_text(record.pending_plan_id),
        settled.record.pending_plan_id is None,
{
    let at = record.receipts@.len() as int;
    assert(settled.record@.receipts.len() == at + 1);
    assert(settled.record@.receipts[at] == settled.record.receipts@[at]@);
}

/// A failure of a checkpoint that started no plan ends the migration: it has
/// failed, its lock is released and the failure is reported.
pub proof fn failure_without_effect_ends_the_migration(
    record: MigrationRecord,
    checkpoint: &CheckpointDecl,
    error: Error,
    pending: Option<PlanState>,
    settled: Settled,
)
    requires
        call_ensures(
            settle_step,
            (record, checkpoint, CheckpointOutcome::Failed { error, pending }),
            settled,
        ),
        record.pending_plan_id is None || pending is None || pending == Some(PlanState::Computed),
    ensures
        settled.record.status == MigrationStatus::Failed,
        settled.release_lock,
        settled.error matches Some(reported) && reported@ == error@,
        settled.record@.receipts == record@.receipts,
{
}

/// An accepted checkpoint gains its receipt, in the fencing generation of the
/// record, and nothing is reported. The migration has succeeded, and gives its
/// lock back, if and only if every checkpoint now has one.
pub proof fn accepted_checkpoint_gains_its_receipt(
    record: MigrationRecord,
    checkpoint: &CheckpointDecl,
    plan_id: Option<String>,
    settled: Settled,
)
    requires
        call_ensures(
            settle_step,
            (record, checkpoint, CheckpointOutcome::Accepted { plan_id }),
            settled,
        ),
    ensures
        settled.error is None,
        settled.record.receipts@.len() == record.receipts@.len() + 1,
        forall|i: int|
            0 <= i < record.receipts@.len() ==> (#[trigger] settled.record.receipts@[i])@
                == record.receipts@[i]@,
        ({
            let receipt = settled.record.receipts@.last();
            &&& receipt.checkpoint_id@ == checkpoint.id@
            &&& receipt.class == checkpoint.class
            &&& receipt.result@ == "accepted"@
            &&& receipt.fence_generation == record.fence_generation
            &&& opt_text(receipt.plan_id) == opt_text(plan_id)
        }),
        settled.record.pending_plan_id is None,
        settled.record.pending_rollback_plan_id is None,
        settled.release_lock <==> record.receipts@.len() + 1
            == record.declaration.checkpoints@.len(),
        settled.record.status == (if record.receipts@.len() + 1
            == record.declaration.checkpoints@.len() {
            MigrationStatus::Succeeded
        } else {
            MigrationStatus::Running
        }),
{
    let at = record.receipts@.len() as int;
    assert(record@.declaration.checkpoints.len() == record.declaration.checkpoints@.len());
    assert(settled.record@.receipts.len() == at + 1);
    assert(settled.record@.receipts[at] == settled.record.receipts@[at]@);
    assert forall|i: int| 0 <= i < at implies (#[trigger] settled.record.receipts@[i])@
        == record.receipts@[i]@ by {
        assert(settled.record@.receipts[i] == settled.record.receipts@[i]@);
        assert(record@.receipts[i] == record.receipts@[i]@);
    }
}

/// A checkpoint whose plan waits for approval leaves the record as it is but
/// for the plan that it waits for, and keeps the lock.
pub proof fn waiting_checkpoint_keeps_the_lock(
    record: MigrationRecord,
    checkpoint: &CheckpointDecl,
    waiting_plan: String,
    settled: Settled,
)
    requires
        call_ensures(
            settle_step,
            (record, checkpoint, CheckpointOutcome::AwaitingPlanApproval { waiting_plan }),
            settled,
        ),
    ensures
        !settled.release_lock,
        settled.error is None,
        opt_text(settled.record.pending_plan_id) == Some(waiting_plan@),
        settled.record.status == record.status,
        settled.record@.receipts == record@.receipts,
        settled.record.fence_generation == record.fence_generation,
{
}

/// A migration starts only when it was admitted, in a new fencing generation, and
/// goes on only while it runs, in the same one. One that succeeded is finished
/// when it is resumed; nothing else can be executed.
pub proof fn migrations_start_once(
    record: MigrationRecord,
    resume: bool,
    result: Result<StepStart, Error>,
)
    requires
        call_ensures(start_step, (record, resume), result),
    ensures
        record.status == MigrationStatus::Admitted ==> {
            &&& resume ==> result is Err
            &&& !resume ==> (result matches Ok(StepStart::Started(started)) && started.status
                == MigrationStatus::Running && started@.receipts == record@.receipts
                && started@.declaration == record@.declaration)
            &&& !resume && record.fence_generation < u64::MAX ==> (result matches Ok(
                StepStart::Started(started),
            ) && started.fence_generation == record.fence_generation + 1)
        },
        record.status == MigrationStatus::Running ==> (if resume || record.receipts@.len() > 0 {
            result matches Ok(StepStart::Started(started)) && started@ == record@
        } else {
            result is Err
        }),
        record.status == MigrationStatus::Succeeded ==> (if resume {
            result matches Ok(StepStart::Finished(finished)) && finished@ == record@
        } else {
            result is Err
        }),
        record.status == MigrationStatus::Failed || record.status == MigrationStatus::RolledBack
            || record.status == MigrationStatus::RecoveryRequired ==> result is Err,
{
    assert(record@.receipts.len() == record.receipts@.len());
}

/// Checkpoints are performed in order, one for each receipt that is missing; an
/// irreversible one is refused without a backup, before its first effect, and
/// the migration has then failed. With all receipts the migration has succeeded.
pub proof fn checkpoints_are_performed_in_order(record: MigrationRecord, work: Work)
    requires
        call_ensures(next_work, (record,), work),
    ensures
        ({
            let done = record.receipts@.len() as int;
            let checkpoints = record.declaration.checkpoints@;
            &&& done >= checkpoints.len() <==> work is Finish
            &&& work matches Work::Finish(finished) ==> finished.status
                == MigrationStatus::Succeeded && finished@.receipts == record@.receipts
            &&& done < checkpoints.len() ==> (work is Refuse <==> checkpoints[done].class
                == CheckpointClass::Irreversible && record.backup_receipt_digest is None)
            &&& work matches Work::Refuse(refused, _) ==> refused.status
                == MigrationStatus::Failed && refused@.receipts == record@.receipts
            &&& work matches Work::Perform(same, performed) ==> same@ == record@ && performed.id@
                == checkpoints[done].id@ && performed.class == checkpoints[done].class
                && forall|i: int|
                0 <= i < done ==> (#[trigger] record.receipts@[i]).checkpoint_id@
                    != performed.id@
            &&& work matches Work::Recorded(same) ==> same@ == record@ && exists|i: int|
                0 <= i < done && (#[trigger] record.receipts@[i]).checkpoint_id@
                    == checkpoints[done].id@
        }),
{
    let receipts = record@.receipts;
    let checkpoints = record@.declaration.checkpoints;
    assert(receipts.len() == record.receipts@.len());
    assert(checkpoints.len() == record.declaration.checkpoints@.len());
    assert forall|i: int| 0 <= i < receipts.len() implies receipts[i] == (
    #[trigger] record.receipts@[i])@ by {};
    let done = record.receipts@.len() as int;
    if done < checkpoints.len() {
        assert(checkpoints[done] == record.declaration.checkpoints@[done]@);
        if receipted(receipts, checkpoints[done].id) {
            let i = choose|i: int|
                0 <= i < receipts.len() && (#[trigger] receipts[i]).checkpoint_id
                    == checkpoints[done].id;
            assert(record.receipts@[i].checkpoint_id@ == checkpoints[done].id);
        } else {
            assert forall|i: int| 0 <= i < done implies (
            #[trigger] record.receipts@[i]).checkpoint_id@ != checkpoints[done].id by {
                assert(receipts[i].checkpoint_id != checkpoints[done].id);
            }
        }
    }
}

/// A caller that expects a fencing generation is served only in that one; a
/// caller that expects none is served in any.
pub proof fn stale_generations_are_refused(
    record: &MigrationRecord,
    expected: Option<u64>,
    operation: &str,
    result: Result<(), Error>,
)
    requires
        call_ensures(require_fence, (record, expected, operation), result),
    ensures
        result is Ok <==> (expected is None || expected == Some(record.fence_generation)),
{
}

/// A step is executed if and only if its approval holds and the fencing
/// generation is the expected one.
pub proof fn checked_steps(
    record: &MigrationRecord,
    authorization: &MigrationAuthorization<'_>,
    expected: Option<u64>,
    now: i64,
    result: Result<(), Error>,
)
    requires
        call_ensures(check_step, (record, authorization, expected, now), result),
    ensures
        result is Ok <==> approval_refusal(record@, authorization@, now) is None && (
        expected is None || expected == Some(record.fence_generation)),
{
}

/// Only an admitted migration is approved, and nothing of its record changes but
/// the digest of the approval.
pub proof fn approved_migrations(
    record: MigrationRecord,
    authorization: &MigrationAuthorization<'_>,
    now: i64,
    result: Result<MigrationRecord, Error>,
)
    requires
        call_ensures(approve, (record, authorization, now), result),
    ensures
        result is Ok <==> record.status == MigrationStatus::Admitted && authorization_refusal(
            record@,
            authorization@,
            now,
        ) is None,
        result matches Ok(approved) ==> {
            &&& approved.status == MigrationStatus::Admitted
            &&& approved.approval_digest@ == approval_binding(record@, authorization@)
            &&& approved@.name == record@.name
            &&& approved@.environment == record@.environment
            &&& approved@.partition == record@.partition
            &&& approved@.identity_digest == record@.identity_digest
            &&& approved@.declaration == record@.declaration
            &&& approved@.fence_generation == record@.fence_generation
            &&& approved@.receipts == record@.receipts
            &&& approved@.backup_receipt_digest == record@.backup_receipt_digest
            &&& approved@.pending_plan_id == record@.pending_plan_id
        },
{
}

} // verus!
