//! What a rollback has to undo, and when it may claim to have done so.
use super::types::{MigrationAuthorization, MigrationRecord, ReceiptModel, RecordModel};
use crate::error::{refusal, refuse_unless, Error};
use crate::plan::PlanState;
use crate::text::{opt_str, same};
use vstd::prelude::*;

verus! {

/// A pending plan has left its computed state.
pub open spec fn plan_started(record: RecordModel, pending: Option<PlanState>) -> bool {
    record.pending_plan_id is Some && pending is Some && pending != Some(PlanState::Computed)
}

/// Tell whether the pending plan of a record, if any, has started. `pending`
/// is its state.
pub fn pending_plan_started(record: &MigrationRecord, pending: Option<PlanState>) -> (answer: bool)
    ensures
        answer == plan_started(record@, pending),
{
    if record.pending_plan_id.is_none() {
        return false;
    }
    match pending {
        Some(PlanState::Computed) => false,
        Some(_) => true,
        None => false,
    }
}

/// An accepted receipt that applied the target.
pub open spec fn applied_target(receipt: ReceiptModel) -> bool {
    receipt.result == "accepted"@ && receipt.effect == "apply_target"@
}

/// The target was applied, or its plan was started.
pub open spec fn attempted_apply(record: RecordModel, pending: Option<PlanState>) -> bool {
    plan_started(record, pending) || exists|i: int|
        0 <= i < record.receipts.len() && applied_target(#[trigger] record.receipts[i])
}

/// Tell whether a rollback has to restore the source: the target was applied,
/// or its plan was started.
pub fn must_restore_source(record: &MigrationRecord, pending: Option<PlanState>) -> (answer: bool)
    ensures
        answer == attempted_apply(record@, pending),
{
    if pending_plan_started(record, pending) {
        return true;
    }
    let mut i: usize = 0;
    while i < record.receipts.len()
        invariant
            i <= record.receipts.len(),
            forall|k: int| 0 <= k < i ==> !applied_target(#[trigger] record@.receipts[k]),
        decreases record.receipts.len() - i,
    {
        assert(record@.receipts[i as int] == record.receipts@[i as int]@);
        if same(&record.receipts[i].result, "accepted") && same(
            &record.receipts[i].effect,
            "apply_target",
        ) {
            assert(applied_target(record@.receipts[i as int]));
            return true;
        }
        i = i + 1;
    }
    false
}

/// Why a rollback cannot start from what is deployed.
pub open spec fn rollback_target_refusal(
    record: RecordModel,
    pending: Option<PlanState>,
    deployed: Option<Seq<char>>,
) -> Option<Seq<char>> {
    let target = record.declaration.target;
    refuse_unless(
        !attempted_apply(record, pending) || deployed == Some(target.version),
        "package migration "@ + record.name + " cannot roll back because "@ + target.product
            + " is no longer at target "@ + target.version,
    )
}

/// Require that the environment is still at the target where a rollback has
/// to restore the source.
pub fn require_rollback_target(
    record: &MigrationRecord,
    pending: Option<PlanState>,
    deployed: Option<&str>,
) -> (result: Result<(), Error>)
    ensures
        refusal(result) == rollback_target_refusal(record@, pending, opt_str(deployed)),
{
    if !must_restore_source(record, pending) {
        return Ok(());
    }
    let target = &record.declaration.target;
    let at_target = match deployed {
        Some(version) => same(version, &target.version),
        None => false,
    };
    if at_target {
        return Ok(());
    }
    let mut message = "package migration ".to_owned();
    message.append(record.name.as_str());
    message.append(" cannot roll back because ");
    message.append(target.product.as_str());
    message.append(" is no longer at target ");
    message.append(target.version.as_str());
    Err(Error::new(message))
}

/// Require that the plan of a rollback can be applied: under a signed
/// authorization its own signed approval has to be there, at `path`.
pub fn require_rollback_approval(
    authorization: &MigrationAuthorization<'_>,
    plan_id: &str,
    path: &str,
    approval_present: bool,
) -> (result: Result<(), Error>)
    ensures
        refusal(result) == refuse_unless(
            authorization is LocalDevelopment || approval_present,
            "package migration rollback plan "@ + plan_id@
                + " is waiting for a signed plan approval at "@ + path@,
        ),
{
    match authorization {
        MigrationAuthorization::LocalDevelopment { .. } => return Ok(()),
        MigrationAuthorization::Signed { .. } => {},
    }
    if approval_present {
        return Ok(());
    }
    let mut message = "package migration rollback plan ".to_owned();
    message.append(plan_id);
    message.append(" is waiting for a signed plan approval at ");
    message.append(path);
    Err(Error::new(message))
}

/// Require that a plan that a migration applied ended in success.
pub fn require_plan_succeeded(plan_id: &str, state: PlanState) -> (result: Result<(), Error>)
    ensures
        refusal(result) == refuse_unless(
            state == PlanState::Succeeded,
            "package migration plan "@ + plan_id@ + " ended in "@ + state.word(),
        ),
{
    if state == PlanState::Succeeded {
        return Ok(());
    }
    let mut message = "package migration plan ".to_owned();
    message.append(plan_id);
    message.append(" ended in ");
    message.append(state.to_string().as_str());
    Err(Error::new(message))
}

/// The plan of a record has started if and only if the record has one and its
/// state is known and not computed any more.
pub proof fn started_plans(
    record: &MigrationRecord,
    pending: Option<PlanState>,
    answer: bool,
)
    requires
        call_ensures(pending_plan_started, (record, pending), answer),
    ensures
        answer <==> record.pending_plan_id is Some && (pending == Some(PlanState::Running)
            || pending == Some(PlanState::Blocked) || pending == Some(PlanState::Succeeded)
            || pending == Some(PlanState::Failed)),
{
    match pending {
        Some(PlanState::Computed) => {},
        Some(PlanState::Running) => {},
        Some(PlanState::Blocked) => {},
        Some(PlanState::Succeeded) => {},
        Some(PlanState::Failed) => {},
        None => {},
    }
}

/// A rollback restores the source if and only if the target was applied by an
/// accepted checkpoint, or its plan was started.
pub proof fn applied_targets_are_undone(
    record: &MigrationRecord,
    pending: Option<PlanState>,
    started: bool,
    answer: bool,
)
    requires
        call_ensures(pending_plan_started, (record, pending), started),
        call_ensures(must_restore_source, (record, pending), answer),
    ensures
        answer <==> started || exists|i: int|
            0 <= i < record.receipts@.len() && (#[trigger] record.receipts@[i]).result@
                == "accepted"@ && record.receipts@[i].effect@ == "apply_target"@,
{
    let receipts = record@.receipts;
    assert(receipts.len() == record.receipts@.len());
    assert forall|i: int| 0 <= i < receipts.len() implies receipts[i] == (
    #[trigger] record.receipts@[i])@ by {};
    if exists|i: int| 0 <= i < receipts.len() && applied_target(#[trigger] receipts[i]) {
        let i = choose|i: int| 0 <= i < receipts.len() && applied_target(#[trigger] receipts[i]);
        assert(record.receipts@[i].result@ == "accepted"@);
    }
    if exists|i: int|
        0 <= i < record.receipts@.len() && (#[trigger] record.receipts@[i]).result@ == "accepted"@
            && record.receipts@[i].effect@ == "apply_target"@ {
        let i = choose|i: int|
            0 <= i < record.receipts@.len() && (#[trigger] record.receipts@[i]).result@
                == "accepted"@ && record.receipts@[i].effect@ == "apply_target"@;
        assert(applied_target(receipts[i]));
    }
}

/// A rollback that has to restore the source starts only from the target.
pub proof fn rollbacks_start_from_the_target(
    record: &MigrationRecord,
    pending: Option<PlanState>,
    deployed: Option<&str>,
    restore: bool,
    result: Result<(), Error>,
)
    requires
        call_ensures(must_restore_source, (record, pending), restore),
        call_ensures(require_rollback_target, (record, pending, deployed), result),
    ensures
        result is Ok <==> !restore || (deployed is Some && deployed->0@
            == record.declaration.target.version@),
{
}

/// The plan of a rollback is applied under a signed authorization only with its
/// own approval, and it counts only if it ended in success.
pub proof fn rollback_plans(
    authorization: &MigrationAuthorization<'_>,
    plan_id: &str,
    path: &str,
    approval_present: bool,
    state: PlanState,
    allowed: Result<(), Error>,
    ended: Result<(), Error>,
)
    requires
        call_ensures(
            require_rollback_approval,
            (authorization, plan_id, path, approval_present),
            allowed,
        ),
        call_ensures(require_plan_succeeded, (plan_id, state), ended),
    ensures
        allowed is Err <==> authorization is Signed && !approval_present,
        ended is Ok <==> state == PlanState::Succeeded,
{
}

} // verus!
