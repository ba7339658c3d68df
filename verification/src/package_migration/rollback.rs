//! Roll a migration back, or leave it to recovery.
use super::approval::{approval_refusal, require_approval};
use super::declaration::effect_word;
use super::execute::{consistent, fence_refusal, require_fence};
use super::types::{
    receipt_models, CheckpointClass, CheckpointReceipt, MigrationAuthorization, MigrationRecord,
    MigrationStatus, ReceiptModel, RecordModel,
};
use crate::error::{first_refusal, refusal, refuse_unless, Error};
use crate::ontology::{identifier_refusal, validate_identifier};
use crate::text::{opt_str, same};
use vstd::prelude::*;

verus! {

/// Check a rollback before its execution lease is taken.
pub fn check_rollback(
    record: &MigrationRecord,
    authorization: &MigrationAuthorization<'_>,
    expected_generation: Option<u64>,
    now: i64,
) -> (result: Result<(), Error>)
    ensures
        refusal(result) == first_refusal(
            approval_refusal(record@, authorization@, now),
            fence_refusal(record@, expected_generation, " for package migration rollback "@),
        ),
{
    match require_approval(record, authorization, now) {
        Err(error) => Err(error),
        Ok(_) => require_fence(record, expected_generation, " for package migration rollback "),
    }
}

/// How a rollback starts.
#[derive(Debug, PartialEq, Eq)]
pub enum RollbackStart {
    /// Nothing was started, or it is rolled back already: store the record
    /// and release the environment lock.
    Done(MigrationRecord),
    /// There is something to undo.
    Undo(MigrationRecord),
}

/// Start a rollback. A migration that was never started has nothing to undo.
pub fn start_rollback(record: MigrationRecord) -> (start: RollbackStart)
    ensures
        match start {
            RollbackStart::Done(done) => {
                &&& record.status == MigrationStatus::Admitted || record.status
                    == MigrationStatus::RolledBack
                &&& done@ == (RecordModel { status: MigrationStatus::RolledBack, ..record@ })
            },
            RollbackStart::Undo(same) => {
                &&& record.status != MigrationStatus::Admitted
                &&& record.status != MigrationStatus::RolledBack
                &&& same@ == record@
            },
        },
{
    if record.status == MigrationStatus::Admitted || record.status == MigrationStatus::RolledBack {
        let mut done = record;
        done.status = MigrationStatus::RolledBack;
        return RollbackStart::Done(done);
    }
    RollbackStart::Undo(record)
}

/// Leave a migration to recovery.
pub fn recovery_required(record: MigrationRecord) -> (updated: MigrationRecord)
    ensures
        updated@ == (RecordModel { status: MigrationStatus::RecoveryRequired, ..record@ }),
{
    let mut updated = record;
    updated.status = MigrationStatus::RecoveryRequired;
    updated
}

/// A receipt of an irreversible checkpoint that was accepted.
pub open spec fn crossed(receipt: ReceiptModel) -> bool {
    receipt.class == CheckpointClass::Irreversible && receipt.result == "accepted"@
}

/// The position of the last receipt of an irreversible checkpoint that was
/// accepted, or -1.
pub open spec fn last_crossed(receipts: Seq<ReceiptModel>) -> int
    decreases receipts.len(),
{
    if receipts.len() == 0 {
        -1
    } else if crossed(receipts.last()) {
        receipts.len() - 1
    } else {
        last_crossed(receipts.drop_last())
    }
}

/// How an undo goes on.
#[derive(Debug, PartialEq, Eq)]
pub enum Undo {
    /// The accepted work can be compensated.
    Compensate(MigrationRecord),
    /// An irreversible checkpoint was crossed: store the record, release the
    /// environment lock and report the error.
    Refuse(MigrationRecord, Error),
}

/// Open a new fencing generation for an undo, unless an irreversible
/// checkpoint was crossed.
pub fn plan_undo(record: MigrationRecord) -> (undo: Undo)
    requires
        record.fence_generation < u64::MAX,
    ensures
        match undo {
            Undo::Compensate(opened) => {
                &&& last_crossed(record@.receipts) == -1
                &&& opened@ == (RecordModel {
                    fence_generation: (record.fence_generation + 1) as u64,
                    ..record@
                })
            },
            Undo::Refuse(refused, error) => {
                let at = last_crossed(record@.receipts);
                &&& 0 <= at < record@.receipts.len()
                &&& refused@ == (RecordModel {
                    fence_generation: (record.fence_generation + 1) as u64,
                    status: MigrationStatus::RecoveryRequired,
                    ..record@
                })
                &&& error@ == "package migration "@ + record.name@
                    + " crossed irreversible checkpoint "@ + record@.receipts[at].checkpoint_id
                    + "; rollback cannot claim success"@
            },
        },
{
    let mut opened = record;
    opened.fence_generation = opened.fence_generation + 1;
    let ghost receipts = record@.receipts;
    let mut i: usize = opened.receipts.len();
    assert(receipts.take(i as int) =~= receipts);
    while i > 0
        invariant
            i <= opened.receipts.len(),
            receipts == receipt_models(opened.receipts@),
            opened@ == (RecordModel {
                fence_generation: (record.fence_generation + 1) as u64,
                ..record@
            }),
            receipts == record@.receipts,
            last_crossed(receipts) == last_crossed(receipts.take(i as int)),
        decreases i,
    {
        let receipt = &opened.receipts[i - 1];
        assert(receipts[i - 1] == receipt@);
        assert(receipts.take(i as int).last() == receipt@);
        assert(receipts.take(i as int).drop_last() =~= receipts.take(i - 1));
        if receipt.class == CheckpointClass::Irreversible && same(&receipt.result, "accepted") {
            let mut message = "package migration ".to_owned();
            message.append(opened.name.as_str());
            message.append(" crossed irreversible checkpoint ");
            message.append(receipt.checkpoint_id.as_str());
            message.append("; rollback cannot claim success");
            let mut refused = opened;
            refused.status = MigrationStatus::RecoveryRequired;
            return Undo::Refuse(refused, Error::new(message));
        }
        i = i - 1;
    }
    Undo::Compensate(opened)
}

/// A receipt after a completed rollback.
pub open spec fn rolled_back_receipt(receipt: ReceiptModel, fence_generation: u64) -> ReceiptModel {
    if receipt.result == "accepted"@ {
        ReceiptModel { result: "rolled_back"@, fence_generation, ..receipt }
    } else {
        receipt
    }
}

/// A record after a completed rollback.
pub open spec fn rolled_back(record: RecordModel) -> RecordModel {
    RecordModel {
        receipts: record.receipts.map_values(
            |receipt: ReceiptModel| rolled_back_receipt(receipt, record.fence_generation),
        ),
        status: MigrationStatus::RolledBack,
        pending_plan_id: None,
        pending_rollback_plan_id: None,
        ..record
    }
}

/// Complete a rollback whose compensation succeeded: every accepted receipt
/// becomes a rolled-back one of the current fencing generation.
pub fn finish_rollback(record: MigrationRecord) -> (done: MigrationRecord)
    ensures
        done@ == rolled_back(record@),
{
    let ghost before = record@;
    let mut done = record;
    let mut receipts: Vec<CheckpointReceipt> = Vec::new();
    std::mem::swap(&mut receipts, &mut done.receipts);
    let ghost originals = receipts@;
    let mut i: usize = 0;
    while i < receipts.len()
        invariant
            i <= receipts.len(),
            receipts@.len() == originals.len(),
            before.receipts == receipt_models(originals),
            done.fence_generation == before.fence_generation,
            forall|k: int|
                0 <= k < i ==> (#[trigger] receipts@[k])@ == rolled_back_receipt(
                    originals[k]@,
                    before.fence_generation,
                ),
            forall|k: int| i <= k < receipts.len() ==> #[trigger] receipts@[k] == originals[k],
        decreases receipts.len() - i,
    {
        if same(&receipts[i].result, "accepted") {
            let updated = CheckpointReceipt {
                checkpoint_id: receipts[i].checkpoint_id.clone(),
                class: receipts[i].class,
                effect: receipts[i].effect.clone(),
                result: "rolled_back".to_owned(),
                fence_generation: done.fence_generation,
                plan_id: crate::text::copy_opt(&receipts[i].plan_id),
            };
            receipts.set(i, updated);
        }
        i = i + 1;
    }
    assert(receipt_models(receipts@) =~= rolled_back(before).receipts);
    done.receipts = receipts;
    done.status = MigrationStatus::RolledBack;
    done.pending_plan_id = None;
    done.pending_rollback_plan_id = None;
    done
}

/// Once an irreversible checkpoint was accepted, no rollback claims success:
/// it leaves the migration to recovery.
pub proof fn crossed_checkpoint_forbids_rollback(receipts: Seq<ReceiptModel>, i: int)
    requires
        0 <= i < receipts.len(),
        crossed(receipts[i]),
    ensures
        i <= last_crossed(receipts) < receipts.len(),
        crossed(receipts[last_crossed(receipts)]),
    decreases receipts.len(),
{
    if !crossed(receipts.last()) {
        assert(receipts.drop_last()[i] == receipts[i]);
        crossed_checkpoint_forbids_rollback(receipts.drop_last(), i);
        let at = last_crossed(receipts.drop_last());
        assert(receipts.drop_last()[at] == receipts[at]);
    }
}

/// After a completed rollback no receipt is accepted, the record stays
/// consistent, and a second rollback changes nothing.
pub proof fn rollback_leaves_nothing_accepted(record: RecordModel)
    requires
        consistent(record),
    ensures
        consistent(rolled_back(record)),
        forall|i: int|
            0 <= i < rolled_back(record).receipts.len() ==> (
            #[trigger] rolled_back(record).receipts[i]).result != "accepted"@,
        rolled_back(rolled_back(record)) == rolled_back(record),
{
    let after = rolled_back(record);
    reveal_strlit("accepted");
    reveal_strlit("rolled_back");
    assert("accepted"@.len() != "rolled_back"@.len());
    assert forall|i: int| 0 <= i < after.receipts.len() implies (#[trigger] after.receipts[i]).result
        != "accepted"@ by {
        assert(after.receipts[i] == rolled_back_receipt(
            record.receipts[i],
            record.fence_generation,
        ));
    }
    assert forall|i: int| 0 <= i < after.receipts.len() implies {
        &&& (#[trigger] after.receipts[i]).checkpoint_id == record.declaration.checkpoints[i].id
        &&& after.receipts[i].class == record.declaration.checkpoints[i].class
        &&& after.receipts[i].effect == effect_word(record.declaration.checkpoints[i].class)
        &&& after.receipts[i].fence_generation <= record.fence_generation
    } by {
        assert(after.receipts[i] == rolled_back_receipt(
            record.receipts[i],
            record.fence_generation,
        ));
    }
    assert(rolled_back(after).receipts =~= after.receipts);
}

/// Why a migration cannot be looked up under a name and partition.
pub open spec fn lookup_refusal(name: Seq<char>, partition: Option<Seq<char>>) -> Option<
    Seq<char>,
> {
    first_refusal(
        identifier_refusal("migration name"@, name),
        match partition {
            Some(value) => identifier_refusal("migration partition"@, value),
            None => None,
        },
    )
}

/// Check a name and partition before a migration is looked up.
pub fn check_lookup(name: &str, partition: Option<&str>) -> (result: Result<(), Error>)
    ensures
        refusal(result) == lookup_refusal(name@, opt_str(partition)),
{
    match validate_identifier("migration name", name) {
        Err(error) => return Err(error),
        Ok(_) => {},
    }
    match partition {
        Some(value) => validate_identifier("migration partition", value),
        None => Ok(()),
    }
}

/// A partition as a record stores it: none where it is empty.
pub open spec fn stored_partition(partition: Option<Seq<char>>) -> Option<Seq<char>> {
    match partition {
        Some(value) => if value.len() == 0 {
            None
        } else {
            Some(value)
        },
        None => None,
    }
}

/// Why a stored record is not the one that was looked up.
pub open spec fn loaded_refusal(
    record: RecordModel,
    name: Seq<char>,
    partition: Option<Seq<char>>,
) -> Option<Seq<char>> {
    if record.name != name {
        Some("stored package migration name does not match "@ + name)
    } else {
        refuse_unless(
            record.partition == stored_partition(partition),
            "stored package migration partition does not match"@,
        )
    }
}

/// Hold a stored record against the name and partition it was looked up by.
pub fn check_loaded(record: &MigrationRecord, name: &str, partition: Option<&str>) -> (result:
    Result<(), Error>)
    ensures
        refusal(result) == loaded_refusal(record@, name@, opt_str(partition)),
{
    if !same(&record.name, name) {
        let mut message = "stored package migration name does not match ".to_owned();
        message.append(name);
        return Err(Error::new(message));
    }
    let wanted: Option<&str> = match partition {
        Some(value) => {
            if value.is_empty() {
                None
            } else {
                Some(value)
            }
        },
        None => None,
    };
    let matches = match (&record.partition, wanted) {
        (Some(stored), Some(value)) => same(stored, value),
        (None, None) => true,
        _ => false,
    };
    if matches {
        Ok(())
    } else {
        Err(Error::fixed("stored package migration partition does not match"))
    }
}

/// A rollback is executed if and only if its approval holds and the fencing
/// generation is the expected one.
pub proof fn checked_rollbacks(
    record: &MigrationRecord,
    authorization: &MigrationAuthorization<'_>,
    expected: Option<u64>,
    now: i64,
    result: Result<(), Error>,
)
    requires
        call_ensures(check_rollback, (record, authorization, expected, now), result),
    ensures
        result is Ok <==> approval_refusal(record@, authorization@, now) is None && (
        expected is None || expected == Some(record.fence_generation)),
{
}

/// A migration that was never started, or is rolled back, has nothing to undo and
/// is rolled back; every other one is undone.
pub proof fn rollbacks_that_are_done(record: MigrationRecord, start: RollbackStart)
    requires
        call_ensures(start_rollback, (record,), start),
    ensures
        start is Done <==> record.status == MigrationStatus::Admitted || record.status
            == MigrationStatus::RolledBack,
        start matches RollbackStart::Done(done) ==> done.status == MigrationStatus::RolledBack
            && done@.receipts == record@.receipts && done@.fence_generation
            == record@.fence_generation,
        start matches RollbackStart::Undo(same) ==> same@ == record@,
{
}

/// A migration that accepted an irreversible checkpoint is never compensated: it
/// is left to recovery. Any other is, and either way in a new fencing
/// generation.
pub proof fn irreversible_work_is_not_undone(record: MigrationRecord, undo: Undo)
    requires
        record.fence_generation < u64::MAX,
        call_ensures(plan_undo, (record,), undo),
    ensures
        undo is Refuse <==> exists|i: int|
            0 <= i < record.receipts@.len() && (#[trigger] record.receipts@[i]).class
                == CheckpointClass::Irreversible && record.receipts@[i].result@ == "accepted"@,
        undo matches Undo::Refuse(refused, _) ==> refused.status
            == MigrationStatus::RecoveryRequired && refused.fence_generation
            == record.fence_generation + 1 && refused@.receipts == record@.receipts,
        undo matches Undo::Compensate(opened) ==> opened.status == record.status
            && opened.fence_generation == record.fence_generation + 1 && opened@.receipts
            == record@.receipts,
{
    let receipts = record@.receipts;
    assert(receipts.len() == record.receipts@.len());
    assert forall|i: int| 0 <= i < receipts.len() implies receipts[i] == (
    #[trigger] record.receipts@[i])@ by {};
    if undo is Refuse {
        let at = last_crossed(receipts);
        lemma_last_is_crossed(receipts);
        assert(record.receipts@[at].class == CheckpointClass::Irreversible);
    }
    if exists|i: int|
        0 <= i < record.receipts@.len() && (#[trigger] record.receipts@[i]).class
            == CheckpointClass::Irreversible && record.receipts@[i].result@ == "accepted"@ {
        let i = choose|i: int|
            0 <= i < record.receipts@.len() && (#[trigger] record.receipts@[i]).class
                == CheckpointClass::Irreversible && record.receipts@[i].result@ == "accepted"@;
        crossed_checkpoint_forbids_rollback(receipts, i);
    }
}

proof fn lemma_last_is_crossed(receipts: Seq<ReceiptModel>)
    ensures
        last_crossed(receipts) >= 0 ==> last_crossed(receipts) < receipts.len() && crossed(
            receipts[last_crossed(receipts)],
        ),
        -1 <= last_crossed(receipts),
    decreases receipts.len(),
{
    if receipts.len() > 0 {
        lemma_last_is_crossed(receipts.drop_last());
    }
}

/// A completed rollback turns each accepted receipt, and no other, into a
/// rolled-back one of the current fencing generation, and leaves no plan
/// pending.
pub proof fn completed_rollbacks(record: MigrationRecord, done: MigrationRecord)
    requires
        call_ensures(finish_rollback, (record,), done),
    ensures
        done.status == MigrationStatus::RolledBack,
        done.pending_plan_id is None,
        done.pending_rollback_plan_id is None,
        done.fence_generation == record.fence_generation,
        done.receipts@.len() == record.receipts@.len(),
        forall|i: int|
            0 <= i < done.receipts@.len() ==> {
                let before = record.receipts@[i];
                let after = #[trigger] done.receipts@[i];
                &&& after.checkpoint_id@ == before.checkpoint_id@
                &&& after.class == before.class
                &&& after.effect@ == before.effect@
                &&& if before.result@ == "accepted"@ {
                    after.result@ == "rolled_back"@ && after.fence_generation
                        == record.fence_generation
                } else {
                    after.result@ == before.result@ && after.fence_generation
                        == before.fence_generation
                }
            },
{
    assert(done@.receipts.len() == done.receipts@.len());
    assert(record@.receipts.len() == record.receipts@.len());
    assert forall|i: int| 0 <= i < done.receipts@.len() implies {
        let before = record.receipts@[i];
        let after = #[trigger] done.receipts@[i];
        &&& after.checkpoint_id@ == before.checkpoint_id@
        &&& after.class == before.class
        &&& after.effect@ == before.effect@
        &&& if before.result@ == "accepted"@ {
            after.result@ == "rolled_back"@ && after.fence_generation == record.fence_generation
        } else {
            after.result@ == before.result@ && after.fence_generation == before.fence_generation
        }
    } by {
        assert(done@.receipts[i] == done.receipts@[i]@);
        assert(record@.receipts[i] == record.receipts@[i]@);
    }
}

/// A stored record is the one that was looked up if and only if it has the name
/// and the partition; an empty partition is none.
pub proof fn loaded_records(
    record: &MigrationRecord,
    name: &str,
    partition: Option<&str>,
    result: Result<(), Error>,
)
    requires
        call_ensures(check_loaded, (record, name, partition), result),
    ensures
        result is Ok <==> record.name@ == name@ && (if partition is None || partition->0@.len()
            == 0 {
            record.partition is None
        } else {
            record.partition is Some && record.partition->0@ == partition->0@
        }),
{
}

/// A migration that is left to recovery keeps everything but its status.
pub proof fn recovery_keeps_the_record(record: MigrationRecord, updated: MigrationRecord)
    requires
        call_ensures(recovery_required, (record,), updated),
    ensures
        updated.status == MigrationStatus::RecoveryRequired,
        updated@.receipts == record@.receipts,
        updated@.fence_generation == record@.fence_generation,
        updated@.declaration == record@.declaration,
        updated@.pending_plan_id == record@.pending_plan_id,
{
}

/// A migration is looked up by an identifier, in a partition that is one too.
pub proof fn lookups_are_by_identifiers(
    name: &str,
    partition: Option<&str>,
    result: Result<(), Error>,
)
    requires
        call_ensures(check_lookup, (name, partition), result),
    ensures
        result is Ok <==> crate::ontology::identifier(name@) && (partition is Some
            ==> crate::ontology::identifier(partition->0@)),
{
}

} // verus!
