//! Runs of a migration and its report.
use super::execute::{consistent, next_checkpoint, settled_record, CheckpointOutcome};
use super::types::{
    CheckpointModel, CheckpointReceipt, MigrationRecord, MigrationStatus, ReceiptModel, RecordModel,
};
use crate::error::{refusal, refuse_unless, Error};
use crate::text::{decimal, decimal_text, join, joined, pad, padded, same, texts};
use vstd::prelude::*;

verus! {

/// Require that a stored migration is the one that a run asks for.
pub fn require_same_run(
    stored: &MigrationRecord,
    name: &str,
    environment: &str,
    identity_digest: &str,
) -> (result: Result<(), Error>)
    ensures
        refusal(result) == refuse_unless(
            stored@.identity_digest == identity_digest@ && stored@.environment == environment@,
            "package migration "@ + name@ + " already exists with a different identity"@,
        ),
{
    if same(&stored.identity_digest, identity_digest) && same(&stored.environment, environment) {
        return Ok(());
    }
    let mut message = "package migration ".to_owned();
    message.append(name);
    message.append(" already exists with a different identity");
    Err(Error::new(message))
}

/// What a run does first about a record.
#[derive(Debug, Clone, Copy, PartialEq, Eq, Structural)]
pub enum RunStart {
    /// The migration has ended: return the record.
    Ended,
    /// The migration is not approved yet: approve it.
    Approve,
    /// The migration is approved: require the approval.
    RequireApproval,
}

/// Decide what a run does first about a record.
pub fn run_start(record: &MigrationRecord) -> (start: RunStart)
    ensures
        start == (if record@.status.ends_run() {
            RunStart::Ended
        } else if record@.status == MigrationStatus::Admitted && record@.approval_digest.len() == 0 {
            RunStart::Approve
        } else {
            RunStart::RequireApproval
        }),
{
    match record.status {
        MigrationStatus::Succeeded
        | MigrationStatus::Failed
        | MigrationStatus::RolledBack
        | MigrationStatus::RecoveryRequired => RunStart::Ended,
        MigrationStatus::Admitted => {
            if record.approval_digest.as_str().is_empty() {
                RunStart::Approve
            } else {
                RunStart::RequireApproval
            }
        },
        MigrationStatus::Running => RunStart::RequireApproval,
    }
}

/// A run goes on after a step: the migration has not ended and the step added
/// a receipt.
pub open spec fn goes_on(next: RecordModel, receipts_before: nat) -> bool {
    !next.status.ends_run() && next.receipts.len() != receipts_before
}

/// Decide whether a run goes on after a step.
pub fn run_goes_on(next: &MigrationRecord, receipts_before: usize) -> (answer: bool)
    ensures
        answer == goes_on(next@, receipts_before as nat),
{
    assert(next@.receipts.len() == next.receipts@.len());
    match next.status {
        MigrationStatus::Succeeded
        | MigrationStatus::Failed
        | MigrationStatus::RolledBack
        | MigrationStatus::RecoveryRequired => false,
        _ => next.receipts.len() != receipts_before,
    }
}

/// A run ends: each step after which it goes on leaves fewer checkpoints to
/// perform.
pub proof fn run_makes_progress(
    record: RecordModel,
    checkpoint: CheckpointModel,
    outcome: CheckpointOutcome,
)
    requires
        consistent(record),
        record.status == MigrationStatus::Running,
        next_checkpoint(record) == Some(checkpoint),
        goes_on(settled_record(record, checkpoint, outcome), record.receipts.len()),
    ensures
        settled_record(record, checkpoint, outcome).receipts.len() == record.receipts.len() + 1,
        settled_record(record, checkpoint, outcome).receipts.len()
            < record.declaration.checkpoints.len(),
{
}

/// The first line of a report.
pub open spec fn header_line(record: RecordModel) -> Seq<char> {
    "package-migration name="@ + record.name + " status="@ + record.status.word() + " identity="@
        + record.identity_digest + " env="@ + record.environment + " fence="@ + decimal(
        record.fence_generation as nat,
    ) + " approval="@ + (if record.approval_digest.len() == 0 {
        "-"@
    } else {
        record.approval_digest
    })
}

/// The line of a pinned release.
pub open spec fn pin_line(label: Seq<char>, pin: super::types::PinModel) -> Seq<char> {
    label + pin.product + "@"@ + pin.version + " "@ + pin.digest
}

/// A line that stands only where it has a value.
pub open spec fn optional_line(label: Seq<char>, value: Option<Seq<char>>) -> Seq<Seq<char>> {
    match value {
        Some(text) => seq![label + text],
        None => Seq::<Seq<char>>::empty(),
    }
}

/// Three columns and a last cell.
pub open spec fn table_line(
    first: Seq<char>,
    second: Seq<char>,
    third: Seq<char>,
    last: Seq<char>,
) -> Seq<char> {
    padded(first, 16) + " "@ + padded(second, 14) + " "@ + padded(third, 12) + " "@ + last
}

/// The position of the first receipt of a checkpoint, or the number of
/// receipts.
pub open spec fn receipt_at(receipts: Seq<ReceiptModel>, id: Seq<char>) -> int
    decreases receipts.len(),
{
    if receipts.len() == 0 {
        0
    } else if receipts[0].checkpoint_id == id {
        0
    } else {
        1 + receipt_at(receipts.drop_first(), id)
    }
}

proof fn lemma_receipt_at(receipts: Seq<ReceiptModel>, id: Seq<char>, at: int)
    requires
        0 <= at <= receipts.len(),
        at < receipts.len() ==> receipts[at].checkpoint_id == id,
        forall|k: int| 0 <= k < at ==> (#[trigger] receipts[k]).checkpoint_id != id,
    ensures
        receipt_at(receipts, id) == at,
    decreases receipts.len(),
{
    if receipts.len() > 0 && at > 0 {
        assert(receipts[0].checkpoint_id != id);
        assert forall|k: int| 0 <= k < at - 1 implies (
        #[trigger] receipts.drop_first()[k]).checkpoint_id != id by {
            assert(receipts.drop_first()[k] == receipts[k + 1]);
        }
        lemma_receipt_at(receipts.drop_first(), id, at - 1);
    }
}

/// The line of a checkpoint: its result and fencing generation where it has a
/// receipt, dashes where it has none.
pub open spec fn checkpoint_line(record: RecordModel, checkpoint: CheckpointModel) -> Seq<char> {
    let at = receipt_at(record.receipts, checkpoint.id);
    if at < record.receipts.len() {
        table_line(
            checkpoint.id,
            checkpoint.class.word(),
            record.receipts[at].result,
            decimal(record.receipts[at].fence_generation as nat),
        )
    } else {
        table_line(checkpoint.id, checkpoint.class.word(), "-"@, "-"@)
    }
}

/// The lines of a report.
pub open spec fn report_lines(record: RecordModel) -> Seq<Seq<char>> {
    seq![
        header_line(record),
        pin_line("source "@, record.declaration.source),
        pin_line("target "@, record.declaration.target),
    ] + optional_line("backup "@, record.backup_receipt_digest) + optional_line(
        "pending-plan "@,
        record.pending_plan_id,
    ) + optional_line("pending-rollback-plan "@, record.pending_rollback_plan_id) + seq![
        table_line("checkpoint"@, "class"@, "result"@, "fence"@),
    ] + record.declaration.checkpoints.map_values(
        |checkpoint: CheckpointModel| checkpoint_line(record, checkpoint),
    ) + seq![
        "note: accepted irreversible work cannot report rollback success; recover from Tenkai receipts"@,
    ]
}

fn table_text(first: &str, second: &str, third: &str, last: &str) -> (line: String)
    ensures
        line@ == table_line(first@, second@, third@, last@),
{
    let mut line = pad(first, 16);
    line.append(" ");
    line.append(pad(second, 14).as_str());
    line.append(" ");
    line.append(pad(third, 12).as_str());
    line.append(" ");
    line.append(last);
    line
}

fn pin_text(label: &str, pin: &super::types::PackagePin) -> (line: String)
    ensures
        line@ == pin_line(label@, pin@),
{
    let mut line = label.to_owned();
    line.append(pin.product.as_str());
    line.append("@");
    line.append(pin.version.as_str());
    line.append(" ");
    line.append(pin.digest.as_str());
    line
}

fn header_text(record: &MigrationRecord) -> (line: String)
    ensures
        line@ == header_line(record@),
{
    let mut line = "package-migration name=".to_owned();
    line.append(record.name.as_str());
    line.append(" status=");
    line.append(record.status.as_str());
    line.append(" identity=");
    line.append(record.identity_digest.as_str());
    line.append(" env=");
    line.append(record.environment.as_str());
    line.append(" fence=");
    line.append(decimal_text(record.fence_generation).as_str());
    line.append(" approval=");
    if record.approval_digest.as_str().is_empty() {
        line.append("-");
    } else {
        line.append(record.approval_digest.as_str());
    }
    line
}

fn push_optional(lines: &mut Vec<String>, label: &str, value: &Option<String>)
    ensures
        texts(final(lines)@) == texts(old(lines)@) + optional_line(
            label@,
            crate::text::opt_text(*value),
        ),
{
    match value {
        Some(text) => {
            let mut line = label.to_owned();
            line.append(text.as_str());
            lines.push(line);
            assert(texts(lines@) =~= texts(old(lines)@).push(line@));
            assert(texts(lines@) =~= texts(old(lines)@) + seq![line@]);
        },
        None => {
            assert(texts(lines@) =~= texts(old(lines)@) + Seq::<Seq<char>>::empty());
        },
    }
}

fn checkpoint_text(record: &MigrationRecord, at: usize) -> (line: String)
    requires
        at < record.declaration.checkpoints.len(),
    ensures
        line@ == checkpoint_line(record@, record@.declaration.checkpoints[at as int]),
{
    let checkpoint = &record.declaration.checkpoints[at];
    let ghost receipts = record@.receipts;
    assert(record@.declaration.checkpoints[at as int] == checkpoint@);
    let mut i: usize = 0;
    while i < record.receipts.len() && !same(&record.receipts[i].checkpoint_id, &checkpoint.id)
        invariant
            i <= record.receipts.len(),
            receipts == record@.receipts,
            forall|k: int| 0 <= k < i ==> (#[trigger] receipts[k]).checkpoint_id != checkpoint@.id,
        decreases record.receipts.len() - i,
    {
        assert(receipts[i as int] == record.receipts@[i as int]@);
        i = i + 1;
    }
    proof {
        if i < record.receipts.len() {
            assert(receipts[i as int] == record.receipts@[i as int]@);
        }
        lemma_receipt_at(receipts, checkpoint@.id, i as int);
    }
    if i < record.receipts.len() {
        let receipt: &CheckpointReceipt = &record.receipts[i];
        table_text(
            checkpoint.id.as_str(),
            checkpoint.class.as_str(),
            receipt.result.as_str(),
            decimal_text(receipt.fence_generation).as_str(),
        )
    } else {
        table_text(checkpoint.id.as_str(), checkpoint.class.as_str(), "-", "-")
    }
}

/// The report of a migration.
pub fn format_migration(record: &MigrationRecord) -> (report: String)
    ensures
        report@ == joined(report_lines(record@), "\n"@),
{
    let ghost r = record@;
    let mut lines: Vec<String> = Vec::new();
    lines.push(header_text(record));
    lines.push(pin_text("source ", &record.declaration.source));
    lines.push(pin_text("target ", &record.declaration.target));
    let ghost head = seq![
        header_line(r),
        pin_line("source "@, r.declaration.source),
        pin_line("target "@, r.declaration.target),
    ];
    assert(texts(lines@) =~= head);
    push_optional(&mut lines, "backup ", &record.backup_receipt_digest);
    push_optional(&mut lines, "pending-plan ", &record.pending_plan_id);
    push_optional(&mut lines, "pending-rollback-plan ", &record.pending_rollback_plan_id);
    let ghost before = texts(lines@);
    lines.push(table_text("checkpoint", "class", "result", "fence"));
    let ghost table = before + seq![table_line("checkpoint"@, "class"@, "result"@, "fence"@)];
    assert(texts(lines@) =~= table);
    let ghost rows = r.declaration.checkpoints.map_values(
        |checkpoint: CheckpointModel| checkpoint_line(r, checkpoint),
    );
    let mut i: usize = 0;
    assert(table + rows.take(0) =~= table);
    while i < record.declaration.checkpoints.len()
        invariant
            i <= record.declaration.checkpoints.len(),
            r == record@,
            rows == r.declaration.checkpoints.map_values(
                |checkpoint: CheckpointModel| checkpoint_line(r, checkpoint),
            ),
            rows.len() == record.declaration.checkpoints.len(),
            texts(lines@) == table + rows.take(i as int),
        decreases record.declaration.checkpoints.len() - i,
    {
        let ghost so_far = texts(lines@);
        let line = checkpoint_text(record, i);
        lines.push(line);
        assert(texts(lines@) =~= so_far.push(line@));
        assert(rows.take(i + 1) =~= rows.take(i as int).push(line@));
        assert(texts(lines@) =~= table + rows.take(i + 1));
        i = i + 1;
    }
    assert(rows.take(i as int) =~= rows);
    let ghost all = texts(lines@);
    let note =
        "note: accepted irreversible work cannot report rollback success; recover from Tenkai receipts".to_owned();
    lines.push(note);
    assert(texts(lines@) =~= all.push(note@));
    assert(texts(lines@) =~= report_lines(r));
    join(&lines, "\n")
}

/// A run starts over a record that is stored already only if it has the same
/// identity and environment.
pub proof fn runs_of_one_migration(
    stored: &MigrationRecord,
    name: &str,
    environment: &str,
    identity_digest: &str,
    result: Result<(), Error>,
)
    requires
        call_ensures(require_same_run, (stored, name, environment, identity_digest), result),
    ensures
        result is Ok <==> stored.identity_digest@ == identity_digest@ && stored.environment@
            == environment@,
{
}

/// A run first approves a migration that was admitted without an approval,
/// requires the approval of one that goes on, and returns one that has ended.
pub proof fn first_steps_of_a_run(record: &MigrationRecord, start: RunStart)
    requires
        call_ensures(run_start, (record,), start),
    ensures
        start == RunStart::Ended <==> record.status != MigrationStatus::Admitted && record.status
            != MigrationStatus::Running,
        start == RunStart::Approve <==> record.status == MigrationStatus::Admitted
            && record.approval_digest@.len() == 0,
        start == RunStart::RequireApproval <==> record.status == MigrationStatus::Running || (
        record.status == MigrationStatus::Admitted && record.approval_digest@.len() > 0),
{
}

/// A run goes on after a step if and only if the migration has not ended and the
/// step changed the number of receipts.
pub proof fn runs_that_go_on(next: &MigrationRecord, receipts_before: usize, answer: bool)
    requires
        call_ensures(run_goes_on, (next, receipts_before), answer),
    ensures
        answer <==> (next.status == MigrationStatus::Admitted || next.status
            == MigrationStatus::Running) && next.receipts@.len() != receipts_before,
{
    assert(next@.receipts.len() == next.receipts@.len());
}

} // verus!
