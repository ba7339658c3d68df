//! Signed receipts of what a disconnected runtime did with a bundle.
use super::bundle::{verifying_key, VerifiedBundle};
use super::rules::{canonical_text, text_refusal, validate_text, RECEIPT_SCHEMA};
use super::statement::BundleModel;
use crate::crypto::{
    accepts, base64_encode, base64_message, base64_text, digest_hex, ed25519_accepts,
    ed25519_public, ed25519_signature, is_digest, prefixed_digest, sha256_hex, SigningKey,
};
use crate::error::{first_refusal, refusal, refuse_unless, Error};
use crate::framing::{
    be32, domain, encoded, frame, lemma_encoded_add, lemma_fields_cancel,
    lemma_twos_complement_injective, push_be32, push_bytes, push_text, same_shape,
    twos_complement, utf8, Field, Statement,
};
use crate::plan_approval::lemma_digest_frameable;
use crate::reconciler::{CompletionModel, RuntimeCompletion, RuntimeStepModel, RuntimeStepReceipt};
use crate::signature_verification::{
    decode_signature, digest_refusal, exact_refusal, key_id, signer_with, validate_prefixed_digest,
    SignerModel,
};
use crate::storage::{ImportModel, OfflineImportRecord, OfflineStepImportRecord, StepImportModel};
use crate::text::same;
use crate::trust::{roots_refusal, signer_models, TrustRoots};
use vstd::prelude::*;

verus! {

pub const RECEIPT_DOMAIN: &'static str = "TENKAI-OFFLINE-RECEIPT-V1";

/// A signed receipt.
#[derive(Debug, PartialEq, Eq)]
pub struct ReceiptEnvelope {
    pub schema: String,
    pub key_id: String,
    pub statement: ReceiptStatement,
    pub signature: String,
}

/// What a runtime did with the plan of a bundle.
#[derive(Debug, PartialEq, Eq)]
pub struct ReceiptStatement {
    pub bundle_digest: String,
    pub tenant_id: String,
    pub environment_id: String,
    pub runtime_id: String,
    pub plan_id: String,
    pub plan_digest: String,
    pub generation: u64,
    pub succeeded: bool,
    pub detail: String,
    pub completed_at_unix_ms: i64,
    pub receipts: Vec<OfflineStepReceipt>,
}

/// The result of one step.
#[derive(Debug, PartialEq, Eq)]
pub struct OfflineStepReceipt {
    pub receipt_id: String,
    pub step_id: String,
    pub attempt: u32,
    pub succeeded: bool,
    pub result_digest: String,
}

/// A receipt whose signature and bindings were checked.
#[derive(Debug, PartialEq, Eq)]
pub struct VerifiedReceipt {
    signer_identity: String,
    statement: ReceiptStatement,
}

/// The runtime and key from which receipts are accepted.
#[derive(Debug, PartialEq, Eq)]
pub struct ReceiptTrustScope {
    pub tenant_id: String,
    pub environment_id: String,
    pub runtime_id: String,
    pub key_id: String,
}

/// What a step receipt says.
pub struct StepReceiptModel {
    pub receipt_id: Seq<char>,
    pub step_id: Seq<char>,
    pub attempt: u32,
    pub succeeded: bool,
    pub result_digest: Seq<char>,
}

impl View for OfflineStepReceipt {
    type V = StepReceiptModel;

    open spec fn view(&self) -> StepReceiptModel {
        StepReceiptModel {
            receipt_id: self.receipt_id@,
            step_id: self.step_id@,
            attempt: self.attempt,
            succeeded: self.succeeded,
            result_digest: self.result_digest@,
        }
    }
}

/// What step receipts say, in order.
pub open spec fn receipt_models(list: Seq<OfflineStepReceipt>) -> Seq<StepReceiptModel> {
    list.map_values(|item: OfflineStepReceipt| item@)
}

/// What a receipt statement says.
pub struct ReceiptModel {
    pub bundle_digest: Seq<char>,
    pub tenant_id: Seq<char>,
    pub environment_id: Seq<char>,
    pub runtime_id: Seq<char>,
    pub plan_id: Seq<char>,
    pub plan_digest: Seq<char>,
    pub generation: u64,
    pub succeeded: bool,
    pub detail: Seq<char>,
    pub completed_at_unix_ms: i64,
    pub receipts: Seq<StepReceiptModel>,
}

impl View for ReceiptStatement {
    type V = ReceiptModel;

    open spec fn view(&self) -> ReceiptModel {
        ReceiptModel {
            bundle_digest: self.bundle_digest@,
            tenant_id: self.tenant_id@,
            environment_id: self.environment_id@,
            runtime_id: self.runtime_id@,
            plan_id: self.plan_id@,
            plan_digest: self.plan_digest@,
            generation: self.generation,
            succeeded: self.succeeded,
            detail: self.detail@,
            completed_at_unix_ms: self.completed_at_unix_ms,
            receipts: receipt_models(self.receipts@),
        }
    }
}

/// What a receipt envelope says.
pub struct ReceiptEnvelopeModel {
    pub schema: Seq<char>,
    pub key_id: Seq<char>,
    pub statement: ReceiptModel,
    pub signature: Seq<char>,
}

impl View for ReceiptEnvelope {
    type V = ReceiptEnvelopeModel;

    open spec fn view(&self) -> ReceiptEnvelopeModel {
        ReceiptEnvelopeModel {
            schema: self.schema@,
            key_id: self.key_id@,
            statement: self.statement@,
            signature: self.signature@,
        }
    }
}

/// What a trust scope says.
pub struct ScopeModel {
    pub tenant_id: Seq<char>,
    pub environment_id: Seq<char>,
    pub runtime_id: Seq<char>,
    pub key_id: Seq<char>,
}

impl View for ReceiptTrustScope {
    type V = ScopeModel;

    open spec fn view(&self) -> ScopeModel {
        ScopeModel {
            tenant_id: self.tenant_id@,
            environment_id: self.environment_id@,
            runtime_id: self.runtime_id@,
            key_id: self.key_id@,
        }
    }
}

/// The bytes that identify one attempt at a step.
pub open spec fn receipt_id_bytes(
    environment_id: Seq<char>,
    plan_id: Seq<char>,
    step_id: Seq<char>,
    attempt: u32,
) -> Seq<u8> {
    frame(utf8(environment_id)) + frame(utf8(plan_id)) + frame(utf8(step_id)) + frame(
        be32(attempt as nat),
    )
}

/// The identity of a receipt for one attempt at a step.
pub open spec fn receipt_id_text(
    environment_id: Seq<char>,
    plan_id: Seq<char>,
    step_id: Seq<char>,
    attempt: u32,
) -> Seq<char> {
    sha256_hex(receipt_id_bytes(environment_id, plan_id, step_id, attempt))
}

/// The stable mutation identity that a connected runtime would use.
pub fn offline_receipt_id(
    environment_id: &str,
    plan_id: &str,
    step_id: &str,
    attempt: u32,
) -> (id: String)
    ensures
        id@ == receipt_id_text(environment_id@, plan_id@, step_id@, attempt),
{
    let mut bytes: Vec<u8> = Vec::new();
    push_text(&mut bytes, environment_id);
    push_text(&mut bytes, plan_id);
    push_text(&mut bytes, step_id);
    let mut number: Vec<u8> = Vec::new();
    push_be32(&mut number, attempt);
    assert(number@ =~= be32(attempt as nat));
    push_bytes(&mut bytes, number.as_slice());
    assert(bytes@ =~= receipt_id_bytes(environment_id@, plan_id@, step_id@, attempt));
    digest_hex(bytes.as_slice())
}

/// An earlier receipt has the identity or the step of another.
pub open spec fn receipt_taken(earlier: Seq<StepReceiptModel>, receipt: StepReceiptModel) -> bool {
    exists|i: int|
        0 <= i < earlier.len() && ((#[trigger] earlier[i]).receipt_id == receipt.receipt_id
            || earlier[i].step_id == receipt.step_id)
}

/// Why a step receipt is refused behind the earlier ones.
pub open spec fn step_refusal(
    environment_id: Seq<char>,
    plan_id: Seq<char>,
    earlier: Seq<StepReceiptModel>,
    receipt: StepReceiptModel,
) -> Option<Seq<char>> {
    let id = text_refusal("receipt identity"@, receipt.receipt_id, 256);
    let step = text_refusal("receipt step identity"@, receipt.step_id, 256);
    let digest = digest_refusal("receipt result digest"@, receipt.result_digest);
    if id is Some {
        id
    } else if step is Some {
        step
    } else if digest is Some {
        digest
    } else if receipt.attempt == 0 || receipt.receipt_id != receipt_id_text(
        environment_id,
        plan_id,
        receipt.step_id,
        receipt.attempt,
    ) {
        Some("offline receipt identity does not match its step mutation identity"@)
    } else if receipt_taken(earlier, receipt) {
        Some("offline receipt contains duplicate receipt or step identity"@)
    } else {
        None
    }
}

/// Why the step receipts of a statement are refused: the refusal of the first
/// that is.
pub open spec fn steps_refusal(
    environment_id: Seq<char>,
    plan_id: Seq<char>,
    receipts: Seq<StepReceiptModel>,
) -> Option<Seq<char>>
    decreases receipts.len(),
{
    if receipts.len() == 0 {
        None
    } else {
        first_refusal(
            steps_refusal(environment_id, plan_id, receipts.drop_last()),
            step_refusal(environment_id, plan_id, receipts.drop_last(), receipts.last()),
        )
    }
}

/// Some step failed.
pub open spec fn any_failed(receipts: Seq<StepReceiptModel>) -> bool {
    exists|i: int| 0 <= i < receipts.len() && !(#[trigger] receipts[i]).succeeded
}

/// Why a receipt statement is refused before its steps are looked at.
pub open spec fn receipt_head_refusal(s: ReceiptModel) -> Option<Seq<char>> {
    let bundle = digest_refusal("bundle digest"@, s.bundle_digest);
    let plan = digest_refusal("plan digest"@, s.plan_digest);
    let tenant = text_refusal("tenant identity"@, s.tenant_id, 256);
    let environment = text_refusal("environment identity"@, s.environment_id, 256);
    let runtime = text_refusal("runtime identity"@, s.runtime_id, 256);
    let plan_id = text_refusal("plan identity"@, s.plan_id, 256);
    let detail = text_refusal("receipt detail"@, s.detail, 2048);
    if bundle is Some {
        bundle
    } else if plan is Some {
        plan
    } else if tenant is Some {
        tenant
    } else if environment is Some {
        environment
    } else if runtime is Some {
        runtime
    } else if plan_id is Some {
        plan_id
    } else if detail is Some {
        detail
    } else if s.generation == 0 || s.completed_at_unix_ms <= 0 || s.receipts.len() == 0 {
        Some("offline receipt has invalid generation, completion time, or step set"@)
    } else {
        None
    }
}

/// Why a receipt statement is refused.
pub open spec fn receipt_refusal(s: ReceiptModel) -> Option<Seq<char>> {
    first_refusal(
        receipt_head_refusal(s),
        first_refusal(
            steps_refusal(s.environment_id, s.plan_id, s.receipts),
            refuse_unless(
                !(s.succeeded && any_failed(s.receipts)),
                "successful offline completion contains a failed step receipt"@,
            ),
        ),
    )
}

proof fn lemma_steps_stop(
    environment_id: Seq<char>,
    plan_id: Seq<char>,
    receipts: Seq<StepReceiptModel>,
    at: int,
)
    requires
        0 <= at < receipts.len(),
        steps_refusal(environment_id, plan_id, receipts.take(at + 1)) is Some,
    ensures
        steps_refusal(environment_id, plan_id, receipts) == steps_refusal(
            environment_id,
            plan_id,
            receipts.take(at + 1),
        ),
    decreases receipts.len() - at,
{
    if at + 1 == receipts.len() {
        assert(receipts.take(at + 1) =~= receipts);
    } else {
        assert(receipts.take(at + 2).drop_last() =~= receipts.take(at + 1));
        lemma_steps_stop(environment_id, plan_id, receipts, at + 1);
    }
}

/// A valid statement has one receipt for each step that it reports, each
/// under the identity of its own attempt, and none of them failed where the
/// whole succeeded.
pub proof fn accepted_receipts_are_consistent(s: ReceiptModel)
    requires
        receipt_refusal(s) is None,
    ensures
        forall|i: int|
            0 <= i < s.receipts.len() ==> (#[trigger] s.receipts[i]).receipt_id == receipt_id_text(
                s.environment_id,
                s.plan_id,
                s.receipts[i].step_id,
                s.receipts[i].attempt,
            ),
        forall|i: int, j: int|
            0 <= i < j < s.receipts.len() ==> (#[trigger] s.receipts[i]).step_id != (
            #[trigger] s.receipts[j]).step_id && s.receipts[i].receipt_id
                != s.receipts[j].receipt_id,
        s.succeeded ==> forall|i: int|
            0 <= i < s.receipts.len() ==> (#[trigger] s.receipts[i]).succeeded,
{
    lemma_steps_distinct(s.environment_id, s.plan_id, s.receipts);
}

proof fn lemma_steps_distinct(
    environment_id: Seq<char>,
    plan_id: Seq<char>,
    receipts: Seq<StepReceiptModel>,
)
    requires
        steps_refusal(environment_id, plan_id, receipts) is None,
    ensures
        forall|i: int|
            0 <= i < receipts.len() ==> {
                &&& (#[trigger] receipts[i]).receipt_id == receipt_id_text(
                    environment_id,
                    plan_id,
                    receipts[i].step_id,
                    receipts[i].attempt,
                )
                &&& canonical_text(receipts[i].receipt_id, 256)
                &&& canonical_text(receipts[i].step_id, 256)
                &&& is_digest(receipts[i].result_digest)
            },
        forall|i: int, j: int|
            0 <= i < j < receipts.len() ==> (#[trigger] receipts[i]).step_id != (
            #[trigger] receipts[j]).step_id && receipts[i].receipt_id != receipts[j].receipt_id,
    decreases receipts.len(),
{
    if receipts.len() > 0 {
        let before = receipts.drop_last();
        lemma_steps_distinct(environment_id, plan_id, before);
        assert forall|i: int| 0 <= i < receipts.len() implies {
            &&& (#[trigger] receipts[i]).receipt_id == receipt_id_text(
                environment_id,
                plan_id,
                receipts[i].step_id,
                receipts[i].attempt,
            )
            &&& canonical_text(receipts[i].receipt_id, 256)
            &&& canonical_text(receipts[i].step_id, 256)
            &&& is_digest(receipts[i].result_digest)
        } by {
            if i < before.len() {
                assert(before[i] == receipts[i]);
            }
        }
        assert forall|i: int, j: int| 0 <= i < j < receipts.len() implies (
        #[trigger] receipts[i]).step_id != (#[trigger] receipts[j]).step_id
            && receipts[i].receipt_id != receipts[j].receipt_id by {
            assert(before[i] == receipts[i]);
            if j < before.len() {
                assert(before[j] == receipts[j]);
            }
        }
    }
}

/// The parts of a step receipt that are signed, in order.
pub open spec fn step_fields(receipt: StepReceiptModel) -> Seq<Field> {
    seq![
        Field::Text(receipt.receipt_id),
        Field::Text(receipt.step_id),
        Field::Text(receipt.result_digest),
        Field::Half(receipt.attempt as nat),
        Field::Flag(receipt.succeeded),
    ]
}

/// The parts of step receipts that are signed, in order.
pub open spec fn steps_fields(receipts: Seq<StepReceiptModel>) -> Seq<Field>
    decreases receipts.len(),
{
    if receipts.len() == 0 {
        Seq::<Field>::empty()
    } else {
        steps_fields(receipts.drop_last()) + step_fields(receipts.last())
    }
}

/// The parts of a receipt statement that are signed in front of its steps.
pub open spec fn receipt_head_fields(s: ReceiptModel) -> Seq<Field> {
    seq![
        Field::Text(s.bundle_digest),
        Field::Text(s.tenant_id),
        Field::Text(s.environment_id),
        Field::Text(s.runtime_id),
        Field::Text(s.plan_id),
        Field::Text(s.plan_digest),
        Field::Word(s.generation as nat),
        Field::Flag(s.succeeded),
        Field::Text(s.detail),
        Field::Word(twos_complement(s.completed_at_unix_ms)),
        Field::Word(s.receipts.len()),
    ]
}

/// The bytes of a receipt statement that are signed.
pub open spec fn receipt_bytes(s: ReceiptModel) -> Seq<u8> {
    domain(RECEIPT_DOMAIN@) + encoded(receipt_head_fields(s) + steps_fields(s.receipts))
}

impl ReceiptStatement {
    fn check_head(&self) -> (result: Result<(), Error>)
        ensures
            refusal(result) == receipt_head_refusal(self@),
    {
        match validate_prefixed_digest("bundle digest", self.bundle_digest.as_str()) {
            Err(error) => return Err(error),
            Ok(_) => {},
        }
        match validate_prefixed_digest("plan digest", self.plan_digest.as_str()) {
            Err(error) => return Err(error),
            Ok(_) => {},
        }
        match validate_text("tenant identity", self.tenant_id.as_str(), 256) {
            Err(error) => return Err(error),
            Ok(_) => {},
        }
        match validate_text("environment identity", self.environment_id.as_str(), 256) {
            Err(error) => return Err(error),
            Ok(_) => {},
        }
        match validate_text("runtime identity", self.runtime_id.as_str(), 256) {
            Err(error) => return Err(error),
            Ok(_) => {},
        }
        match validate_text("plan identity", self.plan_id.as_str(), 256) {
            Err(error) => return Err(error),
            Ok(_) => {},
        }
        match validate_text("receipt detail", self.detail.as_str(), 2048) {
            Err(error) => return Err(error),
            Ok(_) => {},
        }
        if self.generation == 0 || self.completed_at_unix_ms <= 0 || self.receipts.len() == 0 {
            return Err(
                Error::fixed(
                    "offline receipt has invalid generation, completion time, or step set",
                ),
            );
        }
        Ok(())
    }

    fn known(&self, at: usize) -> (answer: bool)
        requires
            at < self.receipts@.len(),
        ensures
            answer == receipt_taken(self@.receipts.take(at as int), self@.receipts[at as int]),
    {
        let receipt = &self.receipts[at];
        let ghost earlier = self@.receipts.take(at as int);
        let mut i: usize = 0;
        while i < at
            invariant
                i <= at,
                at < self.receipts@.len(),
                earlier == self@.receipts.take(at as int),
                *receipt == self.receipts@[at as int],
                forall|k: int|
                    0 <= k < i ==> (#[trigger] earlier[k]).receipt_id != receipt@.receipt_id
                        && earlier[k].step_id != receipt@.step_id,
            decreases at - i,
        {
            let other = &self.receipts[i];
            assert(earlier[i as int] == other@);
            if same(&other.receipt_id, &receipt.receipt_id) || same(
                &other.step_id,
                &receipt.step_id,
            ) {
                return true;
            }
            i = i + 1;
        }
        false
    }

    fn check_step(&self, at: usize) -> (result: Result<(), Error>)
        requires
            at < self.receipts@.len(),
        ensures
            refusal(result) == step_refusal(
                self@.environment_id,
                self@.plan_id,
                self@.receipts.take(at as int),
                self@.receipts[at as int],
            ),
    {
        let receipt = &self.receipts[at];
        let ghost models = self@.receipts;
        assert(models[at as int] == receipt@);
        match validate_text("receipt identity", receipt.receipt_id.as_str(), 256) {
            Err(error) => return Err(error),
            Ok(_) => {},
        }
        match validate_text("receipt step identity", receipt.step_id.as_str(), 256) {
            Err(error) => return Err(error),
            Ok(_) => {},
        }
        match validate_prefixed_digest("receipt result digest", receipt.result_digest.as_str()) {
            Err(error) => return Err(error),
            Ok(_) => {},
        }
        let id = offline_receipt_id(
            self.environment_id.as_str(),
            self.plan_id.as_str(),
            receipt.step_id.as_str(),
            receipt.attempt,
        );
        if receipt.attempt == 0 || !same(&receipt.receipt_id, &id) {
            return Err(
                Error::fixed(
                    "offline receipt identity does not match its step mutation identity",
                ),
            );
        }
        if self.known(at) {
            return Err(
                Error::fixed("offline receipt contains duplicate receipt or step identity"),
            );
        }
        Ok(())
    }

    /// Check what the statement says.
    pub fn validate(&self) -> (result: Result<(), Error>)
        ensures
            refusal(result) == receipt_refusal(self@),
    {
        match self.check_head() {
            Err(error) => return Err(error),
            Ok(_) => {},
        }
        let ghost models = self@.receipts;
        let mut i: usize = 0;
        let mut failed = false;
        assert(models.take(0) =~= Seq::<StepReceiptModel>::empty());
        while i < self.receipts.len()
            invariant
                i <= self.receipts.len(),
                models == self@.receipts,
                receipt_head_refusal(self@) is None,
                steps_refusal(self@.environment_id, self@.plan_id, models.take(i as int)) is None,
                failed == any_failed(models.take(i as int)),
            decreases self.receipts.len() - i,
        {
            let ghost before = models.take(i as int);
            let ghost now = models.take(i + 1);
            assert(models[i as int] == self.receipts@[i as int]@);
            assert(now.drop_last() =~= before);
            assert(now.last() == models[i as int]);
            match self.check_step(i) {
                Err(error) => {
                    proof {
                        lemma_steps_stop(self@.environment_id, self@.plan_id, models, i as int);
                    }
                    return Err(error);
                },
                Ok(_) => {},
            }
            proof {
                if failed {
                    let k = choose|k: int|
                        0 <= k < before.len() && !(#[trigger] before[k]).succeeded;
                    assert(now[k] == before[k]);
                }
                if any_failed(now) {
                    let k = choose|k: int| 0 <= k < now.len() && !(#[trigger] now[k]).succeeded;
                    if k < before.len() {
                        assert(before[k] == now[k]);
                    }
                }
                assert(now[i as int] == models[i as int]);
            }
            if !self.receipts[i].succeeded {
                failed = true;
            }
            i = i + 1;
        }
        assert(models.take(i as int) =~= models);
        if self.succeeded && failed {
            return Err(
                Error::fixed("successful offline completion contains a failed step receipt"),
            );
        }
        Ok(())
    }

    /// The bytes that are signed.
    pub fn canonical_bytes(&self) -> (result: Result<Vec<u8>, Error>)
        ensures
            refusal(result) == receipt_refusal(self@),
            result matches Ok(bytes) ==> bytes@ == receipt_bytes(self@),
    {
        match self.validate() {
            Err(error) => return Err(error),
            Ok(_) => {},
        }
        let ghost s = self@;
        let mut parts = Statement::new();
        parts.text(self.bundle_digest.as_str());
        parts.text(self.tenant_id.as_str());
        parts.text(self.environment_id.as_str());
        parts.text(self.runtime_id.as_str());
        parts.text(self.plan_id.as_str());
        parts.text(self.plan_digest.as_str());
        parts.word(self.generation);
        parts.flag(self.succeeded);
        parts.text(self.detail.as_str());
        parts.signed(self.completed_at_unix_ms);
        parts.word(self.receipts.len() as u64);
        assert(parts@ =~= receipt_head_fields(s));
        let mut i: usize = 0;
        assert(s.receipts.take(0) =~= Seq::<StepReceiptModel>::empty());
        assert(parts@ =~= receipt_head_fields(s) + steps_fields(s.receipts.take(0)));
        while i < self.receipts.len()
            invariant
                i <= self.receipts.len(),
                s == self@,
                parts.valid(),
                parts@ == receipt_head_fields(s) + steps_fields(s.receipts.take(i as int)),
            decreases self.receipts.len() - i,
        {
            let receipt = &self.receipts[i];
            parts.text(receipt.receipt_id.as_str());
            parts.text(receipt.step_id.as_str());
            parts.text(receipt.result_digest.as_str());
            parts.half(receipt.attempt);
            parts.flag(receipt.succeeded);
            assert(s.receipts[i as int] == receipt@);
            assert(s.receipts.take(i + 1).drop_last() =~= s.receipts.take(i as int));
            assert(s.receipts.take(i + 1).last() == receipt@);
            i = i + 1;
            assert(parts@ =~= receipt_head_fields(s) + steps_fields(s.receipts.take(i as int)));
        }
        assert(s.receipts.take(i as int) =~= s.receipts);
        Ok(parts.in_domain(RECEIPT_DOMAIN))
    }
}

fn copy_receipts(list: &Vec<OfflineStepReceipt>) -> (copy: Vec<OfflineStepReceipt>)
    ensures
        receipt_models(copy@) == receipt_models(list@),
{
    let mut copy: Vec<OfflineStepReceipt> = Vec::new();
    let mut i: usize = 0;
    while i < list.len()
        invariant
            i <= list.len(),
            copy@.len() == i,
            forall|k: int| 0 <= k < i ==> (#[trigger] copy@[k])@ == list@[k]@,
        decreases list.len() - i,
    {
        let item = &list[i];
        copy.push(
            OfflineStepReceipt {
                receipt_id: item.receipt_id.clone(),
                step_id: item.step_id.clone(),
                attempt: item.attempt,
                succeeded: item.succeeded,
                result_digest: item.result_digest.clone(),
            },
        );
        i = i + 1;
    }
    assert(receipt_models(copy@) =~= receipt_models(list@));
    copy
}

/// A copy of a receipt statement.
pub fn copy_receipt(statement: &ReceiptStatement) -> (copy: ReceiptStatement)
    ensures
        copy@ == statement@,
{
    ReceiptStatement {
        bundle_digest: statement.bundle_digest.clone(),
        tenant_id: statement.tenant_id.clone(),
        environment_id: statement.environment_id.clone(),
        runtime_id: statement.runtime_id.clone(),
        plan_id: statement.plan_id.clone(),
        plan_digest: statement.plan_digest.clone(),
        generation: statement.generation,
        succeeded: statement.succeeded,
        detail: statement.detail.clone(),
        completed_at_unix_ms: statement.completed_at_unix_ms,
        receipts: copy_receipts(&statement.receipts),
    }
}

/// A receipt reports on the bundle and plan that were verified.
pub open spec fn receipt_binds(s: ReceiptModel, digest: Seq<char>, bundle: BundleModel) -> bool {
    &&& s.bundle_digest == digest
    &&& s.tenant_id == bundle.tenant_id
    &&& s.environment_id == bundle.environment_id
    &&& s.plan_id == bundle.plan_id
    &&& s.plan_digest == bundle.plan_digest
}

/// Why a receipt is not accepted.
pub open spec fn receipt_envelope_refusal(
    envelope: ReceiptEnvelopeModel,
    version: u32,
    signers: Seq<SignerModel>,
    scope: ScopeModel,
    digest: Seq<char>,
    bundle: BundleModel,
    now_unix_ms: i64,
) -> Option<Seq<char>> {
    let s = envelope.statement;
    let roots = roots_refusal("release"@, version, signers);
    let signer = signer_with(signers, envelope.key_id);
    let invalid = receipt_refusal(s);
    let decoding = exact_refusal("Ed25519 signature"@, envelope.signature, 64, "64"@);
    if envelope.schema != RECEIPT_SCHEMA@ {
        Some("unsupported offline receipt schema "@ + envelope.schema)
    } else if s.tenant_id != scope.tenant_id || s.environment_id != scope.environment_id
        || s.runtime_id != scope.runtime_id || envelope.key_id != scope.key_id {
        Some("offline receipt signer is outside its configured runtime trust scope"@)
    } else if !receipt_binds(s, digest, bundle) {
        Some("offline receipt does not bind to the verified bundle"@)
    } else if s.completed_at_unix_ms < bundle.issued_at_unix_ms || s.completed_at_unix_ms
        >= bundle.expires_at_unix_ms || s.completed_at_unix_ms > now_unix_ms {
        Some("offline receipt completion time is invalid"@)
    } else if roots is Some {
        roots
    } else if signer is None {
        Some("offline signer "@ + envelope.key_id + " is not currently trusted"@)
    } else if invalid is Some {
        invalid
    } else if decoding is Some {
        decoding
    } else if !ed25519_accepts(
        base64_message(signer->0.public_key)->0,
        receipt_bytes(s),
        base64_message(envelope.signature)->0,
    ) {
        Some("offline receipt signature verification failed"@)
    } else {
        None
    }
}

impl ReceiptEnvelope {
    /// Sign a receipt.
    pub fn create(statement: ReceiptStatement, signing_key: &SigningKey) -> (result: Result<
        ReceiptEnvelope,
        Error,
    >)
        ensures
            ({
                let signature = ed25519_signature(signing_key@, receipt_bytes(statement@));
                &&& refusal(result) == receipt_refusal(statement@)
                &&& result matches Ok(envelope) ==> {
                    &&& envelope@.schema == RECEIPT_SCHEMA@
                    &&& envelope@.key_id == prefixed_digest(ed25519_public(signing_key@))
                    &&& envelope@.statement == statement@
                    &&& envelope@.signature == base64_text(signature)
                    &&& base64_message(envelope@.signature) == Some(signature)
                }
            }),
    {
        let message = match statement.canonical_bytes() {
            Err(error) => return Err(error),
            Ok(bytes) => bytes,
        };
        let signature = signing_key.sign(message.as_slice());
        Ok(
            ReceiptEnvelope {
                schema: RECEIPT_SCHEMA.to_owned(),
                key_id: key_id(signing_key.public_key().as_slice()),
                statement,
                signature: base64_encode(signature.as_slice()),
            },
        )
    }

    /// Verify a receipt against the runtime that it must come from and the
    /// bundle that it must report on.
    pub fn verify(
        &self,
        roots: &TrustRoots,
        scope: &ReceiptTrustScope,
        bundle: &VerifiedBundle,
        now_unix_ms: i64,
    ) -> (result: Result<VerifiedReceipt, Error>)
        ensures
            refusal(result) == receipt_envelope_refusal(
                self@,
                roots.version,
                signer_models(roots.signers@),
                scope@,
                bundle.digest_text(),
                bundle.said(),
                now_unix_ms,
            ),
            result matches Ok(verified) ==> {
                &&& verified.signer_text() == signer_with(
                    signer_models(roots.signers@),
                    self@.key_id,
                )->0.identity
                &&& verified.said() == self@.statement
            },
    {
        if !same(&self.schema, RECEIPT_SCHEMA) {
            let mut message = "unsupported offline receipt schema ".to_owned();
            message.append(self.schema.as_str());
            return Err(Error::new(message));
        }
        if !same(&self.statement.tenant_id, &scope.tenant_id) || !same(
            &self.statement.environment_id,
            &scope.environment_id,
        ) || !same(&self.statement.runtime_id, &scope.runtime_id) || !same(
            &self.key_id,
            &scope.key_id,
        ) {
            return Err(
                Error::fixed(
                    "offline receipt signer is outside its configured runtime trust scope",
                ),
            );
        }
        let target = bundle.statement();
        if !same(&self.statement.bundle_digest, bundle.digest()) || !same(
            &self.statement.tenant_id,
            &target.tenant_id,
        ) || !same(&self.statement.environment_id, &target.environment_id) || !same(
            &self.statement.plan_id,
            &target.plan_id,
        ) || !same(&self.statement.plan_digest, &target.plan_digest) {
            return Err(Error::fixed("offline receipt does not bind to the verified bundle"));
        }
        if self.statement.completed_at_unix_ms < target.issued_at_unix_ms
            || self.statement.completed_at_unix_ms >= target.expires_at_unix_ms
            || self.statement.completed_at_unix_ms > now_unix_ms {
            return Err(Error::fixed("offline receipt completion time is invalid"));
        }
        let (identity, key) = match verifying_key(roots, self.key_id.as_str()) {
            Err(error) => return Err(error),
            Ok(pair) => pair,
        };
        let message = match self.statement.canonical_bytes() {
            Err(error) => return Err(error),
            Ok(bytes) => bytes,
        };
        let signature = match decode_signature("Ed25519 signature", self.signature.as_str()) {
            Err(error) => return Err(error),
            Ok(bytes) => bytes,
        };
        if !accepts(&key, message.as_slice(), &signature) {
            return Err(Error::fixed("offline receipt signature verification failed"));
        }
        Ok(
            VerifiedReceipt {
                signer_identity: identity.clone(),
                statement: copy_receipt(&self.statement),
            },
        )
    }
}

/// A step receipt as a connected runtime would report it.
pub open spec fn runtime_step(receipt: StepReceiptModel) -> RuntimeStepModel {
    RuntimeStepModel {
        step_id: receipt.step_id,
        succeeded: receipt.succeeded,
        detail: "offline receipt "@ + receipt.receipt_id + " result "@ + receipt.result_digest,
    }
}

/// A receipt as the completion that a connected runtime would report.
pub open spec fn completion_of(s: ReceiptModel) -> CompletionModel {
    CompletionModel {
        plan_id: s.plan_id,
        generation: s.generation,
        succeeded: s.succeeded,
        detail: s.detail,
        receipts: s.receipts.map_values(|receipt: StepReceiptModel| runtime_step(receipt)),
    }
}

/// The import record of a step.
pub open spec fn step_import(s: ReceiptModel, receipt: StepReceiptModel) -> StepImportModel {
    StepImportModel {
        receipt_id: receipt.receipt_id,
        environment_id: s.environment_id,
        plan_id: s.plan_id,
        step_id: receipt.step_id,
        attempt: receipt.attempt,
        result_digest: receipt.result_digest,
        succeeded: receipt.succeeded,
    }
}

impl VerifiedReceipt {
    /// The identity of its signer.
    pub closed spec fn signer_text(self) -> Seq<char> {
        self.signer_identity@
    }

    /// What its statement says.
    pub closed spec fn said(self) -> ReceiptModel {
        self.statement@
    }

    /// The identity of its signer.
    pub fn signer_identity(&self) -> (identity: &str)
        ensures
            identity@ == self.signer_text(),
    {
        self.signer_identity.as_str()
    }

    /// Its statement.
    pub fn statement(&self) -> (statement: &ReceiptStatement)
        ensures
            statement@ == self.said(),
    {
        &self.statement
    }

    /// Adapt the receipt to the completion contract of connected runtimes.
    pub fn runtime_completion(&self) -> (completion: RuntimeCompletion)
        ensures
            completion@ == completion_of(self.said()),
    {
        let mut receipts: Vec<RuntimeStepReceipt> = Vec::new();
        let mut i: usize = 0;
        while i < self.statement.receipts.len()
            invariant
                i <= self.statement.receipts.len(),
                receipts@.len() == i,
                forall|k: int|
                    0 <= k < i ==> (#[trigger] receipts@[k])@ == runtime_step(
                        self.statement.receipts@[k]@,
                    ),
            decreases self.statement.receipts.len() - i,
        {
            let receipt = &self.statement.receipts[i];
            let mut detail = "offline receipt ".to_owned();
            detail.append(receipt.receipt_id.as_str());
            detail.append(" result ");
            detail.append(receipt.result_digest.as_str());
            receipts.push(
                RuntimeStepReceipt {
                    step_id: receipt.step_id.clone(),
                    succeeded: receipt.succeeded,
                    detail,
                },
            );
            i = i + 1;
        }
        let completion = RuntimeCompletion {
            plan_id: self.statement.plan_id.clone(),
            generation: self.statement.generation,
            succeeded: self.statement.succeeded,
            detail: self.statement.detail.clone(),
            receipts,
        };
        assert(completion@.receipts =~= completion_of(self.said()).receipts);
        completion
    }

    /// The records of an import. `receipt_json` is the serialized statement.
    pub fn import_records(&self, receipt_json: String) -> (records: (
        OfflineImportRecord,
        Vec<OfflineStepImportRecord>,
    ))
        ensures
            records.0@ == (ImportModel {
                bundle_digest: self.said().bundle_digest,
                environment_id: self.said().environment_id,
                plan_id: self.said().plan_id,
                receipt_json: receipt_json@,
            }),
            records.1@.len() == self.said().receipts.len(),
            forall|i: int|
                0 <= i < records.1@.len() ==> (#[trigger] records.1@[i])@ == step_import(
                    self.said(),
                    self.said().receipts[i],
                ),
    {
        let statement = &self.statement;
        let record = OfflineImportRecord {
            bundle_digest: statement.bundle_digest.clone(),
            environment_id: statement.environment_id.clone(),
            plan_id: statement.plan_id.clone(),
            receipt_json,
        };
        let mut steps: Vec<OfflineStepImportRecord> = Vec::new();
        let mut i: usize = 0;
        while i < statement.receipts.len()
            invariant
                i <= statement.receipts.len(),
                *statement == self.statement,
                steps@.len() == i,
                forall|k: int|
                    0 <= k < i ==> (#[trigger] steps@[k])@ == step_import(
                        self.said(),
                        self.said().receipts[k],
                    ),
            decreases statement.receipts.len() - i,
        {
            let step = &statement.receipts[i];
            assert(self.said().receipts[i as int] == step@);
            steps.push(
                OfflineStepImportRecord {
                    receipt_id: step.receipt_id.clone(),
                    environment_id: statement.environment_id.clone(),
                    plan_id: statement.plan_id.clone(),
                    step_id: step.step_id.clone(),
                    attempt: step.attempt,
                    result_digest: step.result_digest.clone(),
                    succeeded: step.succeeded,
                },
            );
            i = i + 1;
        }
        (record, steps)
    }
}

proof fn lemma_steps_fields_length(a: Seq<StepReceiptModel>)
    ensures
        steps_fields(a).len() == 5 * a.len(),
    decreases a.len(),
{
    if a.len() > 0 {
        lemma_steps_fields_length(a.drop_last());
    }
}

proof fn lemma_steps_range(
    environment_id: Seq<char>,
    plan_id: Seq<char>,
    a: Seq<StepReceiptModel>,
    i: int,
)
    requires
        steps_refusal(environment_id, plan_id, a) is None,
        0 <= i < steps_fields(a).len(),
    ensures
        steps_fields(a)[i].in_range(),
        i % 5 == 0 || i % 5 == 1 || i % 5 == 2 ==> steps_fields(a)[i] is Text,
        i % 5 == 3 ==> steps_fields(a)[i] is Half,
        i % 5 == 4 ==> steps_fields(a)[i] is Flag,
    decreases a.len(),
{
    if a.len() > 0 {
        let before = steps_fields(a.drop_last());
        lemma_steps_fields_length(a.drop_last());
        lemma_digest_frameable(a.last().result_digest);
        if i < before.len() {
            lemma_steps_range(environment_id, plan_id, a.drop_last(), i);
            assert(steps_fields(a)[i] == before[i]);
        } else {
            assert(steps_fields(a)[i] == step_fields(a.last())[i - before.len()]);
        }
    }
}

proof fn lemma_steps_injective(a: Seq<StepReceiptModel>, b: Seq<StepReceiptModel>)
    requires
        a.len() == b.len(),
        steps_fields(a) == steps_fields(b),
    ensures
        a == b,
    decreases a.len(),
{
    if a.len() > 0 {
        let fa = steps_fields(a);
        let fb = steps_fields(b);
        let pa = steps_fields(a.drop_last());
        let pb = steps_fields(b.drop_last());
        lemma_steps_fields_length(a.drop_last());
        lemma_steps_fields_length(b.drop_last());
        assert(pa =~= fa.take(pa.len() as int));
        assert(pb =~= fb.take(pb.len() as int));
        lemma_steps_injective(a.drop_last(), b.drop_last());
        let n = pa.len() as int;
        assert forall|k: int| 0 <= k < 5 implies (#[trigger] step_fields(a.last())[k])
            == step_fields(b.last())[k] by {
            assert(fa[n + k] == step_fields(a.last())[k]);
            assert(fb[n + k] == step_fields(b.last())[k]);
        }
        assert(step_fields(a.last())[0] == step_fields(b.last())[0]);
        assert(step_fields(a.last())[1] == step_fields(b.last())[1]);
        assert(step_fields(a.last())[2] == step_fields(b.last())[2]);
        assert(step_fields(a.last())[3] == step_fields(b.last())[3]);
        assert(step_fields(a.last())[4] == step_fields(b.last())[4]);
        assert(a.last() == b.last());
        assert(a =~= a.drop_last().push(a.last()));
        assert(b =~= b.drop_last().push(b.last()));
    } else {
        assert(a =~= b);
    }
}

proof fn lemma_receipt_head_range(s: ReceiptModel)
    requires
        receipt_head_refusal(s) is None,
        s.receipts.len() < 0x1_0000_0000_0000_0000,
    ensures
        forall|i: int| 0 <= i < 11 ==> (#[trigger] receipt_head_fields(s)[i]).in_range(),
{
    lemma_digest_frameable(s.bundle_digest);
    lemma_digest_frameable(s.plan_digest);
    lemma_twos_complement_injective(s.completed_at_unix_ms, s.completed_at_unix_ms);
}

proof fn lemma_receipt_heads(a: ReceiptModel, b: ReceiptModel)
    requires
        receipt_head_fields(a) == receipt_head_fields(b),
        a.receipts == b.receipts,
    ensures
        a == b,
{
    let ha = receipt_head_fields(a);
    let hb = receipt_head_fields(b);
    assert(ha[0] == hb[0]);
    assert(ha[1] == hb[1]);
    assert(ha[2] == hb[2]);
    assert(ha[3] == hb[3]);
    assert(ha[4] == hb[4]);
    assert(ha[5] == hb[5]);
    assert(ha[6] == hb[6]);
    assert(ha[7] == hb[7]);
    assert(ha[8] == hb[8]);
    assert(ha[9] == hb[9]);
    lemma_twos_complement_injective(a.completed_at_unix_ms, b.completed_at_unix_ms);
}

proof fn lemma_receipt_steps(a: ReceiptModel, b: ReceiptModel)
    requires
        receipt_refusal(a) is None,
        receipt_refusal(b) is None,
        a.receipts.len() == b.receipts.len(),
        encoded(steps_fields(a.receipts)) == encoded(steps_fields(b.receipts)),
    ensures
        a.receipts == b.receipts,
{
    let sa = steps_fields(a.receipts);
    let sb = steps_fields(b.receipts);
    lemma_steps_fields_length(a.receipts);
    lemma_steps_fields_length(b.receipts);
    assert forall|i: int| 0 <= i < sa.len() implies (#[trigger] sa[i]).alike(sb[i])
        && sa[i].in_range() by {
        lemma_steps_range(a.environment_id, a.plan_id, a.receipts, i);
        lemma_steps_range(b.environment_id, b.plan_id, b.receipts, i);
    }
    assert forall|i: int| 0 <= i < sb.len() implies (#[trigger] sb[i]).in_range() by {
        lemma_steps_range(b.environment_id, b.plan_id, b.receipts, i);
    }
    let e = Seq::<u8>::empty();
    assert(e + encoded(sa) + e =~= encoded(sa));
    assert(e + encoded(sb) + e =~= encoded(sb));
    lemma_fields_cancel(e, sa, sb, e, e);
    lemma_steps_injective(a.receipts, b.receipts);
}

/// The signed bytes determine the receipt: nothing that a runtime reports can
/// change without changing them.
#[verifier::spinoff_prover]
pub proof fn signed_bytes_bind_the_receipt(a: ReceiptModel, b: ReceiptModel)
    requires
        receipt_refusal(a) is None,
        receipt_refusal(b) is None,
        a.receipts.len() < 0x1_0000_0000_0000_0000,
        b.receipts.len() < 0x1_0000_0000_0000_0000,
        receipt_bytes(a) == receipt_bytes(b),
    ensures
        a == b,
{
    let d = domain(RECEIPT_DOMAIN@);
    let ha = receipt_head_fields(a);
    let hb = receipt_head_fields(b);
    let sa = steps_fields(a.receipts);
    let sb = steps_fields(b.receipts);
    lemma_encoded_add(ha, sa);
    lemma_encoded_add(hb, sb);
    assert(receipt_bytes(a) =~= d + encoded(ha) + encoded(sa));
    assert(receipt_bytes(b) =~= d + encoded(hb) + encoded(sb));
    lemma_receipt_head_range(a);
    lemma_receipt_head_range(b);
    assert(same_shape(ha, hb));
    lemma_fields_cancel(d, ha, hb, encoded(sa), encoded(sb));
    assert(ha[10] == hb[10]);
    lemma_receipt_steps(a, b);
    lemma_receipt_heads(a, b);
}

/// A receipt that was accepted reports on the bundle that was verified: its
/// digest, its tenant and environment, and its plan.
pub proof fn accepted_receipt_reports_on_the_bundle(
    envelope: ReceiptEnvelopeModel,
    version: u32,
    signers: Seq<SignerModel>,
    scope: ScopeModel,
    digest: Seq<char>,
    bundle: BundleModel,
    now_unix_ms: i64,
)
    requires
        receipt_envelope_refusal(envelope, version, signers, scope, digest, bundle, now_unix_ms) is None,
    ensures
        receipt_binds(envelope.statement, digest, bundle),
        envelope.key_id == scope.key_id,
        envelope.statement.runtime_id == scope.runtime_id,
        bundle.issued_at_unix_ms <= envelope.statement.completed_at_unix_ms
            < bundle.expires_at_unix_ms,
        receipt_refusal(envelope.statement) is None,
{
}

/// The completion that a connected runtime would report says what the signed
/// statement says: the same plan, generation, success and detail, and step by
/// step the same identities and successes in the same order.
pub proof fn completion_mirrors_the_statement(
    verified: &VerifiedReceipt,
    completion: RuntimeCompletion,
)
    requires
        call_ensures(VerifiedReceipt::runtime_completion, (verified,), completion),
    ensures
        completion.plan_id@ == verified.said().plan_id,
        completion.generation == verified.said().generation,
        completion.succeeded == verified.said().succeeded,
        completion.detail@ == verified.said().detail,
        completion.receipts@.len() == verified.said().receipts.len(),
        forall|i: int|
            0 <= i < completion.receipts@.len() ==> {
                &&& (#[trigger] completion.receipts@[i]).step_id@
                    == verified.said().receipts[i].step_id
                &&& completion.receipts@[i].succeeded == verified.said().receipts[i].succeeded
            },
{
    assert(completion@.receipts.len() == completion.receipts@.len());
    assert forall|i: int| 0 <= i < completion.receipts@.len() implies {
        &&& (#[trigger] completion.receipts@[i]).step_id@ == verified.said().receipts[i].step_id
        &&& completion.receipts@[i].succeeded == verified.said().receipts[i].succeeded
    } by {
        assert(completion@.receipts[i] == completion.receipts@[i]@);
    }
}

/// The records of an import name the bundle, environment and plan of the signed
/// statement, and hold each of its step receipts in order.
pub proof fn import_records_mirror_the_statement(
    verified: &VerifiedReceipt,
    receipt_json: String,
    records: (OfflineImportRecord, Vec<OfflineStepImportRecord>),
)
    requires
        call_ensures(VerifiedReceipt::import_records, (verified, receipt_json), records),
    ensures
        records.0.bundle_digest@ == verified.said().bundle_digest,
        records.0.environment_id@ == verified.said().environment_id,
        records.0.plan_id@ == verified.said().plan_id,
        records.0.receipt_json@ == receipt_json@,
        records.1@.len() == verified.said().receipts.len(),
        forall|i: int|
            0 <= i < records.1@.len() ==> {
                let receipt = verified.said().receipts[i];
                &&& (#[trigger] records.1@[i]).receipt_id@ == receipt.receipt_id
                &&& records.1@[i].step_id@ == receipt.step_id
                &&& records.1@[i].attempt == receipt.attempt
                &&& records.1@[i].result_digest@ == receipt.result_digest
                &&& records.1@[i].succeeded == receipt.succeeded
                &&& records.1@[i].environment_id@ == verified.said().environment_id
                &&& records.1@[i].plan_id@ == verified.said().plan_id
            },
{
}

/// What is asked of the receipt of a step: canonical identities, the digest of a
/// result, and the identity of its own attempt, which counts from one.
pub open spec fn sound_step(
    environment_id: Seq<char>,
    plan_id: Seq<char>,
    receipt: StepReceiptModel,
) -> bool {
    &&& canonical_text(receipt.receipt_id, 256)
    &&& canonical_text(receipt.step_id, 256)
    &&& is_digest(receipt.result_digest)
    &&& receipt.attempt > 0
    &&& receipt.receipt_id == receipt_id_text(
        environment_id,
        plan_id,
        receipt.step_id,
        receipt.attempt,
    )
}

proof fn lemma_steps_sound(
    environment_id: Seq<char>,
    plan_id: Seq<char>,
    receipts: Seq<StepReceiptModel>,
)
    ensures
        steps_refusal(environment_id, plan_id, receipts) is None <==> {
            &&& forall|i: int|
                0 <= i < receipts.len() ==> sound_step(
                    environment_id,
                    plan_id,
                    #[trigger] receipts[i],
                )
            &&& forall|i: int, j: int|
                0 <= i < j < receipts.len() ==> (#[trigger] receipts[i]).step_id != (
                #[trigger] receipts[j]).step_id && receipts[i].receipt_id
                    != receipts[j].receipt_id
        },
    decreases receipts.len(),
{
    if receipts.len() > 0 {
        let front = receipts.drop_last();
        let last = receipts.len() - 1;
        lemma_steps_sound(environment_id, plan_id, front);
        assert(forall|i: int| 0 <= i < last ==> front[i] == receipts[i]);
        if steps_refusal(environment_id, plan_id, receipts) is None {
            assert forall|i: int| 0 <= i < receipts.len() implies sound_step(
                environment_id,
                plan_id,
                #[trigger] receipts[i],
            ) by {
                if i < last {
                    assert(sound_step(environment_id, plan_id, front[i]));
                }
            }
            assert forall|i: int, j: int| 0 <= i < j < receipts.len() implies (
            #[trigger] receipts[i]).step_id != (#[trigger] receipts[j]).step_id
                && receipts[i].receipt_id != receipts[j].receipt_id by {
                if j < last {
                    assert(front[i].step_id != front[j].step_id && front[i].receipt_id
                        != front[j].receipt_id);
                } else {
                    assert(front[i] == receipts[i]);
                    assert(!receipt_taken(front, receipts[last]));
                }
            }
        }
        if (forall|i: int|
            0 <= i < receipts.len() ==> sound_step(
                environment_id,
                plan_id,
                #[trigger] receipts[i],
            )) && (forall|i: int, j: int|
            0 <= i < j < receipts.len() ==> (#[trigger] receipts[i]).step_id != (
            #[trigger] receipts[j]).step_id && receipts[i].receipt_id != receipts[j].receipt_id) {
            assert forall|i: int, j: int| 0 <= i < j < front.len() implies (
            #[trigger] front[i]).step_id != (#[trigger] front[j]).step_id && front[i].receipt_id
                != front[j].receipt_id by {
                assert(receipts[i].step_id != receipts[j].step_id);
            }
            assert(sound_step(environment_id, plan_id, receipts[last]));
            if receipt_taken(front, receipts[last]) {
                let i = choose|i: int|
                    0 <= i < front.len() && ((#[trigger] front[i]).receipt_id
                        == receipts[last].receipt_id || front[i].step_id
                        == receipts[last].step_id);
                assert(receipts[i] == front[i]);
                assert(receipts[i].step_id != receipts[last].step_id);
            }
        }
    }
}

/// A receipt statement is valid if and only if its digests and identities are in
/// canonical form, it has a generation, a time of completion and at least one
/// step, each step receipt is sound, no two are for one step, and a success has
/// no failed step.
pub proof fn valid_receipts(statement: &ReceiptStatement, result: Result<(), Error>)
    requires
        call_ensures(ReceiptStatement::validate, (statement,), result),
    ensures
        result is Ok <==> {
            let s = statement@;
            &&& is_digest(s.bundle_digest)
            &&& is_digest(s.plan_digest)
            &&& canonical_text(s.tenant_id, 256)
            &&& canonical_text(s.environment_id, 256)
            &&& canonical_text(s.runtime_id, 256)
            &&& canonical_text(s.plan_id, 256)
            &&& canonical_text(s.detail, 2048)
            &&& s.generation > 0
            &&& s.completed_at_unix_ms > 0
            &&& s.receipts.len() > 0
            &&& forall|i: int|
                0 <= i < s.receipts.len() ==> sound_step(
                    s.environment_id,
                    s.plan_id,
                    #[trigger] s.receipts[i],
                )
            &&& forall|i: int, j: int|
                0 <= i < j < s.receipts.len() ==> (#[trigger] s.receipts[i]).step_id != (
                #[trigger] s.receipts[j]).step_id && s.receipts[i].receipt_id
                    != s.receipts[j].receipt_id
            &&& s.succeeded ==> forall|i: int|
                0 <= i < s.receipts.len() ==> (#[trigger] s.receipts[i]).succeeded
        },
{
    let s = statement@;
    lemma_steps_sound(s.environment_id, s.plan_id, s.receipts);
}

/// A receipt is accepted if and only if it is of the known schema, comes from
/// the runtime and the key of the scope, reports on the verified bundle, was
/// completed in the time of the bundle and not in the future, is valid, and is
/// signed by a trusted key. What was accepted is what was signed.
pub proof fn accepted_receipts(
    envelope: &ReceiptEnvelope,
    roots: &TrustRoots,
    scope: &ReceiptTrustScope,
    bundle: &VerifiedBundle,
    now_unix_ms: i64,
    result: Result<VerifiedReceipt, Error>,
)
    requires
        call_ensures(ReceiptEnvelope::verify, (envelope, roots, scope, bundle, now_unix_ms), result),
    ensures
        result is Ok <==> {
            let s = envelope@.statement;
            let signer = signer_with(signer_models(roots.signers@), envelope.key_id@);
            &&& envelope.schema@ == RECEIPT_SCHEMA@
            &&& s.tenant_id == scope.tenant_id@
            &&& s.environment_id == scope.environment_id@
            &&& s.runtime_id == scope.runtime_id@
            &&& envelope.key_id@ == scope.key_id@
            &&& s.bundle_digest == bundle.digest_text()
            &&& s.tenant_id == bundle.said().tenant_id
            &&& s.environment_id == bundle.said().environment_id
            &&& s.plan_id == bundle.said().plan_id
            &&& s.plan_digest == bundle.said().plan_digest
            &&& bundle.said().issued_at_unix_ms <= s.completed_at_unix_ms
                < bundle.said().expires_at_unix_ms
            &&& s.completed_at_unix_ms <= now_unix_ms
            &&& roots_refusal("release"@, roots.version, signer_models(roots.signers@)) is None
            &&& signer is Some
            &&& receipt_refusal(s) is None
            &&& base64_message(envelope.signature@) matches Some(signature) && signature.len() == 64
                && ed25519_accepts(
                base64_message(signer->0.public_key)->0,
                receipt_bytes(s),
                signature,
            )
        },
        result matches Ok(verified) ==> verified.said() == envelope@.statement
            && verified.signer_text() == signer_with(
            signer_models(roots.signers@),
            envelope.key_id@,
        )->0.identity,
{
}

/// What a runtime signed arrives as the completion of its plan: its success and
/// that of each step, in order.
pub proof fn signed_outcome_arrives(
    envelope: &ReceiptEnvelope,
    roots: &TrustRoots,
    scope: &ReceiptTrustScope,
    bundle: &VerifiedBundle,
    now_unix_ms: i64,
    verified: VerifiedReceipt,
    completion: RuntimeCompletion,
)
    requires
        call_ensures(
            ReceiptEnvelope::verify,
            (envelope, roots, scope, bundle, now_unix_ms),
            Ok::<VerifiedReceipt, Error>(verified),
        ),
        call_ensures(VerifiedReceipt::runtime_completion, (&verified,), completion),
    ensures
        completion.succeeded == envelope.statement.succeeded,
        completion.plan_id@ == bundle.said().plan_id,
        completion.generation == envelope.statement.generation,
        completion.receipts@.len() == envelope.statement.receipts@.len(),
        forall|i: int|
            0 <= i < completion.receipts@.len() ==> {
                &&& (#[trigger] completion.receipts@[i]).step_id@
                    == envelope.statement.receipts@[i].step_id@
                &&& completion.receipts@[i].succeeded == envelope.statement.receipts@[i].succeeded
            },
{
    completion_mirrors_the_statement(&verified, completion);
    let signed = envelope.statement.receipts@;
    assert(receipt_models(signed).len() == signed.len());
    assert forall|i: int| 0 <= i < completion.receipts@.len() implies {
        &&& (#[trigger] completion.receipts@[i]).step_id@ == signed[i].step_id@
        &&& completion.receipts@[i].succeeded == signed[i].succeeded
    } by {
        assert(receipt_models(signed)[i] == signed[i]@);
    }
}

/// A signed receipt carries its statement unchanged, under the identity of the
/// key that signed it, if the statement is valid.
pub proof fn signed_receipts_carry_their_statement(
    statement: ReceiptStatement,
    signing_key: &SigningKey,
    result: Result<ReceiptEnvelope, Error>,
)
    requires
        call_ensures(ReceiptEnvelope::create, (statement, signing_key), result),
    ensures
        result is Ok <==> receipt_refusal(statement@) is None,
        result matches Ok(envelope) ==> {
            &&& envelope.schema@ == RECEIPT_SCHEMA@
            &&& envelope.statement@ == statement@
            &&& envelope.key_id@ == prefixed_digest(ed25519_public(signing_key@))
            &&& base64_message(envelope.signature@) == Some(
                ed25519_signature(signing_key@, receipt_bytes(statement@)),
            )
        },
{
}

} // verus!
