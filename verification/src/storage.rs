//! Records that the operational store keeps.
use vstd::prelude::*;

verus! {

/// The import of an offline receipt.
#[derive(Debug, PartialEq, Eq)]
pub struct OfflineImportRecord {
    pub bundle_digest: String,
    pub environment_id: String,
    pub plan_id: String,
    pub receipt_json: String,
}

/// What an import record says.
pub struct ImportModel {
    pub bundle_digest: Seq<char>,
    pub environment_id: Seq<char>,
    pub plan_id: Seq<char>,
    pub receipt_json: Seq<char>,
}

impl View for OfflineImportRecord {
    type V = ImportModel;

    open spec fn view(&self) -> ImportModel {
        ImportModel {
            bundle_digest: self.bundle_digest@,
            environment_id: self.environment_id@,
            plan_id: self.plan_id@,
            receipt_json: self.receipt_json@,
        }
    }
}

/// The import of one step of an offline receipt.
#[derive(Debug, PartialEq, Eq)]
pub struct OfflineStepImportRecord {
    pub receipt_id: String,
    pub environment_id: String,
    pub plan_id: String,
    pub step_id: String,
    pub attempt: u32,
    pub result_digest: String,
    pub succeeded: bool,
}

/// What a step import record says.
pub struct StepImportModel {
    pub receipt_id: Seq<char>,
    pub environment_id: Seq<char>,
    pub plan_id: Seq<char>,
    pub step_id: Seq<char>,
    pub attempt: u32,
    pub result_digest: Seq<char>,
    pub succeeded: bool,
}

impl View for OfflineStepImportRecord {
    type V = StepImportModel;

    open spec fn view(&self) -> StepImportModel {
        StepImportModel {
            receipt_id: self.receipt_id@,
            environment_id: self.environment_id@,
            plan_id: self.plan_id@,
            step_id: self.step_id@,
            attempt: self.attempt,
            result_digest: self.result_digest@,
            succeeded: self.succeeded,
        }
    }
}

} // verus!
