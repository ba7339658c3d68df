//! What runtimes report to the reconciler and what it reports of its ticks.
use vstd::prelude::*;

verus! {

/// The result of one step that a runtime performed.
#[derive(Debug, PartialEq, Eq)]
pub struct RuntimeStepReceipt {
    pub step_id: String,
    pub succeeded: bool,
    pub detail: String,
}

/// What a step receipt of a runtime says.
pub struct RuntimeStepModel {
    pub step_id: Seq<char>,
    pub succeeded: bool,
    pub detail: Seq<char>,
}

impl View for RuntimeStepReceipt {
    type V = RuntimeStepModel;

    open spec fn view(&self) -> RuntimeStepModel {
        RuntimeStepModel {
            step_id: self.step_id@,
            succeeded: self.succeeded,
            detail: self.detail@,
        }
    }
}

/// The result of a plan that a runtime performed.
#[derive(Debug, PartialEq, Eq)]
pub struct RuntimeCompletion {
    pub plan_id: String,
    pub generation: u64,
    pub succeeded: bool,
    pub detail: String,
    pub receipts: Vec<RuntimeStepReceipt>,
}

/// What a completion says.
pub struct CompletionModel {
    pub plan_id: Seq<char>,
    pub generation: u64,
    pub succeeded: bool,
    pub detail: Seq<char>,
    pub receipts: Seq<RuntimeStepModel>,
}

impl View for RuntimeCompletion {
    type V = CompletionModel;

    open spec fn view(&self) -> CompletionModel {
        CompletionModel {
            plan_id: self.plan_id@,
            generation: self.generation,
            succeeded: self.succeeded,
            detail: self.detail@,
            receipts: self.receipts@.map_values(|receipt: RuntimeStepReceipt| receipt@),
        }
    }
}

/// Counters of the reconciler's ticks.
#[derive(Debug, PartialEq, Eq)]
pub struct ReconcileDiagnostics {
    pub ticks_total: u64,
    pub ticks_failed: u64,
    pub last_outcome: String,
    pub last_environments_total: u64,
    pub last_environments_failed: u64,
    pub environments_busy_total: u64,
}

} // verus!
