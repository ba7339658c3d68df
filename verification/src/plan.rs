//! Plans: the ordered steps that bring one environment to its desired state.
pub mod convergence;
pub mod lifecycle;
pub mod reads;
pub mod release_selection;
pub mod snapshot;

pub use convergence::{model_routing_rollout_rank, validate_model_routing_rollout_order};
pub use release_selection::model_requirements_fit;

use crate::text::{copy_opt, opt_text};
use vstd::prelude::*;

verus! {

/// What a step does to a product.
#[derive(Debug, Clone, Copy, PartialEq, Eq, Structural)]
pub enum Action {
    Install,
    Upgrade,
    Downgrade,
    Rollback,
    Restart,
}

impl Action {
    /// The word for the action.
    pub open spec fn word(self) -> Seq<char> {
        match self {
            Action::Install => "install"@,
            Action::Upgrade => "upgrade"@,
            Action::Downgrade => "downgrade"@,
            Action::Rollback => "rollback"@,
            Action::Restart => "restart"@,
        }
    }

    /// The word for the action.
    pub fn to_string(&self) -> (word: String)
        ensures
            word@ == self.word(),
    {
        match self {
            Action::Install => "install".to_owned(),
            Action::Upgrade => "upgrade".to_owned(),
            Action::Downgrade => "downgrade".to_owned(),
            Action::Rollback => "rollback".to_owned(),
            Action::Restart => "restart".to_owned(),
        }
    }
}

pub const PLAN_FORMAT_VERSION: u32 = 1;

/// Operator-facing detail of a plan without steps that succeeded.
pub const NO_OP_STATUS_DETAIL: &'static str = "no-op; environment already current";

/// The content that a step restores when it is rolled back.
#[derive(Debug, PartialEq, Eq)]
pub struct ReleasePin {
    pub release_id: String,
    pub digest: String,
    pub artifact_digest: String,
    pub workdir: String,
}

/// One step of a plan.
#[derive(Debug, PartialEq, Eq)]
pub struct Step {
    pub id: String,
    pub order: u32,
    pub product: String,
    pub action: Action,
    pub from: Option<String>,
    pub to: String,
    pub release_id: String,
    pub release_digest: String,
    pub artifact_digest: String,
    pub workdir: String,
    pub restore: Option<ReleasePin>,
}

/// What one subscription asked for when a plan was computed.
#[derive(Debug, PartialEq, Eq)]
pub struct DesiredStateInput {
    pub product: String,
    pub channel: String,
    pub channel_id: String,
    pub desired_version: String,
    pub release_id: String,
    pub release_digest: String,
    pub artifact_digest: String,
    pub deployed_version: Option<String>,
}

/// Where a plan is in its life.
#[derive(Debug, Clone, Copy, PartialEq, Eq, Structural)]
pub enum PlanState {
    Computed,
    Running,
    Blocked,
    Succeeded,
    Failed,
}

impl PlanState {
    /// The word for the state.
    pub open spec fn word(self) -> Seq<char> {
        match self {
            PlanState::Computed => "computed"@,
            PlanState::Running => "running"@,
            PlanState::Blocked => "blocked"@,
            PlanState::Succeeded => "succeeded"@,
            PlanState::Failed => "failed"@,
        }
    }

    /// The word for the state.
    pub fn to_string(&self) -> (word: String)
        ensures
            word@ == self.word(),
    {
        match self {
            PlanState::Computed => "computed".to_owned(),
            PlanState::Running => "running".to_owned(),
            PlanState::Blocked => "blocked".to_owned(),
            PlanState::Succeeded => "succeeded".to_owned(),
            PlanState::Failed => "failed".to_owned(),
        }
    }
}

/// A computed plan and where it is in its life.
#[derive(Debug, PartialEq, Eq)]
pub struct Plan {
    pub format_version: u32,
    pub id: String,
    pub content_id: String,
    pub environment: String,
    pub created_at: i64,
    pub inputs: Vec<DesiredStateInput>,
    pub steps: Vec<Step>,
    pub state: PlanState,
    pub gates_skipped: Option<bool>,
    pub status_detail: String,
    pub maintenance_blocked: bool,
    /// Advisory warnings of the planner. They never block a plan.
    pub prior_warnings: Vec<String>,
    /// Audited reason that admits rollback onto recalled content.
    pub recalled_recovery_reason: Option<String>,
}

/// What a release pin says.
pub struct ReleasePinModel {
    pub release_id: Seq<char>,
    pub digest: Seq<char>,
    pub artifact_digest: Seq<char>,
    pub workdir: Seq<char>,
}

impl View for ReleasePin {
    type V = ReleasePinModel;

    open spec fn view(&self) -> ReleasePinModel {
        ReleasePinModel {
            release_id: self.release_id@,
            digest: self.digest@,
            artifact_digest: self.artifact_digest@,
            workdir: self.workdir@,
        }
    }
}

/// What an optional release pin says.
pub open spec fn opt_pin(pin: Option<ReleasePin>) -> Option<ReleasePinModel> {
    match pin {
        Some(value) => Some(value@),
        None => None,
    }
}

/// What a step says.
pub struct StepModel {
    pub id: Seq<char>,
    pub order: u32,
    pub product: Seq<char>,
    pub action: Action,
    pub from: Option<Seq<char>>,
    pub to: Seq<char>,
    pub release_id: Seq<char>,
    pub release_digest: Seq<char>,
    pub artifact_digest: Seq<char>,
    pub workdir: Seq<char>,
    pub restore: Option<ReleasePinModel>,
}

impl View for Step {
    type V = StepModel;

    open spec fn view(&self) -> StepModel {
        StepModel {
            id: self.id@,
            order: self.order,
            product: self.product@,
            action: self.action,
            from: opt_text(self.from),
            to: self.to@,
            release_id: self.release_id@,
            release_digest: self.release_digest@,
            artifact_digest: self.artifact_digest@,
            workdir: self.workdir@,
            restore: opt_pin(self.restore),
        }
    }
}

/// What the steps of a list say, in order.
pub open spec fn step_models(steps: Seq<Step>) -> Seq<StepModel> {
    steps.map_values(|step: Step| step@)
}

/// What one input says.
pub struct InputModel {
    pub product: Seq<char>,
    pub channel: Seq<char>,
    pub channel_id: Seq<char>,
    pub desired_version: Seq<char>,
    pub release_id: Seq<char>,
    pub release_digest: Seq<char>,
    pub artifact_digest: Seq<char>,
    pub deployed_version: Option<Seq<char>>,
}

impl View for DesiredStateInput {
    type V = InputModel;

    open spec fn view(&self) -> InputModel {
        InputModel {
            product: self.product@,
            channel: self.channel@,
            channel_id: self.channel_id@,
            desired_version: self.desired_version@,
            release_id: self.release_id@,
            release_digest: self.release_digest@,
            artifact_digest: self.artifact_digest@,
            deployed_version: opt_text(self.deployed_version),
        }
    }
}

/// What the inputs of a list say, in order.
pub open spec fn input_models(inputs: Seq<DesiredStateInput>) -> Seq<InputModel> {
    inputs.map_values(|input: DesiredStateInput| input@)
}

/// A copy of a release pin.
pub fn copy_pin(pin: &ReleasePin) -> (copy: ReleasePin)
    ensures
        copy@ == pin@,
{
    ReleasePin {
        release_id: pin.release_id.clone(),
        digest: pin.digest.clone(),
        artifact_digest: pin.artifact_digest.clone(),
        workdir: pin.workdir.clone(),
    }
}

/// A copy of a step.
pub fn copy_step(step: &Step) -> (copy: Step)
    ensures
        copy@ == step@,
{
    let restore = match &step.restore {
        Some(pin) => Some(copy_pin(pin)),
        None => None,
    };
    Step {
        id: step.id.clone(),
        order: step.order,
        product: step.product.clone(),
        action: step.action,
        from: copy_opt(&step.from),
        to: step.to.clone(),
        release_id: step.release_id.clone(),
        release_digest: step.release_digest.clone(),
        artifact_digest: step.artifact_digest.clone(),
        workdir: step.workdir.clone(),
        restore,
    }
}

/// A copy of an input.
pub fn copy_input(input: &DesiredStateInput) -> (copy: DesiredStateInput)
    ensures
        copy@ == input@,
{
    DesiredStateInput {
        product: input.product.clone(),
        channel: input.channel.clone(),
        channel_id: input.channel_id.clone(),
        desired_version: input.desired_version.clone(),
        release_id: input.release_id.clone(),
        release_digest: input.release_digest.clone(),
        artifact_digest: input.artifact_digest.clone(),
        deployed_version: copy_opt(&input.deployed_version),
    }
}

} // verus!
