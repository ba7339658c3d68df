//! What operators see of an environment.
use crate::text::opt_text;
use crate::text_map::TextMap;
use vstd::prelude::*;

verus! {

/// One subscription of an environment and the state of its product.
#[derive(Debug, PartialEq, Eq)]
pub struct EnvironmentSubscriptionView {
    pub product: String,
    pub channel: String,
    pub head: String,
    pub deployed: Option<String>,
    pub health: Option<String>,
    pub error: Option<String>,
    pub overlay_digest: Option<String>,
    pub applied_overlay: Option<String>,
    pub state: String,
}

/// Who may work on an environment.
#[derive(Debug, PartialEq, Eq)]
pub struct EnvironmentLeaseInspect {
    pub held: bool,
    pub owner: Option<String>,
    pub generation: Option<u64>,
    pub expires_at_ms: Option<i64>,
    pub status: String,
}

/// One step of a plan, in short.
#[derive(Debug, PartialEq, Eq)]
pub struct EnvironmentPlanStepSummary {
    pub product: String,
    pub action: String,
    pub from: Option<String>,
    pub to: String,
}

/// A plan, in short.
#[derive(Debug, PartialEq, Eq)]
pub struct EnvironmentPlanSummary {
    pub id: String,
    pub state: String,
    pub created_at: i64,
    pub step_count: usize,
    pub status_detail: String,
    pub steps: Vec<EnvironmentPlanStepSummary>,
    pub steps_truncated: bool,
}

/// An environment as operators see it.
#[derive(Debug, PartialEq, Eq)]
pub struct EnvironmentInspectReport {
    pub name: String,
    pub id: String,
    pub description: String,
    pub subscriptions: Vec<EnvironmentSubscriptionView>,
    pub facts: TextMap<String>,
    pub lease: EnvironmentLeaseInspect,
    pub latest_plan: Option<EnvironmentPlanSummary>,
    pub execution_note: String,
}

/// An environment by its name, and the properties that are stored of it.
#[derive(Debug, PartialEq, Eq)]
pub struct StoredEnvironment {
    pub name: String,
    pub properties: TextMap<String>,
}

/// What a subscription says.
pub struct SubscriptionModel {
    pub product: Seq<char>,
    pub channel: Seq<char>,
    pub head: Seq<char>,
    pub deployed: Option<Seq<char>>,
    pub health: Option<Seq<char>>,
    pub error: Option<Seq<char>>,
    pub overlay_digest: Option<Seq<char>>,
    pub applied_overlay: Option<Seq<char>>,
    pub state: Seq<char>,
}

impl View for EnvironmentSubscriptionView {
    type V = SubscriptionModel;

    open spec fn view(&self) -> SubscriptionModel {
        SubscriptionModel {
            product: self.product@,
            channel: self.channel@,
            head: self.head@,
            deployed: opt_text(self.deployed),
            health: opt_text(self.health),
            error: opt_text(self.error),
            overlay_digest: opt_text(self.overlay_digest),
            applied_overlay: opt_text(self.applied_overlay),
            state: self.state@,
        }
    }
}

/// What subscriptions say, in order.
pub open spec fn subscription_models(list: Seq<EnvironmentSubscriptionView>) -> Seq<
    SubscriptionModel,
> {
    list.map_values(|item: EnvironmentSubscriptionView| item@)
}

} // verus!
