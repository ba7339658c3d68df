//! Desired against deployed state, the order of coordinated rollouts, and the
//! making of plans and rollback steps.
use super::{
    copy_input, copy_pin, copy_step, input_models, opt_pin, step_models, Action, DesiredStateInput,
    InputModel, Plan, PlanState, ReleasePin, ReleasePinModel, Step, StepModel, PLAN_FORMAT_VERSION,
};
use crate::crypto::{digest_hex, sha256_hex};
use crate::error::{first_refusal, refusal, refuse_unless, Error};
use crate::graph::Object;
use crate::manifest::ProductKind;
use crate::ontology::{identifier_refusal, plan_id, plan_id_text, validate_identifier};
use crate::ordering::{
    arranged, arranging_keeps_the_items, lemma_text_order, order_texts, places, text_order,
};
use crate::text::{
    copy_opt, decimal, decimal_text, digit, opt_str, opt_text, same, text_less, texts,
};
use crate::version::{is_below, is_version, version_below, version_valid};
use vstd::prelude::*;

verus! {

/// How a product gets from one version to another.
pub open spec fn change_action(current: Seq<char>, desired: Seq<char>) -> Action {
    if version_valid(current) && version_valid(desired) && version_below(desired, current) {
        Action::Downgrade
    } else {
        Action::Upgrade
    }
}

/// How a product gets from one version to another: downwards only where both
/// are semantic versions and the desired one is lower.
pub fn classify_change(current: &str, desired: &str) -> (action: Action)
    ensures
        action == change_action(current@, desired@),
{
    if is_version(current) && is_version(desired) && is_below(desired, current) {
        Action::Downgrade
    } else {
        Action::Upgrade
    }
}

/// A subscribed channel.
#[derive(Debug, PartialEq, Eq)]
pub struct Channel {
    pub id: String,
    pub product: String,
    pub channel: String,
    pub version: String,
    pub release: String,
}

/// A property of an object, or the empty text.
pub open spec fn property_or_empty(object: Object, key: Seq<char>) -> Seq<char> {
    match object.property(key) {
        Some(text) => text,
        None => Seq::<char>::empty(),
    }
}

fn text_or_empty(object: &Object, key: &str) -> (text: String)
    ensures
        text@ == property_or_empty(*object, key@),
{
    match object.properties.text(key) {
        Some(text) => text.to_owned(),
        None => {
            let empty = String::new();
            assert(empty@ =~= Seq::<char>::empty());
            empty
        },
    }
}

/// Read a channel from its object.
pub fn channel_of(object: &Object) -> (channel: Channel)
    ensures
        channel.id@ == object.id@,
        channel.product@ == property_or_empty(*object, "product"@),
        channel.channel@ == property_or_empty(*object, "channel"@),
        channel.version@ == property_or_empty(*object, "current_version"@),
        channel.release@ == property_or_empty(*object, "current_release"@),
{
    Channel {
        id: object.id.clone(),
        product: text_or_empty(object, "product"),
        channel: text_or_empty(object, "channel"),
        version: text_or_empty(object, "current_version"),
        release: text_or_empty(object, "current_release"),
    }
}

/// Something was promoted to a channel.
pub fn is_promoted(channel: &Channel) -> (answer: bool)
    ensures
        answer == (channel.version@.len() > 0 && channel.release@.len() > 0),
{
    channel.version.as_str().unicode_len() > 0 && channel.release.as_str().unicode_len() > 0
}

/// The products of channels.
pub open spec fn channel_products(channels: Seq<Channel>) -> Seq<Seq<char>> {
    channels.map_values(|channel: Channel| channel.product@)
}

/// Why the subscriptions of an environment are refused: for the first product
/// that is subscribed to again.
pub open spec fn subscriptions_refusal(environment: Seq<char>, products: Seq<Seq<char>>) -> Option<
    Seq<char>,
>
    decreases products.len(),
{
    if products.len() == 0 {
        None
    } else {
        first_refusal(
            subscriptions_refusal(environment, products.drop_last()),
            refuse_unless(
                !products.drop_last().contains(products.last()),
                "environment "@ + environment + " has multiple channel subscriptions for "@
                    + products.last() + "; subscribe again after concurrent updates settle"@,
            ),
        )
    }
}

proof fn lemma_subscriptions_stop(environment: Seq<char>, products: Seq<Seq<char>>, at: int)
    requires
        0 <= at < products.len(),
        subscriptions_refusal(environment, products.take(at + 1)) is Some,
    ensures
        subscriptions_refusal(environment, products) == subscriptions_refusal(
            environment,
            products.take(at + 1),
        ),
    decreases products.len() - at,
{
    if at + 1 == products.len() {
        assert(products.take(at + 1) =~= products);
    } else {
        assert(products.take(at + 2).drop_last() =~= products.take(at + 1));
        lemma_subscriptions_stop(environment, products, at + 1);
    }
}

fn is_subscribed(channels: &Vec<Channel>, at: usize) -> (answer: bool)
    requires
        at < channels@.len(),
    ensures
        answer == channel_products(channels@).take(at as int).contains(
            channels@[at as int].product@,
        ),
{
    let ghost earlier = channel_products(channels@).take(at as int);
    let mut i: usize = 0;
    while i < at
        invariant
            i <= at < channels@.len(),
            earlier == channel_products(channels@).take(at as int),
            forall|k: int| 0 <= k < i ==> earlier[k] != channels@[at as int].product@,
        decreases at - i,
    {
        assert(earlier[i as int] == channels@[i as int].product@);
        if same(&channels[i].product, &channels[at].product) {
            return true;
        }
        i = i + 1;
    }
    false
}

/// Check that an environment subscribes to each product once.
pub fn check_subscriptions(environment: &str, channels: &Vec<Channel>) -> (result: Result<
    (),
    Error,
>)
    ensures
        refusal(result) == subscriptions_refusal(environment@, channel_products(channels@)),
{
    let ghost products = channel_products(channels@);
    let mut i: usize = 0;
    assert(products.take(0) =~= Seq::<Seq<char>>::empty());
    while i < channels.len()
        invariant
            i <= channels.len(),
            products == channel_products(channels@),
            subscriptions_refusal(environment@, products.take(i as int)) is None,
        decreases channels.len() - i,
    {
        assert(products.take(i + 1).drop_last() =~= products.take(i as int));
        assert(products.take(i + 1).last() == channels@[i as int].product@);
        if is_subscribed(channels, i) {
            proof {
                lemma_subscriptions_stop(environment@, products, i as int);
            }
            let mut message = "environment ".to_owned();
            message.append(environment);
            message.append(" has multiple channel subscriptions for ");
            message.append(channels[i].product.as_str());
            message.append("; subscribe again after concurrent updates settle");
            return Err(Error::new(message));
        }
        i = i + 1;
    }
    assert(products.take(i as int) =~= products);
    Ok(())
}

/// Why a product cannot be planned for: its deployment state is unknown.
pub open spec fn unknown_state_refusal(
    environment: Object,
    name: Seq<char>,
    product: Seq<char>,
) -> Option<Seq<char>> {
    let detail = match environment.property("deployment_error."@ + product) {
        Some(text) => text,
        None => "deployment state requires manual reconciliation"@,
    };
    refuse_unless(
        environment.property("deployment_health."@ + product) != Some("unknown"@),
        "deployment state for "@ + product + " in "@ + name + " is unknown: "@ + detail
            + "; reconcile it or use rollback before creating a new plan"@,
    )
}

/// Check that the deployment state of a product is known.
pub fn check_known_state(environment: &Object, name: &str, product: &str) -> (result: Result<
    (),
    Error,
>)
    ensures
        refusal(result) == unknown_state_refusal(*environment, name@, product@),
{
    let mut health_key = "deployment_health.".to_owned();
    health_key.append(product);
    let unknown = match environment.properties.text(health_key.as_str()) {
        Some(health) => same(health, "unknown"),
        None => false,
    };
    if !unknown {
        return Ok(());
    }
    let mut error_key = "deployment_error.".to_owned();
    error_key.append(product);
    let detail = match environment.properties.text(error_key.as_str()) {
        Some(text) => text,
        None => "deployment state requires manual reconciliation",
    };
    let mut message = "deployment state for ".to_owned();
    message.append(product);
    message.append(" in ");
    message.append(name);
    message.append(" is unknown: ");
    message.append(detail);
    message.append("; reconcile it or use rollback before creating a new plan");
    Err(Error::new(message))
}

/// The version of a product that an environment runs.
pub open spec fn deployed_version(environment: Object, product: Seq<char>) -> Option<Seq<char>> {
    environment.property("deployed."@ + product)
}

/// The version of a product that an environment runs.
pub fn deployed_of(environment: &Object, product: &str) -> (version: Option<String>)
    ensures
        opt_text(version) == deployed_version(*environment, product@),
{
    let mut key = "deployed.".to_owned();
    key.append(product);
    match environment.properties.text(key.as_str()) {
        Some(text) => Some(text.to_owned()),
        None => None,
    }
}

/// What must be done to get a product to a version.
#[derive(Debug, Clone, Copy, PartialEq, Eq, Structural)]
pub enum Change {
    /// The version is deployed.
    Nothing,
    /// Nothing is deployed.
    Install,
    /// Another version is deployed, and can be restored.
    Replace { action: Action },
}

/// What must be done to get a product to a version.
pub open spec fn change_for(deployed: Option<Seq<char>>, desired: Seq<char>) -> Change {
    match deployed {
        None => Change::Install,
        Some(version) => if version == desired {
            Change::Nothing
        } else {
            Change::Replace { action: change_action(version, desired) }
        },
    }
}

/// Decide what must be done to get a product to a version.
pub fn decide_change(deployed: Option<&str>, desired: &str) -> (change: Change)
    ensures
        change == change_for(opt_str(deployed), desired@),
{
    match deployed {
        None => Change::Install,
        Some(version) => if same(version, desired) {
            Change::Nothing
        } else {
            Change::Replace { action: classify_change(version, desired) }
        },
    }
}

/// The record of what a subscription asked for.
pub fn desired_input(
    channel: &Channel,
    desired: &str,
    release: &str,
    target: &ReleasePin,
    deployed: &Option<String>,
) -> (input: DesiredStateInput)
    ensures
        input@ == (InputModel {
            product: channel.product@,
            channel: channel.channel@,
            channel_id: channel.id@,
            desired_version: desired@,
            release_id: release@,
            release_digest: target@.digest,
            artifact_digest: target@.artifact_digest,
            deployed_version: opt_text(*deployed),
        }),
{
    DesiredStateInput {
        product: channel.product.clone(),
        channel: channel.channel.clone(),
        channel_id: channel.id.clone(),
        desired_version: desired.to_owned(),
        release_id: release.to_owned(),
        release_digest: target.digest.clone(),
        artifact_digest: target.artifact_digest.clone(),
        deployed_version: copy_opt(deployed),
    }
}

/// The products of inputs.
pub open spec fn input_products(inputs: Seq<InputModel>) -> Seq<Seq<char>> {
    inputs.map_values(|input: InputModel| input.product)
}

/// Put inputs in the order of their products.
pub fn order_inputs(inputs: &Vec<DesiredStateInput>) -> (ordered: Vec<DesiredStateInput>)
    ensures
        input_models(ordered@) == arranged(
            input_models(inputs@),
            text_order(input_products(input_models(inputs@))),
        ),
{
    let ghost models = input_models(inputs@);
    let mut keys: Vec<String> = Vec::new();
    let mut i: usize = 0;
    while i < inputs.len()
        invariant
            i <= inputs.len(),
            keys@.len() == i,
            forall|k: int| 0 <= k < i ==> (#[trigger] keys@[k])@ == inputs@[k].product@,
        decreases inputs.len() - i,
    {
        keys.push(inputs[i].product.clone());
        i = i + 1;
    }
    assert(texts(keys@) =~= input_products(models));
    let order = order_texts(&keys);
    let mut ordered: Vec<DesiredStateInput> = Vec::new();
    let mut j: usize = 0;
    while j < order.len()
        invariant
            j <= order.len(),
            models == input_models(inputs@),
            order@.len() == inputs@.len(),
            forall|k: int| 0 <= k < order@.len() ==> #[trigger] order@[k] < inputs@.len(),
            ordered@.len() == j,
            forall|k: int| 0 <= k < j ==> (#[trigger] ordered@[k])@ == models[order@[k] as int],
        decreases order.len() - j,
    {
        let place = order[j];
        ordered.push(copy_input(&inputs[place]));
        j = j + 1;
    }
    assert(input_models(ordered@) =~= arranged(models, places(order@)));
    ordered
}

/// The direction of a change: forward brings a version up, reverse takes one
/// away.
pub open spec fn is_reverse(action: Action) -> bool {
    action == Action::Downgrade || action == Action::Rollback
}

/// The rank of a step in a coordinated rollout.
pub open spec fn rollout_rank(kind: ProductKind, action: Action) -> nat {
    match kind {
        ProductKind::Software => 1,
        ProductKind::ModelRuntime => if is_reverse(action) {
            2
        } else {
            0
        },
        ProductKind::RoutingConfig => if is_reverse(action) {
            0
        } else {
            2
        },
    }
}

/// The rank of a step in a coordinated rollout of models and routes.
///
/// Forward, a model comes before the routes to it. In reverse, the routes are
/// switched away before the model is retired. Other products keep a neutral
/// rank.
pub fn model_routing_rollout_rank(kind: ProductKind, action: Action) -> (rank: u8)
    ensures
        rank == rollout_rank(kind, action),
{
    let reverse = match action {
        Action::Downgrade => true,
        Action::Rollback => true,
        _ => false,
    };
    match kind {
        ProductKind::Software => 1,
        ProductKind::ModelRuntime => if reverse {
            2
        } else {
            0
        },
        ProductKind::RoutingConfig => if reverse {
            0
        } else {
            2
        },
    }
}

/// A step changes a product of a kind in a direction. Restarts have none.
pub open spec fn moves(
    step: (ProductKind, Action),
    kind: ProductKind,
    reverse: bool,
) -> bool {
    step.0 == kind && step.1 != Action::Restart && is_reverse(step.1) == reverse
}

/// The place of the last step that changes a kind in a direction.
pub open spec fn last_move(
    steps: Seq<(ProductKind, Action)>,
    kind: ProductKind,
    reverse: bool,
) -> Option<int>
    decreases steps.len(),
{
    if steps.len() == 0 {
        None
    } else if moves(steps.last(), kind, reverse) {
        Some(steps.len() - 1)
    } else {
        last_move(steps.drop_last(), kind, reverse)
    }
}

/// Why the order of a rollout is unsafe.
pub open spec fn rollout_refusal(steps: Seq<(ProductKind, Action)>) -> Option<Seq<char>> {
    let forward_model = last_move(steps, ProductKind::ModelRuntime, false);
    let forward_routing = last_move(steps, ProductKind::RoutingConfig, false);
    let reverse_model = last_move(steps, ProductKind::ModelRuntime, true);
    let reverse_routing = last_move(steps, ProductKind::RoutingConfig, true);
    if (forward_model is Some || forward_routing is Some) && (reverse_model is Some
        || reverse_routing is Some) && (forward_model is Some || reverse_model is Some) && (
    forward_routing is Some || reverse_routing is Some) {
        Some(
            "unsafe mixed model/routing rollout directions; split forward and reverse changes into separate plans"@,
        )
    } else if forward_model is Some && forward_routing is Some && forward_model->0
        > forward_routing->0 {
        Some(
            "unsafe rollout order: routing_config step at "@ + decimal(forward_routing->0 as nat)
                + " precedes model_runtime step at "@ + decimal(forward_model->0 as nat)
                + "; install/verify model before switching routes"@,
        )
    } else if reverse_routing is Some && reverse_model is Some && reverse_routing->0
        > reverse_model->0 {
        Some(
            "unsafe rollback order: model_runtime step at "@ + decimal(reverse_model->0 as nat)
                + " precedes routing_config step at "@ + decimal(reverse_routing->0 as nat)
                + "; switch routes away before retiring the model"@,
        )
    } else {
        None
    }
}

/// A place as a number.
spec fn place_of(at: Option<usize>) -> Option<int> {
    match at {
        Some(place) => Some(place as int),
        None => None,
    }
}

fn order_error(start: &str, first: usize, middle: &str, second: usize, end: &str) -> (error: Error)
    ensures
        error@ == start@ + decimal(first as nat) + middle@ + decimal(second as nat) + end@,
{
    let mut message = start.to_owned();
    message.append(decimal_text(first as u64).as_str());
    message.append(middle);
    message.append(decimal_text(second as u64).as_str());
    message.append(end);
    Error::new(message)
}

/// Reject an unsafe order of model and routing steps: a route switched before
/// its model is ready, or a model retired while routes target it.
pub fn validate_model_routing_rollout_order(steps: &[(ProductKind, Action)]) -> (result: Result<
    (),
    Error,
>)
    ensures
        refusal(result) == rollout_refusal(steps@),
{
    let mut forward_model: Option<usize> = None;
    let mut forward_routing: Option<usize> = None;
    let mut reverse_model: Option<usize> = None;
    let mut reverse_routing: Option<usize> = None;
    let mut i: usize = 0;
    while i < steps.len()
        invariant
            i <= steps.len(),
            place_of(forward_model) == last_move(
                steps@.take(i as int),
                ProductKind::ModelRuntime,
                false,
            ),
            place_of(forward_routing) == last_move(
                steps@.take(i as int),
                ProductKind::RoutingConfig,
                false,
            ),
            place_of(reverse_model) == last_move(
                steps@.take(i as int),
                ProductKind::ModelRuntime,
                true,
            ),
            place_of(reverse_routing) == last_move(
                steps@.take(i as int),
                ProductKind::RoutingConfig,
                true,
            ),
        decreases steps.len() - i,
    {
        assert(steps@.take(i + 1).drop_last() =~= steps@.take(i as int));
        assert(steps@.take(i + 1).last() == steps@[i as int]);
        let (kind, action) = steps[i];
        match (kind, action) {
            (ProductKind::ModelRuntime, Action::Install | Action::Upgrade) => {
                forward_model = Some(i);
            },
            (ProductKind::RoutingConfig, Action::Install | Action::Upgrade) => {
                forward_routing = Some(i);
            },
            (ProductKind::RoutingConfig, Action::Downgrade | Action::Rollback) => {
                reverse_routing = Some(i);
            },
            (ProductKind::ModelRuntime, Action::Downgrade | Action::Rollback) => {
                reverse_model = Some(i);
            },
            _ => {},
        }
        i = i + 1;
    }
    assert(steps@.take(i as int) =~= steps@);
    if (forward_model.is_some() || forward_routing.is_some()) && (reverse_model.is_some()
        || reverse_routing.is_some()) && (forward_model.is_some() || reverse_model.is_some()) && (
    forward_routing.is_some() || reverse_routing.is_some()) {
        return Err(
            Error::fixed(
                "unsafe mixed model/routing rollout directions; split forward and reverse changes into separate plans",
            ),
        );
    }
    if let (Some(model), Some(routing)) = (forward_model, forward_routing) {
        if model > routing {
            return Err(
                order_error(
                    "unsafe rollout order: routing_config step at ",
                    routing,
                    " precedes model_runtime step at ",
                    model,
                    "; install/verify model before switching routes",
                ),
            );
        }
    }
    if let (Some(routing), Some(model)) = (reverse_routing, reverse_model) {
        if routing > model {
            return Err(
                order_error(
                    "unsafe rollback order: model_runtime step at ",
                    model,
                    " precedes routing_config step at ",
                    routing,
                    "; switch routes away before retiring the model",
                ),
            );
        }
    }
    Ok(())
}

proof fn lemma_last_move(
    steps: Seq<(ProductKind, Action)>,
    kind: ProductKind,
    reverse: bool,
)
    ensures
        last_move(steps, kind, reverse) matches Some(at) ==> 0 <= at < steps.len() && moves(
            steps[at],
            kind,
            reverse,
        ),
    decreases steps.len(),
{
    if steps.len() > 0 {
        lemma_last_move(steps.drop_last(), kind, reverse);
    }
}

/// Steps in the order of their ranks.
pub open spec fn by_rank(steps: Seq<(ProductKind, Action)>) -> bool {
    forall|i: int, j: int|
        0 <= i < j < steps.len() ==> rollout_rank((#[trigger] steps[i]).0, steps[i].1)
            <= rollout_rank((#[trigger] steps[j]).0, steps[j].1)
}

/// Ranking makes a rollout safe: steps in the order of their ranks are only
/// ever refused for mixing directions.
pub proof fn ranked_rollouts_are_safe(steps: Seq<(ProductKind, Action)>)
    requires
        by_rank(steps),
    ensures
        rollout_refusal(steps) is None || rollout_refusal(steps) == Some(
            "unsafe mixed model/routing rollout directions; split forward and reverse changes into separate plans"@,
        ),
{
    lemma_last_move(steps, ProductKind::ModelRuntime, false);
    lemma_last_move(steps, ProductKind::RoutingConfig, false);
    lemma_last_move(steps, ProductKind::ModelRuntime, true);
    lemma_last_move(steps, ProductKind::RoutingConfig, true);
}

/// A change that a plan has to make.
#[derive(Debug, PartialEq, Eq)]
pub struct Pending {
    pub product: String,
    pub action: Action,
    pub from: Option<String>,
    pub to: String,
    pub target: ReleasePin,
    pub restore: Option<ReleasePin>,
    pub kind: ProductKind,
}

/// What a pending change says.
pub struct PendingModel {
    pub product: Seq<char>,
    pub action: Action,
    pub from: Option<Seq<char>>,
    pub to: Seq<char>,
    pub target: ReleasePinModel,
    pub restore: Option<ReleasePinModel>,
    pub kind: ProductKind,
}

impl View for Pending {
    type V = PendingModel;

    open spec fn view(&self) -> PendingModel {
        PendingModel {
            product: self.product@,
            action: self.action,
            from: opt_text(self.from),
            to: self.to@,
            target: self.target@,
            restore: opt_pin(self.restore),
            kind: self.kind,
        }
    }
}

/// What pending changes say, in order.
pub open spec fn pending_models(list: Seq<Pending>) -> Seq<PendingModel> {
    list.map_values(|item: Pending| item@)
}

/// The key by which pending changes are ordered: the rank, then the product.
pub open spec fn rollout_key(item: PendingModel) -> Seq<char> {
    seq![digit(rollout_rank(item.kind, item.action))] + item.product
}

/// The keys of pending changes.
pub open spec fn rollout_keys(list: Seq<PendingModel>) -> Seq<Seq<char>> {
    list.map_values(|item: PendingModel| rollout_key(item))
}

/// Pending changes in the order in which they are made.
pub open spec fn rollout_order(list: Seq<PendingModel>) -> Seq<PendingModel> {
    arranged(list, text_order(rollout_keys(list)))
}

/// The kinds and actions of pending changes.
pub open spec fn rollout_moves(list: Seq<PendingModel>) -> Seq<(ProductKind, Action)> {
    list.map_values(|item: PendingModel| (item.kind, item.action))
}

/// The step that makes a pending change.
pub open spec fn pending_step(environment: Seq<char>, item: PendingModel, index: int) -> StepModel {
    StepModel {
        id: "tenkai:env:"@ + environment + ":step:"@ + decimal(index as nat),
        order: (index % 0x1_0000_0000) as u32,
        product: item.product,
        action: item.action,
        from: item.from,
        to: item.to,
        release_id: item.target.release_id,
        release_digest: item.target.digest,
        artifact_digest: item.target.artifact_digest,
        workdir: item.target.workdir,
        restore: item.restore,
    }
}

fn key_of(item: &Pending) -> (key: String)
    ensures
        key@ == rollout_key(item@),
{
    let rank = model_routing_rollout_rank(item.kind, item.action);
    let mut key = String::new();
    if rank == 0 {
        key.push('0');
    } else if rank == 1 {
        key.push('1');
    } else {
        key.push('2');
    }
    key.append(item.product.as_str());
    assert(key@ =~= rollout_key(item@));
    key
}

fn copy_restore(pin: &Option<ReleasePin>) -> (copy: Option<ReleasePin>)
    ensures
        opt_pin(copy) == opt_pin(*pin),
{
    match pin {
        Some(value) => Some(copy_pin(value)),
        None => None,
    }
}

fn wrapped(index: usize) -> (order: u32)
    ensures
        order == (index as int % 0x1_0000_0000) as u32,
{
    (index as u64 % 0x1_0000_0000) as u32
}

fn step_of(environment: &str, item: &Pending, index: usize) -> (step: Step)
    ensures
        step@ == pending_step(environment@, item@, index as int),
{
    let mut id = crate::ontology::env_id(environment);
    id.append(":step:");
    id.append(decimal_text(index as u64).as_str());
    Step {
        id,
        order: wrapped(index),
        product: item.product.clone(),
        action: item.action,
        from: copy_opt(&item.from),
        to: item.to.clone(),
        release_id: item.target.release_id.clone(),
        release_digest: item.target.digest.clone(),
        artifact_digest: item.target.artifact_digest.clone(),
        workdir: item.target.workdir.clone(),
        restore: copy_restore(&item.restore),
    }
}

/// The steps that make the pending changes of an environment, in the order of
/// a safe rollout.
pub fn assemble_steps(environment: &str, pending: &Vec<Pending>) -> (result: Result<
    Vec<Step>,
    Error,
>)
    ensures
        ({
            let ordered = rollout_order(pending_models(pending@));
            &&& refusal(result) == rollout_refusal(rollout_moves(ordered))
            &&& result matches Ok(steps) ==> {
                &&& steps@.len() == ordered.len()
                &&& forall|i: int|
                    0 <= i < steps@.len() ==> (#[trigger] steps@[i])@ == pending_step(
                        environment@,
                        ordered[i],
                        i,
                    )
            }
        }),
{
    let ghost models = pending_models(pending@);
    let mut keys: Vec<String> = Vec::new();
    let mut i: usize = 0;
    while i < pending.len()
        invariant
            i <= pending.len(),
            keys@.len() == i,
            forall|k: int| 0 <= k < i ==> (#[trigger] keys@[k])@ == rollout_key(pending@[k]@),
        decreases pending.len() - i,
    {
        keys.push(key_of(&pending[i]));
        i = i + 1;
    }
    assert(texts(keys@) =~= rollout_keys(models));
    let order = order_texts(&keys);
    let ghost ordered = rollout_order(models);
    let mut moved: Vec<(ProductKind, Action)> = Vec::new();
    let mut steps: Vec<Step> = Vec::new();
    let mut j: usize = 0;
    while j < order.len()
        invariant
            j <= order.len(),
            models == pending_models(pending@),
            ordered == rollout_order(models),
            order@.len() == pending@.len(),
            places(order@) == text_order(rollout_keys(models)),
            forall|k: int| 0 <= k < order@.len() ==> #[trigger] order@[k] < pending@.len(),
            moved@.len() == j,
            steps@.len() == j,
            forall|k: int| 0 <= k < j ==> #[trigger] moved@[k] == rollout_moves(ordered)[k],
            forall|k: int|
                0 <= k < j ==> (#[trigger] steps@[k])@ == pending_step(
                    environment@,
                    ordered[k],
                    k,
                ),
        decreases order.len() - j,
    {
        let place = order[j];
        let item = &pending[place];
        assert(places(order@)[j as int] == place as int);
        assert(ordered.len() == order@.len());
        assert(ordered[j as int] == item@);
        moved.push((item.kind, item.action));
        steps.push(step_of(environment, item, j));
        j = j + 1;
    }
    assert(ordered.len() == order@.len()) by {
        assert(places(order@).len() == order@.len());
    }
    assert(moved@ =~= rollout_moves(ordered));
    match validate_model_routing_rollout_order(moved.as_slice()) {
        Err(error) => Err(error),
        Ok(_) => Ok(steps),
    }
}

proof fn lemma_key_order(list: Seq<PendingModel>, i: int, j: int)
    requires
        0 <= i < j < list.len(),
    ensures
        rollout_rank(rollout_order(list)[i].kind, rollout_order(list)[i].action) <= rollout_rank(
            rollout_order(list)[j].kind,
            rollout_order(list)[j].action,
        ),
{
    let keys = rollout_keys(list);
    let order = text_order(keys);
    lemma_text_order(keys);
    let a = rollout_key(list[order[i]]);
    let b = rollout_key(list[order[j]]);
    assert(keys[order[i]] == a);
    assert(keys[order[j]] == b);
    assert(!text_less(b, a));
    assert(a[0] == digit(rollout_rank(list[order[i]].kind, list[order[i]].action)));
    assert(b[0] == digit(rollout_rank(list[order[j]].kind, list[order[j]].action)));
}

/// The changes of a plan are made in a safe order: models before their routes
/// forward, routes before their models in reverse. A plan is refused only for
/// mixing the directions.
pub proof fn assembled_rollouts_are_safe(list: Seq<PendingModel>)
    ensures
        by_rank(rollout_moves(rollout_order(list))),
        rollout_refusal(rollout_moves(rollout_order(list))) is None || rollout_refusal(
            rollout_moves(rollout_order(list)),
        ) == Some(
            "unsafe mixed model/routing rollout directions; split forward and reverse changes into separate plans"@,
        ),
{
    let ordered = rollout_order(list);
    let steps = rollout_moves(ordered);
    lemma_text_order(rollout_keys(list));
    assert forall|i: int, j: int| 0 <= i < j < steps.len() implies rollout_rank(
        (#[trigger] steps[i]).0,
        steps[i].1,
    ) <= rollout_rank((#[trigger] steps[j]).0, steps[j].1) by {
        lemma_key_order(list, i, j);
    }
    ranked_rollouts_are_safe(steps);
}

/// A step without its identity, as it enters the content of a plan.
pub open spec fn without_id(step: StepModel) -> StepModel {
    StepModel { id: Seq::<char>::empty(), ..step }
}

/// Steps without their identities.
pub fn normalized_steps(steps: &Vec<Step>) -> (normalized: Vec<Step>)
    ensures
        step_models(normalized@) == step_models(steps@).map_values(
            |step: StepModel| without_id(step),
        ),
{
    let mut normalized: Vec<Step> = Vec::new();
    let mut i: usize = 0;
    while i < steps.len()
        invariant
            i <= steps.len(),
            normalized@.len() == i,
            forall|k: int| 0 <= k < i ==> (#[trigger] normalized@[k])@ == without_id(steps@[k]@),
        decreases steps.len() - i,
    {
        let mut step = copy_step(&steps[i]);
        step.id = String::new();
        assert(step.id@ =~= Seq::<char>::empty());
        normalized.push(step);
        i = i + 1;
    }
    assert(step_models(normalized@) =~= step_models(steps@).map_values(
        |step: StepModel| without_id(step),
    ));
    normalized
}

/// The reason that enters the content of a plan: one that says something.
pub fn content_reason<'a>(reason: Option<&'a str>) -> (kept: Option<&'a str>)
    ensures
        opt_str(kept) == (match reason {
            Some(text) => if text@.len() > 0 {
                Some(text@)
            } else {
                None
            },
            None => None,
        }),
{
    match reason {
        Some(text) => if text.unicode_len() > 0 {
            Some(text)
        } else {
            None
        },
        None => None,
    }
}

/// The address of the content of a plan. `encoded` is the serialized content:
/// the format version, the environment, the time of creation, the inputs, the
/// steps without their identities, and the reason that enters it.
pub fn content_address(encoded: &[u8]) -> (address: String)
    ensures
        address@ == sha256_hex(encoded@),
{
    digest_hex(encoded)
}

/// The identity of a step of a plan.
pub open spec fn plan_step_id(plan: Seq<char>, index: int) -> Seq<char> {
    plan + ":step:"@ + decimal(index as nat)
}

/// A step of a plan in its place.
pub open spec fn placed_step(plan: Seq<char>, step: StepModel, index: int) -> StepModel {
    StepModel {
        id: plan_step_id(plan, index),
        order: (index % 0x1_0000_0000) as u32,
        ..step
    }
}

fn step_id_of(plan: &str, index: usize) -> (id: String)
    ensures
        id@ == plan_step_id(plan@, index as int),
{
    let mut id = plan.to_owned();
    id.append(":step:");
    id.append(decimal_text(index as u64).as_str());
    id
}

/// Steps with the orders of their places, as they enter the content of a
/// plan.
pub fn numbered_steps(steps: &Vec<Step>) -> (numbered: Vec<Step>)
    ensures
        numbered@.len() == steps@.len(),
        forall|i: int|
            0 <= i < steps@.len() ==> (#[trigger] numbered@[i])@ == (StepModel {
                order: (i % 0x1_0000_0000) as u32,
                ..steps@[i]@
            }),
{
    let mut numbered: Vec<Step> = Vec::new();
    let mut i: usize = 0;
    while i < steps.len()
        invariant
            i <= steps.len(),
            numbered@.len() == i,
            forall|k: int|
                0 <= k < i ==> (#[trigger] numbered@[k])@ == (StepModel {
                    order: (k % 0x1_0000_0000) as u32,
                    ..steps@[k]@
                }),
        decreases steps.len() - i,
    {
        let mut step = copy_step(&steps[i]);
        step.order = wrapped(i);
        numbered.push(step);
        i = i + 1;
    }
    numbered
}

/// A new plan. `encoded` is the serialized content of its inputs and steps.
pub fn new_plan(
    environment: &str,
    created_at: i64,
    inputs: Vec<DesiredStateInput>,
    steps: &Vec<Step>,
    encoded: &[u8],
    reason: Option<String>,
) -> (plan: Plan)
    ensures
        plan.format_version == PLAN_FORMAT_VERSION,
        plan.content_id@ == sha256_hex(encoded@),
        plan.id@ == plan_id_text(environment@, created_at, plan.content_id@),
        plan.environment@ == environment@,
        plan.created_at == created_at,
        plan.inputs == inputs,
        plan.steps@.len() == steps@.len(),
        forall|i: int|
            0 <= i < steps@.len() ==> (#[trigger] plan.steps@[i])@ == placed_step(
                plan.id@,
                steps@[i]@,
                i,
            ),
        plan.state == PlanState::Computed,
        plan.gates_skipped is None,
        plan.status_detail@ == Seq::<char>::empty(),
        !plan.maintenance_blocked,
        plan.prior_warnings@.len() == 0,
        plan.recalled_recovery_reason == reason,
{
    let content_id = content_address(encoded);
    let id = plan_id(environment, created_at, content_id.as_str());
    let mut placed: Vec<Step> = Vec::new();
    let mut i: usize = 0;
    while i < steps.len()
        invariant
            i <= steps.len(),
            placed@.len() == i,
            forall|k: int|
                0 <= k < i ==> (#[trigger] placed@[k])@ == placed_step(id@, steps@[k]@, k),
        decreases steps.len() - i,
    {
        let mut step = copy_step(&steps[i]);
        step.order = wrapped(i);
        step.id = step_id_of(id.as_str(), i);
        placed.push(step);
        i = i + 1;
    }
    let status_detail = String::new();
    assert(status_detail@ =~= Seq::<char>::empty());
    Plan {
        format_version: PLAN_FORMAT_VERSION,
        id,
        content_id,
        environment: environment.to_owned(),
        created_at,
        inputs,
        steps: placed,
        state: PlanState::Computed,
        gates_skipped: None,
        status_detail,
        maintenance_blocked: false,
        prior_warnings: Vec::new(),
        recalled_recovery_reason: reason,
    }
}

/// Why a product cannot be rolled back.
pub open spec fn rollback_refusal(
    environment: Object,
    name: Seq<char>,
    product: Seq<char>,
) -> Option<Seq<char>> {
    let previous = environment.property("deployed_prev."@ + product);
    first_refusal(
        identifier_refusal("product"@, product),
        refuse_unless(
            previous is Some && previous->0.len() > 0,
            "no previous version of "@ + product + " recorded in "@ + name
                + " — nothing to roll back to"@,
        ),
    )
}

/// The version that a product is rolled back to, and the one that it runs.
pub fn rollback_target(environment: &Object, name: &str, product: &str) -> (result: Result<
    (String, Option<String>),
    Error,
>)
    ensures
        refusal(result) == rollback_refusal(*environment, name@, product@),
        result matches Ok((previous, current)) ==> {
            &&& environment.property("deployed_prev."@ + product@) == Some(previous@)
            &&& opt_text(current) == deployed_version(*environment, product@)
        },
{
    match validate_identifier("product", product) {
        Err(error) => return Err(error),
        Ok(_) => {},
    }
    let current = deployed_of(environment, product);
    let mut key = "deployed_prev.".to_owned();
    key.append(product);
    if let Some(previous) = environment.properties.text(key.as_str()) {
        if previous.unicode_len() > 0 {
            return Ok((previous.to_owned(), current));
        }
    }
    let mut message = "no previous version of ".to_owned();
    message.append(product);
    message.append(" recorded in ");
    message.append(name);
    message.append(" — nothing to roll back to");
    Err(Error::new(message))
}

/// The step that rolls a product back.
pub fn rollback_step(
    name: &str,
    product: &str,
    previous: &str,
    current: &Option<String>,
    target: &ReleasePin,
    restore: &Option<ReleasePin>,
) -> (step: Step)
    ensures
        step@ == (StepModel {
            id: "tenkai:env:"@ + name@ + ":rollback:"@ + product@,
            order: 0,
            product: product@,
            action: Action::Rollback,
            from: opt_text(*current),
            to: previous@,
            release_id: target@.release_id,
            release_digest: target@.digest,
            artifact_digest: target@.artifact_digest,
            workdir: target@.workdir,
            restore: opt_pin(*restore),
        }),
{
    let mut id = crate::ontology::env_id(name);
    id.append(":rollback:");
    id.append(product);
    Step {
        id,
        order: 0,
        product: product.to_owned(),
        action: Action::Rollback,
        from: copy_opt(current),
        to: previous.to_owned(),
        release_id: target.release_id.clone(),
        release_digest: target.digest.clone(),
        artifact_digest: target.artifact_digest.clone(),
        workdir: target.workdir.clone(),
        restore: copy_restore(restore),
    }
}

/// A change goes downwards if and only if both are semantic versions and the
/// desired one is lower; every other change goes upwards.
pub proof fn changes_go_up_or_down(current: &str, desired: &str, action: Action)
    requires
        call_ensures(classify_change, (current, desired), action),
    ensures
        action == Action::Downgrade <==> version_valid(current@) && version_valid(desired@)
            && version_below(desired@, current@),
        action == Action::Downgrade || action == Action::Upgrade,
{
}

/// A channel is read from the properties of its object.
pub proof fn channels_are_read(object: &Object, channel: Channel)
    requires
        call_ensures(channel_of, (object,), channel),
    ensures
        channel.id@ == object.id@,
        object.property("product"@) matches Some(product) ==> channel.product@ == product,
        object.property("channel"@) matches Some(name) ==> channel.channel@ == name,
        object.property("current_version"@) matches Some(version) ==> channel.version@ == version,
        object.property("current_release"@) matches Some(release) ==> channel.release@ == release,
        object.property("product"@) is None ==> channel.product@.len() == 0,
        object.property("channel"@) is None ==> channel.channel@.len() == 0,
        object.property("current_version"@) is None ==> channel.version@.len() == 0,
        object.property("current_release"@) is None ==> channel.release@.len() == 0,
{
}

pub(crate) proof fn lemma_subscribed_once(environment: Seq<char>, products: Seq<Seq<char>>)
    ensures
        subscriptions_refusal(environment, products) is None <==> products.no_duplicates(),
    decreases products.len(),
{
    if products.len() > 0 {
        let front = products.drop_last();
        let last = products.len() - 1;
        lemma_subscribed_once(environment, front);
        if products.no_duplicates() {
            assert forall|i: int, j: int|
                0 <= i < front.len() && 0 <= j < front.len() && i != j implies front[i]
                != front[j] by {
                assert(products[i] != products[j]);
            }
            if front.contains(products.last()) {
                let i = choose|i: int| 0 <= i < front.len() && front[i] == products.last();
                assert(products[i] == products[last]);
            }
        }
        if subscriptions_refusal(environment, products) is None {
            assert forall|i: int, j: int|
                0 <= i < products.len() && 0 <= j < products.len() && i != j implies products[i]
                != products[j] by {
                if i < last && j < last {
                    assert(front[i] != front[j]);
                } else if i < last {
                    assert(front.contains(front[i]));
                } else {
                    assert(front.contains(front[j]));
                }
            }
        }
    }
}

/// Subscriptions are accepted if and only if no two are for one product.
pub proof fn one_subscription_for_a_product(
    environment: &str,
    channels: &Vec<Channel>,
    result: Result<(), Error>,
)
    requires
        call_ensures(check_subscriptions, (environment, channels), result),
    ensures
        result is Ok <==> forall|i: int, j: int|
            0 <= i < j < channels@.len() ==> (#[trigger] channels@[i]).product@ != (
            #[trigger] channels@[j]).product@,
{
    let products = channel_products(channels@);
    lemma_subscribed_once(environment@, products);
    assert forall|i: int| 0 <= i < channels@.len() implies (#[trigger] products[i])
        == channels@[i].product@ by {};
    if result is Err {
        let (i, j) = choose|i: int, j: int|
            0 <= i < products.len() && 0 <= j < products.len() && i != j && products[i]
                == products[j];
        if i < j {
            assert(channels@[i].product@ == channels@[j].product@);
        } else {
            assert(channels@[j].product@ == channels@[i].product@);
        }
    } else {
        assert forall|i: int, j: int| 0 <= i < j < channels@.len() implies (
        #[trigger] channels@[i]).product@ != (#[trigger] channels@[j]).product@ by {
            assert(products[i] != products[j]);
        }
    }
}

/// A product is planned for unless its deployment state is recorded as unknown.
pub proof fn known_states(
    environment: &Object,
    name: &str,
    product: &str,
    result: Result<(), Error>,
)
    requires
        call_ensures(check_known_state, (environment, name, product), result),
    ensures
        result is Err <==> environment.property("deployment_health."@ + product@) == Some(
            "unknown"@,
        ),
{
}

/// A product is installed where nothing is deployed, left alone where the
/// desired version is deployed, and replaced otherwise, downwards only to a
/// lower semantic version.
pub proof fn decided_changes(deployed: Option<&str>, desired: &str, change: Change)
    requires
        call_ensures(decide_change, (deployed, desired), change),
    ensures
        change is Install <==> deployed is None,
        change is Nothing <==> deployed is Some && deployed->0@ == desired@,
        change matches Change::Replace { action } ==> {
            let lower = version_valid(deployed->0@) && version_valid(desired@) && version_below(
                desired@,
                deployed->0@,
            );
            &&& deployed is Some
            &&& deployed->0@ != desired@
            &&& action == if lower {
                Action::Downgrade
            } else {
                Action::Upgrade
            }
        },
{
}

/// Inputs are put in the order of their products, and none is lost, added or
/// changed.
pub proof fn inputs_are_ordered_by_product(
    inputs: &Vec<DesiredStateInput>,
    ordered: Vec<DesiredStateInput>,
)
    requires
        call_ensures(order_inputs, (inputs,), ordered),
    ensures
        ordered@.len() == inputs@.len(),
        forall|i: int, j: int|
            0 <= i < j < ordered@.len() ==> !text_less(
                (#[trigger] ordered@[j]).product@,
                (#[trigger] ordered@[i]).product@,
            ),
        forall|x: InputModel| #[trigger]
            input_models(ordered@).contains(x) <==> input_models(inputs@).contains(x),
{
    let models = input_models(inputs@);
    let keys = input_products(models);
    let order = text_order(keys);
    lemma_text_order(keys);
    arranging_keeps_the_items(models, keys);
    assert(input_models(ordered@).len() == ordered@.len());
    assert forall|i: int, j: int| 0 <= i < j < ordered@.len() implies !text_less(
        (#[trigger] ordered@[j]).product@,
        (#[trigger] ordered@[i]).product@,
    ) by {
        assert(input_models(ordered@)[i] == models[order[i]]);
        assert(input_models(ordered@)[j] == models[order[j]]);
        assert(ordered@[i]@ == input_models(ordered@)[i]);
        assert(ordered@[j]@ == input_models(ordered@)[j]);
        assert(!text_less(keys[order[j]], keys[order[i]]));
    }
}

/// A model comes before other software, and that before the routes, when
/// versions are brought up; the routes come first, and the model last, when
/// they are taken away.
pub proof fn models_and_routes_take_turns(
    up: Action,
    down: Action,
    model_up: u8,
    model_down: u8,
    route_up: u8,
    route_down: u8,
    other: u8,
    action: Action,
)
    requires
        up == Action::Install || up == Action::Upgrade || up == Action::Restart,
        down == Action::Downgrade || down == Action::Rollback,
        call_ensures(model_routing_rollout_rank, (ProductKind::ModelRuntime, up), model_up),
        call_ensures(model_routing_rollout_rank, (ProductKind::ModelRuntime, down), model_down),
        call_ensures(model_routing_rollout_rank, (ProductKind::RoutingConfig, up), route_up),
        call_ensures(model_routing_rollout_rank, (ProductKind::RoutingConfig, down), route_down),
        call_ensures(model_routing_rollout_rank, (ProductKind::Software, action), other),
    ensures
        model_up < other < route_up,
        route_down < other < model_down,
{
}

/// A step brings a product of a kind to a version of its channel.
pub open spec fn brings_up(step: (ProductKind, Action), kind: ProductKind) -> bool {
    step.0 == kind && (step.1 == Action::Install || step.1 == Action::Upgrade)
}

/// A step takes a version of a product of a kind away.
pub open spec fn takes_away(step: (ProductKind, Action), kind: ProductKind) -> bool {
    step.0 == kind && (step.1 == Action::Downgrade || step.1 == Action::Rollback)
}

proof fn lemma_move_directions(step: (ProductKind, Action), kind: ProductKind)
    ensures
        moves(step, kind, false) <==> brings_up(step, kind),
        moves(step, kind, true) <==> takes_away(step, kind),
{
}

proof fn lemma_last_of_all(steps: Seq<(ProductKind, Action)>, kind: ProductKind, reverse: bool)
    ensures
        ({
            let last = last_move(steps, kind, reverse);
            &&& last matches Some(at) ==> 0 <= at < steps.len() && moves(steps[at], kind, reverse)
            &&& forall|i: int|
                0 <= i < steps.len() && moves(#[trigger] steps[i], kind, reverse) ==> last is Some
                    && i <= last->0
        }),
    decreases steps.len(),
{
    if steps.len() > 0 && !moves(steps.last(), kind, reverse) {
        let front = steps.drop_last();
        lemma_last_of_all(front, kind, reverse);
        assert forall|i: int|
            0 <= i < steps.len() && moves(#[trigger] steps[i], kind, reverse) implies last_move(
            steps,
            kind,
            reverse,
        ) is Some && i <= last_move(steps, kind, reverse)->0 by {
            assert(front[i] == steps[i]);
        }
    }
}

/// A model that is brought up behind every route that is, and a route that is
/// taken away behind every model that is, are refused, and so is a rollout that
/// brings up one of models and routes and takes away another.
pub proof fn unsafe_rollouts_are_refused(
    steps: &[(ProductKind, Action)],
    result: Result<(), Error>,
    i: int,
    j: int,
)
    requires
        call_ensures(validate_model_routing_rollout_order, (steps,), result),
        0 <= i < steps@.len(),
        0 <= j < steps@.len(),
    ensures
        brings_up(steps@[i], ProductKind::RoutingConfig) && brings_up(
            steps@[j],
            ProductKind::ModelRuntime,
        ) && i < j && (forall|k: int|
            j < k < steps@.len() ==> !brings_up(#[trigger] steps@[k], ProductKind::RoutingConfig))
            ==> result is Err,
        takes_away(steps@[i], ProductKind::ModelRuntime) && takes_away(
            steps@[j],
            ProductKind::RoutingConfig,
        ) && i < j && (forall|k: int|
            j < k < steps@.len() ==> !takes_away(#[trigger] steps@[k], ProductKind::ModelRuntime))
            ==> result is Err,
        brings_up(steps@[i], ProductKind::ModelRuntime) && takes_away(
            steps@[j],
            ProductKind::RoutingConfig,
        ) ==> result is Err,
        takes_away(steps@[i], ProductKind::ModelRuntime) && brings_up(
            steps@[j],
            ProductKind::RoutingConfig,
        ) ==> result is Err,
{
    let all = steps@;
    lemma_last_of_all(all, ProductKind::ModelRuntime, false);
    lemma_last_of_all(all, ProductKind::ModelRuntime, true);
    lemma_last_of_all(all, ProductKind::RoutingConfig, false);
    lemma_last_of_all(all, ProductKind::RoutingConfig, true);
    assert(moves(all[i], ProductKind::ModelRuntime, false) == brings_up(
        all[i],
        ProductKind::ModelRuntime,
    ));
    assert(moves(all[j], ProductKind::ModelRuntime, false) == brings_up(
        all[j],
        ProductKind::ModelRuntime,
    ));
    let up = last_move(all, ProductKind::RoutingConfig, false);
    if up is Some {
        assert(brings_up(all[up->0], ProductKind::RoutingConfig));
    }
    let down = last_move(all, ProductKind::ModelRuntime, true);
    if down is Some {
        assert(takes_away(all[down->0], ProductKind::ModelRuntime));
    }
}

/// A rollout that only brings up, every model before every route, is accepted,
/// and so is one that only takes away, every route before every model.
pub proof fn safe_rollouts_are_accepted(
    steps: &[(ProductKind, Action)],
    result: Result<(), Error>,
)
    requires
        call_ensures(validate_model_routing_rollout_order, (steps,), result),
    ensures
        (forall|i: int|
            0 <= i < steps@.len() ==> (#[trigger] steps@[i]).1 != Action::Downgrade && steps@[i].1
                != Action::Rollback) && (forall|i: int, j: int|
            0 <= i < steps@.len() && 0 <= j < steps@.len() && brings_up(
                #[trigger] steps@[i],
                ProductKind::ModelRuntime,
            ) && brings_up(#[trigger] steps@[j], ProductKind::RoutingConfig) ==> i < j)
            ==> result is Ok,
        (forall|i: int|
            0 <= i < steps@.len() ==> (#[trigger] steps@[i]).1 != Action::Install && steps@[i].1
                != Action::Upgrade) && (forall|i: int, j: int|
            0 <= i < steps@.len() && 0 <= j < steps@.len() && takes_away(
                #[trigger] steps@[i],
                ProductKind::RoutingConfig,
            ) && takes_away(#[trigger] steps@[j], ProductKind::ModelRuntime) ==> i < j)
            ==> result is Ok,
{
    let all = steps@;
    lemma_last_of_all(all, ProductKind::ModelRuntime, false);
    lemma_last_of_all(all, ProductKind::ModelRuntime, true);
    lemma_last_of_all(all, ProductKind::RoutingConfig, false);
    lemma_last_of_all(all, ProductKind::RoutingConfig, true);
}

/// The steps of a plan make the pending changes, each once, and stand in their
/// places: of two steps the later never has the lower rank.
pub proof fn steps_make_the_pending_changes(
    environment: &str,
    pending: &Vec<Pending>,
    result: Result<Vec<Step>, Error>,
)
    requires
        call_ensures(assemble_steps, (environment, pending), result),
        result is Ok,
    ensures
        result->Ok_0@.len() == pending@.len(),
        forall|i: int|
            0 <= i < result->Ok_0@.len() ==> (#[trigger] result->Ok_0@[i]).order == (i
                % 0x1_0000_0000) as u32,
        exists|order: Seq<int>|
            {
                let steps = result->Ok_0@;
                &&& order.len() == pending@.len()
                &&& #[trigger] order.no_duplicates()
                &&& forall|i: int|
                    0 <= i < steps.len() ==> {
                        let item = pending@[#[trigger] order[i]];
                        &&& 0 <= order[i] < pending@.len()
                        &&& steps[i].product@ == item.product@
                        &&& steps[i].action == item.action
                        &&& opt_text(steps[i].from) == opt_text(item.from)
                        &&& steps[i].to@ == item.to@
                        &&& steps[i].release_id@ == item.target.release_id@
                        &&& steps[i].release_digest@ == item.target.digest@
                        &&& steps[i].artifact_digest@ == item.target.artifact_digest@
                        &&& steps[i].workdir@ == item.target.workdir@
                        &&& opt_pin(steps[i].restore) == opt_pin(item.restore)
                    }
                &&& forall|i: int, j: int|
                    0 <= i < j < steps.len() ==> rollout_rank(
                        pending@[#[trigger] order[i]].kind,
                        pending@[order[i]].action,
                    ) <= rollout_rank(
                        pending@[#[trigger] order[j]].kind,
                        pending@[order[j]].action,
                    )
            },
{
    let list = pending_models(pending@);
    let keys = rollout_keys(list);
    let order = text_order(keys);
    let steps = result->Ok_0@;
    lemma_text_order(keys);
    assert(order.no_duplicates()) by {
        assert forall|i: int, j: int|
            0 <= i < order.len() && 0 <= j < order.len() && i != j implies order[i]
            != order[j] by {
            if i < j {
                assert(keys[order[i]] == keys[order[j]] ==> order[i] < order[j]);
            } else {
                assert(keys[order[j]] == keys[order[i]] ==> order[j] < order[i]);
            }
        }
    }
    assert forall|i: int| 0 <= i < steps.len() implies {
        let item = pending@[#[trigger] order[i]];
        &&& 0 <= order[i] < pending@.len()
        &&& steps[i].product@ == item.product@
        &&& steps[i].action == item.action
        &&& opt_text(steps[i].from) == opt_text(item.from)
        &&& steps[i].to@ == item.to@
        &&& steps[i].release_id@ == item.target.release_id@
        &&& steps[i].release_digest@ == item.target.digest@
        &&& steps[i].artifact_digest@ == item.target.artifact_digest@
        &&& steps[i].workdir@ == item.target.workdir@
        &&& opt_pin(steps[i].restore) == opt_pin(item.restore)
    } by {
        assert(rollout_order(list)[i] == list[order[i]]);
        assert(list[order[i]] == pending@[order[i]]@);
        assert(steps[i]@ == pending_step(environment@, rollout_order(list)[i], i));
    }
    assert forall|i: int, j: int| 0 <= i < j < steps.len() implies rollout_rank(
        pending@[#[trigger] order[i]].kind,
        pending@[order[i]].action,
    ) <= rollout_rank(pending@[#[trigger] order[j]].kind, pending@[order[j]].action) by {
        lemma_key_order(list, i, j);
        assert(rollout_order(list)[i] == list[order[i]]);
        assert(rollout_order(list)[j] == list[order[j]]);
    }
    assert forall|i: int| 0 <= i < steps.len() implies (#[trigger] steps[i]).order == (i
        % 0x1_0000_0000) as u32 by {
        assert(steps[i]@ == pending_step(environment@, rollout_order(list)[i], i));
    }
}

/// Pending changes of one direction are always assembled.
pub proof fn one_direction_is_assembled(
    environment: &str,
    pending: &Vec<Pending>,
    result: Result<Vec<Step>, Error>,
)
    requires
        call_ensures(assemble_steps, (environment, pending), result),
        (forall|i: int|
            0 <= i < pending@.len() ==> (#[trigger] pending@[i]).action != Action::Downgrade
                && pending@[i].action != Action::Rollback) || (forall|i: int|
            0 <= i < pending@.len() ==> (#[trigger] pending@[i]).action != Action::Install
                && pending@[i].action != Action::Upgrade),
    ensures
        result is Ok,
{
    let list = pending_models(pending@);
    let keys = rollout_keys(list);
    let order = text_order(keys);
    let ordered = rollout_order(list);
    let steps = rollout_moves(ordered);
    lemma_text_order(keys);
    assembled_rollouts_are_safe(list);
    lemma_last_of_all(steps, ProductKind::ModelRuntime, false);
    lemma_last_of_all(steps, ProductKind::ModelRuntime, true);
    lemma_last_of_all(steps, ProductKind::RoutingConfig, false);
    lemma_last_of_all(steps, ProductKind::RoutingConfig, true);
    assert forall|i: int| 0 <= i < steps.len() implies (#[trigger] steps[i]).1
        == pending@[order[i]].action && 0 <= order[i] < pending@.len() by {
        assert(ordered[i] == list[order[i]]);
        assert(list[order[i]] == pending@[order[i]]@);
    }
    if result is Err {
        let fm = last_move(steps, ProductKind::ModelRuntime, false);
        let fr = last_move(steps, ProductKind::RoutingConfig, false);
        let rm = last_move(steps, ProductKind::ModelRuntime, true);
        let rr = last_move(steps, ProductKind::RoutingConfig, true);
        if fm is Some && fr is Some {
            assert(rollout_rank(steps[fm->0].0, steps[fm->0].1) < rollout_rank(
                steps[fr->0].0,
                steps[fr->0].1,
            ));
        }
        if rm is Some && rr is Some {
            assert(rollout_rank(steps[rr->0].0, steps[rr->0].1) < rollout_rank(
                steps[rm->0].0,
                steps[rm->0].1,
            ));
        }
        if fm is Some {
            assert(pending@[order[fm->0]].action == steps[fm->0].1);
        }
        if fr is Some {
            assert(pending@[order[fr->0]].action == steps[fr->0].1);
        }
        if rm is Some {
            assert(pending@[order[rm->0]].action == steps[rm->0].1);
        }
        if rr is Some {
            assert(pending@[order[rr->0]].action == steps[rr->0].1);
        }
    }
}

/// A product is rolled back if and only if it is named by an identifier and a
/// previous version of it is recorded, and that version is the target.
pub proof fn rollback_targets(
    environment: &Object,
    name: &str,
    product: &str,
    result: Result<(String, Option<String>), Error>,
)
    requires
        call_ensures(rollback_target, (environment, name, product), result),
    ensures
        result is Ok <==> identifier_refusal("product"@, product@) is None && (
        environment.property("deployed_prev."@ + product@) matches Some(previous) && previous.len()
            > 0),
        result matches Ok((previous, current)) ==> environment.property(
            "deployed_prev."@ + product@,
        ) == Some(previous@) && opt_text(current) == environment.property("deployed."@ + product@),
{
}

/// The step of a rollback takes a product from what it runs to the previous
/// version, with the content of that version.
pub proof fn rollback_steps_go_back(
    name: &str,
    product: &str,
    previous: &str,
    current: &Option<String>,
    target: &ReleasePin,
    restore: &Option<ReleasePin>,
    step: Step,
)
    requires
        call_ensures(rollback_step, (name, product, previous, current, target, restore), step),
    ensures
        step.product@ == product@,
        step.action == Action::Rollback,
        opt_text(step.from) == opt_text(*current),
        step.to@ == previous@,
        step.release_id@ == target.release_id@,
        step.release_digest@ == target.digest@,
        step.artifact_digest@ == target.artifact_digest@,
        step.workdir@ == target.workdir@,
        opt_pin(step.restore) == opt_pin(*restore),
{
}

/// A new plan is computed and nothing else: it has its inputs and steps, each
/// step in its place, and is addressed by its content.
pub proof fn new_plans_are_computed(
    environment: &str,
    created_at: i64,
    inputs: Vec<DesiredStateInput>,
    steps: &Vec<Step>,
    encoded: &[u8],
    reason: Option<String>,
    plan: Plan,
)
    requires
        call_ensures(
            new_plan,
            (environment, created_at, inputs, steps, encoded, reason),
            plan,
        ),
    ensures
        plan.state == PlanState::Computed,
        plan.gates_skipped is None,
        !plan.maintenance_blocked,
        plan.format_version == 1,
        plan.content_id@ == sha256_hex(encoded@),
        plan.id@ == plan_id_text(environment@, created_at, sha256_hex(encoded@)),
        plan.environment@ == environment@,
        plan.created_at == created_at,
        plan.inputs == inputs,
        plan.recalled_recovery_reason == reason,
        plan.steps@.len() == steps@.len(),
        forall|i: int|
            0 <= i < steps@.len() ==> {
                &&& (#[trigger] plan.steps@[i]).id@ == plan.id@ + ":step:"@ + decimal(i as nat)
                &&& plan.steps@[i].order == (i % 0x1_0000_0000) as u32
                &&& plan.steps@[i].product@ == steps@[i].product@
                &&& plan.steps@[i].action == steps@[i].action
                &&& opt_text(plan.steps@[i].from) == opt_text(steps@[i].from)
                &&& plan.steps@[i].to@ == steps@[i].to@
                &&& plan.steps@[i].release_id@ == steps@[i].release_id@
                &&& plan.steps@[i].release_digest@ == steps@[i].release_digest@
                &&& plan.steps@[i].artifact_digest@ == steps@[i].artifact_digest@
                &&& plan.steps@[i].workdir@ == steps@[i].workdir@
            },
{
}

/// An input records the channel, the desired release with its digests, and what
/// is deployed.
pub proof fn inputs_record_the_subscription(
    channel: &Channel,
    desired: &str,
    release: &str,
    target: &ReleasePin,
    deployed: &Option<String>,
    input: DesiredStateInput,
)
    requires
        call_ensures(desired_input, (channel, desired, release, target, deployed), input),
    ensures
        input.product@ == channel.product@,
        input.channel@ == channel.channel@,
        input.channel_id@ == channel.id@,
        input.desired_version@ == desired@,
        input.release_id@ == release@,
        input.release_digest@ == target.digest@,
        input.artifact_digest@ == target.artifact_digest@,
        opt_text(input.deployed_version) == opt_text(*deployed),
{
}

} // verus!
