//! Desired against deployed state of a whole environment: which channels are
//! planned for, and the inputs and steps that converge it.
use super::convergence::{
    assemble_steps, change_for, channel_of, check_known_state, check_subscriptions, decide_change,
    deployed_of, deployed_version, desired_input, input_products, is_promoted, order_inputs,
    pending_models, pending_step, rollout_moves, rollout_order, rollout_refusal, subscriptions_refusal,
    unknown_state_refusal, Change, Channel, Pending, PendingModel,
};
use super::{
    copy_pin, input_models, opt_pin, Action, DesiredStateInput, InputModel, ReleasePin,
    ReleasePinModel, Step,
};
use crate::error::{first_refusal, refusal, Error};
use crate::graph::Object;
use crate::manifest::ProductKind;
use crate::ontology::{release_id, release_id_text};
use crate::ordering::{arranged, arranging_keeps_the_items, text_order};
use crate::text::opt_text;
use vstd::prelude::*;

verus! {

/// What a channel says.
pub struct ChannelModel {
    pub id: Seq<char>,
    pub product: Seq<char>,
    pub channel: Seq<char>,
    pub version: Seq<char>,
    pub release: Seq<char>,
}

impl View for Channel {
    type V = ChannelModel;

    open spec fn view(&self) -> ChannelModel {
        ChannelModel {
            id: self.id@,
            product: self.product@,
            channel: self.channel@,
            version: self.version@,
            release: self.release@,
        }
    }
}

/// What channels say.
pub open spec fn channel_models(list: Seq<Channel>) -> Seq<ChannelModel> {
    list.map_values(|channel: Channel| channel@)
}

/// What the object of a channel says.
pub open spec fn channel_read(object: Object) -> ChannelModel {
    ChannelModel {
        id: object.id@,
        product: super::convergence::property_or_empty(object, "product"@),
        channel: super::convergence::property_or_empty(object, "channel"@),
        version: super::convergence::property_or_empty(object, "current_version"@),
        release: super::convergence::property_or_empty(object, "current_release"@),
    }
}

/// What the objects of channels say.
pub open spec fn channels_read(objects: Seq<Object>) -> Seq<ChannelModel> {
    objects.map_values(|object: Object| channel_read(object))
}

/// The products of channels.
pub open spec fn products_of(channels: Seq<ChannelModel>) -> Seq<Seq<char>> {
    channels.map_values(|channel: ChannelModel| channel.product)
}

/// The channels that something was promoted to.
pub open spec fn promoted(channels: Seq<ChannelModel>) -> Seq<ChannelModel> {
    channels.filter(
        |channel: ChannelModel| channel.version.len() > 0 && channel.release.len() > 0,
    )
}

/// The channels that an environment is planned for, in the order of its
/// subscriptions: those that something was promoted to.
pub fn planned_channels(environment: &str, objects: &Vec<Object>) -> (result: Result<
    Vec<Channel>,
    Error,
>)
    ensures
        refusal(result) == subscriptions_refusal(
            environment@,
            products_of(channels_read(objects@)),
        ),
        result matches Ok(channels) ==> channel_models(channels@) == promoted(
            channels_read(objects@),
        ),
{
    let ghost read = channels_read(objects@);
    let mut all: Vec<Channel> = Vec::new();
    let mut i: usize = 0;
    while i < objects.len()
        invariant
            i <= objects.len(),
            read == channels_read(objects@),
            all@.len() == i,
            forall|k: int| 0 <= k < i ==> (#[trigger] all@[k])@ == read[k],
        decreases objects.len() - i,
    {
        all.push(channel_of(&objects[i]));
        i = i + 1;
    }
    assert(channel_models(all@) =~= read);
    assert(super::convergence::channel_products(all@) =~= products_of(read)) by {
        assert forall|k: int| 0 <= k < all@.len() implies (#[trigger] all@[k]).product@
            == read[k].product by {}
    }
    match check_subscriptions(environment, &all) {
        Err(error) => return Err(error),
        Ok(_) => {},
    }
    let ghost wanted = |channel: ChannelModel|
        channel.version.len() > 0 && channel.release.len() > 0;
    let mut channels: Vec<Channel> = Vec::new();
    let mut j: usize = 0;
    assert(read.take(0).filter(wanted) =~= Seq::<ChannelModel>::empty()) by {
        reveal(Seq::filter);
    }
    assert(channel_models(channels@) =~= read.take(0).filter(wanted));
    while j < all.len()
        invariant
            j <= all.len(),
            read == channel_models(all@),
            wanted == (|channel: ChannelModel|
                channel.version.len() > 0 && channel.release.len() > 0),
            channel_models(channels@) == read.take(j as int).filter(wanted),
        decreases all.len() - j,
    {
        let ghost before = channels@;
        proof {
            reveal(Seq::filter);
            assert(read.take(j + 1).drop_last() =~= read.take(j as int));
            assert(read.take(j + 1).last() == all@[j as int]@);
        }
        if is_promoted(&all[j]) {
            channels.push(copy_channel(&all[j]));
            assert(channel_models(channels@) =~= channel_models(before).push(all@[j as int]@));
        }
        j = j + 1;
    }
    assert(read.take(read.len() as int) =~= read);
    Ok(channels)
}

fn copy_channel(channel: &Channel) -> (copy: Channel)
    ensures
        copy@ == channel@,
{
    Channel {
        id: channel.id.clone(),
        product: channel.product.clone(),
        channel: channel.channel.clone(),
        version: channel.version.clone(),
        release: channel.release.clone(),
    }
}

/// A channel with the release that was selected for it and its pins.
#[derive(Debug, PartialEq, Eq)]
pub struct Resolved {
    pub channel: Channel,
    pub desired: String,
    pub release: String,
    pub kind: ProductKind,
    pub target: ReleasePin,
    /// The pin of what is deployed, where it is replaced.
    pub restore: Option<ReleasePin>,
}

/// What a resolved channel says.
pub struct ResolvedModel {
    pub channel: ChannelModel,
    pub desired: Seq<char>,
    pub release: Seq<char>,
    pub kind: ProductKind,
    pub target: ReleasePinModel,
    pub restore: Option<ReleasePinModel>,
}

impl View for Resolved {
    type V = ResolvedModel;

    open spec fn view(&self) -> ResolvedModel {
        ResolvedModel {
            channel: self.channel@,
            desired: self.desired@,
            release: self.release@,
            kind: self.kind,
            target: self.target@,
            restore: opt_pin(self.restore),
        }
    }
}

/// What resolved channels say.
pub open spec fn resolved_models(list: Seq<Resolved>) -> Seq<ResolvedModel> {
    list.map_values(|item: Resolved| item@)
}

/// The release to restore where a product is replaced.
pub open spec fn restore_id(environment: Object, product: Seq<char>, desired: Seq<char>) -> Option<
    Seq<char>,
> {
    let deployed = deployed_version(environment, product);
    if change_for(deployed, desired) is Replace {
        Some(release_id_text(product, deployed->0))
    } else {
        None
    }
}

/// The release whose pin is needed to restore a product, if it is replaced.
pub fn restore_needed(environment: &Object, product: &str, desired: &str) -> (id: Option<String>)
    ensures
        opt_text(id) == restore_id(*environment, product@, desired@),
{
    match deployed_of(environment, product) {
        None => None,
        Some(version) => match decide_change(Some(version.as_str()), desired) {
            Change::Replace { action } => Some(release_id(product, version.as_str())),
            _ => None,
        },
    }
}

/// The input that a resolved channel is.
pub open spec fn resolved_input(environment: Object, item: ResolvedModel) -> InputModel {
    InputModel {
        product: item.channel.product,
        channel: item.channel.channel,
        channel_id: item.channel.id,
        desired_version: item.desired,
        release_id: item.release,
        release_digest: item.target.digest,
        artifact_digest: item.target.artifact_digest,
        deployed_version: deployed_version(environment, item.channel.product),
    }
}

/// The inputs that resolved channels are.
pub open spec fn resolved_inputs(environment: Object, list: Seq<ResolvedModel>) -> Seq<InputModel> {
    list.map_values(|item: ResolvedModel| resolved_input(environment, item))
}

/// A resolved channel asks for a change.
pub open spec fn asks_change(environment: Object, item: ResolvedModel) -> bool {
    !(change_for(deployed_version(environment, item.channel.product), item.desired) is Nothing)
}

/// The change that a resolved channel asks for.
pub open spec fn resolved_change(environment: Object, item: ResolvedModel) -> PendingModel {
    let deployed = deployed_version(environment, item.channel.product);
    let change = change_for(deployed, item.desired);
    PendingModel {
        product: item.channel.product,
        action: if change is Install {
            Action::Install
        } else {
            change->action
        },
        from: deployed,
        to: item.desired,
        target: item.target,
        restore: if change is Install {
            None
        } else {
            item.restore
        },
        kind: item.kind,
    }
}

/// The changes that resolved channels ask for, in their order.
pub open spec fn resolved_changes(environment: Object, list: Seq<ResolvedModel>) -> Seq<
    PendingModel,
>
    decreases list.len(),
{
    if list.len() == 0 {
        Seq::<PendingModel>::empty()
    } else {
        let before = resolved_changes(environment, list.drop_last());
        if asks_change(environment, list.last()) {
            before.push(resolved_change(environment, list.last()))
        } else {
            before
        }
    }
}

/// Why resolved channels cannot be planned for: for the first whose deployment
/// state is unknown.
pub open spec fn states_refusal(
    environment: Object,
    name: Seq<char>,
    list: Seq<ResolvedModel>,
) -> Option<Seq<char>>
    decreases list.len(),
{
    if list.len() == 0 {
        None
    } else {
        first_refusal(
            states_refusal(environment, name, list.drop_last()),
            unknown_state_refusal(environment, name, list.last().channel.product),
        )
    }
}

proof fn lemma_states_stop(
    environment: Object,
    name: Seq<char>,
    list: Seq<ResolvedModel>,
    count: int,
)
    requires
        0 <= count <= list.len(),
        states_refusal(environment, name, list.take(count)) is Some,
    ensures
        states_refusal(environment, name, list) == states_refusal(
            environment,
            name,
            list.take(count),
        ),
    decreases list.len(),
{
    if count < list.len() {
        assert(list.drop_last().take(count) =~= list.take(count));
        lemma_states_stop(environment, name, list.drop_last(), count);
    } else {
        assert(list.take(count) =~= list);
    }
}

/// The inputs and the steps of a snapshot.
#[derive(Debug, PartialEq, Eq)]
pub struct Snapshot {
    pub inputs: Vec<DesiredStateInput>,
    pub steps: Vec<Step>,
}

fn change_of(environment: &Object, item: &Resolved) -> (change: Option<Pending>)
    ensures
        match change {
            Some(pending) => asks_change(*environment, item@) && pending@ == resolved_change(
                *environment,
                item@,
            ),
            None => !asks_change(*environment, item@),
        },
{
    let deployed = deployed_of(environment, item.channel.product.as_str());
    let version = match &deployed {
        Some(text) => Some(text.as_str()),
        None => None,
    };
    match decide_change(version, item.desired.as_str()) {
        Change::Nothing => None,
        Change::Install => Some(
            Pending {
                product: item.channel.product.clone(),
                action: Action::Install,
                from: None,
                to: item.desired.clone(),
                target: copy_pin(&item.target),
                restore: None,
                kind: item.kind,
            },
        ),
        Change::Replace { action } => Some(
            Pending {
                product: item.channel.product.clone(),
                action,
                from: deployed,
                to: item.desired.clone(),
                target: copy_pin(&item.target),
                restore: match &item.restore {
                    Some(pin) => Some(copy_pin(pin)),
                    None => None,
                },
                kind: item.kind,
            },
        ),
    }
}

/// Compute the inputs and the steps that converge an environment on its
/// resolved channels.
pub fn compute_snapshot(environment: &Object, name: &str, resolved: &Vec<Resolved>) -> (result: Result<
    Snapshot,
    Error,
>)
    ensures
        ({
            let list = resolved_models(resolved@);
            let ordered = rollout_order(resolved_changes(*environment, list));
            let inputs = resolved_inputs(*environment, list);
            &&& refusal(result) == first_refusal(
                states_refusal(*environment, name@, list),
                rollout_refusal(rollout_moves(ordered)),
            )
            &&& result matches Ok(snapshot) ==> {
                &&& input_models(snapshot.inputs@) == arranged(
                    inputs,
                    text_order(input_products(inputs)),
                )
                &&& snapshot.steps@.len() == ordered.len()
                &&& forall|i: int|
                    0 <= i < ordered.len() ==> (#[trigger] snapshot.steps@[i])@ == pending_step(
                        name@,
                        ordered[i],
                        i,
                    )
            }
        }),
{
    let ghost list = resolved_models(resolved@);
    let mut inputs: Vec<DesiredStateInput> = Vec::new();
    let mut pending: Vec<Pending> = Vec::new();
    let mut i: usize = 0;
    assert(pending_models(pending@) =~= resolved_changes(*environment, list.take(0)));
    assert(input_models(inputs@) =~= resolved_inputs(*environment, list).take(0));
    while i < resolved.len()
        invariant
            i <= resolved.len(),
            list == resolved_models(resolved@),
            states_refusal(*environment, name@, list.take(i as int)) is None,
            input_models(inputs@) == resolved_inputs(*environment, list).take(i as int),
            pending_models(pending@) == resolved_changes(*environment, list.take(i as int)),
        decreases resolved.len() - i,
    {
        let item = &resolved[i];
        assert(list.take(i + 1).drop_last() =~= list.take(i as int));
        assert(list.take(i + 1).last() == item@);
        match check_known_state(environment, name, item.channel.product.as_str()) {
            Err(error) => {
                proof {
                    lemma_states_stop(*environment, name@, list, i + 1);
                }
                return Err(error);
            },
            Ok(_) => {},
        }
        let deployed = deployed_of(environment, item.channel.product.as_str());
        let ghost inputs_before = inputs@;
        inputs.push(
            desired_input(
                &item.channel,
                item.desired.as_str(),
                item.release.as_str(),
                &item.target,
                &deployed,
            ),
        );
        assert(input_models(inputs@) =~= input_models(inputs_before).push(
            resolved_input(*environment, item@),
        ));
        assert(input_models(inputs@) =~= resolved_inputs(*environment, list).take(i + 1));
        let ghost pending_before = pending@;
        match change_of(environment, item) {
            None => {},
            Some(change) => {
                pending.push(change);
                assert(pending_models(pending@) =~= pending_models(pending_before).push(
                    resolved_change(*environment, item@),
                ));
            },
        }
        i = i + 1;
    }
    assert(list.take(list.len() as int) =~= list);
    assert(resolved_inputs(*environment, list).take(list.len() as int) =~= resolved_inputs(
        *environment,
        list,
    ));
    match assemble_steps(name, &pending) {
        Err(error) => Err(error),
        Ok(steps) => Ok(Snapshot { inputs: order_inputs(&inputs), steps }),
    }
}

proof fn lemma_change_listed(environment: Object, list: Seq<ResolvedModel>, at: int)
    requires
        0 <= at < list.len(),
        asks_change(environment, list[at]),
    ensures
        resolved_changes(environment, list).contains(resolved_change(environment, list[at])),
    decreases list.len(),
{
    let all = resolved_changes(environment, list);
    let before = resolved_changes(environment, list.drop_last());
    let change = resolved_change(environment, list[at]);
    if at < list.len() - 1 {
        lemma_change_listed(environment, list.drop_last(), at);
        let k = before.index_of(change);
        assert(all[k] == change);
    } else {
        assert(all[all.len() - 1] == change);
    }
}

proof fn lemma_change_asked(environment: Object, list: Seq<ResolvedModel>, at: int)
    requires
        0 <= at < resolved_changes(environment, list).len(),
    ensures
        exists|k: int|
            0 <= k < list.len() && asks_change(environment, #[trigger] list[k])
                && resolved_changes(environment, list)[at] == resolved_change(
                environment,
                list[k],
            ),
    decreases list.len(),
{
    if list.len() > 0 {
        let front = list.drop_last();
        let before = resolved_changes(environment, front);
        if at < before.len() {
            lemma_change_asked(environment, front, at);
            let k = choose|k: int|
                0 <= k < front.len() && asks_change(environment, #[trigger] front[k])
                    && before[at] == resolved_change(environment, front[k]);
            assert(list[k] == front[k]);
        } else {
            assert(list[list.len() - 1] == list.last());
        }
    }
}

/// A snapshot converges: each product that does not run the desired version
/// has a step that brings it there, and each step is of such a product.
pub proof fn steps_converge_the_environment(environment: Object, list: Seq<ResolvedModel>)
    ensures
        ({
            let ordered = rollout_order(resolved_changes(environment, list));
            &&& forall|at: int|
                0 <= at < list.len() && asks_change(environment, #[trigger] list[at])
                    ==> ordered.contains(resolved_change(environment, list[at]))
            &&& forall|i: int|
                0 <= i < ordered.len() ==> exists|k: int|
                    0 <= k < list.len() && asks_change(environment, #[trigger] list[k])
                        && #[trigger] ordered[i] == resolved_change(environment, list[k])
        }),
{
    let changes = resolved_changes(environment, list);
    let keys = super::convergence::rollout_keys(changes);
    let ordered = rollout_order(changes);
    arranging_keeps_the_items(changes, keys);
    assert forall|at: int|
        0 <= at < list.len() && asks_change(environment, #[trigger] list[at]) implies ordered.contains(
        resolved_change(environment, list[at]),
    ) by {
        lemma_change_listed(environment, list, at);
        assert(changes.contains(resolved_change(environment, list[at])));
        assert(ordered.contains(resolved_change(environment, list[at])));
    }
    assert forall|i: int| 0 <= i < ordered.len() implies exists|k: int|
        0 <= k < list.len() && asks_change(environment, #[trigger] list[k])
            && #[trigger] ordered[i] == resolved_change(environment, list[k]) by {
        assert(ordered.contains(ordered[i]));
        assert(changes.contains(ordered[i]));
        let at = changes.index_of(ordered[i]);
        lemma_change_asked(environment, list, at);
    }
}

/// An environment that runs what is desired of it needs no step.
pub proof fn converged_environments_need_no_step(environment: Object, list: Seq<ResolvedModel>)
    requires
        forall|at: int|
            0 <= at < list.len() ==> deployed_version(
                environment,
                (#[trigger] list[at]).channel.product,
            ) == Some(list[at].desired),
    ensures
        resolved_changes(environment, list).len() == 0,
    decreases list.len(),
{
    if list.len() > 0 {
        let front = list.drop_last();
        assert forall|at: int| 0 <= at < front.len() implies deployed_version(
            environment,
            (#[trigger] front[at]).channel.product,
        ) == Some(front[at].desired) by {
            assert(front[at] == list[at]);
        }
        converged_environments_need_no_step(environment, front);
        assert(list[list.len() - 1] == list.last());
    }
}

proof fn lemma_unknown_state(
    environment: Object,
    name: Seq<char>,
    list: Seq<ResolvedModel>,
)
    ensures
        states_refusal(environment, name, list) is None <==> forall|k: int|
            0 <= k < list.len() ==> environment.property(
                "deployment_health."@ + (#[trigger] list[k]).channel.product,
            ) != Some("unknown"@),
    decreases list.len(),
{
    if list.len() > 0 {
        let front = list.drop_last();
        lemma_unknown_state(environment, name, front);
        assert(forall|k: int| 0 <= k < front.len() ==> front[k] == list[k]);
        if states_refusal(environment, name, list) is None {
            assert forall|k: int| 0 <= k < list.len() implies environment.property(
                "deployment_health."@ + (#[trigger] list[k]).channel.product,
            ) != Some("unknown"@) by {
                if k < front.len() {
                    assert(front[k] == list[k]);
                }
            }
        }
    }
}

/// A snapshot takes every product that does not run what is desired of it
/// there: a step installs it where nothing is deployed, and replaces what is
/// deployed otherwise, with the content of the selected release. A product in
/// an unknown state is never planned for.
pub proof fn snapshots_converge(
    environment: &Object,
    name: &str,
    resolved: &Vec<Resolved>,
    result: Result<Snapshot, Error>,
    k: int,
)
    requires
        call_ensures(compute_snapshot, (environment, name, resolved), result),
        0 <= k < resolved@.len(),
    ensures
        environment.property("deployment_health."@ + resolved@[k].channel.product@) == Some(
            "unknown"@,
        ) ==> result is Err,
        result is Ok && environment.property("deployed."@ + resolved@[k].channel.product@) != Some(
            resolved@[k].desired@,
        ) ==> exists|i: int|
            {
                let step = #[trigger] result->Ok_0.steps@[i];
                let deployed = environment.property("deployed."@ + resolved@[k].channel.product@);
                &&& 0 <= i < result->Ok_0.steps@.len()
                &&& step.product@ == resolved@[k].channel.product@
                &&& step.to@ == resolved@[k].desired@
                &&& opt_text(step.from) == deployed
                &&& step.action == Action::Install <==> deployed is None
                &&& step.release_id@ == resolved@[k].target.release_id@
                &&& step.release_digest@ == resolved@[k].target.digest@
                &&& step.artifact_digest@ == resolved@[k].target.artifact_digest@
                &&& step.workdir@ == resolved@[k].target.workdir@
            },
{
    let list = resolved_models(resolved@);
    let ordered = rollout_order(resolved_changes(*environment, list));
    lemma_unknown_state(*environment, name@, list);
    assert(list[k] == resolved@[k]@);
    steps_converge_the_environment(*environment, list);
    if result is Ok && asks_change(*environment, list[k]) {
        let change = resolved_change(*environment, list[k]);
        assert(ordered.contains(change));
        let i = choose|i: int| 0 <= i < ordered.len() && ordered[i] == change;
        assert(result->Ok_0.steps@[i]@ == pending_step(name@, ordered[i], i));
    }
}

/// A snapshot does nothing else: each step is of a product that does not run
/// what is desired of it, and takes it there.
pub proof fn snapshots_do_nothing_else(
    environment: &Object,
    name: &str,
    resolved: &Vec<Resolved>,
    result: Result<Snapshot, Error>,
    i: int,
)
    requires
        call_ensures(compute_snapshot, (environment, name, resolved), result),
        result is Ok,
        0 <= i < result->Ok_0.steps@.len(),
    ensures
        exists|k: int|
            {
                let step = result->Ok_0.steps@[i];
                &&& 0 <= k < resolved@.len()
                &&& step.product@ == (#[trigger] resolved@[k]).channel.product@
                &&& step.to@ == resolved@[k].desired@
                &&& environment.property("deployed."@ + resolved@[k].channel.product@) != Some(
                    resolved@[k].desired@,
                )
            },
{
    let list = resolved_models(resolved@);
    let ordered = rollout_order(resolved_changes(*environment, list));
    steps_converge_the_environment(*environment, list);
    assert(result->Ok_0.steps@[i]@ == pending_step(name@, ordered[i], i));
    let k = choose|k: int|
        0 <= k < list.len() && asks_change(*environment, #[trigger] list[k]) && ordered[i]
            == resolved_change(*environment, list[k]);
    assert(list[k] == resolved@[k]@);
}

/// A snapshot records an input for each channel, in the order of the products.
pub proof fn snapshots_record_their_inputs(
    environment: &Object,
    name: &str,
    resolved: &Vec<Resolved>,
    result: Result<Snapshot, Error>,
    k: int,
)
    requires
        call_ensures(compute_snapshot, (environment, name, resolved), result),
        result is Ok,
        0 <= k < resolved@.len(),
    ensures
        result->Ok_0.inputs@.len() == resolved@.len(),
        forall|i: int, j: int|
            0 <= i < j < result->Ok_0.inputs@.len() ==> !crate::text::text_less(
                (#[trigger] result->Ok_0.inputs@[j]).product@,
                (#[trigger] result->Ok_0.inputs@[i]).product@,
            ),
        exists|i: int|
            {
                let input = #[trigger] result->Ok_0.inputs@[i];
                &&& 0 <= i < result->Ok_0.inputs@.len()
                &&& input.product@ == resolved@[k].channel.product@
                &&& input.channel@ == resolved@[k].channel.channel@
                &&& input.channel_id@ == resolved@[k].channel.id@
                &&& input.desired_version@ == resolved@[k].desired@
                &&& input.release_id@ == resolved@[k].release@
                &&& input.release_digest@ == resolved@[k].target.digest@
                &&& input.artifact_digest@ == resolved@[k].target.artifact_digest@
                &&& opt_text(input.deployed_version) == environment.property(
                    "deployed."@ + resolved@[k].channel.product@,
                )
            },
{
    let list = resolved_models(resolved@);
    let inputs = resolved_inputs(*environment, list);
    let keys = input_products(inputs);
    let order = text_order(keys);
    let found = input_models(result->Ok_0.inputs@);
    crate::ordering::lemma_text_order(keys);
    crate::ordering::arranging_keeps_the_items(inputs, keys);
    assert(found.len() == result->Ok_0.inputs@.len());
    assert(inputs[k] == resolved_input(*environment, list[k]));
    assert(list[k] == resolved@[k]@);
    assert(inputs.contains(inputs[k]));
    assert(found.contains(inputs[k]));
    let i = choose|i: int| 0 <= i < found.len() && found[i] == inputs[k];
    assert(found[i] == result->Ok_0.inputs@[i]@);
    assert forall|i: int, j: int| 0 <= i < j < found.len() implies !crate::text::text_less(
        (#[trigger] result->Ok_0.inputs@[j]).product@,
        (#[trigger] result->Ok_0.inputs@[i]).product@,
    ) by {
        assert(found[i] == inputs[order[i]]);
        assert(found[j] == inputs[order[j]]);
        assert(found[i] == result->Ok_0.inputs@[i]@);
        assert(found[j] == result->Ok_0.inputs@[j]@);
        assert(!crate::text::text_less(keys[order[j]], keys[order[i]]));
    }
}

/// A release is needed to restore a product if and only if another version than
/// the desired one is deployed: the release of that version.
pub proof fn restored_releases(
    environment: &Object,
    product: &str,
    desired: &str,
    id: Option<String>,
)
    requires
        call_ensures(restore_needed, (environment, product, desired), id),
    ensures
        ({
            let deployed = environment.property("deployed."@ + product@);
            &&& id is Some <==> deployed is Some && deployed->0 != desired@
            &&& id matches Some(text) ==> text@ == release_id_text(product@, deployed->0)
        }),
{
}

/// An environment is planned for the channels that something was promoted to,
/// and for no other.
pub proof fn promoted_channels_are_planned(
    environment: &str,
    objects: &Vec<Object>,
    result: Result<Vec<Channel>, Error>,
)
    requires
        call_ensures(planned_channels, (environment, objects), result),
        result is Ok,
    ensures
        forall|k: int|
            0 <= k < objects@.len() ==> ({
                let version = (#[trigger] objects@[k]).property("current_version"@);
                let release = objects@[k].property("current_release"@);
                version is Some && version->0.len() > 0 && release is Some && release->0.len() > 0
            } <==> exists|i: int|
                0 <= i < result->Ok_0@.len() && (#[trigger] result->Ok_0@[i])@ == channel_read(
                    objects@[k],
                )),
        forall|i: int|
            0 <= i < result->Ok_0@.len() ==> (#[trigger] result->Ok_0@[i]).version@.len() > 0
                && result->Ok_0@[i].release@.len() > 0,
{
    let read = channels_read(objects@);
    let test = |channel: ChannelModel| channel.version.len() > 0 && channel.release.len() > 0;
    let found = channel_models(result->Ok_0@);
    assert(found == read.filter(test));
    broadcast use vstd::seq_lib::group_filter_ensures;

    assert(found.len() == result->Ok_0@.len());
    assert forall|i: int| 0 <= i < result->Ok_0@.len() implies (
    #[trigger] result->Ok_0@[i]).version@.len() > 0 && result->Ok_0@[i].release@.len() > 0 by {
        assert(found[i] == result->Ok_0@[i]@);
        assert(test(found[i]));
    }
    assert forall|k: int| 0 <= k < objects@.len() implies ({
        let version = (#[trigger] objects@[k]).property("current_version"@);
        let release = objects@[k].property("current_release"@);
        version is Some && version->0.len() > 0 && release is Some && release->0.len() > 0
    } <==> exists|i: int|
        0 <= i < result->Ok_0@.len() && (#[trigger] result->Ok_0@[i])@ == channel_read(
            objects@[k],
        )) by {
        assert(read[k] == channel_read(objects@[k]));
        if test(read[k]) {
            assert(read.filter(test).contains(read[k]));
            let i = choose|i: int| 0 <= i < found.len() && found[i] == read[k];
            assert(result->Ok_0@[i]@ == found[i]);
        }
        if exists|i: int|
            0 <= i < result->Ok_0@.len() && (#[trigger] result->Ok_0@[i])@ == channel_read(
                objects@[k],
            ) {
            let i = choose|i: int|
                0 <= i < result->Ok_0@.len() && (#[trigger] result->Ok_0@[i])@ == channel_read(
                    objects@[k],
                );
            assert(result->Ok_0@[i]@.version.len() > 0);
            assert(test(read[k]));
        }
    }
}

/// An environment with two channels for one product is not planned for.
pub proof fn doubled_channels_are_refused(
    environment: &str,
    objects: &Vec<Object>,
    result: Result<Vec<Channel>, Error>,
    i: int,
    j: int,
)
    requires
        call_ensures(planned_channels, (environment, objects), result),
        0 <= i < j < objects@.len(),
        objects@[i].property("product"@) is Some,
        objects@[i].property("product"@) == objects@[j].property("product"@),
    ensures
        result is Err,
{
    let products = products_of(channels_read(objects@));
    assert(channels_read(objects@)[i] == channel_read(objects@[i]));
    assert(channels_read(objects@)[j] == channel_read(objects@[j]));
    assert(products[i] == products[j]);
    super::convergence::lemma_subscribed_once(environment@, products);
    assert(!products.no_duplicates());
}

/// An environment whose channels are for different products is planned for.
pub proof fn distinct_channels_are_planned(
    environment: &str,
    objects: &Vec<Object>,
    result: Result<Vec<Channel>, Error>,
)
    requires
        call_ensures(planned_channels, (environment, objects), result),
        forall|i: int, j: int|
            0 <= i < j < objects@.len() ==> channel_read(#[trigger] objects@[i]).product
                != channel_read(#[trigger] objects@[j]).product,
    ensures
        result is Ok,
{
    let products = products_of(channels_read(objects@));
    assert forall|i: int, j: int|
        0 <= i < products.len() && 0 <= j < products.len() && i != j implies products[i]
        != products[j] by {
        assert(products[i] == channel_read(objects@[i]).product);
        assert(products[j] == channel_read(objects@[j]).product);
    }
    super::convergence::lemma_subscribed_once(environment@, products);
}

} // verus!
