//! Checked reads of stored plans: the indexes by which plans are found must
//! agree with what is stored.
use super::lifecycle::{
    from_object, identity_refusal, object_refusal, require_indexed_identity, PlanPayloadPeek,
    StoredPlan, Transition,
};
use super::{Plan, PlanState, NO_OP_STATUS_DETAIL};
use crate::error::{first_refusal, refusal, refuse_unless, Error};
use crate::graph::Object;
use crate::text::{blank, opt_text, same, texts};
use vstd::prelude::*;

verus! {

/// Why an object shows that a plan of an environment left its index.
/// `payload` is the environment that its plan names, where that can be read.
pub open spec fn retarget_refusal(
    object: Object,
    payload: Option<Seq<char>>,
    environment: Seq<char>,
) -> Option<Seq<char>> {
    let index = object.property("environment"@);
    if object.property("plan"@) is None {
        refuse_unless(
            index != Some(environment),
            "plan object "@ + object.id@ + " has no serialized plan"@,
        )
    } else if payload is None {
        refuse_unless(
            index != Some(environment),
            "parsing stored plan environment "@ + object.id@,
        )
    } else if payload->0 != environment {
        None
    } else if index is None {
        Some("plan object "@ + object.id@ + " has no environment index"@)
    } else {
        refuse_unless(
            index->0 == environment,
            "plan "@ + object.id@ + " environment index "@ + index->0 + " does not match payload "@
                + environment,
        )
    }
}

/// Why the first objects of a list show that a plan of an environment left its
/// index.
pub open spec fn retargets_refusal(
    objects: Seq<Object>,
    payloads: Seq<Option<String>>,
    environment: Seq<char>,
    count: nat,
) -> Option<Seq<char>>
    decreases count,
{
    if count == 0 {
        None
    } else {
        first_refusal(
            retargets_refusal(objects, payloads, environment, (count - 1) as nat),
            retarget_refusal(
                objects[count - 1],
                opt_text(payloads[count - 1]),
                environment,
            ),
        )
    }
}

proof fn lemma_retargets_stop(
    objects: Seq<Object>,
    payloads: Seq<Option<String>>,
    environment: Seq<char>,
    at: nat,
)
    requires
        at <= objects.len(),
        retargets_refusal(objects, payloads, environment, at) is Some,
    ensures
        retargets_refusal(objects, payloads, environment, objects.len()) == retargets_refusal(
            objects,
            payloads,
            environment,
            at,
        ),
    decreases objects.len() - at,
{
    if at < objects.len() {
        lemma_retargets_stop(objects, payloads, environment, at + 1);
    }
}

fn check_retarget(object: &Object, payload: &Option<String>, environment: &str) -> (result: Result<
    (),
    Error,
>)
    ensures
        refusal(result) == retarget_refusal(*object, opt_text(*payload), environment@),
{
    let index = object.properties.text("environment");
    let here = match index {
        Some(text) => same(text, environment),
        None => false,
    };
    if object.properties.text("plan").is_none() {
        if !here {
            return Ok(());
        }
        let mut message = "plan object ".to_owned();
        message.append(object.id.as_str());
        message.append(" has no serialized plan");
        return Err(Error::new(message));
    }
    match payload {
        None => {
            if !here {
                return Ok(());
            }
            let mut message = "parsing stored plan environment ".to_owned();
            message.append(object.id.as_str());
            return Err(Error::new(message));
        },
        Some(named) => {
            if !same(named, environment) {
                return Ok(());
            }
        },
    }
    match index {
        None => {
            let mut message = "plan object ".to_owned();
            message.append(object.id.as_str());
            message.append(" has no environment index");
            Err(Error::new(message))
        },
        Some(text) => {
            if here {
                return Ok(());
            }
            let mut message = "plan ".to_owned();
            message.append(object.id.as_str());
            message.append(" environment index ");
            message.append(text);
            message.append(" does not match payload ");
            message.append(environment);
            Err(Error::new(message))
        },
    }
}

/// Fail where a plan of an environment is no longer found by its index. A
/// lookup by the index cannot show that, so all plans are looked at.
/// `payloads` holds the environment that each plan names, where that can be
/// read. What cannot be read and is indexed elsewhere is passed over.
pub fn reject_retargeted_environment_index(
    objects: &Vec<Object>,
    payloads: &Vec<Option<String>>,
    environment: &str,
) -> (result: Result<(), Error>)
    requires
        objects@.len() == payloads@.len(),
    ensures
        refusal(result) == retargets_refusal(
            objects@,
            payloads@,
            environment@,
            objects@.len(),
        ),
{
    let mut i: usize = 0;
    while i < objects.len()
        invariant
            i <= objects.len(),
            objects@.len() == payloads@.len(),
            retargets_refusal(objects@, payloads@, environment@, i as nat) is None,
        decreases objects.len() - i,
    {
        match check_retarget(&objects[i], &payloads[i], environment) {
            Err(error) => {
                proof {
                    lemma_retargets_stop(objects@, payloads@, environment@, (i + 1) as nat);
                }
                return Err(error);
            },
            Ok(_) => {},
        }
        i = i + 1;
    }
    Ok(())
}

/// Where no scan was refused, every readable plan of an environment is found
/// by its index.
pub proof fn accepted_scan_hides_no_plan(
    objects: Seq<Object>,
    payloads: Seq<Option<String>>,
    environment: Seq<char>,
    count: nat,
    i: int,
)
    requires
        retargets_refusal(objects, payloads, environment, count) is None,
        0 <= i < count,
        objects[i].property("plan"@) is Some,
        opt_text(payloads[i]) == Some(environment),
    ensures
        objects[i].property("environment"@) == Some(environment),
    decreases count,
{
    if i < count - 1 {
        accepted_scan_hides_no_plan(objects, payloads, environment, (count - 1) as nat, i);
    }
}

/// Why an object that a lookup returned is refused.
pub open spec fn lookup_refusal(
    object: Object,
    peek: Option<PlanPayloadPeek>,
    environment: Seq<char>,
) -> Option<Seq<char>> {
    first_refusal(
        identity_refusal(object, peek),
        refuse_unless(
            peek->0.environment@ == environment,
            "plan "@ + object.id@ + " property index returned environment "@
                + peek->0.environment@ + ", expected "@ + environment,
        ),
    )
}

/// Why the first objects that a lookup returned are refused.
pub open spec fn lookups_refusal(
    objects: Seq<Object>,
    peeks: Seq<Option<PlanPayloadPeek>>,
    environment: Seq<char>,
    count: nat,
) -> Option<Seq<char>>
    decreases count,
{
    if count == 0 {
        None
    } else {
        first_refusal(
            lookups_refusal(objects, peeks, environment, (count - 1) as nat),
            lookup_refusal(objects[count - 1], peeks[count - 1], environment),
        )
    }
}

proof fn lemma_lookups_stop(
    objects: Seq<Object>,
    peeks: Seq<Option<PlanPayloadPeek>>,
    environment: Seq<char>,
    at: nat,
)
    requires
        at <= objects.len(),
        lookups_refusal(objects, peeks, environment, at) is Some,
    ensures
        lookups_refusal(objects, peeks, environment, objects.len()) == lookups_refusal(
            objects,
            peeks,
            environment,
            at,
        ),
    decreases objects.len() - at,
{
    if at < objects.len() {
        lemma_lookups_stop(objects, peeks, environment, at + 1);
    }
}

/// A copy of what was read of a stored plan.
pub fn copy_peek(peek: &PlanPayloadPeek) -> (copy: PlanPayloadPeek)
    ensures
        copy.created_at == peek.created_at,
        copy.environment@ == peek.environment@,
        copy.state == peek.state,
        copy.steps_empty == peek.steps_empty,
{
    PlanPayloadPeek {
        created_at: peek.created_at,
        environment: peek.environment.clone(),
        state: peek.state,
        steps_empty: peek.steps_empty,
    }
}

fn copy_opt_peek(peek: &Option<PlanPayloadPeek>) -> (copy: Option<PlanPayloadPeek>)
    ensures
        match (copy, *peek) {
            (Some(a), Some(b)) => a.created_at == b.created_at && a.environment@ == b.environment@
                && a.state == b.state && a.steps_empty == b.steps_empty,
            (None, None) => true,
            _ => false,
        },
{
    match peek {
        Some(found) => Some(copy_peek(found)),
        None => None,
    }
}

fn check_lookup(object: &Object, peek: &Option<PlanPayloadPeek>, environment: &str) -> (result:
    Result<(), Error>)
    ensures
        refusal(result) == lookup_refusal(*object, *peek, environment@),
        result is Ok ==> peek is Some,
{
    let copy = copy_opt_peek(peek);
    let found = match require_indexed_identity(object, copy) {
        Err(error) => return Err(error),
        Ok(found) => found,
    };
    if !same(&found.environment, environment) {
        let mut message = "plan ".to_owned();
        message.append(object.id.as_str());
        message.append(" property index returned environment ");
        message.append(found.environment.as_str());
        message.append(", expected ");
        message.append(environment);
        return Err(Error::new(message));
    }
    Ok(())
}

/// Check that the indexes of all plans of an environment agree with what is
/// stored. `objects` are those that a lookup by the environment returned.
pub fn require_environment_indexes_match_payloads(
    objects: &Vec<Object>,
    peeks: &Vec<Option<PlanPayloadPeek>>,
    environment: &str,
) -> (result: Result<(), Error>)
    requires
        objects@.len() == peeks@.len(),
    ensures
        refusal(result) == lookups_refusal(objects@, peeks@, environment@, objects@.len()),
{
    match newest_plan_from_objects(objects, peeks, environment) {
        Err(error) => Err(error),
        Ok(_) => Ok(()),
    }
}

/// The place of the newest of the first plans, the first of those created at
/// the same time.
pub open spec fn newest_at(peeks: Seq<Option<PlanPayloadPeek>>, count: nat) -> Option<int>
    decreases count,
{
    if count == 0 {
        None
    } else {
        let before = newest_at(peeks, (count - 1) as nat);
        if before is None || peeks[count - 1]->0.created_at > peeks[before->0]->0.created_at {
            Some(count - 1)
        } else {
            before
        }
    }
}

/// The place of the newest plan of an environment among those that a lookup
/// returned. All of them are checked, so that an index that understates the
/// age of a plan cannot hide another.
pub fn newest_plan_from_objects(
    objects: &Vec<Object>,
    peeks: &Vec<Option<PlanPayloadPeek>>,
    environment: &str,
) -> (result: Result<Option<usize>, Error>)
    requires
        objects@.len() == peeks@.len(),
    ensures
        refusal(result) == lookups_refusal(objects@, peeks@, environment@, objects@.len()),
        result matches Ok(found) ==> match found {
            Some(at) => at < objects@.len() && newest_at(peeks@, objects@.len()) == Some(
                at as int,
            ),
            None => objects@.len() == 0,
        },
{
    let mut newest: Option<usize> = None;
    let mut best: i64 = 0;
    let mut i: usize = 0;
    while i < objects.len()
        invariant
            i <= objects.len(),
            objects@.len() == peeks@.len(),
            lookups_refusal(objects@, peeks@, environment@, i as nat) is None,
            match newest {
                Some(at) => at < i && newest_at(peeks@, i as nat) == Some(at as int)
                    && peeks@[at as int] is Some && peeks@[at as int]->0.created_at == best,
                None => i == 0,
            },
        decreases objects.len() - i,
    {
        match check_lookup(&objects[i], &peeks[i], environment) {
            Err(error) => {
                proof {
                    lemma_lookups_stop(objects@, peeks@, environment@, (i + 1) as nat);
                }
                return Err(error);
            },
            Ok(_) => {},
        }
        match &peeks[i] {
            Some(peek) => {
                if newest.is_none() || peek.created_at > best {
                    newest = Some(i);
                    best = peek.created_at;
                }
            },
            None => {},
        }
        i = i + 1;
    }
    Ok(newest)
}

/// No plan of the lookup is newer than the one that is found.
pub proof fn newest_plan_is_newest(peeks: Seq<Option<PlanPayloadPeek>>, count: nat, i: int)
    requires
        0 <= i < count <= peeks.len(),
    ensures
        newest_at(peeks, count) matches Some(at) && 0 <= at < count && peeks[at]->0.created_at
            >= peeks[i]->0.created_at,
    decreases count,
{
    assert(newest_at(peeks, 0) is None);
    if count > 1 {
        if i < count - 1 {
            newest_plan_is_newest(peeks, (count - 1) as nat, i);
        } else {
            newest_plan_is_newest(peeks, (count - 1) as nat, 0);
        }
    }
}

/// Why a plan that a lookup returned does not belong in its result.
pub open spec fn listing_refusal(
    plan: Plan,
    environment: Seq<char>,
    statuses: Option<Seq<PlanState>>,
) -> Option<Seq<char>> {
    if plan.environment@ != environment {
        Some(
            "plan "@ + plan.id@ + " property index returned environment "@ + plan.environment@
                + ", expected "@ + environment,
        )
    } else if statuses is Some && !statuses->0.contains(plan.state) {
        Some(
            "plan "@ + plan.id@ + " property index returned status "@ + plan.state.word()
                + ", outside the requested filter"@,
        )
    } else {
        None
    }
}

fn allows(statuses: &Vec<PlanState>, state: PlanState) -> (answer: bool)
    ensures
        answer == statuses@.contains(state),
{
    let mut i: usize = 0;
    while i < statuses.len()
        invariant
            i <= statuses.len(),
            forall|k: int| 0 <= k < i ==> statuses@[k] != state,
        decreases statuses.len() - i,
    {
        if statuses[i] == state {
            assert(statuses@[i as int] == state);
            return true;
        }
        i = i + 1;
    }
    false
}

/// What an optional filter holds.
pub open spec fn opt_states(statuses: Option<&Vec<PlanState>>) -> Option<Seq<PlanState>> {
    match statuses {
        Some(list) => Some(list@),
        None => None,
    }
}

/// Whether a plan that a lookup returned is kept: one with steps, or without,
/// as asked for.
pub fn keep_listed(
    plan: &Plan,
    environment: &str,
    statuses: Option<&Vec<PlanState>>,
    has_steps: Option<bool>,
) -> (result: Result<bool, Error>)
    ensures
        refusal(result) == listing_refusal(*plan, environment@, opt_states(statuses)),
        result matches Ok(keep) ==> keep == (has_steps is None || (plan.steps@.len() > 0)
            == has_steps->0),
{
    if !same(&plan.environment, environment) {
        let mut message = "plan ".to_owned();
        message.append(plan.id.as_str());
        message.append(" property index returned environment ");
        message.append(plan.environment.as_str());
        message.append(", expected ");
        message.append(environment);
        return Err(Error::new(message));
    }
    match statuses {
        None => {},
        Some(list) => {
            if !allows(list, plan.state) {
                let mut message = "plan ".to_owned();
                message.append(plan.id.as_str());
                message.append(" property index returned status ");
                message.append(plan.state.to_string().as_str());
                message.append(", outside the requested filter");
                return Err(Error::new(message));
            }
        },
    }
    match has_steps {
        None => Ok(true),
        Some(wanted) => Ok((plan.steps.len() > 0) == wanted),
    }
}

/// Why the first rows of a lookup are refused: the first that cannot be read
/// or does not belong in the result.
pub open spec fn rows_refusal(
    objects: Seq<Object>,
    stored: Seq<Option<StoredPlan>>,
    environment: Seq<char>,
    statuses: Option<Seq<PlanState>>,
    count: nat,
) -> Option<Seq<char>>
    decreases count,
{
    if count == 0 {
        None
    } else {
        first_refusal(
            rows_refusal(objects, stored, environment, statuses, (count - 1) as nat),
            first_refusal(
                object_refusal(objects[count - 1], stored[count - 1]),
                listing_refusal(stored[count - 1]->0.plan, environment, statuses),
            ),
        )
    }
}

/// The plans of the first rows of a lookup: those with steps, or without, as
/// asked for.
pub open spec fn listed_plans(
    stored: Seq<Option<StoredPlan>>,
    has_steps: Option<bool>,
    count: nat,
) -> Seq<Plan>
    decreases count,
{
    if count == 0 {
        Seq::empty()
    } else {
        let before = listed_plans(stored, has_steps, (count - 1) as nat);
        let plan = stored[count - 1]->0.plan;
        if has_steps is None || (plan.steps@.len() > 0) == has_steps->0 {
            before.push(plan)
        } else {
            before
        }
    }
}

proof fn lemma_rows_stop(
    objects: Seq<Object>,
    stored: Seq<Option<StoredPlan>>,
    environment: Seq<char>,
    statuses: Option<Seq<PlanState>>,
    at: nat,
    count: nat,
)
    requires
        at <= count,
        rows_refusal(objects, stored, environment, statuses, at) is Some,
    ensures
        rows_refusal(objects, stored, environment, statuses, count) == rows_refusal(
            objects,
            stored,
            environment,
            statuses,
            at,
        ),
    decreases count,
{
    if at < count {
        lemma_rows_stop(objects, stored, environment, statuses, at, (count - 1) as nat);
    }
}

/// The plans of a lookup. `stored` is what the plan of each object reads as,
/// where it can be read.
pub fn plans_from_objects(
    objects: &Vec<Object>,
    stored: Vec<Option<StoredPlan>>,
    environment: &str,
    statuses: Option<&Vec<PlanState>>,
    has_steps: Option<bool>,
) -> (result: Result<Vec<Plan>, Error>)
    requires
        objects@.len() == stored@.len(),
    ensures
        refusal(result) == rows_refusal(
            objects@,
            stored@,
            environment@,
            opt_states(statuses),
            objects@.len(),
        ),
        result matches Ok(plans) ==> plans@ == listed_plans(stored@, has_steps, objects@.len()),
{
    let mut left = stored;
    let mut plans: Vec<Plan> = Vec::new();
    let mut i: usize = 0;
    while i < objects.len()
        invariant
            i <= objects.len(),
            objects@.len() == stored@.len(),
            left@.len() == stored@.len(),
            forall|k: int| i <= k < stored@.len() ==> #[trigger] left@[k] == stored@[k],
            rows_refusal(objects@, stored@, environment@, opt_states(statuses), i as nat) is None,
            plans@ == listed_plans(stored@, has_steps, i as nat),
        decreases objects.len() - i,
    {
        let row = left[i].take();
        let read = from_object(&objects[i], row);
        let found = match read {
            Ok(found) => found,
            Err(error) => {
                proof {
                    lemma_rows_stop(
                        objects@,
                        stored@,
                        environment@,
                        opt_states(statuses),
                        (i + 1) as nat,
                        objects@.len(),
                    );
                }
                return Err(error);
            },
        };
        match keep_listed(&found.plan, environment, statuses, has_steps) {
            Err(error) => {
                proof {
                    lemma_rows_stop(
                        objects@,
                        stored@,
                        environment@,
                        opt_states(statuses),
                        (i + 1) as nat,
                        objects@.len(),
                    );
                }
                return Err(error);
            },
            Ok(keep) => {
                if keep {
                    plans.push(found.plan);
                }
            },
        }
        i = i + 1;
    }
    Ok(plans)
}

/// A lookup of plans by their indexes, ordered by the time of creation.
#[derive(Debug, PartialEq, Eq)]
pub struct PlanQuery {
    pub environment: String,
    /// The words of the states that are asked for.
    pub statuses: Option<Vec<String>>,
    /// The word of the step index that is asked for.
    pub has_steps: Option<String>,
    pub descending: bool,
    pub limit: Option<u32>,
    pub offset: Option<u32>,
}

/// The words of states.
pub open spec fn state_words(states: Seq<PlanState>) -> Seq<Seq<char>> {
    states.map_values(|state: PlanState| state.word())
}

/// A lookup of the plans of an environment.
pub fn plan_query(
    environment: &str,
    statuses: Option<&Vec<PlanState>>,
    descending: bool,
    limit: Option<u32>,
    offset: Option<u32>,
    has_steps: Option<bool>,
) -> (result: Result<PlanQuery, Error>)
    ensures
        refusal(result) == refuse_unless(
            !blank(environment@),
            "environment is required for plan work selection"@,
        ),
        result matches Ok(query) ==> {
            &&& query.environment@ == environment@
            &&& match (query.statuses, statuses) {
                (Some(words), Some(states)) => texts(words@) == state_words(states@),
                (None, None) => true,
                _ => false,
            }
            &&& opt_text(query.has_steps) == (match has_steps {
                None => None,
                Some(value) => Some(super::lifecycle::truth_word(value)),
            })
            &&& query.descending == descending
            &&& query.limit == limit
            &&& query.offset == offset
        },
{
    if environment.trim().unicode_len() == 0 {
        return Err(Error::fixed("environment is required for plan work selection"));
    }
    let words = match statuses {
        None => None,
        Some(states) => {
            let mut words: Vec<String> = Vec::new();
            let mut i: usize = 0;
            while i < states.len()
                invariant
                    i <= states.len(),
                    words@.len() == i,
                    forall|k: int| 0 <= k < i ==> (#[trigger] words@[k])@ == states@[k].word(),
                decreases states.len() - i,
            {
                words.push(states[i].to_string());
                i = i + 1;
            }
            assert(texts(words@) =~= state_words(states@));
            Some(words)
        },
    };
    let steps = match has_steps {
        None => None,
        Some(value) => Some(
            if value {
                "true".to_owned()
            } else {
                "false".to_owned()
            },
        ),
    };
    Ok(
        PlanQuery {
            environment: environment.to_owned(),
            statuses: words,
            has_steps: steps,
            descending,
            limit,
            offset,
        },
    )
}

/// How a plan without steps is retired, so that it leaves work selection.
pub fn retire_empty(plan: &Plan) -> (result: Result<Transition, Error>)
    ensures
        refusal(result) == refuse_unless(
            plan.steps@.len() == 0,
            "plan "@ + plan.id@
                + " has_steps index selected an executable plan for empty retirement"@,
        ),
        result matches Ok(transition) ==> transition.state == PlanState::Succeeded
            && transition.gates_skipped is None && transition.status_detail@
            == NO_OP_STATUS_DETAIL@ && !transition.maintenance_blocked,
{
    if plan.steps.len() != 0 {
        let mut message = "plan ".to_owned();
        message.append(plan.id.as_str());
        message.append(" has_steps index selected an executable plan for empty retirement");
        return Err(Error::new(message));
    }
    Ok(Transition::new(PlanState::Succeeded, NO_OP_STATUS_DETAIL))
}

proof fn lemma_retargets_each(
    objects: Seq<Object>,
    payloads: Seq<Option<String>>,
    environment: Seq<char>,
    count: nat,
)
    ensures
        retargets_refusal(objects, payloads, environment, count) is None <==> forall|i: int|
            0 <= i < count ==> retarget_refusal(
                #[trigger] objects[i],
                opt_text(payloads[i]),
                environment,
            ) is None,
    decreases count,
{
    if count > 0 {
        lemma_retargets_each(objects, payloads, environment, (count - 1) as nat);
        if retargets_refusal(objects, payloads, environment, count) is Some && retargets_refusal(
            objects,
            payloads,
            environment,
            (count - 1) as nat,
        ) is None {
            assert(retarget_refusal(
                objects[count - 1],
                opt_text(payloads[count - 1]),
                environment,
            ) is Some);
        }
    }
}

/// The scan of all plans is accepted if and only if each plan is indexed under
/// the environment that it names, as far as the one that is looked for goes: a
/// plan that names it is indexed under it, and what is indexed under it can be
/// read.
pub proof fn accepted_scans(
    objects: &Vec<Object>,
    payloads: &Vec<Option<String>>,
    environment: &str,
    result: Result<(), Error>,
)
    requires
        objects@.len() == payloads@.len(),
        call_ensures(reject_retargeted_environment_index, (objects, payloads, environment), result),
    ensures
        result is Ok <==> forall|i: int|
            0 <= i < objects@.len() ==> {
                let index = (#[trigger] objects@[i]).property("environment"@);
                let readable = objects@[i].property("plan"@) is Some && payloads@[i] is Some;
                &&& readable && payloads@[i]->0@ == environment@ ==> index == Some(environment@)
                &&& !readable ==> index != Some(environment@)
            },
{
    lemma_retargets_each(objects@, payloads@, environment@, objects@.len());
    if result is Ok {
        assert forall|i: int| 0 <= i < objects@.len() implies {
            let index = (#[trigger] objects@[i]).property("environment"@);
            let readable = objects@[i].property("plan"@) is Some && payloads@[i] is Some;
            &&& readable && payloads@[i]->0@ == environment@ ==> index == Some(environment@)
            &&& !readable ==> index != Some(environment@)
        } by {
            assert(retarget_refusal(objects@[i], opt_text(payloads@[i]), environment@) is None);
        }
    }
}

/// What a row of a lookup must be: its indexes tell what its plan says, and the
/// plan is of the environment that was looked for.
pub open spec fn proper_row(
    object: Object,
    peek: Option<PlanPayloadPeek>,
    environment: Seq<char>,
) -> bool {
    &&& peek is Some
    &&& object.property("plan"@) is Some
    &&& object.property("created_at"@) matches Some(index) && crate::text::signed_value(index)
        == Some(peek->0.created_at as int)
    &&& object.property("environment"@) == Some(environment)
    &&& peek->0.environment@ == environment
    &&& object.property("status"@) == Some(peek->0.state.word())
    &&& object.property("has_steps"@) == Some(
        if peek->0.steps_empty {
            "false"@
        } else {
            "true"@
        },
    )
}

proof fn lemma_lookups_each(
    objects: Seq<Object>,
    peeks: Seq<Option<PlanPayloadPeek>>,
    environment: Seq<char>,
    count: nat,
)
    ensures
        lookups_refusal(objects, peeks, environment, count) is None <==> forall|i: int|
            0 <= i < count ==> proper_row(#[trigger] objects[i], peeks[i], environment),
    decreases count,
{
    if count > 0 {
        lemma_lookups_each(objects, peeks, environment, (count - 1) as nat);
        let last = count - 1;
        assert(lookup_refusal(objects[last], peeks[last], environment) is None <==> proper_row(
            objects[last],
            peeks[last],
            environment,
        ));
    }
}

/// The rows of a lookup are accepted if and only if each is a proper one.
pub proof fn accepted_lookups(
    objects: &Vec<Object>,
    peeks: &Vec<Option<PlanPayloadPeek>>,
    environment: &str,
    result: Result<(), Error>,
)
    requires
        objects@.len() == peeks@.len(),
        call_ensures(
            require_environment_indexes_match_payloads,
            (objects, peeks, environment),
            result,
        ),
    ensures
        result is Ok <==> forall|i: int|
            0 <= i < objects@.len() ==> proper_row(#[trigger] objects@[i], peeks@[i], environment@),
{
    lemma_lookups_each(objects@, peeks@, environment@, objects@.len());
}

proof fn lemma_newest_first(peeks: Seq<Option<PlanPayloadPeek>>, count: nat, i: int)
    requires
        count <= peeks.len(),
        newest_at(peeks, count) matches Some(at) && 0 <= i < at,
    ensures
        peeks[i]->0.created_at < peeks[newest_at(peeks, count)->0]->0.created_at,
    decreases count,
{
    if count > 0 {
        let before = newest_at(peeks, (count - 1) as nat);
        if newest_at(peeks, count) == Some(count - 1) {
            if count > 1 {
                newest_plan_is_newest(peeks, (count - 1) as nat, i);
            }
        } else {
            lemma_newest_first(peeks, (count - 1) as nat, i);
        }
    }
}

/// The newest plan of a lookup is found where every row is a proper one: none
/// was created later, and those before it were created earlier. One improper
/// row refuses the whole lookup.
pub proof fn newest_plans(
    objects: &Vec<Object>,
    peeks: &Vec<Option<PlanPayloadPeek>>,
    environment: &str,
    result: Result<Option<usize>, Error>,
)
    requires
        objects@.len() == peeks@.len(),
        call_ensures(newest_plan_from_objects, (objects, peeks, environment), result),
    ensures
        result is Ok <==> forall|i: int|
            0 <= i < objects@.len() ==> proper_row(#[trigger] objects@[i], peeks@[i], environment@),
        result matches Ok(found) ==> (found is None <==> objects@.len() == 0),
        result matches Ok(Some(at)) ==> at < objects@.len() && forall|i: int|
            0 <= i < objects@.len() ==> (#[trigger] peeks@[i])->0.created_at
                <= peeks@[at as int]->0.created_at && (i < at ==> peeks@[i]->0.created_at
                < peeks@[at as int]->0.created_at),
{
    lemma_lookups_each(objects@, peeks@, environment@, objects@.len());
    if result is Ok && result->Ok_0 is Some {
        let at = result->Ok_0->0 as int;
        assert forall|i: int| 0 <= i < objects@.len() implies (#[trigger] peeks@[i])->0.created_at
            <= peeks@[at]->0.created_at && (i < at ==> peeks@[i]->0.created_at
            < peeks@[at]->0.created_at) by {
            newest_plan_is_newest(peeks@, objects@.len(), i);
            if i < at {
                lemma_newest_first(peeks@, objects@.len(), i);
            }
        }
    }
}

/// A plan of a lookup belongs in its result if and only if it is of the
/// environment and in a state that were asked for. It is kept if and only if it
/// has steps, or has none, as asked for.
pub proof fn kept_plans(
    plan: &Plan,
    environment: &str,
    statuses: Option<&Vec<PlanState>>,
    has_steps: Option<bool>,
    result: Result<bool, Error>,
)
    requires
        call_ensures(keep_listed, (plan, environment, statuses, has_steps), result),
    ensures
        result is Ok <==> plan.environment@ == environment@ && (statuses is None || exists|i: int|
            0 <= i < statuses->0@.len() && #[trigger] statuses->0@[i] == plan.state),
        result matches Ok(keep) ==> (keep <==> (has_steps == Some(true) ==> plan.steps@.len() > 0)
            && (has_steps == Some(false) ==> plan.steps@.len() == 0)),
{
    if statuses is Some {
        if statuses->0@.contains(plan.state) {
            let i = choose|i: int| 0 <= i < statuses->0@.len() && statuses->0@[i] == plan.state;
            assert(statuses->0@[i] == plan.state);
        }
    }
}

proof fn lemma_rows_each(
    objects: Seq<Object>,
    stored: Seq<Option<StoredPlan>>,
    environment: Seq<char>,
    statuses: Option<Seq<PlanState>>,
    count: nat,
)
    ensures
        rows_refusal(objects, stored, environment, statuses, count) is None <==> forall|i: int|
            0 <= i < count ==> object_refusal(#[trigger] objects[i], stored[i]) is None
                && stored[i]->0.plan.environment@ == environment && (statuses is None
                || statuses->0.contains(stored[i]->0.plan.state)),
    decreases count,
{
    if count > 0 {
        lemma_rows_each(objects, stored, environment, statuses, (count - 1) as nat);
        let last = count - 1;
        assert((object_refusal(objects[last], stored[last]) is None && listing_refusal(
            stored[last]->0.plan,
            environment,
            statuses,
        ) is None) <==> (object_refusal(objects[last], stored[last]) is None
            && stored[last]->0.plan.environment@ == environment && (statuses is None
            || statuses->0.contains(stored[last]->0.plan.state))));
    }
}

proof fn lemma_listed_each(
    stored: Seq<Option<StoredPlan>>,
    has_steps: Option<bool>,
    count: nat,
    i: int,
)
    requires
        0 <= i < count,
        has_steps is None || (stored[i]->0.plan.steps@.len() > 0) == has_steps->0,
    ensures
        listed_plans(stored, has_steps, count).contains(stored[i]->0.plan),
    decreases count,
{
    let before = listed_plans(stored, has_steps, (count - 1) as nat);
    let list = listed_plans(stored, has_steps, count);
    if i == count - 1 {
        assert(list[list.len() - 1] == stored[i]->0.plan);
    } else {
        lemma_listed_each(stored, has_steps, (count - 1) as nat, i);
        let k = choose|k: int| 0 <= k < before.len() && before[k] == stored[i]->0.plan;
        assert(list[k] == stored[i]->0.plan);
    }
}

proof fn lemma_listed_backed(
    stored: Seq<Option<StoredPlan>>,
    has_steps: Option<bool>,
    count: nat,
    k: int,
)
    requires
        0 <= k < listed_plans(stored, has_steps, count).len(),
    ensures
        exists|i: int|
            0 <= i < count && (#[trigger] stored[i])->0.plan == listed_plans(
                stored,
                has_steps,
                count,
            )[k] && (has_steps is None || (stored[i]->0.plan.steps@.len() > 0) == has_steps->0),
    decreases count,
{
    if count > 0 {
        let before = listed_plans(stored, has_steps, (count - 1) as nat);
        let list = listed_plans(stored, has_steps, count);
        if k < before.len() {
            lemma_listed_backed(stored, has_steps, (count - 1) as nat, k);
        } else {
            assert(stored[count - 1]->0.plan == list[k]);
        }
    }
}

/// A lookup gives the plans with steps, or without, as asked for, and no other.
/// It is refused where a row cannot be read, is of another environment, or in a
/// state that was not asked for.
pub proof fn listed_plans_are_asked_for(
    objects: &Vec<Object>,
    stored: Vec<Option<StoredPlan>>,
    environment: &str,
    statuses: Option<&Vec<PlanState>>,
    has_steps: Option<bool>,
    result: Result<Vec<Plan>, Error>,
)
    requires
        objects@.len() == stored@.len(),
        call_ensures(
            plans_from_objects,
            (objects, stored, environment, statuses, has_steps),
            result,
        ),
    ensures
        result is Ok <==> forall|i: int|
            0 <= i < objects@.len() ==> object_refusal(#[trigger] objects@[i], stored@[i]) is None
                && stored@[i]->0.plan.environment@ == environment@ && (statuses is None
                || statuses->0@.contains(stored@[i]->0.plan.state)),
        result matches Ok(plans) ==> forall|i: int|
            0 <= i < stored@.len() && (has_steps is None || ((#[trigger] stored@[i])->0.plan.steps@.len()
                > 0) == has_steps->0) ==> plans@.contains(stored@[i]->0.plan),
        result matches Ok(plans) ==> forall|k: int|
            0 <= k < plans@.len() ==> (has_steps is None || ((#[trigger] plans@[k]).steps@.len()
                > 0) == has_steps->0) && exists|i: int|
                0 <= i < stored@.len() && (#[trigger] stored@[i])->0.plan == plans@[k],
{
    lemma_rows_each(objects@, stored@, environment@, opt_states(statuses), objects@.len());
    if result is Ok {
        let plans = result->Ok_0@;
        assert forall|i: int| 0 <= i < stored@.len() && (has_steps is None || ((
        #[trigger] stored@[i])->0.plan.steps@.len() > 0) == has_steps->0) implies plans.contains(
            stored@[i]->0.plan,
        ) by {
            lemma_listed_each(stored@, has_steps, objects@.len(), i);
        }
        assert forall|k: int| 0 <= k < plans.len() implies (has_steps is None || ((
        #[trigger] plans[k]).steps@.len() > 0) == has_steps->0) && exists|i: int|
            0 <= i < stored@.len() && (#[trigger] stored@[i])->0.plan == plans[k] by {
            lemma_listed_backed(stored@, has_steps, objects@.len(), k);
        }
    }
}

/// A lookup asks for what it was told to: the environment, the words of the
/// states, and the word for plans with steps or without.
pub proof fn queries_ask_as_told(
    environment: &str,
    statuses: Option<&Vec<PlanState>>,
    descending: bool,
    limit: Option<u32>,
    offset: Option<u32>,
    has_steps: Option<bool>,
    result: Result<PlanQuery, Error>,
)
    requires
        call_ensures(
            plan_query,
            (environment, statuses, descending, limit, offset, has_steps),
            result,
        ),
    ensures
        result is Ok <==> crate::text::trimmed(environment@).len() > 0,
        result matches Ok(query) ==> {
            &&& query.environment@ == environment@
            &&& query.descending == descending
            &&& query.limit == limit
            &&& query.offset == offset
            &&& query.statuses is Some <==> statuses is Some
            &&& query.statuses is Some ==> query.statuses->0@.len() == statuses->0@.len()
                && forall|i: int|
                0 <= i < statuses->0@.len() ==> (#[trigger] query.statuses->0@[i])@
                    == statuses->0@[i].word()
            &&& has_steps is None <==> query.has_steps is None
            &&& has_steps == Some(true) ==> query.has_steps->0@ == "true"@
            &&& has_steps == Some(false) ==> query.has_steps->0@ == "false"@
        },
{
    if result is Ok && statuses is Some {
        let words = result->Ok_0.statuses->0@;
        assert(texts(words).len() == words.len());
        assert forall|i: int| 0 <= i < statuses->0@.len() implies (#[trigger] words[i])@
            == statuses->0@[i].word() by {
            assert(texts(words)[i] == state_words(statuses->0@)[i]);
        }
    }
}

/// Only a plan without steps is retired, as succeeded without having run.
pub proof fn empty_plans_are_retired(plan: &Plan, result: Result<Transition, Error>)
    requires
        call_ensures(retire_empty, (plan,), result),
    ensures
        result is Ok <==> plan.steps@.len() == 0,
        result matches Ok(transition) ==> transition.state == PlanState::Succeeded
            && transition.gates_skipped is None && !transition.maintenance_blocked,
{
}

} // verus!
