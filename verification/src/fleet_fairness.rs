//! Fairness and failure isolation of the synthetic fleet.
//!
//! Environments that fail neither starve the others nor pass for successes.
use crate::environment::StoredEnvironment;
use crate::error::{first_refusal, refusal, refuse_unless, Error};
use crate::fleet_workload::{
    posture_named, posture_refusal, WorkloadPlan, WorkloadPosture, PROPERTY_POSTURE,
};
use crate::text::{decimal, decimal_text};
use crate::text_map::{text_at, TextMap};
use vstd::prelude::*;

verus! {

/// What was observed.
#[derive(Debug, PartialEq, Eq)]
pub struct FairnessReport {
    pub seed_digest: String,
    pub first_failures: usize,
    pub second_failures: usize,
    pub failing_applied: usize,
    pub healthy_results: usize,
    pub backup_environments: usize,
}

/// What is said of an observation.
pub open spec fn report_text(report: FairnessReport) -> Seq<char> {
    "fleet fairness seed_digest="@ + report.seed_digest@ + " first_failures="@ + decimal(
        report.first_failures as nat,
    ) + " second_failures="@ + decimal(report.second_failures as nat) + " failing_applied="@
        + decimal(report.failing_applied as nat) + " healthy_results="@ + decimal(
        report.healthy_results as nat,
    ) + " backup_environments="@ + decimal(report.backup_environments as nat)
}

/// Say what was observed.
pub fn format_report(report: &FairnessReport) -> (text: String)
    ensures
        text@ == report_text(*report),
{
    let mut text = "fleet fairness seed_digest=".to_owned();
    text.append(report.seed_digest.as_str());
    text.append(" first_failures=");
    text.append(decimal_text(report.first_failures as u64).as_str());
    text.append(" second_failures=");
    text.append(decimal_text(report.second_failures as u64).as_str());
    text.append(" failing_applied=");
    text.append(decimal_text(report.failing_applied as u64).as_str());
    text.append(" healthy_results=");
    text.append(decimal_text(report.healthy_results as u64).as_str());
    text.append(" backup_environments=");
    text.append(decimal_text(report.backup_environments as u64).as_str());
    text
}

/// What a tick did in one environment.
#[derive(Debug, PartialEq, Eq)]
pub struct TickEntry {
    pub environment: String,
    pub applied: bool,
}

/// What a tick did.
#[derive(Debug, PartialEq, Eq)]
pub struct Tick {
    pub entries: Vec<TickEntry>,
    pub failures: usize,
}

/// A posture is one of failure.
pub open spec fn is_failing(posture: WorkloadPosture) -> bool {
    posture == WorkloadPosture::Unhealthy || posture == WorkloadPosture::Blocked
}

/// An entry is of an environment whose posture is one of failure, or is not,
/// as asked for.
pub open spec fn entry_stands(
    entry: TickEntry,
    postures: Map<Seq<char>, WorkloadPosture>,
    failing: bool,
) -> bool {
    postures.contains_key(entry.environment@) && is_failing(postures[entry.environment@])
        == failing
}

/// How many failing environments a tick applied to.
pub open spec fn failing_applied(
    entries: Seq<TickEntry>,
    postures: Map<Seq<char>, WorkloadPosture>,
) -> nat
    decreases entries.len(),
{
    if entries.len() == 0 {
        0
    } else {
        failing_applied(entries.drop_last(), postures) + (if entries.last().applied && entry_stands(
            entries.last(),
            postures,
            true,
        ) {
            1nat
        } else {
            0nat
        })
    }
}

/// How many environments that do not fail a tick reached.
pub open spec fn healthy_results(
    entries: Seq<TickEntry>,
    postures: Map<Seq<char>, WorkloadPosture>,
) -> nat
    decreases entries.len(),
{
    if entries.len() == 0 {
        0
    } else {
        healthy_results(entries.drop_last(), postures) + (if entry_stands(
            entries.last(),
            postures,
            false,
        ) {
            1nat
        } else {
            0nat
        })
    }
}

fn stands(entry: &TickEntry, postures: &TextMap<WorkloadPosture>, failing: bool) -> (answer: bool)
    ensures
        answer == entry_stands(*entry, postures@, failing),
{
    match postures.get(entry.environment.as_str()) {
        None => false,
        Some(posture) => {
            let fails = *posture == WorkloadPosture::Unhealthy || *posture
                == WorkloadPosture::Blocked;
            fails == failing
        },
    }
}

/// Count the failing environments that a tick applied to.
pub fn count_failing_applied(tick: &Tick, postures: &TextMap<WorkloadPosture>) -> (count: usize)
    ensures
        count == failing_applied(tick.entries@, postures@),
        count <= tick.entries@.len(),
{
    let mut count: usize = 0;
    let mut i: usize = 0;
    while i < tick.entries.len()
        invariant
            i <= tick.entries.len(),
            count <= i,
            count == failing_applied(tick.entries@.take(i as int), postures@),
        decreases tick.entries.len() - i,
    {
        assert(tick.entries@.take(i + 1).drop_last() =~= tick.entries@.take(i as int));
        assert(tick.entries@.take(i + 1).last() == tick.entries@[i as int]);
        if tick.entries[i].applied && stands(&tick.entries[i], postures, true) {
            count = count + 1;
        }
        i = i + 1;
    }
    assert(tick.entries@.take(tick.entries@.len() as int) =~= tick.entries@);
    count
}

/// Count the environments that do not fail and that a tick reached.
pub fn count_healthy_results(tick: &Tick, postures: &TextMap<WorkloadPosture>) -> (count: usize)
    ensures
        count == healthy_results(tick.entries@, postures@),
        count <= tick.entries@.len(),
{
    let mut count: usize = 0;
    let mut i: usize = 0;
    while i < tick.entries.len()
        invariant
            i <= tick.entries.len(),
            count <= i,
            count == healthy_results(tick.entries@.take(i as int), postures@),
        decreases tick.entries.len() - i,
    {
        assert(tick.entries@.take(i + 1).drop_last() =~= tick.entries@.take(i as int));
        assert(tick.entries@.take(i + 1).last() == tick.entries@[i as int]);
        if stands(&tick.entries[i], postures, false) {
            count = count + 1;
        }
        i = i + 1;
    }
    assert(tick.entries@.take(tick.entries@.len() as int) =~= tick.entries@);
    count
}

/// Why two ticks are not fair.
pub open spec fn fairness_refusal(
    first: Seq<TickEntry>,
    second: Seq<TickEntry>,
    postures: Map<Seq<char>, WorkloadPosture>,
) -> Option<Seq<char>> {
    let applied = failing_applied(first, postures) + failing_applied(second, postures);
    first_refusal(
        refuse_unless(
            applied == 0,
            "failing environments manufactured success ("@ + decimal(applied) + " applied)"@,
        ),
        refuse_unless(
            healthy_results(first, postures) > 0,
            "failing environments starved healthy work"@,
        ),
    )
}

/// Check that two ticks are fair, and count what the first reached.
pub fn check_fairness(first: &Tick, second: &Tick, postures: &TextMap<WorkloadPosture>) -> (result:
    Result<usize, Error>)
    requires
        first.entries@.len() + second.entries@.len() <= usize::MAX,
    ensures
        refusal(result) == fairness_refusal(first.entries@, second.entries@, postures@),
        result matches Ok(reached) ==> reached == healthy_results(first.entries@, postures@),
{
    let applied = count_failing_applied(first, postures) + count_failing_applied(second, postures);
    if applied > 0 {
        let mut message = "failing environments manufactured success (".to_owned();
        message.append(decimal_text(applied as u64).as_str());
        message.append(" applied)");
        return Err(Error::new(message));
    }
    let reached = count_healthy_results(first, postures);
    if reached == 0 {
        return Err(Error::fixed("failing environments starved healthy work"));
    }
    Ok(reached)
}

/// Report on an observation, by what a backup of it recovered.
pub fn settle_observation(
    plan: &WorkloadPlan,
    first: &Tick,
    second: &Tick,
    reached: usize,
    recovered: usize,
) -> (result: Result<FairnessReport, Error>)
    ensures
        refusal(result) == refuse_unless(
            recovered == plan.members@.len(),
            "backup recovered "@ + decimal(recovered as nat)
                + " synthetic environments, expected "@ + decimal(plan.members@.len()),
        ),
        result matches Ok(report) ==> {
            &&& report.seed_digest@ == plan.seed_digest@
            &&& report.first_failures == first.failures
            &&& report.second_failures == second.failures
            &&& report.failing_applied == 0
            &&& report.healthy_results == reached
            &&& report.backup_environments == recovered
        },
{
    if recovered != plan.members.len() {
        let mut message = "backup recovered ".to_owned();
        message.append(decimal_text(recovered as u64).as_str());
        message.append(" synthetic environments, expected ");
        message.append(decimal_text(plan.members.len() as u64).as_str());
        return Err(Error::new(message));
    }
    Ok(
        FairnessReport {
            seed_digest: plan.seed_digest.clone(),
            first_failures: first.failures,
            second_failures: second.failures,
            failing_applied: 0,
            healthy_results: reached,
            backup_environments: recovered,
        },
    )
}

/// Where two ticks are fair, neither applied to an environment that fails.
pub proof fn fair_ticks_apply_to_no_failure(
    first: Seq<TickEntry>,
    second: Seq<TickEntry>,
    postures: Map<Seq<char>, WorkloadPosture>,
    at: int,
)
    requires
        fairness_refusal(first, second, postures) is None,
    ensures
        0 <= at < first.len() && first[at].applied ==> !entry_stands(first[at], postures, true),
        0 <= at < second.len() && second[at].applied ==> !entry_stands(second[at], postures, true),
{
    if 0 <= at < first.len() {
        lemma_none_applied(first, postures, at);
    }
    if 0 <= at < second.len() {
        lemma_none_applied(second, postures, at);
    }
}

proof fn lemma_none_applied(
    entries: Seq<TickEntry>,
    postures: Map<Seq<char>, WorkloadPosture>,
    at: int,
)
    requires
        failing_applied(entries, postures) == 0,
        0 <= at < entries.len(),
    ensures
        entries[at].applied ==> !entry_stands(entries[at], postures, true),
    decreases entries.len(),
{
    if at < entries.len() - 1 {
        lemma_none_applied(entries.drop_last(), postures, at);
    }
}

/// Why the posture of a stored environment is refused. One without a posture
/// is passed over.
pub open spec fn word_refusal(environment: StoredEnvironment) -> Option<Seq<char>> {
    match text_at(environment.properties@, PROPERTY_POSTURE@) {
        None => None,
        Some(word) => posture_refusal(word),
    }
}

/// Why stored environments are refused: the first that is.
pub open spec fn words_refusal(list: Seq<StoredEnvironment>) -> Option<Seq<char>>
    decreases list.len(),
{
    if list.len() == 0 {
        None
    } else {
        first_refusal(words_refusal(list.drop_last()), word_refusal(list.last()))
    }
}

/// The postures that are stored, by the names of the environments that have one.
pub open spec fn postures_of(list: Seq<StoredEnvironment>) -> Map<Seq<char>, WorkloadPosture>
    decreases list.len(),
{
    if list.len() == 0 {
        Map::empty()
    } else {
        let before = postures_of(list.drop_last());
        match text_at(list.last().properties@, PROPERTY_POSTURE@) {
            None => before,
            Some(word) => before.insert(list.last().name@, posture_named(word)->0),
        }
    }
}

proof fn lemma_words_stop(list: Seq<StoredEnvironment>, count: int)
    requires
        0 <= count <= list.len(),
        words_refusal(list.take(count)) is Some,
    ensures
        words_refusal(list) == words_refusal(list.take(count)),
    decreases list.len() - count,
{
    if count < list.len() {
        assert(list.take(count + 1).drop_last() =~= list.take(count));
        lemma_words_stop(list, count + 1);
    } else {
        assert(list.take(count) =~= list);
    }
}

/// The postures of the stored environments that have one.
pub fn stored_postures(environments: &Vec<StoredEnvironment>) -> (result: Result<
    TextMap<WorkloadPosture>,
    Error,
>)
    ensures
        refusal(result) == words_refusal(environments@),
        result matches Ok(postures) ==> postures@ == postures_of(environments@),
{
    let mut postures: TextMap<WorkloadPosture> = TextMap::new();
    let mut i: usize = 0;
    assert(environments@.take(0) =~= Seq::<StoredEnvironment>::empty());
    while i < environments.len()
        invariant
            i <= environments.len(),
            words_refusal(environments@.take(i as int)) is None,
            postures@ == postures_of(environments@.take(i as int)),
        decreases environments.len() - i,
    {
        let environment = &environments[i];
        assert(environments@.take(i + 1).drop_last() =~= environments@.take(i as int));
        match environment.properties.text(PROPERTY_POSTURE) {
            None => {},
            Some(word) => match WorkloadPosture::parse(word) {
                Err(error) => {
                    proof {
                        lemma_words_stop(environments@, i + 1);
                    }
                    return Err(error);
                },
                Ok(posture) => postures.insert(environment.name.clone(), posture),
            },
        }
        i = i + 1;
    }
    assert(environments@.take(environments@.len() as int) =~= environments@);
    Ok(postures)
}

/// An entry that applied in an environment that is unhealthy or blocked.
pub open spec fn failed_yet_applied(postures: Map<Seq<char>, WorkloadPosture>) -> spec_fn(
    TickEntry,
) -> bool {
    |entry: TickEntry|
        entry.applied && postures.contains_key(entry.environment@) && (
        postures[entry.environment@] == WorkloadPosture::Unhealthy
            || postures[entry.environment@] == WorkloadPosture::Blocked)
}

/// An entry of an environment that is neither unhealthy nor blocked.
pub open spec fn reached_healthy(postures: Map<Seq<char>, WorkloadPosture>) -> spec_fn(
    TickEntry,
) -> bool {
    |entry: TickEntry|
        postures.contains_key(entry.environment@) && postures[entry.environment@]
            != WorkloadPosture::Unhealthy && postures[entry.environment@]
            != WorkloadPosture::Blocked
}

proof fn lemma_entries_counted(
    entries: Seq<TickEntry>,
    postures: Map<Seq<char>, WorkloadPosture>,
)
    ensures
        failing_applied(entries, postures) == entries.filter(failed_yet_applied(postures)).len(),
        healthy_results(entries, postures) == entries.filter(reached_healthy(postures)).len(),
    decreases entries.len(),
{
    reveal(Seq::filter);
    if entries.len() > 0 {
        lemma_entries_counted(entries.drop_last(), postures);
    }
}

/// Each entry is counted once: among the failing ones that applied, among the
/// healthy ones, or not at all.
pub proof fn entries_are_counted(
    tick: &Tick,
    postures: &TextMap<WorkloadPosture>,
    failing: usize,
    healthy: usize,
)
    requires
        call_ensures(count_failing_applied, (tick, postures), failing),
        call_ensures(count_healthy_results, (tick, postures), healthy),
    ensures
        failing == tick.entries@.filter(failed_yet_applied(postures@)).len(),
        healthy == tick.entries@.filter(reached_healthy(postures@)).len(),
{
    lemma_entries_counted(tick.entries@, postures@);
}

proof fn lemma_none_failed(entries: Seq<TickEntry>, postures: Map<Seq<char>, WorkloadPosture>)
    ensures
        failing_applied(entries, postures) == 0 <==> forall|i: int|
            0 <= i < entries.len() ==> !failed_yet_applied(postures)(#[trigger] entries[i]),
        healthy_results(entries, postures) == 0 <==> forall|i: int|
            0 <= i < entries.len() ==> !reached_healthy(postures)(#[trigger] entries[i]),
    decreases entries.len(),
{
    if entries.len() > 0 {
        let front = entries.drop_last();
        lemma_none_failed(front, postures);
        assert(forall|i: int| 0 <= i < front.len() ==> front[i] == entries[i]);
        if failing_applied(entries, postures) == 0 {
            assert forall|i: int| 0 <= i < entries.len() implies !failed_yet_applied(postures)(
                #[trigger] entries[i],
            ) by {
                if i < front.len() {
                    assert(!failed_yet_applied(postures)(front[i]));
                }
            }
        }
        if healthy_results(entries, postures) == 0 {
            assert forall|i: int| 0 <= i < entries.len() implies !reached_healthy(postures)(
                #[trigger] entries[i],
            ) by {
                if i < front.len() {
                    assert(!reached_healthy(postures)(front[i]));
                }
            }
        }
    }
}

/// Two ticks are fair if and only if neither applied in an environment that is
/// unhealthy or blocked, and the first reached one that is not.
pub proof fn fair_ticks(
    first: &Tick,
    second: &Tick,
    postures: &TextMap<WorkloadPosture>,
    result: Result<usize, Error>,
)
    requires
        call_ensures(check_fairness, (first, second, postures), result),
    ensures
        result is Ok <==> {
            &&& forall|i: int|
                0 <= i < first.entries@.len() ==> !failed_yet_applied(postures@)(
                    #[trigger] first.entries@[i],
                )
            &&& forall|i: int|
                0 <= i < second.entries@.len() ==> !failed_yet_applied(postures@)(
                    #[trigger] second.entries@[i],
                )
            &&& exists|i: int|
                0 <= i < first.entries@.len() && reached_healthy(postures@)(
                    #[trigger] first.entries@[i],
                )
        },
        result matches Ok(reached) ==> reached == first.entries@.filter(
            reached_healthy(postures@),
        ).len(),
{
    lemma_none_failed(first.entries@, postures@);
    lemma_none_failed(second.entries@, postures@);
    lemma_entries_counted(first.entries@, postures@);
}

/// An observation is reported if and only if the backup recovered every
/// environment.
pub proof fn observations_are_reported(
    plan: &WorkloadPlan,
    first: &Tick,
    second: &Tick,
    reached: usize,
    recovered: usize,
    result: Result<FairnessReport, Error>,
)
    requires
        call_ensures(settle_observation, (plan, first, second, reached, recovered), result),
    ensures
        result is Ok <==> recovered == plan.members@.len(),
        result matches Ok(report) ==> report.seed_digest@ == plan.seed_digest@
            && report.first_failures == first.failures && report.second_failures == second.failures
            && report.failing_applied == 0 && report.healthy_results == reached
            && report.backup_environments == plan.members@.len(),
{
}

proof fn lemma_words_each(list: Seq<StoredEnvironment>)
    ensures
        words_refusal(list) is None <==> forall|i: int|
            0 <= i < list.len() ==> word_refusal(#[trigger] list[i]) is None,
    decreases list.len(),
{
    if list.len() > 0 {
        let front = list.drop_last();
        lemma_words_each(front);
        assert(forall|i: int| 0 <= i < front.len() ==> front[i] == list[i]);
        if words_refusal(list) is None {
            assert forall|i: int| 0 <= i < list.len() implies word_refusal(
                #[trigger] list[i],
            ) is None by {
                if i < front.len() {
                    assert(word_refusal(front[i]) is None);
                }
            }
        }
    }
}

proof fn lemma_posture_found(list: Seq<StoredEnvironment>, i: int)
    requires
        0 <= i < list.len(),
        text_at(list[i].properties@, PROPERTY_POSTURE@) is Some,
        forall|k: int| i < k < list.len() ==> (#[trigger] list[k]).name@ != list[i].name@,
    ensures
        postures_of(list).contains_key(list[i].name@),
        postures_of(list)[list[i].name@] == posture_named(
            text_at(list[i].properties@, PROPERTY_POSTURE@)->0,
        )->0,
    decreases list.len(),
{
    if i < list.len() - 1 {
        lemma_posture_found(list.drop_last(), i);
        assert(list[list.len() - 1].name@ != list[i].name@);
    }
}

/// Stored environments are read if and only if each posture that is stored is
/// one, and an environment has the posture whose word it stores.
pub proof fn stored_postures_are_read(
    environments: &Vec<StoredEnvironment>,
    result: Result<TextMap<WorkloadPosture>, Error>,
    i: int,
)
    requires
        call_ensures(stored_postures, (environments,), result),
        0 <= i < environments@.len(),
        forall|k: int|
            i < k < environments@.len() ==> (#[trigger] environments@[k]).name@
                != environments@[i].name@,
    ensures
        text_at(environments@[i].properties@, "synthetic_workload.posture"@) matches Some(word) ==> {
            &&& posture_named(word) is None ==> result is Err
            &&& result matches Ok(postures) ==> postures@.contains_key(environments@[i].name@)
                && postures@[environments@[i].name@].word() == word
        },
{
    lemma_words_each(environments@);
    if result is Ok && text_at(environments@[i].properties@, PROPERTY_POSTURE@) is Some {
        let word = text_at(environments@[i].properties@, PROPERTY_POSTURE@)->0;
        lemma_posture_found(environments@, i);
        assert(word_refusal(environments@[i]) is None);
        crate::fleet_workload::words_are_the_postures(posture_named(word)->0, word);
    }
}

} // verus!
