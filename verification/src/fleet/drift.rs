//! Drift between two samples of a fleet's postures.
use super::{FleetEnvironmentRow, FleetStatusReport};
use crate::text::{same, text_less, texts};
use crate::text_map::{ascending, group_text_values, text_at, text_values, TextMap};
use vstd::prelude::*;

verus! {

pub const FLEET_POSTURE_SCHEMA: &'static str = "tenkai.fleet-posture.v1";

/// The postures of a fleet's environments by name. It holds no credentials.
#[derive(Debug, PartialEq, Eq)]
pub struct FleetPostureSnapshot {
    pub schema: String,
    pub postures: TextMap<String>,
}

impl Default for FleetPostureSnapshot {
    /// A fleet without environments.
    fn default() -> (snapshot: FleetPostureSnapshot)
        ensures
            snapshot.schema@ == FLEET_POSTURE_SCHEMA@,
            snapshot.postures@ == Map::<Seq<char>, String>::empty(),
    {
        FleetPostureSnapshot {
            schema: FLEET_POSTURE_SCHEMA.to_owned(),
            postures: TextMap::<String>::new(),
        }
    }
}

/// The difference between two samples.
#[derive(Debug, PartialEq, Eq)]
pub struct FleetDriftSummary {
    pub previous: FleetPostureSnapshot,
    pub current: FleetPostureSnapshot,
    pub entered_behind: Vec<String>,
    pub left_behind: Vec<String>,
    pub entered_unhealthy: Vec<String>,
    pub left_unhealthy: Vec<String>,
    pub entered_empty: Vec<String>,
    pub left_empty: Vec<String>,
    pub entered_current: Vec<String>,
    pub left_current: Vec<String>,
    pub appeared: Vec<String>,
    pub disappeared: Vec<String>,
    /// Environments that newly entered `behind` or `unhealthy`.
    pub new_hard_drift: Vec<String>,
    pub has_new_hard_drift: bool,
    pub has_any_posture_change: bool,
    /// Some environment is `behind` or `unhealthy`.
    pub has_any_hard_drift: bool,
}

/// The postures that rows leave, the last of those with one name.
pub open spec fn postures_of(rows: Seq<FleetEnvironmentRow>) -> Map<Seq<char>, Seq<char>>
    decreases rows.len(),
{
    if rows.len() == 0 {
        Map::<Seq<char>, Seq<char>>::empty()
    } else {
        postures_of(rows.drop_last()).insert(rows.last().name@, rows.last().posture@)
    }
}

/// The postures of a fleet report.
pub fn fleet_posture_snapshot(report: &FleetStatusReport) -> (snapshot: FleetPostureSnapshot)
    ensures
        snapshot.schema@ == FLEET_POSTURE_SCHEMA@,
        text_values(snapshot.postures@) == postures_of(report.environments@),
{
    broadcast use group_text_values;

    let mut postures = TextMap::<String>::new();
    let mut i: usize = 0;
    let ghost rows = report.environments@;
    assert(rows.take(0) =~= Seq::<FleetEnvironmentRow>::empty());
    while i < report.environments.len()
        invariant
            i <= report.environments.len(),
            rows == report.environments@,
            text_values(postures@) == postures_of(rows.take(i as int)),
        decreases report.environments.len() - i,
    {
        broadcast use group_text_values;

        let row = &report.environments[i];
        assert(rows.take(i + 1).drop_last() =~= rows.take(i as int));
        assert(rows.take(i + 1).last() == *row);
        postures.insert(row.name.clone(), row.posture.clone());
        i = i + 1;
    }
    assert(rows.take(i as int) =~= rows);
    FleetPostureSnapshot { schema: FLEET_POSTURE_SCHEMA.to_owned(), postures }
}

/// A posture counts as hard delivery drift.
pub open spec fn hard_drift(posture: Seq<char>) -> bool {
    posture == "behind"@ || posture == "unhealthy"@
}

/// A posture counts as hard delivery drift.
pub fn is_hard_drift_posture(posture: &str) -> (answer: bool)
    ensures
        answer == hard_drift(posture@),
{
    same(posture, "behind") || same(posture, "unhealthy")
}

/// What is asked of an environment in two samples.
#[derive(Debug, Clone, Copy, PartialEq, Eq)]
pub enum DriftRule<'a> {
    Entered(&'a str),
    Left(&'a str),
    Appeared,
    Disappeared,
    Changed,
    NewHardDrift,
    HardDrift,
}

/// An environment with two postures is what is asked for.
pub open spec fn drifts(
    rule: DriftRule,
    before: Option<Seq<char>>,
    now: Option<Seq<char>>,
) -> bool {
    match rule {
        DriftRule::Entered(posture) => now == Some(posture@) && before != now,
        DriftRule::Left(posture) => before == Some(posture@) && before != now,
        DriftRule::Appeared => before is None && now is Some,
        DriftRule::Disappeared => before is Some && now is None,
        DriftRule::Changed => before != now,
        DriftRule::NewHardDrift => now is Some && hard_drift(now->0) && before != now,
        DriftRule::HardDrift => now is Some && hard_drift(now->0),
    }
}

/// A list names, in order and once each, the environments that are asked for.
pub open spec fn names_all(
    list: Seq<Seq<char>>,
    rule: DriftRule,
    before: Map<Seq<char>, String>,
    now: Map<Seq<char>, String>,
) -> bool {
    &&& ascending(list)
    &&& forall|name: Seq<char>| #[trigger]
        list.contains(name) <==> drifts(rule, text_at(before, name), text_at(now, name))
}

/// Some environment is what is asked for.
pub open spec fn any_drifts(
    rule: DriftRule,
    before: Map<Seq<char>, String>,
    now: Map<Seq<char>, String>,
) -> bool {
    exists|name: Seq<char>|
        drifts(rule, #[trigger] text_at(before, name), text_at(now, name))
}

fn is_drifting(rule: DriftRule, before: Option<&str>, now: Option<&str>) -> (answer: bool)
    ensures
        answer == drifts(rule, crate::text::opt_str(before), crate::text::opt_str(now)),
{
    let changed = match (before, now) {
        (Some(a), Some(b)) => !same(a, b),
        (None, None) => false,
        _ => true,
    };
    match rule {
        DriftRule::Entered(posture) => match now {
            Some(text) => same(text, posture) && changed,
            None => false,
        },
        DriftRule::Left(posture) => match before {
            Some(text) => same(text, posture) && changed,
            None => false,
        },
        DriftRule::Appeared => before.is_none() && now.is_some(),
        DriftRule::Disappeared => before.is_some() && now.is_none(),
        DriftRule::Changed => changed,
        DriftRule::NewHardDrift => match now {
            Some(text) => is_hard_drift_posture(text) && changed,
            None => false,
        },
        DriftRule::HardDrift => match now {
            Some(text) => is_hard_drift_posture(text),
            None => false,
        },
    }
}

fn union_of(before: &TextMap<String>, now: &TextMap<String>) -> (names: TextMap<bool>)
    ensures
        forall|name: Seq<char>| #[trigger]
            names@.contains_key(name) <==> before@.contains_key(name) || now@.contains_key(name),
{
    let mut names = TextMap::<bool>::new();
    let count = before.len();
    proof {
        before.lemma_keys();
        now.lemma_keys();
    }
    let mut i: usize = 0;
    while i < count
        invariant
            i <= count,
            count == before.keys().len(),
            forall|name: Seq<char>| #[trigger]
                names@.contains_key(name) <==> before.keys().take(i as int).contains(name),
        decreases count - i,
    {
        let ghost keys = before.keys();
        let key = before.key_at(i);
        names.insert(key.clone(), true);
        assert forall|name: Seq<char>| #[trigger] names@.contains_key(name) <==> keys.take(
            i + 1,
        ).contains(name) by {
            if keys.take(i + 1).contains(name) {
                let k = keys.take(i + 1).index_of(name);
                if k < i {
                    assert(keys.take(i as int)[k] == name);
                }
            }
            if keys.take(i as int).contains(name) {
                let k = keys.take(i as int).index_of(name);
                assert(keys.take(i + 1)[k] == name);
            }
            assert(keys.take(i + 1)[i as int] == keys[i as int]);
        }
        i = i + 1;
    }
    assert(before.keys().take(i as int) =~= before.keys());
    let more = now.len();
    proof {
        now.lemma_keys();
    }
    let mut j: usize = 0;
    while j < more
        invariant
            j <= more,
            more == now.keys().len(),
            forall|name: Seq<char>| #[trigger]
                names@.contains_key(name) <==> before.keys().contains(name) || now.keys().take(
                    j as int,
                ).contains(name),
        decreases more - j,
    {
        let ghost keys = now.keys();
        let key = now.key_at(j);
        names.insert(key.clone(), true);
        assert forall|name: Seq<char>| #[trigger]
            names@.contains_key(name) <==> before.keys().contains(name) || keys.take(
                j + 1,
            ).contains(name) by {
            if keys.take(j + 1).contains(name) {
                let k = keys.take(j + 1).index_of(name);
                if k < j {
                    assert(keys.take(j as int)[k] == name);
                }
            }
            if keys.take(j as int).contains(name) {
                let k = keys.take(j as int).index_of(name);
                assert(keys.take(j + 1)[k] == name);
            }
            assert(keys.take(j + 1)[j as int] == keys[j as int]);
        }
        j = j + 1;
    }
    assert(now.keys().take(j as int) =~= now.keys());
    assert forall|name: Seq<char>| #[trigger]
        names@.contains_key(name) <==> before@.contains_key(name) || now@.contains_key(name) by {
        if before@.contains_key(name) {
            let k = before.keys().index_of(name);
            assert(before.keys()[k] == name);
        }
        if now@.contains_key(name) {
            let k = now.keys().index_of(name);
            assert(now.keys()[k] == name);
        }
    }
    names
}

fn names_where(
    names: &TextMap<bool>,
    rule: DriftRule,
    before: &TextMap<String>,
    now: &TextMap<String>,
) -> (list: Vec<String>)
    requires
        forall|name: Seq<char>| #[trigger]
            names@.contains_key(name) <==> before@.contains_key(name) || now@.contains_key(name),
    ensures
        names_all(texts(list@), rule, before@, now@),
        list@.len() > 0 <==> any_drifts(rule, before@, now@),
{
    let ghost keys = names.keys();
    let mut list: Vec<String> = Vec::new();
    let count = names.len();
    proof {
        names.lemma_keys();
    }
    let mut i: usize = 0;
    while i < count
        invariant
            i <= count,
            keys == names.keys(),
            ascending(keys),
            count == keys.len(),
            ascending(texts(list@)),
            forall|name: Seq<char>| #[trigger]
                texts(list@).contains(name) <==> keys.take(i as int).contains(name) && drifts(
                    rule,
                    text_at(before@, name),
                    text_at(now@, name),
                ),
        decreases count - i,
    {
        let key = names.key_at(i);
        let ghost earlier = texts(list@);
        let ghost name = key@;
        assert(keys.take(i + 1)[i as int] == name);
        let found = is_drifting(rule, before.text(key.as_str()), now.text(key.as_str()));
        if found {
            list.push(key.clone());
            assert(texts(list@) =~= earlier.push(name));
            assert(ascending(texts(list@))) by {
                assert forall|a: int, b: int| 0 <= a < b < texts(list@).len() implies text_less(
                    #[trigger] texts(list@)[a],
                    #[trigger] texts(list@)[b],
                ) by {
                    if b == earlier.len() {
                        assert(earlier.contains(earlier[a]));
                        let k = keys.take(i as int).index_of(earlier[a]);
                        assert(keys[k] == earlier[a]);
                    } else {
                        assert(texts(list@)[a] == earlier[a]);
                        assert(texts(list@)[b] == earlier[b]);
                    }
                }
            }
        }
        assert forall|x: Seq<char>| #[trigger] texts(list@).contains(x) <==> keys.take(
            i + 1,
        ).contains(x) && drifts(rule, text_at(before@, x), text_at(now@, x)) by {
            if keys.take(i + 1).contains(x) {
                let k = keys.take(i + 1).index_of(x);
                if k < i {
                    assert(keys.take(i as int)[k] == x);
                }
            }
            if keys.take(i as int).contains(x) {
                let k = keys.take(i as int).index_of(x);
                assert(keys.take(i + 1)[k] == x);
            }
            if found {
                if earlier.contains(x) {
                    let k = earlier.index_of(x);
                    assert(texts(list@)[k] == x);
                }
                assert(texts(list@)[earlier.len() as int] == name);
                if texts(list@).contains(x) && x != name {
                    let k = texts(list@).index_of(x);
                    assert(earlier[k] == x);
                }
            }
        }
        i = i + 1;
    }
    assert(keys.take(i as int) =~= keys);
    proof {
        assert forall|x: Seq<char>| #[trigger] texts(list@).contains(x) <==> drifts(
            rule,
            text_at(before@, x),
            text_at(now@, x),
        ) by {
            if drifts(rule, text_at(before@, x), text_at(now@, x)) {
                assert(names@.contains_key(x));
                let k = keys.index_of(x);
                assert(keys[k] == x);
            }
        }
        if list@.len() > 0 {
            let x = texts(list@)[0];
            assert(texts(list@).contains(x));
            assert(drifts(rule, text_at(before@, x), text_at(now@, x)));
        }
        if any_drifts(rule, before@, now@) {
            let x = choose|x: Seq<char>|
                drifts(rule, #[trigger] text_at(before@, x), text_at(now@, x));
            assert(texts(list@).contains(x));
        }
    }
    list
}

/// Compare two samples: which environments entered or left each posture.
pub fn compare_fleet_posture(
    previous: &FleetPostureSnapshot,
    current: &FleetPostureSnapshot,
) -> (summary: FleetDriftSummary)
    ensures
        ({
            let before = previous.postures@;
            let now = current.postures@;
            &&& summary.previous.schema@ == previous.schema@
            &&& text_values(summary.previous.postures@) == text_values(before)
            &&& summary.current.schema@ == current.schema@
            &&& text_values(summary.current.postures@) == text_values(now)
            &&& names_all(
                texts(summary.entered_behind@),
                DriftRule::Entered("behind"),
                before,
                now,
            )
            &&& names_all(texts(summary.left_behind@), DriftRule::Left("behind"), before, now)
            &&& names_all(
                texts(summary.entered_unhealthy@),
                DriftRule::Entered("unhealthy"),
                before,
                now,
            )
            &&& names_all(
                texts(summary.left_unhealthy@),
                DriftRule::Left("unhealthy"),
                before,
                now,
            )
            &&& names_all(texts(summary.entered_empty@), DriftRule::Entered("empty"), before, now)
            &&& names_all(texts(summary.left_empty@), DriftRule::Left("empty"), before, now)
            &&& names_all(
                texts(summary.entered_current@),
                DriftRule::Entered("current"),
                before,
                now,
            )
            &&& names_all(texts(summary.left_current@), DriftRule::Left("current"), before, now)
            &&& names_all(texts(summary.appeared@), DriftRule::Appeared, before, now)
            &&& names_all(texts(summary.disappeared@), DriftRule::Disappeared, before, now)
            &&& names_all(texts(summary.new_hard_drift@), DriftRule::NewHardDrift, before, now)
            &&& summary.has_new_hard_drift == any_drifts(DriftRule::NewHardDrift, before, now)
            &&& summary.has_any_posture_change == any_drifts(DriftRule::Changed, before, now)
            &&& summary.has_any_hard_drift == any_drifts(DriftRule::HardDrift, before, now)
        }),
{
    let before = &previous.postures;
    let now = &current.postures;
    let names = union_of(before, now);
    let new_hard_drift = names_where(&names, DriftRule::NewHardDrift, before, now);
    let has_new_hard_drift = new_hard_drift.len() > 0;
    let changed = names_where(&names, DriftRule::Changed, before, now);
    let drifting = names_where(&names, DriftRule::HardDrift, before, now);
    FleetDriftSummary {
        previous: FleetPostureSnapshot {
            schema: previous.schema.clone(),
            postures: before.copy(),
        },
        current: FleetPostureSnapshot { schema: current.schema.clone(), postures: now.copy() },
        entered_behind: names_where(&names, DriftRule::Entered("behind"), before, now),
        left_behind: names_where(&names, DriftRule::Left("behind"), before, now),
        entered_unhealthy: names_where(&names, DriftRule::Entered("unhealthy"), before, now),
        left_unhealthy: names_where(&names, DriftRule::Left("unhealthy"), before, now),
        entered_empty: names_where(&names, DriftRule::Entered("empty"), before, now),
        left_empty: names_where(&names, DriftRule::Left("empty"), before, now),
        entered_current: names_where(&names, DriftRule::Entered("current"), before, now),
        left_current: names_where(&names, DriftRule::Left("current"), before, now),
        appeared: names_where(&names, DriftRule::Appeared, before, now),
        disappeared: names_where(&names, DriftRule::Disappeared, before, now),
        new_hard_drift,
        has_new_hard_drift,
        has_any_posture_change: changed.len() > 0,
        has_any_hard_drift: drifting.len() > 0,
    }
}

/// A sample compared with itself shows no change, whatever drift it holds.
pub proof fn unchanged_fleet_shows_no_change(postures: Map<Seq<char>, String>)
    ensures
        !any_drifts(DriftRule::Changed, postures, postures),
        !any_drifts(DriftRule::NewHardDrift, postures, postures),
{
}

/// Backwards, what entered a posture left it.
pub proof fn left_is_entered_backwards(
    list: Seq<Seq<char>>,
    posture: &str,
    before: Map<Seq<char>, String>,
    now: Map<Seq<char>, String>,
)
    requires
        names_all(list, DriftRule::Entered(posture), before, now),
    ensures
        names_all(list, DriftRule::Left(posture), now, before),
{
}

/// New hard drift is what entered `behind` or `unhealthy`.
pub proof fn new_hard_drift_is_what_entered(
    before: Map<Seq<char>, String>,
    now: Map<Seq<char>, String>,
    name: Seq<char>,
)
    ensures
        drifts(DriftRule::NewHardDrift, text_at(before, name), text_at(now, name)) <==> drifts(
            DriftRule::Entered("behind"),
            text_at(before, name),
            text_at(now, name),
        ) || drifts(DriftRule::Entered("unhealthy"), text_at(before, name), text_at(now, name)),
{
}

/// What a comparison tells of one environment, by its two postures: it entered
/// the one and left the other where they differ, appeared or disappeared where
/// one is missing, and is new hard drift where it now is behind or unhealthy
/// and was not so before.
pub proof fn drift_of_an_environment(
    previous: &FleetPostureSnapshot,
    current: &FleetPostureSnapshot,
    summary: FleetDriftSummary,
    name: Seq<char>,
)
    requires
        call_ensures(compare_fleet_posture, (previous, current), summary),
    ensures
        ({
            let before = text_at(previous.postures@, name);
            let now = text_at(current.postures@, name);
            let behind = Some("behind"@);
            let unhealthy = Some("unhealthy"@);
            let empty = Some("empty"@);
            let at_head = Some("current"@);
            &&& texts(summary.entered_behind@).contains(name) <==> now == behind && before
                != behind
            &&& texts(summary.left_behind@).contains(name) <==> before == behind && now != behind
            &&& texts(summary.entered_unhealthy@).contains(name) <==> now == unhealthy && before
                != unhealthy
            &&& texts(summary.left_unhealthy@).contains(name) <==> before == unhealthy && now
                != unhealthy
            &&& texts(summary.entered_empty@).contains(name) <==> now == empty && before != empty
            &&& texts(summary.left_empty@).contains(name) <==> before == empty && now != empty
            &&& texts(summary.entered_current@).contains(name) <==> now == at_head && before
                != at_head
            &&& texts(summary.left_current@).contains(name) <==> before == at_head && now
                != at_head
            &&& texts(summary.appeared@).contains(name) <==> before is None && now is Some
            &&& texts(summary.disappeared@).contains(name) <==> before is Some && now is None
            &&& texts(summary.new_hard_drift@).contains(name) <==> (now == behind || now
                == unhealthy) && before != now
            &&& (now == behind || now == unhealthy) && before != now ==> summary.has_new_hard_drift
            &&& now == behind || now == unhealthy ==> summary.has_any_hard_drift
            &&& before != now ==> summary.has_any_posture_change
        }),
{
    let before = text_at(previous.postures@, name);
    let now = text_at(current.postures@, name);
    if before != now {
        assert(drifts(DriftRule::Changed, before, now));
    }
    if (now == Some("behind"@) || now == Some("unhealthy"@)) && before != now {
        assert(drifts(DriftRule::NewHardDrift, before, now));
    }
    if now == Some("behind"@) || now == Some("unhealthy"@) {
        assert(drifts(DriftRule::HardDrift, before, now));
    }
}

/// A comparison tells of drift and change only where an environment shows it.
pub proof fn drift_is_shown_by_an_environment(
    previous: &FleetPostureSnapshot,
    current: &FleetPostureSnapshot,
    summary: FleetDriftSummary,
)
    requires
        call_ensures(compare_fleet_posture, (previous, current), summary),
    ensures
        summary.has_any_posture_change ==> exists|name: Seq<char>|
            #[trigger] text_at(previous.postures@, name) != text_at(current.postures@, name),
        summary.has_any_hard_drift ==> exists|name: Seq<char>|
            ({
                let now = #[trigger] text_at(current.postures@, name);
                now == Some("behind"@) || now == Some("unhealthy"@)
            }),
        summary.has_new_hard_drift ==> exists|name: Seq<char>|
            ({
                let now = #[trigger] text_at(current.postures@, name);
                (now == Some("behind"@) || now == Some("unhealthy"@)) && now != text_at(
                    previous.postures@,
                    name,
                )
            }),
{
    let before = previous.postures@;
    let now = current.postures@;
    if summary.has_any_hard_drift {
        let name = choose|name: Seq<char>|
            drifts(
                DriftRule::HardDrift,
                #[trigger] text_at(before, name),
                text_at(now, name),
            );
        assert(text_at(now, name) is Some);
    }
    if summary.has_new_hard_drift {
        let name = choose|name: Seq<char>|
            drifts(
                DriftRule::NewHardDrift,
                #[trigger] text_at(before, name),
                text_at(now, name),
            );
        assert(text_at(now, name) is Some);
    }
}

proof fn lemma_posture_kept(rows: Seq<FleetEnvironmentRow>, i: int)
    requires
        0 <= i < rows.len(),
        forall|k: int| i < k < rows.len() ==> (#[trigger] rows[k]).name@ != rows[i].name@,
    ensures
        postures_of(rows).contains_key(rows[i].name@),
        postures_of(rows)[rows[i].name@] == rows[i].posture@,
    decreases rows.len(),
{
    if i < rows.len() - 1 {
        lemma_posture_kept(rows.drop_last(), i);
        assert(rows[rows.len() - 1].name@ != rows[i].name@);
    }
}

/// A sample holds the posture of each environment of a report under its name.
pub proof fn samples_hold_the_postures(
    report: &FleetStatusReport,
    snapshot: FleetPostureSnapshot,
    i: int,
)
    requires
        call_ensures(fleet_posture_snapshot, (report,), snapshot),
        0 <= i < report.environments@.len(),
        forall|k: int|
            i < k < report.environments@.len() ==> (#[trigger] report.environments@[k]).name@
                != report.environments@[i].name@,
    ensures
        text_at(snapshot.postures@, report.environments@[i].name@) == Some(
            report.environments@[i].posture@,
        ),
{
    lemma_posture_kept(report.environments@, i);
    let name = report.environments@[i].name@;
    assert(text_values(snapshot.postures@).contains_key(name));
}

/// Being behind or unhealthy is hard drift, and nothing else is.
pub proof fn hard_drift_postures(posture: &str, answer: bool)
    requires
        call_ensures(is_hard_drift_posture, (posture,), answer),
    ensures
        answer <==> posture@ == "behind"@ || posture@ == "unhealthy"@,
{
}

} // verus!
