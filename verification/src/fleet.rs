//! Fleet delivery posture: aggregation and drift between two samples.
pub mod drift;

pub use drift::{
    compare_fleet_posture, fleet_posture_snapshot, is_hard_drift_posture, FleetDriftSummary,
    FleetPostureSnapshot,
};

use crate::environment::{
    subscription_models, EnvironmentInspectReport, EnvironmentSubscriptionView, SubscriptionModel,
};
use crate::ordering::{
    arranged, arranging_forgets_the_order, arranging_keeps_the_items, distinct_keys_ascend,
    keys_ascend, lemma_text_order, order_texts, places, text_order,
};
use crate::text::{opt_text, same, text_less, text_less_irreflexive, texts};
use vstd::prelude::*;

verus! {

/// One environment in a fleet posture table. It holds no credentials.
#[derive(Debug, PartialEq, Eq)]
pub struct FleetEnvironmentRow {
    pub name: String,
    pub id: String,
    pub description: String,
    pub subscription_count: usize,
    /// Subscribed products whose deployed version is the channel head.
    pub products_current: usize,
    /// Subscribed products with another deployed version.
    pub products_behind: usize,
    /// Subscribed products without a deployed version.
    pub products_missing: usize,
    /// Some subscription has unknown health or an error.
    pub unhealthy: bool,
    /// `ok`, `unknown`, `error`, or `n/a` without subscriptions.
    pub health_summary: String,
    pub lease_held: bool,
    /// The state of the latest plan, where there is one.
    pub latest_plan_state: Option<String>,
    /// `empty`, `unhealthy`, `behind` or `current`.
    pub posture: String,
}

/// The posture of a fleet. It holds no credentials.
#[derive(Debug, PartialEq, Eq)]
pub struct FleetStatusReport {
    pub environments: Vec<FleetEnvironmentRow>,
    pub environment_count: usize,
    pub environments_current: usize,
    pub environments_behind: usize,
    pub environments_unhealthy: usize,
    pub environments_empty: usize,
}

/// What a row says.
pub struct RowModel {
    pub name: Seq<char>,
    pub id: Seq<char>,
    pub description: Seq<char>,
    pub subscription_count: nat,
    pub products_current: nat,
    pub products_behind: nat,
    pub products_missing: nat,
    pub unhealthy: bool,
    pub health_summary: Seq<char>,
    pub lease_held: bool,
    pub latest_plan_state: Option<Seq<char>>,
    pub posture: Seq<char>,
}

impl View for FleetEnvironmentRow {
    type V = RowModel;

    open spec fn view(&self) -> RowModel {
        RowModel {
            name: self.name@,
            id: self.id@,
            description: self.description@,
            subscription_count: self.subscription_count as nat,
            products_current: self.products_current as nat,
            products_behind: self.products_behind as nat,
            products_missing: self.products_missing as nat,
            unhealthy: self.unhealthy,
            health_summary: self.health_summary@,
            lease_held: self.lease_held,
            latest_plan_state: opt_text(self.latest_plan_state),
            posture: self.posture@,
        }
    }
}

/// What rows say, in order.
pub open spec fn row_models(list: Seq<FleetEnvironmentRow>) -> Seq<RowModel> {
    list.map_values(|item: FleetEnvironmentRow| item@)
}

/// How the version of a product stands to the channel head.
#[derive(Debug, Clone, Copy, PartialEq, Eq, Structural)]
pub enum Standing {
    Current,
    Behind,
    Missing,
}

/// How a subscription counts. Unless its state tells, its versions do.
pub open spec fn standing(s: SubscriptionModel) -> Standing {
    if s.state == "current"@ {
        Standing::Current
    } else if s.state == "behind"@ || s.state == "config_stale"@ {
        Standing::Behind
    } else if s.state == "missing"@ {
        Standing::Missing
    } else if s.deployed == Some(s.head) {
        Standing::Current
    } else if s.deployed is Some {
        Standing::Behind
    } else {
        Standing::Missing
    }
}

/// The health of a subscription is not known.
pub open spec fn is_unknown(s: SubscriptionModel) -> bool {
    s.health == Some("unknown"@)
}

/// A subscription reports an error.
pub open spec fn is_failing(s: SubscriptionModel) -> bool {
    s.health == Some("unhealthy"@) || (s.error is Some && s.error->0.len() > 0)
}

/// How many subscriptions stand in a way.
pub open spec fn count_standing(list: Seq<SubscriptionModel>, wanted: Standing) -> nat
    decreases list.len(),
{
    if list.len() == 0 {
        0
    } else {
        count_standing(list.drop_last(), wanted) + if standing(list.last()) == wanted {
            1nat
        } else {
            0nat
        }
    }
}

/// The health of some subscription is not known.
pub open spec fn any_unknown(list: Seq<SubscriptionModel>) -> bool {
    exists|i: int| 0 <= i < list.len() && is_unknown(#[trigger] list[i])
}

/// Some subscription reports an error.
pub open spec fn any_failing(list: Seq<SubscriptionModel>) -> bool {
    exists|i: int| 0 <= i < list.len() && is_failing(#[trigger] list[i])
}

/// The health of subscriptions in one word.
pub open spec fn health_word(list: Seq<SubscriptionModel>) -> Seq<char> {
    if list.len() == 0 {
        "n/a"@
    } else if any_failing(list) {
        "error"@
    } else if any_unknown(list) {
        "unknown"@
    } else {
        "ok"@
    }
}

/// The posture of subscriptions in one word.
pub open spec fn posture_word(list: Seq<SubscriptionModel>) -> Seq<char> {
    if list.len() == 0 {
        "empty"@
    } else if any_failing(list) || any_unknown(list) {
        "unhealthy"@
    } else if count_standing(list, Standing::Behind) > 0 || count_standing(list, Standing::Missing)
        > 0 {
        "behind"@
    } else {
        "current"@
    }
}

/// The row of an environment.
pub open spec fn row_of(report: EnvironmentInspectReport) -> RowModel {
    let list = subscription_models(report.subscriptions@);
    RowModel {
        name: report.name@,
        id: report.id@,
        description: report.description@,
        subscription_count: list.len(),
        products_current: count_standing(list, Standing::Current),
        products_behind: count_standing(list, Standing::Behind),
        products_missing: count_standing(list, Standing::Missing),
        unhealthy: any_failing(list) || any_unknown(list),
        health_summary: health_word(list),
        lease_held: report.lease.held,
        latest_plan_state: match report.latest_plan {
            Some(plan) => Some(plan.state@),
            None => None,
        },
        posture: posture_word(list),
    }
}

/// The standings of subscriptions add up.
pub proof fn standings_add_up(list: Seq<SubscriptionModel>)
    ensures
        count_standing(list, Standing::Current) + count_standing(list, Standing::Behind)
            + count_standing(list, Standing::Missing) == list.len(),
    decreases list.len(),
{
    if list.len() > 0 {
        standings_add_up(list.drop_last());
    }
}

fn standing_of(sub: &EnvironmentSubscriptionView) -> (result: Standing)
    ensures
        result == standing(sub@),
{
    if same(&sub.state, "current") {
        return Standing::Current;
    }
    if same(&sub.state, "behind") || same(&sub.state, "config_stale") {
        return Standing::Behind;
    }
    if same(&sub.state, "missing") {
        return Standing::Missing;
    }
    match &sub.deployed {
        Some(version) => if same(version, &sub.head) {
            Standing::Current
        } else {
            Standing::Behind
        },
        None => Standing::Missing,
    }
}

fn reports_unknown(sub: &EnvironmentSubscriptionView) -> (answer: bool)
    ensures
        answer == is_unknown(sub@),
{
    match &sub.health {
        Some(health) => same(health, "unknown"),
        None => false,
    }
}

fn reports_failure(sub: &EnvironmentSubscriptionView) -> (answer: bool)
    ensures
        answer == is_failing(sub@),
{
    let unhealthy = match &sub.health {
        Some(health) => same(health, "unhealthy"),
        None => false,
    };
    let failed = match &sub.error {
        Some(error) => error.as_str().unicode_len() > 0,
        None => false,
    };
    unhealthy || failed
}

proof fn lemma_any_step(list: Seq<SubscriptionModel>, i: int)
    requires
        0 <= i < list.len(),
    ensures
        any_unknown(list.take(i + 1)) == (any_unknown(list.take(i)) || is_unknown(list[i])),
        any_failing(list.take(i + 1)) == (any_failing(list.take(i)) || is_failing(list[i])),
{
    let before = list.take(i);
    let now = list.take(i + 1);
    assert(now[i] == list[i]);
    if any_unknown(before) {
        let k = choose|k: int| 0 <= k < before.len() && is_unknown(#[trigger] before[k]);
        assert(now[k] == before[k]);
    }
    if any_failing(before) {
        let k = choose|k: int| 0 <= k < before.len() && is_failing(#[trigger] before[k]);
        assert(now[k] == before[k]);
    }
    if any_unknown(now) {
        let k = choose|k: int| 0 <= k < now.len() && is_unknown(#[trigger] now[k]);
        if k < i {
            assert(before[k] == now[k]);
        }
    }
    if any_failing(now) {
        let k = choose|k: int| 0 <= k < now.len() && is_failing(#[trigger] now[k]);
        if k < i {
            assert(before[k] == now[k]);
        }
    }
}

/// Derive the row of an environment from what operators see of it.
pub fn fleet_row_from_inspect(report: &EnvironmentInspectReport) -> (row: FleetEnvironmentRow)
    ensures
        row@ == row_of(*report),
{
    let ghost list = subscription_models(report.subscriptions@);
    let mut current: usize = 0;
    let mut behind: usize = 0;
    let mut missing: usize = 0;
    let mut unknown = false;
    let mut failing = false;
    let mut i: usize = 0;
    while i < report.subscriptions.len()
        invariant
            i <= report.subscriptions.len(),
            list == subscription_models(report.subscriptions@),
            current == count_standing(list.take(i as int), Standing::Current),
            behind == count_standing(list.take(i as int), Standing::Behind),
            missing == count_standing(list.take(i as int), Standing::Missing),
            current + behind + missing == i,
            unknown == any_unknown(list.take(i as int)),
            failing == any_failing(list.take(i as int)),
        decreases report.subscriptions.len() - i,
    {
        let sub = &report.subscriptions[i];
        assert(list[i as int] == sub@);
        assert(list.take(i + 1).drop_last() =~= list.take(i as int));
        assert(list.take(i + 1).last() == sub@);
        proof {
            lemma_any_step(list, i as int);
        }
        match standing_of(sub) {
            Standing::Current => {
                current = current + 1;
            },
            Standing::Behind => {
                behind = behind + 1;
            },
            Standing::Missing => {
                missing = missing + 1;
            },
        }
        if reports_unknown(sub) {
            unknown = true;
        }
        if reports_failure(sub) {
            failing = true;
        }
        i = i + 1;
    }
    assert(list.take(i as int) =~= list);
    let health_summary = if report.subscriptions.len() == 0 {
        "n/a".to_owned()
    } else if failing {
        "error".to_owned()
    } else if unknown {
        "unknown".to_owned()
    } else {
        "ok".to_owned()
    };
    let posture = if report.subscriptions.len() == 0 {
        "empty".to_owned()
    } else if failing || unknown {
        "unhealthy".to_owned()
    } else if behind > 0 || missing > 0 {
        "behind".to_owned()
    } else {
        "current".to_owned()
    };
    let latest_plan_state = match &report.latest_plan {
        Some(plan) => Some(plan.state.clone()),
        None => None,
    };
    FleetEnvironmentRow {
        name: report.name.clone(),
        id: report.id.clone(),
        description: report.description.clone(),
        subscription_count: report.subscriptions.len(),
        products_current: current,
        products_behind: behind,
        products_missing: missing,
        unhealthy: failing || unknown,
        health_summary,
        lease_held: report.lease.held,
        latest_plan_state,
        posture,
    }
}

/// How many rows have a posture.
pub open spec fn count_posture(rows: Seq<RowModel>, posture: Seq<char>) -> nat
    decreases rows.len(),
{
    if rows.len() == 0 {
        0
    } else {
        count_posture(rows.drop_last(), posture) + if rows.last().posture == posture {
            1nat
        } else {
            0nat
        }
    }
}

/// A report on rows.
pub open spec fn reports_on(report: FleetStatusReport, rows: Seq<RowModel>) -> bool {
    &&& row_models(report.environments@) == rows
    &&& report.environment_count == rows.len()
    &&& report.environments_current == count_posture(rows, "current"@)
    &&& report.environments_behind == count_posture(rows, "behind"@)
    &&& report.environments_unhealthy == count_posture(rows, "unhealthy"@)
    &&& report.environments_empty == count_posture(rows, "empty"@)
}

fn count_rows(rows: &Vec<FleetEnvironmentRow>, posture: &str) -> (count: usize)
    ensures
        count == count_posture(row_models(rows@), posture@),
{
    let ghost models = row_models(rows@);
    let mut count: usize = 0;
    let mut i: usize = 0;
    while i < rows.len()
        invariant
            i <= rows.len(),
            models == row_models(rows@),
            count <= i,
            count == count_posture(models.take(i as int), posture@),
        decreases rows.len() - i,
    {
        assert(models.take(i + 1).drop_last() =~= models.take(i as int));
        assert(models.take(i + 1).last() == rows@[i as int]@);
        if same(&rows[i].posture, posture) {
            count = count + 1;
        }
        i = i + 1;
    }
    assert(models.take(i as int) =~= models);
    count
}

/// Recompute a fleet report after rows were filtered.
pub fn fleet_status_from_rows(environments: Vec<FleetEnvironmentRow>) -> (report: FleetStatusReport)
    ensures
        reports_on(report, row_models(environments@)),
{
    let environments_current = count_rows(&environments, "current");
    let environments_behind = count_rows(&environments, "behind");
    let environments_unhealthy = count_rows(&environments, "unhealthy");
    let environments_empty = count_rows(&environments, "empty");
    assert(row_models(environments@).len() == environments@.len());
    FleetStatusReport {
        environment_count: environments.len(),
        environments,
        environments_current,
        environments_behind,
        environments_unhealthy,
        environments_empty,
    }
}

/// The rows of environments.
pub open spec fn rows_of(reports: Seq<EnvironmentInspectReport>) -> Seq<RowModel> {
    reports.map_values(|report: EnvironmentInspectReport| row_of(report))
}

/// The names of environments.
pub open spec fn report_names(reports: Seq<EnvironmentInspectReport>) -> Seq<Seq<char>> {
    reports.map_values(|report: EnvironmentInspectReport| report.name@)
}

/// Build a fleet report from what operators see of its environments, in the
/// order of their names.
pub fn fleet_status_from_inspects(reports: Vec<EnvironmentInspectReport>) -> (report:
    FleetStatusReport)
    ensures
        reports_on(report, arranged(rows_of(reports@), text_order(report_names(reports@)))),
{
    let mut names: Vec<String> = Vec::new();
    let mut i: usize = 0;
    while i < reports.len()
        invariant
            i <= reports.len(),
            names@.len() == i,
            forall|k: int| 0 <= k < i ==> (#[trigger] names@[k])@ == reports@[k].name@,
        decreases reports.len() - i,
    {
        names.push(reports[i].name.clone());
        i = i + 1;
    }
    assert(texts(names@) =~= report_names(reports@));
    let order = order_texts(&names);
    let mut rows: Vec<FleetEnvironmentRow> = Vec::new();
    let mut j: usize = 0;
    while j < order.len()
        invariant
            j <= order.len(),
            order@.len() == reports@.len(),
            forall|k: int| 0 <= k < order@.len() ==> #[trigger] order@[k] < reports@.len(),
            rows@.len() == j,
            forall|k: int|
                0 <= k < j ==> (#[trigger] rows@[k])@ == row_of(reports@[order@[k] as int]),
        decreases order.len() - j,
    {
        let place = order[j];
        rows.push(fleet_row_from_inspect(&reports[place]));
        j = j + 1;
    }
    assert(row_models(rows@) =~= arranged(rows_of(reports@), places(order@)));
    fleet_status_from_rows(rows)
}

/// Environments of distinct names give one report, in whatever order they come.
/// It holds the row of each of them once, in the order of the names.
pub proof fn report_forgets_the_order(
    reports: Seq<EnvironmentInspectReport>,
    other: Seq<EnvironmentInspectReport>,
)
    requires
        reports.to_multiset() == other.to_multiset(),
        report_names(reports).no_duplicates(),
    ensures
        ({
            let rows = arranged(rows_of(reports), text_order(report_names(reports)));
            &&& arranged(rows_of(other), text_order(report_names(other))) == rows
            &&& keys_ascend(rows, |row: RowModel| row.name)
            &&& rows.to_multiset() == rows_of(reports).to_multiset()
            &&& rows.len() == reports.len()
        }),
{
    let name = |report: EnvironmentInspectReport| report.name@;
    let row_name = |row: RowModel| row.name;
    assert(report_names(reports) =~= reports.map_values(name));
    assert(report_names(other) =~= other.map_values(name));
    arranging_forgets_the_order(reports, other, name);
    let order = text_order(report_names(reports));
    let rows = arranged(rows_of(reports), order);
    lemma_text_order(report_names(reports));
    lemma_text_order(report_names(other));
    assert(rows =~= rows_of(arranged(reports, order)));
    assert(arranged(rows_of(other), text_order(report_names(other))) =~= rows_of(
        arranged(other, text_order(report_names(other))),
    ));
    assert(rows_of(reports).map_values(row_name) =~= report_names(reports));
    distinct_keys_ascend(rows_of(reports), row_name);
    arranging_keeps_the_items(rows_of(reports), report_names(reports));
    assert(rows_of(reports).no_duplicates()) by {
        assert forall|i: int, j: int|
            0 <= i < reports.len() && 0 <= j < reports.len() && i != j implies rows_of(reports)[i]
            != rows_of(reports)[j] by {
            assert(report_names(reports)[i] != report_names(reports)[j]);
        }
    }
    assert(rows.no_duplicates()) by {
        assert forall|i: int, j: int| 0 <= i < j < rows.len() implies rows[i] != rows[j] by {
            assert(text_less(row_name(rows[i]), row_name(rows[j])));
            text_less_irreflexive(rows[i].name);
        }
    }
    rows.to_multiset_ensures();
    rows_of(reports).to_multiset_ensures();
    rows.lemma_multiset_has_no_duplicates();
    rows_of(reports).lemma_multiset_has_no_duplicates();
    assert forall|row: RowModel|
        rows.to_multiset().count(row) == rows_of(reports).to_multiset().count(row) by {
        assert(rows.contains(row) <==> rows_of(reports).contains(row));
    }
    assert(rows.to_multiset() =~= rows_of(reports).to_multiset());
}

/// A row has one of the four postures.
pub open spec fn has_posture(row: RowModel) -> bool {
    row.posture == "current"@ || row.posture == "behind"@ || row.posture == "unhealthy"@
        || row.posture == "empty"@
}

proof fn lemma_postures_differ()
    ensures
        "current"@ != "behind"@,
        "current"@ != "unhealthy"@,
        "current"@ != "empty"@,
        "behind"@ != "unhealthy"@,
        "behind"@ != "empty"@,
        "unhealthy"@ != "empty"@,
{
    reveal_strlit("current");
    reveal_strlit("behind");
    reveal_strlit("unhealthy");
    reveal_strlit("empty");
    assert("current"@[0] == 'c');
    assert("behind"@[0] == 'b');
    assert("unhealthy"@[0] == 'u');
    assert("empty"@[0] == 'e');
}

/// The four counts of a fleet report cover its environments: each derived row
/// has one of the four postures, and is counted once.
pub proof fn posture_counts_cover_the_fleet(rows: Seq<RowModel>)
    requires
        forall|i: int| 0 <= i < rows.len() ==> has_posture(#[trigger] rows[i]),
    ensures
        count_posture(rows, "current"@) + count_posture(rows, "behind"@) + count_posture(
            rows,
            "unhealthy"@,
        ) + count_posture(rows, "empty"@) == rows.len(),
    decreases rows.len(),
{
    lemma_postures_differ();
    if rows.len() > 0 {
        posture_counts_cover_the_fleet(rows.drop_last());
        assert(has_posture(rows[rows.len() - 1]));
    }
}

/// Every derived row has one of the four postures, and its products add up.
pub proof fn derived_rows_are_consistent(report: EnvironmentInspectReport)
    ensures
        has_posture(row_of(report)),
        row_of(report).products_current + row_of(report).products_behind + row_of(
            report,
        ).products_missing == row_of(report).subscription_count,
        row_of(report).posture == "current"@ ==> row_of(report).products_current == row_of(
            report,
        ).subscription_count && !row_of(report).unhealthy,
{
    lemma_postures_differ();
    standings_add_up(subscription_models(report.subscriptions@));
}

/// A product runs the head of its channel: its state says so or, where the
/// state says nothing of versions, the deployed version is the head.
pub open spec fn runs_the_head(sub: EnvironmentSubscriptionView) -> bool {
    sub.state@ == "current"@ || (sub.state@ != "behind"@ && sub.state@ != "config_stale"@
        && sub.state@ != "missing"@ && sub.deployed is Some && sub.deployed->0@ == sub.head@)
}

/// A product is not deployed: its state says so or, where the state says
/// nothing of versions, no version is.
pub open spec fn not_deployed(sub: EnvironmentSubscriptionView) -> bool {
    sub.state@ == "missing"@ || (sub.state@ != "current"@ && sub.state@ != "behind"@ && sub.state@
        != "config_stale"@ && sub.deployed is None)
}

/// A product is in trouble: its health is unknown or bad, or it reports an
/// error.
pub open spec fn in_trouble(sub: EnvironmentSubscriptionView) -> bool {
    (sub.health is Some && (sub.health->0@ == "unknown"@ || sub.health->0@ == "unhealthy"@)) || (
    sub.error is Some && sub.error->0@.len() > 0)
}

proof fn lemma_standing_words()
    ensures
        "current"@ != "behind"@,
        "current"@ != "config_stale"@,
        "current"@ != "missing"@,
        "behind"@ != "missing"@,
        "config_stale"@ != "missing"@,
{
    reveal_strlit("current");
    reveal_strlit("behind");
    reveal_strlit("config_stale");
    reveal_strlit("missing");
    assert("current"@[0] == 'c' && "missing"@[0] == 'm');
    assert("current"@.len() == 7 && "behind"@.len() == 6 && "config_stale"@.len() == 12);
    assert("behind"@[0] == 'b');
}

proof fn lemma_standing_direct(sub: EnvironmentSubscriptionView)
    ensures
        standing(sub@) == Standing::Current <==> runs_the_head(sub),
        standing(sub@) == Standing::Missing <==> not_deployed(sub),
        standing(sub@) == Standing::Behind <==> !runs_the_head(sub) && !not_deployed(sub),
        is_unknown(sub@) || is_failing(sub@) <==> in_trouble(sub),
{
    lemma_standing_words();
}

proof fn lemma_standing_counted(list: Seq<EnvironmentSubscriptionView>)
    ensures
        count_standing(subscription_models(list), Standing::Current) == list.filter(
            |sub: EnvironmentSubscriptionView| runs_the_head(sub),
        ).len(),
        count_standing(subscription_models(list), Standing::Missing) == list.filter(
            |sub: EnvironmentSubscriptionView| not_deployed(sub),
        ).len(),
    decreases list.len(),
{
    reveal(Seq::filter);
    if list.len() > 0 {
        lemma_standing_counted(list.drop_last());
        lemma_standing_direct(list.last());
        assert(subscription_models(list).drop_last() =~= subscription_models(list.drop_last()));
        assert(subscription_models(list).last() == list.last()@);
    }
}

proof fn lemma_none_counted(list: Seq<SubscriptionModel>, wanted: Standing)
    ensures
        count_standing(list, wanted) == 0 <==> forall|i: int|
            0 <= i < list.len() ==> standing(#[trigger] list[i]) != wanted,
    decreases list.len(),
{
    if list.len() > 0 {
        let front = list.drop_last();
        lemma_none_counted(front, wanted);
        assert(forall|i: int| 0 <= i < front.len() ==> front[i] == list[i]);
        if count_standing(list, wanted) == 0 {
            assert forall|i: int| 0 <= i < list.len() implies standing(#[trigger] list[i])
                != wanted by {
                if i < front.len() {
                    assert(standing(front[i]) != wanted);
                }
            }
        }
    }
}

/// The posture of an environment: empty without subscriptions, unhealthy where
/// one of its products is in trouble, current where all of them run the heads of
/// their channels, and behind otherwise.
pub proof fn postures_of_environments(
    report: &EnvironmentInspectReport,
    row: FleetEnvironmentRow,
)
    requires
        call_ensures(fleet_row_from_inspect, (report,), row),
    ensures
        ({
            let list = report.subscriptions@;
            let trouble = exists|i: int| 0 <= i < list.len() && in_trouble(#[trigger] list[i]);
            let all = forall|i: int| 0 <= i < list.len() ==> runs_the_head(#[trigger] list[i]);
            &&& row.posture@ == if list.len() == 0 {
                "empty"@
            } else if trouble {
                "unhealthy"@
            } else if all {
                "current"@
            } else {
                "behind"@
            }
            &&& row.unhealthy <==> trouble
        }),
        row.name@ == report.name@,
        row.id@ == report.id@,
        row.description@ == report.description@,
        row.lease_held == report.lease.held,
        row.latest_plan_state is Some <==> report.latest_plan is Some,
        report.latest_plan is Some ==> row.latest_plan_state->0@ == report.latest_plan->0.state@,
{
    let list = report.subscriptions@;
    let models = subscription_models(list);
    assert(models.len() == list.len());
    assert forall|i: int| 0 <= i < list.len() implies models[i] == (#[trigger] list[i])@ by {};
    lemma_none_counted(models, Standing::Behind);
    lemma_none_counted(models, Standing::Missing);
    assert forall|i: int| 0 <= i < list.len() implies {
        &&& (standing(models[i]) == Standing::Current <==> runs_the_head(#[trigger] list[i]))
        &&& (is_unknown(models[i]) || is_failing(models[i]) <==> in_trouble(list[i]))
    } by {
        lemma_standing_direct(list[i]);
    }
    if exists|i: int| 0 <= i < list.len() && in_trouble(#[trigger] list[i]) {
        let i = choose|i: int| 0 <= i < list.len() && in_trouble(#[trigger] list[i]);
        assert(is_unknown(models[i]) || is_failing(models[i]));
    }
    if any_unknown(models) {
        let i = choose|i: int| 0 <= i < models.len() && is_unknown(#[trigger] models[i]);
        assert(in_trouble(list[i]));
    }
    if any_failing(models) {
        let i = choose|i: int| 0 <= i < models.len() && is_failing(#[trigger] models[i]);
        assert(in_trouble(list[i]));
    }
    if forall|i: int| 0 <= i < list.len() ==> runs_the_head(#[trigger] list[i]) {
        assert forall|i: int| 0 <= i < models.len() implies standing(#[trigger] models[i])
            == Standing::Current by {
            assert(runs_the_head(list[i]));
        }
    } else {
        let i = choose|i: int| 0 <= i < list.len() && !runs_the_head(#[trigger] list[i]);
        assert(standing(models[i]) != Standing::Current);
    }
}

/// The counts of a row are those of the products that run the heads of their
/// channels, that are not deployed, and the others.
pub proof fn rows_count_their_products(
    report: &EnvironmentInspectReport,
    row: FleetEnvironmentRow,
)
    requires
        call_ensures(fleet_row_from_inspect, (report,), row),
    ensures
        row.subscription_count == report.subscriptions@.len(),
        row.products_current == report.subscriptions@.filter(
            |sub: EnvironmentSubscriptionView| runs_the_head(sub),
        ).len(),
        row.products_missing == report.subscriptions@.filter(
            |sub: EnvironmentSubscriptionView| not_deployed(sub),
        ).len(),
        row.products_current + row.products_behind + row.products_missing
            == report.subscriptions@.len(),
{
    lemma_standing_counted(report.subscriptions@);
    standings_add_up(subscription_models(report.subscriptions@));
}

/// Rows of a posture.
pub open spec fn of_posture(posture: Seq<char>) -> spec_fn(FleetEnvironmentRow) -> bool {
    |row: FleetEnvironmentRow| row.posture@ == posture
}

proof fn lemma_posture_counted(rows: Seq<FleetEnvironmentRow>, posture: Seq<char>)
    ensures
        count_posture(row_models(rows), posture) == rows.filter(of_posture(posture)).len(),
    decreases rows.len(),
{
    reveal(Seq::filter);
    if rows.len() > 0 {
        lemma_posture_counted(rows.drop_last(), posture);
        assert(row_models(rows).drop_last() =~= row_models(rows.drop_last()));
        assert(row_models(rows).last() == rows.last()@);
    }
}

/// A fleet report keeps its rows and counts those of each posture.
pub proof fn reports_count_their_rows(
    environments: Vec<FleetEnvironmentRow>,
    report: FleetStatusReport,
)
    requires
        call_ensures(fleet_status_from_rows, (environments,), report),
    ensures
        row_models(report.environments@) == row_models(environments@),
        report.environment_count == environments@.len(),
        report.environments_current == environments@.filter(of_posture("current"@)).len(),
        report.environments_behind == environments@.filter(of_posture("behind"@)).len(),
        report.environments_unhealthy == environments@.filter(of_posture("unhealthy"@)).len(),
        report.environments_empty == environments@.filter(of_posture("empty"@)).len(),
{
    lemma_posture_counted(environments@, "current"@);
    lemma_posture_counted(environments@, "behind"@);
    lemma_posture_counted(environments@, "unhealthy"@);
    lemma_posture_counted(environments@, "empty"@);
}

/// A fleet report has the row of each environment, in the order of the names,
/// and counts those of each posture.
pub proof fn reports_have_every_environment(
    reports: Vec<EnvironmentInspectReport>,
    report: FleetStatusReport,
)
    requires
        call_ensures(fleet_status_from_inspects, (reports,), report),
    ensures
        report.environments@.len() == reports@.len(),
        report.environment_count == reports@.len(),
        forall|i: int, j: int|
            0 <= i < j < report.environments@.len() ==> !crate::text::text_less(
                (#[trigger] report.environments@[j]).name@,
                (#[trigger] report.environments@[i]).name@,
            ),
        forall|k: int|
            0 <= k < reports@.len() ==> row_models(report.environments@).contains(
                row_of(#[trigger] reports@[k]),
            ),
        report.environments_current == report.environments@.filter(of_posture("current"@)).len(),
        report.environments_behind == report.environments@.filter(of_posture("behind"@)).len(),
        report.environments_unhealthy == report.environments@.filter(of_posture("unhealthy"@)).len(),
        report.environments_empty == report.environments@.filter(of_posture("empty"@)).len(),
{
    let rows = rows_of(reports@);
    let keys = report_names(reports@);
    let order = text_order(keys);
    let shown = row_models(report.environments@);
    lemma_text_order(keys);
    arranging_keeps_the_items(rows, keys);
    assert(shown.len() == report.environments@.len());
    lemma_posture_counted(report.environments@, "current"@);
    lemma_posture_counted(report.environments@, "behind"@);
    lemma_posture_counted(report.environments@, "unhealthy"@);
    lemma_posture_counted(report.environments@, "empty"@);
    assert forall|i: int, j: int| 0 <= i < j < shown.len() implies !crate::text::text_less(
        (#[trigger] report.environments@[j]).name@,
        (#[trigger] report.environments@[i]).name@,
    ) by {
        assert(shown[i] == rows[order[i]]);
        assert(shown[j] == rows[order[j]]);
        assert(shown[i] == report.environments@[i]@);
        assert(shown[j] == report.environments@[j]@);
        assert(rows[order[i]] == row_of(reports@[order[i]]));
        assert(rows[order[j]] == row_of(reports@[order[j]]));
        assert(!crate::text::text_less(keys[order[j]], keys[order[i]]));
    }
    assert forall|k: int| 0 <= k < reports@.len() implies shown.contains(
        row_of(#[trigger] reports@[k]),
    ) by {
        assert(rows[k] == row_of(reports@[k]));
        assert(rows.contains(rows[k]));
    }
}

} // verus!
