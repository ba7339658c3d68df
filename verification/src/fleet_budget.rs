//! Resource budgets of the synthetic fleet.
//!
//! Measurement never skips signing, approval or gates. A budget that is missed
//! fails closed.
use crate::error::{refusal, refuse_unless, Error};
use crate::text::{decimal, decimal_text, join, joined, opt_text, texts};
use vstd::prelude::*;

verus! {

/// The profile that is measured.
pub const PROFILE: &'static str = "ci-embedded-sqlite";

/// How many samples are taken.
pub const SAMPLE_COUNT: usize = 2;

/// The command that measures.
pub const COMMAND: &'static str = "tenkaictl fleet measure";

/// What a measurement may use.
#[derive(Debug, Clone, Copy, PartialEq, Eq, Structural)]
pub struct ResourceBudget {
    pub wall_ms: u64,
    pub cpu_ms: u64,
    pub memory_bytes: u64,
    pub storage_bytes: u64,
}

impl ResourceBudget {
    /// The budget of the profile.
    pub fn ci_embedded_sqlite() -> (budget: ResourceBudget)
        ensures
            budget == (ResourceBudget {
                wall_ms: 180_000,
                cpu_ms: 180_000,
                memory_bytes: 2_147_483_648,
                storage_bytes: 536_870_912,
            }),
    {
        ResourceBudget {
            wall_ms: 180_000,
            cpu_ms: 180_000,
            memory_bytes: 2 * 1024 * 1024 * 1024,
            storage_bytes: 512 * 1024 * 1024,
        }
    }

    /// Check a budget.
    pub fn validate(&self) -> (result: Result<(), Error>)
        ensures
            refusal(result) == refuse_unless(
                self.wall_ms > 0 && self.cpu_ms > 0 && self.memory_bytes > 0 && self.storage_bytes
                    > 0,
                "resource budgets must be greater than zero"@,
            ),
    {
        if self.wall_ms == 0 || self.cpu_ms == 0 || self.memory_bytes == 0 || self.storage_bytes
            == 0 {
            return Err(Error::fixed("resource budgets must be greater than zero"));
        }
        Ok(())
    }
}

/// What one tick used.
#[derive(Debug, Clone, Copy, PartialEq, Eq, Structural)]
pub struct BudgetSample {
    pub wall_ms: u64,
    pub cpu_ms: u64,
    pub memory_bytes: u64,
    pub storage_bytes: u64,
    pub environments: usize,
    pub tick_failures: usize,
}

/// What was measured.
#[derive(Debug, PartialEq, Eq)]
pub struct BudgetReport {
    pub profile: String,
    pub command: String,
    pub seed_digest: String,
    pub skip_gates: bool,
    pub samples: Vec<BudgetSample>,
    pub wall_ms_variance: u64,
    pub passed: bool,
    pub limiting_resource: Option<String>,
}

/// A truth value as it is shown.
pub open spec fn truth(value: bool) -> Seq<char> {
    if value {
        "true"@
    } else {
        "false"@
    }
}

fn truth_text(value: bool) -> (text: &'static str)
    ensures
        text@ == truth(value),
{
    if value {
        "true"
    } else {
        "false"
    }
}

/// What is said of one sample.
pub open spec fn sample_line(index: nat, sample: BudgetSample) -> Seq<char> {
    "  sample"@ + decimal(index + 1) + " wall_ms="@ + decimal(sample.wall_ms as nat) + " cpu_ms="@
        + decimal(sample.cpu_ms as nat) + " memory_bytes="@ + decimal(sample.memory_bytes as nat)
        + " storage_bytes="@ + decimal(sample.storage_bytes as nat) + " environments="@ + decimal(
        sample.environments as nat,
    ) + " tick_failures="@ + decimal(sample.tick_failures as nat)
}

/// What is said of the samples, one line each.
pub open spec fn sample_lines(samples: Seq<BudgetSample>) -> Seq<Seq<char>> {
    Seq::new(samples.len(), |i: int| sample_line(i as nat, samples[i]))
}

/// The first line of a report.
pub open spec fn head_line(report: BudgetReport) -> Seq<char> {
    "fleet budget profile="@ + report.profile@ + " seed_digest="@ + report.seed_digest@
        + " samples="@ + decimal(report.samples@.len()) + " passed="@ + truth(report.passed)
        + " skip_gates="@ + truth(report.skip_gates)
}

/// The last line of a report.
pub open spec fn tail_line(report: BudgetReport) -> Seq<char> {
    "  wall_ms_variance="@ + decimal(report.wall_ms_variance as nat) + " limiting="@ + (
    match report.limiting_resource {
        Some(resource) => resource@,
        None => "none"@,
    })
}

/// The lines of a report.
pub open spec fn report_lines(report: BudgetReport) -> Seq<Seq<char>> {
    seq![head_line(report)] + sample_lines(report.samples@) + seq![tail_line(report)]
}

fn show_sample(index: usize, sample: &BudgetSample) -> (line: String)
    requires
        index < usize::MAX,
    ensures
        line@ == sample_line(index as nat, *sample),
{
    let mut line = "  sample".to_owned();
    line.append(decimal_text((index + 1) as u64).as_str());
    line.append(" wall_ms=");
    line.append(decimal_text(sample.wall_ms).as_str());
    line.append(" cpu_ms=");
    line.append(decimal_text(sample.cpu_ms).as_str());
    line.append(" memory_bytes=");
    line.append(decimal_text(sample.memory_bytes).as_str());
    line.append(" storage_bytes=");
    line.append(decimal_text(sample.storage_bytes).as_str());
    line.append(" environments=");
    line.append(decimal_text(sample.environments as u64).as_str());
    line.append(" tick_failures=");
    line.append(decimal_text(sample.tick_failures as u64).as_str());
    line
}

/// Say what was measured.
pub fn format_report(report: &BudgetReport) -> (text: String)
    ensures
        text@ == joined(report_lines(*report), "\n"@),
{
    let mut head = "fleet budget profile=".to_owned();
    head.append(report.profile.as_str());
    head.append(" seed_digest=");
    head.append(report.seed_digest.as_str());
    head.append(" samples=");
    head.append(decimal_text(report.samples.len() as u64).as_str());
    head.append(" passed=");
    head.append(truth_text(report.passed));
    head.append(" skip_gates=");
    head.append(truth_text(report.skip_gates));
    let mut lines: Vec<String> = Vec::new();
    lines.push(head);
    let ghost samples = sample_lines(report.samples@);
    let mut i: usize = 0;
    assert(texts(lines@) =~= seq![head_line(*report)] + samples.take(0));
    while i < report.samples.len()
        invariant
            i <= report.samples.len(),
            samples == sample_lines(report.samples@),
            texts(lines@) == seq![head_line(*report)] + samples.take(i as int),
        decreases report.samples.len() - i,
    {
        let ghost before = lines@;
        lines.push(show_sample(i, &report.samples[i]));
        assert(texts(lines@) =~= texts(before).push(samples[i as int]));
        assert(texts(lines@) =~= seq![head_line(*report)] + samples.take(i + 1));
        i = i + 1;
    }
    let mut tail = "  wall_ms_variance=".to_owned();
    tail.append(decimal_text(report.wall_ms_variance).as_str());
    tail.append(" limiting=");
    match &report.limiting_resource {
        Some(resource) => {
            tail.append(resource.as_str());
        },
        None => {
            tail.append("none");
        },
    }
    let ghost before = lines@;
    lines.push(tail);
    assert(texts(lines@) =~= texts(before).push(tail_line(*report)));
    assert(texts(lines@) =~= report_lines(*report));
    join(&lines, "\n")
}

/// Seconds and microseconds in milliseconds, as far as a number can hold them.
pub open spec fn time_ms(seconds: u64, micros: u64) -> int {
    let whole: int = if seconds * 1000 > u64::MAX {
        u64::MAX as int
    } else {
        seconds * 1000
    };
    if whole + micros as int / 1000 > u64::MAX {
        u64::MAX as int
    } else {
        whole + micros as int / 1000
    }
}

/// Seconds and microseconds in milliseconds.
pub fn timeval_ms(seconds: u64, micros: u64) -> (ms: u64)
    ensures
        ms == time_ms(seconds, micros),
{
    let whole: u64 = match seconds.checked_mul(1000) {
        Some(value) => value,
        None => u64::MAX,
    };
    match whole.checked_add(micros / 1000) {
        Some(value) => value,
        None => u64::MAX,
    }
}

/// What a process has used.
#[derive(Debug, Clone, Copy, PartialEq, Eq, Structural)]
pub struct Usage {
    pub cpu_ms: u64,
    pub memory_bytes: u64,
}

/// The sample of a tick, from what the process had used before and after it.
pub fn sample_of(
    before: Usage,
    after: Usage,
    wall_ms: u64,
    storage_bytes: u64,
    environments: usize,
    tick_failures: usize,
) -> (sample: BudgetSample)
    ensures
        sample == (BudgetSample {
            wall_ms,
            cpu_ms: if after.cpu_ms >= before.cpu_ms {
                (after.cpu_ms - before.cpu_ms) as u64
            } else {
                0
            },
            memory_bytes: after.memory_bytes,
            storage_bytes,
            environments,
            tick_failures,
        }),
{
    let cpu_ms = if after.cpu_ms >= before.cpu_ms {
        after.cpu_ms - before.cpu_ms
    } else {
        0
    };
    BudgetSample {
        wall_ms,
        cpu_ms,
        memory_bytes: after.memory_bytes,
        storage_bytes,
        environments,
        tick_failures,
    }
}

/// The resource of which a sample used more than its budget, the first of
/// several.
pub open spec fn breach(sample: BudgetSample, budget: ResourceBudget) -> Option<Seq<char>> {
    if sample.wall_ms > budget.wall_ms {
        Some("wall"@)
    } else if sample.cpu_ms > budget.cpu_ms {
        Some("cpu"@)
    } else if sample.memory_bytes > budget.memory_bytes {
        Some("memory"@)
    } else if sample.storage_bytes > budget.storage_bytes {
        Some("storage"@)
    } else {
        None
    }
}

/// The resource that limits: that of the last sample with a breach.
pub open spec fn limiting(samples: Seq<BudgetSample>, budget: ResourceBudget) -> Option<Seq<char>>
    decreases samples.len(),
{
    if samples.len() == 0 {
        None
    } else if breach(samples.last(), budget) is Some {
        breach(samples.last(), budget)
    } else {
        limiting(samples.drop_last(), budget)
    }
}

/// The longest tick.
pub open spec fn longest(samples: Seq<BudgetSample>) -> u64
    decreases samples.len(),
{
    if samples.len() == 0 {
        0
    } else if samples.len() == 1 || samples.last().wall_ms > longest(samples.drop_last()) {
        samples.last().wall_ms
    } else {
        longest(samples.drop_last())
    }
}

/// The shortest tick.
pub open spec fn shortest(samples: Seq<BudgetSample>) -> u64
    decreases samples.len(),
{
    if samples.len() == 0 {
        0
    } else if samples.len() == 1 || samples.last().wall_ms < shortest(samples.drop_last()) {
        samples.last().wall_ms
    } else {
        shortest(samples.drop_last())
    }
}

proof fn lemma_longest(samples: Seq<BudgetSample>, at: int)
    requires
        0 <= at < samples.len(),
    ensures
        shortest(samples) <= samples[at].wall_ms <= longest(samples),
    decreases samples.len(),
{
    if at < samples.len() - 1 {
        lemma_longest(samples.drop_last(), at);
    }
}

fn breached(sample: &BudgetSample, budget: &ResourceBudget) -> (resource: Option<&'static str>)
    ensures
        crate::text::opt_str(resource) == breach(*sample, *budget),
{
    if sample.wall_ms > budget.wall_ms {
        Some("wall")
    } else if sample.cpu_ms > budget.cpu_ms {
        Some("cpu")
    } else if sample.memory_bytes > budget.memory_bytes {
        Some("memory")
    } else if sample.storage_bytes > budget.storage_bytes {
        Some("storage")
    } else {
        None
    }
}

/// What samples amount to: the spread of their lengths and the resource that
/// limits.
fn weigh(samples: &Vec<BudgetSample>, budget: &ResourceBudget) -> (result: (
    u64,
    Option<String>,
))
    ensures
        result.0 == longest(samples@) - shortest(samples@),
        opt_text(result.1) == limiting(samples@, *budget),
{
    let mut most: u64 = 0;
    let mut least: u64 = 0;
    let mut resource: Option<String> = None;
    let mut i: usize = 0;
    while i < samples.len()
        invariant
            i <= samples.len(),
            most == longest(samples@.take(i as int)),
            least == shortest(samples@.take(i as int)),
            opt_text(resource) == limiting(samples@.take(i as int), *budget),
        decreases samples.len() - i,
    {
        let sample = &samples[i];
        assert(samples@.take(i + 1).drop_last() =~= samples@.take(i as int));
        assert(samples@.take(i + 1).last() == *sample);
        if i == 0 || sample.wall_ms > most {
            most = sample.wall_ms;
        }
        if i == 0 || sample.wall_ms < least {
            least = sample.wall_ms;
        }
        match breached(sample, budget) {
            Some(name) => {
                resource = Some(name.to_owned());
            },
            None => {},
        }
        i = i + 1;
    }
    assert(samples@.take(samples@.len() as int) =~= samples@);
    proof {
        if samples@.len() > 0 {
            lemma_longest(samples@, 0);
        }
    }
    (most - least, resource)
}

/// Report on samples against a budget. A breach is an error that names the
/// resource that limits.
pub fn settle_samples(samples: Vec<BudgetSample>, budget: &ResourceBudget, seed_digest: &str) -> (result:
    Result<BudgetReport, Error>)
    ensures
        refusal(result) == (match limiting(samples@, *budget) {
            Some(resource) => Some(
                "budget breach on profile "@ + PROFILE@ + ": limiting "@ + resource,
            ),
            None => None,
        }),
        result matches Ok(report) ==> {
            &&& report.profile@ == PROFILE@
            &&& report.command@ == COMMAND@
            &&& report.seed_digest@ == seed_digest@
            &&& !report.skip_gates
            &&& report.samples@ == samples@
            &&& report.wall_ms_variance == longest(samples@) - shortest(samples@)
            &&& report.passed
            &&& report.limiting_resource is None
        },
{
    let (wall_ms_variance, resource) = weigh(&samples, budget);
    match resource {
        Some(name) => {
            let mut message = "budget breach on profile ".to_owned();
            message.append(PROFILE);
            message.append(": limiting ");
            message.append(name.as_str());
            Err(Error::new(message))
        },
        None => Ok(
            BudgetReport {
                profile: PROFILE.to_owned(),
                command: COMMAND.to_owned(),
                seed_digest: seed_digest.to_owned(),
                skip_gates: false,
                samples,
                wall_ms_variance,
                passed: true,
                limiting_resource: None,
            },
        ),
    }
}

/// A budget is kept by every sample, or no report is made.
pub proof fn reported_samples_keep_the_budget(
    samples: Seq<BudgetSample>,
    budget: ResourceBudget,
    at: int,
)
    requires
        limiting(samples, budget) is None,
        0 <= at < samples.len(),
    ensures
        samples[at].wall_ms <= budget.wall_ms,
        samples[at].cpu_ms <= budget.cpu_ms,
        samples[at].memory_bytes <= budget.memory_bytes,
        samples[at].storage_bytes <= budget.storage_bytes,
    decreases samples.len(),
{
    if at < samples.len() - 1 {
        reported_samples_keep_the_budget(samples.drop_last(), budget, at);
    }
}

proof fn lemma_within(samples: Seq<BudgetSample>, budget: ResourceBudget)
    ensures
        limiting(samples, budget) is None <==> forall|i: int|
            0 <= i < samples.len() ==> breach(#[trigger] samples[i], budget) is None,
    decreases samples.len(),
{
    if samples.len() > 0 {
        let front = samples.drop_last();
        lemma_within(front, budget);
        assert(forall|i: int| 0 <= i < front.len() ==> front[i] == samples[i]);
        if limiting(samples, budget) is None {
            assert forall|i: int| 0 <= i < samples.len() implies breach(
                #[trigger] samples[i],
                budget,
            ) is None by {
                if i < front.len() {
                    assert(breach(front[i], budget) is None);
                }
            }
        }
    }
}

proof fn lemma_longest_is_one(samples: Seq<BudgetSample>)
    requires
        samples.len() > 0,
    ensures
        exists|i: int| 0 <= i < samples.len() && (#[trigger] samples[i]).wall_ms == longest(samples),
        exists|i: int|
            0 <= i < samples.len() && (#[trigger] samples[i]).wall_ms == shortest(samples),
    decreases samples.len(),
{
    let last = samples.len() - 1;
    if samples.len() == 1 {
        assert(samples[last].wall_ms == longest(samples));
    } else {
        let front = samples.drop_last();
        lemma_longest_is_one(front);
        let i = choose|i: int|
            0 <= i < front.len() && (#[trigger] front[i]).wall_ms == longest(front);
        let j = choose|j: int|
            0 <= j < front.len() && (#[trigger] front[j]).wall_ms == shortest(front);
        assert(samples[i] == front[i]);
        assert(samples[j] == front[j]);
        assert(samples[last] == samples.last());
    }
}

/// Samples are reported if and only if each keeps every budget. The report has
/// them, is passed, never skips gates, and tells by how much the longest tick
/// is longer than the shortest.
pub proof fn kept_budgets_are_reported(
    samples: Vec<BudgetSample>,
    budget: &ResourceBudget,
    seed_digest: &str,
    result: Result<BudgetReport, Error>,
)
    requires
        call_ensures(settle_samples, (samples, budget, seed_digest), result),
    ensures
        result is Ok <==> forall|i: int|
            0 <= i < samples@.len() ==> (#[trigger] samples@[i]).wall_ms <= budget.wall_ms
                && samples@[i].cpu_ms <= budget.cpu_ms && samples@[i].memory_bytes
                <= budget.memory_bytes && samples@[i].storage_bytes <= budget.storage_bytes,
        result matches Ok(report) ==> report.samples@ == samples@ && report.passed
            && !report.skip_gates && report.limiting_resource is None && report.seed_digest@
            == seed_digest@,
        result is Ok && samples@.len() > 0 ==> exists|i: int, j: int|
            {
                &&& 0 <= i < samples@.len()
                &&& 0 <= j < samples@.len()
                &&& result->Ok_0.wall_ms_variance == (#[trigger] samples@[i]).wall_ms - (
                #[trigger] samples@[j]).wall_ms
                &&& forall|k: int|
                    0 <= k < samples@.len() ==> samples@[j].wall_ms <= (
                    #[trigger] samples@[k]).wall_ms <= samples@[i].wall_ms
            },
{
    lemma_within(samples@, *budget);
    if result is Ok {
        assert forall|i: int| 0 <= i < samples@.len() implies (#[trigger] samples@[i]).wall_ms
            <= budget.wall_ms && samples@[i].cpu_ms <= budget.cpu_ms && samples@[i].memory_bytes
            <= budget.memory_bytes && samples@[i].storage_bytes <= budget.storage_bytes by {
            assert(breach(samples@[i], *budget) is None);
        }
        if samples@.len() > 0 {
            lemma_longest_is_one(samples@);
            let i = choose|i: int|
                0 <= i < samples@.len() && (#[trigger] samples@[i]).wall_ms == longest(samples@);
            let j = choose|j: int|
                0 <= j < samples@.len() && (#[trigger] samples@[j]).wall_ms == shortest(samples@);
            assert forall|k: int| 0 <= k < samples@.len() implies samples@[j].wall_ms <= (
            #[trigger] samples@[k]).wall_ms <= samples@[i].wall_ms by {
                lemma_longest(samples@, k);
            }
            assert(result->Ok_0.wall_ms_variance == samples@[i].wall_ms - samples@[j].wall_ms);
        }
    } else {
        let i = choose|i: int|
            0 <= i < samples@.len() && breach(#[trigger] samples@[i], *budget) is Some;
        assert(breach(samples@[i], *budget) is Some);
    }
}

/// Times are counted in whole milliseconds, as far as a number can hold them.
pub proof fn times_in_milliseconds(seconds: u64, micros: u64, ms: u64)
    requires
        call_ensures(timeval_ms, (seconds, micros), ms),
    ensures
        seconds * 1000 + micros as int / 1000 <= u64::MAX ==> ms == seconds * 1000 + micros as int
            / 1000,
        seconds * 1000 + micros as int / 1000 > u64::MAX ==> ms == u64::MAX,
{
}

/// A sample has the time that the process used in between, and what it holds
/// afterwards.
pub proof fn samples_are_differences(
    before: Usage,
    after: Usage,
    wall_ms: u64,
    storage_bytes: u64,
    environments: usize,
    tick_failures: usize,
    sample: BudgetSample,
)
    requires
        call_ensures(
            sample_of,
            (before, after, wall_ms, storage_bytes, environments, tick_failures),
            sample,
        ),
    ensures
        before.cpu_ms <= after.cpu_ms ==> before.cpu_ms + sample.cpu_ms == after.cpu_ms,
        before.cpu_ms > after.cpu_ms ==> sample.cpu_ms == 0,
        sample.memory_bytes == after.memory_bytes,
        sample.wall_ms == wall_ms,
        sample.storage_bytes == storage_bytes,
        sample.environments == environments,
        sample.tick_failures == tick_failures,
{
}

/// A budget is valid if and only if it leaves something of each resource.
pub proof fn valid_budgets(budget: &ResourceBudget, result: Result<(), Error>)
    requires
        call_ensures(ResourceBudget::validate, (budget,), result),
    ensures
        result is Err <==> budget.wall_ms == 0 || budget.cpu_ms == 0 || budget.memory_bytes == 0
            || budget.storage_bytes == 0,
{
}

} // verus!
