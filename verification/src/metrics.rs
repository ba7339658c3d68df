//! OpenMetrics exposition of reconcile counters.
//!
//! Labels are of low cardinality: they hold no secrets and no tenants.
use crate::reconciler::ReconcileDiagnostics;
use crate::text::{
    chars_of, contains, contains_text, decimal, decimal_text, text_of, trimmed,
};
use vstd::prelude::*;

verus! {

/// The prefix of metric names.
pub const METRIC_PREFIX: &'static str = "tenkai_";

/// A character is safe in a label.
pub open spec fn label_char(c: char) -> bool {
    ('0' <= c <= '9') || ('A' <= c <= 'Z') || ('a' <= c <= 'z') || c == '_' || c == '-'
}

/// The text of a label: safe characters, 32 of them at most.
pub open spec fn label_text(raw: Seq<char>) -> Seq<char> {
    let inner = trimmed(raw);
    if inner.len() == 0 {
        "none"@
    } else {
        inner.take(
            if inner.len() < 32 {
                inner.len() as int
            } else {
                32
            },
        ).map_values(
            |c: char|
                if label_char(c) {
                    c
                } else {
                    '_'
                },
        )
    }
}

/// A value as a label, restricted to characters that are safe there.
pub fn sanitize_label_value(raw: &str) -> (label: String)
    ensures
        label@ == label_text(raw@),
{
    let inner = raw.trim();
    let chars = chars_of(inner);
    if chars.len() == 0 {
        return "none".to_owned();
    }
    let count: usize = if chars.len() < 32 {
        chars.len()
    } else {
        32
    };
    let mut output: Vec<char> = Vec::new();
    let mut i: usize = 0;
    assert(output@ =~= label_text(raw@).take(0));
    while i < count
        invariant
            i <= count,
            count <= chars.len(),
            chars@ == trimmed(raw@),
            chars@.len() > 0,
            count == (if chars@.len() < 32 {
                chars@.len() as int
            } else {
                32
            }),
            output@ == label_text(raw@).take(i as int),
        decreases count - i,
    {
        let c = chars[i];
        if ('0' <= c && c <= '9') || ('A' <= c && c <= 'Z') || ('a' <= c && c <= 'z') || c == '_'
            || c == '-' {
            output.push(c);
        } else {
            output.push('_');
        }
        i = i + 1;
        assert(output@ =~= label_text(raw@).take(i as int));
    }
    assert(output@ =~= label_text(raw@));
    text_of(&output)
}

/// A series with one number.
pub open spec fn series(
    name: Seq<char>,
    kind: Seq<char>,
    help: Seq<char>,
    sample: Seq<char>,
) -> Seq<char> {
    "# HELP "@ + name + " "@ + help + "\n# TYPE "@ + name + " "@ + kind + "\n"@ + name + sample
        + "\n"@
}

/// A number behind the name of its series.
pub open spec fn number_sample(value: u64) -> Seq<char> {
    " "@ + decimal(value as nat)
}

/// A label behind the name of its series.
pub open spec fn outcome_sample(label: Seq<char>) -> Seq<char> {
    "{outcome=\""@ + label + "\"} 1"@
}

/// The exposition of reconcile counters.
pub open spec fn openmetrics_text(
    ticks_total: u64,
    ticks_failed: u64,
    last_outcome: Seq<char>,
    last_environments_total: u64,
    last_environments_failed: u64,
    environments_busy_total: u64,
) -> Seq<char> {
    series(
        "tenkai_reconcile_ticks_total"@,
        "counter"@,
        "Total reconcile ticks attempted."@,
        number_sample(ticks_total),
    ) + series(
        "tenkai_reconcile_ticks_failed_total"@,
        "counter"@,
        "Reconcile ticks with environment failures or tick errors."@,
        number_sample(ticks_failed),
    ) + series(
        "tenkai_reconcile_last_environments"@,
        "gauge"@,
        "Environments considered on the last successful tick structure."@,
        number_sample(last_environments_total),
    ) + series(
        "tenkai_reconcile_last_environments_failed"@,
        "gauge"@,
        "Environments failed on the last tick."@,
        number_sample(last_environments_failed),
    ) + series(
        "tenkai_reconcile_last_outcome"@,
        "gauge"@,
        "Last tick outcome (ok, degraded, error, or empty)."@,
        outcome_sample(label_text(last_outcome)),
    ) + series(
        "tenkai_reconcile_environments_busy_total"@,
        "counter"@,
        "Environments skipped as Busy (in-flight or fence)."@,
        number_sample(environments_busy_total),
    ) + "# EOF\n"@
}

fn push_series(output: &mut String, name: &str, kind: &str, help: &str, sample: &str)
    ensures
        final(output)@ == old(output)@ + series(name@, kind@, help@, sample@),
{
    let ghost start = output@;
    output.append("# HELP ");
    output.append(name);
    output.append(" ");
    output.append(help);
    output.append("\n# TYPE ");
    output.append(name);
    output.append(" ");
    output.append(kind);
    output.append("\n");
    output.append(name);
    output.append(sample);
    output.append("\n");
    assert(output@ =~= start + series(name@, kind@, help@, sample@));
}

fn numbered(value: u64) -> (sample: String)
    ensures
        sample@ == number_sample(value),
{
    let mut sample = " ".to_owned();
    sample.append(decimal_text(value).as_str());
    sample
}

/// Render the exposition of reconcile counters.
pub fn render_reconcile_openmetrics(diag: &ReconcileDiagnostics) -> (text: String)
    ensures
        text@ == openmetrics_text(
            diag.ticks_total,
            diag.ticks_failed,
            diag.last_outcome@,
            diag.last_environments_total,
            diag.last_environments_failed,
            diag.environments_busy_total,
        ),
{
    let mut label = "{outcome=\"".to_owned();
    label.append(sanitize_label_value(&diag.last_outcome).as_str());
    label.append("\"} 1");
    let mut output = String::new();
    push_series(
        &mut output,
        "tenkai_reconcile_ticks_total",
        "counter",
        "Total reconcile ticks attempted.",
        numbered(diag.ticks_total).as_str(),
    );
    push_series(
        &mut output,
        "tenkai_reconcile_ticks_failed_total",
        "counter",
        "Reconcile ticks with environment failures or tick errors.",
        numbered(diag.ticks_failed).as_str(),
    );
    push_series(
        &mut output,
        "tenkai_reconcile_last_environments",
        "gauge",
        "Environments considered on the last successful tick structure.",
        numbered(diag.last_environments_total).as_str(),
    );
    push_series(
        &mut output,
        "tenkai_reconcile_last_environments_failed",
        "gauge",
        "Environments failed on the last tick.",
        numbered(diag.last_environments_failed).as_str(),
    );
    push_series(
        &mut output,
        "tenkai_reconcile_last_outcome",
        "gauge",
        "Last tick outcome (ok, degraded, error, or empty).",
        label.as_str(),
    );
    push_series(
        &mut output,
        "tenkai_reconcile_environments_busy_total",
        "counter",
        "Environments skipped as Busy (in-flight or fence).",
        numbered(diag.environments_busy_total).as_str(),
    );
    output.append("# EOF\n");
    assert(output@ =~= openmetrics_text(
        diag.ticks_total,
        diag.ticks_failed,
        diag.last_outcome@,
        diag.last_environments_total,
        diag.last_environments_failed,
        diag.environments_busy_total,
    ));
    output
}

/// A body holds one of the secrets. Empty ones do not count.
pub open spec fn leaks(body: Seq<char>, secrets: Seq<&str>) -> bool {
    exists|i: int|
        0 <= i < secrets.len() && (#[trigger] secrets[i])@.len() > 0 && contains_text(
            body,
            secrets[i]@,
        )
}

/// Tell whether a body holds one of the secrets.
pub fn body_leaks_secret(body: &str, secrets: &[&str]) -> (answer: bool)
    ensures
        answer == leaks(body@, secrets@),
{
    let mut i: usize = 0;
    while i < secrets.len()
        invariant
            i <= secrets.len(),
            forall|k: int|
                0 <= k < i ==> !((#[trigger] secrets@[k])@.len() > 0 && contains_text(
                    body@,
                    secrets@[k]@,
                )),
        decreases secrets.len() - i,
    {
        let secret = secrets[i];
        if secret.unicode_len() > 0 && contains(body, secret) {
            return true;
        }
        i = i + 1;
    }
    false
}

/// A label is never empty, is no longer than 32 characters and breaks no line
/// and no quotation.
pub proof fn labels_are_safe(raw: Seq<char>)
    ensures
        0 < label_text(raw).len() <= 32,
        forall|i: int| 0 <= i < label_text(raw).len() ==> label_char(#[trigger] label_text(raw)[i]),
{
    reveal_strlit("none");
}

/// A label keeps the safe characters of its value, in their places, and shows
/// every other as an underscore; only what stands behind the thirty-second is
/// cut off.
pub proof fn labels_keep_safe_characters(raw: &str, label: String)
    requires
        call_ensures(sanitize_label_value, (raw,), label),
    ensures
        ({
            let inner = trimmed(raw@);
            &&& inner.len() == 0 ==> label@ == "none"@
            &&& inner.len() > 0 ==> label@.len() == (if inner.len() < 32 {
                inner.len()
            } else {
                32
            })
            &&& inner.len() > 0 ==> forall|i: int|
                0 <= i < label@.len() ==> #[trigger] label@[i] == (if ('0' <= inner[i] <= '9') || (
                'A' <= inner[i] <= 'Z') || ('a' <= inner[i] <= 'z') || inner[i] == '_' || inner[i]
                    == '-' {
                    inner[i]
                } else {
                    '_'
                })
        }),
{
}

/// A body leaks if and only if a secret that is not empty stands somewhere in
/// it.
pub proof fn leaks_are_found(body: &str, secrets: &[&str], answer: bool)
    requires
        call_ensures(body_leaks_secret, (body, secrets), answer),
    ensures
        answer <==> exists|i: int|
            0 <= i < secrets@.len() && (#[trigger] secrets@[i])@.len() > 0 && contains_text(
                body@,
                secrets@[i]@,
            ),
{
}

proof fn lemma_stands_between(head: Seq<char>, part: Seq<char>, tail: Seq<char>)
    ensures
        contains_text(head + part + tail, part),
{
    let text = head + part + tail;
    assert(text.subrange(head.len() as int, (head.len() + part.len()) as int) =~= part);
    assert(crate::text::stands_at(text, part, head.len() as int));
}

proof fn lemma_seven_parts(
    a: Seq<char>,
    b: Seq<char>,
    c: Seq<char>,
    d: Seq<char>,
    e: Seq<char>,
    f: Seq<char>,
    end: Seq<char>,
)
    ensures
        a + b + c + d + e + f + end == Seq::<char>::empty() + a + (b + c + d + e + f + end),
        a + b + c + d + e + f + end == a + b + (c + d + e + f + end),
        a + b + c + d + e + f + end == (a + b) + c + (d + e + f + end),
        a + b + c + d + e + f + end == (a + b + c) + d + (e + f + end),
        a + b + c + d + e + f + end == (a + b + c + d + e) + f + end,
{
}

/// The exposition shows each counter on a line with its name and its value.
pub proof fn counters_are_shown(diag: &ReconcileDiagnostics, text: String)
    requires
        call_ensures(render_reconcile_openmetrics, (diag,), text),
    ensures
        contains_text(
            text@,
            "\n"@ + "tenkai_reconcile_ticks_total"@ + " "@ + decimal(diag.ticks_total as nat)
                + "\n"@,
        ),
        contains_text(
            text@,
            "\n"@ + "tenkai_reconcile_ticks_failed_total"@ + " "@ + decimal(
                diag.ticks_failed as nat,
            ) + "\n"@,
        ),
        contains_text(
            text@,
            "\n"@ + "tenkai_reconcile_last_environments"@ + " "@ + decimal(
                diag.last_environments_total as nat,
            ) + "\n"@,
        ),
        contains_text(
            text@,
            "\n"@ + "tenkai_reconcile_last_environments_failed"@ + " "@ + decimal(
                diag.last_environments_failed as nat,
            ) + "\n"@,
        ),
        contains_text(
            text@,
            "\n"@ + "tenkai_reconcile_environments_busy_total"@ + " "@ + decimal(
                diag.environments_busy_total as nat,
            ) + "\n"@,
        ),
{
    let a = series(
        "tenkai_reconcile_ticks_total"@,
        "counter"@,
        "Total reconcile ticks attempted."@,
        number_sample(diag.ticks_total),
    );
    let b = series(
        "tenkai_reconcile_ticks_failed_total"@,
        "counter"@,
        "Reconcile ticks with environment failures or tick errors."@,
        number_sample(diag.ticks_failed),
    );
    let c = series(
        "tenkai_reconcile_last_environments"@,
        "gauge"@,
        "Environments considered on the last successful tick structure."@,
        number_sample(diag.last_environments_total),
    );
    let d = series(
        "tenkai_reconcile_last_environments_failed"@,
        "gauge"@,
        "Environments failed on the last tick."@,
        number_sample(diag.last_environments_failed),
    );
    let e = series(
        "tenkai_reconcile_last_outcome"@,
        "gauge"@,
        "Last tick outcome (ok, degraded, error, or empty)."@,
        outcome_sample(label_text(diag.last_outcome@)),
    );
    let f = series(
        "tenkai_reconcile_environments_busy_total"@,
        "counter"@,
        "Environments skipped as Busy (in-flight or fence)."@,
        number_sample(diag.environments_busy_total),
    );
    let end = "# EOF\n"@;
    assert(text@ == a + b + c + d + e + f + end);
    lemma_seven_parts(a, b, c, d, e, f, end);
    lemma_series_shown(
        text@,
        Seq::<char>::empty(),
        "tenkai_reconcile_ticks_total"@,
        "counter"@,
        "Total reconcile ticks attempted."@,
        diag.ticks_total,
        b + c + d + e + f + end,
    );
    lemma_series_shown(
        text@,
        a,
        "tenkai_reconcile_ticks_failed_total"@,
        "counter"@,
        "Reconcile ticks with environment failures or tick errors."@,
        diag.ticks_failed,
        c + d + e + f + end,
    );
    lemma_series_shown(
        text@,
        a + b,
        "tenkai_reconcile_last_environments"@,
        "gauge"@,
        "Environments considered on the last successful tick structure."@,
        diag.last_environments_total,
        d + e + f + end,
    );
    lemma_series_shown(
        text@,
        a + b + c,
        "tenkai_reconcile_last_environments_failed"@,
        "gauge"@,
        "Environments failed on the last tick."@,
        diag.last_environments_failed,
        e + f + end,
    );
    lemma_series_shown(
        text@,
        a + b + c + d + e,
        "tenkai_reconcile_environments_busy_total"@,
        "counter"@,
        "Environments skipped as Busy (in-flight or fence)."@,
        diag.environments_busy_total,
        end,
    );
}

proof fn lemma_series_shown(
    text: Seq<char>,
    before: Seq<char>,
    name: Seq<char>,
    kind: Seq<char>,
    help: Seq<char>,
    value: u64,
    behind: Seq<char>,
)
    requires
        text == before + series(name, kind, help, number_sample(value)) + behind,
    ensures
        contains_text(text, "\n"@ + name + " "@ + decimal(value as nat) + "\n"@),
{
    let line = "\n"@ + name + " "@ + decimal(value as nat) + "\n"@;
    let head = before + ("# HELP "@ + name + " "@ + help + "\n# TYPE "@ + name + " "@ + kind);
    assert(text =~= head + line + behind);
    lemma_stands_between(head, line, behind);
}

} // verus!
