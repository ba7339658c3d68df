//! The governed configuration object that holds an environment's windows.
use super::schedule::rules_refusal;
use super::window::{window_models, window_refusal, Window, WindowModel};
use crate::crypto::{digest_hex, sha256_hex};
use crate::error::{first_refusal, refusal, refuse_unless, Error};
use crate::framing::utf8;
use crate::graph::{Decision, Object, ObjectChange};
use crate::ontology::{
    identifier_refusal, validate_identifier, ACTION_CONFIGURE_MAINTENANCE, KIND_MAINTENANCE_CONFIG,
    NS,
};
use crate::text::{
    contains, contains_text, less, opt_str, same, text_less, text_less_irreflexive,
    text_less_total, text_less_transitive,
};
use crate::text_map::{group_text_values, text_at, text_values, TextMap};
use vstd::prelude::*;

verus! {

pub const WINDOWS_PROPERTY: &'static str = "windows";

/// How far a decision may lie behind the change that it explains.
pub const EVIDENCE_SPAN_MILLIS: i64 = 60_000;

/// The identity of the configuration object of an environment.
pub open spec fn config_id_text(environment: Seq<char>) -> Seq<char> {
    "tenkai:maintenance:"@ + environment
}

/// The identity of the configuration object of an environment.
pub fn config_id(environment: &str) -> (id: String)
    ensures
        id@ == config_id_text(environment@),
{
    let mut id = "tenkai:maintenance:".to_owned();
    id.append(environment);
    id
}

/// The revision of the text of a list of windows.
pub open spec fn revision_text(windows: Seq<char>) -> Seq<char> {
    sha256_hex(utf8(windows))
}

/// The revision of the text of a list of windows.
pub fn revision(windows: &str) -> (text: String)
    ensures
        text@ == revision_text(windows@),
{
    digest_hex(windows.as_bytes())
}

/// Why the windows of a configuration are refused: for the first that is no
/// valid window.
pub open spec fn stored_rules_refusal(id: Seq<char>, windows: Seq<WindowModel>) -> Option<Seq<char>>
    decreases windows.len(),
{
    if windows.len() == 0 {
        None
    } else {
        first_refusal(
            stored_rules_refusal(id, windows.drop_last()),
            refuse_unless(
                window_refusal(windows.last()) is None,
                "configuration "@ + id + " has invalid maintenance window "@
                    + windows.last().identity,
            ),
        )
    }
}

proof fn lemma_stored_stop(id: Seq<char>, windows: Seq<WindowModel>, at: int)
    requires
        0 <= at < windows.len(),
        stored_rules_refusal(id, windows.take(at + 1)) is Some,
    ensures
        stored_rules_refusal(id, windows) == stored_rules_refusal(id, windows.take(at + 1)),
    decreases windows.len() - at,
{
    if at + 1 == windows.len() {
        assert(windows.take(at + 1) =~= windows);
    } else {
        assert(windows.take(at + 2).drop_last() =~= windows.take(at + 1));
        lemma_stored_stop(id, windows, at + 1);
    }
}

proof fn lemma_stored_rules(id: Seq<char>, windows: Seq<WindowModel>)
    requires
        stored_rules_refusal(id, windows) is None,
    ensures
        rules_refusal(windows) is None,
    decreases windows.len(),
{
    if windows.len() > 0 {
        lemma_stored_rules(id, windows.drop_last());
    }
}

/// Why a configuration object is refused. `parsed` is what its windows read
/// as, where they can be read.
pub open spec fn decode_refusal(
    object: Object,
    environment: Seq<char>,
    parsed: Option<Seq<WindowModel>>,
) -> Option<Seq<char>> {
    let raw = object.property(WINDOWS_PROPERTY@);
    if object.kind@ != KIND_MAINTENANCE_CONFIG@ {
        Some(
            "object "@ + object.id@ + " is "@ + object.kind@ + ", not "@
                + KIND_MAINTENANCE_CONFIG@,
        )
    } else if object.property("environment"@) != Some(environment) {
        Some("maintenance configuration "@ + object.id@ + " has the wrong environment"@)
    } else if raw is None {
        Some("maintenance configuration has no windows"@)
    } else if object.property("revision"@) != Some(revision_text(raw->0)) {
        Some("maintenance configuration "@ + object.id@ + " has an invalid revision"@)
    } else if parsed is None {
        Some("configuration "@ + object.id@ + " has invalid maintenance-window JSON"@)
    } else {
        stored_rules_refusal(object.id@, parsed->0)
    }
}

/// What an optional list of windows says.
pub open spec fn opt_windows(list: Option<Vec<Window>>) -> Option<Seq<WindowModel>> {
    match list {
        Some(windows) => Some(window_models(windows@)),
        None => None,
    }
}

fn check_stored(id: &str, windows: &Vec<Window>) -> (result: Result<(), Error>)
    ensures
        refusal(result) == stored_rules_refusal(id@, window_models(windows@)),
{
    let ghost models = window_models(windows@);
    let mut i: usize = 0;
    assert(models.take(0) =~= Seq::<WindowModel>::empty());
    while i < windows.len()
        invariant
            i <= windows.len(),
            models == window_models(windows@),
            stored_rules_refusal(id@, models.take(i as int)) is None,
        decreases windows.len() - i,
    {
        assert(models[i as int] == windows@[i as int]@);
        assert(models.take(i + 1).drop_last() =~= models.take(i as int));
        assert(models.take(i + 1).last() == models[i as int]);
        if windows[i].validate().is_err() {
            proof {
                lemma_stored_stop(id@, models, i as int);
            }
            let mut message = "configuration ".to_owned();
            message.append(id);
            message.append(" has invalid maintenance window ");
            message.append(windows[i].identity.as_str());
            return Err(Error::new(message));
        }
        i = i + 1;
    }
    assert(models.take(i as int) =~= models);
    Ok(())
}

fn about(start: &str, id: &str, end: &str) -> (error: Error)
    ensures
        error@ == start@ + id@ + end@,
{
    let mut message = start.to_owned();
    message.append(id);
    message.append(end);
    Error::new(message)
}

/// The windows of a configuration object. `parsed` is what its windows read
/// as, where they can be read.
pub fn decode_configuration(
    object: &Object,
    environment: &str,
    parsed: Option<Vec<Window>>,
) -> (result: Result<Vec<Window>, Error>)
    ensures
        refusal(result) == decode_refusal(*object, environment@, opt_windows(parsed)),
        result matches Ok(windows) ==> parsed == Some(windows) && rules_refusal(
            window_models(windows@),
        ) is None,
{
    if !same(&object.kind, KIND_MAINTENANCE_CONFIG) {
        let mut message = "object ".to_owned();
        message.append(object.id.as_str());
        message.append(" is ");
        message.append(object.kind.as_str());
        message.append(", not ");
        message.append(KIND_MAINTENANCE_CONFIG);
        return Err(Error::new(message));
    }
    match object.properties.text("environment") {
        Some(text) => {
            if !same(text, environment) {
                return Err(
                    about(
                        "maintenance configuration ",
                        object.id.as_str(),
                        " has the wrong environment",
                    ),
                );
            }
        },
        None => {
            return Err(
                about(
                    "maintenance configuration ",
                    object.id.as_str(),
                    " has the wrong environment",
                ),
            );
        },
    }
    let raw = match object.properties.text(WINDOWS_PROPERTY) {
        None => return Err(Error::fixed("maintenance configuration has no windows")),
        Some(text) => text,
    };
    let expected = revision(raw);
    let current = match object.properties.text("revision") {
        Some(text) => same(text, &expected),
        None => false,
    };
    if !current {
        return Err(
            about(
                "maintenance configuration ",
                object.id.as_str(),
                " has an invalid revision",
            ),
        );
    }
    let windows = match parsed {
        None => {
            return Err(
                about(
                    "configuration ",
                    object.id.as_str(),
                    " has invalid maintenance-window JSON",
                ),
            );
        },
        Some(windows) => windows,
    };
    match check_stored(object.id.as_str(), &windows) {
        Err(error) => Err(error),
        Ok(_) => {
            proof {
                lemma_stored_rules(object.id@, window_models(windows@));
            }
            Ok(windows)
        },
    }
}

/// A decision allowed the update that a configuration names.
pub open spec fn explains(decision: Decision, object: Object, correlation: Seq<char>) -> bool {
    &&& decision.action@ == ACTION_CONFIGURE_MAINTENANCE@
    &&& decision.reason@ == "execute_action"@
    &&& decision.target_id@ == object.id@
    &&& text_at(decision.evidence@, "decision"@) == Some("allow"@)
    &&& text_at(decision.evidence@, "correlation"@) == Some(correlation)
    &&& text_at(decision.evidence@, "environment"@) == object.property("environment"@)
    &&& text_at(decision.evidence@, WINDOWS_PROPERTY@) == object.property(WINDOWS_PROPERTY@)
    &&& text_at(decision.evidence@, "revision"@) == object.property("revision"@)
}

/// The place of the first decision that explains a configuration.
pub open spec fn explained_at(
    decisions: Seq<Decision>,
    object: Object,
    correlation: Seq<char>,
    from: int,
) -> Option<int>
    decreases decisions.len() - from,
{
    if from < 0 || from >= decisions.len() {
        None
    } else if explains(decisions[from], object, correlation) {
        Some(from)
    } else {
        explained_at(decisions, object, correlation, from + 1)
    }
}

/// A change recorded an update under a correlation.
pub open spec fn records(change: ObjectChange, correlation: Seq<char>) -> bool {
    change.field@ == "properties.last_update_correlation"@ && change.new_value@ == correlation
}

/// The place of the latest change that records an update, the last of those
/// with the same time.
pub open spec fn recorded_at(changes: Seq<ObjectChange>, correlation: Seq<char>) -> Option<int>
    decreases changes.len(),
{
    if changes.len() == 0 {
        None
    } else {
        let before = recorded_at(changes.drop_last(), correlation);
        if records(changes.last(), correlation) && (before is None
            || changes[before->0].timestamp <= changes.last().timestamp) {
            Some(changes.len() - 1)
        } else {
            before
        }
    }
}

/// A change altered the windows or their revision after an instant.
pub open spec fn altered_after(changes: Seq<ObjectChange>, at: i64) -> bool {
    exists|i: int|
        0 <= i < changes.len() && ((#[trigger] changes[i]).field@ == "properties.windows"@
            || changes[i].field@ == "properties.revision"@) && changes[i].timestamp > at
}

/// A configuration is what an allowed, recorded update left.
pub open spec fn governed(
    object: Object,
    decisions: Seq<Decision>,
    changes: Seq<ObjectChange>,
) -> bool {
    match object.property("last_update_correlation"@) {
        None => false,
        Some(correlation) => {
            let explained = explained_at(decisions, object, correlation, 0);
            let recorded = recorded_at(changes, correlation);
            &&& explained is Some
            &&& recorded is Some
            &&& {
                let decision = decisions[explained->0];
                let change = changes[recorded->0];
                &&& change.changed_by@ == decision.actor@
                &&& change.timestamp <= decision.timestamp
                &&& decision.timestamp - change.timestamp <= EVIDENCE_SPAN_MILLIS
                &&& !altered_after(changes, change.timestamp)
            }
        },
    }
}

fn same_property(left: Option<&str>, right: Option<&str>) -> (answer: bool)
    ensures
        answer == (opt_str(left) == opt_str(right)),
{
    match (left, right) {
        (Some(a), Some(b)) => same(a, b),
        (None, None) => true,
        _ => false,
    }
}

fn is_explaining(decision: &Decision, object: &Object, correlation: &str) -> (answer: bool)
    ensures
        answer == explains(*decision, *object, correlation@),
{
    same(&decision.action, ACTION_CONFIGURE_MAINTENANCE) && same(
        &decision.reason,
        "execute_action",
    ) && same(&decision.target_id, &object.id) && same_property(
        decision.evidence.text("decision"),
        Some("allow"),
    ) && same_property(decision.evidence.text("correlation"), Some(correlation)) && same_property(
        decision.evidence.text("environment"),
        object.properties.text("environment"),
    ) && same_property(
        decision.evidence.text(WINDOWS_PROPERTY),
        object.properties.text(WINDOWS_PROPERTY),
    ) && same_property(decision.evidence.text("revision"), object.properties.text("revision"))
}

fn find_decision(decisions: &[Decision], object: &Object, correlation: &str) -> (found: Option<
    usize,
>)
    ensures
        match found {
            Some(at) => at < decisions@.len() && explained_at(
                decisions@,
                *object,
                correlation@,
                0,
            ) == Some(at as int),
            None => explained_at(decisions@, *object, correlation@, 0) is None,
        },
{
    let mut i: usize = 0;
    while i < decisions.len()
        invariant
            i <= decisions.len(),
            explained_at(decisions@, *object, correlation@, 0) == explained_at(
                decisions@,
                *object,
                correlation@,
                i as int,
            ),
        decreases decisions.len() - i,
    {
        if is_explaining(&decisions[i], object, correlation) {
            return Some(i);
        }
        i = i + 1;
    }
    None
}

fn find_change(changes: &[ObjectChange], correlation: &str) -> (found: Option<usize>)
    ensures
        match found {
            Some(at) => at < changes@.len() && recorded_at(changes@, correlation@) == Some(
                at as int,
            ),
            None => recorded_at(changes@, correlation@) is None,
        },
{
    let mut found: Option<usize> = None;
    let mut i: usize = 0;
    assert(changes@.take(0) =~= Seq::<ObjectChange>::empty());
    while i < changes.len()
        invariant
            i <= changes.len(),
            match found {
                Some(at) => at < i && recorded_at(changes@.take(i as int), correlation@) == Some(
                    at as int,
                ),
                None => recorded_at(changes@.take(i as int), correlation@) is None,
            },
        decreases changes.len() - i,
    {
        let change = &changes[i];
        assert(changes@.take(i + 1).drop_last() =~= changes@.take(i as int));
        assert(changes@.take(i + 1).last() == *change);
        if same(&change.field, "properties.last_update_correlation") && same(
            &change.new_value,
            correlation,
        ) {
            let later = match found {
                None => true,
                Some(at) => changes[at].timestamp <= change.timestamp,
            };
            if later {
                found = Some(i);
            }
        }
        i = i + 1;
    }
    assert(changes@.take(i as int) =~= changes@);
    found
}

/// The place of the change that recorded the update a configuration names.
pub open spec fn update_change(object: Object, changes: Seq<ObjectChange>) -> Option<int> {
    match object.property("last_update_correlation"@) {
        None => None,
        Some(correlation) => recorded_at(changes, correlation),
    }
}

/// The place of the change that recorded the update a configuration names:
/// its author and time are those by which decisions are looked up.
pub fn correlation_change(object: &Object, changes: &[ObjectChange]) -> (found: Option<usize>)
    ensures
        match found {
            Some(at) => at < changes@.len() && update_change(*object, changes@) == Some(at as int),
            None => update_change(*object, changes@) is None,
        },
{
    match object.properties.text("last_update_correlation") {
        None => None,
        Some(correlation) => find_change(changes, correlation),
    }
}

/// The instant from which decisions on a change are looked up: the one before
/// it, where there is one.
pub fn decisions_since(change: &ObjectChange) -> (since: i64)
    ensures
        since == (if change.timestamp == i64::MIN {
            i64::MIN as int
        } else {
            change.timestamp - 1
        }),
{
    if change.timestamp == i64::MIN {
        i64::MIN
    } else {
        change.timestamp - 1
    }
}

fn is_altered_after(changes: &[ObjectChange], at: i64) -> (answer: bool)
    ensures
        answer == altered_after(changes@, at),
{
    let mut i: usize = 0;
    while i < changes.len()
        invariant
            i <= changes.len(),
            forall|k: int|
                0 <= k < i ==> !(((#[trigger] changes@[k]).field@ == "properties.windows"@
                    || changes@[k].field@ == "properties.revision"@) && changes@[k].timestamp > at),
        decreases changes.len() - i,
    {
        let change = &changes[i];
        if (same(&change.field, "properties.windows") || same(
            &change.field,
            "properties.revision",
        )) && change.timestamp > at {
            assert(changes@[i as int].timestamp > at);
            return true;
        }
        i = i + 1;
    }
    false
}

/// A configuration is what an allowed, recorded update left.
pub fn has_governed_evidence(
    object: &Object,
    decisions: &[Decision],
    changes: &[ObjectChange],
) -> (answer: bool)
    ensures
        answer == governed(*object, decisions@, changes@),
{
    let correlation = match object.properties.text("last_update_correlation") {
        None => return false,
        Some(text) => text,
    };
    let decision = match find_decision(decisions, object, correlation) {
        None => return false,
        Some(at) => &decisions[at],
    };
    let change = match find_change(changes, correlation) {
        None => return false,
        Some(at) => &changes[at],
    };
    if !same(&change.changed_by, &decision.actor) || change.timestamp > decision.timestamp {
        return false;
    }
    let span: i128 = decision.timestamp as i128 - change.timestamp as i128;
    span <= EVIDENCE_SPAN_MILLIS as i128 && !is_altered_after(changes, change.timestamp)
}

/// The windows of a configuration object that is what an allowed, recorded
/// update left.
pub fn decode_governed_configuration(
    object: &Object,
    environment: &str,
    parsed: Option<Vec<Window>>,
    decisions: &[Decision],
    changes: &[ObjectChange],
) -> (result: Result<Vec<Window>, Error>)
    ensures
        refusal(result) == first_refusal(
            decode_refusal(*object, environment@, opt_windows(parsed)),
            refuse_unless(
                governed(*object, decisions@, changes@),
                "maintenance configuration "@ + object.id@
                    + " has no matching governed-action evidence"@,
            ),
        ),
        result matches Ok(windows) ==> parsed == Some(windows),
{
    let windows = match decode_configuration(object, environment, parsed) {
        Err(error) => return Err(error),
        Ok(windows) => windows,
    };
    if !has_governed_evidence(object, decisions, changes) {
        return Err(
            about(
                "maintenance configuration ",
                object.id.as_str(),
                " has no matching governed-action evidence",
            ),
        );
    }
    Ok(windows)
}

/// A direct change of the windows behind the update that a configuration
/// names voids its evidence, whatever was decided.
pub proof fn direct_change_voids_evidence(
    object: Object,
    decisions: Seq<Decision>,
    changes: Seq<ObjectChange>,
    at: int,
)
    requires
        0 <= at < changes.len(),
        changes[at].field@ == "properties.windows"@ || changes[at].field@
            == "properties.revision"@,
        update_change(object, changes) matches Some(i) ==> changes[i].timestamp
            < changes[at].timestamp,
    ensures
        !governed(object, decisions, changes),
{
}

/// A configuration without a recorded update is not governed.
pub proof fn unrecorded_configuration_is_not_governed(
    object: Object,
    decisions: Seq<Decision>,
    changes: Seq<ObjectChange>,
)
    requires
        update_change(object, changes) is None,
    ensures
        !governed(object, decisions, changes),
{
}

/// The parameters of the governed action that replaces a configuration.
pub fn configure_params(
    environment: &str,
    encoded: &str,
    correlation: &str,
) -> (params: TextMap<String>)
    ensures
        text_values(params@) == Map::<Seq<char>, Seq<char>>::empty().insert(
            "id"@,
            config_id_text(environment@),
        ).insert("environment"@, environment@).insert(WINDOWS_PROPERTY@, encoded@).insert(
            "revision"@,
            revision_text(encoded@),
        ).insert("correlation"@, correlation@),
{
    broadcast use group_text_values;

    let mut params = TextMap::<String>::new();
    params.insert("id".to_owned(), config_id(environment));
    params.insert("environment".to_owned(), environment.to_owned());
    params.insert(WINDOWS_PROPERTY.to_owned(), encoded.to_owned());
    params.insert("revision".to_owned(), revision(encoded));
    params.insert("correlation".to_owned(), correlation.to_owned());
    params
}

/// Why an update is not even tried.
pub open spec fn preview_refusal(decision: Seq<char>) -> Option<Seq<char>> {
    if decision == "allow"@ {
        None
    } else if decision == "require_approval"@ {
        Some(
            "maintenance-window update requires approval; deferred schedule updates are not supported"@,
        )
    } else {
        Some("maintenance-window update was not allowed: "@ + decision)
    }
}

/// Decide by the preview of an update whether to try it.
pub fn check_preview(decision: &str) -> (result: Result<(), Error>)
    ensures
        refusal(result) == preview_refusal(decision@),
{
    if same(decision, "allow") {
        return Ok(());
    }
    if same(decision, "require_approval") {
        return Err(
            Error::fixed(
                "maintenance-window update requires approval; deferred schedule updates are not supported",
            ),
        );
    }
    let mut message = "maintenance-window update was not allowed: ".to_owned();
    message.append(decision);
    Err(Error::new(message))
}

/// What to do once an update was asked for.
#[derive(Debug, PartialEq, Eq)]
pub enum UpdateStep {
    /// Read back what was stored.
    Confirm,
    /// Deny the approval that the update waits for.
    Cancel,
    /// End with an error.
    Refuse { message: String },
}

/// What to do once an update was decided on.
pub fn after_execution(decision: &str) -> (step: UpdateStep)
    ensures
        decision@ == "allow"@ ==> step is Confirm,
        decision@ != "allow"@ && decision@ == "require_approval"@ ==> step is Cancel,
        decision@ != "allow"@ && decision@ != "require_approval"@ ==> step is Refuse
            && step->message@ == "maintenance-window update was not allowed: "@ + decision@,
{
    if same(decision, "allow") {
        UpdateStep::Confirm
    } else if same(decision, "require_approval") {
        UpdateStep::Cancel
    } else {
        let mut message = "maintenance-window update was not allowed: ".to_owned();
        message.append(decision);
        UpdateStep::Refuse { message }
    }
}

/// How a deferred update ends: its approval was denied, or could not be.
pub fn deferred_update(approval_id: &str, cancelled: bool) -> (error: Error)
    ensures
        error@ == "maintenance-window update requires approval "@ + approval_id@ + (if cancelled {
            "; the pending update was cancelled"@
        } else {
            ", and cancelling the stale update failed; do not approve it"@
        }),
{
    about(
        "maintenance-window update requires approval ",
        approval_id,
        if cancelled {
            "; the pending update was cancelled"
        } else {
            ", and cancelling the stale update failed; do not approve it"
        },
    )
}

fn same_window(left: &Window, right: &Window) -> (answer: bool)
    ensures
        answer == (left@ == right@),
{
    if !same(&left.identity, &right.identity) || !same(&left.timezone, &right.timezone) || !same(
        &left.start,
        &right.start,
    ) || left.duration_minutes != right.duration_minutes || left.weekdays.len()
        != right.weekdays.len() {
        return false;
    }
    let mut i: usize = 0;
    while i < left.weekdays.len()
        invariant
            i <= left.weekdays.len(),
            left.weekdays@.len() == right.weekdays@.len(),
            forall|k: int| 0 <= k < i ==> left.weekdays@[k] == right.weekdays@[k],
        decreases left.weekdays.len() - i,
    {
        if left.weekdays[i] != right.weekdays[i] {
            assert(left@.weekdays[i as int] != right@.weekdays[i as int]);
            return false;
        }
        i = i + 1;
    }
    assert(left@.weekdays =~= right@.weekdays);
    true
}

/// Two lists hold the same windows in the same order.
pub fn same_windows(left: &[Window], right: &[Window]) -> (answer: bool)
    ensures
        answer == (window_models(left@) == window_models(right@)),
{
    let ghost a = window_models(left@);
    let ghost b = window_models(right@);
    assert(a.len() == left@.len() && b.len() == right@.len());
    if left.len() != right.len() {
        return false;
    }
    let mut i: usize = 0;
    while i < left.len()
        invariant
            i <= left.len(),
            left@.len() == right@.len(),
            a == window_models(left@),
            b == window_models(right@),
            forall|k: int| 0 <= k < i ==> a[k] == b[k],
        decreases left.len() - i,
    {
        assert(a[i as int] == left@[i as int]@);
        assert(b[i as int] == right@[i as int]@);
        if !same_window(&left[i], &right[i]) {
            return false;
        }
        i = i + 1;
    }
    assert(a =~= b);
    true
}

/// A stored configuration is the one that was asked for.
pub open spec fn persisted_as_asked(
    object: Object,
    encoded: Seq<char>,
    correlation: Seq<char>,
    stored: Result<Seq<WindowModel>, Seq<char>>,
    windows: Seq<WindowModel>,
) -> bool {
    &&& object.property("last_update_correlation"@) == Some(correlation)
    &&& object.property(WINDOWS_PROPERTY@) == Some(encoded)
    &&& object.property("revision"@) == Some(revision_text(encoded))
    &&& stored == Ok::<Seq<WindowModel>, Seq<char>>(windows)
}

/// What a result with windows says.
pub open spec fn stored_windows(result: Result<Vec<Window>, Error>) -> Result<
    Seq<WindowModel>,
    Seq<char>,
> {
    match result {
        Ok(windows) => Ok(window_models(windows@)),
        Err(error) => Err(error@),
    }
}

/// Why an update that was asked for did not succeed. `failed` says that the
/// action itself returned an error.
pub open spec fn update_refusal(
    object: Object,
    encoded: Seq<char>,
    correlation: Seq<char>,
    stored: Result<Seq<WindowModel>, Seq<char>>,
    windows: Seq<WindowModel>,
    failed: bool,
) -> Option<Seq<char>> {
    if persisted_as_asked(object, encoded, correlation, stored, windows) {
        None
    } else {
        match stored {
            Ok(_) => if failed {
                Some("the requested configuration was not committed"@)
            } else {
                Some("maintenance-window configuration was not persisted as requested"@)
            },
            Err(evidence) => if failed {
                Some("the requested configuration lacks valid commit evidence: "@ + evidence)
            } else {
                Some(evidence)
            },
        }
    }
}

/// Confirm by what was stored that an update took effect. `stored` is what
/// the stored configuration decodes to.
pub fn confirm_update(
    object: &Object,
    encoded: &str,
    correlation: &str,
    stored: Result<Vec<Window>, Error>,
    windows: &[Window],
    failed: bool,
) -> (result: Result<(), Error>)
    ensures
        refusal(result) == update_refusal(
            *object,
            encoded@,
            correlation@,
            stored_windows(stored),
            window_models(windows@),
            failed,
        ),
{
    let expected = revision(encoded);
    let recorded = same_property(
        object.properties.text("last_update_correlation"),
        Some(correlation),
    ) && same_property(object.properties.text(WINDOWS_PROPERTY), Some(encoded)) && same_property(
        object.properties.text("revision"),
        Some(expected.as_str()),
    );
    match stored {
        Ok(found) => {
            if recorded && same_windows(found.as_slice(), windows) {
                Ok(())
            } else if failed {
                Err(Error::fixed("the requested configuration was not committed"))
            } else {
                Err(
                    Error::fixed("maintenance-window configuration was not persisted as requested"),
                )
            }
        },
        Err(evidence) => {
            if failed {
                let mut message =
                    "the requested configuration lacks valid commit evidence: ".to_owned();
                message.append(evidence.to_string().as_str());
                Err(Error::new(message))
            } else {
                Err(evidence)
            }
        },
    }
}

/// What the store said of a creation that failed.
#[derive(Debug, Clone, Copy, PartialEq, Eq, Structural)]
pub enum CreationStatus {
    AlreadyExists,
    Internal,
    Other,
}

/// A creation failed only because the object was there already.
pub fn already_created(status: CreationStatus, message: &str) -> (answer: bool)
    ensures
        answer == (status == CreationStatus::AlreadyExists || (status == CreationStatus::Internal
            && contains_text(message@, "UNIQUE"@))),
{
    match status {
        CreationStatus::AlreadyExists => true,
        CreationStatus::Internal => contains(message, "UNIQUE"),
        CreationStatus::Other => false,
    }
}

/// What to do about the configuration of an environment.
#[derive(Debug, Clone, Copy, PartialEq, Eq, Structural)]
pub enum InitialStep {
    /// Create the object with an empty list.
    Create,
    /// Check the evidence of the update that the object names.
    CheckEvidence,
    /// Put the unaudited empty list under governance.
    Adopt,
}

/// What to do about the configuration of an environment, by the object that
/// is stored.
pub fn initial_step(existing: Option<&Object>) -> (step: InitialStep)
    ensures
        step == (match existing {
            None => InitialStep::Create,
            Some(object) => if object.property("last_update_correlation"@) is Some {
                InitialStep::CheckEvidence
            } else {
                InitialStep::Adopt
            },
        }),
{
    match existing {
        None => InitialStep::Create,
        Some(object) => match object.properties.text("last_update_correlation") {
            Some(_) => InitialStep::CheckEvidence,
            None => InitialStep::Adopt,
        },
    }
}

/// The configuration object of a new environment.
pub fn initial_configuration(environment: &str, now: i64) -> (object: Object)
    ensures
        object.id@ == config_id_text(environment@),
        object.kind@ == KIND_MAINTENANCE_CONFIG@,
        object.name@ == environment@ + " maintenance windows"@,
        object.namespace@ == NS@,
        object.external_id@ == Seq::<char>::empty(),
        text_values(object.properties@) == Map::<Seq<char>, Seq<char>>::empty().insert(
            "environment"@,
            environment@,
        ).insert(WINDOWS_PROPERTY@, "[]"@).insert("revision"@, revision_text("[]"@)),
        object.created == now,
        object.updated == now,
{
    broadcast use group_text_values;

    let mut name = environment.to_owned();
    name.append(" maintenance windows");
    let mut properties = TextMap::<String>::new();
    properties.insert("environment".to_owned(), environment.to_owned());
    properties.insert(WINDOWS_PROPERTY.to_owned(), "[]".to_owned());
    properties.insert("revision".to_owned(), revision("[]"));
    Object {
        id: config_id(environment),
        kind: KIND_MAINTENANCE_CONFIG.to_owned(),
        name,
        namespace: NS.to_owned(),
        external_id: String::new(),
        properties,
        created: now,
        updated: now,
    }
}

/// An unaudited configuration may be put under governance only while it is
/// empty.
pub fn require_empty(id: &str, windows: &[Window]) -> (result: Result<(), Error>)
    ensures
        refusal(result) == refuse_unless(
            windows@.len() == 0,
            "unaudited maintenance configuration "@ + id@ + " is not empty"@,
        ),
{
    if windows.len() != 0 {
        return Err(about("unaudited maintenance configuration ", id, " is not empty"));
    }
    Ok(())
}

/// How work under a lease ends: with its own result, unless the lease could
/// not be released.
pub open spec fn lease_refusal(
    lease: Seq<char>,
    result: Option<Seq<char>>,
    release: Option<Seq<char>>,
) -> Option<Seq<char>> {
    match (result, release) {
        (None, None) => None,
        (Some(error), None) => Some(error),
        (Some(_), Some(unlock)) => Some(
            "releasing "@ + lease + " lease also failed: "@ + unlock,
        ),
        (None, Some(_)) => Some("releasing "@ + lease + " lease"@),
    }
}

/// Combine the result of work under a lease with that of its release.
pub fn settle_lease(
    lease: &str,
    result: Result<String, Error>,
    release: Result<(), Error>,
) -> (settled: Result<String, Error>)
    ensures
        refusal(settled) == lease_refusal(lease@, refusal(result), refusal(release)),
        settled matches Ok(message) ==> result == Ok::<String, Error>(message),
{
    match (result, release) {
        (Ok(message), Ok(_)) => Ok(message),
        (Err(error), Ok(_)) => Err(error),
        (Err(_), Err(unlock)) => {
            let mut text = "releasing ".to_owned();
            text.append(lease);
            text.append(" lease also failed: ");
            text.append(unlock.to_string().as_str());
            Err(Error::new(text))
        },
        (Ok(_), Err(_)) => Err(about("releasing ", lease, " lease")),
    }
}

/// The windows without those of an identity, in order.
pub open spec fn without(windows: Seq<WindowModel>, identity: Seq<char>) -> Seq<WindowModel>
    decreases windows.len(),
{
    if windows.len() == 0 {
        windows
    } else if windows.last().identity == identity {
        without(windows.drop_last(), identity)
    } else {
        without(windows.drop_last(), identity).push(windows.last())
    }
}

/// A list with a further window behind those whose identity is not greater.
pub open spec fn inserted(windows: Seq<WindowModel>, window: WindowModel) -> Seq<WindowModel>
    decreases windows.len(),
{
    if windows.len() == 0 || !text_less(window.identity, windows.last().identity) {
        windows.push(window)
    } else {
        inserted(windows.drop_last(), window).push(windows.last())
    }
}

/// A list in the order of identities, those of one identity in their order.
pub open spec fn by_identity(windows: Seq<WindowModel>) -> Seq<WindowModel>
    decreases windows.len(),
{
    if windows.len() == 0 {
        windows
    } else {
        inserted(by_identity(windows.drop_last()), windows.last())
    }
}

/// No window stands behind one of a greater identity.
pub open spec fn in_order(windows: Seq<WindowModel>) -> bool {
    forall|i: int, j: int|
        0 <= i < j < windows.len() ==> !text_less(
            (#[trigger] windows[j]).identity,
            (#[trigger] windows[i]).identity,
        )
}

proof fn lemma_inserted(windows: Seq<WindowModel>, window: WindowModel)
    requires
        in_order(windows),
    ensures
        in_order(inserted(windows, window)),
        inserted(windows, window).len() == windows.len() + 1,
        inserted(windows, window).to_multiset() == windows.to_multiset().insert(window),
        forall|x: WindowModel| #[trigger]
            inserted(windows, window).contains(x) <==> windows.contains(x) || x == window,
    decreases windows.len(),
{
    broadcast use vstd::seq_lib::group_to_multiset_ensures;

    let result = inserted(windows, window);
    if windows.len() == 0 || !text_less(window.identity, windows.last().identity) {
        assert forall|i: int, j: int| 0 <= i < j < result.len() implies !text_less(
            (#[trigger] result[j]).identity,
            (#[trigger] result[i]).identity,
        ) by {
            if j == windows.len() {
                let last = windows.last();
                if i < windows.len() - 1 {
                    assert(!text_less(windows[windows.len() - 1].identity, windows[i].identity));
                }
                if text_less(window.identity, windows[i].identity) {
                    text_less_total(windows[i].identity, last.identity);
                    if text_less(windows[i].identity, last.identity) {
                        text_less_transitive(
                            window.identity,
                            windows[i].identity,
                            last.identity,
                        );
                    }
                }
            }
        }
        assert forall|x: WindowModel| #[trigger] result.contains(x) <==> windows.contains(x) || x
            == window by {
            if windows.contains(x) {
                let k = windows.index_of(x);
                assert(result[k] == x);
            }
            if x == window {
                assert(result[windows.len() as int] == x);
            }
        }
    } else {
        let front = windows.drop_last();
        let last = windows.last();
        let inner = inserted(front, window);
        lemma_inserted(front, window);
        assert(windows =~= front.push(last));
        assert forall|i: int, j: int| 0 <= i < j < result.len() implies !text_less(
            (#[trigger] result[j]).identity,
            (#[trigger] result[i]).identity,
        ) by {
            if j == inner.len() {
                assert(inner.contains(result[i]));
                if result[i] == window {
                    if text_less(last.identity, window.identity) {
                        text_less_transitive(last.identity, window.identity, last.identity);
                        text_less_irreflexive(last.identity);
                    }
                } else {
                    let k = front.index_of(result[i]);
                    assert(windows[k] == result[i]);
                    assert(!text_less(windows[windows.len() - 1].identity, windows[k].identity));
                }
            }
        }
        assert forall|x: WindowModel| #[trigger] result.contains(x) <==> windows.contains(x) || x
            == window by {
            if result.contains(x) {
                let k = result.index_of(x);
                if k < inner.len() {
                    assert(inner.contains(inner[k]));
                    if x != window {
                        let m = front.index_of(x);
                        assert(windows[m] == x);
                    }
                } else {
                    assert(windows[windows.len() - 1] == x);
                }
            }
            if windows.contains(x) {
                let k = windows.index_of(x);
                if k < front.len() {
                    assert(front[k] == x);
                    assert(inner.contains(x));
                    let m = inner.index_of(x);
                    assert(result[m] == x);
                } else {
                    assert(result[inner.len() as int] == x);
                }
            }
            if x == window {
                assert(inner.contains(x));
                let m = inner.index_of(x);
                assert(result[m] == x);
            }
        }
        assert(result.to_multiset() =~= windows.to_multiset().insert(window));
    }
}

proof fn lemma_by_identity(windows: Seq<WindowModel>)
    ensures
        in_order(by_identity(windows)),
        by_identity(windows).to_multiset() == windows.to_multiset(),
        forall|x: WindowModel| #[trigger]
            by_identity(windows).contains(x) <==> windows.contains(x),
    decreases windows.len(),
{
    broadcast use vstd::seq_lib::group_to_multiset_ensures;

    if windows.len() > 0 {
        let front = windows.drop_last();
        lemma_by_identity(front);
        lemma_inserted(by_identity(front), windows.last());
        assert(windows =~= front.push(windows.last()));
        assert forall|x: WindowModel| #[trigger]
            by_identity(windows).contains(x) <==> windows.contains(x) by {
            if windows.contains(x) {
                let k = windows.index_of(x);
                if k < front.len() {
                    assert(front[k] == x);
                }
            }
            if front.contains(x) {
                let k = front.index_of(x);
                assert(windows[k] == x);
            }
            assert(windows[windows.len() - 1] == windows.last());
        }
    }
}

proof fn lemma_without(windows: Seq<WindowModel>, identity: Seq<char>)
    ensures
        without(windows, identity).len() <= windows.len(),
        without(windows, identity).len() == windows.len() ==> without(windows, identity)
            == windows,
        forall|x: WindowModel| #[trigger]
            without(windows, identity).contains(x) <==> windows.contains(x) && x.identity
                != identity,
    decreases windows.len(),
{
    if windows.len() > 0 {
        let front = windows.drop_last();
        let kept = without(front, identity);
        let result = without(windows, identity);
        lemma_without(front, identity);
        assert(windows =~= front.push(windows.last()));
        assert forall|x: WindowModel| #[trigger] result.contains(x) <==> windows.contains(x)
            && x.identity != identity by {
            if result.contains(x) {
                let k = result.index_of(x);
                if k < kept.len() {
                    assert(kept[k] == x);
                    assert(kept.contains(x));
                    let m = front.index_of(x);
                    assert(windows[m] == x);
                } else {
                    assert(windows[windows.len() - 1] == x);
                }
            }
            if windows.contains(x) && x.identity != identity {
                let k = windows.index_of(x);
                if k < front.len() {
                    assert(front[k] == x);
                    assert(kept.contains(x));
                    let m = kept.index_of(x);
                    assert(result[m] == x);
                } else {
                    assert(result[kept.len() as int] == x);
                }
            }
        }
    }
}

/// The windows of an environment after one was set.
pub open spec fn with_window(windows: Seq<WindowModel>, window: WindowModel) -> Seq<WindowModel> {
    by_identity(without(windows, window.identity).push(window))
}

/// Setting a window leaves exactly it under its identity, leaves every other
/// window as often as it was there, and orders the list by identity.
pub proof fn setting_replaces_one_window(windows: Seq<WindowModel>, window: WindowModel)
    ensures
        in_order(with_window(windows, window)),
        with_window(windows, window).to_multiset() == without(
            windows,
            window.identity,
        ).to_multiset().insert(window),
        forall|x: WindowModel| #[trigger]
            with_window(windows, window).contains(x) <==> x == window || (windows.contains(x)
                && x.identity != window.identity),
{
    let kept = without(windows, window.identity);
    lemma_without(windows, window.identity);
    lemma_by_identity(kept.push(window));
    assert(kept.push(window).to_multiset() =~= kept.to_multiset().insert(window)) by {
        broadcast use vstd::seq_lib::group_to_multiset_ensures;

    }
    assert forall|x: WindowModel| #[trigger]
        with_window(windows, window).contains(x) <==> x == window || (windows.contains(x)
            && x.identity != window.identity) by {
        if kept.push(window).contains(x) && x != window {
            let k = kept.push(window).index_of(x);
            assert(kept[k] == x);
            assert(kept.contains(x));
        }
        if kept.contains(x) {
            let k = kept.index_of(x);
            assert(kept.push(window)[k] == x);
        }
        if x == window {
            assert(kept.push(window)[kept.len() as int] == x);
        }
    }
}

fn drop_identity(windows: &Vec<Window>, identity: &str) -> (kept: Vec<Window>)
    ensures
        window_models(kept@) == without(window_models(windows@), identity@),
{
    let ghost models = window_models(windows@);
    let mut kept: Vec<Window> = Vec::new();
    let mut i: usize = 0;
    assert(window_models(kept@) =~= without(models.take(0), identity@));
    while i < windows.len()
        invariant
            i <= windows.len(),
            models == window_models(windows@),
            window_models(kept@) == without(models.take(i as int), identity@),
        decreases windows.len() - i,
    {
        let window = &windows[i];
        assert(models[i as int] == window@);
        assert(models.take(i + 1).drop_last() =~= models.take(i as int));
        assert(models.take(i + 1).last() == window@);
        if !same(&window.identity, identity) {
            let ghost before = window_models(kept@);
            kept.push(window.copy());
            assert(window_models(kept@) =~= before.push(window@));
        }
        i = i + 1;
    }
    assert(models.take(i as int) =~= models);
    kept
}

proof fn lemma_inserted_at(windows: Seq<WindowModel>, window: WindowModel, at: int)
    requires
        0 <= at <= windows.len(),
        at == 0 || !text_less(window.identity, windows[at - 1].identity),
        forall|k: int| at <= k < windows.len() ==> text_less(
            window.identity,
            (#[trigger] windows[k]).identity,
        ),
    ensures
        inserted(windows, window) == windows.insert(at, window),
    decreases windows.len(),
{
    if at == windows.len() {
        assert(windows.insert(at, window) =~= windows.push(window));
    } else {
        assert(text_less(window.identity, windows[windows.len() - 1].identity));
        lemma_inserted_at(windows.drop_last(), window, at);
        assert(windows.insert(at, window) =~= windows.drop_last().insert(at, window).push(
            windows.last(),
        ));
    }
}

fn insert_in_order(windows: &mut Vec<Window>, window: Window)
    ensures
        window_models(final(windows)@) == inserted(window_models(old(windows)@), window@),
{
    let ghost models = window_models(windows@);
    let mut at: usize = windows.len();
    while at > 0 && less(&window.identity, &windows[at - 1].identity)
        invariant
            at <= windows.len(),
            models == window_models(windows@),
            forall|k: int|
                at <= k < models.len() ==> text_less(
                    window@.identity,
                    (#[trigger] models[k]).identity,
                ),
        decreases at,
    {
        assert(models[at - 1] == windows@[at - 1]@);
        at = at - 1;
    }
    proof {
        if at > 0 {
            assert(models[at - 1] == windows@[at - 1]@);
        }
        lemma_inserted_at(models, window@, at as int);
    }
    let ghost model = window@;
    windows.insert(at, window);
    assert(window_models(windows@) =~= models.insert(at as int, model));
}

/// Put a window in the place of those with its identity.
pub fn set_window(
    environment: &str,
    windows: &Vec<Window>,
    window: &Window,
) -> (result: (Vec<Window>, String))
    ensures
        window_models(result.0@) == with_window(window_models(windows@), window@),
        result.1@ == "maintenance window "@ + window@.identity + " configured for "@ + environment@,
{
    let mut kept = drop_identity(windows, window.identity.as_str());
    let ghost before = window_models(kept@);
    kept.push(window.copy());
    let ghost models = window_models(kept@);
    assert(models =~= before.push(window@));
    let mut ordered: Vec<Window> = Vec::new();
    let mut i: usize = 0;
    assert(window_models(ordered@) =~= by_identity(models.take(0)));
    while i < kept.len()
        invariant
            i <= kept.len(),
            models == window_models(kept@),
            window_models(ordered@) == by_identity(models.take(i as int)),
        decreases kept.len() - i,
    {
        assert(models[i as int] == kept@[i as int]@);
        assert(models.take(i + 1).drop_last() =~= models.take(i as int));
        assert(models.take(i + 1).last() == models[i as int]);
        insert_in_order(&mut ordered, kept[i].copy());
        i = i + 1;
    }
    assert(models.take(i as int) =~= models);
    let mut message = "maintenance window ".to_owned();
    message.append(window.identity.as_str());
    message.append(" configured for ");
    message.append(environment);
    (ordered, message)
}

/// Why a window cannot be removed.
pub open spec fn removal_refusal(
    environment: Seq<char>,
    windows: Seq<WindowModel>,
    identity: Seq<char>,
) -> Option<Seq<char>> {
    first_refusal(
        identifier_refusal("maintenance-window identity"@, identity),
        refuse_unless(
            without(windows, identity).len() != windows.len(),
            "maintenance window "@ + identity + " is not configured for "@ + environment,
        ),
    )
}

/// Remove the windows of an identity.
pub fn remove_window(
    environment: &str,
    windows: &Vec<Window>,
    identity: &str,
) -> (result: Result<(Vec<Window>, String), Error>)
    ensures
        refusal(result) == removal_refusal(environment@, window_models(windows@), identity@),
        result matches Ok((kept, message)) ==> {
            &&& window_models(kept@) == without(window_models(windows@), identity@)
            &&& message@ == "maintenance window "@ + identity@ + " removed from "@ + environment@
        },
{
    match validate_identifier("maintenance-window identity", identity) {
        Err(error) => return Err(error),
        Ok(_) => {},
    }
    let kept = drop_identity(windows, identity);
    assert(window_models(kept@).len() == kept@.len());
    assert(window_models(windows@).len() == windows@.len());
    if kept.len() == windows.len() {
        let mut message = "maintenance window ".to_owned();
        message.append(identity);
        message.append(" is not configured for ");
        message.append(environment);
        return Err(Error::new(message));
    }
    let mut message = "maintenance window ".to_owned();
    message.append(identity);
    message.append(" removed from ");
    message.append(environment);
    Ok((kept, message))
}

/// Removal succeeds exactly where a window has the identity, and leaves every
/// other window.
pub proof fn removal_takes_what_is_configured(
    environment: Seq<char>,
    windows: Seq<WindowModel>,
    identity: Seq<char>,
)
    requires
        identifier_refusal("maintenance-window identity"@, identity) is None,
    ensures
        removal_refusal(environment, windows, identity) is None <==> exists|i: int|
            0 <= i < windows.len() && (#[trigger] windows[i]).identity == identity,
        forall|x: WindowModel| #[trigger]
            without(windows, identity).contains(x) <==> windows.contains(x) && x.identity
                != identity,
{
    lemma_without(windows, identity);
    let kept = without(windows, identity);
    if kept.len() == windows.len() {
        assert forall|i: int| 0 <= i < windows.len() implies (#[trigger] windows[i]).identity
            != identity by {
            assert(kept.contains(windows[i]));
        }
    } else {
        lemma_some_dropped(windows, identity);
    }
}

proof fn lemma_some_dropped(windows: Seq<WindowModel>, identity: Seq<char>)
    requires
        without(windows, identity).len() != windows.len(),
    ensures
        exists|i: int| 0 <= i < windows.len() && (#[trigger] windows[i]).identity == identity,
    decreases windows.len(),
{
    if windows.len() > 0 {
        if windows.last().identity == identity {
            assert(windows[windows.len() - 1].identity == identity);
        } else {
            lemma_some_dropped(windows.drop_last(), identity);
            let i = choose|i: int|
                0 <= i < windows.drop_last().len() && (#[trigger] windows.drop_last()[i]).identity
                    == identity;
            assert(windows[i].identity == identity);
        }
    }
}

/// An environment whose configuration was never initialized.
pub fn missing_configuration(environment: &str, updating: bool) -> (error: Error)
    ensures
        error@ == (if updating {
            "maintenance configuration for "@ + environment@
                + " is not initialized; rerun `tenkaictl env add "@ + environment@ + "`"@
        } else {
            "maintenance configuration for "@ + environment@
                + " is missing; run `tenkaictl env add "@ + environment@ + "` to initialize it"@
        }),
{
    let mut message = "maintenance configuration for ".to_owned();
    message.append(environment);
    if updating {
        message.append(" is not initialized; rerun `tenkaictl env add ");
        message.append(environment);
        message.append("`");
    } else {
        message.append(" is missing; run `tenkaictl env add ");
        message.append(environment);
        message.append("` to initialize it");
    }
    Error::new(message)
}

/// What must be stored before a configuration can be repaired, and what a
/// repair says. Stored window data is deliberately not trusted: the schedule
/// becomes empty.
pub fn check_repair(environment: &str, registered: bool, configured: bool) -> (result: Result<
    String,
    Error,
>)
    ensures
        refusal(result) == first_refusal(
            identifier_refusal("environment"@, environment@),
            first_refusal(
                refuse_unless(
                    registered,
                    "environment "@ + environment@ + " is not registered"@,
                ),
                refuse_unless(
                    configured,
                    "maintenance configuration for "@ + environment@ + " is missing"@,
                ),
            ),
        ),
        result matches Ok(message) ==> message@ == "maintenance configuration for "@ + environment@
            + " repaired with an empty schedule"@,
{
    match validate_identifier("environment", environment) {
        Err(error) => return Err(error),
        Ok(_) => {},
    }
    if !registered {
        return Err(about("environment ", environment, " is not registered"));
    }
    if !configured {
        return Err(about("maintenance configuration for ", environment, " is missing"));
    }
    let mut message = "maintenance configuration for ".to_owned();
    message.append(environment);
    message.append(" repaired with an empty schedule");
    Ok(message)
}

proof fn lemma_stored_rules_all(id: Seq<char>, windows: Seq<WindowModel>)
    ensures
        stored_rules_refusal(id, windows) is None <==> forall|i: int|
            0 <= i < windows.len() ==> window_refusal(#[trigger] windows[i]) is None,
    decreases windows.len(),
{
    if windows.len() > 0 {
        let front = windows.drop_last();
        lemma_stored_rules_all(id, front);
        if stored_rules_refusal(id, windows) is None {
            assert forall|i: int| 0 <= i < windows.len() implies window_refusal(
                #[trigger] windows[i],
            ) is None by {
                if i < front.len() {
                    assert(front[i] == windows[i]);
                }
            }
        } else if forall|i: int|
            0 <= i < windows.len() ==> window_refusal(#[trigger] windows[i]) is None {
            assert forall|i: int| 0 <= i < front.len() implies window_refusal(
                #[trigger] front[i],
            ) is None by {
                assert(front[i] == windows[i]);
            }
            assert(window_refusal(windows[windows.len() - 1]) is None);
        }
    }
}

/// A configuration is read where it is of its kind and of the environment,
/// names windows under the revision that their text has, and where the text
/// reads as valid windows. What is read are those windows.
pub proof fn readable_configurations(
    object: &Object,
    environment: &str,
    parsed: Option<Vec<Window>>,
    text: &str,
    digest: String,
    result: Result<Vec<Window>, Error>,
)
    requires
        call_ensures(decode_configuration, (object, environment, parsed), result),
        call_ensures(revision, (text,), digest),
        object.property("windows"@) matches Some(raw) ==> raw == text@,
    ensures
        result is Ok <==> {
            &&& object.kind@ == "tenkai.maintenance_config"@
            &&& object.property("environment"@) == Some(environment@)
            &&& object.property("windows"@) is Some
            &&& object.property("revision"@) == Some(digest@)
            &&& parsed is Some
            &&& forall|i: int|
                0 <= i < parsed->0@.len() ==> window_refusal((#[trigger] parsed->0@[i])@) is None
        },
        result is Ok ==> result->Ok_0 == parsed->0,
{
    if parsed is Some {
        let list = window_models(parsed->0@);
        lemma_stored_rules_all(object.id@, list);
        if stored_rules_refusal(object.id@, list) is None {
            assert forall|i: int| 0 <= i < parsed->0@.len() implies window_refusal(
                (#[trigger] parsed->0@[i])@,
            ) is None by {
                assert(list[i] == parsed->0@[i]@);
            }
        } else {
            let i = choose|i: int|
                0 <= i < list.len() && window_refusal(#[trigger] list[i]) is Some;
            assert(list[i] == parsed->0@[i]@);
        }
    }
}

/// The configuration of a new environment reads as no windows, and is put
/// under governance by its first update.
pub proof fn new_configuration_has_no_windows(
    environment: &str,
    now: i64,
    object: Object,
    none: Vec<Window>,
    step: InitialStep,
    result: Result<Vec<Window>, Error>,
)
    requires
        call_ensures(initial_configuration, (environment, now), object),
        none@.len() == 0,
        call_ensures(decode_configuration, (&object, environment, Some(none)), result),
        call_ensures(initial_step, (Some(&object),), step),
    ensures
        result is Ok && result->Ok_0@.len() == 0,
        step is Adopt,
{
    reveal_strlit("environment");
    reveal_strlit("windows");
    reveal_strlit("revision");
    reveal_strlit("last_update_correlation");
    assert("environment"@.len() == 11 && "windows"@.len() == 7);
    assert("revision"@.len() == 8 && "last_update_correlation"@.len() == 23);
    let map = text_values(object.properties@);
    assert(map.contains_key("environment"@) && map["environment"@] == environment@);
    assert(map.contains_key("windows"@) && map["windows"@] == "[]"@);
    assert(map.contains_key("revision"@) && map["revision"@] == revision_text("[]"@));
    assert(!map.contains_key("last_update_correlation"@));
    assert(!object.properties@.contains_key("last_update_correlation"@));
    assert(stored_rules_refusal(object.id@, window_models(none@)) is None);
}

proof fn lemma_explained(
    decisions: Seq<Decision>,
    object: Object,
    correlation: Seq<char>,
    from: int,
)
    requires
        0 <= from,
    ensures
        match explained_at(decisions, object, correlation, from) {
            Some(at) => from <= at < decisions.len() && explains(
                decisions[at],
                object,
                correlation,
            ),
            None => forall|i: int|
                from <= i < decisions.len() ==> !explains(
                    #[trigger] decisions[i],
                    object,
                    correlation,
                ),
        },
    decreases decisions.len() - from,
{
    if from < decisions.len() && !explains(decisions[from], object, correlation) {
        lemma_explained(decisions, object, correlation, from + 1);
    }
}

proof fn lemma_recorded(changes: Seq<ObjectChange>, correlation: Seq<char>)
    ensures
        match recorded_at(changes, correlation) {
            Some(at) => {
                &&& 0 <= at < changes.len()
                &&& records(changes[at], correlation)
                &&& forall|i: int|
                    0 <= i < changes.len() && records(#[trigger] changes[i], correlation)
                        ==> changes[i].timestamp <= changes[at].timestamp
                &&& forall|i: int|
                    at < i < changes.len() && records(#[trigger] changes[i], correlation)
                        ==> changes[i].timestamp < changes[at].timestamp
            },
            None => forall|i: int|
                0 <= i < changes.len() ==> !records(#[trigger] changes[i], correlation),
        },
    decreases changes.len(),
{
    if changes.len() > 0 {
        let front = changes.drop_last();
        lemma_recorded(front, correlation);
        let n = changes.len() - 1;
        assert forall|i: int| 0 <= i < n implies front[i] == #[trigger] changes[i] by {}
        match recorded_at(changes, correlation) {
            Some(at) => {
                assert forall|i: int|
                    0 <= i < changes.len() && records(
                        #[trigger] changes[i],
                        correlation,
                    ) implies changes[i].timestamp <= changes[at].timestamp by {
                    if i < n {
                        assert(front[i] == changes[i]);
                    }
                }
                assert forall|i: int|
                    at < i < changes.len() && records(
                        #[trigger] changes[i],
                        correlation,
                    ) implies changes[i].timestamp < changes[at].timestamp by {
                    if i < n {
                        assert(front[i] == changes[i]);
                    }
                }
            },
            None => {
                assert forall|i: int| 0 <= i < changes.len() implies !records(
                    #[trigger] changes[i],
                    correlation,
                ) by {
                    if i < n {
                        assert(front[i] == changes[i]);
                    }
                }
            },
        }
    }
}

/// The change that recorded the last update is the latest of those that hold
/// its correlation, and the last of those at one instant.
pub proof fn latest_record_counts(
    object: &Object,
    changes: &[ObjectChange],
    found: Option<usize>,
)
    requires
        call_ensures(correlation_change, (object, changes), found),
    ensures
        object.property("last_update_correlation"@) is None ==> found is None,
        object.property("last_update_correlation"@) matches Some(correlation) ==> match found {
            Some(at) => {
                &&& at < changes@.len()
                &&& changes@[at as int].field@ == "properties.last_update_correlation"@
                &&& changes@[at as int].new_value@ == correlation
                &&& forall|i: int|
                    0 <= i < changes@.len() && (#[trigger] changes@[i]).field@
                        == "properties.last_update_correlation"@ && changes@[i].new_value@
                        == correlation ==> changes@[i].timestamp < changes@[at as int].timestamp
                        || (changes@[i].timestamp == changes@[at as int].timestamp && i <= at)
            },
            None => forall|i: int|
                0 <= i < changes@.len() ==> !((#[trigger] changes@[i]).field@
                    == "properties.last_update_correlation"@ && changes@[i].new_value@
                    == correlation),
        },
{
    match object.property("last_update_correlation"@) {
        Some(correlation) => {
            lemma_recorded(changes@, correlation);
            match found {
                Some(at) => {
                    assert forall|i: int|
                        0 <= i < changes@.len() && (#[trigger] changes@[i]).field@
                            == "properties.last_update_correlation"@ && changes@[i].new_value@
                            == correlation implies changes@[i].timestamp
                        < changes@[at as int].timestamp || (changes@[i].timestamp
                        == changes@[at as int].timestamp && i <= at) by {
                        assert(records(changes@[i], correlation));
                    }
                },
                None => {
                    assert forall|i: int| 0 <= i < changes@.len() implies !((
                    #[trigger] changes@[i]).field@ == "properties.last_update_correlation"@
                        && changes@[i].new_value@ == correlation) by {
                        assert(!records(changes@[i], correlation));
                    }
                },
            }
        },
        None => {},
    }
}

/// Evidence needs an allowed execution of the update on this object with what
/// the object now holds, recorded by its actor at most a minute before the
/// decision, and no change of the windows or the revision since.
pub proof fn evidence_rests_on_a_decision(
    object: &Object,
    decisions: &[Decision],
    changes: &[ObjectChange],
    found: Option<usize>,
    answer: bool,
)
    requires
        call_ensures(has_governed_evidence, (object, decisions, changes), answer),
        call_ensures(correlation_change, (object, changes), found),
        answer,
    ensures
        found is Some,
        forall|i: int|
            0 <= i < changes@.len() && ((#[trigger] changes@[i]).field@ == "properties.windows"@
                || changes@[i].field@ == "properties.revision"@) ==> changes@[i].timestamp
                <= changes@[found->0 as int].timestamp,
        exists|d: int|
            {
                let change = changes@[found->0 as int];
                &&& 0 <= d < decisions@.len()
                &&& (#[trigger] decisions@[d]).action@ == "tenkai.configure_maintenance_windows"@
                &&& decisions@[d].reason@ == "execute_action"@
                &&& decisions@[d].target_id@ == object.id@
                &&& decisions@[d].actor@ == change.changed_by@
                &&& change.timestamp <= decisions@[d].timestamp <= change.timestamp + 60_000
                &&& text_at(decisions@[d].evidence@, "decision"@) == Some("allow"@)
                &&& text_at(decisions@[d].evidence@, "correlation"@) == object.property(
                    "last_update_correlation"@,
                )
                &&& text_at(decisions@[d].evidence@, "environment"@) == object.property(
                    "environment"@,
                )
                &&& text_at(decisions@[d].evidence@, "windows"@) == object.property("windows"@)
                &&& text_at(decisions@[d].evidence@, "revision"@) == object.property("revision"@)
            },
{
    let correlation = object.property("last_update_correlation"@)->0;
    lemma_explained(decisions@, *object, correlation, 0);
    lemma_recorded(changes@, correlation);
    let d = explained_at(decisions@, *object, correlation, 0)->0;
    assert(explains(decisions@[d], *object, correlation));
    assert(decisions@[d].action@ == "tenkai.configure_maintenance_windows"@);
    assert forall|i: int|
        0 <= i < changes@.len() && ((#[trigger] changes@[i]).field@ == "properties.windows"@
            || changes@[i].field@ == "properties.revision"@) implies changes@[i].timestamp
        <= changes@[found->0 as int].timestamp by {
        if changes@[i].timestamp > changes@[found->0 as int].timestamp {
            assert(altered_after(changes@, changes@[found->0 as int].timestamp));
        }
    }
}

/// One decision that explains what the object holds, recorded in time by its
/// actor and with no change since, is evidence enough.
pub proof fn one_decision_is_enough(
    object: &Object,
    decisions: &[Decision],
    changes: &[ObjectChange],
    correlation: Seq<char>,
    found: Option<usize>,
    answer: bool,
)
    requires
        call_ensures(has_governed_evidence, (object, decisions, changes), answer),
        call_ensures(correlation_change, (object, changes), found),
        object.property("last_update_correlation"@) == Some(correlation),
        found is Some,
        decisions@.len() == 1,
        explains(decisions@[0], *object, correlation),
        decisions@[0].actor@ == changes@[found->0 as int].changed_by@,
        changes@[found->0 as int].timestamp <= decisions@[0].timestamp
            <= changes@[found->0 as int].timestamp + 60_000,
        forall|i: int|
            0 <= i < changes@.len() && ((#[trigger] changes@[i]).field@ == "properties.windows"@
                || changes@[i].field@ == "properties.revision"@) ==> changes@[i].timestamp
                <= changes@[found->0 as int].timestamp,
    ensures
        answer,
{
    let at = changes@[found->0 as int].timestamp;
    assert(explained_at(decisions@, *object, correlation, 0) == Some(0int));
    assert(!altered_after(changes@, at));
}

/// A governed configuration is read exactly where it is readable and has
/// evidence, and reads as it does without governance.
pub proof fn governed_reading_needs_evidence(
    object: &Object,
    environment: &str,
    parsed: Option<Vec<Window>>,
    decisions: &[Decision],
    changes: &[ObjectChange],
    plain: Result<Vec<Window>, Error>,
    evidence: bool,
    result: Result<Vec<Window>, Error>,
)
    requires
        call_ensures(
            decode_governed_configuration,
            (object, environment, parsed, decisions, changes),
            result,
        ),
        call_ensures(decode_configuration, (object, environment, parsed), plain),
        call_ensures(has_governed_evidence, (object, decisions, changes), evidence),
    ensures
        result is Ok <==> plain is Ok && evidence,
        result is Ok ==> result->Ok_0 == plain->Ok_0,
        plain is Err ==> result->Err_0@ == plain->Err_0@,
{
}

/// Decisions on a change are looked up from the instant before it.
pub proof fn decisions_are_looked_up_from_before(change: &ObjectChange, since: i64)
    requires
        call_ensures(decisions_since, (change,), since),
    ensures
        since <= change.timestamp <= since + 1,
        change.timestamp > i64::MIN ==> since < change.timestamp,
{
}

/// An update names the configuration of its environment, the windows, the
/// revision of their text and its correlation.
pub proof fn update_names_what_it_stores(
    environment: &str,
    encoded: &str,
    correlation: &str,
    id: String,
    digest: String,
    params: TextMap<String>,
)
    requires
        call_ensures(configure_params, (environment, encoded, correlation), params),
        call_ensures(config_id, (environment,), id),
        call_ensures(revision, (encoded,), digest),
    ensures
        text_values(params@).contains_key("id"@) && text_values(params@)["id"@] == id@,
        text_values(params@).contains_key("environment"@) && text_values(params@)["environment"@]
            == environment@,
        text_values(params@).contains_key("windows"@) && text_values(params@)["windows"@]
            == encoded@,
        text_values(params@).contains_key("revision"@) && text_values(params@)["revision"@]
            == digest@,
        text_values(params@).contains_key("correlation"@) && text_values(params@)["correlation"@]
            == correlation@,
        id@ == "tenkai:maintenance:"@ + environment@,
{
    reveal_strlit("id");
    reveal_strlit("environment");
    reveal_strlit("windows");
    reveal_strlit("revision");
    reveal_strlit("correlation");
    assert("id"@.len() == 2 && "environment"@.len() == 11 && "windows"@.len() == 7);
    assert("revision"@.len() == 8 && "correlation"@.len() == 11);
    assert("environment"@[0] == 'e' && "correlation"@[0] == 'c');
}

/// An update is tried and confirmed exactly where it is allowed; where it
/// waits for an approval, the approval is denied, and else it is refused.
pub proof fn allowed_updates_are_confirmed(
    decision: &str,
    preview: Result<(), Error>,
    step: UpdateStep,
)
    requires
        call_ensures(check_preview, (decision,), preview),
        call_ensures(after_execution, (decision,), step),
    ensures
        preview is Ok <==> decision@ == "allow"@,
        step is Confirm <==> decision@ == "allow"@,
        step is Cancel <==> decision@ == "require_approval"@,
        step is Refuse <==> decision@ != "allow"@ && decision@ != "require_approval"@,
{
    reveal_strlit("allow");
    reveal_strlit("require_approval");
    assert("allow"@.len() == 5 && "require_approval"@.len() == 16);
}

/// An update took effect where the stored object holds its correlation, its
/// windows and their revision and reads as the windows that were asked for,
/// whatever the action returned.
pub proof fn stored_state_confirms_the_update(
    object: &Object,
    encoded: &str,
    correlation: &str,
    stored: Result<Vec<Window>, Error>,
    windows: &[Window],
    failed: bool,
    digest: String,
    result: Result<(), Error>,
)
    requires
        call_ensures(
            confirm_update,
            (object, encoded, correlation, stored, windows, failed),
            result,
        ),
        call_ensures(revision, (encoded,), digest),
    ensures
        result is Ok <==> {
            &&& object.property("last_update_correlation"@) == Some(correlation@)
            &&& object.property("windows"@) == Some(encoded@)
            &&& object.property("revision"@) == Some(digest@)
            &&& stored is Ok
            &&& window_models(stored->Ok_0@) == window_models(windows@)
        },
{
}

/// Work under a lease succeeds where the work and the release did, and brings
/// what the work brought. A release that failed is never silent.
pub proof fn leases_end_with_their_work(
    lease: &str,
    work: Result<String, Error>,
    release: Result<(), Error>,
    settled: Result<String, Error>,
)
    requires
        call_ensures(settle_lease, (lease, work, release), settled),
    ensures
        settled is Ok <==> work is Ok && release is Ok,
        settled is Ok ==> settled->Ok_0 == work->Ok_0,
        work is Err && release is Ok ==> settled->Err_0@ == work->Err_0@,
{
}

/// A window is not of an identity.
pub open spec fn not_of(identity: Seq<char>) -> spec_fn(WindowModel) -> bool {
    |window: WindowModel| window.identity != identity
}

proof fn lemma_without_filters(windows: Seq<WindowModel>, identity: Seq<char>)
    ensures
        without(windows, identity) == windows.filter(not_of(identity)),
    decreases windows.len(),
{
    reveal(Seq::filter);
    if windows.len() > 0 {
        lemma_without_filters(windows.drop_last(), identity);
    }
}

/// A removal leaves the other windows in their order, and is refused where no
/// window has the identity.
pub proof fn removal_leaves_the_others(
    environment: &str,
    windows: &Vec<Window>,
    identity: &str,
    label: &str,
    named: Result<(), Error>,
    result: Result<(Vec<Window>, String), Error>,
)
    requires
        call_ensures(remove_window, (environment, windows, identity), result),
        call_ensures(validate_identifier, (label, identity), named),
    ensures
        result is Ok <==> named is Ok && exists|i: int|
            0 <= i < windows@.len() && (#[trigger] windows@[i])@.identity == identity@,
        result is Ok ==> window_models(result->Ok_0.0@) == window_models(windows@).filter(
            not_of(identity@),
        ),
{
    let list = window_models(windows@);
    lemma_without_filters(list, identity@);
    if named is Ok {
        removal_takes_what_is_configured(environment@, list, identity@);
        if exists|i: int|
            0 <= i < windows@.len() && (#[trigger] windows@[i])@.identity == identity@ {
            let i = choose|i: int|
                0 <= i < windows@.len() && (#[trigger] windows@[i])@.identity == identity@;
            assert(list[i] == windows@[i]@);
        }
        if exists|i: int| 0 <= i < list.len() && (#[trigger] list[i]).identity == identity@ {
            let i = choose|i: int|
                0 <= i < list.len() && (#[trigger] list[i]).identity == identity@;
            assert(list[i] == windows@[i]@);
        }
    }
}

/// After a window is set the list is in the order of identities, holds the
/// window once and every other window as before.
pub proof fn set_window_is_held(
    environment: &str,
    windows: &Vec<Window>,
    window: &Window,
    result: (Vec<Window>, String),
)
    requires
        call_ensures(set_window, (environment, windows, window), result),
    ensures
        window_models(result.0@).to_multiset() == window_models(windows@).filter(
            not_of(window@.identity),
        ).to_multiset().insert(window@),
        forall|i: int, j: int|
            0 <= i < j < result.0@.len() ==> !text_less(
                (#[trigger] result.0@[j])@.identity,
                (#[trigger] result.0@[i])@.identity,
            ),
{
    let list = window_models(windows@);
    setting_replaces_one_window(list, window@);
    lemma_without_filters(list, window@.identity);
    let after = window_models(result.0@);
    assert forall|i: int, j: int| 0 <= i < j < result.0@.len() implies !text_less(
        (#[trigger] result.0@[j])@.identity,
        (#[trigger] result.0@[i])@.identity,
    ) by {
        assert(after[i] == result.0@[i]@ && after[j] == result.0@[j]@);
    }
}

/// A window that was set can be removed.
pub proof fn set_windows_can_be_removed(
    environment: &str,
    windows: &Vec<Window>,
    window: &Window,
    identity: &str,
    label: &str,
    named: Result<(), Error>,
    set: (Vec<Window>, String),
    removed: Result<(Vec<Window>, String), Error>,
)
    requires
        call_ensures(set_window, (environment, windows, window), set),
        identity@ == window@.identity,
        call_ensures(validate_identifier, (label, identity), named),
        call_ensures(remove_window, (environment, &set.0, identity), removed),
    ensures
        removed is Ok <==> named is Ok,
{
    let list = window_models(set.0@);
    setting_replaces_one_window(window_models(windows@), window@);
    assert(list.contains(window@));
    let i = choose|i: int| 0 <= i < list.len() && list[i] == window@;
    assert(list[i] == set.0@[i]@);
    removal_leaves_the_others(environment, &set.0, identity, label, named, removed);
}

/// A configuration is repaired where its environment is registered and has
/// one.
pub proof fn repairs_need_a_configuration(
    environment: &str,
    registered: bool,
    configured: bool,
    label: &str,
    named: Result<(), Error>,
    result: Result<String, Error>,
)
    requires
        call_ensures(check_repair, (environment, registered, configured), result),
        call_ensures(validate_identifier, (label, environment), named),
    ensures
        result is Ok <==> named is Ok && registered && configured,
{
}

/// Only an empty configuration passes without an audit, and only the object
/// being there already excuses a failed creation.
pub proof fn what_is_adopted_and_what_is_excused(
    id: &str,
    windows: &[Window],
    status: CreationStatus,
    message: &str,
    empty: Result<(), Error>,
    excused: bool,
)
    requires
        call_ensures(require_empty, (id, windows), empty),
        call_ensures(already_created, (status, message), excused),
    ensures
        empty is Ok <==> windows@.len() == 0,
        status is AlreadyExists ==> excused,
        status is Internal ==> (excused <==> contains_text(message@, "UNIQUE"@)),
        status is Other ==> !excused,
{
}

} // verus!
