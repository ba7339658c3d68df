//! Storage of immutable plans, their lifecycle, and checked reads.
use super::convergence::plan_step_id;
use super::{Plan, PlanState, PLAN_FORMAT_VERSION};
use crate::crypto::{digest_hex, sha256_hex};
use crate::error::{first_refusal, refusal, refuse_unless, Error};
use crate::graph::Object;
use crate::ontology::{plan_id, plan_id_text, KIND_PLAN, NS};
use crate::text::{
    blank, chars_of, decimal, decimal_int, decimal_int_text, decimal_text,
    lemma_decimal_int_reads_back, parse_i64, same, signed_value, trimmed,
};
use crate::text_map::{group_text_values, text_values, TextMap};
use vstd::prelude::*;

verus! {

/// A change of where a plan is in its life.
#[derive(Debug, PartialEq, Eq)]
pub struct Transition {
    pub state: PlanState,
    pub gates_skipped: Option<bool>,
    pub status_detail: String,
    pub maintenance_blocked: bool,
}

impl Transition {
    /// A change of state alone.
    pub fn new(state: PlanState, status_detail: &str) -> (transition: Transition)
        ensures
            transition.state == state,
            transition.gates_skipped is None,
            transition.status_detail@ == status_detail@,
            !transition.maintenance_blocked,
    {
        Transition {
            state,
            gates_skipped: None,
            status_detail: status_detail.to_owned(),
            maintenance_blocked: false,
        }
    }

    /// A change of state in an execution, which skipped its gates or not.
    pub fn execution(state: PlanState, gates_skipped: bool, status_detail: &str) -> (transition:
        Transition)
        ensures
            transition.state == state,
            transition.gates_skipped == Some(gates_skipped),
            transition.status_detail@ == status_detail@,
            !transition.maintenance_blocked,
    {
        Transition {
            state,
            gates_skipped: Some(gates_skipped),
            status_detail: status_detail.to_owned(),
            maintenance_blocked: false,
        }
    }

    /// A block by the maintenance windows.
    pub fn maintenance_blocked(gates_skipped: bool, status_detail: &str) -> (transition: Transition)
        ensures
            transition.state == PlanState::Blocked,
            transition.gates_skipped == Some(gates_skipped),
            transition.status_detail@ == status_detail@,
            transition.maintenance_blocked,
    {
        Transition {
            state: PlanState::Blocked,
            gates_skipped: Some(gates_skipped),
            status_detail: status_detail.to_owned(),
            maintenance_blocked: true,
        }
    }

    /// Put a plan in its new state. What it executes stays.
    pub fn apply(self, plan: &mut Plan)
        ensures
            *final(plan) == (Plan {
                state: self.state,
                gates_skipped: if self.gates_skipped is Some {
                    self.gates_skipped
                } else {
                    old(plan).gates_skipped
                },
                status_detail: self.status_detail,
                maintenance_blocked: self.maintenance_blocked,
                ..*old(plan)
            }),
    {
        plan.state = self.state;
        if self.gates_skipped.is_some() {
            plan.gates_skipped = self.gates_skipped;
        }
        plan.status_detail = self.status_detail;
        plan.maintenance_blocked = self.maintenance_blocked;
    }
}

/// A plan is where another is in its life.
pub open spec fn carries_lifecycle(stored: Plan, plan: Plan) -> bool {
    &&& stored.state == plan.state
    &&& stored.gates_skipped == plan.gates_skipped
    &&& stored.status_detail@ == plan.status_detail@
    &&& stored.maintenance_blocked == plan.maintenance_blocked
}

/// A write that ended without an answer took effect: what is stored is where
/// the plan was meant to be.
pub fn confirms(plan: &Plan, stored: &Plan) -> (answer: bool)
    ensures
        answer == carries_lifecycle(*stored, *plan),
{
    stored.state == plan.state && stored.gates_skipped == plan.gates_skipped && same(
        &stored.status_detail,
        &plan.status_detail,
    ) && stored.maintenance_blocked == plan.maintenance_blocked
}

/// Settle a guarded update of a plan. Where an update that failed may have
/// been stored nonetheless, it counts if what is `stored` now is what was
/// meant.
pub fn settle_update(
    plan: &Plan,
    update: Result<(), Error>,
    confirm_ambiguous: bool,
    stored: Option<&Plan>,
) -> (result: Result<(), Error>)
    ensures
        refusal(result) == (match update {
            Ok(_) => None,
            Err(error) => refuse_unless(
                confirm_ambiguous && stored is Some && carries_lifecycle(*stored->0, *plan),
                error@,
            ),
        }),
{
    match update {
        Ok(_) => Ok(()),
        Err(error) => {
            if !confirm_ambiguous {
                return Err(error);
            }
            match stored {
                Some(found) => if confirms(plan, found) {
                    Ok(())
                } else {
                    Err(error)
                },
                None => Err(error),
            }
        },
    }
}

/// The digest of what a plan executes. `encoded` is the serialized executable
/// content: the format version, the identities, the environment, the time of
/// creation, the inputs, the steps and the recovery reason.
pub fn executable_digest(encoded: &[u8]) -> (digest: String)
    ensures
        digest@ == sha256_hex(encoded@),
{
    digest_hex(encoded)
}

/// A truth value in words.
pub open spec fn truth_word(value: bool) -> Seq<char> {
    if value {
        "true"@
    } else {
        "false"@
    }
}

fn truth_text(value: bool) -> (text: &'static str)
    ensures
        text@ == truth_word(value),
{
    if value {
        "true"
    } else {
        "false"
    }
}

/// The properties of the object of a plan. `encoded` is the serialized plan
/// and `executable` its serialized executable content.
pub open spec fn plan_properties(plan: Plan, encoded: Seq<char>, executable: Seq<u8>) -> Map<
    Seq<char>,
    Seq<char>,
> {
    Map::<Seq<char>, Seq<char>>::empty().insert(
        "format_version"@,
        decimal(plan.format_version as nat),
    ).insert("environment"@, plan.environment@).insert(
        "created_at"@,
        decimal_int(plan.created_at as int),
    ).insert("content_digest"@, sha256_hex(executable)).insert("plan"@, encoded).insert(
        "status"@,
        plan.state.word(),
    ).insert("has_steps"@, truth_word(plan.steps@.len() > 0))
}

/// The object of a plan. `encoded` is the serialized plan and `executable` its
/// serialized executable content.
pub fn to_object(plan: &Plan, encoded: &str, executable: &[u8], now: i64) -> (object: Object)
    ensures
        object.id@ == plan.id@,
        object.kind@ == KIND_PLAN@,
        object.name@ == plan.environment@ + " plan "@ + decimal_int(plan.created_at as int),
        object.namespace@ == NS@,
        object.external_id@ == Seq::<char>::empty(),
        text_values(object.properties@) == plan_properties(*plan, encoded@, executable@),
        object.created == plan.created_at,
        object.updated == now,
{
    broadcast use group_text_values;

    let mut name = plan.environment.clone();
    name.append(" plan ");
    name.append(decimal_int_text(plan.created_at).as_str());
    let mut properties = TextMap::<String>::new();
    properties.insert("format_version".to_owned(), decimal_text(plan.format_version as u64));
    properties.insert("environment".to_owned(), plan.environment.clone());
    properties.insert("created_at".to_owned(), decimal_int_text(plan.created_at));
    properties.insert("content_digest".to_owned(), executable_digest(executable));
    properties.insert("plan".to_owned(), encoded.to_owned());
    properties.insert("status".to_owned(), plan.state.to_string());
    properties.insert("has_steps".to_owned(), truth_text(plan.steps.len() > 0).to_owned());
    let external_id = String::new();
    assert(external_id@ =~= Seq::<char>::empty());
    Object {
        id: plan.id.clone(),
        kind: KIND_PLAN.to_owned(),
        name,
        namespace: NS.to_owned(),
        external_id,
        properties,
        created: plan.created_at,
        updated: now,
    }
}

/// What a stored plan reads as: the plan, its serialized content and its
/// serialized executable content.
#[derive(Debug, PartialEq, Eq)]
pub struct StoredPlan {
    pub plan: Plan,
    pub content: Vec<u8>,
    pub executable: Vec<u8>,
}

/// Every step of a plan has the order and the identity of its place.
pub open spec fn steps_in_place(plan: Plan) -> bool {
    forall|i: int|
        0 <= i < plan.steps@.len() ==> (#[trigger] plan.steps@[i]).order == (i % 0x1_0000_0000)
            as u32 && plan.steps@[i].id@ == plan_step_id(plan.id@, i)
}

/// Why the time of creation in an object's index is refused.
pub open spec fn created_index_refusal(object: Object, created_at: i64) -> Option<Seq<char>> {
    let index = object.property("created_at"@);
    let value = signed_value(index->0);
    if index is None {
        Some("plan object "@ + object.id@ + " has no created_at index"@)
    } else if value is None || value->0 < i64::MIN || value->0 > i64::MAX {
        Some("plan "@ + object.id@ + " created_at index is not an integer"@)
    } else if value->0 != created_at {
        Some(
            "plan "@ + object.id@ + " created_at index "@ + decimal_int(value->0)
                + " does not match payload "@ + decimal_int(created_at as int),
        )
    } else {
        None
    }
}

/// Why the step index of an object is refused.
pub open spec fn has_steps_refusal(object: Object, steps_empty: bool) -> Option<Seq<char>> {
    match object.property("has_steps"@) {
        None => Some("plan object "@ + object.id@ + " has no has_steps index"@),
        Some(index) => refuse_unless(
            index == truth_word(!steps_empty),
            "plan "@ + object.id@ + " has_steps index "@ + index
                + " does not match payload steps"@,
        ),
    }
}

/// Why the environment in an object's index is refused.
pub open spec fn environment_index_refusal(object: Object, environment: Seq<char>) -> Option<
    Seq<char>,
> {
    match object.property("environment"@) {
        None => Some("plan object "@ + object.id@ + " has no environment index"@),
        Some(index) => refuse_unless(
            index == environment,
            "plan "@ + object.id@ + " environment index "@ + index + " does not match payload "@
                + environment,
        ),
    }
}

/// Why the lifecycle state in an object's index is refused.
pub open spec fn state_refusal(object: Object, state: PlanState) -> Option<Seq<char>> {
    match object.property("status"@) {
        None => Some("plan object "@ + object.id@ + " has no lifecycle status"@),
        Some(status) => refuse_unless(
            status == state.word(),
            "stored plan "@ + object.id@ + " has inconsistent lifecycle state"@,
        ),
    }
}

/// Why the executable content of an object is refused.
pub open spec fn executable_refusal(object: Object, executable: Seq<u8>) -> Option<Seq<char>> {
    match object.property("content_digest"@) {
        None => Some("plan object "@ + object.id@ + " has no content digest"@),
        Some(digest) => refuse_unless(
            digest == sha256_hex(executable),
            "stored plan "@ + object.id@ + " executable content was mutated"@,
        ),
    }
}

/// Why what a stored plan reads as is refused.
pub open spec fn stored_refusal(object: Object, stored: StoredPlan) -> Option<Seq<char>> {
    let plan = stored.plan;
    let content_id = sha256_hex(stored.content@);
    if plan.format_version != PLAN_FORMAT_VERSION {
        Some(
            "plan "@ + object.id@ + " uses unsupported format version "@ + decimal(
                plan.format_version as nat,
            ),
        )
    } else if plan.maintenance_blocked && plan.state != PlanState::Blocked {
        Some("plan "@ + plan.id@ + " has a maintenance-block marker outside the blocked state"@)
    } else if plan.id@ != object.id@ {
        Some("stored plan id "@ + plan.id@ + " does not match object id "@ + object.id@)
    } else if plan.content_id@ != content_id || plan.id@ != plan_id_text(
        plan.environment@,
        plan.created_at,
        content_id,
    ) {
        Some("stored plan "@ + object.id@ + " does not match its content-addressed id"@)
    } else if !steps_in_place(plan) {
        Some("stored plan "@ + object.id@ + " has invalid step ordering or ids"@)
    } else {
        first_refusal(
            state_refusal(object, plan.state),
            first_refusal(
                executable_refusal(object, stored.executable@),
                first_refusal(
                    created_index_refusal(object, plan.created_at),
                    first_refusal(
                        has_steps_refusal(object, plan.steps@.len() == 0),
                        environment_index_refusal(object, plan.environment@),
                    ),
                ),
            ),
        )
    }
}

/// Why an object is not a plan. `stored` is what its plan reads as, where it
/// can be read.
pub open spec fn object_refusal(object: Object, stored: Option<StoredPlan>) -> Option<Seq<char>> {
    if object.kind@ != KIND_PLAN@ {
        Some("object "@ + object.id@ + " is "@ + object.kind@ + ", not "@ + KIND_PLAN@)
    } else if object.property("plan"@) is None {
        Some("plan object "@ + object.id@ + " has no serialized plan"@)
    } else if stored is None {
        Some("parsing stored plan "@ + object.id@)
    } else {
        stored_refusal(object, stored->0)
    }
}

fn about(start: &str, id: &str, end: &str) -> (error: Error)
    ensures
        error@ == start@ + id@ + end@,
{
    let mut message = start.to_owned();
    message.append(id);
    message.append(end);
    Error::new(message)
}

fn check_created_index(object: &Object, created_at: i64) -> (result: Result<(), Error>)
    ensures
        refusal(result) == created_index_refusal(*object, created_at),
{
    let index = match object.properties.text("created_at") {
        None => {
            return Err(about("plan object ", object.id.as_str(), " has no created_at index"));
        },
        Some(text) => text,
    };
    let value = match parse_i64(index) {
        None => {
            return Err(about("plan ", object.id.as_str(), " created_at index is not an integer"));
        },
        Some(number) => number,
    };
    if value != created_at {
        let mut message = "plan ".to_owned();
        message.append(object.id.as_str());
        message.append(" created_at index ");
        message.append(decimal_int_text(value).as_str());
        message.append(" does not match payload ");
        message.append(decimal_int_text(created_at).as_str());
        return Err(Error::new(message));
    }
    Ok(())
}

/// Check the step index of an object.
pub fn require_has_steps_index(object: &Object, steps_empty: bool) -> (result: Result<(), Error>)
    ensures
        refusal(result) == has_steps_refusal(*object, steps_empty),
{
    match object.properties.text("has_steps") {
        None => Err(about("plan object ", object.id.as_str(), " has no has_steps index")),
        Some(index) => {
            if same(index, truth_text(!steps_empty)) {
                return Ok(());
            }
            let mut message = "plan ".to_owned();
            message.append(object.id.as_str());
            message.append(" has_steps index ");
            message.append(index);
            message.append(" does not match payload steps");
            Err(Error::new(message))
        },
    }
}

fn check_environment_index(object: &Object, environment: &str) -> (result: Result<(), Error>)
    ensures
        refusal(result) == environment_index_refusal(*object, environment@),
{
    match object.properties.text("environment") {
        None => Err(about("plan object ", object.id.as_str(), " has no environment index")),
        Some(index) => {
            if same(index, environment) {
                return Ok(());
            }
            let mut message = "plan ".to_owned();
            message.append(object.id.as_str());
            message.append(" environment index ");
            message.append(index);
            message.append(" does not match payload ");
            message.append(environment);
            Err(Error::new(message))
        },
    }
}

fn check_state(object: &Object, state: PlanState) -> (result: Result<(), Error>)
    ensures
        refusal(result) == state_refusal(*object, state),
{
    match object.properties.text("status") {
        None => Err(about("plan object ", object.id.as_str(), " has no lifecycle status")),
        Some(status) => {
            let word = state.to_string();
            if same(status, &word) {
                Ok(())
            } else {
                Err(
                    about(
                        "stored plan ",
                        object.id.as_str(),
                        " has inconsistent lifecycle state",
                    ),
                )
            }
        },
    }
}

fn check_executable(object: &Object, executable: &Vec<u8>) -> (result: Result<(), Error>)
    ensures
        refusal(result) == executable_refusal(*object, executable@),
{
    match object.properties.text("content_digest") {
        None => Err(about("plan object ", object.id.as_str(), " has no content digest")),
        Some(digest) => {
            let actual = executable_digest(executable.as_slice());
            if same(digest, &actual) {
                Ok(())
            } else {
                Err(
                    about(
                        "stored plan ",
                        object.id.as_str(),
                        " executable content was mutated",
                    ),
                )
            }
        },
    }
}

fn are_steps_in_place(plan: &Plan) -> (answer: bool)
    ensures
        answer == steps_in_place(*plan),
{
    let mut i: usize = 0;
    while i < plan.steps.len()
        invariant
            i <= plan.steps.len(),
            forall|k: int|
                0 <= k < i ==> (#[trigger] plan.steps@[k]).order == (k % 0x1_0000_0000) as u32
                    && plan.steps@[k].id@ == plan_step_id(plan.id@, k),
        decreases plan.steps.len() - i,
    {
        let order: u32 = (i as u64 % 0x1_0000_0000) as u32;
        let mut id = plan.id.clone();
        id.append(":step:");
        id.append(decimal_text(i as u64).as_str());
        if plan.steps[i].order != order || !same(&plan.steps[i].id, &id) {
            return false;
        }
        i = i + 1;
    }
    true
}

fn check_identity(object: &Object, stored: &StoredPlan) -> (result: Result<(), Error>)
    ensures
        result is Ok ==> stored_refusal(*object, *stored) == first_refusal(
            state_refusal(*object, stored.plan.state),
            first_refusal(
                executable_refusal(*object, stored.executable@),
                first_refusal(
                    created_index_refusal(*object, stored.plan.created_at),
                    first_refusal(
                        has_steps_refusal(*object, stored.plan.steps@.len() == 0),
                        environment_index_refusal(*object, stored.plan.environment@),
                    ),
                ),
            ),
        ),
        result matches Err(error) ==> stored_refusal(*object, *stored) == Some(error@),
{
    let plan = &stored.plan;
    if plan.format_version != PLAN_FORMAT_VERSION {
        let mut message = "plan ".to_owned();
        message.append(object.id.as_str());
        message.append(" uses unsupported format version ");
        message.append(decimal_text(plan.format_version as u64).as_str());
        return Err(Error::new(message));
    }
    if plan.maintenance_blocked && plan.state != PlanState::Blocked {
        return Err(
            about(
                "plan ",
                plan.id.as_str(),
                " has a maintenance-block marker outside the blocked state",
            ),
        );
    }
    if !same(&plan.id, &object.id) {
        let mut message = "stored plan id ".to_owned();
        message.append(plan.id.as_str());
        message.append(" does not match object id ");
        message.append(object.id.as_str());
        return Err(Error::new(message));
    }
    let content_id = digest_hex(stored.content.as_slice());
    let id = plan_id(plan.environment.as_str(), plan.created_at, content_id.as_str());
    if !same(&plan.content_id, &content_id) || !same(&plan.id, &id) {
        return Err(
            about(
                "stored plan ",
                object.id.as_str(),
                " does not match its content-addressed id",
            ),
        );
    }
    if !are_steps_in_place(plan) {
        return Err(
            about("stored plan ", object.id.as_str(), " has invalid step ordering or ids"),
        );
    }
    Ok(())
}

/// Read a plan from its object. `stored` is what its plan reads as, where it
/// can be read.
pub fn from_object(object: &Object, stored: Option<StoredPlan>) -> (result: Result<
    StoredPlan,
    Error,
>)
    ensures
        refusal(result) == object_refusal(*object, stored),
        result matches Ok(found) ==> stored == Some(found),
{
    if !same(&object.kind, KIND_PLAN) {
        let mut message = "object ".to_owned();
        message.append(object.id.as_str());
        message.append(" is ");
        message.append(object.kind.as_str());
        message.append(", not ");
        message.append(KIND_PLAN);
        return Err(Error::new(message));
    }
    if object.properties.text("plan").is_none() {
        return Err(about("plan object ", object.id.as_str(), " has no serialized plan"));
    }
    let stored = match stored {
        None => {
            let mut message = "parsing stored plan ".to_owned();
            message.append(object.id.as_str());
            return Err(Error::new(message));
        },
        Some(found) => found,
    };
    match check_identity(object, &stored) {
        Err(error) => return Err(error),
        Ok(_) => {},
    }
    match check_state(object, stored.plan.state) {
        Err(error) => return Err(error),
        Ok(_) => {},
    }
    match check_executable(object, &stored.executable) {
        Err(error) => return Err(error),
        Ok(_) => {},
    }
    match check_created_index(object, stored.plan.created_at) {
        Err(error) => return Err(error),
        Ok(_) => {},
    }
    match require_has_steps_index(object, stored.plan.steps.len() == 0) {
        Err(error) => return Err(error),
        Ok(_) => {},
    }
    match check_environment_index(object, stored.plan.environment.as_str()) {
        Err(error) => Err(error),
        Ok(_) => Ok(stored),
    }
}

/// A stored plan reads back: the object of a plan that is addressed by its
/// content is accepted with the same serialized content.
pub proof fn stored_plan_reads_back(object: Object, stored: StoredPlan, encoded: Seq<char>)
    requires
        object.id@ == stored.plan.id@,
        object.kind@ == KIND_PLAN@,
        text_values(object.properties@) == plan_properties(
            stored.plan,
            encoded,
            stored.executable@,
        ),
        stored.plan.format_version == PLAN_FORMAT_VERSION,
        stored.plan.maintenance_blocked ==> stored.plan.state == PlanState::Blocked,
        stored.plan.content_id@ == sha256_hex(stored.content@),
        stored.plan.id@ == plan_id_text(
            stored.plan.environment@,
            stored.plan.created_at,
            stored.plan.content_id@,
        ),
        steps_in_place(stored.plan),
    ensures
        object_refusal(object, Some(stored)) is None,
{
    lemma_plan_property(object, stored.plan, encoded, stored.executable@);
    lemma_decimal_int_reads_back(stored.plan.created_at as int);
}

proof fn lemma_plan_property(object: Object, plan: Plan, encoded: Seq<char>, executable: Seq<u8>)
    requires
        text_values(object.properties@) == plan_properties(plan, encoded, executable),
    ensures
        object.property("plan"@) == Some(encoded),
        object.property("status"@) == Some(plan.state.word()),
        object.property("content_digest"@) == Some(sha256_hex(executable)),
        object.property("created_at"@) == Some(decimal_int(plan.created_at as int)),
        object.property("has_steps"@) == Some(truth_word(plan.steps@.len() > 0)),
        object.property("environment"@) == Some(plan.environment@),
{
    reveal_strlit("plan");
    reveal_strlit("status");
    reveal_strlit("content_digest");
    reveal_strlit("created_at");
    reveal_strlit("has_steps");
    reveal_strlit("environment");
    let map = text_values(object.properties@);
    lemma_keys_differ();
    assert(map["plan"@] == encoded);
    assert(map["status"@] == plan.state.word());
    assert(map["content_digest"@] == sha256_hex(executable));
    assert(map["created_at"@] == decimal_int(plan.created_at as int));
    assert(map["has_steps"@] == truth_word(plan.steps@.len() > 0));
    assert(map["environment"@] == plan.environment@);
    assert(map.contains_key("plan"@));
    assert(map.contains_key("status"@));
    assert(map.contains_key("content_digest"@));
    assert(map.contains_key("created_at"@));
    assert(map.contains_key("has_steps"@));
    assert(map.contains_key("environment"@));
}

proof fn lemma_keys_differ()
    ensures
        "plan"@ != "status"@,
        "plan"@ != "has_steps"@,
        "status"@ != "has_steps"@,
        "content_digest"@ != "plan"@,
        "content_digest"@ != "status"@,
        "content_digest"@ != "has_steps"@,
        "created_at"@ != "content_digest"@,
        "created_at"@ != "plan"@,
        "created_at"@ != "status"@,
        "created_at"@ != "has_steps"@,
        "environment"@ != "created_at"@,
        "environment"@ != "content_digest"@,
        "environment"@ != "plan"@,
        "environment"@ != "status"@,
        "environment"@ != "has_steps"@,
{
    reveal_strlit("plan");
    reveal_strlit("status");
    reveal_strlit("content_digest");
    reveal_strlit("created_at");
    reveal_strlit("has_steps");
    reveal_strlit("environment");
    assert("plan"@[0] == 'p');
    assert("status"@[0] == 's');
    assert("content_digest"@[1] == 'o');
    assert("created_at"@[1] == 'r');
    assert("created_at"@[0] == 'c');
    assert("content_digest"@[0] == 'c');
    assert("has_steps"@[0] == 'h');
    assert("environment"@[0] == 'e');
}

/// A plan may go from one state to another.
pub open spec fn may_follow(from: PlanState, to: PlanState, without_steps: bool) -> bool {
    ||| from == to
    ||| from == PlanState::Computed && to == PlanState::Running
    ||| from == PlanState::Computed && to == PlanState::Blocked
    ||| from == PlanState::Blocked && to == PlanState::Running
    ||| from == PlanState::Running && to == PlanState::Blocked
    ||| from == PlanState::Running && to == PlanState::Succeeded
    ||| from == PlanState::Running && to == PlanState::Failed
    ||| without_steps && from == PlanState::Computed && to == PlanState::Succeeded
}

/// A plan that succeeded or failed stays so.
pub proof fn terminal_states_are_final(from: PlanState, to: PlanState, without_steps: bool)
    requires
        from == PlanState::Succeeded || from == PlanState::Failed,
        may_follow(from, to, without_steps),
    ensures
        to == from,
{
}

/// What a stored plan records of its execution differs.
pub open spec fn audit_differs(stored: Plan, plan: Plan) -> bool {
    stored.gates_skipped != plan.gates_skipped || stored.status_detail@ != plan.status_detail@
        || stored.maintenance_blocked != plan.maintenance_blocked
}

/// Why a stored plan cannot be replaced. `stored_executable` and `executable`
/// are the serialized executable contents.
pub open spec fn replacement_refusal(
    stored: Plan,
    stored_executable: Seq<u8>,
    plan: Plan,
    executable: Seq<u8>,
) -> Option<Seq<char>> {
    if sha256_hex(stored_executable) != sha256_hex(executable) {
        Some("plan "@ + plan.id@ + " executable content is immutable"@)
    } else if stored.state == plan.state && stored.state != PlanState::Blocked && audit_differs(
        stored,
        plan,
    ) {
        Some("plan "@ + plan.id@ + " lifecycle audit fields are immutable"@)
    } else if !may_follow(
        stored.state,
        plan.state,
        stored.steps@.len() == 0 && plan.steps@.len() == 0,
    ) {
        Some(
            "plan "@ + plan.id@ + " cannot transition from "@ + stored.state.word() + " to "@
                + plan.state.word(),
        )
    } else {
        None
    }
}

/// Check that a stored plan can be replaced.
pub fn check_replacement(stored: &StoredPlan, plan: &Plan, executable: &[u8]) -> (result: Result<
    (),
    Error,
>)
    ensures
        refusal(result) == replacement_refusal(
            stored.plan,
            stored.executable@,
            *plan,
            executable@,
        ),
{
    let before = executable_digest(stored.executable.as_slice());
    let after = executable_digest(executable);
    if !same(&before, &after) {
        return Err(about("plan ", plan.id.as_str(), " executable content is immutable"));
    }
    let differs = stored.plan.gates_skipped != plan.gates_skipped || !same(
        &stored.plan.status_detail,
        &plan.status_detail,
    ) || stored.plan.maintenance_blocked != plan.maintenance_blocked;
    if stored.plan.state == plan.state && stored.plan.state != PlanState::Blocked && differs {
        return Err(about("plan ", plan.id.as_str(), " lifecycle audit fields are immutable"));
    }
    let allowed = stored.plan.state == plan.state || match (stored.plan.state, plan.state) {
        (PlanState::Computed, PlanState::Running) => true,
        (PlanState::Computed, PlanState::Blocked) => true,
        (PlanState::Blocked, PlanState::Running) => true,
        (PlanState::Running, PlanState::Blocked) => true,
        (PlanState::Running, PlanState::Succeeded) => true,
        (PlanState::Running, PlanState::Failed) => true,
        (PlanState::Computed, PlanState::Succeeded) => stored.plan.steps.len() == 0
            && plan.steps.len() == 0,
        _ => false,
    };
    if !allowed {
        let mut message = "plan ".to_owned();
        message.append(plan.id.as_str());
        message.append(" cannot transition from ");
        message.append(stored.plan.state.to_string().as_str());
        message.append(" to ");
        message.append(plan.state.to_string().as_str());
        return Err(Error::new(message));
    }
    Ok(())
}

/// Properties with one more of another object, where it has it.
pub open spec fn carried(
    properties: Map<Seq<char>, Seq<char>>,
    existing: Object,
    key: Seq<char>,
) -> Map<Seq<char>, Seq<char>> {
    match existing.property(key) {
        Some(value) => properties.insert(key, value),
        None => properties,
    }
}

fn carry(object: &mut Object, existing: &Object, key: &str)
    ensures
        text_values(final(object).properties@) == carried(
            text_values(old(object).properties@),
            *existing,
            key@,
        ),
        final(object).id == old(object).id,
        final(object).kind == old(object).kind,
        final(object).name == old(object).name,
        final(object).namespace == old(object).namespace,
        final(object).external_id == old(object).external_id,
        final(object).created == old(object).created,
        final(object).updated == old(object).updated,
{
    broadcast use group_text_values;

    match existing.properties.text(key) {
        Some(value) => {
            object.properties.insert(key.to_owned(), value.to_owned());
        },
        None => {},
    }
}

/// Why a plan cannot be stored over what is stored under its identity.
pub open spec fn store_refusal(
    existing: Option<&Object>,
    stored: Option<StoredPlan>,
    plan: Plan,
    executable: Seq<u8>,
) -> Option<Seq<char>> {
    match existing {
        None => None,
        Some(object) => first_refusal(
            object_refusal(*object, stored),
            replacement_refusal(
                stored->0.plan,
                stored->0.executable@,
                plan,
                executable,
            ),
        ),
    }
}

/// The properties with which a plan is stored over what is stored under its
/// identity: records of emergency overrides stay.
pub open spec fn stored_properties(
    existing: Option<&Object>,
    properties: Map<Seq<char>, Seq<char>>,
) -> Map<Seq<char>, Seq<char>> {
    match existing {
        None => properties,
        Some(object) => carried(
            carried(properties, *object, "last_emergency_override_reason"@),
            *object,
            "last_emergency_override_correlation"@,
        ),
    }
}

/// The object to store for a plan. `existing` is what is stored under its
/// identity and `stored` what that reads as. `encoded` is the serialized plan
/// and `executable` its serialized executable content.
pub fn validated_plan_object(
    existing: Option<&Object>,
    stored: Option<StoredPlan>,
    plan: &Plan,
    encoded: &str,
    executable: &[u8],
    now: i64,
) -> (result: Result<Object, Error>)
    ensures
        refusal(result) == store_refusal(existing, stored, *plan, executable@),
        result matches Ok(object) ==> {
            &&& object.id@ == plan.id@
            &&& object.kind@ == KIND_PLAN@
            &&& object.name@ == plan.environment@ + " plan "@ + decimal_int(plan.created_at as int)
            &&& object.namespace@ == NS@
            &&& object.external_id@ == Seq::<char>::empty()
            &&& object.created == plan.created_at
            &&& object.updated == now
            &&& text_values(object.properties@) == stored_properties(
                existing,
                plan_properties(*plan, encoded@, executable@),
            )
        },
{
    match existing {
        None => {},
        Some(object) => {
            let found = match from_object(object, stored) {
                Err(error) => return Err(error),
                Ok(found) => found,
            };
            match check_replacement(&found, plan, executable) {
                Err(error) => return Err(error),
                Ok(_) => {},
            }
        },
    }
    let mut object = to_object(plan, encoded, executable, now);
    match existing {
        None => {},
        Some(before) => {
            carry(&mut object, before, "last_emergency_override_reason");
            carry(&mut object, before, "last_emergency_override_correlation");
        },
    }
    Ok(object)
}

/// The text between the brackets of a text in brackets.
pub open spec fn bracketed(text: Seq<char>) -> Option<Seq<char>> {
    if text.len() >= 2 && text[0] == '[' && text.last() == ']' {
        Some(text.subrange(1, text.len() - 1))
    } else {
        None
    }
}

/// Tell from its text whether an array is empty.
pub fn json_array_is_empty(raw: &str) -> (result: Result<bool, Error>)
    ensures
        refusal(result) == refuse_unless(
            bracketed(trimmed(raw@)) is Some,
            "plan steps must be a JSON array"@,
        ),
        result matches Ok(empty) ==> empty == blank(bracketed(trimmed(raw@))->0),
{
    let text = raw.trim();
    let chars = chars_of(text);
    if chars.len() < 2 || chars[0] != '[' || chars[chars.len() - 1] != ']' {
        return Err(Error::fixed("plan steps must be a JSON array"));
    }
    let inner = text.substring_char(1, chars.len() - 1);
    Ok(inner.trim().unicode_len() == 0)
}

/// What is read of a stored plan to tell it from others.
#[derive(Debug, PartialEq, Eq)]
pub struct PlanPayloadPeek {
    pub created_at: i64,
    pub environment: String,
    pub state: PlanState,
    pub steps_empty: bool,
}

/// Why the identity of a stored plan cannot be read, or its time of creation
/// is refused.
pub open spec fn created_peek_refusal(object: Object, peek: Option<PlanPayloadPeek>) -> Option<
    Seq<char>,
> {
    let index = object.property("created_at"@);
    let value = signed_value(index->0);
    if index is None || value is None || value->0 < i64::MIN || value->0 > i64::MAX {
        created_index_refusal(object, 0)
    } else if object.property("plan"@) is None {
        Some("plan object "@ + object.id@ + " has no serialized plan"@)
    } else if peek is None {
        Some("parsing stored plan identity "@ + object.id@)
    } else {
        created_index_refusal(object, peek->0.created_at)
    }
}

/// Check the time of creation in an object's index. `peek` is what its plan
/// reads as, where it can be read.
pub fn require_indexed_created_at_matches_payload(
    object: &Object,
    peek: Option<PlanPayloadPeek>,
) -> (result: Result<PlanPayloadPeek, Error>)
    ensures
        refusal(result) == created_peek_refusal(*object, peek),
        result matches Ok(found) ==> peek == Some(found),
{
    let index = match object.properties.text("created_at") {
        None => {
            return Err(about("plan object ", object.id.as_str(), " has no created_at index"));
        },
        Some(text) => text,
    };
    if parse_i64(index).is_none() {
        return Err(about("plan ", object.id.as_str(), " created_at index is not an integer"));
    }
    if object.properties.text("plan").is_none() {
        return Err(about("plan object ", object.id.as_str(), " has no serialized plan"));
    }
    match peek {
        None => {
            let mut message = "parsing stored plan identity ".to_owned();
            message.append(object.id.as_str());
            Err(Error::new(message))
        },
        Some(found) => match check_created_index(object, found.created_at) {
            Err(error) => Err(error),
            Ok(_) => Ok(found),
        },
    }
}

/// Why the state in an object's index is refused.
pub open spec fn status_index_refusal(object: Object, state: PlanState) -> Option<Seq<char>> {
    match object.property("status"@) {
        None => Some("plan object "@ + object.id@ + " has no lifecycle status"@),
        Some(status) => refuse_unless(
            status == state.word(),
            "plan "@ + object.id@ + " status index "@ + status + " does not match payload "@
                + state.word(),
        ),
    }
}

/// Why the indexes of an object are refused.
pub open spec fn identity_refusal(object: Object, peek: Option<PlanPayloadPeek>) -> Option<
    Seq<char>,
> {
    first_refusal(
        created_peek_refusal(object, peek),
        first_refusal(
            environment_index_refusal(object, peek->0.environment@),
            first_refusal(
                status_index_refusal(object, peek->0.state),
                has_steps_refusal(object, peek->0.steps_empty),
            ),
        ),
    )
}

/// Check all indexes of an object. `peek` is what its plan reads as, where it
/// can be read.
pub fn require_indexed_identity(object: &Object, peek: Option<PlanPayloadPeek>) -> (result: Result<
    PlanPayloadPeek,
    Error,
>)
    ensures
        refusal(result) == identity_refusal(*object, peek),
        result matches Ok(found) ==> peek == Some(found),
{
    let found = match require_indexed_created_at_matches_payload(object, peek) {
        Err(error) => return Err(error),
        Ok(found) => found,
    };
    match check_environment_index(object, found.environment.as_str()) {
        Err(error) => return Err(error),
        Ok(_) => {},
    }
    match object.properties.text("status") {
        None => {
            return Err(about("plan object ", object.id.as_str(), " has no lifecycle status"));
        },
        Some(status) => {
            let word = found.state.to_string();
            if !same(status, &word) {
                let mut message = "plan ".to_owned();
                message.append(object.id.as_str());
                message.append(" status index ");
                message.append(status);
                message.append(" does not match payload ");
                message.append(word.as_str());
                return Err(Error::new(message));
            }
        },
    }
    match require_has_steps_index(object, found.steps_empty) {
        Err(error) => Err(error),
        Ok(_) => Ok(found),
    }
}

/// With unchanged executable content a stored plan moves on: a computed or a
/// blocked one starts, a computed one is blocked, a running one succeeds, fails
/// or is blocked, and a computed one without steps succeeds at once.
pub proof fn lifecycle_moves_on(
    stored: &StoredPlan,
    plan: &Plan,
    executable: &[u8],
    result: Result<(), Error>,
)
    requires
        call_ensures(check_replacement, (stored, plan, executable), result),
        sha256_hex(stored.executable@) == sha256_hex(executable@),
    ensures
        stored.plan.state == PlanState::Running && (plan.state == PlanState::Succeeded || plan.state
            == PlanState::Failed || plan.state == PlanState::Blocked) ==> result is Ok,
        (stored.plan.state == PlanState::Computed || stored.plan.state == PlanState::Blocked)
            && plan.state == PlanState::Running ==> result is Ok,
        stored.plan.state == PlanState::Computed && plan.state == PlanState::Blocked
            ==> result is Ok,
        stored.plan.state == PlanState::Computed && plan.state == PlanState::Succeeded ==> (
        result is Ok <==> stored.plan.steps@.len() == 0 && plan.steps@.len() == 0),
{
}

/// A plan never moves back, never finishes without having run, and never
/// leaves a terminal state; its executable content never changes.
pub proof fn lifecycle_never_moves_back(
    stored: &StoredPlan,
    plan: &Plan,
    executable: &[u8],
    result: Result<(), Error>,
)
    requires
        call_ensures(check_replacement, (stored, plan, executable), result),
        result is Ok,
    ensures
        sha256_hex(stored.executable@) == sha256_hex(executable@),
        plan.state == PlanState::Computed ==> stored.plan.state == PlanState::Computed,
        plan.state == PlanState::Failed ==> stored.plan.state == PlanState::Failed
            || stored.plan.state == PlanState::Running,
        plan.state == PlanState::Succeeded ==> stored.plan.state == PlanState::Succeeded
            || stored.plan.state == PlanState::Running || stored.plan.state == PlanState::Computed
            && plan.steps@.len() == 0,
        stored.plan.state == PlanState::Succeeded || stored.plan.state == PlanState::Failed
            ==> plan.state == stored.plan.state,
{
}

/// A plan that keeps its state can be stored again if and only if it is blocked
/// or nothing that is recorded of its execution changes.
pub proof fn unchanged_state_keeps_its_record(
    stored: &StoredPlan,
    plan: &Plan,
    executable: &[u8],
    result: Result<(), Error>,
)
    requires
        call_ensures(check_replacement, (stored, plan, executable), result),
        sha256_hex(stored.executable@) == sha256_hex(executable@),
        stored.plan.state == plan.state,
    ensures
        result is Ok <==> stored.plan.state == PlanState::Blocked || (stored.plan.gates_skipped
            == plan.gates_skipped && stored.plan.status_detail@ == plan.status_detail@
            && stored.plan.maintenance_blocked == plan.maintenance_blocked),
{
}

/// A stored plan is read if and only if its object is that of a plan in the
/// supported format, both its identities are those of its content, its steps
/// stand in their places, only a blocked plan has a maintenance block, and
/// every index of the object tells what the plan says.
pub proof fn readable_plans(
    object: &Object,
    stored: StoredPlan,
    result: Result<StoredPlan, Error>,
)
    requires
        call_ensures(from_object, (object, Some(stored)), result),
    ensures
        result matches Ok(found) ==> found == stored,
        result is Ok <==> {
            let plan = stored.plan;
            &&& object.kind@ == KIND_PLAN@
            &&& object.property("plan"@) is Some
            &&& plan.format_version == 1
            &&& plan.maintenance_blocked ==> plan.state == PlanState::Blocked
            &&& plan.id@ == object.id@
            &&& plan.content_id@ == sha256_hex(stored.content@)
            &&& plan.id@ == plan_id_text(
                plan.environment@,
                plan.created_at,
                sha256_hex(stored.content@),
            )
            &&& forall|i: int|
                0 <= i < plan.steps@.len() ==> (#[trigger] plan.steps@[i]).order == (i
                    % 0x1_0000_0000) as u32 && plan.steps@[i].id@ == plan_step_id(plan.id@, i)
            &&& object.property("status"@) == Some(plan.state.word())
            &&& object.property("content_digest"@) == Some(sha256_hex(stored.executable@))
            &&& object.property("created_at"@) matches Some(index) && signed_value(index) == Some(
                plan.created_at as int,
            )
            &&& object.property("has_steps"@) == Some(
                if plan.steps@.len() > 0 {
                    "true"@
                } else {
                    "false"@
                },
            )
            &&& object.property("environment"@) == Some(plan.environment@)
        },
{
}

/// Without what it reads as, an object is never taken for a plan.
pub proof fn unreadable_plan_is_refused(object: &Object, result: Result<StoredPlan, Error>)
    requires
        call_ensures(from_object, (object, None), result),
    ensures
        result is Err,
{
}

/// A guarded update counts if and only if it was stored, or may have been and
/// what is stored now is where the plan was meant to be.
pub proof fn settled_updates(
    plan: &Plan,
    update: Result<(), Error>,
    confirm_ambiguous: bool,
    stored: Option<&Plan>,
    result: Result<(), Error>,
)
    requires
        call_ensures(settle_update, (plan, update, confirm_ambiguous, stored), result),
    ensures
        result is Ok <==> update is Ok || (confirm_ambiguous && stored is Some && stored->0.state
            == plan.state && stored->0.gates_skipped == plan.gates_skipped
            && stored->0.status_detail@ == plan.status_detail@ && stored->0.maintenance_blocked
            == plan.maintenance_blocked),
        result matches Err(error) ==> update matches Err(reported) && error@ == reported@,
{
}

/// A new plan is always stored, and its object says what the plan says.
pub proof fn new_plan_is_stored(
    stored: Option<StoredPlan>,
    plan: &Plan,
    encoded: &str,
    executable: &[u8],
    now: i64,
    result: Result<Object, Error>,
)
    requires
        call_ensures(
            validated_plan_object,
            (None, stored, plan, encoded, executable, now),
            result,
        ),
    ensures
        result matches Ok(object) && object.id@ == plan.id@ && object.created == plan.created_at
            && object.updated == now && object.property("plan"@) == Some(encoded@)
            && object.property("status"@) == Some(plan.state.word()) && object.property(
            "content_digest"@,
        ) == Some(sha256_hex(executable@)) && object.property("environment"@) == Some(
            plan.environment@,
        ) && object.property("created_at"@) == Some(decimal_int(plan.created_at as int))
            && object.property("has_steps"@) == Some(
            if plan.steps@.len() > 0 {
                "true"@
            } else {
                "false"@
            },
        ),
{
    lemma_plan_property(result->Ok_0, *plan, encoded@, executable@);
}

/// A plan replaces what is stored under its identity if and only if that reads
/// as a plan and may be replaced. Its object then says what the plan says, and
/// keeps the record of an emergency override.
pub proof fn stored_plan_is_replaced(
    existing: &Object,
    stored: StoredPlan,
    plan: &Plan,
    encoded: &str,
    executable: &[u8],
    now: i64,
    read: Result<StoredPlan, Error>,
    check: Result<(), Error>,
    result: Result<Object, Error>,
)
    requires
        call_ensures(
            validated_plan_object,
            (Some(existing), Some(stored), plan, encoded, executable, now),
            result,
        ),
        call_ensures(from_object, (existing, Some(stored)), read),
        call_ensures(check_replacement, (&stored, plan, executable), check),
    ensures
        result is Ok <==> read is Ok && check is Ok,
        result matches Ok(object) ==> {
            &&& object.id@ == plan.id@
            &&& object.property("plan"@) == Some(encoded@)
            &&& object.property("status"@) == Some(plan.state.word())
            &&& object.property("content_digest"@) == Some(sha256_hex(executable@))
            &&& existing.property("last_emergency_override_reason"@) matches Some(reason)
                ==> object.property("last_emergency_override_reason"@) == Some(reason)
            &&& existing.property("last_emergency_override_correlation"@) matches Some(correlation)
                ==> object.property("last_emergency_override_correlation"@) == Some(correlation)
        },
{
    if result is Ok {
        let object = result->Ok_0;
        let reason = "last_emergency_override_reason"@;
        let correlation = "last_emergency_override_correlation"@;
        lemma_keys_differ();
        lemma_override_keys_differ();
        let all = text_values(object.properties@);
        assert(all["plan"@] == encoded@);
        assert(all["status"@] == plan.state.word());
        assert(all["content_digest"@] == sha256_hex(executable@));
        assert(all.contains_key("plan"@));
        assert(all.contains_key("status"@));
        assert(all.contains_key("content_digest"@));
        if existing.property(reason) is Some {
            assert(all[reason] == existing.property(reason)->0);
            assert(all.contains_key(reason));
        }
        if existing.property(correlation) is Some {
            assert(all[correlation] == existing.property(correlation)->0);
            assert(all.contains_key(correlation));
        }
    }
}

proof fn lemma_override_keys_differ()
    ensures
        "last_emergency_override_reason"@.len() == 30,
        "last_emergency_override_correlation"@.len() == 35,
        "plan"@.len() == 4,
        "status"@.len() == 6,
        "content_digest"@.len() == 14,
        "has_steps"@.len() == 9,
{
    reveal_strlit("last_emergency_override_reason");
    reveal_strlit("last_emergency_override_correlation");
    reveal_strlit("plan");
    reveal_strlit("status");
    reveal_strlit("content_digest");
    reveal_strlit("has_steps");
}

/// The indexes of an object are accepted if and only if each tells what the
/// plan says.
pub proof fn indexed_identities(
    object: &Object,
    peek: PlanPayloadPeek,
    result: Result<PlanPayloadPeek, Error>,
)
    requires
        call_ensures(require_indexed_identity, (object, Some(peek)), result),
    ensures
        result matches Ok(found) ==> found == peek,
        result is Ok <==> {
            &&& object.property("plan"@) is Some
            &&& object.property("created_at"@) matches Some(index) && signed_value(index) == Some(
                peek.created_at as int,
            )
            &&& object.property("environment"@) == Some(peek.environment@)
            &&& object.property("status"@) == Some(peek.state.word())
            &&& object.property("has_steps"@) == Some(
                if peek.steps_empty {
                    "false"@
                } else {
                    "true"@
                },
            )
        },
{
}

/// The index of the time of creation is accepted if and only if it is the time
/// that the plan says.
pub proof fn indexed_creation_times(
    object: &Object,
    peek: PlanPayloadPeek,
    result: Result<PlanPayloadPeek, Error>,
)
    requires
        call_ensures(require_indexed_created_at_matches_payload, (object, Some(peek)), result),
    ensures
        result matches Ok(found) ==> found == peek,
        result is Ok <==> object.property("plan"@) is Some && (object.property(
            "created_at"@,
        ) matches Some(index) && signed_value(index) == Some(peek.created_at as int)),
{
}

/// The text of an array is empty if and only if there is nothing but blanks
/// between its brackets.
pub proof fn empty_arrays(raw: &str, result: Result<bool, Error>)
    requires
        call_ensures(json_array_is_empty, (raw,), result),
    ensures
        ({
            let text = trimmed(raw@);
            &&& result is Ok <==> text.len() >= 2 && text[0] == '[' && text.last() == ']'
            &&& result matches Ok(empty) ==> (empty <==> trimmed(
                text.subrange(1, text.len() - 1),
            ).len() == 0)
        }),
{
}

/// A transition changes where a plan is in its life and nothing that it
/// executes, and forgets what is recorded of the gates only for a new record.
pub proof fn transitions_keep_what_is_executed(
    transition: Transition,
    plan: &mut Plan,
    done: (),
)
    requires
        call_ensures(Transition::apply, (transition, plan), done),
    ensures
        final(plan).state == transition.state,
        final(plan).status_detail == transition.status_detail,
        final(plan).maintenance_blocked == transition.maintenance_blocked,
        final(plan).gates_skipped == if transition.gates_skipped is Some {
            transition.gates_skipped
        } else {
            old(plan).gates_skipped
        },
        final(plan).id == old(plan).id,
        final(plan).content_id == old(plan).content_id,
        final(plan).format_version == old(plan).format_version,
        final(plan).environment == old(plan).environment,
        final(plan).created_at == old(plan).created_at,
        final(plan).inputs == old(plan).inputs,
        final(plan).steps == old(plan).steps,
        final(plan).prior_warnings == old(plan).prior_warnings,
        final(plan).recalled_recovery_reason == old(plan).recalled_recovery_reason,
{
}

/// A stored plan confirms a written one where both are in one state, for one
/// reason, with the gates skipped alike and alike blocked by maintenance.
pub proof fn confirmed_plans_are_in_one_state(plan: &Plan, stored: &Plan, answer: bool)
    requires
        call_ensures(confirms, (plan, stored), answer),
    ensures
        answer <==> plan.state == stored.state && plan.gates_skipped == stored.gates_skipped
            && plan.status_detail@ == stored.status_detail@ && plan.maintenance_blocked
            == stored.maintenance_blocked,
{
}

/// The index of a stored plan says whether it has steps, as its payload does.
pub proof fn step_index_matches_the_steps(
    object: &Object,
    steps_empty: bool,
    result: Result<(), Error>,
)
    requires
        call_ensures(require_has_steps_index, (object, steps_empty), result),
    ensures
        steps_empty ==> (result is Ok <==> object.property("has_steps"@) == Some("false"@)),
        !steps_empty ==> (result is Ok <==> object.property("has_steps"@) == Some("true"@)),
{
}

/// A written plan has the index that its steps ask for.
pub proof fn written_index_is_accepted(
    plan: &Plan,
    encoded: &str,
    executable: &[u8],
    now: i64,
    object: Object,
    result: Result<(), Error>,
)
    requires
        call_ensures(to_object, (plan, encoded, executable, now), object),
        call_ensures(require_has_steps_index, (&object, plan.steps@.len() == 0), result),
    ensures
        result is Ok,
        object.id@ == plan.id@,
        object.property("plan"@) == Some(encoded@),
        object.property("environment"@) == Some(plan.environment@),
        object.property("status"@) == Some(plan.state.word()),
{
    reveal_strlit("has_steps");
    reveal_strlit("status");
    reveal_strlit("plan");
    reveal_strlit("content_digest");
    reveal_strlit("created_at");
    reveal_strlit("environment");
    assert("has_steps"@.len() == 9 && "status"@.len() == 6 && "plan"@.len() == 4);
    assert("content_digest"@.len() == 14 && "created_at"@.len() == 10);
    assert("environment"@.len() == 11);
    let map = text_values(object.properties@);
    assert(map.contains_key("has_steps"@));
    assert(map["has_steps"@] == truth_word(plan.steps@.len() > 0));
    assert(map.contains_key("plan"@) && map["plan"@] == encoded@);
    assert(map.contains_key("environment"@) && map["environment"@] == plan.environment@);
    assert(map.contains_key("status"@) && map["status"@] == plan.state.word());
}

/// The state of a plan after an execution is that of its outcome; one that
/// maintenance held up is blocked.
pub proof fn transitions_name_their_state(
    state: PlanState,
    skipped: bool,
    detail: &str,
    run: Transition,
    held: Transition,
)
    requires
        call_ensures(Transition::execution, (state, skipped, detail), run),
        call_ensures(Transition::maintenance_blocked, (skipped, detail), held),
    ensures
        run.state == state && !run.maintenance_blocked,
        held.state == PlanState::Blocked && held.maintenance_blocked,
        run.gates_skipped == Some(skipped) && held.gates_skipped == Some(skipped),
        run.status_detail@ == detail@ && held.status_detail@ == detail@,
{
}

} // verus!
