//! Environment locks of migrations.
use super::types::{lock_id_text, record_lock_id, MigrationRecord, RecordModel};
use crate::error::{refusal, refuse_unless, Error};
use crate::graph::Object;
use crate::ontology::{KIND_PACKAGE_MIGRATION_LOCK, NS};
use crate::text::same;
use crate::text_map::{group_text_values, text_values, TextMap};
use vstd::prelude::*;

verus! {

/// The owner of a lock object: empty where it names none.
pub open spec fn lock_owner(lock: Object) -> Seq<char> {
    match lock.property("owner"@) {
        Some(owner) => owner,
        None => ""@,
    }
}

/// Decide a claim of the environment lock: whether the lock is to be created,
/// or why the claim is refused. A migration may claim its own lock again.
pub fn claim_environment_lock(record: &MigrationRecord, existing: Option<&Object>) -> (result:
    Result<bool, Error>)
    ensures
        match existing {
            None => result == Ok::<bool, Error>(true),
            Some(lock) => {
                &&& refusal(result) == refuse_unless(
                    lock_owner(*lock) == record@.name,
                    "environment "@ + record@.environment + " already has package migration "@
                        + lock_owner(*lock) + " in progress"@,
                )
                &&& result matches Ok(create) ==> !create
            },
        },
{
    match existing {
        None => Ok(true),
        Some(lock) => {
            let owner = match lock.properties.text("owner") {
                Some(text) => text,
                None => "",
            };
            if same(owner, &record.name) {
                return Ok(false);
            }
            let mut message = "environment ".to_owned();
            message.append(record.environment.as_str());
            message.append(" already has package migration ");
            message.append(owner);
            message.append(" in progress");
            Err(Error::new(message))
        },
    }
}

/// The properties of the lock object of a migration.
pub open spec fn lock_properties(record: RecordModel) -> Map<Seq<char>, Seq<char>> {
    Map::<Seq<char>, Seq<char>>::empty().insert("environment"@, record.environment).insert(
        "owner"@,
        record.name,
    )
}

/// The lock object of a migration.
pub fn lock_object(record: &MigrationRecord, now: i64) -> (lock: Object)
    ensures
        lock.id@ == lock_id_text(record@.partition, record@.environment),
        lock.kind@ == KIND_PACKAGE_MIGRATION_LOCK@,
        lock.name@ == "lock-"@ + record@.environment,
        lock.namespace@ == NS@,
        lock.external_id@ == ""@,
        text_values(lock.properties@) == lock_properties(record@),
        lock.created == now,
        lock.updated == now,
        lock_owner(lock) == record@.name,
{
    broadcast use group_text_values;

    let mut name = "lock-".to_owned();
    name.append(record.environment.as_str());
    let mut properties = TextMap::<String>::new();
    properties.insert("environment".to_owned(), record.environment.clone());
    properties.insert("owner".to_owned(), record.name.clone());
    Object {
        id: record_lock_id(record),
        kind: KIND_PACKAGE_MIGRATION_LOCK.to_owned(),
        name,
        namespace: NS.to_owned(),
        external_id: "".to_owned(),
        properties,
        created: now,
        updated: now,
    }
}

/// Let one plan run under a lock.
pub fn authorize_plan_on_lock(lock: &mut Object, plan_id: &str, now: i64)
    ensures
        text_values(final(lock).properties@) == text_values(old(lock).properties@).insert(
            "allowed_plan_id"@,
            plan_id@,
        ),
        final(lock).updated == now,
        final(lock).id == old(lock).id,
        final(lock).kind == old(lock).kind,
        final(lock).name == old(lock).name,
        final(lock).namespace == old(lock).namespace,
        final(lock).external_id == old(lock).external_id,
        final(lock).created == old(lock).created,
{
    broadcast use group_text_values;

    lock.properties.insert("allowed_plan_id".to_owned(), plan_id.to_owned());
    lock.updated = now;
}

/// Let no plan run under a lock.
pub fn clear_authorized_plan(lock: &mut Object, now: i64)
    ensures
        text_values(final(lock).properties@) == text_values(old(lock).properties@).remove(
            "allowed_plan_id"@,
        ),
        final(lock).updated == now,
        final(lock).id == old(lock).id,
        final(lock).kind == old(lock).kind,
        final(lock).name == old(lock).name,
        final(lock).namespace == old(lock).namespace,
        final(lock).external_id == old(lock).external_id,
        final(lock).created == old(lock).created,
{
    broadcast use group_text_values;

    lock.properties.remove("allowed_plan_id");
    lock.updated = now;
}

/// Tell whether a migration may release a lock: it is the owner.
pub fn may_release_lock(record: &MigrationRecord, lock: &Object) -> (answer: bool)
    ensures
        answer == (lock.property("owner"@) == Some(record@.name)),
{
    match lock.properties.text("owner") {
        Some(owner) => same(owner, &record.name),
        None => false,
    }
}

/// An environment has one migration at a time: a free lock is created, the own
/// lock is kept, and the lock of another migration is refused.
pub proof fn one_migration_at_a_time(
    record: &MigrationRecord,
    existing: Option<&Object>,
    result: Result<bool, Error>,
)
    requires
        call_ensures(claim_environment_lock, (record, existing), result),
    ensures
        existing is None <==> result == Ok::<bool, Error>(true),
        existing is Some ==> (result is Ok <==> lock_owner(*existing->0) == record.name@),
        existing is Some && result is Ok ==> result == Ok::<bool, Error>(false),
{
}

/// A migration that made a lock owns it: it may claim it again and release it,
/// and a migration of another name may not.
pub proof fn locks_belong_to_their_migration(
    record: &MigrationRecord,
    other: &MigrationRecord,
    now: i64,
    lock: Object,
    mine: Result<bool, Error>,
    theirs: Result<bool, Error>,
    release: bool,
    foreign: bool,
)
    requires
        call_ensures(lock_object, (record, now), lock),
        call_ensures(claim_environment_lock, (record, Some(&lock)), mine),
        call_ensures(claim_environment_lock, (other, Some(&lock)), theirs),
        call_ensures(may_release_lock, (record, &lock), release),
        call_ensures(may_release_lock, (other, &lock), foreign),
        record.name@ != other.name@,
    ensures
        mine == Ok::<bool, Error>(false),
        theirs is Err,
        release,
        !foreign,
        lock.property("environment"@) == Some(record.environment@),
{
    let held = text_values(lock.properties@);
    reveal_strlit("environment");
    reveal_strlit("owner");
    assert(held.contains_key("owner"@));
    assert(held["owner"@] == record.name@);
    assert(held.contains_key("environment"@));
    assert("environment"@.len() != "owner"@.len());
    assert(held["environment"@] == record.environment@);
}

/// A lock lets one plan run from when it is allowed until it is cleared, and
/// keeps its owner.
pub proof fn locks_let_one_plan_run(
    lock: &mut Object,
    plan_id: &str,
    now: i64,
    done: (),
)
    requires
        call_ensures(authorize_plan_on_lock, (lock, plan_id, now), done),
    ensures
        final(lock).property("allowed_plan_id"@) == Some(plan_id@),
        final(lock).property("owner"@) == old(lock).property("owner"@),
        final(lock).id == old(lock).id,
        final(lock).updated == now,
{
    reveal_strlit("allowed_plan_id");
    reveal_strlit("owner");
    let before = text_values(old(lock).properties@);
    let after = text_values(final(lock).properties@);
    assert("allowed_plan_id"@.len() != "owner"@.len());
    assert(after.contains_key("allowed_plan_id"@));
    assert(after["allowed_plan_id"@] == plan_id@);
    assert(after.contains_key("owner"@) == before.contains_key("owner"@));
    if before.contains_key("owner"@) {
        assert(after["owner"@] == before["owner"@]);
    }
}

/// A cleared lock lets no plan run, and keeps its owner.
pub proof fn cleared_locks_let_no_plan_run(lock: &mut Object, now: i64, done: ())
    requires
        call_ensures(clear_authorized_plan, (lock, now), done),
    ensures
        final(lock).property("allowed_plan_id"@) is None,
        final(lock).property("owner"@) == old(lock).property("owner"@),
        final(lock).id == old(lock).id,
        final(lock).updated == now,
{
    reveal_strlit("allowed_plan_id");
    reveal_strlit("owner");
    let before = text_values(old(lock).properties@);
    let after = text_values(final(lock).properties@);
    assert("allowed_plan_id"@.len() != "owner"@.len());
    assert(!after.contains_key("allowed_plan_id"@));
    assert(after.contains_key("owner"@) == before.contains_key("owner"@));
    if before.contains_key("owner"@) {
        assert(after["owner"@] == before["owner"@]);
    }
}

} // verus!
