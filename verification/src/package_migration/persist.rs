//! Stored form of migration records.
use super::declaration::same_pin;
use super::types::{
    catalog_id_text, checkpoint_models, record_catalog_id, CheckpointDecl, MigrationDeclaration,
    MigrationRecord, RecordModel,
};
use crate::error::{refusal, refuse_unless, Error};
use crate::graph::Object;
use crate::ontology::{KIND_PACKAGE_MIGRATION, NS};
use crate::text::{same, same_opt};
use crate::text_map::{group_text_values, text_values, TextMap};
use vstd::prelude::*;

verus! {

/// The properties of the stored object of a record.
pub open spec fn record_properties(record: RecordModel, encoded: Seq<char>) -> Map<
    Seq<char>,
    Seq<char>,
> {
    Map::<Seq<char>, Seq<char>>::empty().insert("name"@, record.name).insert(
        "identity_digest"@,
        record.identity_digest,
    ).insert("environment"@, record.environment).insert("status"@, record.status.word()).insert(
        "record"@,
        encoded,
    )
}

/// The stored object of a record. `encoded` is its serialized form.
pub fn record_object(record: &MigrationRecord, encoded: &str, now: i64) -> (object: Object)
    ensures
        object.id@ == catalog_id_text(record@.partition, record@.name),
        object.kind@ == KIND_PACKAGE_MIGRATION@,
        object.name@ == record@.name,
        object.namespace@ == NS@,
        object.external_id@ == ""@,
        text_values(object.properties@) == record_properties(record@, encoded@),
        object.created == now,
        object.updated == now,
{
    broadcast use group_text_values;

    let mut properties = TextMap::<String>::new();
    properties.insert("name".to_owned(), record.name.clone());
    properties.insert("identity_digest".to_owned(), record.identity_digest.clone());
    properties.insert("environment".to_owned(), record.environment.clone());
    properties.insert("status".to_owned(), record.status.as_str().to_owned());
    properties.insert("record".to_owned(), encoded.to_owned());
    Object {
        id: record_catalog_id(record),
        kind: KIND_PACKAGE_MIGRATION.to_owned(),
        name: record.name.clone(),
        namespace: NS.to_owned(),
        external_id: "".to_owned(),
        properties,
        created: now,
        updated: now,
    }
}

fn same_checkpoints(left: &Vec<CheckpointDecl>, right: &Vec<CheckpointDecl>) -> (answer: bool)
    ensures
        answer == (checkpoint_models(left@) == checkpoint_models(right@)),
{
    if left.len() != right.len() {
        assert(checkpoint_models(left@).len() != checkpoint_models(right@).len());
        return false;
    }
    let mut i: usize = 0;
    while i < left.len()
        invariant
            i <= left.len(),
            left.len() == right.len(),
            forall|k: int| 0 <= k < i ==> (#[trigger] left@[k])@ == right@[k]@,
        decreases left.len() - i,
    {
        if !(same(&left[i].id, &right[i].id) && left[i].class == right[i].class && same_opt(
            &left[i].pre_admission,
            &right[i].pre_admission,
        )) {
            assert(checkpoint_models(left@)[i as int] != checkpoint_models(right@)[i as int]);
            return false;
        }
        i = i + 1;
    }
    assert(checkpoint_models(left@) =~= checkpoint_models(right@));
    true
}

/// Two declarations say the same.
pub fn same_declaration(left: &MigrationDeclaration, right: &MigrationDeclaration) -> (answer: bool)
    ensures
        answer == (left@ == right@),
{
    left.version == right.version && same(&left.profile, &right.profile) && same_pin(
        &left.source,
        &right.source,
    ) && same_pin(&left.target, &right.target) && left.compatibility.version
        == right.compatibility.version && left.compatibility.status == right.compatibility.status
        && same(&left.compatibility.evidence_digest, &right.compatibility.evidence_digest)
        && same_checkpoints(&left.checkpoints, &right.checkpoints)
}

/// Decide how a new record is stored next to one of its name: whether it is
/// to be created, or why it is refused. The same migration may be created
/// again, and is left as it is.
pub fn persist_new(record: &MigrationRecord, stored: Option<&MigrationRecord>) -> (result: Result<
    bool,
    Error,
>)
    ensures
        match stored {
            None => result == Ok::<bool, Error>(true),
            Some(existing) => {
                &&& refusal(result) == refuse_unless(
                    existing@.identity_digest == record@.identity_digest && existing@.declaration
                        == record@.declaration,
                    "package migration "@ + record@.name
                        + " already exists with a different identity"@,
                )
                &&& result matches Ok(create) ==> !create
            },
        },
{
    match stored {
        None => Ok(true),
        Some(existing) => {
            if same(&existing.identity_digest, &record.identity_digest) && same_declaration(
                &existing.declaration,
                &record.declaration,
            ) {
                return Ok(false);
            }
            let mut message = "package migration ".to_owned();
            message.append(record.name.as_str());
            message.append(" already exists with a different identity");
            Err(Error::new(message))
        },
    }
}

/// A migration is created under a free name, kept where it is stored already, and
/// refused where another is stored under its name.
pub proof fn names_are_taken_once(
    record: &MigrationRecord,
    stored: Option<&MigrationRecord>,
    result: Result<bool, Error>,
)
    requires
        call_ensures(persist_new, (record, stored), result),
    ensures
        stored is None <==> result == Ok::<bool, Error>(true),
        stored is Some ==> (result == Ok::<bool, Error>(false) <==> stored->0.identity_digest@
            == record.identity_digest@ && stored->0.declaration@ == record.declaration@),
        stored is Some && result is Ok ==> result == Ok::<bool, Error>(false),
{
}

/// The stored object of a record tells its name, environment, identity and
/// status, and holds the record.
pub proof fn stored_records_tell_their_status(
    record: &MigrationRecord,
    encoded: &str,
    now: i64,
    object: Object,
)
    requires
        call_ensures(record_object, (record, encoded, now), object),
    ensures
        object.name@ == record.name@,
        object.property("record"@) == Some(encoded@),
        object.property("status"@) == Some(record.status.word()),
{
    reveal_strlit("record");
    reveal_strlit("status");
    let held = text_values(object.properties@);
    assert("record"@ != "status"@) by {
        assert("record"@[0] == 'r');
        assert("status"@[0] == 's');
    }
    assert(held.contains_key("record"@));
    assert(held["record"@] == encoded@);
    assert(held.contains_key("status"@));
    assert(held["status"@] == record.status.word());
}

/// Two declarations say the same if and only if they agree in every part.
pub proof fn equal_declarations(
    left: &MigrationDeclaration,
    right: &MigrationDeclaration,
    answer: bool,
)
    requires
        call_ensures(same_declaration, (left, right), answer),
    ensures
        answer ==> left.version == right.version && left.profile@ == right.profile@
            && left.source@ == right.source@ && left.target@ == right.target@
            && left.compatibility@ == right.compatibility@ && checkpoint_models(left.checkpoints@)
            == checkpoint_models(right.checkpoints@),
        !answer ==> left@ != right@,
{
}

} // verus!
