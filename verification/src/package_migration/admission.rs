//! Admission of a new migration against the published releases.
use super::declaration::{backup_refusal, declaration_refusal, identity_bytes};
use super::types::{
    CheckpointClass, CheckpointModel, CompatibilityStatus, MigrationDeclaration, MigrationRecord,
    MigrationStatus, PackagePin, PinModel, ReceiptModel, RecordModel,
};
use crate::crypto::{is_digest, prefixed_digest};
use crate::error::{first_refusal, refusal, refuse_unless, Error};
use crate::ontology::{identifier_refusal, validate_identifier};
use crate::signature_verification::{digest_refusal, validate_prefixed_digest};
use crate::text::{begins_with, opt_str, same, starts_with};
use vstd::prelude::*;

verus! {

/// Why a request for a migration is refused before anything is looked up.
pub open spec fn request_refusal(
    name: Seq<char>,
    environment: Seq<char>,
    partition: Option<Seq<char>>,
    declaration: super::types::DeclarationModel,
) -> Option<Seq<char>> {
    let bad_name = identifier_refusal("migration name"@, name);
    let bad_environment = identifier_refusal("environment"@, environment);
    let bad_partition = match partition {
        Some(value) => identifier_refusal("migration partition"@, value),
        None => None,
    };
    let invalid = declaration_refusal(declaration);
    if bad_name is Some {
        bad_name
    } else if bad_environment is Some {
        bad_environment
    } else if bad_partition is Some {
        bad_partition
    } else if invalid is Some {
        invalid
    } else {
        refuse_unless(
            declaration.compatibility.status == CompatibilityStatus::Compatible,
            "package migration compatibility evidence is not compatible"@,
        )
    }
}

/// Check a request for a migration before anything is looked up.
pub fn check_request(
    name: &str,
    environment: &str,
    partition: Option<&str>,
    declaration: &MigrationDeclaration,
) -> (result: Result<(), Error>)
    ensures
        refusal(result) == request_refusal(
            name@,
            environment@,
            opt_str(partition),
            declaration@,
        ),
{
    match validate_identifier("migration name", name) {
        Err(error) => return Err(error),
        Ok(_) => {},
    }
    match validate_identifier("environment", environment) {
        Err(error) => return Err(error),
        Ok(_) => {},
    }
    match partition {
        Some(value) => match validate_identifier("migration partition", value) {
            Err(error) => return Err(error),
            Ok(_) => {},
        },
        None => {},
    }
    match declaration.validate() {
        Err(error) => return Err(error),
        Ok(_) => {},
    }
    if declaration.compatibility.status != CompatibilityStatus::Compatible {
        return Err(Error::fixed("package migration compatibility evidence is not compatible"));
    }
    Ok(())
}

/// The recorded digest of a release as the catalog stores it, with or without
/// its prefix.
pub open spec fn catalog_digest_text(stored: Seq<char>) -> Seq<char> {
    if begins_with(stored, "sha256:"@) {
        stored
    } else {
        "sha256:"@ + stored
    }
}

/// The recorded digest of a release as the catalog stores it.
pub fn catalog_digest(stored: &str) -> (result: Result<String, Error>)
    ensures
        refusal(result) == digest_refusal(
            "catalog release digest"@,
            catalog_digest_text(stored@),
        ),
        result matches Ok(digest) ==> digest@ == catalog_digest_text(stored@) && is_digest(digest@),
{
    let prefixed = if starts_with(stored, "sha256:") {
        stored.to_owned()
    } else {
        let mut text = "sha256:".to_owned();
        text.append(stored);
        text
    };
    match validate_prefixed_digest("catalog release digest", prefixed.as_str()) {
        Err(error) => Err(error),
        Ok(_) => Ok(prefixed),
    }
}

/// Why a pin does not name a published release. `stored` is the digest
/// property of the release object, empty where it has none, and nothing where
/// there is no such object.
pub open spec fn published_refusal(pin: PinModel, stored: Option<Seq<char>>) -> Option<Seq<char>> {
    match stored {
        None => Some("release "@ + pin.product + "@"@ + pin.version + " is not published"@),
        Some(digest) => first_refusal(
            digest_refusal("catalog release digest"@, catalog_digest_text(digest)),
            refuse_unless(
                catalog_digest_text(digest) == pin.digest,
                "release "@ + pin.product + "@"@ + pin.version + " digest "@ + catalog_digest_text(
                    digest,
                ) + " does not match migration pin "@ + pin.digest,
            ),
        ),
    }
}

/// Require that a pin names a published release with its digest.
pub fn require_package_pin(pin: &PackagePin, stored: Option<&str>) -> (result: Result<(), Error>)
    ensures
        refusal(result) == published_refusal(pin@, opt_str(stored)),
{
    match stored {
        None => {
            let mut message = "release ".to_owned();
            message.append(pin.product.as_str());
            message.append("@");
            message.append(pin.version.as_str());
            message.append(" is not published");
            Err(Error::new(message))
        },
        Some(text) => {
            let digest = match catalog_digest(text) {
                Err(error) => return Err(error),
                Ok(value) => value,
            };
            if !same(&digest, &pin.digest) {
                let mut message = "release ".to_owned();
                message.append(pin.product.as_str());
                message.append("@");
                message.append(pin.version.as_str());
                message.append(" digest ");
                message.append(digest.as_str());
                message.append(" does not match migration pin ");
                message.append(pin.digest.as_str());
                return Err(Error::new(message));
            }
            Ok(())
        },
    }
}

/// A declaration has an irreversible checkpoint.
pub open spec fn needs_backup(checkpoints: Seq<CheckpointModel>) -> bool {
    exists|i: int|
        0 <= i < checkpoints.len() && (#[trigger] checkpoints[i]).class
            == CheckpointClass::Irreversible
}

/// What the catalog knows about the two releases of a migration.
#[derive(Debug, PartialEq, Eq)]
pub struct CatalogFacts<'a> {
    /// The stored digest of the source release.
    pub source: Option<&'a str>,
    /// The stored digest of the target release.
    pub target: Option<&'a str>,
    /// The source or the target was recalled.
    pub recalled: bool,
}

/// Why a migration is refused in view of the catalog.
pub open spec fn admission_refusal(
    declaration: super::types::DeclarationModel,
    backup: Option<Seq<char>>,
    source: Option<Seq<char>>,
    target: Option<Seq<char>>,
    recalled: bool,
) -> Option<Seq<char>> {
    let bad_source = published_refusal(declaration.source, source);
    let bad_target = published_refusal(declaration.target, target);
    let bad_backup = backup_refusal(backup);
    if bad_source is Some {
        bad_source
    } else if bad_target is Some {
        bad_target
    } else if recalled {
        Some("package migration cannot use a recalled source or target release"@)
    } else if backup is None && needs_backup(declaration.checkpoints) {
        Some(
            "irreversible package migration requires a backup receipt digest before admission"@,
        )
    } else {
        bad_backup
    }
}

/// The record of a newly admitted migration.
pub open spec fn admitted_record(
    name: Seq<char>,
    environment: Seq<char>,
    partition: Option<Seq<char>>,
    declaration: super::types::DeclarationModel,
    backup: Option<Seq<char>>,
    identity_digest: Seq<char>,
) -> RecordModel {
    RecordModel {
        name,
        environment,
        partition,
        identity_digest,
        declaration,
        approval_digest: ""@,
        fence_generation: 0,
        status: MigrationStatus::Admitted,
        receipts: Seq::<ReceiptModel>::empty(),
        backup_receipt_digest: backup,
        pending_plan_id: None,
        pending_rollback_plan_id: None,
    }
}

fn has_irreversible(declaration: &MigrationDeclaration) -> (answer: bool)
    ensures
        answer == needs_backup(declaration@.checkpoints),
{
    let mut i: usize = 0;
    while i < declaration.checkpoints.len()
        invariant
            i <= declaration.checkpoints.len(),
            forall|k: int|
                0 <= k < i ==> (#[trigger] declaration@.checkpoints[k]).class
                    != CheckpointClass::Irreversible,
        decreases declaration.checkpoints.len() - i,
    {
        assert(declaration@.checkpoints[i as int] == declaration.checkpoints@[i as int]@);
        if declaration.checkpoints[i].class == CheckpointClass::Irreversible {
            return true;
        }
        i = i + 1;
    }
    false
}

/// Admit a migration whose request was checked, in view of the catalog.
/// `canonical` is the serialized form of the declaration.
pub fn new_record(
    name: &str,
    environment: &str,
    declaration: MigrationDeclaration,
    backup_receipt_digest: Option<&str>,
    partition: Option<&str>,
    facts: &CatalogFacts<'_>,
    canonical: &[u8],
) -> (result: Result<MigrationRecord, Error>)
    requires
        request_refusal(name@, environment@, opt_str(partition), declaration@) is None,
    ensures
        refusal(result) == admission_refusal(
            declaration@,
            opt_str(backup_receipt_digest),
            opt_str(facts.source),
            opt_str(facts.target),
            facts.recalled,
        ),
        result matches Ok(record) ==> record@ == admitted_record(
            name@,
            environment@,
            opt_str(partition),
            declaration@,
            opt_str(backup_receipt_digest),
            prefixed_digest(
                identity_bytes(environment@, canonical@, opt_str(backup_receipt_digest)),
            ),
        ),
{
    match require_package_pin(&declaration.source, facts.source) {
        Err(error) => return Err(error),
        Ok(_) => {},
    }
    match require_package_pin(&declaration.target, facts.target) {
        Err(error) => return Err(error),
        Ok(_) => {},
    }
    if facts.recalled {
        return Err(
            Error::fixed("package migration cannot use a recalled source or target release"),
        );
    }
    if backup_receipt_digest.is_none() && has_irreversible(&declaration) {
        return Err(
            Error::fixed(
                "irreversible package migration requires a backup receipt digest before admission",
            ),
        );
    }
    let identity_digest = match declaration.identity_digest(
        environment,
        backup_receipt_digest,
        canonical,
    ) {
        Err(error) => return Err(error),
        Ok(digest) => digest,
    };
    let backup = match backup_receipt_digest {
        Some(digest) => Some(digest.to_owned()),
        None => None,
    };
    let scope = match partition {
        Some(value) => Some(value.to_owned()),
        None => None,
    };
    let receipts: Vec<super::types::CheckpointReceipt> = Vec::new();
    let record = MigrationRecord {
        name: name.to_owned(),
        environment: environment.to_owned(),
        partition: scope,
        identity_digest,
        declaration,
        approval_digest: "".to_owned(),
        fence_generation: 0,
        status: MigrationStatus::Admitted,
        receipts,
        backup_receipt_digest: backup,
        pending_plan_id: None,
        pending_rollback_plan_id: None,
    };
    assert(record@.receipts =~= Seq::<ReceiptModel>::empty());
    Ok(record)
}

/// A request is taken up if and only if its name, environment and partition are
/// identifiers, its declaration can be stored, and the evidence says compatible.
pub proof fn requests_that_are_taken_up(
    name: &str,
    environment: &str,
    partition: Option<&str>,
    declaration: &MigrationDeclaration,
    result: Result<(), Error>,
)
    requires
        call_ensures(check_request, (name, environment, partition, declaration), result),
    ensures
        result is Ok <==> {
            &&& identifier_refusal("migration name"@, name@) is None
            &&& identifier_refusal("environment"@, environment@) is None
            &&& partition matches Some(value) ==> identifier_refusal(
                "migration partition"@,
                value@,
            ) is None
            &&& declaration_refusal(declaration@) is None
            &&& declaration.compatibility.status == CompatibilityStatus::Compatible
        },
{
}

/// The digest that a catalog stores is taken with its prefix or without.
pub proof fn catalog_digests(stored: &str, result: Result<String, Error>)
    requires
        call_ensures(catalog_digest, (stored,), result),
    ensures
        ({
            let full = if begins_with(stored@, "sha256:"@) {
                stored@
            } else {
                "sha256:"@ + stored@
            };
            &&& result is Ok <==> is_digest(full)
            &&& result matches Ok(digest) ==> digest@ == full
        }),
{
}

/// A pin names a published release if and only if the catalog has the release
/// with the digest of the pin.
pub proof fn published_pins(pin: &PackagePin, stored: Option<&str>, result: Result<(), Error>)
    requires
        call_ensures(require_package_pin, (pin, stored), result),
    ensures
        result is Ok <==> stored is Some && is_digest(pin.digest@) && (stored->0@ == pin.digest@
            || (!begins_with(stored->0@, "sha256:"@) && "sha256:"@ + stored->0@ == pin.digest@)),
{
    if stored is Some && is_digest(pin.digest@) {
        assert(begins_with(pin.digest@, "sha256:"@));
    }
}

/// A migration is admissible if and only if both releases are published with the
/// digests of its pins, neither was recalled, and a recorded backup is named
/// where a checkpoint is irreversible. Its record is new: admitted, without
/// receipts, approval or pending plans, in generation zero.
pub proof fn admissible_migrations(
    name: &str,
    environment: &str,
    declaration: MigrationDeclaration,
    backup: Option<&str>,
    partition: Option<&str>,
    facts: &CatalogFacts<'_>,
    canonical: &[u8],
    result: Result<MigrationRecord, Error>,
)
    requires
        call_ensures(
            new_record,
            (name, environment, declaration, backup, partition, facts, canonical),
            result,
        ),
    ensures
        result is Ok <==> {
            &&& published_refusal(declaration.source@, opt_str(facts.source)) is None
            &&& published_refusal(declaration.target@, opt_str(facts.target)) is None
            &&& !facts.recalled
            &&& backup matches Some(digest) ==> is_digest(digest@)
            &&& (exists|i: int|
                0 <= i < declaration.checkpoints@.len() && (
                #[trigger] declaration.checkpoints@[i]).class == CheckpointClass::Irreversible)
                ==> backup is Some
        },
        result matches Ok(record) ==> {
            &&& record.name@ == name@
            &&& record.environment@ == environment@
            &&& crate::text::opt_text(record.partition) == opt_str(partition)
            &&& record.declaration@ == declaration@
            &&& record.status == MigrationStatus::Admitted
            &&& record.receipts@.len() == 0
            &&& record.fence_generation == 0
            &&& record.approval_digest@.len() == 0
            &&& crate::text::opt_text(record.backup_receipt_digest) == opt_str(backup)
            &&& record.pending_plan_id is None
            &&& record.pending_rollback_plan_id is None
        },
{
    reveal_strlit("");
    let list = declaration.checkpoints@;
    let models = declaration@.checkpoints;
    assert(models.len() == list.len());
    assert forall|i: int| 0 <= i < list.len() implies models[i] == (#[trigger] list[i])@ by {};
    if needs_backup(models) {
        let i = choose|i: int|
            0 <= i < models.len() && (#[trigger] models[i]).class == CheckpointClass::Irreversible;
        assert(list[i].class == CheckpointClass::Irreversible);
    }
    if exists|i: int|
        0 <= i < list.len() && (#[trigger] list[i]).class == CheckpointClass::Irreversible {
        let i = choose|i: int|
            0 <= i < list.len() && (#[trigger] list[i]).class == CheckpointClass::Irreversible;
        assert(models[i].class == CheckpointClass::Irreversible);
    }
    if result is Ok {
        assert(result->Ok_0@.receipts.len() == result->Ok_0.receipts@.len());
    }
}

} // verus!
