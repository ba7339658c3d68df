//! Validity and identity of migration declarations.
use super::types::{
    checkpoint_models, CheckpointClass, CheckpointDecl, CheckpointModel, DeclarationModel,
    MigrationDeclaration, PackagePin, PinModel, COMPATIBILITY_VERSION, MIGRATION_DOCUMENT_VERSION,
    MIGRATION_PROFILE,
};
use crate::crypto::{digest_of, is_digest, prefixed_digest};
use crate::error::{first_refusal, refusal, Error};
use crate::framing::{domain, frame, in_domain, push_bytes, push_text, utf8};
use crate::ontology::{identifier, identifier_refusal, validate_identifier};
use crate::signature_verification::{digest_refusal, validate_prefixed_digest};
use crate::text::{decimal, decimal_text, opt_str, quote, quoted, same};
use vstd::prelude::*;

verus! {

/// What a checkpoint of a class does.
pub open spec fn effect_word(class: CheckpointClass) -> Seq<char> {
    match class {
        CheckpointClass::Compensating => "apply_target"@,
        CheckpointClass::Reversible => "revalidate"@,
        CheckpointClass::Irreversible => "revalidate"@,
    }
}

/// What a checkpoint of a class does: a compensating one applies the target
/// release, the others revalidate the pinned releases.
pub fn checkpoint_effect(class: CheckpointClass) -> (effect: &'static str)
    ensures
        effect@ == effect_word(class),
{
    match class {
        CheckpointClass::Compensating => "apply_target",
        CheckpointClass::Reversible => "revalidate",
        CheckpointClass::Irreversible => "revalidate",
    }
}

/// A pin with identifiers and a recorded digest.
pub open spec fn valid_pin(pin: PinModel) -> bool {
    identifier(pin.product) && identifier(pin.version) && is_digest(pin.digest)
}

/// Why a pin is refused.
pub open spec fn pin_refusal(pin: PinModel, label: Seq<char>) -> Option<Seq<char>> {
    first_refusal(
        identifier_refusal(label + " product"@, pin.product),
        first_refusal(
            identifier_refusal(label + " version"@, pin.version),
            digest_refusal(label + " digest"@, pin.digest),
        ),
    )
}

impl PackagePin {
    /// Accept a pin with identifiers and a recorded digest.
    pub fn validate(&self, label: &str) -> (result: Result<(), Error>)
        ensures
            refusal(result) == pin_refusal(self@, label@),
            result is Ok <==> valid_pin(self@),
    {
        let mut product = label.to_owned();
        product.append(" product");
        match validate_identifier(product.as_str(), self.product.as_str()) {
            Err(error) => return Err(error),
            Ok(_) => {},
        }
        let mut version = label.to_owned();
        version.append(" version");
        match validate_identifier(version.as_str(), self.version.as_str()) {
            Err(error) => return Err(error),
            Ok(_) => {},
        }
        let mut digest = label.to_owned();
        digest.append(" digest");
        validate_prefixed_digest(digest.as_str(), self.digest.as_str())
    }
}

/// The handling that an irreversible checkpoint must declare, and no other
/// may.
pub open spec fn handling_ok(checkpoint: CheckpointModel) -> bool {
    if checkpoint.class == CheckpointClass::Irreversible {
        checkpoint.pre_admission == Some("require_backup_receipt"@)
    } else {
        checkpoint.pre_admission is None
    }
}

/// An earlier checkpoint has the same id.
pub open spec fn id_taken(earlier: Seq<CheckpointModel>, id: Seq<char>) -> bool {
    exists|i: int| 0 <= i < earlier.len() && (#[trigger] earlier[i]).id == id
}

/// Why a checkpoint is refused behind the earlier ones.
pub open spec fn checkpoint_refusal(
    earlier: Seq<CheckpointModel>,
    checkpoint: CheckpointModel,
) -> Option<Seq<char>> {
    let id = identifier_refusal("checkpoint id"@, checkpoint.id);
    if id is Some {
        id
    } else if id_taken(earlier, checkpoint.id) {
        Some("duplicate checkpoint id "@ + checkpoint.id)
    } else if handling_ok(checkpoint) {
        None
    } else if checkpoint.class == CheckpointClass::Irreversible {
        match checkpoint.pre_admission {
            None => Some(
                "irreversible checkpoint "@ + checkpoint.id
                    + " requires explicit pre-admission handling"@,
            ),
            Some(handling) => Some(
                "unknown irreversible pre-admission "@ + quoted(handling) + " on checkpoint "@
                    + checkpoint.id,
            ),
        }
    } else {
        Some(
            "checkpoint "@ + checkpoint.id
                + " is not irreversible and cannot declare pre-admission handling"@,
        )
    }
}

/// Why a list of checkpoints is refused: the refusal of the first that is.
pub open spec fn checkpoints_refusal(list: Seq<CheckpointModel>) -> Option<Seq<char>>
    decreases list.len(),
{
    if list.len() == 0 {
        None
    } else {
        first_refusal(
            checkpoints_refusal(list.drop_last()),
            checkpoint_refusal(list.drop_last(), list.last()),
        )
    }
}

/// Checkpoints with distinct identifiers and the handling of their class.
pub open spec fn valid_checkpoints(list: Seq<CheckpointModel>) -> bool {
    &&& forall|i: int| 0 <= i < list.len() ==> identifier((#[trigger] list[i]).id)
    &&& forall|i: int| 0 <= i < list.len() ==> handling_ok(#[trigger] list[i])
    &&& forall|i: int, j: int|
        0 <= i < j < list.len() ==> (#[trigger] list[i]).id != (#[trigger] list[j]).id
}

proof fn lemma_checkpoints_stop(list: Seq<CheckpointModel>, at: int)
    requires
        0 <= at < list.len(),
        checkpoints_refusal(list.take(at + 1)) is Some,
    ensures
        checkpoints_refusal(list) == checkpoints_refusal(list.take(at + 1)),
    decreases list.len() - at,
{
    if at + 1 == list.len() {
        assert(list.take(at + 1) =~= list);
    } else {
        assert(list.take(at + 2).drop_last() =~= list.take(at + 1));
        lemma_checkpoints_stop(list, at + 1);
    }
}

proof fn lemma_checkpoints_valid(list: Seq<CheckpointModel>)
    ensures
        checkpoints_refusal(list) is None <==> valid_checkpoints(list),
    decreases list.len(),
{
    if list.len() > 0 {
        let before = list.drop_last();
        lemma_checkpoints_valid(before);
        if checkpoints_refusal(list) is None {
            assert forall|i: int, j: int| 0 <= i < j < list.len() implies (#[trigger] list[i]).id
                != (#[trigger] list[j]).id by {
                assert(before[i] == list[i]);
                if j < before.len() {
                    assert(before[j] == list[j]);
                }
            }
            assert forall|i: int| 0 <= i < list.len() implies identifier((#[trigger] list[i]).id)
                && handling_ok(list[i]) by {
                if i < before.len() {
                    assert(before[i] == list[i]);
                }
            }
        }
        if valid_checkpoints(list) {
            assert forall|i: int| 0 <= i < before.len() implies identifier(
                (#[trigger] before[i]).id,
            ) && handling_ok(before[i]) && before[i].id != list.last().id by {
                assert(before[i] == list[i]);
                assert(list[i].id != list[list.len() - 1].id);
            }
            assert forall|i: int, j: int| 0 <= i < j < before.len() implies (
            #[trigger] before[i]).id != (#[trigger] before[j]).id by {
                assert(before[i] == list[i]);
                assert(before[j] == list[j]);
            }
            assert(list.last() == list[list.len() - 1]);
        }
    }
}

/// Why a declaration is refused.
pub open spec fn declaration_refusal(d: DeclarationModel) -> Option<Seq<char>> {
    let source = pin_refusal(d.source, "source"@);
    let target = pin_refusal(d.target, "target"@);
    let evidence = digest_refusal(
        "compatibility evidence digest"@,
        d.compatibility.evidence_digest,
    );
    if d.version != MIGRATION_DOCUMENT_VERSION {
        Some(
            "unsupported package migration version "@ + decimal(d.version as nat) + "; expected "@
                + "1"@,
        )
    } else if d.profile != MIGRATION_PROFILE@ {
        Some(
            "unknown package migration profile "@ + quoted(d.profile) + "; expected "@
                + MIGRATION_PROFILE@,
        )
    } else if source is Some {
        source
    } else if target is Some {
        target
    } else if d.source == d.target {
        Some("package migration source and target must differ"@)
    } else if d.source.product != d.target.product {
        Some("package migration source and target must name the same product"@)
    } else if d.compatibility.version != COMPATIBILITY_VERSION {
        Some(
            "unsupported compatibility evidence version "@ + decimal(
                d.compatibility.version as nat,
            ) + "; expected "@ + "1"@,
        )
    } else if evidence is Some {
        evidence
    } else if d.checkpoints.len() == 0 {
        Some("package migration must declare at least one checkpoint"@)
    } else {
        checkpoints_refusal(d.checkpoints)
    }
}

/// A declaration that can be stored: supported versions, two different
/// releases of one product, recorded evidence, and at least one checkpoint,
/// all with distinct identifiers and the handling of their class.
pub open spec fn valid_declaration(d: DeclarationModel) -> bool {
    &&& d.version == MIGRATION_DOCUMENT_VERSION
    &&& d.profile == MIGRATION_PROFILE@
    &&& valid_pin(d.source)
    &&& valid_pin(d.target)
    &&& d.source != d.target
    &&& d.source.product == d.target.product
    &&& d.compatibility.version == COMPATIBILITY_VERSION
    &&& is_digest(d.compatibility.evidence_digest)
    &&& d.checkpoints.len() > 0
    &&& valid_checkpoints(d.checkpoints)
}

fn check_checkpoint(list: &Vec<CheckpointDecl>, at: usize) -> (result: Result<(), Error>)
    requires
        at < list.len(),
    ensures
        refusal(result) == checkpoint_refusal(
            checkpoint_models(list@).take(at as int),
            list@[at as int]@,
        ),
{
    let ghost earlier = checkpoint_models(list@).take(at as int);
    let checkpoint = &list[at];
    match validate_identifier("checkpoint id", checkpoint.id.as_str()) {
        Err(error) => return Err(error),
        Ok(_) => {},
    }
    let mut i: usize = 0;
    while i < at
        invariant
            i <= at,
            at < list.len(),
            identifier(checkpoint@.id),
            checkpoint@ == list@[at as int]@,
            earlier == checkpoint_models(list@).take(at as int),
            forall|k: int| 0 <= k < i ==> (#[trigger] earlier[k]).id != checkpoint@.id,
        decreases at - i,
    {
        assert(earlier[i as int] == list@[i as int]@);
        if same(&list[i].id, &checkpoint.id) {
            let mut message = "duplicate checkpoint id ".to_owned();
            message.append(checkpoint.id.as_str());
            return Err(Error::new(message));
        }
        i = i + 1;
    }
    assert(!id_taken(earlier, checkpoint@.id));
    match checkpoint.class {
        CheckpointClass::Irreversible => match &checkpoint.pre_admission {
            None => {
                let mut message = "irreversible checkpoint ".to_owned();
                message.append(checkpoint.id.as_str());
                message.append(" requires explicit pre-admission handling");
                Err(Error::new(message))
            },
            Some(handling) => {
                if same(handling, "require_backup_receipt") {
                    Ok(())
                } else {
                    let mut message = "unknown irreversible pre-admission ".to_owned();
                    message.append(quote(handling.as_str()).as_str());
                    message.append(" on checkpoint ");
                    message.append(checkpoint.id.as_str());
                    Err(Error::new(message))
                }
            },
        },
        _ => {
            if checkpoint.pre_admission.is_some() {
                let mut message = "checkpoint ".to_owned();
                message.append(checkpoint.id.as_str());
                message.append(" is not irreversible and cannot declare pre-admission handling");
                Err(Error::new(message))
            } else {
                Ok(())
            }
        },
    }
}

/// Two pins say the same.
pub fn same_pin(left: &PackagePin, right: &PackagePin) -> (answer: bool)
    ensures
        answer == (left@ == right@),
{
    same(&left.product, &right.product) && same(&left.version, &right.version) && same(
        &left.digest,
        &right.digest,
    )
}

/// The bytes whose digest identifies a migration.
pub open spec fn identity_bytes(
    environment: Seq<char>,
    canonical: Seq<u8>,
    backup: Option<Seq<char>>,
) -> Seq<u8> {
    domain("TENKAI-PACKAGE-MIGRATION-V1"@) + (frame(utf8(environment)) + frame(canonical) + frame(
        utf8(
            match backup {
                Some(digest) => digest,
                None => ""@,
            },
        ),
    ))
}

/// Why a backup receipt digest is refused.
pub open spec fn backup_refusal(backup: Option<Seq<char>>) -> Option<Seq<char>> {
    match backup {
        Some(digest) => digest_refusal("backup receipt digest"@, digest),
        None => None,
    }
}

impl MigrationDeclaration {
    /// Accept a declaration that can be stored.
    pub fn validate(&self) -> (result: Result<(), Error>)
        ensures
            refusal(result) == declaration_refusal(self@),
            result is Ok <==> valid_declaration(self@),
    {
        proof {
            lemma_checkpoints_valid(self@.checkpoints);
        }
        if self.version != MIGRATION_DOCUMENT_VERSION {
            let mut message = "unsupported package migration version ".to_owned();
            message.append(decimal_text(self.version as u64).as_str());
            message.append("; expected ");
            message.append("1");
            return Err(Error::new(message));
        }
        if !same(&self.profile, MIGRATION_PROFILE) {
            let mut message = "unknown package migration profile ".to_owned();
            message.append(quote(self.profile.as_str()).as_str());
            message.append("; expected ");
            message.append(MIGRATION_PROFILE);
            return Err(Error::new(message));
        }
        match self.source.validate("source") {
            Err(error) => return Err(error),
            Ok(_) => {},
        }
        match self.target.validate("target") {
            Err(error) => return Err(error),
            Ok(_) => {},
        }
        if same_pin(&self.source, &self.target) {
            return Err(Error::fixed("package migration source and target must differ"));
        }
        if !same(&self.source.product, &self.target.product) {
            return Err(
                Error::fixed("package migration source and target must name the same product"),
            );
        }
        if self.compatibility.version != COMPATIBILITY_VERSION {
            let mut message = "unsupported compatibility evidence version ".to_owned();
            message.append(decimal_text(self.compatibility.version as u64).as_str());
            message.append("; expected ");
            message.append("1");
            return Err(Error::new(message));
        }
        match validate_prefixed_digest(
            "compatibility evidence digest",
            self.compatibility.evidence_digest.as_str(),
        ) {
            Err(error) => return Err(error),
            Ok(_) => {},
        }
        assert(self@.checkpoints.len() == self.checkpoints@.len());
        if self.checkpoints.len() == 0 {
            return Err(Error::fixed("package migration must declare at least one checkpoint"));
        }
        self.check_checkpoints()
    }

    fn check_checkpoints(&self) -> (result: Result<(), Error>)
        ensures
            refusal(result) == checkpoints_refusal(self@.checkpoints),
    {
        let ghost models = self@.checkpoints;
        let mut i: usize = 0;
        assert(models.take(0) =~= Seq::<CheckpointModel>::empty());
        while i < self.checkpoints.len()
            invariant
                i <= self.checkpoints.len(),
                models == checkpoint_models(self.checkpoints@),
                checkpoints_refusal(models.take(i as int)) is None,
            decreases self.checkpoints.len() - i,
        {
            assert(models[i as int] == self.checkpoints@[i as int]@);
            assert(models.take(i + 1).drop_last() =~= models.take(i as int));
            assert(models.take(i + 1).last() == self.checkpoints@[i as int]@);
            match check_checkpoint(&self.checkpoints, i) {
                Err(error) => {
                    proof {
                        lemma_checkpoints_stop(models, i as int);
                    }
                    return Err(error);
                },
                Ok(_) => {},
            }
            i = i + 1;
        }
        assert(models.take(i as int) =~= models);
        Ok(())
    }

    /// The digest that identifies a migration of an environment. `canonical`
    /// is the serialized form of this declaration.
    pub fn identity_digest(
        &self,
        environment: &str,
        backup_receipt_digest: Option<&str>,
        canonical: &[u8],
    ) -> (result: Result<String, Error>)
        ensures
            refusal(result) == first_refusal(
                declaration_refusal(self@),
                backup_refusal(opt_str(backup_receipt_digest)),
            ),
            result matches Ok(digest) ==> digest@ == prefixed_digest(
                identity_bytes(environment@, canonical@, opt_str(backup_receipt_digest)),
            ),
    {
        match self.validate() {
            Err(error) => return Err(error),
            Ok(_) => {},
        }
        let backup = match backup_receipt_digest {
            Some(digest) => {
                match validate_prefixed_digest("backup receipt digest", digest) {
                    Err(error) => return Err(error),
                    Ok(_) => {},
                }
                digest
            },
            None => "",
        };
        let mut bytes: Vec<u8> = Vec::new();
        push_text(&mut bytes, environment);
        push_bytes(&mut bytes, canonical);
        push_text(&mut bytes, backup);
        assert(bytes@ =~= frame(utf8(environment@)) + frame(canonical@) + frame(utf8(backup@)));
        let framed = in_domain("TENKAI-PACKAGE-MIGRATION-V1", bytes.as_slice());
        Ok(digest_of(framed.as_slice()))
    }
}

/// A declaration can be stored if and only if it is of the first version and the
/// known profile, takes one product from one release to another, rests on
/// recorded evidence of the first version, and declares at least one checkpoint,
/// each under an identifier of its own; the irreversible ones, and only they,
/// ask for a backup.
pub proof fn declarations_that_can_be_stored(
    declaration: &MigrationDeclaration,
    result: Result<(), Error>,
)
    requires
        call_ensures(MigrationDeclaration::validate, (declaration,), result),
    ensures
        result is Ok <==> {
            let d = declaration@;
            &&& d.version == 1
            &&& d.profile == "tenkai.package_migration.v1"@
            &&& identifier(d.source.product)
            &&& identifier(d.source.version)
            &&& is_digest(d.source.digest)
            &&& identifier(d.target.version)
            &&& is_digest(d.target.digest)
            &&& d.source.product == d.target.product
            &&& d.source.version != d.target.version || d.source.digest != d.target.digest
            &&& d.compatibility.version == 1
            &&& is_digest(d.compatibility.evidence_digest)
            &&& d.checkpoints.len() > 0
            &&& forall|i: int| 0 <= i < d.checkpoints.len() ==> identifier(
                (#[trigger] d.checkpoints[i]).id,
            )
            &&& forall|i: int|
                0 <= i < d.checkpoints.len() ==> ((#[trigger] d.checkpoints[i]).class
                    == CheckpointClass::Irreversible ==> d.checkpoints[i].pre_admission == Some(
                    "require_backup_receipt"@,
                ))
            &&& forall|i: int|
                0 <= i < d.checkpoints.len() ==> ((#[trigger] d.checkpoints[i]).class
                    != CheckpointClass::Irreversible ==> d.checkpoints[i].pre_admission is None)
            &&& forall|i: int, j: int|
                0 <= i < j < d.checkpoints.len() ==> (#[trigger] d.checkpoints[i]).id != (
                #[trigger] d.checkpoints[j]).id
        },
{
    let d = declaration@;
    if result is Ok {
        assert forall|i: int| 0 <= i < d.checkpoints.len() implies handling_ok(
            #[trigger] d.checkpoints[i],
        ) by {};
    }
    if d.source == d.target {
        assert(d.source.version == d.target.version);
    }
}

/// A pin is valid if and only if it names a product and a version by
/// identifiers, and a recorded digest.
pub proof fn valid_pins(pin: &PackagePin, label: &str, result: Result<(), Error>)
    requires
        call_ensures(PackagePin::validate, (pin, label), result),
    ensures
        result is Ok <==> identifier(pin.product@) && identifier(pin.version@) && is_digest(
            pin.digest@,
        ),
{
}

/// Only a compensating checkpoint applies the target; the others look at the
/// pinned releases again.
pub proof fn checkpoint_effects(class: CheckpointClass, effect: &'static str)
    requires
        call_ensures(checkpoint_effect, (class,), effect),
    ensures
        class == CheckpointClass::Compensating ==> effect@ == "apply_target"@,
        class != CheckpointClass::Compensating ==> effect@ == "revalidate"@,
{
}

/// The identity of a migration binds its environment, its declaration and its
/// backup: the bytes whose digest it is determine all three.
pub proof fn identity_binds_the_migration(
    environment: Seq<char>,
    canonical: Seq<u8>,
    backup: Option<Seq<char>>,
    other_environment: Seq<char>,
    other_canonical: Seq<u8>,
    other_backup: Option<Seq<char>>,
)
    requires
        identity_bytes(environment, canonical, backup) == identity_bytes(
            other_environment,
            other_canonical,
            other_backup,
        ),
        crate::framing::frameable(utf8(environment)),
        crate::framing::frameable(utf8(other_environment)),
        crate::framing::frameable(canonical),
        crate::framing::frameable(other_canonical),
        backup matches Some(digest) ==> is_digest(digest),
        other_backup matches Some(digest) ==> is_digest(digest),
    ensures
        environment == other_environment,
        canonical == other_canonical,
        backup == other_backup,
{
    reveal_strlit("");
    reveal_strlit("sha256:");
    let start = domain("TENKAI-PACKAGE-MIGRATION-V1"@);
    let left = match backup {
        Some(digest) => digest,
        None => ""@,
    };
    let right = match other_backup {
        Some(digest) => digest,
        None => ""@,
    };
    crate::framing::lemma_utf8_length(left);
    crate::framing::lemma_utf8_length(right);
    lemma_three_frames(
        start,
        utf8(environment),
        canonical,
        utf8(left),
        utf8(other_environment),
        other_canonical,
        utf8(right),
    );
    crate::framing::lemma_utf8_injective(environment, other_environment);
    crate::framing::lemma_utf8_injective(left, right);
}

proof fn lemma_regrouped(p: Seq<u8>, x: Seq<u8>, y: Seq<u8>, z: Seq<u8>)
    ensures
        p + (x + y + z) == p + x + (y + z),
        Seq::<u8>::empty() + y + z == y + z,
        Seq::<u8>::empty() + z + Seq::<u8>::empty() == z,
{
}

proof fn lemma_three_frames(
    p: Seq<u8>,
    a: Seq<u8>,
    b: Seq<u8>,
    c: Seq<u8>,
    d: Seq<u8>,
    e: Seq<u8>,
    f: Seq<u8>,
)
    requires
        p + (frame(a) + frame(b) + frame(c)) == p + (frame(d) + frame(e) + frame(f)),
        crate::framing::frameable(a),
        crate::framing::frameable(b),
        crate::framing::frameable(c),
        crate::framing::frameable(d),
        crate::framing::frameable(e),
        crate::framing::frameable(f),
    ensures
        a == d,
        b == e,
        c == f,
{
    let none = Seq::<u8>::empty();
    lemma_regrouped(p, frame(a), frame(b), frame(c));
    lemma_regrouped(p, frame(d), frame(e), frame(f));
    crate::framing::lemma_frame_cancel(p, a, d, frame(b) + frame(c), frame(e) + frame(f));
    crate::framing::lemma_frame_cancel(none, b, e, frame(c), frame(f));
    crate::framing::lemma_frame_cancel(none, c, f, none, none);
}

} // verus!
