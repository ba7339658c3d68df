//! What a checkpoint checks and the plan step that it applies.
use super::admission::{catalog_digest, catalog_digest_text, published_refusal, require_package_pin};
use super::compensate::require_plan_succeeded;
use super::types::{
    CompatibilityStatus, MigrationAuthorization, MigrationRecord, PackagePin, PinModel, RecordModel,
};
use crate::error::{first_refusal, refusal, refuse_unless, Error};
use crate::graph::Object;
use crate::ontology::{release_id, release_id_text};
use crate::plan::convergence::{deployed_of, deployed_version};
use crate::plan::{Action, PlanState, ReleasePin, ReleasePinModel, Step, StepModel};
use crate::signature_verification::digest_refusal;
use crate::text::{opt_str, opt_text, same};
use vstd::prelude::*;

verus! {

/// Why the pinned releases of a record no longer hold.
pub open spec fn revalidation_refusal(
    record: RecordModel,
    source: Option<Seq<char>>,
    target: Option<Seq<char>>,
    deployed: Option<Seq<char>>,
    recalled: bool,
) -> Option<Seq<char>> {
    let d = record.declaration;
    let bad_source = published_refusal(d.source, source);
    let bad_target = published_refusal(d.target, target);
    if d.compatibility.status != CompatibilityStatus::Compatible {
        Some("package migration compatibility evidence is not compatible"@)
    } else if bad_source is Some {
        bad_source
    } else if bad_target is Some {
        bad_target
    } else if deployed != Some(d.source.version) && deployed != Some(d.target.version) {
        Some(
            "package migration "@ + record.name + " requires "@ + d.source.product
                + " to be at source "@ + d.source.version + " or target "@ + d.target.version,
        )
    } else {
        refuse_unless(
            !recalled,
            "package migration cannot use a recalled source or target release"@,
        )
    }
}

/// Check that the evidence, the pinned releases and the deployed version of a
/// record still hold.
pub fn revalidate_pins(
    record: &MigrationRecord,
    source: Option<&str>,
    target: Option<&str>,
    deployed: Option<&str>,
    recalled: bool,
) -> (result: Result<(), Error>)
    ensures
        refusal(result) == revalidation_refusal(
            record@,
            opt_str(source),
            opt_str(target),
            opt_str(deployed),
            recalled,
        ),
{
    let declaration = &record.declaration;
    if declaration.compatibility.status != CompatibilityStatus::Compatible {
        return Err(Error::fixed("package migration compatibility evidence is not compatible"));
    }
    match require_package_pin(&declaration.source, source) {
        Err(error) => return Err(error),
        Ok(_) => {},
    }
    match require_package_pin(&declaration.target, target) {
        Err(error) => return Err(error),
        Ok(_) => {},
    }
    let placed = match deployed {
        Some(version) => same(version, &declaration.source.version) || same(
            version,
            &declaration.target.version,
        ),
        None => false,
    };
    if !placed {
        let mut message = "package migration ".to_owned();
        message.append(record.name.as_str());
        message.append(" requires ");
        message.append(declaration.source.product.as_str());
        message.append(" to be at source ");
        message.append(declaration.source.version.as_str());
        message.append(" or target ");
        message.append(declaration.target.version.as_str());
        return Err(Error::new(message));
    }
    if recalled {
        return Err(
            Error::fixed("package migration cannot use a recalled source or target release"),
        );
    }
    Ok(())
}

/// A release as the catalog describes it.
#[derive(Debug, PartialEq, Eq)]
pub struct ReleaseDescriptor {
    pub release_id: String,
    pub manifest_digest: String,
    pub artifact_digest: String,
    pub content_path: String,
}

/// What a release descriptor pins.
pub open spec fn descriptor_pin(descriptor: ReleaseDescriptor) -> ReleasePinModel {
    ReleasePinModel {
        release_id: descriptor.release_id@,
        digest: descriptor.manifest_digest@,
        artifact_digest: descriptor.artifact_digest@,
        workdir: descriptor.content_path@,
    }
}

/// The version of a product that a step towards a pin starts from, where one
/// is deployed.
pub fn deployed_pin(environment: &Object, product: &str) -> (version: Option<String>)
    ensures
        opt_text(version) == (match deployed_version(*environment, product@) {
            Some(text) => if text.len() > 0 {
                Some(text)
            } else {
                None
            },
            None => None,
        }),
{
    match deployed_of(environment, product) {
        Some(version) => if version.as_str().unicode_len() > 0 {
            Some(version)
        } else {
            None
        },
        None => None,
    }
}

/// The release that a step towards a pin restores on failure: the deployed
/// one, or the source where nothing is deployed.
pub open spec fn restore_id_text(
    record: RecordModel,
    pin: PinModel,
    deployed: Option<Seq<char>>,
) -> Seq<char> {
    match deployed {
        Some(version) => release_id_text(pin.product, version),
        None => release_id_text(
            record.declaration.source.product,
            record.declaration.source.version,
        ),
    }
}

/// The release that a step towards a pin restores on failure.
pub fn restore_release_id(
    record: &MigrationRecord,
    pin: &PackagePin,
    deployed: Option<&str>,
) -> (id: String)
    ensures
        id@ == restore_id_text(record@, pin@, opt_str(deployed)),
{
    match deployed {
        Some(version) => release_id(pin.product.as_str(), version),
        None => release_id(
            record.declaration.source.product.as_str(),
            record.declaration.source.version.as_str(),
        ),
    }
}

/// What a step towards a pin does from a deployed version.
pub open spec fn pin_action(pin: PinModel, deployed: Option<Seq<char>>) -> Action {
    match deployed {
        None => Action::Install,
        Some(version) => if version == pin.version {
            Action::Restart
        } else {
            Action::Upgrade
        },
    }
}

/// Why the catalog's description of a pin's release is refused.
pub open spec fn descriptor_refusal(pin: PinModel, manifest_digest: Seq<char>) -> Option<
    Seq<char>,
> {
    first_refusal(
        digest_refusal("catalog release digest"@, catalog_digest_text(manifest_digest)),
        refuse_unless(
            catalog_digest_text(manifest_digest) == pin.digest,
            "release "@ + release_id_text(pin.product, pin.version) + " digest "@
                + catalog_digest_text(manifest_digest) + " does not match migration pin "@
                + pin.digest,
        ),
    )
}

/// The step that brings an environment to a pinned release. `deployed` is the
/// deployed version, where it is not empty, and `restore` the release to go
/// back to.
pub fn pin_step(
    pin: &PackagePin,
    descriptor: &ReleaseDescriptor,
    deployed: Option<&str>,
    restore: &ReleaseDescriptor,
) -> (result: Result<Step, Error>)
    ensures
        refusal(result) == descriptor_refusal(pin@, descriptor.manifest_digest@),
        result matches Ok(step) ==> step@ == (StepModel {
            id: ""@,
            order: 0,
            product: pin@.product,
            action: pin_action(pin@, opt_str(deployed)),
            from: opt_str(deployed),
            to: pin@.version,
            release_id: descriptor.release_id@,
            release_digest: descriptor.manifest_digest@,
            artifact_digest: descriptor.artifact_digest@,
            workdir: descriptor.content_path@,
            restore: Some(descriptor_pin(*restore)),
        }),
{
    let stored = match catalog_digest(descriptor.manifest_digest.as_str()) {
        Err(error) => return Err(error),
        Ok(digest) => digest,
    };
    if !same(&stored, &pin.digest) {
        let mut message = "release ".to_owned();
        message.append(release_id(pin.product.as_str(), pin.version.as_str()).as_str());
        message.append(" digest ");
        message.append(stored.as_str());
        message.append(" does not match migration pin ");
        message.append(pin.digest.as_str());
        return Err(Error::new(message));
    }
    let action = match deployed {
        None => Action::Install,
        Some(version) => {
            if same(version, &pin.version) {
                Action::Restart
            } else {
                Action::Upgrade
            }
        },
    };
    let from = match deployed {
        Some(version) => Some(version.to_owned()),
        None => None,
    };
    Ok(
        Step {
            id: "".to_owned(),
            order: 0,
            product: pin.product.clone(),
            action,
            from,
            to: pin.version.clone(),
            release_id: descriptor.release_id.clone(),
            release_digest: descriptor.manifest_digest.clone(),
            artifact_digest: descriptor.artifact_digest.clone(),
            workdir: descriptor.content_path.clone(),
            restore: Some(
                ReleasePin {
                    release_id: restore.release_id.clone(),
                    digest: restore.manifest_digest.clone(),
                    artifact_digest: restore.artifact_digest.clone(),
                    workdir: restore.content_path.clone(),
                },
            ),
        },
    )
}

/// Whether the plan of a pin can be applied.
#[derive(Debug, Clone, Copy, PartialEq, Eq, Structural)]
pub enum PinStart {
    Apply,
    AwaitApproval,
}

/// Whether the plan of a pin can be applied: under a signed authorization it
/// waits until its own signed approval is there.
pub fn pin_start(authorization: &MigrationAuthorization<'_>, approval_present: bool) -> (start:
    PinStart)
    ensures
        start == (if authorization is Signed && !approval_present {
            PinStart::AwaitApproval
        } else {
            PinStart::Apply
        }),
{
    match authorization {
        MigrationAuthorization::LocalDevelopment { .. } => PinStart::Apply,
        MigrationAuthorization::Signed { .. } => if approval_present {
            PinStart::Apply
        } else {
            PinStart::AwaitApproval
        },
    }
}

/// Settle the application of a plan: `applied` is the state in which it ended,
/// or why it could not be applied. An accepted plan is handed back.
pub fn settle_application(plan_id: &str, applied: Result<PlanState, Error>) -> (result: Result<
    String,
    Error,
>)
    ensures
        refusal(result) == (match applied {
            Err(error) => Some(error@),
            Ok(state) => refuse_unless(
                state == PlanState::Succeeded,
                "package migration plan "@ + plan_id@ + " ended in "@ + state.word(),
            ),
        }),
        result matches Ok(accepted) ==> accepted@ == plan_id@,
{
    match applied {
        Err(error) => Err(error),
        Ok(state) => match require_plan_succeeded(plan_id, state) {
            Err(error) => Err(error),
            Ok(_) => Ok(plan_id.to_owned()),
        },
    }
}

/// The pinned releases still hold if and only if the evidence says compatible,
/// both are published with their digests, the product is at the source or the
/// target, and neither was recalled.
pub proof fn pins_that_still_hold(
    record: &MigrationRecord,
    source: Option<&str>,
    target: Option<&str>,
    deployed: Option<&str>,
    recalled: bool,
    result: Result<(), Error>,
)
    requires
        call_ensures(revalidate_pins, (record, source, target, deployed, recalled), result),
    ensures
        result is Ok <==> {
            let d = record.declaration;
            &&& d.compatibility.status == CompatibilityStatus::Compatible
            &&& published_refusal(d.source@, opt_str(source)) is None
            &&& published_refusal(d.target@, opt_str(target)) is None
            &&& deployed is Some && (deployed->0@ == d.source.version@ || deployed->0@
                == d.target.version@)
            &&& !recalled
        },
{
}

/// The step towards a pin installs it where nothing is deployed, restarts it
/// where it is deployed, and replaces what is deployed otherwise; it brings the
/// release of the pin, and can go back. It is made only for a release with the
/// digest of the pin.
pub proof fn steps_towards_a_pin(
    pin: &PackagePin,
    descriptor: &ReleaseDescriptor,
    deployed: Option<&str>,
    restore: &ReleaseDescriptor,
    result: Result<Step, Error>,
)
    requires
        call_ensures(pin_step, (pin, descriptor, deployed, restore), result),
    ensures
        result is Ok ==> catalog_digest_text(descriptor.manifest_digest@) == pin.digest@,
        catalog_digest_text(descriptor.manifest_digest@) == pin.digest@ && crate::crypto::is_digest(
            pin.digest@,
        ) ==> result is Ok,
        result matches Ok(step) ==> {
            &&& step.product@ == pin.product@
            &&& step.to@ == pin.version@
            &&& opt_text(step.from) == opt_str(deployed)
            &&& deployed is None ==> step.action == Action::Install
            &&& deployed is Some && deployed->0@ == pin.version@ ==> step.action == Action::Restart
            &&& deployed is Some && deployed->0@ != pin.version@ ==> step.action == Action::Upgrade
            &&& step.release_id@ == descriptor.release_id@
            &&& step.release_digest@ == descriptor.manifest_digest@
            &&& step.artifact_digest@ == descriptor.artifact_digest@
            &&& step.workdir@ == descriptor.content_path@
            &&& step.restore matches Some(back) && back.release_id@ == restore.release_id@
                && back.digest@ == restore.manifest_digest@ && back.artifact_digest@
                == restore.artifact_digest@ && back.workdir@ == restore.content_path@
        },
{
}

/// A step goes back to what is deployed, and to the source where nothing is.
pub proof fn steps_go_back(
    record: &MigrationRecord,
    pin: &PackagePin,
    deployed: Option<&str>,
    id: String,
)
    requires
        call_ensures(restore_release_id, (record, pin, deployed), id),
    ensures
        deployed matches Some(version) ==> id@ == release_id_text(pin.product@, version@),
        deployed is None ==> id@ == release_id_text(
            record.declaration.source.product@,
            record.declaration.source.version@,
        ),
{
}

/// A plan of a pin waits if and only if the authorization is signed and its own
/// approval is missing.
pub proof fn signed_plans_wait_for_approval(
    authorization: &MigrationAuthorization<'_>,
    approval_present: bool,
    start: PinStart,
)
    requires
        call_ensures(pin_start, (authorization, approval_present), start),
    ensures
        start == PinStart::AwaitApproval <==> authorization is Signed && !approval_present,
        start == PinStart::Apply <==> authorization is LocalDevelopment || approval_present,
{
}

/// A plan was applied if and only if it ended in success.
pub proof fn applied_plans_succeeded(
    plan_id: &str,
    applied: Result<PlanState, Error>,
    result: Result<String, Error>,
)
    requires
        call_ensures(settle_application, (plan_id, applied), result),
    ensures
        result is Ok <==> applied == Ok::<PlanState, Error>(PlanState::Succeeded),
        result matches Ok(accepted) ==> accepted@ == plan_id@,
        applied matches Err(error) ==> result matches Err(reported) && reported@ == error@,
{
}

} // verus!
