//! Semantic versions and version requirements, as texts.
use crate::error::{refusal, refuse_unless, Error};
use crate::text::{quote, quoted};
use vstd::prelude::*;

verus! {

/// A text is a semantic version.
pub uninterp spec fn version_valid(text: Seq<char>) -> bool;

/// Trusted: `semver::Version::parse` succeeds or fails by the text alone.
#[verifier::external_body]
pub(crate) fn is_version(text: &str) -> (answer: bool)
    ensures
        answer == version_valid(text@),
{
    semver::Version::parse(text).is_ok()
}

/// One semantic version comes before another.
pub uninterp spec fn version_below(left: Seq<char>, right: Seq<char>) -> bool;

/// Trusted: the order of `semver::Version` is a function of the two texts.
/// It is a total order, so two versions are not each before the other, and
/// what comes behind a version comes behind all that are not behind it.
#[verifier::external_body]
pub(crate) fn is_below(left: &str, right: &str) -> (answer: bool)
    requires
        version_valid(left@),
        version_valid(right@),
    ensures
        answer == version_below(left@, right@),
        answer ==> !version_below(right@, left@),
        !answer ==> forall|other: Seq<char>|
            version_valid(other) && #[trigger] version_below(left@, other) ==> version_below(
                right@,
                other,
            ),
{
    let left = semver::Version::parse(left).unwrap();
    let right = semver::Version::parse(right).unwrap();
    left < right
}

/// A text is a version requirement.
pub uninterp spec fn requirement_valid(text: Seq<char>) -> bool;

/// Trusted: `semver::VersionReq::parse` succeeds or fails by the text alone.
#[verifier::external_body]
pub(crate) fn is_requirement(text: &str) -> (answer: bool)
    ensures
        answer == requirement_valid(text@),
{
    semver::VersionReq::parse(text).is_ok()
}

/// Why a product version is refused.
pub open spec fn version_refusal(version: Seq<char>) -> Option<Seq<char>> {
    refuse_unless(
        version_valid(version),
        "product.version "@ + quoted(version) + " is not valid semver"@,
    )
}

/// Check that a product version is a semantic version.
pub fn validate_version(version: &str) -> (result: Result<(), Error>)
    ensures
        refusal(result) == version_refusal(version@),
{
    if !is_version(version) {
        let mut message = "product.version ".to_owned();
        message.append(quote(version).as_str());
        message.append(" is not valid semver");
        return Err(Error::new(message));
    }
    Ok(())
}

/// A product version passes where it is a semantic version.
pub proof fn product_versions_are_semantic(version: &str, result: Result<(), Error>)
    requires
        call_ensures(validate_version, (version,), result),
    ensures
        result is Ok <==> version_valid(version@),
{
}

} // verus!
