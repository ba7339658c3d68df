//! Decisions on the directories that releases are kept and run in.
use crate::error::{first_refusal, refusal, refuse_unless, Error};
use crate::paths::{below, is_in, join_path, lies_in};
use crate::text::same;
use vstd::prelude::*;

verus! {

/// The directory of a release snapshot in a state directory.
pub open spec fn snapshot_path(
    state_dir: Seq<char>,
    manifest_digest: Seq<char>,
    artifact_digest: Seq<char>,
) -> Seq<char> {
    below(below(state_dir, "releases"@), manifest_digest + "-"@ + artifact_digest)
}

/// The directory of a release snapshot. It must not lie in the working
/// directory that it is taken of.
pub fn snapshot_destination(
    source: &str,
    state_dir: &str,
    manifest_digest: &str,
    artifact_digest: &str,
) -> (result: Result<String, Error>)
    ensures
        refusal(result) == refuse_unless(
            !lies_in(snapshot_path(state_dir@, manifest_digest@, artifact_digest@), source@),
            "TENKAI_STATE_DIR must be outside the deployment workdir"@,
        ),
        result matches Ok(path) ==> path@ == snapshot_path(
            state_dir@,
            manifest_digest@,
            artifact_digest@,
        ),
{
    let releases = join_path(state_dir, "releases");
    let mut name = manifest_digest.to_owned();
    name.append("-");
    name.append(artifact_digest);
    let path = join_path(releases.as_str(), name.as_str());
    if is_in(path.as_str(), source) {
        return Err(Error::fixed("TENKAI_STATE_DIR must be outside the deployment workdir"));
    }
    Ok(path)
}

/// The directory in which a release runs for one product of one environment.
pub open spec fn runtime_path(
    state_dir: Seq<char>,
    environment: Seq<char>,
    product: Seq<char>,
    release_key: Seq<char>,
) -> Seq<char> {
    below(below(below(below(state_dir, "runtime"@), environment), product), release_key)
}

/// The directory in which a release runs for one product of one environment.
pub fn runtime_destination(
    state_dir: &str,
    environment: &str,
    product: &str,
    release_key: &str,
) -> (path: String)
    ensures
        path@ == runtime_path(state_dir@, environment@, product@, release_key@),
{
    let runtime = join_path(state_dir, "runtime");
    let environments = join_path(runtime.as_str(), environment);
    let products = join_path(environments.as_str(), product);
    join_path(products.as_str(), release_key)
}

/// What to do with a directory that is already there.
#[derive(Debug, Clone, Copy, PartialEq, Eq, Structural)]
pub enum Reuse {
    /// It holds what is expected.
    Keep,
    /// It must be filled again.
    Refill,
}

/// Whether a directory can be used as it is. `found` is the digest of its
/// inputs, where they have one.
pub fn check_existing(found: Option<&str>, expected: &str) -> (reuse: Reuse)
    ensures
        reuse == (match found {
            Some(digest) => if digest@ == expected@ {
                Reuse::Keep
            } else {
                Reuse::Refill
            },
            None => Reuse::Refill,
        }),
{
    match found {
        Some(digest) => if same(digest, expected) {
            Reuse::Keep
        } else {
            Reuse::Refill
        },
        None => Reuse::Refill,
    }
}

/// Check a directory that was filled.
pub fn check_copy(found: &str, expected: &str, runtime: bool) -> (result: Result<(), Error>)
    ensures
        refusal(result) == refuse_unless(
            found@ == expected@,
            if runtime {
                "runtime deployment-input copy failed integrity verification"@
            } else {
                "versioned deploy-input snapshot failed integrity verification"@
            },
        ),
{
    if same(found, expected) {
        return Ok(());
    }
    if runtime {
        Err(Error::fixed("runtime deployment-input copy failed integrity verification"))
    } else {
        Err(Error::fixed("versioned deploy-input snapshot failed integrity verification"))
    }
}

/// What stands where a parent directory is needed.
#[derive(Debug, Clone, Copy, PartialEq, Eq, Structural)]
pub enum ParentKind {
    Symlink,
    Directory,
    Other,
    Absent,
}

/// What to do about a parent directory.
#[derive(Debug, Clone, Copy, PartialEq, Eq, Structural)]
pub enum ParentStep {
    /// Remove what is there and make the directory.
    Replace,
    Keep,
    Make,
}

/// What to do about a parent directory of a copied input: a link is never
/// followed.
pub fn prepare_parent(kind: ParentKind, label: &str) -> (result: Result<ParentStep, Error>)
    ensures
        refusal(result) == refuse_unless(
            kind != ParentKind::Other,
            "deploy input parent is not a directory: "@ + label@,
        ),
        result matches Ok(step) ==> step == (match kind {
            ParentKind::Symlink => ParentStep::Replace,
            ParentKind::Directory => ParentStep::Keep,
            _ => ParentStep::Make,
        }),
{
    match kind {
        ParentKind::Symlink => Ok(ParentStep::Replace),
        ParentKind::Directory => Ok(ParentStep::Keep),
        ParentKind::Absent => Ok(ParentStep::Make),
        ParentKind::Other => {
            let mut message = "deploy input parent is not a directory: ".to_owned();
            message.append(label);
            Err(Error::new(message))
        },
    }
}

/// Check the resolved parent of a copied input.
pub fn check_destination(root: &str, parent: &str, has_name: bool) -> (result: Result<(), Error>)
    ensures
        refusal(result) == first_refusal(
            refuse_unless(
                lies_in(parent@, root@),
                "deploy input destination escapes the runtime directory"@,
            ),
            refuse_unless(has_name, "deploy input destination has no file name"@),
        ),
{
    if !is_in(parent, root) {
        return Err(Error::fixed("deploy input destination escapes the runtime directory"));
    }
    if !has_name {
        return Err(Error::fixed("deploy input destination has no file name"));
    }
    Ok(())
}

/// A snapshot is never taken into the directory that it is taken of, and lies
/// under both digests of its release.
pub proof fn snapshots_lie_outside(
    source: &str,
    state_dir: &str,
    manifest_digest: &str,
    artifact_digest: &str,
    result: Result<String, Error>,
)
    requires
        call_ensures(
            snapshot_destination,
            (source, state_dir, manifest_digest, artifact_digest),
            result,
        ),
    ensures
        ({
            let path = below(
                below(state_dir@, "releases"@),
                manifest_digest@ + "-"@ + artifact_digest@,
            );
            &&& result is Ok <==> !lies_in(path, source@)
            &&& result matches Ok(taken) ==> taken@ == path
        }),
{
}

/// A directory is used as it is only if its inputs have the expected digest.
pub proof fn directories_that_are_kept(found: Option<&str>, expected: &str, reuse: Reuse)
    requires
        call_ensures(check_existing, (found, expected), reuse),
    ensures
        reuse == Reuse::Keep <==> found is Some && found->0@ == expected@,
        reuse == Reuse::Keep || reuse == Reuse::Refill,
{
}

/// A copy is accepted if and only if it has the expected digest.
pub proof fn copies_that_are_accepted(
    found: &str,
    expected: &str,
    runtime: bool,
    result: Result<(), Error>,
)
    requires
        call_ensures(check_copy, (found, expected, runtime), result),
    ensures
        result is Ok <==> found@ == expected@,
{
}

/// A parent directory is kept, made where there is none, and made anew in place
/// of a link, which is never followed; anything else is refused.
pub proof fn parents_are_directories(
    kind: ParentKind,
    label: &str,
    result: Result<ParentStep, Error>,
)
    requires
        call_ensures(prepare_parent, (kind, label), result),
    ensures
        kind == ParentKind::Other <==> result is Err,
        kind == ParentKind::Symlink <==> result == Ok::<ParentStep, Error>(ParentStep::Replace),
        kind == ParentKind::Directory <==> result == Ok::<ParentStep, Error>(ParentStep::Keep),
        kind == ParentKind::Absent <==> result == Ok::<ParentStep, Error>(ParentStep::Make),
{
}

/// An input is copied only to a named place whose parent lies in the directory.
pub proof fn destinations_lie_inside(
    root: &str,
    parent: &str,
    has_name: bool,
    result: Result<(), Error>,
)
    requires
        call_ensures(check_destination, (root, parent, has_name), result),
    ensures
        result is Ok <==> lies_in(parent@, root@) && has_name,
{
}

} // verus!
