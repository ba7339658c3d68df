//! Checks on the approvals that a remote request carries.
use super::approval::{check_roots, roots_refusal};
use super::types::{ApprovalTrustRoots, MIGRATION_API_VERSION};
use crate::error::{first_refusal, refusal, refuse_unless, Error};
use crate::paths::{below, join_path};
use crate::plan_approval::ApprovalEnvelope;
use crate::text::{contains, contains_char, contains_text, decimal, decimal_text};
use crate::text_map::TextMap;
use vstd::prelude::*;

verus! {

/// Accept the supported version of the migration API.
pub fn require_migration_api_version(version: u32) -> (result: Result<(), Error>)
    ensures
        refusal(result) == refuse_unless(
            version == MIGRATION_API_VERSION,
            "unsupported package migration API version "@ + decimal(version as nat)
                + "; expected "@ + "1"@,
        ),
{
    if version != MIGRATION_API_VERSION {
        let mut message = "unsupported package migration API version ".to_owned();
        message.append(decimal_text(version as u64).as_str());
        message.append("; expected ");
        message.append("1");
        return Err(Error::new(message));
    }
    Ok(())
}

/// A text that names a file in a directory and nothing outside it.
pub open spec fn safe_file_name(name: Seq<char>) -> bool {
    !name.contains('/') && !name.contains('\\') && !name.contains('\0') && !contains_text(
        name,
        ".."@,
    )
}

/// Why a plan id cannot name an approval file.
pub open spec fn filename_refusal(plan_id: Seq<char>) -> Option<Seq<char>> {
    if plan_id.len() == 0 {
        Some("package migration plan approval id is empty"@)
    } else if !safe_file_name(plan_id) {
        Some("package migration plan approval id "@ + plan_id + " is not a safe file name"@)
    } else {
        None
    }
}

/// Accept a plan id that can name an approval file.
pub fn validate_plan_approval_filename(plan_id: &str) -> (result: Result<(), Error>)
    ensures
        refusal(result) == filename_refusal(plan_id@),
{
    if plan_id.is_empty() {
        return Err(Error::fixed("package migration plan approval id is empty"));
    }
    if contains_char(plan_id, '/') || contains_char(plan_id, '\\') || contains_char(plan_id, '\0')
        || contains(plan_id, "..") {
        let mut message = "package migration plan approval id ".to_owned();
        message.append(plan_id);
        message.append(" is not a safe file name");
        return Err(Error::new(message));
    }
    Ok(())
}

/// Why the first plan ids of a list cannot name approval files.
pub open spec fn filenames_refusal(plan_ids: Seq<Seq<char>>) -> Option<Seq<char>>
    decreases plan_ids.len(),
{
    if plan_ids.len() == 0 {
        None
    } else {
        first_refusal(filenames_refusal(plan_ids.drop_last()), filename_refusal(plan_ids.last()))
    }
}

proof fn lemma_filenames_stop(plan_ids: Seq<Seq<char>>, at: int)
    requires
        0 <= at < plan_ids.len(),
        filenames_refusal(plan_ids.take(at + 1)) is Some,
    ensures
        filenames_refusal(plan_ids) == filenames_refusal(plan_ids.take(at + 1)),
    decreases plan_ids.len() - at,
{
    if at + 1 == plan_ids.len() {
        assert(plan_ids.take(at + 1) =~= plan_ids);
    } else {
        assert(plan_ids.take(at + 2).drop_last() =~= plan_ids.take(at + 1));
        lemma_filenames_stop(plan_ids, at + 1);
    }
}

/// Check what a remote request carries before any of it is written to disk:
/// usable trust roots, and plan ids that name files in the scratch directory.
pub fn check_remote_approvals(
    trust_roots: &ApprovalTrustRoots,
    plan_approvals: &TextMap<ApprovalEnvelope>,
) -> (result: Result<(), Error>)
    ensures
        refusal(result) == first_refusal(
            roots_refusal(trust_roots@),
            filenames_refusal(plan_approvals.keys()),
        ),
{
    match check_roots(trust_roots) {
        Err(error) => return Err(error),
        Ok(_) => {},
    }
    let ghost keys = plan_approvals.keys();
    let count = plan_approvals.len();
    let mut i: usize = 0;
    assert(keys.take(0) =~= Seq::<Seq<char>>::empty());
    while i < count
        invariant
            i <= count,
            count == keys.len(),
            keys == plan_approvals.keys(),
            roots_refusal(trust_roots@) is None,
            filenames_refusal(keys.take(i as int)) is None,
        decreases count - i,
    {
        assert(keys.take(i + 1).drop_last() =~= keys.take(i as int));
        assert(keys.take(i + 1).last() == keys[i as int]);
        match validate_plan_approval_filename(plan_approvals.key_at(i).as_str()) {
            Err(error) => {
                proof {
                    lemma_filenames_stop(keys, i as int);
                }
                return Err(error);
            },
            Ok(_) => {},
        }
        i = i + 1;
    }
    assert(keys.take(i as int) =~= keys);
    Ok(())
}

/// Where the approvals of a remote request are kept while it runs.
#[derive(Debug, PartialEq, Eq)]
pub struct RemoteApprovalFiles {
    pub dir: String,
    pub approval: String,
    pub trust_roots: String,
}

impl RemoteApprovalFiles {
    /// The files of a request below a scratch directory, once what it carries
    /// is accepted.
    pub fn materialize(
        dir: &str,
        trust_roots: &ApprovalTrustRoots,
        plan_approvals: &TextMap<ApprovalEnvelope>,
    ) -> (result: Result<RemoteApprovalFiles, Error>)
        ensures
            refusal(result) == first_refusal(
                roots_refusal(trust_roots@),
                filenames_refusal(plan_approvals.keys()),
            ),
            result matches Ok(files) ==> {
                &&& files.dir@ == dir@
                &&& files.approval@ == below(dir@, "approval.json"@)
                &&& files.trust_roots@ == below(dir@, "trust.toml"@)
            },
    {
        match check_remote_approvals(trust_roots, plan_approvals) {
            Err(error) => Err(error),
            Ok(_) => Ok(
                RemoteApprovalFiles {
                    dir: dir.to_owned(),
                    approval: join_path(dir, "approval.json"),
                    trust_roots: join_path(dir, "trust.toml"),
                },
            ),
        }
    }

    /// Where the approval of a plan is kept.
    pub fn plan_file(&self, plan_id: &str) -> (path: String)
        ensures
            path@ == below(self.dir@, plan_id@ + ".json"@),
    {
        let mut name = plan_id.to_owned();
        name.append(".json");
        join_path(self.dir.as_str(), name.as_str())
    }
}

/// A plan id names an approval file if and only if it says something and can
/// neither leave the directory nor end the name early.
pub proof fn plan_ids_that_name_files(plan_id: &str, result: Result<(), Error>)
    requires
        call_ensures(validate_plan_approval_filename, (plan_id,), result),
    ensures
        result is Ok <==> {
            &&& plan_id@.len() > 0
            &&& forall|i: int|
                0 <= i < plan_id@.len() ==> #[trigger] plan_id@[i] != '/' && plan_id@[i] != '\\'
                    && plan_id@[i] != '\0'
            &&& !contains_text(plan_id@, ".."@)
        },
{
    let id = plan_id@;
    if id.contains('/') {
        let i = choose|i: int| 0 <= i < id.len() && id[i] == '/';
        assert(id[i] == '/');
    }
    if id.contains('\\') {
        let i = choose|i: int| 0 <= i < id.len() && id[i] == '\\';
        assert(id[i] == '\\');
    }
    if id.contains('\0') {
        let i = choose|i: int| 0 <= i < id.len() && id[i] == '\0';
        assert(id[i] == '\0');
    }
}

proof fn lemma_filenames_each(plan_ids: Seq<Seq<char>>)
    ensures
        filenames_refusal(plan_ids) is None <==> forall|i: int|
            0 <= i < plan_ids.len() ==> filename_refusal(#[trigger] plan_ids[i]) is None,
    decreases plan_ids.len(),
{
    if plan_ids.len() > 0 {
        let front = plan_ids.drop_last();
        lemma_filenames_each(front);
        assert(forall|i: int| 0 <= i < front.len() ==> front[i] == plan_ids[i]);
        if filenames_refusal(plan_ids) is None {
            assert forall|i: int| 0 <= i < plan_ids.len() implies filename_refusal(
                #[trigger] plan_ids[i],
            ) is None by {
                if i < front.len() {
                    assert(filename_refusal(front[i]) is None);
                }
            }
        }
    }
}

/// What a request carries is accepted if and only if its trust roots are of the
/// first version with at least one signer, and every plan id names a file.
pub proof fn accepted_remote_approvals(
    trust_roots: &ApprovalTrustRoots,
    plan_approvals: &TextMap<ApprovalEnvelope>,
    result: Result<(), Error>,
)
    requires
        call_ensures(check_remote_approvals, (trust_roots, plan_approvals), result),
    ensures
        result is Ok <==> {
            &&& trust_roots.version == 1
            &&& trust_roots.signers@.len() > 0
            &&& forall|i: int|
                0 <= i < plan_approvals.keys().len() ==> filename_refusal(
                    #[trigger] plan_approvals.keys()[i],
                ) is None
        },
{
    lemma_filenames_each(plan_approvals.keys());
    assert(trust_roots@.signers.len() == trust_roots.signers@.len());
}

/// Only the first version of the migration API is served.
pub proof fn served_versions(version: u32, result: Result<(), Error>)
    requires
        call_ensures(require_migration_api_version, (version,), result),
    ensures
        result is Ok <==> version == 1,
{
}

} // verus!
