//! Registries: how references are verified, fetched and stored.
use super::{
    dash, dashed, host_name, mirror_map, mirrored, mirrors_from_properties, pull_reference,
    pull_refusal, ref_key, ref_models, ref_refusal, refs_refusal, validate_all, OciArtifactRef,
    RefModel,
};
use crate::crypto::{digest_of, prefixed_digest};
use crate::error::{first_refusal, refusal, refuse_unless, Error};
use crate::framing::push_all;
use crate::paths::{below, join_path, normal_path};
use crate::text::{same, split_on, stands_at};
use crate::text_map::{text_values, TextMap};
use vstd::prelude::*;

verus! {

/// Verifies and pulls artifacts by digest. Implementors own transport. What a
/// registry verifies is the reference it was asked for.
pub trait ArtifactRegistry: Send + Sync {
    /// Verify that a reference resolves to its content.
    fn verify(&self, reference: &OciArtifactRef) -> (result: Result<OciArtifactRef, Error>)
        ensures
            result matches Ok(verified) ==> verified@ == reference@,
    ;

    /// Fetch the content of a reference.
    fn fetch(&self, reference: &OciArtifactRef) -> Result<Vec<u8>, Error>;

    /// Store the content of a reference.
    fn store(&mut self, reference: &OciArtifactRef, bytes: Vec<u8>) -> Result<(), Error>;
}

/// Why content cannot be stored under a reference.
pub open spec fn store_refusal(r: RefModel, bytes: Seq<u8>) -> Option<Seq<char>> {
    first_refusal(
        ref_refusal(r),
        refuse_unless(
            prefixed_digest(bytes) == r.digest,
            "stored artifact digest "@ + prefixed_digest(bytes) + " does not match declared "@
                + r.digest,
        ),
    )
}

fn check_content(reference: &OciArtifactRef, bytes: &[u8]) -> (result: Result<(), Error>)
    ensures
        refusal(result) == store_refusal(reference@, bytes@),
{
    match reference.validate() {
        Err(error) => return Err(error),
        Ok(_) => {},
    }
    let digest = digest_of(bytes);
    if !same(&digest, &reference.digest) {
        let mut message = "stored artifact digest ".to_owned();
        message.append(digest.as_str());
        message.append(" does not match declared ");
        message.append(reference.digest.as_str());
        return Err(Error::new(message));
    }
    Ok(())
}

/// Why a reference does not verify against what is stored under it.
pub open spec fn stored_refusal(r: RefModel, stored: Option<Seq<u8>>) -> Option<Seq<char>> {
    first_refusal(
        ref_refusal(r),
        match stored {
            None => Some(
                "artifact digest "@ + r.digest + " is unresolvable at "@ + r.registry + "/"@
                    + r.repository,
            ),
            Some(bytes) => refuse_unless(
                prefixed_digest(bytes) == r.digest,
                "artifact digest "@ + r.digest + " does not match stored bytes "@
                    + prefixed_digest(bytes),
            ),
        },
    )
}

/// What is stored under a reference, as bytes.
pub open spec fn opt_bytes(stored: Option<&[u8]>) -> Option<Seq<u8>> {
    match stored {
        Some(bytes) => Some(bytes@),
        None => None,
    }
}

/// Check a reference against what is stored under it.
pub fn check_stored(reference: &OciArtifactRef, stored: Option<&[u8]>) -> (result: Result<(), Error>)
    ensures
        refusal(result) == stored_refusal(reference@, opt_bytes(stored)),
{
    match reference.validate() {
        Err(error) => return Err(error),
        Ok(_) => {},
    }
    match stored {
        None => {
            let mut message = "artifact digest ".to_owned();
            message.append(reference.digest.as_str());
            message.append(" is unresolvable at ");
            message.append(reference.registry.as_str());
            message.append("/");
            message.append(reference.repository.as_str());
            Err(Error::new(message))
        },
        Some(bytes) => {
            let actual = digest_of(bytes);
            if !same(&actual, &reference.digest) {
                let mut message = "artifact digest ".to_owned();
                message.append(reference.digest.as_str());
                message.append(" does not match stored bytes ");
                message.append(actual.as_str());
                return Err(Error::new(message));
            }
            Ok(())
        },
    }
}

/// A registry in memory.
#[derive(Debug, PartialEq, Eq)]
pub struct MemoryArtifactRegistry {
    blobs: TextMap<Vec<u8>>,
}

/// What a registry holds, by key.
pub open spec fn blob_values(blobs: Map<Seq<char>, Vec<u8>>) -> Map<Seq<char>, Seq<u8>> {
    blobs.map_values(|bytes: Vec<u8>| bytes@)
}

/// What is stored under a key.
pub open spec fn stored_at(blobs: Map<Seq<char>, Seq<u8>>, key: Seq<char>) -> Option<Seq<u8>> {
    if blobs.contains_key(key) {
        Some(blobs[key])
    } else {
        None
    }
}

impl View for MemoryArtifactRegistry {
    type V = Map<Seq<char>, Seq<u8>>;

    closed spec fn view(&self) -> Map<Seq<char>, Seq<u8>> {
        blob_values(self.blobs@)
    }
}

impl MemoryArtifactRegistry {
    /// A registry that holds nothing.
    pub fn new() -> (registry: MemoryArtifactRegistry)
        ensures
            registry@ == Map::<Seq<char>, Seq<u8>>::empty(),
    {
        let registry = MemoryArtifactRegistry { blobs: TextMap::new() };
        assert(registry@ =~= Map::<Seq<char>, Seq<u8>>::empty());
        registry
    }

    /// Store the content of a reference.
    pub fn put(&mut self, reference: &OciArtifactRef, bytes: Vec<u8>) -> (result: Result<(), Error>)
        ensures
            refusal(result) == store_refusal(reference@, bytes@),
            final(self)@ == (if result is Ok {
                old(self)@.insert(ref_key(reference@), bytes@)
            } else {
                old(self)@
            }),
    {
        match check_content(reference, bytes.as_slice()) {
            Err(error) => return Err(error),
            Ok(_) => {},
        }
        let ghost before = self.blobs@;
        let ghost content = bytes@;
        let key = reference.identity_key();
        self.blobs.insert(key, bytes);
        assert(blob_values(self.blobs@) =~= blob_values(before).insert(key@, content));
        Ok(())
    }
}

impl ArtifactRegistry for MemoryArtifactRegistry {
    fn verify(&self, reference: &OciArtifactRef) -> (result: Result<OciArtifactRef, Error>)
        ensures
            refusal(result) == stored_refusal(
                reference@,
                stored_at(self@, ref_key(reference@)),
            ),
    {
        let key = reference.identity_key();
        let stored = match self.blobs.get(key.as_str()) {
            None => None,
            Some(bytes) => Some(bytes.as_slice()),
        };
        match check_stored(reference, stored) {
            Err(error) => Err(error),
            Ok(_) => Ok(reference.copy()),
        }
    }

    fn fetch(&self, reference: &OciArtifactRef) -> (result: Result<Vec<u8>, Error>)
        ensures
            refusal(result) == stored_refusal(
                reference@,
                stored_at(self@, ref_key(reference@)),
            ),
            result matches Ok(bytes) ==> Some(bytes@) == stored_at(
                self@,
                ref_key(reference@),
            ),
    {
        match self.verify(reference) {
            Err(error) => return Err(error),
            Ok(_) => {},
        }
        let key = reference.identity_key();
        let stored = self.blobs.get(key.as_str()).unwrap();
        let mut bytes: Vec<u8> = Vec::new();
        push_all(&mut bytes, stored.as_slice());
        assert(bytes@ =~= stored@);
        Ok(bytes)
    }

    fn store(&mut self, reference: &OciArtifactRef, bytes: Vec<u8>) -> (result: Result<(), Error>)
        ensures
            refusal(result) == store_refusal(reference@, bytes@),
            final(self)@ == (if result is Ok {
                old(self)@.insert(ref_key(reference@), bytes@)
            } else {
                old(self)@
            }),
    {
        self.put(reference, bytes)
    }
}

/// What is stored under a reference is fetched for it, until it is replaced.
pub proof fn stored_content_is_fetched(
    blobs: Map<Seq<char>, Seq<u8>>,
    r: RefModel,
    bytes: Seq<u8>,
)
    requires
        store_refusal(r, bytes) is None,
    ensures
        ({
            let after = blobs.insert(ref_key(r), bytes);
            &&& stored_at(after, ref_key(r)) == Some(bytes)
            &&& stored_refusal(r, stored_at(after, ref_key(r))) is None
        }),
{
}

/// Content that verifies is the content that its digest names.
pub proof fn verified_content_has_its_digest(r: RefModel, bytes: Seq<u8>)
    requires
        stored_refusal(r, Some(bytes)) is None,
    ensures
        prefixed_digest(bytes) == r.digest,
{
}

/// Where artifacts are kept below a directory.
#[derive(Debug, PartialEq, Eq)]
pub struct FilesystemArtifactRegistry {
    root: String,
}

/// The path of a reference below the directory of a store.
pub open spec fn blob_name(r: RefModel) -> Seq<char> {
    below(below(r.registry, r.repository), dashed(r.digest))
}

/// The place of a reference in a store.
pub open spec fn blob_place(root: Seq<char>, r: RefModel) -> Seq<char> {
    below(below(below(root, r.registry), r.repository), dashed(r.digest))
}

/// Two dots stand next to each other nowhere.
spec fn dots_apart(text: Seq<char>) -> bool {
    forall|i: int, j: int|
        0 <= i && j == i + 1 && j < text.len() ==> !(#[trigger] text[i] == '.' && #[trigger] text[j]
            == '.')
}

proof fn lemma_first_part(text: Seq<char>, separator: char)
    ensures
        split_on(text, separator).len() > 0,
        split_on(text, separator)[0].len() <= text.len(),
        split_on(text, separator)[0] == text.take(split_on(text, separator)[0].len() as int),
        split_on(text, separator).len() == 1 ==> split_on(text, separator)[0] == text,
    decreases text.len(),
{
    if text.len() > 0 {
        let before = split_on(text.drop_last(), separator);
        let parts = split_on(text, separator);
        lemma_first_part(text.drop_last(), separator);
        if text.last() != separator && before.len() == 1 {
            assert(before.last() =~= text.drop_last());
            assert(parts[0] =~= text);
        } else {
            assert(parts[0] == before[0]);
            assert(text.drop_last().take(before[0].len() as int) =~= text.take(
                before[0].len() as int,
            ));
        }
        assert(parts[0] =~= text.take(parts[0].len() as int));
    }
}

proof fn lemma_last_part(text: Seq<char>, separator: char)
    ensures
        split_on(text, separator).len() > 0,
        split_on(text, separator).last().len() <= text.len(),
        split_on(text, separator).last() == text.skip(
            text.len() - split_on(text, separator).last().len(),
        ),
    decreases text.len(),
{
    let parts = split_on(text, separator);
    if text.len() > 0 {
        lemma_last_part(text.drop_last(), separator);
    }
    assert(parts.last() =~= text.skip(text.len() - parts.last().len()));
}

proof fn lemma_no_step_up(text: Seq<char>)
    requires
        dots_apart(text),
    ensures
        forall|i: int|
            0 <= i < split_on(text, '/').len() ==> #[trigger] split_on(text, '/')[i] != ".."@,
    decreases text.len(),
{
    reveal_strlit("..");
    let parts = split_on(text, '/');
    if text.len() > 0 {
        let front = text.drop_last();
        assert(dots_apart(front)) by {
            assert forall|i: int, j: int| 0 <= i && j == i + 1 && j < front.len() implies !(
            #[trigger] front[i] == '.' && #[trigger] front[j] == '.') by {
                assert(text[i] == front[i]);
                assert(text[j] == front[j]);
            }
        }
        lemma_no_step_up(front);
        lemma_last_part(text, '/');
        lemma_last_part(front, '/');
        let before = split_on(front, '/');
        assert forall|i: int| 0 <= i < parts.len() implies #[trigger] parts[i] != ".."@ by {
            if i == parts.len() - 1 {
                if parts[i] == ".."@ {
                    let n = text.len() as int;
                    let tail = text.skip(n - 2);
                    assert(tail[0] == '.' && tail[1] == '.');
                    assert(text[n - 2] == '.' && text[n - 1] == '.');
                }
            } else {
                assert(parts[i] == before[i]);
            }
        }
    } else {
        assert(parts[0].len() == 0);
    }
}

proof fn lemma_filled_parts(text: Seq<char>, i: int)
    requires
        0 <= i < text.len(),
        text[i] == '.',
        i == 0 || text[i - 1] == '.',
    ensures
        exists|k: int|
            0 <= k < split_on(text, '.').len() - 1 && (#[trigger] split_on(text, '.')[k]).len()
                == 0,
    decreases text.len(),
{
    let front = text.drop_last();
    let before = split_on(front, '.');
    let parts = split_on(text, '.');
    lemma_last_part(front, '.');
    if i == text.len() - 1 {
        let k = before.len() - 1;
        if i == 0 {
            assert(front.len() == 0);
        } else {
            assert(front.last() == '.');
        }
        assert(before[k].len() == 0);
        assert(parts[k] == before[k]);
    } else {
        assert(front[i] == text[i]);
        if i > 0 {
            assert(front[i - 1] == text[i - 1]);
        }
        lemma_filled_parts(front, i);
        let k = choose|k: int|
            0 <= k < before.len() - 1 && (#[trigger] before[k]).len() == 0;
        assert(parts[k] == before[k]);
    }
}

proof fn lemma_host_dots(host: Seq<char>)
    requires
        host_name(host),
    ensures
        dots_apart(host),
        host[0] != '.',
        host[0] != '/',
        host.last() != '/',
{
    assert(host.contains(host[0]));
    assert(host.contains(host.last()));
    if host[0] == '.' {
        lemma_filled_parts(host, 0);
    }
    assert forall|i: int, j: int| 0 <= i && j == i + 1 && j < host.len() implies !(
    #[trigger] host[i] == '.' && #[trigger] host[j] == '.') by {
        if host[i] == '.' && host[j] == '.' {
            lemma_filled_parts(host, j);
        }
    }
}

/// The path of a valid reference stays below the directory of the store,
/// whatever its registry and its repository are called.
pub proof fn references_stay_in_the_store(root: Seq<char>, r: RefModel)
    requires
        ref_refusal(r) is None,
    ensures
        normal_path(blob_name(r)),
        blob_place(root, r) == below(root, blob_name(r)),
{
    reveal_strlit("/");
    reveal_strlit(".");
    reveal_strlit("..");
    reveal_strlit("sha256:");
    let host = r.registry;
    let path = r.repository;
    let last = dashed(r.digest);
    let name = blob_name(r);
    lemma_host_dots(host);
    let front = below(host, path);
    assert(front == host + "/"@ + path);
    assert(dots_apart(path)) by {
        assert forall|i: int, j: int| 0 <= i && j == i + 1 && j < path.len() implies !(
        #[trigger] path[i] == '.' && #[trigger] path[j] == '.') by {
            if path[i] == '.' && path[j] == '.' {
                assert(path.subrange(i, i + 2) =~= ".."@);
                assert(stands_at(path, ".."@, i));
            }
        }
    }
    assert(forall|i: int| 0 <= i < last.len() ==> #[trigger] last[i] != '.') by {
        let body = r.digest.skip(7);
        assert(r.digest.take(7) == "sha256:"@);
        assert forall|i: int| 0 <= i < last.len() implies #[trigger] last[i] != '.' by {
            if i < 7 {
                assert(r.digest.take(7)[i] == r.digest[i]);
            } else {
                assert(body[i - 7] == r.digest[i]);
            }
        }
    }
    assert(last[0] == 's') by {
        assert(r.digest.take(7)[0] == "sha256:"@[0]);
    }
    assert(front.last() == path.last());
    assert(dots_apart(front)) by {
        assert forall|i: int, j: int| 0 <= i && j == i + 1 && j < front.len() implies !(
        #[trigger] front[i] == '.' && #[trigger] front[j] == '.') by {
            let h = host.len() as int;
            if j < h {
                assert(front[i] == host[i] && front[j] == host[j]);
            } else if i > h {
                assert(front[i] == path[i - h - 1] && front[j] == path[j - h - 1]);
            }
        }
    }
    assert(dots_apart(name)) by {
        assert forall|i: int, j: int| 0 <= i && j == i + 1 && j < name.len() implies !(
        #[trigger] name[i] == '.' && #[trigger] name[j] == '.') by {
            let f = front.len() as int;
            if j < f {
                assert(name[i] == front[i] && name[j] == front[j]);
            } else {
                let from = if front.last() == '/' {
                    f
                } else {
                    f + 1
                };
                if j >= from {
                    assert(name[j] == last[j - from]);
                }
            }
        }
    }
    lemma_no_step_up(name);
    assert(name[0] == host[0]);
    lemma_first_part(name, '/');
    let parts = split_on(name, '/');
    if parts[0] == "."@ {
        assert(name.take(1)[0] == '.');
    }
    assert(blob_place(root, r) =~= below(root, name)) by {
        let base = below(root, host);
        assert(base.last() == host.last());
        assert(below(base, path) =~= below(root, front));
        assert(below(root, front).last() == front.last());
    }
}

/// Why content cannot be stored under a reference where some is stored
/// already.
pub open spec fn put_refusal(r: RefModel, bytes: Seq<u8>, existing: Option<Seq<u8>>) -> Option<
    Seq<char>,
> {
    first_refusal(
        store_refusal(r, bytes),
        refuse_unless(
            existing is None || prefixed_digest(existing->0) == r.digest,
            "artifact digest "@ + r.digest + " already exists with different bytes "@
                + prefixed_digest(existing->0),
        ),
    )
}

impl FilesystemArtifactRegistry {
    /// Its directory.
    pub closed spec fn directory(self) -> Seq<char> {
        self.root@
    }

    /// A store below a directory.
    pub fn new(root: &str) -> (registry: FilesystemArtifactRegistry)
        ensures
            registry.directory() == root@,
    {
        FilesystemArtifactRegistry { root: root.to_owned() }
    }

    /// The store that is configured, which a release with artifacts requires.
    pub fn from_setting(setting: Option<&str>) -> (result: Result<FilesystemArtifactRegistry, Error>)
        ensures
            refusal(result) == refuse_unless(
                setting is Some,
                "TENKAI_OCI_STORE is required when a release names OCI artifacts"@,
            ),
            result matches Ok(registry) ==> registry.directory() == setting->0@,
    {
        match setting {
            None => Err(
                Error::fixed("TENKAI_OCI_STORE is required when a release names OCI artifacts"),
            ),
            Some(root) => Ok(FilesystemArtifactRegistry::new(root)),
        }
    }

    /// The place of a reference.
    pub fn blob_path(&self, reference: &OciArtifactRef) -> (path: String)
        ensures
            path@ == blob_place(self.directory(), reference@),
    {
        let host = join_path(&self.root, &reference.registry);
        let repository = join_path(&host, &reference.repository);
        join_path(&repository, dash(&reference.digest).as_str())
    }

    /// Decide on content to store where some may be stored already: whether it
    /// is written.
    pub fn check_put(
        reference: &OciArtifactRef,
        bytes: &[u8],
        existing: Option<&[u8]>,
    ) -> (result: Result<bool, Error>)
        ensures
            refusal(result) == put_refusal(reference@, bytes@, opt_bytes(existing)),
            result matches Ok(written) ==> written == (existing is None),
    {
        match check_content(reference, bytes) {
            Err(error) => return Err(error),
            Ok(_) => {},
        }
        match existing {
            None => Ok(true),
            Some(stored) => {
                let digest = digest_of(stored);
                if same(&digest, &reference.digest) {
                    return Ok(false);
                }
                let mut message = "artifact digest ".to_owned();
                message.append(reference.digest.as_str());
                message.append(" already exists with different bytes ");
                message.append(digest.as_str());
                Err(Error::new(message))
            },
        }
    }
}

/// The store that a setting selects: none where it is absent or empty.
pub fn selected_store(setting: Option<&str>) -> (store: Option<FilesystemArtifactRegistry>)
    ensures
        store is Some == (setting is Some && setting->0@.len() > 0),
        store matches Some(registry) ==> registry.directory() == setting->0@,
{
    match setting {
        None => None,
        Some(root) => {
            if root.unicode_len() == 0 {
                None
            } else {
                Some(FilesystemArtifactRegistry::new(root))
            }
        },
    }
}

/// Why a release cannot be published with its artifacts, before the registry
/// is asked.
pub open spec fn publication_refusal(list: Seq<RefModel>, registry: bool) -> Option<Seq<char>> {
    if list.len() == 0 {
        None
    } else {
        first_refusal(
            refs_refusal(list),
            refuse_unless(
                registry,
                "live artifact registry required when a release names OCI artifacts"@,
            ),
        )
    }
}

/// A registry can give these answers, each to the reference of its place. It is
/// asked until an answer is an error.
pub open spec fn answers<R: ArtifactRegistry>(
    registry: R,
    asked: Seq<OciArtifactRef>,
    given: Seq<Result<OciArtifactRef, Error>>,
) -> bool {
    &&& asked.len() == given.len()
    &&& forall|i: int|
        0 <= i < given.len() ==> call_ensures(
            R::verify,
            (&registry, &asked[i]),
            #[trigger] given[i],
        )
    &&& forall|i: int| 0 <= i < given.len() - 1 ==> (#[trigger] given[i]) is Ok
}

/// The error that ended the answers of a registry.
pub open spec fn last_fault(given: Seq<Result<OciArtifactRef, Error>>) -> Option<Seq<char>> {
    if given.len() > 0 && given.last() is Err {
        Some(given.last()->Err_0@)
    } else {
        None
    }
}

/// Verify the artifacts of a release. The registry is asked for each of them in
/// turn, until it fails; a release without artifacts asks none.
pub fn verify_publication<R: ArtifactRegistry>(
    artifacts: &Vec<OciArtifactRef>,
    registry: Option<&R>,
) -> (result: Result<(), Error>)
    ensures
        ({
            let refused = publication_refusal(ref_models(artifacts@), registry is Some);
            &&& refused is Some ==> refusal(result) == refused
            &&& artifacts@.len() == 0 ==> result is Ok
            &&& refused is None && artifacts@.len() > 0 ==> exists|
                given: Seq<Result<OciArtifactRef, Error>>,
            |
                {
                    &&& #[trigger] answers(
                        *registry->0,
                        artifacts@.take(given.len() as int),
                        given,
                    )
                    &&& given.len() <= artifacts@.len()
                    &&& refusal(result) == last_fault(given)
                    &&& result is Ok ==> given.len() == artifacts@.len()
                }
        }),
{
    if artifacts.len() == 0 {
        return Ok(());
    }
    match validate_all(artifacts) {
        Err(error) => return Err(error),
        Ok(_) => {},
    }
    let live = match registry {
        None => {
            return Err(
                Error::fixed("live artifact registry required when a release names OCI artifacts"),
            );
        },
        Some(held) => held,
    };
    let ghost mut given = Seq::<Result<OciArtifactRef, Error>>::empty();
    let mut i: usize = 0;
    while i < artifacts.len()
        invariant
            i <= artifacts.len(),
            registry == Some(live),
            publication_refusal(ref_models(artifacts@), registry is Some) is None,
            given.len() == i,
            answers(*live, artifacts@.take(i as int), given),
            forall|k: int| 0 <= k < i ==> (#[trigger] given[k]) is Ok,
        decreases artifacts.len() - i,
    {
        let answer = live.verify(&artifacts[i]);
        proof {
            let asked = artifacts@.take(i as int);
            let before = given;
            given = given.push(answer);
            assert(artifacts@.take(i + 1) =~= asked.push(artifacts@[i as int]));
            assert forall|k: int| 0 <= k < given.len() implies call_ensures(
                R::verify,
                (live, &artifacts@.take(i + 1)[k]),
                #[trigger] given[k],
            ) by {
                if k < before.len() {
                    assert(given[k] == before[k]);
                    assert(artifacts@.take(i + 1)[k] == asked[k]);
                }
            }
            assert(answers(*live, artifacts@.take(i + 1), given));
        }
        match answer {
            Err(error) => {
                proof {
                    assert(given.last() == answer);
                    assert(answers(
                        *registry->0,
                        artifacts@.take(given.len() as int),
                        given,
                    ));
                }
                return Err(error);
            },
            Ok(_) => {},
        }
        i = i + 1;
    }
    Ok(())
}

/// What is said of an artifact that a mirror does not resolve.
pub open spec fn mirror_fault(r: RefModel, mirror: Seq<char>, detail: Seq<char>) -> Seq<char> {
    "artifact digest "@ + r.digest + " failed mirror pull from "@ + mirror + ": "@ + detail
}

/// Settle the pull of an artifact by what the registry said of its mirrored
/// reference.
pub fn settle_pull(
    artifact: &OciArtifactRef,
    pull: &OciArtifactRef,
    verdict: Result<OciArtifactRef, Error>,
) -> (result: Result<OciArtifactRef, Error>)
    ensures
        refusal(result) == (match verdict {
            Ok(_) => None,
            Err(error) => Some(mirror_fault(artifact@, pull@.registry, error@)),
        }),
        result matches Ok(verified) ==> verdict == Ok::<OciArtifactRef, Error>(verified),
{
    match verdict {
        Ok(verified) => Ok(verified),
        Err(error) => {
            let mut message = "artifact digest ".to_owned();
            message.append(artifact.digest.as_str());
            message.append(" failed mirror pull from ");
            message.append(pull.registry.as_str());
            message.append(": ");
            message.append(error.to_string().as_str());
            Err(Error::new(message))
        },
    }
}

/// Why artifacts cannot be pulled, before any of them is.
pub open spec fn environment_refusal(list: Seq<RefModel>, registry: bool) -> Option<Seq<char>> {
    if list.len() == 0 {
        None
    } else {
        first_refusal(
            refs_refusal(list),
            refuse_unless(
                registry,
                "live artifact registry required to pull digest-bound artifacts"@,
            ),
        )
    }
}

/// References on the mirrors of their registries.
pub open spec fn all_mirrored(list: Seq<RefModel>, mirrors: Map<Seq<char>, Seq<char>>) -> Seq<
    RefModel,
> {
    list.map_values(|r: RefModel| mirrored(r, mirrors))
}

/// What came of pulling artifacts from the mirrors of an environment, by what
/// the registry answered for those it was asked for. It is asked for each
/// artifact on its mirror in turn, until one has no mirror or an answer is an
/// error.
pub open spec fn pulled(
    list: Seq<RefModel>,
    mirrors: Map<Seq<char>, Seq<char>>,
    asked: Seq<OciArtifactRef>,
    given: Seq<Result<OciArtifactRef, Error>>,
    result: Result<Seq<OciArtifactRef>, Seq<char>>,
) -> bool {
    &&& asked.len() <= list.len()
    &&& ref_models(asked) == all_mirrored(list, mirrors).take(asked.len() as int)
    &&& forall|i: int|
        0 <= i < asked.len() ==> pull_refusal(#[trigger] list[i], mirrors) is None
    &&& match result {
        Ok(pulls) => {
            &&& asked.len() == list.len()
            &&& given == pulls.map_values(|r: OciArtifactRef| Ok::<OciArtifactRef, Error>(r))
        },
        Err(error) => match last_fault(given) {
            Some(detail) => {
                let r = list[given.len() - 1];
                error == mirror_fault(r, mirrored(r, mirrors).registry, detail)
            },
            None => asked.len() < list.len() && pull_refusal(list[asked.len() as int], mirrors)
                == Some(error),
        },
    }
}

/// A result with what its list holds and what its error says.
pub open spec fn pull_model(result: Result<Vec<OciArtifactRef>, Error>) -> Result<
    Seq<OciArtifactRef>,
    Seq<char>,
> {
    match result {
        Ok(pulls) => Ok(pulls@),
        Err(error) => Err(error@),
    }
}

/// The references under which an environment pulls artifacts: on its mirrors,
/// each as the registry verified it there.
pub fn verify_environment_pull<R: ArtifactRegistry>(
    artifacts: &Vec<OciArtifactRef>,
    properties: &TextMap<String>,
    registry: Option<&R>,
) -> (result: Result<Vec<OciArtifactRef>, Error>)
    ensures
        ({
            let list = ref_models(artifacts@);
            let mirrors = mirror_map(text_values(properties@));
            let refused = environment_refusal(list, registry is Some);
            &&& refused is Some ==> refusal(result) == refused
            &&& list.len() == 0 ==> result is Ok
            &&& result matches Ok(pulls) ==> {
                &&& ref_models(pulls@) == all_mirrored(list, mirrors)
                &&& forall|i: int|
                    0 <= i < list.len() ==> pull_refusal(#[trigger] list[i], mirrors) is None
            }
            &&& refused is None && list.len() > 0 ==> exists|
                asked: Seq<OciArtifactRef>,
                given: Seq<Result<OciArtifactRef, Error>>,
            | #[trigger]
                answers(*registry->0, asked, given) && pulled(
                    list,
                    mirrors,
                    asked,
                    given,
                    pull_model(result),
                )
        }),
{
    let ghost list = ref_models(artifacts@);
    if artifacts.len() == 0 {
        let none: Vec<OciArtifactRef> = Vec::new();
        assert(ref_models(none@) =~= all_mirrored(list, mirror_map(text_values(properties@))));
        return Ok(none);
    }
    match validate_all(artifacts) {
        Err(error) => return Err(error),
        Ok(_) => {},
    }
    let live = match registry {
        None => {
            return Err(
                Error::fixed("live artifact registry required to pull digest-bound artifacts"),
            );
        },
        Some(held) => held,
    };
    let mirrors = mirrors_from_properties(properties);
    let ghost map = mirror_map(text_values(properties@));
    let mut pulls: Vec<OciArtifactRef> = Vec::new();
    let mut i: usize = 0;
    assert(ref_models(pulls@) =~= all_mirrored(list, map).take(0));
    let ghost mut asked = Seq::<OciArtifactRef>::empty();
    let ghost mut given = Seq::<Result<OciArtifactRef, Error>>::empty();
    while i < artifacts.len()
        invariant
            i <= artifacts.len(),
            list == ref_models(artifacts@),
            artifacts.len() > 0,
            map == mirror_map(text_values(properties@)),
            map == text_values(mirrors@),
            environment_refusal(list, registry is Some) is None,
            ref_models(pulls@) == all_mirrored(list, map).take(i as int),
            forall|k: int| 0 <= k < i ==> pull_refusal(#[trigger] list[k], map) is None,
            registry == Some(live),
            given.len() == i,
            answers(*live, asked, given),
            ref_models(asked) == all_mirrored(list, map).take(i as int),
            given == pulls@.map_values(|r: OciArtifactRef| Ok::<OciArtifactRef, Error>(r)),
        decreases artifacts.len() - i,
    {
        let artifact = &artifacts[i];
        assert(list[i as int] == artifact@);
        let pull = match pull_reference(artifact, &mirrors) {
            Err(error) => {
                proof {
                    if i > 0 {
                        assert(given[i - 1] == Ok::<OciArtifactRef, Error>(pulls@[i - 1]));
                    }
                    assert(last_fault(given) is None);
                    assert(pulled(list, map, asked, given, Err(error@)));
                    assert(answers(*registry->0, asked, given));
                }
                return Err(error);
            },
            Ok(reference) => reference,
        };
        let verdict = live.verify(&pull);
        proof {
            let before = given;
            let earlier = asked;
            asked = asked.push(pull);
            given = given.push(verdict);
            assert forall|k: int| 0 <= k < given.len() implies call_ensures(
                R::verify,
                (live, &asked[k]),
                #[trigger] given[k],
            ) by {
                if k < before.len() {
                    assert(given[k] == before[k]);
                    assert(asked[k] == earlier[k]);
                }
            }
            assert forall|k: int| 0 <= k < given.len() - 1 implies (#[trigger] given[k]) is Ok by {
                assert(given[k] == Ok::<OciArtifactRef, Error>(pulls@[k]));
            }
            assert(answers(*live, asked, given));
            assert(ref_models(asked) =~= ref_models(earlier).push(mirrored(list[i as int], map)));
            assert(ref_models(asked) =~= all_mirrored(list, map).take(i + 1));
        }
        match settle_pull(artifact, &pull, verdict) {
            Err(error) => {
                proof {
                    assert(given.last() == verdict);
                    assert(pulled(list, map, asked, given, Err(error@)));
                    assert(answers(*registry->0, asked, given));
                }
                return Err(error);
            },
            Ok(verified) => {
                let ghost before = pulls@;
                pulls.push(verified);
                assert(ref_models(pulls@) =~= ref_models(before).push(
                    mirrored(list[i as int], map),
                ));
                assert(ref_models(pulls@) =~= all_mirrored(list, map).take(i + 1));
                assert(given =~= pulls@.map_values(
                    |r: OciArtifactRef| Ok::<OciArtifactRef, Error>(r),
                ));
            },
        }
        i = i + 1;
    }
    assert(ref_models(pulls@) =~= all_mirrored(list, map));
    assert(pulled(list, map, asked, given, Ok(pulls@)));
    Ok(pulls)
}

/// What an environment pulls has the content that the release names, from
/// hosts that the environment names.
pub proof fn environment_pulls_what_was_released(
    list: Seq<RefModel>,
    mirrors: Map<Seq<char>, Seq<char>>,
    at: int,
)
    requires
        0 <= at < list.len(),
        pull_refusal(list[at], mirrors) is None,
    ensures
        all_mirrored(list, mirrors)[at].digest == list[at].digest,
        mirrors.contains_key(list[at].registry),
        all_mirrored(list, mirrors)[at].registry == mirrors[list[at].registry],
{
}

/// Content is stored under a valid reference whose digest it has. A read then
/// gives it back, and what was stored under other keys stays.
pub proof fn stored_content_is_read_back(
    registry: &mut MemoryArtifactRegistry,
    reference: &OciArtifactRef,
    other: &OciArtifactRef,
    bytes: Vec<u8>,
    content: &[u8],
    actual: String,
    key: String,
    other_key: String,
    checked: Result<(), Error>,
    stored: Result<(), Error>,
    verified: Result<OciArtifactRef, Error>,
    fetched: Result<Vec<u8>, Error>,
    before: Result<Vec<u8>, Error>,
    after: Result<Vec<u8>, Error>,
)
    requires
        call_ensures(MemoryArtifactRegistry::put, (registry, reference, bytes), stored),
        content@ == bytes@,
        call_ensures(digest_of, (content,), actual),
        call_ensures(OciArtifactRef::validate, (reference,), checked),
        call_ensures(OciArtifactRef::identity_key, (reference,), key),
        call_ensures(OciArtifactRef::identity_key, (other,), other_key),
        call_ensures(MemoryArtifactRegistry::verify, (final(registry), reference), verified),
        call_ensures(MemoryArtifactRegistry::fetch, (final(registry), reference), fetched),
        call_ensures(MemoryArtifactRegistry::fetch, (old(registry), other), before),
        call_ensures(MemoryArtifactRegistry::fetch, (final(registry), other), after),
    ensures
        stored is Ok <==> checked is Ok && actual@ == reference.digest@,
        stored is Ok ==> {
            &&& verified is Ok && verified->Ok_0@ == reference@
            &&& fetched is Ok && fetched->Ok_0@ == bytes@
        },
        stored is Err || key@ != other_key@ ==> {
            &&& before is Ok <==> after is Ok
            &&& before is Ok ==> before->Ok_0@ == after->Ok_0@
        },
{
}

/// A store through the registry's trait is a put.
pub proof fn storing_is_putting(
    first: &mut MemoryArtifactRegistry,
    second: &mut MemoryArtifactRegistry,
    reference: &OciArtifactRef,
    bytes: Vec<u8>,
    one: Result<(), Error>,
    two: Result<(), Error>,
)
    requires
        old(first)@ == old(second)@,
        call_ensures(MemoryArtifactRegistry::put, (first, reference, bytes), one),
        call_ensures(MemoryArtifactRegistry::store, (second, reference, bytes), two),
    ensures
        one is Ok <==> two is Ok,
        final(first)@ == final(second)@,
{
}

/// An empty registry resolves nothing.
pub proof fn empty_registry_resolves_nothing(
    registry: MemoryArtifactRegistry,
    reference: &OciArtifactRef,
    verified: Result<OciArtifactRef, Error>,
    fetched: Result<Vec<u8>, Error>,
)
    requires
        call_ensures(MemoryArtifactRegistry::new, (), registry),
        call_ensures(MemoryArtifactRegistry::verify, (&registry, reference), verified),
        call_ensures(MemoryArtifactRegistry::fetch, (&registry, reference), fetched),
    ensures
        verified is Err,
        fetched is Err,
{
}

/// What a registry verifies it also gives, and what it gives has the digest of
/// the reference.
pub proof fn fetched_content_has_its_digest(
    registry: &MemoryArtifactRegistry,
    reference: &OciArtifactRef,
    content: &[u8],
    actual: String,
    verified: Result<OciArtifactRef, Error>,
    fetched: Result<Vec<u8>, Error>,
)
    requires
        call_ensures(MemoryArtifactRegistry::verify, (registry, reference), verified),
        call_ensures(MemoryArtifactRegistry::fetch, (registry, reference), fetched),
        fetched is Ok ==> content@ == fetched->Ok_0@,
        call_ensures(digest_of, (content,), actual),
    ensures
        verified is Ok <==> fetched is Ok,
        fetched is Ok ==> actual@ == reference.digest@,
        verified is Ok ==> verified->Ok_0@ == reference@,
{
}

/// A reference passes against what is stored under it where it is valid, where
/// something is stored and where that has its digest.
pub proof fn stored_bytes_are_checked_by_digest(
    reference: &OciArtifactRef,
    stored: Option<&[u8]>,
    actual: String,
    checked: Result<(), Error>,
    result: Result<(), Error>,
)
    requires
        call_ensures(check_stored, (reference, stored), result),
        call_ensures(OciArtifactRef::validate, (reference,), checked),
        stored is Some ==> call_ensures(digest_of, (stored->0,), actual),
    ensures
        result is Ok <==> checked is Ok && stored is Some && actual@ == reference.digest@,
{
}

/// Content is written once: where the same is stored already it is not written
/// again, and where something else is stored it is refused.
pub proof fn content_is_written_once(
    reference: &OciArtifactRef,
    bytes: &[u8],
    existing: Option<&[u8]>,
    new: String,
    present: String,
    checked: Result<(), Error>,
    result: Result<bool, Error>,
)
    requires
        call_ensures(FilesystemArtifactRegistry::check_put, (reference, bytes, existing), result),
        call_ensures(OciArtifactRef::validate, (reference,), checked),
        call_ensures(digest_of, (bytes,), new),
        existing is Some ==> call_ensures(digest_of, (existing->0,), present),
    ensures
        result is Ok <==> checked is Ok && new@ == reference.digest@ && (existing is Some
            ==> present@ == reference.digest@),
        result is Ok ==> (result->Ok_0 <==> existing is None),
{
}

/// A configured store is below its directory; one is required where a release
/// names artifacts, and an empty setting selects none.
pub proof fn stores_are_configured(
    setting: Option<&str>,
    required: Result<FilesystemArtifactRegistry, Error>,
    selected: Option<FilesystemArtifactRegistry>,
)
    requires
        call_ensures(FilesystemArtifactRegistry::from_setting, (setting,), required),
        call_ensures(selected_store, (setting,), selected),
    ensures
        required is Ok <==> setting is Some,
        required is Ok ==> required->Ok_0.directory() == setting->0@,
        selected is Some <==> setting is Some && setting->0@.len() > 0,
        selected is Some ==> selected->0.directory() == setting->0@,
{
}

/// A release without artifacts is published without a registry. One with
/// artifacts is published where each of them is valid and the registry
/// verifies it, and only there.
pub proof fn published_artifacts_are_verified(
    artifacts: &Vec<OciArtifactRef>,
    registry: Option<&MemoryArtifactRegistry>,
    result: Result<(), Error>,
)
    requires
        call_ensures(
            verify_publication::<MemoryArtifactRegistry>,
            (artifacts, registry),
            result,
        ),
    ensures
        artifacts@.len() == 0 ==> result is Ok,
        artifacts@.len() > 0 && registry is None ==> result is Err,
        artifacts@.len() > 0 && result is Ok ==> forall|i: int|
            0 <= i < artifacts@.len() ==> {
                let key = ref_key((#[trigger] artifacts@[i])@);
                &&& ref_refusal(artifacts@[i]@) is None
                &&& registry->0@.contains_key(key)
                &&& prefixed_digest(registry->0@[key]) == artifacts@[i].digest@
            },
        artifacts@.len() > 0 && registry is Some && (forall|i: int|
            0 <= i < artifacts@.len() ==> ref_refusal((#[trigger] artifacts@[i])@) is None
                && registry->0@.contains_key(ref_key(artifacts@[i]@)) && prefixed_digest(
                registry->0@[ref_key(artifacts@[i]@)],
            ) == artifacts@[i].digest@) ==> result is Ok,
{
    let list = ref_models(artifacts@);
    crate::oci_artifact::lemma_refs_all(list);
    assert forall|i: int| 0 <= i < artifacts@.len() implies list[i] == (
    #[trigger] artifacts@[i])@ by {}
    let refused = publication_refusal(list, registry is Some);
    if artifacts@.len() > 0 && refused is None {
        let given = choose|given: Seq<Result<OciArtifactRef, Error>>|
            {
                &&& #[trigger] answers(
                    *registry->0,
                    artifacts@.take(given.len() as int),
                    given,
                )
                &&& given.len() <= artifacts@.len()
                &&& refusal(result) == last_fault(given)
                &&& result is Ok ==> given.len() == artifacts@.len()
            };
        let asked = artifacts@.take(given.len() as int);
        assert(answers(*registry->0, asked, given));
        if result is Ok {
            assert forall|i: int| 0 <= i < artifacts@.len() implies {
                let key = ref_key((#[trigger] artifacts@[i])@);
                &&& ref_refusal(artifacts@[i]@) is None
                &&& registry->0@.contains_key(key)
                &&& prefixed_digest(registry->0@[key]) == artifacts@[i].digest@
            } by {
                assert(asked[i] == artifacts@[i]);
                assert(given[i] is Ok);
                assert(call_ensures(
                    MemoryArtifactRegistry::verify,
                    (registry->0, &asked[i]),
                    given[i],
                ));
                assert(ref_refusal(list[i]) is None);
            }
        } else {
            let i = given.len() - 1;
            assert(given[i] is Err);
            assert(call_ensures(
                MemoryArtifactRegistry::verify,
                (registry->0, &asked[i]),
                given[i],
            ));
            assert(asked[i] == artifacts@[i]);
        }
    } else if artifacts@.len() > 0 && registry is Some {
        if refs_refusal(list) is Some {
            let i = choose|i: int| 0 <= i < list.len() && ref_refusal(#[trigger] list[i]) is Some;
            assert(ref_refusal(artifacts@[i]@) is Some);
        }
    }
}

/// The verdict of a registry on a mirrored reference settles its pull: what it
/// verified is taken, and its error is passed on.
pub proof fn verdict_settles_the_pull(
    artifact: &OciArtifactRef,
    pull: &OciArtifactRef,
    verdict: Result<OciArtifactRef, Error>,
    result: Result<OciArtifactRef, Error>,
)
    requires
        call_ensures(settle_pull, (artifact, pull, verdict), result),
    ensures
        result is Ok <==> verdict is Ok,
        result is Ok ==> result->Ok_0 == verdict->Ok_0,
{
}

/// What an environment pulls is, one for one, what the release names, on the
/// mirrors that the environment's properties name. Without a mirror for one of
/// them nothing is pulled, and without artifacts no registry is needed.
pub proof fn environments_pull_from_their_mirrors(
    artifacts: &Vec<OciArtifactRef>,
    properties: &TextMap<String>,
    registry: Option<&MemoryArtifactRegistry>,
    result: Result<Vec<OciArtifactRef>, Error>,
)
    requires
        call_ensures(
            verify_environment_pull::<MemoryArtifactRegistry>,
            (artifacts, properties, registry),
            result,
        ),
    ensures
        artifacts@.len() == 0 ==> result is Ok && result->Ok_0@.len() == 0,
        artifacts@.len() > 0 && registry is None ==> result is Err,
        result matches Ok(pulls) ==> {
            &&& pulls@.len() == artifacts@.len()
            &&& forall|i: int|
                0 <= i < artifacts@.len() ==> {
                    let name = "artifact_mirror."@ + (#[trigger] artifacts@[i]).registry@;
                    &&& text_values(properties@).contains_key(name)
                    &&& pulls@[i].registry@ == text_values(properties@)[name]
                    &&& pulls@[i].repository@ == artifacts@[i].repository@
                    &&& pulls@[i].digest@ == artifacts@[i].digest@
                    &&& pulls@[i].media_type@ == artifacts@[i].media_type@
                }
        },
        (exists|i: int|
            0 <= i < artifacts@.len() && !text_values(properties@).contains_key(
                "artifact_mirror."@ + (#[trigger] artifacts@[i]).registry@,
            )) ==> result is Err,
{
    let list = ref_models(artifacts@);
    let mirrors = mirror_map(text_values(properties@));
    if result is Ok {
        let pulls = result->Ok_0;
        let there = ref_models(pulls@);
        assert(there.len() == pulls@.len());
        assert forall|i: int| 0 <= i < artifacts@.len() implies {
            let name = "artifact_mirror."@ + (#[trigger] artifacts@[i]).registry@;
            &&& text_values(properties@).contains_key(name)
            &&& pulls@[i].registry@ == text_values(properties@)[name]
            &&& pulls@[i].repository@ == artifacts@[i].repository@
            &&& pulls@[i].digest@ == artifacts@[i].digest@
            &&& pulls@[i].media_type@ == artifacts@[i].media_type@
        } by {
            assert(list[i] == artifacts@[i]@);
            assert(pull_refusal(list[i], mirrors) is None);
            assert(there[i] == pulls@[i]@);
            assert(there[i] == mirrored(list[i], mirrors));
        }
    }
}

} // verus!
