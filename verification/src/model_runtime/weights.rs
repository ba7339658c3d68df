//! The content-addressed cache of weights.
use crate::crypto::{
    digest_hex, digest_of, is_digest, is_digest_body, is_lower_hex, prefixed_digest, sha256_hex,
};
use crate::error::{first_refusal, refusal, refuse_unless, Error};
use crate::paths::{below, join_path};
use crate::signature_verification::{digest_refusal, validate_prefixed_digest};
use crate::text::{ascii_lower, begins_with, chars_of, listed, same, starts_with, strip_prefix, texts};
use vstd::prelude::*;

verus! {

/// The hexadecimal part of a digest.
pub open spec fn digest_body(digest: Seq<char>) -> Seq<char> {
    digest.skip("sha256:"@.len() as int)
}

/// Why a digest of weights is refused.
pub open spec fn weights_refusal(digest: Seq<char>) -> Option<Seq<char>> {
    digest_refusal("model.artifact_digest"@, digest)
}

fn digest_part(digest: &str) -> (result: Result<&str, Error>)
    ensures
        refusal(result) == weights_refusal(digest@),
        result matches Ok(body) ==> body@ == digest_body(digest@),
{
    match validate_prefixed_digest("model.artifact_digest", digest) {
        Err(error) => Err(error),
        Ok(_) => Ok(strip_prefix(digest, "sha256:").unwrap()),
    }
}

/// Where weights come from.
#[derive(Debug, PartialEq, Eq)]
pub enum WeightSource {
    /// A local file.
    File(String),
    /// A resource that is downloaded.
    Web(String),
}

/// A weight blob in the cache: its digest, and when it was written, in
/// nanoseconds.
#[derive(Debug, PartialEq, Eq)]
pub struct CachedBlob {
    pub hex: String,
    pub modified: i128,
}

/// What a blob says.
pub struct BlobModel {
    pub hex: Seq<char>,
    pub modified: i128,
}

impl View for CachedBlob {
    type V = BlobModel;

    open spec fn view(&self) -> BlobModel {
        BlobModel { hex: self.hex@, modified: self.modified }
    }
}

/// What blobs say.
pub open spec fn blob_models(list: Seq<CachedBlob>) -> Seq<BlobModel> {
    list.map_values(|blob: CachedBlob| blob@)
}

/// Why weights cannot be fetched from a source.
pub open spec fn source_refusal(source: Seq<char>) -> Option<Seq<char>> {
    if begins_with(source, "file://"@) {
        refuse_unless(
            begins_with(source.skip("file://"@.len() as int), "/"@),
            "file:// model.source must be an absolute path"@,
        )
    } else if begins_with(source, "http://"@) || begins_with(source, "https://"@) {
        None
    } else if begins_with(source, "hf://"@) || begins_with(source, "oci://"@) {
        Some(
            "model.source scheme is reserved but not implemented in this build: "@ + source
                + "; use file:// or http(s):// for verified fetch"@,
        )
    } else {
        Some("unsupported model.source scheme (need file:// or http(s)://): "@ + source)
    }
}

/// Where weights are fetched from.
pub fn weight_source(source: &str) -> (result: Result<WeightSource, Error>)
    ensures
        refusal(result) == source_refusal(source@),
        result matches Ok(place) ==> if begins_with(source@, "file://"@) {
            place matches WeightSource::File(path) && path@ == source@.skip(
                "file://"@.len() as int,
            )
        } else {
            place matches WeightSource::Web(url) && url@ == source@
        },
{
    match strip_prefix(source, "file://") {
        Some(path) => {
            if !starts_with(path, "/") {
                return Err(Error::fixed("file:// model.source must be an absolute path"));
            }
            return Ok(WeightSource::File(path.to_owned()));
        },
        None => {},
    }
    if starts_with(source, "http://") || starts_with(source, "https://") {
        return Ok(WeightSource::Web(source.to_owned()));
    }
    if starts_with(source, "hf://") || starts_with(source, "oci://") {
        let mut message =
            "model.source scheme is reserved but not implemented in this build: ".to_owned();
        message.append(source);
        message.append("; use file:// or http(s):// for verified fetch");
        return Err(Error::new(message));
    }
    let mut message =
        "unsupported model.source scheme (need file:// or http(s)://): ".to_owned();
    message.append(source);
    Err(Error::new(message))
}

/// Why the content of a file is not that of a digest.
pub open spec fn content_refusal(
    path: Seq<char>,
    content: Seq<u8>,
    digest: Seq<char>,
) -> Option<Seq<char>> {
    first_refusal(
        weights_refusal(digest),
        refuse_unless(
            sha256_hex(content) == digest_body(digest),
            "weight digest mismatch for "@ + path + ": expected sha256:"@ + digest_body(digest)
                + ", got sha256:"@ + sha256_hex(content),
        ),
    )
}

/// Check that the content of a file is that of a digest.
pub fn verify_weights(path: &str, content: &[u8], artifact_digest: &str) -> (result: Result<
    (),
    Error,
>)
    ensures
        refusal(result) == content_refusal(path@, content@, artifact_digest@),
{
    let expected = match digest_part(artifact_digest) {
        Err(error) => return Err(error),
        Ok(body) => body,
    };
    let actual = digest_hex(content);
    if !same(&actual, expected) {
        let mut message = "weight digest mismatch for ".to_owned();
        message.append(path);
        message.append(": expected sha256:");
        message.append(expected);
        message.append(", got sha256:");
        message.append(actual.as_str());
        return Err(Error::new(message));
    }
    Ok(())
}

/// A file name is that of a blob: 64 hexadecimal digits.
pub open spec fn blob_name(name: Seq<char>) -> bool {
    name.len() == 64 && forall|i: int|
        0 <= i < name.len() ==> is_lower_hex(ascii_lower(#[trigger] name[i]))
}

/// The digest that a file of the cache holds, from its name.
pub fn cached_name(name: &str) -> (hex: Option<String>)
    ensures
        hex is Some == blob_name(name@),
        hex matches Some(text) ==> text@ == name@.map_values(|c: char| ascii_lower(c)),
{
    let chars = chars_of(name);
    if chars.len() != 64 {
        return None;
    }
    let mut i: usize = 0;
    while i < chars.len()
        invariant
            i <= chars.len(),
            chars@ == name@,
            forall|k: int| 0 <= k < i ==> is_lower_hex(ascii_lower(#[trigger] name@[k])),
        decreases chars.len() - i,
    {
        let c = chars[i];
        if !(('0' <= c && c <= '9') || ('a' <= c && c <= 'f') || ('A' <= c && c <= 'F')) {
            assert(!is_lower_hex(ascii_lower(name@[i as int])));
            return None;
        }
        assert(is_lower_hex(ascii_lower(name@[i as int])));
        i = i + 1;
    }
    Some(name.to_ascii_lowercase())
}

/// A list of places with a further one behind those that are not younger.
pub open spec fn aged_in(blobs: Seq<BlobModel>, order: Seq<int>, item: int) -> Seq<int>
    decreases order.len(),
{
    if order.len() == 0 || blobs[order.last()].modified <= blobs[item].modified {
        order.push(item)
    } else {
        aged_in(blobs, order.drop_last(), item).push(order.last())
    }
}

/// The places of the first blobs of a list, oldest first, blobs of one age in
/// the order of the list.
pub open spec fn age_order(blobs: Seq<BlobModel>, count: nat) -> Seq<int>
    decreases count,
{
    if count == 0 {
        Seq::<int>::empty()
    } else {
        aged_in(blobs, age_order(blobs, (count - 1) as nat), count - 1)
    }
}

/// Each place stands once in an order, oldest first.
pub open spec fn oldest_first(blobs: Seq<BlobModel>, order: Seq<int>, count: nat) -> bool {
    &&& order.len() == count
    &&& forall|i: int, j: int|
        0 <= i < j < order.len() ==> blobs[#[trigger] order[i]].modified
            <= blobs[#[trigger] order[j]].modified
    &&& forall|i: int, j: int|
        0 <= i < j < order.len() ==> #[trigger] order[i] != #[trigger] order[j]
    &&& forall|i: int| 0 <= i < order.len() ==> 0 <= #[trigger] order[i] < count
}

proof fn lemma_aged_in(blobs: Seq<BlobModel>, order: Seq<int>, item: int)
    requires
        forall|i: int, j: int|
            0 <= i < j < order.len() ==> blobs[#[trigger] order[i]].modified
                <= blobs[#[trigger] order[j]].modified,
        forall|i: int, j: int|
            0 <= i < j < order.len() ==> #[trigger] order[i] != #[trigger] order[j],
        forall|i: int| 0 <= i < order.len() ==> 0 <= #[trigger] order[i] < item,
    ensures
        ({
            let result = aged_in(blobs, order, item);
            &&& result.len() == order.len() + 1
            &&& forall|i: int, j: int|
                0 <= i < j < result.len() ==> blobs[#[trigger] result[i]].modified
                    <= blobs[#[trigger] result[j]].modified
            &&& forall|i: int, j: int|
                0 <= i < j < result.len() ==> #[trigger] result[i] != #[trigger] result[j]
            &&& forall|i: int|
                0 <= i < result.len() ==> #[trigger] result[i] == item || order.contains(
                    result[i],
                )
        }),
    decreases order.len(),
{
    let result = aged_in(blobs, order, item);
    if order.len() == 0 || blobs[order.last()].modified <= blobs[item].modified {
        assert forall|i: int| 0 <= i < result.len() implies #[trigger] result[i] == item
            || order.contains(result[i]) by {
            if i < order.len() {
                assert(result[i] == order[i]);
            }
        }
    } else {
        let front = order.drop_last();
        let inner = aged_in(blobs, front, item);
        lemma_aged_in(blobs, front, item);
        let last = order.last();
        assert(order[order.len() - 1] == last);
        assert forall|i: int| 0 <= i < inner.len() implies (#[trigger] inner[i] == item || exists|
            k: int,
        |
            0 <= k < front.len() && order[k] == inner[i]) by {
            if inner[i] != item {
                let k = front.index_of(inner[i]);
                assert(order[k] == inner[i]);
            }
        }
        assert forall|i: int| 0 <= i < result.len() implies #[trigger] result[i] == item
            || order.contains(result[i]) by {
            if i < inner.len() {
                assert(result[i] == inner[i]);
            } else {
                assert(result[i] == last);
            }
        }
    }
}

proof fn lemma_age_order(blobs: Seq<BlobModel>, count: nat)
    requires
        count <= blobs.len(),
    ensures
        oldest_first(blobs, age_order(blobs, count), count),
    decreases count,
{
    if count > 0 {
        let before = age_order(blobs, (count - 1) as nat);
        lemma_age_order(blobs, (count - 1) as nat);
        lemma_aged_in(blobs, before, count - 1);
        let order = age_order(blobs, count);
        assert forall|i: int| 0 <= i < order.len() implies 0 <= #[trigger] order[i] < count by {
            if order[i] != count - 1 {
                let k = before.index_of(order[i]);
                assert(before[k] == order[i]);
            }
        }
    }
}

proof fn lemma_aged_in_at(blobs: Seq<BlobModel>, order: Seq<int>, item: int, at: int)
    requires
        0 <= at <= order.len(),
        at == 0 || blobs[order[at - 1]].modified <= blobs[item].modified,
        forall|k: int|
            at <= k < order.len() ==> blobs[item].modified < blobs[#[trigger] order[k]].modified,
    ensures
        aged_in(blobs, order, item) == order.insert(at, item),
    decreases order.len(),
{
    if at == order.len() {
        assert(order.insert(at, item) =~= order.push(item));
    } else {
        assert(blobs[item].modified < blobs[order[order.len() - 1]].modified);
        lemma_aged_in_at(blobs, order.drop_last(), item, at);
        assert(order.insert(at, item) =~= order.drop_last().insert(at, item).push(order.last()));
    }
}

/// Places as numbers.
spec fn places(order: Seq<usize>) -> Seq<int> {
    order.map_values(|place: usize| place as int)
}

fn by_age(blobs: &Vec<CachedBlob>) -> (order: Vec<usize>)
    ensures
        places(order@) == age_order(blob_models(blobs@), blobs@.len()),
        forall|i: int| 0 <= i < order@.len() ==> #[trigger] order@[i] < blobs@.len(),
{
    let ghost models = blob_models(blobs@);
    let mut order: Vec<usize> = Vec::new();
    let mut i: usize = 0;
    assert(places(order@) =~= age_order(models, 0));
    while i < blobs.len()
        invariant
            i <= blobs.len(),
            models == blob_models(blobs@),
            order@.len() == i,
            places(order@) == age_order(models, i as nat),
            forall|k: int| 0 <= k < order@.len() ==> #[trigger] order@[k] < blobs@.len(),
        decreases blobs.len() - i,
    {
        let ghost before = places(order@);
        let mut at: usize = order.len();
        while at > 0 && blobs[i].modified < blobs[order[at - 1]].modified
            invariant
                at <= order.len(),
                i < blobs.len(),
                models == blob_models(blobs@),
                before == places(order@),
                forall|k: int| 0 <= k < order@.len() ==> #[trigger] order@[k] < blobs@.len(),
                forall|k: int|
                    at <= k < before.len() ==> models[i as int].modified
                        < models[#[trigger] before[k]].modified,
            decreases at,
        {
            assert(before[at - 1] == order@[at - 1]);
            at = at - 1;
        }
        proof {
            if at > 0 {
                assert(before[at - 1] == order@[at - 1]);
            }
            lemma_aged_in_at(models, before, i as int, at as int);
        }
        order.insert(at, i);
        assert(places(order@) =~= before.insert(at as int, i as int));
        i = i + 1;
    }
    order
}

/// Why protected digests are refused: the first of them that is no digest.
pub open spec fn protected_refusal(protected: Seq<Seq<char>>) -> Option<Seq<char>>
    decreases protected.len(),
{
    if protected.len() == 0 {
        None
    } else {
        first_refusal(
            protected_refusal(protected.drop_last()),
            weights_refusal(protected.last()),
        )
    }
}

/// The hexadecimal parts of digests.
pub open spec fn digest_bodies(digests: Seq<Seq<char>>) -> Seq<Seq<char>> {
    digests.map_values(|digest: Seq<char>| digest_body(digest))
}

/// The places of the blobs to remove, when the first blobs of the order have
/// been gone through: what is unprotected goes while more than a number to
/// keep is left.
pub open spec fn evicted(
    blobs: Seq<BlobModel>,
    order: Seq<int>,
    protected: Seq<Seq<char>>,
    keep: nat,
    count: nat,
) -> Seq<int>
    decreases count,
{
    if count == 0 {
        Seq::<int>::empty()
    } else {
        let before = evicted(blobs, order, protected, keep, (count - 1) as nat);
        let place = order[count - 1];
        if blobs.len() - before.len() > keep && !protected.contains(blobs[place].hex) {
            before.push(place)
        } else {
            before
        }
    }
}

/// The places of the blobs that an eviction removes.
pub open spec fn evictions(
    blobs: Seq<BlobModel>,
    protected: Seq<Seq<char>>,
    keep: nat,
) -> Seq<int> {
    evicted(
        blobs,
        age_order(blobs, blobs.len()),
        digest_bodies(protected),
        keep,
        blobs.len(),
    )
}

/// The digests of blobs.
pub open spec fn digests_at(blobs: Seq<BlobModel>, order: Seq<int>) -> Seq<Seq<char>> {
    order.map_values(|place: int| "sha256:"@ + blobs[place].hex)
}

/// A cache of weights below a directory.
#[derive(Debug, PartialEq, Eq)]
pub struct WeightCache {
    root: String,
}

/// Where the weights of a digest are kept.
pub open spec fn blob_place(root: Seq<char>, digest: Seq<char>) -> Seq<char> {
    below(below(root, "sha256"@), digest_body(digest))
}

impl WeightCache {
    /// Its directory.
    pub closed spec fn directory(self) -> Seq<char> {
        self.root@
    }

    /// A cache below a directory.
    pub fn new(root: &str) -> (cache: WeightCache)
        ensures
            cache.directory() == root@,
    {
        WeightCache { root: root.to_owned() }
    }

    /// Its directory.
    pub fn root(&self) -> (root: &str)
        ensures
            root@ == self.directory(),
    {
        self.root.as_str()
    }

    /// A copy of the cache's description.
    pub fn copy(&self) -> (copy: WeightCache)
        ensures
            copy.directory() == self.directory(),
    {
        WeightCache { root: self.root.clone() }
    }

    /// Where the weights of a digest are kept.
    pub fn blob_path(&self, artifact_digest: &str) -> (result: Result<String, Error>)
        ensures
            refusal(result) == weights_refusal(artifact_digest@),
            result matches Ok(path) ==> path@ == blob_place(self.directory(), artifact_digest@),
    {
        match digest_part(artifact_digest) {
            Err(error) => Err(error),
            Ok(hex) => {
                let directory = join_path(&self.root, "sha256");
                Ok(join_path(&directory, hex))
            },
        }
    }

    /// Where weights are fetched to before they are verified.
    pub fn partial_path(&self, artifact_digest: &str) -> (result: Result<String, Error>)
        ensures
            refusal(result) == weights_refusal(artifact_digest@),
            result matches Ok(path) ==> path@ == blob_place(self.directory(), artifact_digest@)
                + ".partial"@,
    {
        match self.blob_path(artifact_digest) {
            Err(error) => Err(error),
            Ok(path) => {
                let mut partial = path;
                partial.append(".partial");
                Ok(partial)
            },
        }
    }

    /// The cached weights of a digest: their place, if a file is there and
    /// holds them. A file that holds something else is an error.
    pub fn cached(&self, artifact_digest: &str, content: Option<&[u8]>) -> (result: Result<
        Option<String>,
        Error,
    >)
        ensures
            refusal(result) == first_refusal(
                weights_refusal(artifact_digest@),
                if content is Some {
                    content_refusal(
                        blob_place(self.directory(), artifact_digest@),
                        content->0@,
                        artifact_digest@,
                    )
                } else {
                    None
                },
            ),
            result matches Ok(found) ==> match found {
                Some(path) => content is Some && path@ == blob_place(
                    self.directory(),
                    artifact_digest@,
                ),
                None => content is None,
            },
    {
        let path = match self.blob_path(artifact_digest) {
            Err(error) => return Err(error),
            Ok(place) => place,
        };
        match content {
            None => Ok(None),
            Some(bytes) => match verify_weights(&path, bytes, artifact_digest) {
                Err(error) => Err(error),
                Ok(_) => Ok(Some(path)),
            },
        }
    }

    /// Settle a fetch by what it brought: the place to which verified weights
    /// are promoted. Others are not activated.
    pub fn settle_fetch(&self, artifact_digest: &str, content: &[u8]) -> (result: Result<
        String,
        Error,
    >)
        ensures
            refusal(result) == first_refusal(
                weights_refusal(artifact_digest@),
                refuse_unless(
                    sha256_hex(content@) == digest_body(artifact_digest@),
                    "weight digest verification failed; model not activated"@,
                ),
            ),
            result matches Ok(path) ==> path@ == blob_place(self.directory(), artifact_digest@),
    {
        let partial = match self.partial_path(artifact_digest) {
            Err(error) => return Err(error),
            Ok(place) => place,
        };
        match verify_weights(&partial, content, artifact_digest) {
            Err(_) => Err(Error::fixed("weight digest verification failed; model not activated")),
            Ok(_) => self.blob_path(artifact_digest),
        }
    }

    /// The digests of the blobs to remove, oldest first, so that no more than
    /// a number to keep is left. Protected blobs stay, even where that leaves
    /// more.
    pub fn evict(protected: &Vec<String>, blobs: &Vec<CachedBlob>, keep: usize) -> (result: Result<
        Vec<String>,
        Error,
    >)
        ensures
            refusal(result) == protected_refusal(texts(protected@)),
            result matches Ok(removed) ==> texts(removed@) == digests_at(
                blob_models(blobs@),
                evictions(blob_models(blobs@), texts(protected@), keep as nat),
            ),
    {
        let kept = match protected_parts(protected) {
            Err(error) => return Err(error),
            Ok(parts) => parts,
        };
        let order = by_age(blobs);
        let ghost models = blob_models(blobs@);
        let ghost ordered = age_order(models, models.len());
        let ghost safe = texts(kept@);
        let mut removed: Vec<String> = Vec::new();
        let mut total = blobs.len();
        let mut i: usize = 0;
        proof {
            lemma_age_order(models, models.len());
        }
        assert(texts(removed@) =~= digests_at(
            models,
            evicted(models, ordered, safe, keep as nat, 0),
        ));
        while i < order.len()
            invariant
                i <= order.len(),
                order.len() == blobs.len(),
                models == blob_models(blobs@),
                ordered == age_order(models, models.len()),
                ordered == places(order@),
                forall|k: int| 0 <= k < order@.len() ==> #[trigger] order@[k] < blobs@.len(),
                safe == texts(kept@),
                texts(removed@) == digests_at(
                    models,
                    evicted(models, ordered, safe, keep as nat, i as nat),
                ),
                total == blobs.len() - evicted(models, ordered, safe, keep as nat, i as nat).len(),
                evicted(models, ordered, safe, keep as nat, i as nat).len() <= i,
            decreases order.len() - i,
        {
            let ghost before = evicted(models, ordered, safe, keep as nat, i as nat);
            let blob = &blobs[order[i]];
            assert(ordered[i as int] == order@[i as int]);
            assert(models[ordered[i as int]] == blob@);
            if total > keep && !listed(&kept, &blob.hex) {
                let mut digest = "sha256:".to_owned();
                digest.append(blob.hex.as_str());
                let ghost listed_before = removed@;
                removed.push(digest);
                total = total - 1;
                assert(texts(removed@) =~= texts(listed_before).push("sha256:"@ + blob@.hex));
                assert(digests_at(models, before.push(ordered[i as int])) =~= digests_at(
                    models,
                    before,
                ).push("sha256:"@ + blob@.hex));
            }
            i = i + 1;
        }
        Ok(removed)
    }
}

proof fn lemma_protected_stop(protected: Seq<Seq<char>>, count: int)
    requires
        0 <= count <= protected.len(),
        protected_refusal(protected.take(count)) is Some,
    ensures
        protected_refusal(protected) == protected_refusal(protected.take(count)),
    decreases protected.len(),
{
    if count < protected.len() {
        assert(protected.drop_last().take(count) =~= protected.take(count));
        lemma_protected_stop(protected.drop_last(), count);
    } else {
        assert(protected.take(count) =~= protected);
    }
}

fn protected_parts(protected: &Vec<String>) -> (result: Result<Vec<String>, Error>)
    ensures
        refusal(result) == protected_refusal(texts(protected@)),
        result matches Ok(parts) ==> texts(parts@) == digest_bodies(texts(protected@)),
{
    let ghost models = texts(protected@);
    let mut parts: Vec<String> = Vec::new();
    let mut i: usize = 0;
    assert(texts(parts@) =~= digest_bodies(models.take(0)));
    while i < protected.len()
        invariant
            i <= protected.len(),
            models == texts(protected@),
            protected_refusal(models.take(i as int)) is None,
            texts(parts@) == digest_bodies(models.take(i as int)),
        decreases protected.len() - i,
    {
        assert(models.take(i + 1).drop_last() =~= models.take(i as int));
        assert(models.take(i + 1).last() == protected@[i as int]@);
        let ghost before = parts@;
        match digest_part(&protected[i]) {
            Err(error) => {
                proof {
                    lemma_protected_stop(models, i + 1);
                }
                return Err(error);
            },
            Ok(body) => {
                parts.push(body.to_owned());
            },
        }
        assert(texts(parts@) =~= texts(before).push(digest_body(models[i as int])));
        assert(digest_bodies(models.take(i + 1)) =~= digest_bodies(models.take(i as int)).push(
            digest_body(models[i as int]),
        ));
        i = i + 1;
    }
    assert(models.take(models.len() as int) =~= models);
    Ok(parts)
}

proof fn lemma_evicted(
    blobs: Seq<BlobModel>,
    order: Seq<int>,
    protected: Seq<Seq<char>>,
    keep: nat,
    count: nat,
)
    requires
        oldest_first(blobs, order, blobs.len()),
        count <= blobs.len(),
    ensures
        ({
            let gone = evicted(blobs, order, protected, keep, count);
            &&& gone.len() <= count
            &&& forall|i: int|
                0 <= i < gone.len() ==> {
                    &&& !protected.contains(blobs[#[trigger] gone[i]].hex)
                    &&& exists|k: int| 0 <= k < count && order[k] == gone[i]
                }
            &&& forall|i: int, j: int|
                0 <= i < j < gone.len() ==> blobs[#[trigger] gone[i]].modified
                    <= blobs[#[trigger] gone[j]].modified
            &&& gone.len() > 0 ==> blobs.len() - gone.len() >= keep
            &&& blobs.len() - gone.len() > keep ==> forall|k: int|
                0 <= k < count ==> protected.contains(blobs[#[trigger] order[k]].hex)
                    || gone.contains(order[k])
        }),
    decreases count,
{
    if count > 0 {
        let before = evicted(blobs, order, protected, keep, (count - 1) as nat);
        lemma_evicted(blobs, order, protected, keep, (count - 1) as nat);
        let gone = evicted(blobs, order, protected, keep, count);
        let place = order[count - 1];
        assert forall|i: int, j: int| 0 <= i < j < gone.len() implies blobs[#[trigger] gone[i]].modified
            <= blobs[#[trigger] gone[j]].modified by {
            if j == before.len() {
                assert(gone[i] == before[i]);
                let k = choose|k: int| 0 <= k < count - 1 && order[k] == before[i];
                assert(blobs[order[k]].modified <= blobs[order[count - 1]].modified);
            } else {
                assert(gone[i] == before[i]);
                assert(gone[j] == before[j]);
            }
        }
        if blobs.len() - gone.len() > keep {
            assert forall|k: int| 0 <= k < count implies protected.contains(
                blobs[#[trigger] order[k]].hex,
            ) || gone.contains(order[k]) by {
                if k < count - 1 {
                    if before.contains(order[k]) {
                        let m = before.index_of(order[k]);
                        assert(gone[m] == order[k]);
                    }
                } else if !protected.contains(blobs[place].hex) {
                    assert(gone[gone.len() - 1] == place);
                }
            }
        }
    }
}

/// An eviction removes no protected blob, takes the oldest first, and leaves
/// no fewer than the number to keep unless fewer were there. Where it leaves
/// more, all that is left is protected.
pub proof fn eviction_spares_what_is_protected(
    blobs: Seq<BlobModel>,
    protected: Seq<Seq<char>>,
    keep: nat,
)
    ensures
        ({
            let gone = evictions(blobs, protected, keep);
            &&& gone.len() <= blobs.len()
            &&& forall|i: int|
                0 <= i < gone.len() ==> !digest_bodies(protected).contains(
                    blobs[#[trigger] gone[i]].hex,
                )
            &&& forall|i: int, j: int|
                0 <= i < j < gone.len() ==> blobs[#[trigger] gone[i]].modified
                    <= blobs[#[trigger] gone[j]].modified
            &&& gone.len() > 0 ==> blobs.len() - gone.len() >= keep
            &&& blobs.len() - gone.len() > keep ==> forall|k: int|
                #![trigger blobs[k]]
                0 <= k < blobs.len() ==> digest_bodies(protected).contains(blobs[k].hex)
                    || gone.contains(k)
        }),
{
    let order = age_order(blobs, blobs.len());
    lemma_age_order(blobs, blobs.len());
    lemma_evicted(blobs, order, digest_bodies(protected), keep, blobs.len());
    lemma_covers(order);
    let gone = evictions(blobs, protected, keep);
    if blobs.len() - gone.len() > keep {
        assert forall|k: int| 0 <= k < blobs.len() implies digest_bodies(protected).contains(
            #[trigger] blobs[k].hex,
        ) || gone.contains(k) by {
            assert(order.contains(k));
            let m = order.index_of(k);
            assert(order[m] == k);
        }
    }
}

proof fn lemma_covers(order: Seq<int>)
    requires
        forall|i: int| 0 <= i < order.len() ==> 0 <= #[trigger] order[i] < order.len(),
        forall|i: int, j: int|
            0 <= i < j < order.len() ==> #[trigger] order[i] != #[trigger] order[j],
    ensures
        forall|k: int| 0 <= k < order.len() ==> #[trigger] order.contains(k),
{
    let places = order.to_set();
    let all = vstd::set_lib::set_int_range(0, order.len() as int);
    order.unique_seq_to_set();
    vstd::set_lib::lemma_int_range(0, order.len() as int);
    assert(places.subset_of(all));
    vstd::set_lib::lemma_subset_equality(places, all);
    assert forall|k: int| 0 <= k < order.len() implies #[trigger] order.contains(k) by {
        assert(all.contains(k));
        assert(places.contains(k));
    }
}

/// The weights of a digest are kept in one directory of the cache, under the
/// digits of the digest, and those of two digests in two places.
pub proof fn blobs_are_kept_by_digest(root: Seq<char>, left: Seq<char>, right: Seq<char>)
    requires
        weights_refusal(left) is None,
        weights_refusal(right) is None,
    ensures
        blob_place(root, left) == below(root, "sha256"@) + "/"@ + digest_body(left),
        is_digest_body(digest_body(left)),
        root.len() == 0 ==> below(root, "sha256"@) == "sha256"@,
        blob_place(root, left) == blob_place(root, right) ==> left == right,
{
    reveal_strlit("sha256");
    reveal_strlit("sha256:");
    reveal_strlit("/");
    let directory = below(root, "sha256"@);
    let a = digest_body(left);
    let b = digest_body(right);
    assert(directory.last() == '6');
    assert(a[0] != '/');
    assert(b[0] != '/');
    assert(root.len() == 0 ==> directory =~= "sha256"@);
    if blob_place(root, left) == blob_place(root, right) {
        let start = directory + "/"@;
        assert(blob_place(root, left) =~= start + a);
        assert(blob_place(root, right) =~= start + b);
        assert(a =~= (start + a).skip(start.len() as int));
        assert(b =~= (start + b).skip(start.len() as int));
        assert(left =~= left.take(7) + a);
        assert(right =~= right.take(7) + b);
    }
}

/// Weights come from an absolute path or from the web; other schemes are
/// refused.
pub proof fn weights_come_from_files_or_the_web(
    source: &str,
    result: Result<WeightSource, Error>,
)
    requires
        call_ensures(weight_source, (source,), result),
    ensures
        result is Ok <==> begins_with(source@, "file:///"@) || begins_with(source@, "http://"@)
            || begins_with(source@, "https://"@),
        result matches Ok(place) ==> {
            &&& place matches WeightSource::File(path) ==> {
                &&& source@ == "file://"@ + path@
                &&& path@.len() > 0 && path@[0] == '/'
            }
            &&& place matches WeightSource::Web(url) ==> url@ == source@ && !begins_with(
                source@,
                "file://"@,
            )
        },
{
    reveal_strlit("file://");
    reveal_strlit("file:///");
    reveal_strlit("/");
    reveal_strlit("http://");
    reveal_strlit("https://");
    let s = source@;
    if begins_with(s, "file:///"@) {
        assert(s.take(8)[7] == '/' && s[7] == s.take(8)[7]);
        assert(s.take(7) =~= "file:///"@.take(7));
        assert("file:///"@.take(7) =~= "file://"@);
        assert(s.skip(7).take(1) =~= "/"@);
    }
    if begins_with(s, "file://"@) {
        assert(s =~= "file://"@ + s.skip(7));
        assert(s[0] == s.take(7)[0]);
        if begins_with(s.skip(7), "/"@) {
            assert(s.skip(7).take(1)[0] == s[7]);
            assert(s.take(8) =~= s.take(7) + s.skip(7).take(1));
            assert("file:///"@ =~= "file://"@ + "/"@);
        }
        if begins_with(s, "http://"@) {
            assert(s.take(7)[0] == 'h');
        }
        if begins_with(s, "https://"@) {
            assert(s.take(8)[0] == 'h');
            assert(s[0] == s.take(8)[0]);
        }
    }
}

/// Weights verify exactly where their digest is the declared one.
pub proof fn weights_verify_by_digest(
    path: &str,
    content: &[u8],
    declared: &str,
    actual: String,
    result: Result<(), Error>,
)
    requires
        call_ensures(verify_weights, (path, content, declared), result),
        call_ensures(digest_of, (content,), actual),
    ensures
        result is Ok <==> actual@ == declared@,
{
    reveal_strlit("sha256:");
    let hex = sha256_hex(content@);
    if result is Ok {
        assert(declared@ =~= declared@.take(7) + declared@.skip(7));
    }
    if prefixed_digest(content@) == declared@ {
        assert(declared@.skip(7) =~= hex);
        assert(declared@.take(7) =~= "sha256:"@);
    }
}

/// Weights are found in the cache where a file stands in their place and holds
/// them; a file that holds something else is an error, and none is a miss.
pub proof fn cache_hits_are_verified(
    cache: &WeightCache,
    declared: &str,
    content: Option<&[u8]>,
    actual: String,
    place: Result<String, Error>,
    result: Result<Option<String>, Error>,
)
    requires
        content is Some ==> call_ensures(digest_of, (content->0,), actual),
        call_ensures(WeightCache::cached, (cache, declared, content), result),
        call_ensures(WeightCache::blob_path, (cache, declared), place),
    ensures
        content is Some ==> (result is Ok <==> actual@ == declared@),
        content is Some && result is Ok ==> result->Ok_0 is Some && result->Ok_0->0@
            == place->Ok_0@,
        content is None ==> (result is Ok <==> place is Ok),
        content is None && result is Ok ==> result->Ok_0 is None,
        place is Ok <==> is_digest(declared@),
{
    if content is Some {
        let bytes = content->0@;
        reveal_strlit("sha256:");
        if result is Ok {
            assert(declared@ =~= declared@.take(7) + declared@.skip(7));
        }
        if prefixed_digest(bytes) == declared@ {
            assert(declared@.skip(7) =~= sha256_hex(bytes));
            assert(declared@.take(7) =~= "sha256:"@);
        }
    }
}

/// What a fetch brought is promoted to its place in the cache where it has the
/// declared digest, and is not activated otherwise. It waits beside its place
/// until then.
pub proof fn fetched_weights_are_promoted_by_digest(
    cache: &WeightCache,
    declared: &str,
    content: &[u8],
    actual: String,
    place: Result<String, Error>,
    partial: Result<String, Error>,
    result: Result<String, Error>,
)
    requires
        call_ensures(WeightCache::settle_fetch, (cache, declared, content), result),
        call_ensures(digest_of, (content,), actual),
        call_ensures(WeightCache::blob_path, (cache, declared), place),
        call_ensures(WeightCache::partial_path, (cache, declared), partial),
    ensures
        result is Ok <==> actual@ == declared@,
        result is Ok ==> result->Ok_0@ == place->Ok_0@,
        partial is Ok <==> place is Ok,
        partial is Ok ==> partial->Ok_0@ == place->Ok_0@ + ".partial"@,
{
    let bytes = content@;
    reveal_strlit("sha256:");
    if result is Ok {
        assert(declared@ =~= declared@.take(7) + declared@.skip(7));
    }
    if prefixed_digest(bytes) == declared@ {
        assert(declared@.skip(7) =~= sha256_hex(bytes));
        assert(declared@.take(7) =~= "sha256:"@);
    }
}

/// A file of the cache holds a digest where its name is one, in either case.
pub proof fn blobs_are_named_by_their_digest(name: &str, hex: Option<String>)
    requires
        call_ensures(cached_name, (name,), hex),
    ensures
        crate::crypto::is_digest_body(name@) ==> hex is Some && hex->0@ == name@,
        hex is Some ==> crate::crypto::is_digest_body(hex->0@),
        name@.len() != 64 ==> hex is None,
{
    let low = name@.map_values(|c: char| ascii_lower(c));
    if crate::crypto::is_digest_body(name@) {
        assert forall|i: int| 0 <= i < name@.len() implies is_lower_hex(
            ascii_lower(#[trigger] name@[i]),
        ) by {}
        assert(low =~= name@);
    }
    if hex is Some {
        assert forall|i: int| 0 <= i < low.len() implies is_lower_hex(#[trigger] low[i]) by {
            assert(low[i] == ascii_lower(name@[i]));
        }
    }
}

proof fn lemma_protected_all(list: Seq<Seq<char>>)
    ensures
        protected_refusal(list) is None <==> forall|i: int|
            0 <= i < list.len() ==> is_digest(#[trigger] list[i]),
    decreases list.len(),
{
    if list.len() > 0 {
        let front = list.drop_last();
        lemma_protected_all(front);
        assert forall|i: int| 0 <= i < front.len() implies front[i] == list[i] by {}
        if protected_refusal(list) is None {
            assert forall|i: int| 0 <= i < list.len() implies is_digest(#[trigger] list[i]) by {
                if i < front.len() {
                    assert(is_digest(front[i]));
                }
            }
        } else if forall|i: int| 0 <= i < list.len() ==> is_digest(#[trigger] list[i]) {
            assert forall|i: int| 0 <= i < front.len() implies is_digest(#[trigger] front[i]) by {
                assert(is_digest(list[i]));
            }
            assert(is_digest(list[list.len() - 1]));
        }
    }
}

/// An eviction names digests of the cache that are not protected, each blob
/// once and the oldest first. It leaves no fewer blobs than are to be kept
/// unless fewer were there, and no more unless the rest is protected.
pub proof fn evictions_free_the_cache(
    protected: &Vec<String>,
    blobs: &Vec<CachedBlob>,
    keep: usize,
    result: Result<Vec<String>, Error>,
)
    requires
        call_ensures(WeightCache::evict, (protected, blobs, keep), result),
    ensures
        result is Ok <==> forall|i: int|
            0 <= i < protected@.len() ==> is_digest((#[trigger] protected@[i])@),
        result matches Ok(removed) ==> exists|order: Seq<int>|
            {
                &&& #[trigger] order.no_duplicates()
                &&& order.len() == removed@.len()
                &&& forall|i: int|
                    0 <= i < order.len() ==> {
                        &&& 0 <= #[trigger] order[i] < blobs@.len()
                        &&& removed@[i]@ == "sha256:"@ + blobs@[order[i]].hex@
                        &&& !texts(protected@).contains(removed@[i]@)
                    }
                &&& forall|i: int, j: int|
                    0 <= i < j < order.len() ==> blobs@[#[trigger] order[i]].modified
                        <= blobs@[#[trigger] order[j]].modified
                &&& order.len() > 0 ==> blobs@.len() - order.len() >= keep
                &&& blobs@.len() - order.len() > keep ==> forall|k: int|
                    #![trigger blobs@[k]]
                    0 <= k < blobs@.len() ==> order.contains(k) || texts(protected@).contains(
                        "sha256:"@ + blobs@[k].hex@,
                    )
            },
{
    let list = texts(protected@);
    lemma_protected_all(list);
    if forall|i: int| 0 <= i < protected@.len() ==> is_digest((#[trigger] protected@[i])@) {
        assert forall|i: int| 0 <= i < list.len() implies is_digest(#[trigger] list[i]) by {
            assert(list[i] == protected@[i]@);
        }
    } else {
        let i = choose|i: int|
            0 <= i < protected@.len() && !is_digest((#[trigger] protected@[i])@);
        assert(list[i] == protected@[i]@);
    }
    if result is Ok {
        reveal_strlit("sha256:");
        let removed = result->Ok_0;
        let models = blob_models(blobs@);
        let bodies = digest_bodies(list);
        let sorted = age_order(models, models.len());
        let gone = evictions(models, list, keep as nat);
        lemma_age_order(models, models.len());
        lemma_evicted(models, sorted, bodies, keep as nat, models.len());
        lemma_evicted_once(models, sorted, bodies, keep as nat, models.len());
        eviction_spares_what_is_protected(models, list, keep as nat);
        assert(texts(removed@) == digests_at(models, gone));
        assert(texts(removed@).len() == removed@.len());
        assert(digests_at(models, gone).len() == gone.len());
        assert forall|k: int| 0 <= k < blobs@.len() implies (bodies.contains(
            (#[trigger] blobs@[k]).hex@,
        ) <==> list.contains("sha256:"@ + blobs@[k].hex@)) by {
            let hex = blobs@[k].hex@;
            let whole = "sha256:"@ + hex;
            if bodies.contains(hex) {
                let j = choose|j: int| 0 <= j < bodies.len() && bodies[j] == hex;
                assert(is_digest(list[j]));
                assert(list[j] =~= list[j].take(7) + list[j].skip(7));
                assert(list[j] == whole);
            }
            if list.contains(whole) {
                let j = choose|j: int| 0 <= j < list.len() && list[j] == whole;
                assert(whole.skip(7) =~= hex);
                assert(bodies[j] == hex);
            }
        }
        assert forall|i: int| 0 <= i < gone.len() implies {
            &&& 0 <= #[trigger] gone[i] < blobs@.len()
            &&& removed@[i]@ == "sha256:"@ + blobs@[gone[i]].hex@
            &&& !list.contains(removed@[i]@)
        } by {
            let k = choose|k: int| 0 <= k < models.len() && sorted[k] == gone[i];
            assert(0 <= sorted[k] < models.len());
            assert(texts(removed@)[i] == removed@[i]@);
            assert(models[gone[i]] == blobs@[gone[i]]@);
        }
        assert forall|i: int, j: int| 0 <= i < j < gone.len() implies blobs@[#[trigger] gone[i]].modified
            <= blobs@[#[trigger] gone[j]].modified by {
            assert(models[gone[i]] == blobs@[gone[i]]@);
            assert(models[gone[j]] == blobs@[gone[j]]@);
        }
        if blobs@.len() - gone.len() > keep {
            assert forall|k: int|
                #![trigger blobs@[k]]
                0 <= k < blobs@.len() implies gone.contains(k) || list.contains(
                "sha256:"@ + blobs@[k].hex@,
            ) by {
                assert(models[k] == blobs@[k]@);
            }
        }
        assert(gone.no_duplicates());
    }
}

proof fn lemma_evicted_once(
    blobs: Seq<BlobModel>,
    order: Seq<int>,
    protected: Seq<Seq<char>>,
    keep: nat,
    count: nat,
)
    requires
        oldest_first(blobs, order, blobs.len()),
        count <= blobs.len(),
    ensures
        evicted(blobs, order, protected, keep, count).no_duplicates(),
        forall|i: int|
            0 <= i < evicted(blobs, order, protected, keep, count).len() ==> exists|k: int|
                0 <= k < count && order[k] == #[trigger] evicted(
                    blobs,
                    order,
                    protected,
                    keep,
                    count,
                )[i],
    decreases count,
{
    if count > 0 {
        let before = evicted(blobs, order, protected, keep, (count - 1) as nat);
        lemma_evicted_once(blobs, order, protected, keep, (count - 1) as nat);
        let gone = evicted(blobs, order, protected, keep, count);
        let place = order[count - 1];
        assert forall|i: int| 0 <= i < gone.len() implies exists|k: int|
            0 <= k < count && order[k] == #[trigger] gone[i] by {
            if i < before.len() {
                assert(gone[i] == before[i]);
            } else {
                assert(order[count - 1] == gone[i]);
            }
        }
        assert forall|i: int| 0 <= i < before.len() implies #[trigger] before[i] != place by {
            let k = choose|k: int| 0 <= k < count - 1 && order[k] == before[i];
            assert(order[k] != order[count - 1]);
        }
    }
}

} // verus!
