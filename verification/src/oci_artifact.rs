//! Artifacts that releases name by content digest.
//!
//! The catalog is no registry, and a registry is no second catalog. An
//! environment pulls from its mirrors alone.
pub mod registry;

pub use registry::{
    selected_store, verify_environment_pull, verify_publication, ArtifactRegistry,
    FilesystemArtifactRegistry, MemoryArtifactRegistry,
};

use crate::error::{first_refusal, refusal, refuse_unless, Error};
use crate::framing::{
    frame_le, frameable, le64, lemma_frame_le_cancel, lemma_le64_cancel, lemma_utf8_injective,
    push_all, push_bytes_le, push_le64, utf8,
};
use crate::ontology::lemma_delimited;
use crate::ordering::{
    arranged, arranging_keeps_the_items, lemma_text_order, order_texts, places, text_order,
};
use crate::signature_verification::{digest_refusal, validate_prefixed_digest};
use crate::text::{
    begins_with, chars_of, contains, contains_char, contains_text, control, quote, quoted, split,
    split_on, strip_prefix, text_less, text_less_irreflexive, text_less_total,
    text_less_transitive, text_of, texts,
};
use crate::text_map::{text_values, TextMap};
use vstd::prelude::*;

verus! {

/// The schema under which references enter a content identity.
pub const ARTIFACT_REF_SCHEMA: &'static str = "tenkai.oci_artifact.v1";

/// The prefix of the properties that name mirrors.
pub const MIRROR_PROPERTY_PREFIX: &'static str = "artifact_mirror.";

/// Where layers stand in a bundle.
pub const LAYER_ENTRY_PREFIX: &'static str = "oci-layers/";

/// A reference to an artifact.
#[derive(Debug, PartialEq, Eq)]
pub struct OciArtifactRef {
    pub registry: String,
    pub repository: String,
    pub digest: String,
    pub media_type: String,
}

/// What a reference says.
pub struct RefModel {
    pub registry: Seq<char>,
    pub repository: Seq<char>,
    pub digest: Seq<char>,
    pub media_type: Seq<char>,
}

impl View for OciArtifactRef {
    type V = RefModel;

    open spec fn view(&self) -> RefModel {
        RefModel {
            registry: self.registry@,
            repository: self.repository@,
            digest: self.digest@,
            media_type: self.media_type@,
        }
    }
}

/// What references say.
pub open spec fn ref_models(list: Seq<OciArtifactRef>) -> Seq<RefModel> {
    list.map_values(|item: OciArtifactRef| item@)
}

/// No part of a text between dots is empty.
pub open spec fn parts_filled(text: Seq<char>) -> bool {
    forall|i: int|
        0 <= i < split_on(text, '.').len() ==> (#[trigger] split_on(text, '.')[i]).len() > 0
}

/// A host name without a scheme or credentials.
pub open spec fn host_name(host: Seq<char>) -> bool {
    host.len() > 0 && !host.contains('/') && !host.contains('\\') && !host.contains('@')
        && parts_filled(host)
}

/// Why a host is refused.
pub open spec fn host_refusal(label: Seq<char>, host: Seq<char>) -> Option<Seq<char>> {
    refuse_unless(
        host_name(host),
        label + " "@ + quoted(host) + " must be a host name without scheme or credentials"@,
    )
}

fn is_host_name(host: &str) -> (answer: bool)
    ensures
        answer == host_name(host@),
{
    if host.unicode_len() == 0 || contains_char(host, '/') || contains_char(host, '\\')
        || contains_char(host, '@') {
        return false;
    }
    let parts = split(host, '.');
    let ghost models = split_on(host@, '.');
    let mut i: usize = 0;
    while i < parts.len()
        invariant
            i <= parts.len(),
            models == split_on(host@, '.'),
            models == texts(parts@),
            forall|k: int| 0 <= k < i ==> (#[trigger] models[k]).len() > 0,
        decreases parts.len() - i,
    {
        assert(models[i as int] == parts@[i as int]@);
        if parts[i].as_str().unicode_len() == 0 {
            return false;
        }
        i = i + 1;
    }
    true
}

/// Require a host name.
pub fn validate_registry_host(label: &str, host: &str) -> (result: Result<(), Error>)
    ensures
        refusal(result) == host_refusal(label@, host@),
{
    if !is_host_name(host) {
        let mut message = label.to_owned();
        message.append(" ");
        message.append(quote(host).as_str());
        message.append(" must be a host name without scheme or credentials");
        return Err(Error::new(message));
    }
    Ok(())
}

/// A text without control characters that is not empty.
pub open spec fn plain_text(text: Seq<char>) -> bool {
    text.len() > 0 && forall|i: int| 0 <= i < text.len() ==> !control(#[trigger] text[i])
}

/// A repository path: relative, without steps up.
pub open spec fn repository_path(path: Seq<char>) -> bool {
    path.len() > 0 && path[0] != '/' && !contains_text(path, ".."@)
}

/// Why a reference is refused.
pub open spec fn ref_refusal(r: RefModel) -> Option<Seq<char>> {
    first_refusal(
        host_refusal("artifact registry"@, r.registry),
        first_refusal(
            refuse_unless(
                repository_path(r.repository),
                "artifact repository "@ + quoted(r.repository)
                    + " must be a relative repository path"@,
            ),
            first_refusal(
                digest_refusal("artifact digest"@, r.digest),
                refuse_unless(
                    plain_text(r.media_type),
                    "artifact media type must be a non-empty media type"@,
                ),
            ),
        ),
    )
}

/// The key by which a registry keeps a reference.
pub open spec fn ref_key(r: RefModel) -> Seq<char> {
    r.registry + "/"@ + r.repository + "/"@ + r.media_type + "@"@ + r.digest
}

/// A text with dashes for colons.
pub open spec fn dashed(text: Seq<char>) -> Seq<char> {
    text.map_values(
        |c: char|
            if c == ':' {
                '-'
            } else {
                c
            },
    )
}

/// Put dashes for the colons of a text.
pub fn dash(text: &str) -> (result: String)
    ensures
        result@ == dashed(text@),
{
    let chars = chars_of(text);
    let mut output: Vec<char> = Vec::new();
    let mut i: usize = 0;
    while i < chars.len()
        invariant
            i <= chars.len(),
            chars@ == text@,
            output@ == dashed(text@).take(i as int),
        decreases chars.len() - i,
    {
        if chars[i] == ':' {
            output.push('-');
        } else {
            output.push(chars[i]);
        }
        i = i + 1;
        assert(output@ =~= dashed(text@).take(i as int));
    }
    assert(output@ =~= dashed(text@));
    text_of(&output)
}

fn is_plain(text: &str) -> (answer: bool)
    ensures
        answer == plain_text(text@),
{
    let chars = chars_of(text);
    if chars.len() == 0 {
        return false;
    }
    let mut i: usize = 0;
    while i < chars.len()
        invariant
            i <= chars.len(),
            chars@ == text@,
            forall|k: int| 0 <= k < i ==> !control(#[trigger] text@[k]),
        decreases chars.len() - i,
    {
        if chars[i].is_control() {
            assert(control(text@[i as int]));
            return false;
        }
        i = i + 1;
    }
    true
}

fn is_repository_path(path: &str) -> (answer: bool)
    ensures
        answer == repository_path(path@),
{
    let chars = chars_of(path);
    chars.len() > 0 && chars[0] != '/' && !contains(path, "..")
}

impl OciArtifactRef {
    /// Check a reference.
    pub fn validate(&self) -> (result: Result<(), Error>)
        ensures
            refusal(result) == ref_refusal(self@),
    {
        match validate_registry_host("artifact registry", &self.registry) {
            Err(error) => return Err(error),
            Ok(_) => {},
        }
        if !is_repository_path(&self.repository) {
            let mut message = "artifact repository ".to_owned();
            message.append(quote(&self.repository).as_str());
            message.append(" must be a relative repository path");
            return Err(Error::new(message));
        }
        match validate_prefixed_digest("artifact digest", &self.digest) {
            Err(error) => return Err(error),
            Ok(_) => {},
        }
        if !is_plain(&self.media_type) {
            return Err(Error::fixed("artifact media type must be a non-empty media type"));
        }
        Ok(())
    }

    /// The key by which a registry keeps the reference.
    pub fn identity_key(&self) -> (key: String)
        ensures
            key@ == ref_key(self@),
    {
        let mut key = self.registry.clone();
        key.append("/");
        key.append(self.repository.as_str());
        key.append("/");
        key.append(self.media_type.as_str());
        key.append("@");
        key.append(self.digest.as_str());
        key
    }

    /// Where the layer stands in a bundle.
    pub fn layer_entry_path(&self) -> (result: Result<String, Error>)
        ensures
            refusal(result) == ref_refusal(self@),
            result matches Ok(path) ==> path@ == LAYER_ENTRY_PREFIX@ + dashed(self@.digest),
    {
        match self.validate() {
            Err(error) => Err(error),
            Ok(_) => {
                let mut path = LAYER_ENTRY_PREFIX.to_owned();
                path.append(dash(&self.digest).as_str());
                Ok(path)
            },
        }
    }

    /// A copy of the reference.
    pub fn copy(&self) -> (copy: OciArtifactRef)
        ensures
            copy@ == self@,
    {
        OciArtifactRef {
            registry: self.registry.clone(),
            repository: self.repository.clone(),
            digest: self.digest.clone(),
            media_type: self.media_type.clone(),
        }
    }
}

/// Why references are refused: for the first of them that is.
pub open spec fn refs_refusal(list: Seq<RefModel>) -> Option<Seq<char>>
    decreases list.len(),
{
    if list.len() == 0 {
        None
    } else {
        first_refusal(refs_refusal(list.drop_last()), ref_refusal(list.last()))
    }
}

proof fn lemma_refs_stop(list: Seq<RefModel>, count: int)
    requires
        0 <= count <= list.len(),
        refs_refusal(list.take(count)) is Some,
    ensures
        refs_refusal(list) == refs_refusal(list.take(count)),
    decreases list.len(),
{
    if count < list.len() {
        assert(list.drop_last().take(count) =~= list.take(count));
        lemma_refs_stop(list.drop_last(), count);
    } else {
        assert(list.take(count) =~= list);
    }
}

/// Check references.
pub fn validate_all(artifacts: &Vec<OciArtifactRef>) -> (result: Result<(), Error>)
    ensures
        refusal(result) == refs_refusal(ref_models(artifacts@)),
{
    let ghost models = ref_models(artifacts@);
    let mut i: usize = 0;
    while i < artifacts.len()
        invariant
            i <= artifacts.len(),
            models == ref_models(artifacts@),
            refs_refusal(models.take(i as int)) is None,
        decreases artifacts.len() - i,
    {
        assert(models.take(i + 1).drop_last() =~= models.take(i as int));
        assert(models.take(i + 1).last() == artifacts@[i as int]@);
        match artifacts[i].validate() {
            Err(error) => {
                proof {
                    lemma_refs_stop(models, i + 1);
                }
                return Err(error);
            },
            Ok(_) => {},
        }
        i = i + 1;
    }
    assert(models.take(models.len() as int) =~= models);
    Ok(())
}

/// The keys of references.
pub open spec fn ref_keys(list: Seq<RefModel>) -> Seq<Seq<char>> {
    list.map_values(|r: RefModel| ref_key(r))
}

/// References in the order of their keys.
pub open spec fn ordered_refs(list: Seq<RefModel>) -> Seq<RefModel> {
    arranged(list, text_order(ref_keys(list)))
}

/// One reference as it enters a content identity.
pub open spec fn ref_bytes(r: RefModel) -> Seq<u8> {
    frame_le(utf8(r.registry)) + frame_le(utf8(r.repository)) + frame_le(utf8(r.digest)) + frame_le(
        utf8(r.media_type),
    )
}

/// References, one behind the other, as they enter a content identity.
pub open spec fn refs_bytes(list: Seq<RefModel>) -> Seq<u8>
    decreases list.len(),
{
    if list.len() == 0 {
        Seq::<u8>::empty()
    } else {
        refs_bytes(list.drop_last()) + ref_bytes(list.last())
    }
}

/// What references add to a content identity.
pub open spec fn identity_bytes(list: Seq<RefModel>) -> Seq<u8> {
    utf8(ARTIFACT_REF_SCHEMA@) + le64(list.len()) + refs_bytes(ordered_refs(list))
}

fn push_ref(output: &mut Vec<u8>, artifact: &OciArtifactRef)
    ensures
        final(output)@ == old(output)@ + ref_bytes(artifact@),
{
    push_bytes_le(output, artifact.registry.as_str().as_bytes());
    push_bytes_le(output, artifact.repository.as_str().as_bytes());
    push_bytes_le(output, artifact.digest.as_str().as_bytes());
    push_bytes_le(output, artifact.media_type.as_str().as_bytes());
    assert(output@ =~= old(output)@ + ref_bytes(artifact@));
}

fn keys_of(artifacts: &Vec<OciArtifactRef>) -> (keys: Vec<String>)
    ensures
        texts(keys@) == ref_keys(ref_models(artifacts@)),
{
    let ghost models = ref_models(artifacts@);
    let mut keys: Vec<String> = Vec::new();
    let mut i: usize = 0;
    assert(texts(keys@) =~= ref_keys(models).take(0));
    while i < artifacts.len()
        invariant
            i <= artifacts.len(),
            models == ref_models(artifacts@),
            texts(keys@) == ref_keys(models).take(i as int),
        decreases artifacts.len() - i,
    {
        let ghost before = keys@;
        keys.push(artifacts[i].identity_key());
        assert(texts(keys@) =~= texts(before).push(ref_key(models[i as int])));
        assert(texts(keys@) =~= ref_keys(models).take(i + 1));
        i = i + 1;
    }
    assert(texts(keys@) =~= ref_keys(models));
    keys
}

/// Add references to what a content identity is the digest of.
pub fn bind_identity(output: &mut Vec<u8>, artifacts: &Vec<OciArtifactRef>)
    ensures
        final(output)@ == old(output)@ + identity_bytes(ref_models(artifacts@)),
{
    let ghost start = output@;
    let ghost models = ref_models(artifacts@);
    push_all(output, ARTIFACT_REF_SCHEMA.as_bytes());
    push_le64(output, artifacts.len() as u64);
    let ghost head = output@;
    let keys = keys_of(artifacts);
    let order = order_texts(&keys);
    let ghost ordered = ordered_refs(models);
    proof {
        lemma_text_order(ref_keys(models));
    }
    let mut i: usize = 0;
    assert(refs_bytes(ordered.take(0)) =~= Seq::<u8>::empty());
    assert(output@ =~= head + refs_bytes(ordered.take(0)));
    while i < order.len()
        invariant
            i <= order.len(),
            models == ref_models(artifacts@),
            ordered == ordered_refs(models),
            ordered == arranged(models, places(order@)),
            order@.len() == artifacts@.len(),
            forall|k: int| 0 <= k < order@.len() ==> #[trigger] order@[k] < artifacts@.len(),
            output@ == head + refs_bytes(ordered.take(i as int)),
        decreases order.len() - i,
    {
        let ghost before = output@;
        let artifact = &artifacts[order[i]];
        push_ref(output, artifact);
        proof {
            assert(places(order@)[i as int] == order@[i as int]);
            assert(ordered[i as int] == artifact@);
            assert(ordered.take(i + 1).drop_last() =~= ordered.take(i as int));
            assert(ordered.take(i + 1).last() == artifact@);
            assert(output@ =~= head + refs_bytes(ordered.take(i + 1)));
        }
        i = i + 1;
    }
    assert(ordered.take(ordered.len() as int) =~= ordered);
    assert(output@ =~= start + identity_bytes(models));
}

/// The mirrors that properties name, by registry.
pub open spec fn mirror_map(properties: Map<Seq<char>, Seq<char>>) -> Map<Seq<char>, Seq<char>> {
    Map::new(
        |registry: Seq<char>| properties.contains_key(MIRROR_PROPERTY_PREFIX@ + registry),
        |registry: Seq<char>| properties[MIRROR_PROPERTY_PREFIX@ + registry],
    )
}

/// The mirrors that the properties of an environment name.
pub fn mirrors_from_properties(properties: &TextMap<String>) -> (mirrors: TextMap<String>)
    ensures
        text_values(mirrors@) == mirror_map(text_values(properties@)),
{
    let ghost prefix = MIRROR_PROPERTY_PREFIX@;
    let ghost keys = properties.keys();
    let mut mirrors: TextMap<String> = TextMap::new();
    let count = properties.len();
    let mut i: usize = 0;
    while i < count
        invariant
            i <= count,
            count == keys.len(),
            keys == properties.keys(),
            prefix == MIRROR_PROPERTY_PREFIX@,
            forall|k: int|
                0 <= k < i && begins_with(#[trigger] keys[k], prefix) ==> mirrors@.contains_key(
                    keys[k].skip(prefix.len() as int),
                ),
            forall|registry: Seq<char>| #[trigger]
                mirrors@.contains_key(registry) ==> properties@.contains_key(prefix + registry)
                    && mirrors@[registry]@ == properties@[prefix + registry]@,
        decreases count - i,
    {
        let key = properties.key_at(i);
        match strip_prefix(key.as_str(), MIRROR_PROPERTY_PREFIX) {
            None => {},
            Some(registry) => {
                let value = properties.value_at(i);
                assert(prefix + registry@ =~= key@);
                mirrors.insert(registry.to_owned(), value.clone());
            },
        }
        i = i + 1;
    }
    proof {
        properties.lemma_keys();
        assert forall|registry: Seq<char>| #[trigger]
            properties@.contains_key(prefix + registry) implies mirrors@.contains_key(registry) by {
            let key = prefix + registry;
            assert(keys.contains(key));
            let k = keys.index_of(key);
            assert(key.take(prefix.len() as int) =~= prefix);
            assert(begins_with(keys[k], prefix));
            assert(keys[k].skip(prefix.len() as int) =~= registry);
        }
        assert(text_values(mirrors@) =~= mirror_map(text_values(properties@)));
    }
    mirrors
}

/// The label of a mirror in messages.
pub open spec fn mirror_label(registry: Seq<char>) -> Seq<char> {
    "artifact mirror for registry "@ + registry
}

/// Why a reference cannot be pulled through mirrors.
pub open spec fn pull_refusal(r: RefModel, mirrors: Map<Seq<char>, Seq<char>>) -> Option<
    Seq<char>,
> {
    first_refusal(
        ref_refusal(r),
        if !mirrors.contains_key(r.registry) {
            Some(
                "environment has no artifact mirror for registry "@ + r.registry
                    + "; origin pull is refused"@,
            )
        } else {
            host_refusal(mirror_label(r.registry), mirrors[r.registry])
        },
    )
}

/// A reference on the mirror of its registry.
pub open spec fn mirrored(r: RefModel, mirrors: Map<Seq<char>, Seq<char>>) -> RefModel {
    RefModel { registry: mirrors[r.registry], ..r }
}

/// Put a reference on the mirror of the environment. The origin is never
/// pulled from.
pub fn pull_reference(reference: &OciArtifactRef, mirrors: &TextMap<String>) -> (result: Result<
    OciArtifactRef,
    Error,
>)
    ensures
        refusal(result) == pull_refusal(reference@, text_values(mirrors@)),
        result matches Ok(pull) ==> pull@ == mirrored(reference@, text_values(mirrors@)),
{
    match reference.validate() {
        Err(error) => return Err(error),
        Ok(_) => {},
    }
    let mirror = match mirrors.get(reference.registry.as_str()) {
        None => {
            let mut message = "environment has no artifact mirror for registry ".to_owned();
            message.append(reference.registry.as_str());
            message.append("; origin pull is refused");
            return Err(Error::new(message));
        },
        Some(host) => host,
    };
    let mut label = "artifact mirror for registry ".to_owned();
    label.append(reference.registry.as_str());
    match validate_registry_host(&label, mirror) {
        Err(error) => return Err(error),
        Ok(_) => {},
    }
    Ok(
        OciArtifactRef {
            registry: mirror.clone(),
            repository: reference.repository.clone(),
            digest: reference.digest.clone(),
            media_type: reference.media_type.clone(),
        },
    )
}

/// A pull keeps the content: it changes the registry alone, to a host that the
/// environment names, and what it gives is valid.
pub proof fn pull_changes_the_registry_alone(r: RefModel, mirrors: Map<Seq<char>, Seq<char>>)
    requires
        pull_refusal(r, mirrors) is None,
    ensures
        ({
            let pull = mirrored(r, mirrors);
            &&& mirrors.contains_key(r.registry)
            &&& pull.registry == mirrors[r.registry]
            &&& pull.repository == r.repository
            &&& pull.digest == r.digest
            &&& pull.media_type == r.media_type
            &&& ref_refusal(pull) is None
        }),
{
}

/// A registry that an environment has no mirror for is not pulled from.
pub proof fn origin_is_never_pulled(r: RefModel, mirrors: Map<Seq<char>, Seq<char>>)
    requires
        !mirrors.contains_key(r.registry),
    ensures
        pull_refusal(r, mirrors) is Some,
{
}

/// Valid references with one key are of one registry and one content.
pub proof fn key_fixes_registry_and_digest(a: RefModel, b: RefModel)
    requires
        ref_refusal(a) is None,
        ref_refusal(b) is None,
        ref_key(a) == ref_key(b),
    ensures
        a.registry == b.registry,
        a.digest == b.digest,
{
    reveal_strlit("/");
    reveal_strlit("sha256:");
    let slash = "/"@;
    let none = Seq::<char>::empty();
    assert(slash =~= seq!['/']);
    let a_rest = a.repository + slash + a.media_type + "@"@ + a.digest;
    let b_rest = b.repository + slash + b.media_type + "@"@ + b.digest;
    assert(ref_key(a) =~= none + a.registry + slash + a_rest);
    assert(ref_key(b) =~= none + b.registry + slash + b_rest);
    lemma_delimited(none, a.registry, b.registry, a_rest, b_rest, '/', slash);
    lemma_digest_length(a.digest);
    lemma_digest_length(b.digest);
    let key = ref_key(a);
    let from = key.len() - 71;
    assert(key.skip(from) =~= a.digest);
    assert(ref_key(b).skip(from) =~= b.digest);
}

proof fn lemma_digest_length(digest: Seq<char>)
    requires
        digest_refusal("artifact digest"@, digest) is None,
    ensures
        digest.len() == 71,
{
    reveal_strlit("sha256:");
    assert(digest.skip(7).len() == 64);
}

/// References whose texts can be framed.
pub open spec fn frameable_refs(list: Seq<RefModel>) -> bool {
    list.len() < 0x1_0000_0000_0000_0000 && forall|i: int|
        0 <= i < list.len() ==> {
            &&& frameable(utf8((#[trigger] list[i]).registry))
            &&& frameable(utf8(list[i].repository))
            &&& frameable(utf8(list[i].digest))
            &&& frameable(utf8(list[i].media_type))
        }
}

/// The bytes of references from one place on.
spec fn refs_bytes_from(list: Seq<RefModel>, at: int) -> Seq<u8>
    decreases list.len() - at,
{
    if at < 0 || at >= list.len() {
        Seq::<u8>::empty()
    } else {
        ref_bytes(list[at]) + refs_bytes_from(list, at + 1)
    }
}

proof fn lemma_refs_bytes_split(list: Seq<RefModel>, at: int)
    requires
        0 <= at <= list.len(),
    ensures
        refs_bytes(list) == refs_bytes(list.take(at)) + refs_bytes_from(list, at),
    decreases list.len() - at,
{
    if at == list.len() {
        assert(list.take(at) =~= list);
        assert(refs_bytes_from(list, at) =~= Seq::<u8>::empty());
        assert(refs_bytes(list) =~= refs_bytes(list) + Seq::<u8>::empty());
    } else {
        lemma_refs_bytes_split(list, at + 1);
        assert(list.take(at + 1).drop_last() =~= list.take(at));
        assert(list.take(at + 1).last() == list[at]);
        assert(refs_bytes(list.take(at + 1)) == refs_bytes(list.take(at)) + ref_bytes(list[at]));
        assert(refs_bytes(list) =~= refs_bytes(list.take(at)) + (ref_bytes(list[at])
            + refs_bytes_from(list, at + 1)));
    }
}

proof fn lemma_four_parts(a: Seq<u8>, b: Seq<u8>, c: Seq<u8>, d: Seq<u8>, x: Seq<u8>)
    ensures
        a + b + c + d + x == Seq::<u8>::empty() + a + (b + (c + (d + x))),
        b + (c + (d + x)) == Seq::<u8>::empty() + b + (c + (d + x)),
        c + (d + x) == Seq::<u8>::empty() + c + (d + x),
        d + x == Seq::<u8>::empty() + d + x,
{
    let none = Seq::<u8>::empty();
    assert(a + b + c + d + x =~= none + a + (b + (c + (d + x))));
    assert(b + (c + (d + x)) =~= none + b + (c + (d + x)));
    assert(c + (d + x) =~= none + c + (d + x));
    assert(d + x =~= none + d + x);
}

proof fn lemma_ref_cancel(a: RefModel, b: RefModel, x: Seq<u8>, y: Seq<u8>)
    requires
        frameable(utf8(a.registry)),
        frameable(utf8(a.repository)),
        frameable(utf8(a.digest)),
        frameable(utf8(a.media_type)),
        frameable(utf8(b.registry)),
        frameable(utf8(b.repository)),
        frameable(utf8(b.digest)),
        frameable(utf8(b.media_type)),
        ref_bytes(a) + x == ref_bytes(b) + y,
    ensures
        a == b,
        x == y,
{
    let none = Seq::<u8>::empty();
    let a4 = frame_le(utf8(a.media_type)) + x;
    let b4 = frame_le(utf8(b.media_type)) + y;
    let a3 = frame_le(utf8(a.digest)) + a4;
    let b3 = frame_le(utf8(b.digest)) + b4;
    let a2 = frame_le(utf8(a.repository)) + a3;
    let b2 = frame_le(utf8(b.repository)) + b3;
    lemma_four_parts(
        frame_le(utf8(a.registry)),
        frame_le(utf8(a.repository)),
        frame_le(utf8(a.digest)),
        frame_le(utf8(a.media_type)),
        x,
    );
    lemma_four_parts(
        frame_le(utf8(b.registry)),
        frame_le(utf8(b.repository)),
        frame_le(utf8(b.digest)),
        frame_le(utf8(b.media_type)),
        y,
    );
    lemma_frame_le_cancel(none, utf8(a.registry), utf8(b.registry), a2, b2);
    lemma_frame_le_cancel(none, utf8(a.repository), utf8(b.repository), a3, b3);
    lemma_frame_le_cancel(none, utf8(a.digest), utf8(b.digest), a4, b4);
    lemma_frame_le_cancel(none, utf8(a.media_type), utf8(b.media_type), x, y);
    lemma_utf8_injective(a.registry, b.registry);
    lemma_utf8_injective(a.repository, b.repository);
    lemma_utf8_injective(a.digest, b.digest);
    lemma_utf8_injective(a.media_type, b.media_type);
}

proof fn lemma_refs_from_equal(a: Seq<RefModel>, b: Seq<RefModel>, at: int)
    requires
        a.len() == b.len(),
        0 <= at <= a.len(),
        frameable_refs(a),
        frameable_refs(b),
        refs_bytes_from(a, at) == refs_bytes_from(b, at),
    ensures
        forall|i: int| at <= i < a.len() ==> a[i] == #[trigger] b[i],
    decreases a.len() - at,
{
    if at < a.len() {
        lemma_ref_cancel(a[at], b[at], refs_bytes_from(a, at + 1), refs_bytes_from(b, at + 1));
        lemma_refs_from_equal(a, b, at + 1);
    }
}

/// What references add to a content identity tells them apart: equal bytes
/// come from the same references in the order of their keys.
pub proof fn identity_bytes_bind_the_artifacts(a: Seq<RefModel>, b: Seq<RefModel>)
    requires
        frameable_refs(a),
        frameable_refs(b),
        identity_bytes(a) == identity_bytes(b),
    ensures
        ordered_refs(a) == ordered_refs(b),
{
    let schema = utf8(ARTIFACT_REF_SCHEMA@);
    let x = ordered_refs(a);
    let y = ordered_refs(b);
    lemma_text_order(ref_keys(a));
    lemma_text_order(ref_keys(b));
    lemma_le64_cancel(schema, a.len(), b.len(), refs_bytes(x), refs_bytes(y));
    lemma_refs_bytes_split(x, 0);
    lemma_refs_bytes_split(y, 0);
    assert(refs_bytes(x.take(0)) =~= Seq::<u8>::empty());
    assert(refs_bytes(y.take(0)) =~= Seq::<u8>::empty());
    assert(refs_bytes(x) =~= refs_bytes_from(x, 0));
    assert(refs_bytes(y) =~= refs_bytes_from(y, 0));
    assert forall|i: int| 0 <= i < x.len() implies {
        &&& frameable(utf8((#[trigger] x[i]).registry))
        &&& frameable(utf8(x[i].repository))
        &&& frameable(utf8(x[i].digest))
        &&& frameable(utf8(x[i].media_type))
    } by {
        let place = text_order(ref_keys(a))[i];
        assert(x[i] == a[place]);
    }
    assert forall|i: int| 0 <= i < y.len() implies {
        &&& frameable(utf8((#[trigger] y[i]).registry))
        &&& frameable(utf8(y[i].repository))
        &&& frameable(utf8(y[i].digest))
        &&& frameable(utf8(y[i].media_type))
    } by {
        let place = text_order(ref_keys(b))[i];
        assert(y[i] == b[place]);
    }
    lemma_refs_from_equal(x, y, 0);
    assert(x =~= y);
}

/// No two references of a list have one key.
pub open spec fn keys_distinct(list: Seq<RefModel>) -> bool {
    forall|i: int, j: int|
        0 <= i < j < list.len() ==> ref_key(#[trigger] list[i]) != ref_key(#[trigger] list[j])
}

spec fn keys_ascend(list: Seq<RefModel>) -> bool {
    forall|i: int, j: int|
        0 <= i < j < list.len() ==> text_less(
            ref_key(#[trigger] list[i]),
            ref_key(#[trigger] list[j]),
        )
}

proof fn lemma_ascending_equal(x: Seq<RefModel>, y: Seq<RefModel>)
    requires
        keys_ascend(x),
        keys_ascend(y),
        forall|r: RefModel| #[trigger] x.contains(r) <==> y.contains(r),
    ensures
        x == y,
    decreases x.len(),
{
    if x.len() == 0 {
        if y.len() > 0 {
            assert(y.contains(y[0]));
            assert(x.contains(y[0]));
        }
        assert(x =~= y);
    } else {
        assert(x.contains(x[0]));
        assert(y.contains(x[0]));
        let last_x = x[x.len() - 1];
        let last_y = y[y.len() - 1];
        assert(x.contains(last_x));
        assert(y.contains(last_y));
        assert(x.contains(last_y));
        let in_y = y.index_of(last_x);
        let in_x = x.index_of(last_y);
        if last_x != last_y {
            assert(text_less(ref_key(y[in_y]), ref_key(last_y)));
            assert(text_less(ref_key(x[in_x]), ref_key(last_x)));
            text_less_transitive(ref_key(last_x), ref_key(last_y), ref_key(last_x));
            text_less_irreflexive(ref_key(last_x));
        }
        let front_x = x.drop_last();
        let front_y = y.drop_last();
        assert forall|r: RefModel| #[trigger] front_x.contains(r) <==> front_y.contains(r) by {
            if front_x.contains(r) {
                let i = front_x.index_of(r);
                assert(x[i] == r);
                assert(x.contains(r));
                let j = y.index_of(r);
                assert(text_less(ref_key(x[i]), ref_key(last_x)));
                if j == y.len() - 1 {
                    text_less_irreflexive(ref_key(last_x));
                }
                assert(front_y[j] == r);
            }
            if front_y.contains(r) {
                let j = front_y.index_of(r);
                assert(y[j] == r);
                assert(y.contains(r));
                assert(x.contains(r));
                let i = x.index_of(r);
                assert(text_less(ref_key(y[j]), ref_key(last_y)));
                if i == x.len() - 1 {
                    text_less_irreflexive(ref_key(last_y));
                }
                assert(front_x[i] == r);
            }
        }
        lemma_ascending_equal(front_x, front_y);
        assert(x =~= front_x.push(last_x));
        assert(y =~= front_y.push(last_y));
    }
}

proof fn lemma_ordered_ascends(list: Seq<RefModel>)
    requires
        keys_distinct(list),
    ensures
        keys_ascend(ordered_refs(list)),
        forall|r: RefModel| #[trigger] ordered_refs(list).contains(r) <==> list.contains(r),
{
    let keys = ref_keys(list);
    let order = text_order(keys);
    let result = ordered_refs(list);
    lemma_text_order(keys);
    arranging_keeps_the_items(list, keys);
    assert forall|i: int, j: int| 0 <= i < j < result.len() implies text_less(
        ref_key(#[trigger] result[i]),
        ref_key(#[trigger] result[j]),
    ) by {
        let p = order[i];
        let q = order[j];
        assert(!text_less(keys[order[j]], keys[order[i]]) && (keys[order[i]] == keys[order[j]]
            ==> order[i] < order[j]));
        assert(p != q) by {
            if p == q {
                assert(keys[order[i]] == keys[order[j]]);
            }
        }
        assert(ref_key(list[p]) != ref_key(list[q])) by {
            if p < q {
            } else {
                assert(ref_key(list[q]) != ref_key(list[p]));
            }
        }
        text_less_total(keys[p], keys[q]);
    }
}

/// The order in which artifacts are declared does not enter a content
/// identity.
pub proof fn declaration_order_is_no_identity(a: Seq<RefModel>, b: Seq<RefModel>)
    requires
        keys_distinct(a),
        keys_distinct(b),
        a.len() == b.len(),
        forall|r: RefModel| #[trigger] a.contains(r) <==> b.contains(r),
    ensures
        identity_bytes(a) == identity_bytes(b),
{
    lemma_ordered_ascends(a);
    lemma_ordered_ascends(b);
    let x = ordered_refs(a);
    let y = ordered_refs(b);
    assert forall|r: RefModel| #[trigger] x.contains(r) <==> y.contains(r) by {
        assert(a.contains(r) <==> b.contains(r));
    }
    lemma_ascending_equal(x, y);
}

/// A host is accepted where it is a name of filled parts between dots, without
/// a path and without credentials.
pub proof fn registry_hosts_are_plain_names(
    label: &str,
    host: &str,
    result: Result<(), Error>,
)
    requires
        call_ensures(validate_registry_host, (label, host), result),
    ensures
        result is Ok ==> {
            &&& host@.len() > 0
            &&& forall|i: int|
                0 <= i < host@.len() ==> #[trigger] host@[i] != '/' && host@[i] != '\\' && host@[i]
                    != '@'
        },
        result is Err ==> {
            ||| host@.len() == 0
            ||| host@.contains('/') || host@.contains('\\') || host@.contains('@')
            ||| exists|i: int|
                0 <= i < split_on(host@, '.').len() && (#[trigger] split_on(host@, '.')[i]).len()
                    == 0
        },
        (exists|i: int|
            0 <= i < split_on(host@, '.').len() && (#[trigger] split_on(host@, '.')[i]).len()
                == 0) ==> result is Err,
{
    if result is Ok {
        assert forall|i: int| 0 <= i < host@.len() implies #[trigger] host@[i] != '/' && host@[i]
            != '\\' && host@[i] != '@' by {
            assert(host@.contains(host@[i]));
        }
    }
}

/// A valid reference names a registry, a relative repository path without
/// steps up, a digest and a media type, and what names them is valid.
pub proof fn valid_references(
    reference: &OciArtifactRef,
    label: &str,
    host: &str,
    named: Result<(), Error>,
    result: Result<(), Error>,
)
    requires
        call_ensures(OciArtifactRef::validate, (reference,), result),
        host@ == reference.registry@,
        call_ensures(validate_registry_host, (label, host), named),
    ensures
        result is Ok <==> {
            &&& named is Ok
            &&& reference.repository@.len() > 0 && reference.repository@[0] != '/'
            &&& !contains_text(reference.repository@, ".."@)
            &&& crate::crypto::is_digest(reference.digest@)
            &&& reference.media_type@.len() > 0
            &&& forall|i: int|
                0 <= i < reference.media_type@.len() ==> !control(
                    #[trigger] reference.media_type@[i],
                )
        },
{
}

/// The key of a reference spells its registry, its repository, its media type
/// and its digest, in this order.
pub proof fn keys_spell_the_reference(reference: &OciArtifactRef, key: String)
    requires
        call_ensures(OciArtifactRef::identity_key, (reference,), key),
    ensures
        key@ == reference.registry@ + "/"@ + reference.repository@ + "/"@ + reference.media_type@
            + "@"@ + reference.digest@,
{
}

/// A layer stands in a bundle below one directory, under its digest with a
/// dash in place of the colon. Layers of two digests stand in two places.
pub proof fn layers_stand_under_their_digest(
    left: &OciArtifactRef,
    right: &OciArtifactRef,
    checked: Result<(), Error>,
    one: Result<String, Error>,
    two: Result<String, Error>,
)
    requires
        call_ensures(OciArtifactRef::validate, (left,), checked),
        call_ensures(OciArtifactRef::layer_entry_path, (left,), one),
        call_ensures(OciArtifactRef::layer_entry_path, (right,), two),
    ensures
        one is Ok <==> checked is Ok,
        one matches Ok(path) ==> path@ == "oci-layers/sha256-"@ + left.digest@.skip(7),
        one is Ok && two is Ok && one->Ok_0@ == two->Ok_0@ ==> left.digest@ == right.digest@,
{
    if one is Ok {
        lemma_dashed_digest(left.digest@);
    }
    if one is Ok && two is Ok && one->Ok_0@ == two->Ok_0@ {
        lemma_dashed_digest(right.digest@);
        let a = left.digest@;
        let b = right.digest@;
        reveal_strlit("sha256:");
        let start = "oci-layers/sha256-"@;
        assert((start + a.skip(7)).skip(start.len() as int) =~= a.skip(7));
        assert((start + b.skip(7)).skip(start.len() as int) =~= b.skip(7));
        assert(a =~= a.take(7) + a.skip(7));
        assert(b =~= b.take(7) + b.skip(7));
    }
}

proof fn lemma_dashed_digest(digest: Seq<char>)
    requires
        digest_refusal("artifact digest"@, digest) is None,
    ensures
        LAYER_ENTRY_PREFIX@ + dashed(digest) == "oci-layers/sha256-"@ + digest.skip(7),
        begins_with(digest, "sha256:"@),
        digest.len() == 71,
{
    reveal_strlit("sha256:");
    reveal_strlit("oci-layers/");
    reveal_strlit("oci-layers/sha256-");
    lemma_digest_length(digest);
    let body = digest.skip(7);
    assert forall|i: int| 0 <= i < body.len() implies #[trigger] body[i] != ':' by {
        assert(crate::crypto::is_lower_hex(body[i]));
    }
    assert forall|i: int| 7 <= i < digest.len() implies #[trigger] digest[i] != ':' by {
        assert(body[i - 7] == digest[i]);
    }
    assert(digest.take(7) == "sha256:"@);
    let left = "oci-layers/"@ + dashed(digest);
    let right = "oci-layers/sha256-"@ + body;
    assert forall|i: int| 0 <= i < 7 implies digest[i] == "sha256:"@[i] by {
        assert(digest.take(7)[i] == digest[i]);
    }
    assert forall|i: int| 0 <= i < left.len() implies left[i] == right[i] by {
        if i >= 18 {
            assert(left[i] == dashed(digest)[i - 11]);
            assert(right[i] == digest[i - 11]);
        } else if i >= 11 {
            assert(left[i] == dashed(digest)[i - 11]);
            assert(digest[i - 11] == "sha256:"@[i - 11]);
            assert(right[i] == "oci-layers/sha256-"@[i]);
        }
    }
    assert(left =~= right);
}

pub(crate) proof fn lemma_refs_all(list: Seq<RefModel>)
    ensures
        refs_refusal(list) is None <==> forall|i: int|
            0 <= i < list.len() ==> ref_refusal(#[trigger] list[i]) is None,
    decreases list.len(),
{
    if list.len() > 0 {
        let front = list.drop_last();
        lemma_refs_all(front);
        if refs_refusal(list) is None {
            assert forall|i: int| 0 <= i < list.len() implies ref_refusal(
                #[trigger] list[i],
            ) is None by {
                if i < front.len() {
                    assert(front[i] == list[i]);
                }
            }
        } else if forall|i: int| 0 <= i < list.len() ==> ref_refusal(#[trigger] list[i]) is None {
            assert forall|i: int| 0 <= i < front.len() implies ref_refusal(
                #[trigger] front[i],
            ) is None by {
                assert(front[i] == list[i]);
            }
            assert(ref_refusal(list[list.len() - 1]) is None);
        }
    }
}

/// References are accepted together where each of them is accepted alone.
pub proof fn references_are_checked_one_by_one(
    artifacts: &Vec<OciArtifactRef>,
    at: int,
    one: Result<(), Error>,
    result: Result<(), Error>,
)
    requires
        call_ensures(validate_all, (artifacts,), result),
        0 <= at < artifacts@.len(),
        call_ensures(OciArtifactRef::validate, (&artifacts@[at],), one),
    ensures
        one is Err ==> result is Err,
        result is Err ==> exists|i: int|
            0 <= i < artifacts@.len() && ref_refusal((#[trigger] artifacts@[i])@) is Some,
{
    let list = ref_models(artifacts@);
    lemma_refs_all(list);
    assert(list[at] == artifacts@[at]@);
    if result is Err {
        let i = choose|i: int| 0 <= i < list.len() && ref_refusal(#[trigger] list[i]) is Some;
        assert(list[i] == artifacts@[i]@);
        assert(ref_refusal(artifacts@[i]@) is Some);
    }
}

/// A property names the mirror of a registry where its key is the registry
/// behind the prefix of mirrors; other properties name none.
pub proof fn mirrors_are_the_prefixed_properties(
    properties: &TextMap<String>,
    registry: Seq<char>,
    mirrors: TextMap<String>,
)
    requires
        call_ensures(mirrors_from_properties, (properties,), mirrors),
    ensures
        text_values(mirrors@).contains_key(registry) <==> text_values(
            properties@,
        ).contains_key("artifact_mirror."@ + registry),
        text_values(mirrors@).contains_key(registry) ==> text_values(mirrors@)[registry]
            == text_values(properties@)["artifact_mirror."@ + registry],
{
}

/// A reference is pulled where it is valid, its registry has a mirror and the
/// mirror is a host name. It keeps what it names, and comes from the mirror.
pub proof fn references_are_pulled_from_their_mirror(
    reference: &OciArtifactRef,
    mirrors: &TextMap<String>,
    checked: Result<(), Error>,
    label: &str,
    host: &str,
    named: Result<(), Error>,
    result: Result<OciArtifactRef, Error>,
)
    requires
        call_ensures(pull_reference, (reference, mirrors), result),
        call_ensures(OciArtifactRef::validate, (reference,), checked),
        text_values(mirrors@).contains_key(reference.registry@) ==> host@ == text_values(
            mirrors@,
        )[reference.registry@],
        call_ensures(validate_registry_host, (label, host), named),
    ensures
        result is Ok <==> checked is Ok && text_values(mirrors@).contains_key(
            reference.registry@,
        ) && named is Ok,
        result matches Ok(pull) ==> {
            &&& pull.registry@ == host@
            &&& pull.repository@ == reference.repository@
            &&& pull.digest@ == reference.digest@
            &&& pull.media_type@ == reference.media_type@
        },
{
}

/// What artifacts add to a content identity does not depend on what stands
/// before it, and keeps what does.
pub proof fn identity_grows_at_its_end(
    first: &mut Vec<u8>,
    second: &mut Vec<u8>,
    artifacts: &Vec<OciArtifactRef>,
)
    requires
        call_ensures(bind_identity, (first, artifacts), ()),
        call_ensures(bind_identity, (second, artifacts), ()),
    ensures
        final(first)@.len() - old(first)@.len() == final(second)@.len() - old(second)@.len(),
        final(first)@.take(old(first)@.len() as int) == old(first)@,
        final(first)@.skip(old(first)@.len() as int) == final(second)@.skip(
            old(second)@.len() as int,
        ),
{
    let added = identity_bytes(ref_models(artifacts@));
    assert((old(first)@ + added).take(old(first)@.len() as int) =~= old(first)@);
    assert((old(first)@ + added).skip(old(first)@.len() as int) =~= added);
    assert((old(second)@ + added).skip(old(second)@.len() as int) =~= added);
}

} // verus!
