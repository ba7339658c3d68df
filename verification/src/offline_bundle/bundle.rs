//! Sealing and verification of bundles.
use super::rules::{path_refusal, validate_path, BUNDLE_SCHEMA};
use super::statement::{
    copy_statement, entries_refusal, entry_models, signed_index_is_canonical, statement_bytes,
    statement_refusal, BundleModel, BundleStatement, EntryDescriptor, EntryModel,
};
use crate::crypto::{
    accepts, base64_decode, base64_encode, base64_message, base64_text, digest_of, ed25519_accepts,
    ed25519_public, ed25519_signature, prefixed_digest, SigningKey,
};
use crate::error::{first_refusal, refusal, refuse_unless, Error};
use crate::signature_verification::{
    decode_key, decode_signature, exact_refusal, key_id, signer_with, SignerModel,
};
use crate::text::{begins_with, same, starts_with, text_less, text_less_irreflexive, texts};
use crate::text_map::{ascending, TextMap};
use crate::trust::{
    roots_refusal, signer_models, trusted_signers_have_strong_keys, TrustRoots, TRUST_ROOT_VERSION,
};
use vstd::prelude::*;

verus! {

/// The transport form of one file.
#[derive(Debug, PartialEq, Eq)]
pub struct BundleEntry {
    pub path: String,
    pub content_base64: String,
}

/// A signed bundle in transport form.
#[derive(Debug, PartialEq, Eq)]
pub struct BundleEnvelope {
    pub schema: String,
    pub key_id: String,
    pub statement: BundleStatement,
    pub entries: Vec<BundleEntry>,
    pub signature: String,
}

/// A bundle whose signature, index and contents were checked.
#[derive(Debug, PartialEq, Eq)]
pub struct VerifiedBundle {
    digest: String,
    signer_identity: String,
    statement: BundleStatement,
    entries: TextMap<Vec<u8>>,
}

/// What the transport form of a file says.
pub struct PackedModel {
    pub path: Seq<char>,
    pub content: Seq<char>,
}

impl View for BundleEntry {
    type V = PackedModel;

    open spec fn view(&self) -> PackedModel {
        PackedModel { path: self.path@, content: self.content_base64@ }
    }
}

/// What the transport forms of files say, in order.
pub open spec fn packed_models(list: Seq<BundleEntry>) -> Seq<PackedModel> {
    list.map_values(|item: BundleEntry| item@)
}

/// What an envelope says.
pub struct EnvelopeModel {
    pub schema: Seq<char>,
    pub key_id: Seq<char>,
    pub statement: BundleModel,
    pub entries: Seq<PackedModel>,
    pub signature: Seq<char>,
}

impl View for BundleEnvelope {
    type V = EnvelopeModel;

    open spec fn view(&self) -> EnvelopeModel {
        EnvelopeModel {
            schema: self.schema@,
            key_id: self.key_id@,
            statement: self.statement@,
            entries: packed_models(self.entries@),
            signature: self.signature@,
        }
    }
}

/// The bytes that a map with byte values holds.
pub open spec fn byte_values(map: Map<Seq<char>, Vec<u8>>) -> Map<Seq<char>, Seq<u8>> {
    map.map_values(|value: Vec<u8>| value@)
}

/// The descriptors of payloads, in path order.
pub open spec fn described(
    paths: Seq<Seq<char>>,
    payloads: Map<Seq<char>, (String, Vec<u8>)>,
) -> Seq<EntryModel> {
    paths.map_values(
        |path: Seq<char>|
            EntryModel {
                path,
                media_type: payloads[path].0@,
                digest: prefixed_digest(payloads[path].1@),
                size: payloads[path].1@.len() as u64,
            },
    )
}

/// The transport form of payloads, in path order, each standing for its bytes.
pub open spec fn packs(
    entries: Seq<PackedModel>,
    paths: Seq<Seq<char>>,
    payloads: Map<Seq<char>, (String, Vec<u8>)>,
) -> bool {
    &&& entries.len() == paths.len()
    &&& forall|i: int|
        0 <= i < entries.len() ==> {
            &&& (#[trigger] entries[i]).path == paths[i]
            &&& entries[i].content == base64_text(payloads[paths[i]].1@)
            &&& base64_message(entries[i].content) == Some(payloads[paths[i]].1@)
        }
}

/// The descriptor of a path, where the index has one.
pub open spec fn entry_with(index: Seq<EntryModel>, path: Seq<char>) -> Option<EntryModel>
    decreases index.len(),
{
    if index.len() == 0 {
        None
    } else if index[0].path == path {
        Some(index[0])
    } else {
        entry_with(index.drop_first(), path)
    }
}

proof fn lemma_entry_with(index: Seq<EntryModel>, path: Seq<char>, at: int)
    requires
        0 <= at <= index.len(),
        at < index.len() ==> index[at].path == path,
        forall|k: int| 0 <= k < at ==> (#[trigger] index[k]).path != path,
    ensures
        entry_with(index, path) == (if at < index.len() {
            Some(index[at])
        } else {
            None
        }),
    decreases index.len(),
{
    if index.len() > 0 && at > 0 {
        assert(index[0].path != path);
        assert forall|k: int| 0 <= k < at - 1 implies (#[trigger] index.drop_first()[k]).path
            != path by {
            assert(index.drop_first()[k] == index[k + 1]);
        }
        lemma_entry_with(index.drop_first(), path, at - 1);
    }
}

/// An earlier transport entry has the same path.
pub open spec fn packed_before(earlier: Seq<PackedModel>, path: Seq<char>) -> bool {
    exists|i: int| 0 <= i < earlier.len() && (#[trigger] earlier[i]).path == path
}

/// The bytes of a file are those that its descriptor names.
pub open spec fn content_matches(descriptor: EntryModel, content: Seq<u8>) -> bool {
    content.len() == descriptor.size && prefixed_digest(content) == descriptor.digest
}

/// Why a transport entry is refused behind the earlier ones.
pub open spec fn packed_refusal(
    index: Seq<EntryModel>,
    earlier: Seq<PackedModel>,
    entry: PackedModel,
) -> Option<Seq<char>> {
    let path = path_refusal(entry.path);
    let descriptor = entry_with(index, entry.path);
    let content = base64_message(entry.content);
    if path is Some {
        path
    } else if descriptor is None {
        Some("unsigned or unexpected bundle entry "@ + entry.path)
    } else if packed_before(earlier, entry.path) {
        Some("offline bundle contains duplicate entry "@ + entry.path)
    } else if content is None {
        Some("decoding bundle entry "@ + entry.path)
    } else if !content_matches(descriptor->0, content->0) {
        Some("bundle entry "@ + entry.path + " does not match its signed digest and size"@)
    } else {
        None
    }
}

/// Why the transport entries of a bundle are refused: the refusal of the
/// first that is.
pub open spec fn unpack_refusal(index: Seq<EntryModel>, entries: Seq<PackedModel>) -> Option<
    Seq<char>,
>
    decreases entries.len(),
{
    if entries.len() == 0 {
        None
    } else {
        first_refusal(
            unpack_refusal(index, entries.drop_last()),
            packed_refusal(index, entries.drop_last(), entries.last()),
        )
    }
}

/// The files of transport entries by path.
pub open spec fn unpacked(entries: Seq<PackedModel>) -> Map<Seq<char>, Seq<u8>>
    decreases entries.len(),
{
    if entries.len() == 0 {
        Map::<Seq<char>, Seq<u8>>::empty()
    } else {
        unpacked(entries.drop_last()).insert(
            entries.last().path,
            base64_message(entries.last().content)->0,
        )
    }
}

proof fn lemma_unpacked_paths(entries: Seq<PackedModel>, path: Seq<char>)
    ensures
        unpacked(entries).contains_key(path) <==> packed_before(entries, path),
    decreases entries.len(),
{
    if entries.len() > 0 {
        let before = entries.drop_last();
        lemma_unpacked_paths(before, path);
        if packed_before(before, path) {
            let i = choose|i: int| 0 <= i < before.len() && (#[trigger] before[i]).path == path;
            assert(entries[i].path == path);
        }
        if entries.last().path == path {
            assert(entries[entries.len() - 1].path == path);
        }
        if packed_before(entries, path) {
            let i = choose|i: int| 0 <= i < entries.len() && (#[trigger] entries[i]).path == path;
            if i < before.len() {
                assert(before[i].path == path);
            }
        }
    }
}

proof fn lemma_unpack_stops(index: Seq<EntryModel>, entries: Seq<PackedModel>, at: int)
    requires
        0 <= at < entries.len(),
        unpack_refusal(index, entries.take(at + 1)) is Some,
    ensures
        unpack_refusal(index, entries) == unpack_refusal(index, entries.take(at + 1)),
    decreases entries.len() - at,
{
    if at + 1 == entries.len() {
        assert(entries.take(at + 1) =~= entries);
    } else {
        assert(entries.take(at + 2).drop_last() =~= entries.take(at + 1));
        lemma_unpack_stops(index, entries, at + 1);
    }
}

/// Every file that a verified bundle holds has the size and the digest that
/// its signed index names.
pub proof fn unpacked_files_match_the_index(index: Seq<EntryModel>, entries: Seq<PackedModel>)
    requires
        unpack_refusal(index, entries) is None,
    ensures
        forall|path: Seq<char>| #[trigger]
            unpacked(entries).contains_key(path) ==> entry_with(index, path) is Some
                && content_matches(entry_with(index, path)->0, unpacked(entries)[path]),
    decreases entries.len(),
{
    if entries.len() > 0 {
        let before = entries.drop_last();
        unpacked_files_match_the_index(index, before);
        assert forall|path: Seq<char>| #[trigger] unpacked(entries).contains_key(path) implies
            entry_with(index, path) is Some && content_matches(
            entry_with(index, path)->0,
            unpacked(entries)[path],
        ) by {
            if path != entries.last().path {
                assert(unpacked(before).contains_key(path));
            }
        }
    }
}

/// The path of the plan of a bundle.
pub open spec fn plan_path_text(plan_id: Seq<char>) -> Seq<char> {
    "plans/"@ + plan_id + ".json"@
}

/// The path of the approval of a bundle.
pub open spec fn approval_path_text(plan_id: Seq<char>) -> Seq<char> {
    "approvals/"@ + plan_id + ".json"@
}

/// The directory of a release in a bundle.
pub open spec fn release_prefix(release: Seq<char>) -> Seq<char> {
    "releases/"@ + release + "/"@
}

/// A bundle holds a file of a release.
pub open spec fn release_present(contents: Map<Seq<char>, Seq<u8>>, release: Seq<char>) -> bool {
    exists|path: Seq<char>| #[trigger]
        contents.contains_key(path) && begins_with(path, release_prefix(release))
}

/// Why a bundle lacks content of its releases: the refusal for the first that
/// it has nothing of.
pub open spec fn releases_content_refusal(
    releases: Seq<Seq<char>>,
    contents: Map<Seq<char>, Seq<u8>>,
) -> Option<Seq<char>>
    decreases releases.len(),
{
    if releases.len() == 0 {
        None
    } else {
        first_refusal(
            releases_content_refusal(releases.drop_last(), contents),
            refuse_unless(
                release_present(contents, releases.last()),
                "bundle is missing content for signed release identity "@ + releases.last(),
            ),
        )
    }
}

proof fn lemma_releases_content_stop(
    releases: Seq<Seq<char>>,
    contents: Map<Seq<char>, Seq<u8>>,
    at: int,
)
    requires
        0 <= at < releases.len(),
        releases_content_refusal(releases.take(at + 1), contents) is Some,
    ensures
        releases_content_refusal(releases, contents) == releases_content_refusal(
            releases.take(at + 1),
            contents,
        ),
    decreases releases.len() - at,
{
    if at + 1 == releases.len() {
        assert(releases.take(at + 1) =~= releases);
    } else {
        assert(releases.take(at + 2).drop_last() =~= releases.take(at + 1));
        lemma_releases_content_stop(releases, contents, at + 1);
    }
}

/// Why the files of a bundle do not fit its statement: the plan and the
/// approval under their canonical paths with their signed digests, and a file
/// of every release.
pub open spec fn content_refusal(s: BundleModel, contents: Map<Seq<char>, Seq<u8>>) -> Option<
    Seq<char>,
> {
    let plan = plan_path_text(s.plan_id);
    let approval = approval_path_text(s.plan_id);
    if !contents.contains_key(plan) {
        Some("bundle is missing canonical plan entry "@ + plan)
    } else if prefixed_digest(contents[plan]) != s.plan_digest {
        Some("canonical plan entry does not match the signed plan digest"@)
    } else if !contents.contains_key(approval) {
        Some("bundle is missing canonical approval entry "@ + approval)
    } else if prefixed_digest(contents[approval]) != s.approval_digest {
        Some("canonical approval entry does not match the signed approval digest"@)
    } else {
        releases_content_refusal(s.release_ids, contents)
    }
}

/// Why a bundle is not accepted by a runtime.
pub open spec fn bundle_refusal(
    envelope: EnvelopeModel,
    version: u32,
    signers: Seq<SignerModel>,
    tenant_id: Seq<char>,
    environment_id: Seq<char>,
    now_unix_ms: i64,
) -> Option<Seq<char>> {
    let s = envelope.statement;
    let roots = roots_refusal("release"@, version, signers);
    let signer = signer_with(signers, envelope.key_id);
    let invalid = statement_refusal(s);
    let decoding = exact_refusal("Ed25519 signature"@, envelope.signature, 64, "64"@);
    let unpacking = unpack_refusal(s.entries, envelope.entries);
    if envelope.schema != BUNDLE_SCHEMA@ {
        Some("unsupported offline bundle schema "@ + envelope.schema)
    } else if s.tenant_id != tenant_id || s.environment_id != environment_id {
        Some("offline bundle is outside the configured tenant or environment scope"@)
    } else if now_unix_ms < s.issued_at_unix_ms || now_unix_ms >= s.expires_at_unix_ms {
        Some("offline bundle is outside its validity interval"@)
    } else if roots is Some {
        roots
    } else if signer is None {
        Some("offline signer "@ + envelope.key_id + " is not currently trusted"@)
    } else if s.exporter_identity != signer->0.identity {
        Some("bundle exporter identity does not match its trusted signing identity"@)
    } else if invalid is Some {
        invalid
    } else if decoding is Some {
        decoding
    } else if !ed25519_accepts(
        base64_message(signer->0.public_key)->0,
        statement_bytes(s),
        base64_message(envelope.signature)->0,
    ) {
        Some("offline bundle signature verification failed"@)
    } else if envelope.entries.len() != s.entries.len() {
        Some("offline bundle entry set does not match its signed index"@)
    } else if unpacking is Some {
        unpacking
    } else {
        content_refusal(s, unpacked(envelope.entries))
    }
}

/// The public key of a trusted offline signer. `version` and `signers` are
/// those of the roots.
pub fn verifying_key<'a>(roots: &'a TrustRoots, id: &str) -> (result: Result<
    (&'a String, [u8; 32]),
    Error,
>)
    ensures
        ({
            let signers = signer_models(roots.signers@);
            let unusable = roots_refusal("release"@, roots.version, signers);
            &&& refusal(result) == first_refusal(
                unusable,
                refuse_unless(
                    signer_with(signers, id@) is Some,
                    "offline signer "@ + id@ + " is not currently trusted"@,
                ),
            )
            &&& result matches Ok((identity, key)) ==> {
                &&& identity@ == signer_with(signers, id@)->0.identity
                &&& base64_message(signer_with(signers, id@)->0.public_key) == Some(key@)
                &&& crate::crypto::ed25519_key(key@)
            }
        }),
{
    match roots.validate("release") {
        Err(error) => return Err(error),
        Ok(_) => {},
    }
    let signer = match roots.signer(id) {
        None => {
            let mut message = "offline signer ".to_owned();
            message.append(id);
            message.append(" is not currently trusted");
            return Err(Error::new(message));
        },
        Some(found) => found,
    };
    proof {
        trusted_signers_have_strong_keys(
            "release"@,
            roots.version,
            signer_models(roots.signers@),
            id@,
        );
    }
    match decode_key("offline signer public key", signer.public_key.as_str()) {
        Err(error) => Err(error),
        Ok(key) => Ok((&signer.identity, key)),
    }
}

impl BundleEnvelope {
    /// Seal payloads into a signed bundle. The index of the statement is made
    /// from the payloads, in path order.
    pub fn create(
        statement: BundleStatement,
        payloads: &TextMap<(String, Vec<u8>)>,
        signing_key: &SigningKey,
    ) -> (result: Result<BundleEnvelope, Error>)
        ensures
            ({
                let indexed = BundleModel {
                    entries: described(payloads.keys(), payloads@),
                    ..statement@
                };
                let signature = ed25519_signature(signing_key@, statement_bytes(indexed));
                &&& refusal(result) == statement_refusal(indexed)
                &&& result matches Ok(envelope) ==> {
                    &&& envelope@.schema == BUNDLE_SCHEMA@
                    &&& envelope@.key_id == prefixed_digest(ed25519_public(signing_key@))
                    &&& envelope@.statement == indexed
                    &&& packs(envelope@.entries, payloads.keys(), payloads@)
                    &&& envelope@.signature == base64_text(signature)
                    &&& base64_message(envelope@.signature) == Some(signature)
                    &&& signature.len() == 64
                }
            }),
    {
        let ghost paths = payloads.keys();
        let ghost map = payloads@;
        let count = payloads.len();
        let mut descriptors: Vec<EntryDescriptor> = Vec::new();
        let mut i: usize = 0;
        while i < count
            invariant
                i <= count,
                count == paths.len(),
                paths == payloads.keys(),
                map == payloads@,
                descriptors@.len() == i,
                forall|k: int|
                    0 <= k < i ==> (#[trigger] descriptors@[k])@ == described(paths, map)[k],
            decreases count - i,
        {
            let path = payloads.key_at(i);
            let payload = payloads.value_at(i);
            let content: &Vec<u8> = &payload.1;
            descriptors.push(
                EntryDescriptor {
                    path: path.clone(),
                    media_type: payload.0.clone(),
                    digest: digest_of(content.as_slice()),
                    size: content.len() as u64,
                },
            );
            i = i + 1;
        }
        assert(entry_models(descriptors@) =~= described(paths, map));
        let mut indexed = statement;
        indexed.entries = descriptors;
        let message = match indexed.canonical_bytes() {
            Err(error) => return Err(error),
            Ok(bytes) => bytes,
        };
        proof {
            signed_index_is_canonical(indexed@.entries);
        }
        let mut entries: Vec<BundleEntry> = Vec::new();
        let mut j: usize = 0;
        while j < count
            invariant
                j <= count,
                count == paths.len(),
                paths == payloads.keys(),
                map == payloads@,
                indexed@.entries == described(paths, map),
                forall|k: int|
                    0 <= k < indexed@.entries.len() ==> (#[trigger] indexed@.entries[k]).size
                        <= super::rules::MAX_ENTRY_BYTES,
                entries@.len() == j,
                forall|k: int|
                    0 <= k < j ==> {
                        &&& (#[trigger] entries@[k])@.path == paths[k]
                        &&& entries@[k]@.content == base64_text(map[paths[k]].1@)
                        &&& base64_message(entries@[k]@.content) == Some(map[paths[k]].1@)
                    },
            decreases count - j,
        {
            let path = payloads.key_at(j);
            let payload = payloads.value_at(j);
            let content: &Vec<u8> = &payload.1;
            assert(indexed@.entries[j as int].size == content@.len() as u64);
            assert(content.len() == content@.len());
            entries.push(
                BundleEntry {
                    path: path.clone(),
                    content_base64: base64_encode(content.as_slice()),
                },
            );
            j = j + 1;
        }
        let signature = signing_key.sign(message.as_slice());
        Ok(
            BundleEnvelope {
                schema: BUNDLE_SCHEMA.to_owned(),
                key_id: key_id(signing_key.public_key().as_slice()),
                statement: indexed,
                entries,
                signature: base64_encode(signature.as_slice()),
            },
        )
    }

    fn unpack(&self) -> (result: Result<TextMap<Vec<u8>>, Error>)
        ensures
            refusal(result) == unpack_refusal(self@.statement.entries, self@.entries),
            result matches Ok(files) ==> byte_values(files@) == unpacked(self@.entries),
    {
        let ghost index = self@.statement.entries;
        let ghost models = self@.entries;
        let mut files = TextMap::<Vec<u8>>::new();
        let mut i: usize = 0;
        assert(models.take(0) =~= Seq::<PackedModel>::empty());
        assert(byte_values(files@) =~= unpacked(models.take(0)));
        while i < self.entries.len()
            invariant
                i <= self.entries.len(),
                index == self@.statement.entries,
                models == self@.entries,
                models.len() == self.entries.len(),
                unpack_refusal(index, models.take(i as int)) is None,
                byte_values(files@) == unpacked(models.take(i as int)),
            decreases self.entries.len() - i,
        {
            let entry = &self.entries[i];
            let ghost earlier = models.take(i as int);
            assert(models[i as int] == entry@);
            assert(models.take(i + 1).drop_last() =~= earlier);
            assert(models.take(i + 1).last() == entry@);
            match self.unpack_entry(entry, &files, Ghost(earlier)) {
                Err(error) => {
                    proof {
                        lemma_unpack_stops(index, models, i as int);
                    }
                    return Err(error);
                },
                Ok(content) => {
                    let ghost before = files@;
                    files.insert(entry.path.clone(), content);
                    assert(byte_values(files@) =~= byte_values(before).insert(
                        entry@.path,
                        content@,
                    ));
                },
            }
            i = i + 1;
        }
        assert(models.take(i as int) =~= models);
        Ok(files)
    }

    fn unpack_entry(
        &self,
        entry: &BundleEntry,
        files: &TextMap<Vec<u8>>,
        Ghost(earlier): Ghost<Seq<PackedModel>>,
    ) -> (result: Result<Vec<u8>, Error>)
        requires
            byte_values(files@) == unpacked(earlier),
        ensures
            refusal(result) == packed_refusal(self@.statement.entries, earlier, entry@),
            result matches Ok(content) ==> base64_message(entry@.content) == Some(content@),
    {
        let ghost index = self@.statement.entries;
        match validate_path(entry.path.as_str()) {
            Err(error) => return Err(error),
            Ok(_) => {},
        }
        let mut at: usize = 0;
        while at < self.statement.entries.len() && !same(
            &self.statement.entries[at].path,
            &entry.path,
        )
            invariant
                at <= self.statement.entries.len(),
                index == self@.statement.entries,
                index.len() == self.statement.entries.len(),
                forall|k: int| 0 <= k < at ==> (#[trigger] index[k]).path != entry@.path,
            decreases self.statement.entries.len() - at,
        {
            assert(index[at as int] == self.statement.entries@[at as int]@);
            at = at + 1;
        }
        proof {
            if at < self.statement.entries.len() {
                assert(index[at as int] == self.statement.entries@[at as int]@);
            }
            lemma_entry_with(index, entry@.path, at as int);
        }
        if at >= self.statement.entries.len() {
            let mut message = "unsigned or unexpected bundle entry ".to_owned();
            message.append(entry.path.as_str());
            return Err(Error::new(message));
        }
        let descriptor = &self.statement.entries[at];
        proof {
            lemma_unpacked_paths(earlier, entry@.path);
            assert(byte_values(files@).contains_key(entry@.path) <==> files@.contains_key(
                entry@.path,
            ));
        }
        if files.contains_key(entry.path.as_str()) {
            let mut message = "offline bundle contains duplicate entry ".to_owned();
            message.append(entry.path.as_str());
            return Err(Error::new(message));
        }
        let content = match base64_decode(entry.content_base64.as_str()) {
            None => {
                let mut message = "decoding bundle entry ".to_owned();
                message.append(entry.path.as_str());
                return Err(Error::new(message));
            },
            Some(bytes) => bytes,
        };
        let digest = digest_of(content.as_slice());
        if content.len() as u64 != descriptor.size || !same(&digest, &descriptor.digest) {
            let mut message = "bundle entry ".to_owned();
            message.append(entry.path.as_str());
            message.append(" does not match its signed digest and size");
            return Err(Error::new(message));
        }
        Ok(content)
    }

    fn has_release(files: &TextMap<Vec<u8>>, release: &str) -> (answer: bool)
        ensures
            answer == release_present(byte_values(files@), release@),
    {
        let mut prefix = "releases/".to_owned();
        prefix.append(release);
        prefix.append("/");
        let count = files.len();
        proof {
            files.lemma_keys();
        }
        let mut i: usize = 0;
        while i < count
            invariant
                i <= count,
                count == files.keys().len(),
                prefix@ == release_prefix(release@),
                forall|k: int|
                    0 <= k < i ==> !begins_with(#[trigger] files.keys()[k], release_prefix(release@)),
            decreases count - i,
        {
            let path = files.key_at(i);
            if starts_with(path.as_str(), prefix.as_str()) {
                assert(byte_values(files@).contains_key(path@));
                return true;
            }
            i = i + 1;
        }
        proof {
            if release_present(byte_values(files@), release@) {
                let path = choose|path: Seq<char>| #[trigger]
                    byte_values(files@).contains_key(path) && begins_with(
                        path,
                        release_prefix(release@),
                    );
                assert(files@.contains_key(path));
                let k = files.keys().index_of(path);
                assert(files.keys()[k] == path);
            }
        }
        false
    }

    fn check_content(&self, files: &TextMap<Vec<u8>>) -> (result: Result<(), Error>)
        ensures
            refusal(result) == content_refusal(self@.statement, byte_values(files@)),
    {
        let ghost contents = byte_values(files@);
        let ghost releases = self@.statement.release_ids;
        let mut plan_path = "plans/".to_owned();
        plan_path.append(self.statement.plan_id.as_str());
        plan_path.append(".json");
        match files.get(plan_path.as_str()) {
            None => {
                let mut message = "bundle is missing canonical plan entry ".to_owned();
                message.append(plan_path.as_str());
                return Err(Error::new(message));
            },
            Some(plan) => {
                let digest = digest_of(plan.as_slice());
                if !same(&digest, &self.statement.plan_digest) {
                    return Err(
                        Error::fixed("canonical plan entry does not match the signed plan digest"),
                    );
                }
            },
        }
        let mut approval_path = "approvals/".to_owned();
        approval_path.append(self.statement.plan_id.as_str());
        approval_path.append(".json");
        match files.get(approval_path.as_str()) {
            None => {
                let mut message = "bundle is missing canonical approval entry ".to_owned();
                message.append(approval_path.as_str());
                return Err(Error::new(message));
            },
            Some(approval) => {
                let digest = digest_of(approval.as_slice());
                if !same(&digest, &self.statement.approval_digest) {
                    return Err(
                        Error::fixed(
                            "canonical approval entry does not match the signed approval digest",
                        ),
                    );
                }
            },
        }
        let mut i: usize = 0;
        assert(releases.take(0) =~= Seq::<Seq<char>>::empty());
        while i < self.statement.release_ids.len()
            invariant
                i <= self.statement.release_ids.len(),
                releases == texts(self.statement.release_ids@),
                contents == byte_values(files@),
                content_refusal(self@.statement, contents) == releases_content_refusal(
                    releases,
                    contents,
                ),
                releases_content_refusal(releases.take(i as int), contents) is None,
            decreases self.statement.release_ids.len() - i,
        {
            let release = &self.statement.release_ids[i];
            assert(releases[i as int] == release@);
            assert(releases.take(i + 1).drop_last() =~= releases.take(i as int));
            assert(releases.take(i + 1).last() == release@);
            if !BundleEnvelope::has_release(files, release.as_str()) {
                proof {
                    lemma_releases_content_stop(releases, contents, i as int);
                }
                let mut message = "bundle is missing content for signed release identity ".to_owned();
                message.append(release.as_str());
                return Err(Error::new(message));
            }
            i = i + 1;
        }
        assert(releases.take(i as int) =~= releases);
        Ok(())
    }

    /// Verify a bundle for a runtime: scope, validity interval, trusted
    /// signer, signature, index and contents.
    pub fn verify(
        &self,
        roots: &TrustRoots,
        tenant_id: &str,
        environment_id: &str,
        now_unix_ms: i64,
    ) -> (result: Result<VerifiedBundle, Error>)
        ensures
            refusal(result) == bundle_refusal(
                self@,
                roots.version,
                signer_models(roots.signers@),
                tenant_id@,
                environment_id@,
                now_unix_ms,
            ),
            result matches Ok(verified) ==> {
                &&& verified.digest_text() == prefixed_digest(statement_bytes(self@.statement))
                &&& verified.signer_text() == self@.statement.exporter_identity
                &&& verified.said() == self@.statement
                &&& verified.contents() == unpacked(self@.entries)
            },
    {
        if !same(&self.schema, BUNDLE_SCHEMA) {
            let mut message = "unsupported offline bundle schema ".to_owned();
            message.append(self.schema.as_str());
            return Err(Error::new(message));
        }
        if !same(&self.statement.tenant_id, tenant_id) || !same(
            &self.statement.environment_id,
            environment_id,
        ) {
            return Err(
                Error::fixed(
                    "offline bundle is outside the configured tenant or environment scope",
                ),
            );
        }
        if now_unix_ms < self.statement.issued_at_unix_ms || now_unix_ms
            >= self.statement.expires_at_unix_ms {
            return Err(Error::fixed("offline bundle is outside its validity interval"));
        }
        let (identity, key) = match verifying_key(roots, self.key_id.as_str()) {
            Err(error) => return Err(error),
            Ok(pair) => pair,
        };
        if !same(&self.statement.exporter_identity, identity) {
            return Err(
                Error::fixed(
                    "bundle exporter identity does not match its trusted signing identity",
                ),
            );
        }
        let message = match self.statement.canonical_bytes() {
            Err(error) => return Err(error),
            Ok(bytes) => bytes,
        };
        let signature = match decode_signature("Ed25519 signature", self.signature.as_str()) {
            Err(error) => return Err(error),
            Ok(bytes) => bytes,
        };
        if !accepts(&key, message.as_slice(), &signature) {
            return Err(Error::fixed("offline bundle signature verification failed"));
        }
        assert(self@.entries.len() == self.entries@.len());
        assert(self@.statement.entries.len() == self.statement.entries@.len());
        if self.entries.len() != self.statement.entries.len() {
            return Err(Error::fixed("offline bundle entry set does not match its signed index"));
        }
        let files = match self.unpack() {
            Err(error) => return Err(error),
            Ok(files) => files,
        };
        match self.check_content(&files) {
            Err(error) => return Err(error),
            Ok(_) => {},
        }
        Ok(
            VerifiedBundle {
                digest: digest_of(message.as_slice()),
                signer_identity: identity.clone(),
                statement: copy_statement(&self.statement),
                entries: files,
            },
        )
    }
}

impl VerifiedBundle {
    /// The digest that identifies the bundle.
    pub closed spec fn digest_text(self) -> Seq<char> {
        self.digest@
    }

    /// The identity of its signer.
    pub closed spec fn signer_text(self) -> Seq<char> {
        self.signer_identity@
    }

    /// What its statement says.
    pub closed spec fn said(self) -> BundleModel {
        self.statement@
    }

    /// Its files by path.
    pub closed spec fn contents(self) -> Map<Seq<char>, Seq<u8>> {
        byte_values(self.entries@)
    }

    /// The digest that identifies the bundle.
    pub fn digest(&self) -> (digest: &str)
        ensures
            digest@ == self.digest_text(),
    {
        self.digest.as_str()
    }

    /// The identity of its signer.
    pub fn signer_identity(&self) -> (identity: &str)
        ensures
            identity@ == self.signer_text(),
    {
        self.signer_identity.as_str()
    }

    /// Its statement.
    pub fn statement(&self) -> (statement: &BundleStatement)
        ensures
            statement@ == self.said(),
    {
        &self.statement
    }

    /// The bytes of a file, where the bundle has it.
    pub fn entry(&self, path: &str) -> (content: Option<&[u8]>)
        ensures
            match content {
                Some(bytes) => self.contents().contains_key(path@) && bytes@
                    == self.contents()[path@],
                None => !self.contents().contains_key(path@),
            },
    {
        match self.entries.get(path) {
            Some(bytes) => Some(bytes.as_slice()),
            None => None,
        }
    }
}

proof fn lemma_sealed_unpacks(
    entries: Seq<PackedModel>,
    paths: Seq<Seq<char>>,
    payloads: Map<Seq<char>, (String, Vec<u8>)>,
    index: Seq<EntryModel>,
    count: int,
)
    requires
        packs(entries, paths, payloads),
        ascending(paths),
        index == described(paths, payloads),
        entries_refusal(index) is None,
        forall|i: int| 0 <= i < paths.len() ==> payloads.contains_key(#[trigger] paths[i]),
        forall|i: int|
            0 <= i < paths.len() ==> (#[trigger] payloads[paths[i]]).1@.len()
                < 0x1_0000_0000_0000_0000,
        0 <= count <= entries.len(),
    ensures
        unpack_refusal(index, entries.take(count)) is None,
        forall|i: int|
            0 <= i < count ==> #[trigger] unpacked(entries.take(count)).contains_key(paths[i])
                && unpacked(entries.take(count))[paths[i]] == payloads[paths[i]].1@,
        forall|path: Seq<char>| #[trigger]
            unpacked(entries.take(count)).contains_key(path) ==> paths.take(count).contains(path),
    decreases count,
{
    if count > 0 {
        let at = count - 1;
        let before = entries.take(at);
        let now = entries.take(count);
        lemma_sealed_unpacks(entries, paths, payloads, index, at);
        signed_index_is_canonical(index);
        assert(now.drop_last() =~= before);
        assert(now.last() == entries[at]);
        let path = paths[at];
        assert(index[at].path == path);
        assert forall|k: int| 0 <= k < at implies (#[trigger] index[k]).path != path by {
            assert(index[k].path == paths[k]);
            assert(text_less(paths[k], paths[at]));
            text_less_irreflexive(path);
        }
        lemma_entry_with(index, path, at);
        assert(!packed_before(before, path)) by {
            if packed_before(before, path) {
                let k = choose|k: int|
                    0 <= k < before.len() && (#[trigger] before[k]).path == path;
                assert(before[k] == entries[k]);
                assert(text_less(paths[k], paths[at]));
                text_less_irreflexive(path);
            }
        }
        assert(content_matches(index[at], payloads[path].1@));
        assert(packed_refusal(index, before, entries[at]) is None);
        assert forall|i: int| 0 <= i < count implies #[trigger] unpacked(now).contains_key(paths[i])
            && unpacked(now)[paths[i]] == payloads[paths[i]].1@ by {
            if i < at {
                assert(unpacked(before).contains_key(paths[i]));
                assert(text_less(paths[i], paths[at]));
                text_less_irreflexive(path);
            }
        }
        assert forall|p: Seq<char>| #[trigger] unpacked(now).contains_key(p) implies paths.take(
            count,
        ).contains(p) by {
            if p == path {
                assert(paths.take(count)[at] == p);
            } else {
                assert(unpacked(before).contains_key(p));
                let k = paths.take(at).index_of(p);
                assert(paths.take(at)[k] == p);
                assert(paths.take(count)[k] == p);
            }
        }
    } else {
        assert(entries.take(0) =~= Seq::<PackedModel>::empty());
    }
}

/// What was sealed comes out again: a bundle sealed by a trusted exporter,
/// with its plan and approval under their canonical paths and something of
/// every release, is accepted in its scope and interval and holds exactly the
/// files that were put in, provided that strict verification accepts the
/// exporter's signature.
pub proof fn sealed_bundle_round_trips(
    envelope: EnvelopeModel,
    paths: Seq<Seq<char>>,
    payloads: Map<Seq<char>, (String, Vec<u8>)>,
    secret: Seq<u8>,
    signers: Seq<SignerModel>,
    now_unix_ms: i64,
    contents: Map<Seq<char>, Seq<u8>>,
)
    requires
        ascending(paths),
        forall|path: Seq<char>| #[trigger] payloads.contains_key(path) <==> paths.contains(path),
        forall|i: int|
            0 <= i < paths.len() ==> (#[trigger] payloads[paths[i]]).1@.len()
                < 0x1_0000_0000_0000_0000,
        contents == payloads.map_values(|payload: (String, Vec<u8>)| payload.1@),
        envelope.schema == BUNDLE_SCHEMA@,
        envelope.statement.entries == described(paths, payloads),
        packs(envelope.entries, paths, payloads),
        base64_message(envelope.signature) == Some(
            ed25519_signature(secret, statement_bytes(envelope.statement)),
        ),
        ed25519_signature(secret, statement_bytes(envelope.statement)).len() == 64,
        statement_refusal(envelope.statement) is None,
        content_refusal(envelope.statement, contents) is None,
        roots_refusal("release"@, TRUST_ROOT_VERSION, signers) is None,
        signer_with(signers, envelope.key_id) is Some,
        signer_with(signers, envelope.key_id)->0.identity == envelope.statement.exporter_identity,
        base64_message(signer_with(signers, envelope.key_id)->0.public_key) == Some(
            ed25519_public(secret),
        ),
        ed25519_accepts(
            ed25519_public(secret),
            statement_bytes(envelope.statement),
            ed25519_signature(secret, statement_bytes(envelope.statement)),
        ),
        envelope.statement.issued_at_unix_ms <= now_unix_ms
            < envelope.statement.expires_at_unix_ms,
    ensures
        bundle_refusal(
            envelope,
            TRUST_ROOT_VERSION,
            signers,
            envelope.statement.tenant_id,
            envelope.statement.environment_id,
            now_unix_ms,
        ) is None,
        unpacked(envelope.entries) == contents,
{
    let entries = envelope.entries;
    assert forall|i: int| 0 <= i < paths.len() implies payloads.contains_key(
        #[trigger] paths[i],
    ) by {
        assert(paths.contains(paths[i]));
    }
    lemma_sealed_unpacks(
        entries,
        paths,
        payloads,
        envelope.statement.entries,
        entries.len() as int,
    );
    assert(entries.take(entries.len() as int) =~= entries);
    assert(paths.take(entries.len() as int) =~= paths);
    assert forall|path: Seq<char>| #[trigger]
        unpacked(entries).contains_key(path) <==> contents.contains_key(path) by {
        if contents.contains_key(path) {
            let i = paths.index_of(path);
            assert(paths[i] == path);
        }
    }
    assert forall|path: Seq<char>| contents.contains_key(path) implies unpacked(entries)[path]
        == contents[path] by {
        let i = paths.index_of(path);
        assert(paths[i] == path);
        assert(unpacked(entries).contains_key(paths[i]));
    }
    assert(unpacked(entries) =~= contents);
}

/// A transport entry carries a file of the index: its path is canonical and in
/// the index, and it decodes to bytes of the size and the digest there.
pub open spec fn carries_its_file(index: Seq<EntryModel>, entry: PackedModel) -> bool {
    &&& path_refusal(entry.path) is None
    &&& entry_with(index, entry.path) is Some
    &&& base64_message(entry.content) matches Some(content) && content.len() == entry_with(
        index,
        entry.path,
    )->0.size && prefixed_digest(content) == entry_with(index, entry.path)->0.digest
}

proof fn lemma_unpacks_each(index: Seq<EntryModel>, entries: Seq<PackedModel>)
    ensures
        unpack_refusal(index, entries) is None <==> {
            &&& forall|i: int|
                0 <= i < entries.len() ==> carries_its_file(index, #[trigger] entries[i])
            &&& forall|i: int, j: int|
                0 <= i < j < entries.len() ==> (#[trigger] entries[i]).path != (
                #[trigger] entries[j]).path
        },
    decreases entries.len(),
{
    if entries.len() > 0 {
        let front = entries.drop_last();
        let last = entries.len() - 1;
        lemma_unpacks_each(index, front);
        assert(forall|i: int| 0 <= i < last ==> front[i] == entries[i]);
        if unpack_refusal(index, entries) is None {
            assert forall|i: int| 0 <= i < entries.len() implies carries_its_file(
                index,
                #[trigger] entries[i],
            ) by {
                if i < last {
                    assert(carries_its_file(index, front[i]));
                }
            }
            assert forall|i: int, j: int| 0 <= i < j < entries.len() implies (
            #[trigger] entries[i]).path != (#[trigger] entries[j]).path by {
                if j < last {
                    assert(front[i].path != front[j].path);
                } else {
                    assert(front[i] == entries[i]);
                    assert(!packed_before(front, entries[last].path));
                }
            }
        }
        if (forall|i: int| 0 <= i < entries.len() ==> carries_its_file(index, #[trigger] entries[i]))
            && (forall|i: int, j: int|
            0 <= i < j < entries.len() ==> (#[trigger] entries[i]).path != (
            #[trigger] entries[j]).path) {
            assert forall|i: int, j: int| 0 <= i < j < front.len() implies (
            #[trigger] front[i]).path != (#[trigger] front[j]).path by {
                assert(entries[i].path != entries[j].path);
            }
            assert(carries_its_file(index, entries[last]));
            if packed_before(front, entries[last].path) {
                let i = choose|i: int|
                    0 <= i < front.len() && (#[trigger] front[i]).path == entries[last].path;
                assert(entries[i].path != entries[last].path);
            }
        }
    }
}

proof fn lemma_release_contents(releases: Seq<Seq<char>>, contents: Map<Seq<char>, Seq<u8>>)
    ensures
        releases_content_refusal(releases, contents) is None <==> forall|i: int|
            0 <= i < releases.len() ==> release_present(contents, #[trigger] releases[i]),
    decreases releases.len(),
{
    if releases.len() > 0 {
        let front = releases.drop_last();
        lemma_release_contents(front, contents);
        assert(forall|i: int| 0 <= i < front.len() ==> front[i] == releases[i]);
        if releases_content_refusal(releases, contents) is None {
            assert forall|i: int| 0 <= i < releases.len() implies release_present(
                contents,
                #[trigger] releases[i],
            ) by {
                if i < front.len() {
                    assert(release_present(contents, front[i]));
                }
            }
        }
    }
}

/// A bundle is accepted if and only if it is of the known schema, for the tenant
/// and the environment, in its interval, exported and signed by a trusted
/// signer, its statement can be signed, each entry of its index is carried once,
/// the plan and the approval are there under their paths with their digests, and
/// something is there of each release.
pub proof fn accepted_bundles(
    envelope: &BundleEnvelope,
    roots: &TrustRoots,
    tenant_id: &str,
    environment_id: &str,
    now_unix_ms: i64,
    result: Result<VerifiedBundle, Error>,
)
    requires
        call_ensures(
            BundleEnvelope::verify,
            (envelope, roots, tenant_id, environment_id, now_unix_ms),
            result,
        ),
    ensures
        result is Ok <==> {
            let s = envelope@.statement;
            let files = envelope@.entries;
            let contents = unpacked(files);
            let signer = signer_with(signer_models(roots.signers@), envelope.key_id@);
            &&& envelope.schema@ == BUNDLE_SCHEMA@
            &&& s.tenant_id == tenant_id@
            &&& s.environment_id == environment_id@
            &&& s.issued_at_unix_ms <= now_unix_ms < s.expires_at_unix_ms
            &&& roots_refusal("release"@, roots.version, signer_models(roots.signers@)) is None
            &&& signer is Some
            &&& s.exporter_identity == signer->0.identity
            &&& statement_refusal(s) is None
            &&& base64_message(envelope.signature@) matches Some(signature) && signature.len() == 64
                && ed25519_accepts(
                base64_message(signer->0.public_key)->0,
                statement_bytes(s),
                signature,
            )
            &&& files.len() == s.entries.len()
            &&& forall|i: int|
                0 <= i < files.len() ==> carries_its_file(s.entries, #[trigger] files[i])
            &&& forall|i: int, j: int|
                0 <= i < j < files.len() ==> (#[trigger] files[i]).path != (
                #[trigger] files[j]).path
            &&& contents.contains_key("plans/"@ + s.plan_id + ".json"@)
            &&& prefixed_digest(contents["plans/"@ + s.plan_id + ".json"@]) == s.plan_digest
            &&& contents.contains_key("approvals/"@ + s.plan_id + ".json"@)
            &&& prefixed_digest(contents["approvals/"@ + s.plan_id + ".json"@])
                == s.approval_digest
            &&& forall|i: int|
                0 <= i < s.release_ids.len() ==> release_present(
                    contents,
                    #[trigger] s.release_ids[i],
                )
        },
        result matches Ok(verified) ==> {
            &&& verified.said() == envelope@.statement
            &&& verified.digest_text() == prefixed_digest(statement_bytes(envelope@.statement))
            &&& verified.signer_text() == signer_with(
                signer_models(roots.signers@),
                envelope.key_id@,
            )->0.identity
        },
{
    lemma_unpacks_each(envelope@.statement.entries, envelope@.entries);
    lemma_release_contents(envelope@.statement.release_ids, unpacked(envelope@.entries));
}

proof fn lemma_unpacked_file(entries: Seq<PackedModel>, i: int)
    requires
        0 <= i < entries.len(),
        forall|a: int, b: int|
            0 <= a < b < entries.len() ==> (#[trigger] entries[a]).path != (
            #[trigger] entries[b]).path,
    ensures
        unpacked(entries).contains_key(entries[i].path),
        unpacked(entries)[entries[i].path] == base64_message(entries[i].content)->0,
    decreases entries.len(),
{
    if i < entries.len() - 1 {
        let front = entries.drop_last();
        assert forall|a: int, b: int| 0 <= a < b < front.len() implies (#[trigger] front[a]).path
            != (#[trigger] front[b]).path by {
            assert(entries[a].path != entries[b].path);
        }
        lemma_unpacked_file(front, i);
        assert(entries[i].path != entries[entries.len() - 1].path);
    }
}

/// A verified bundle gives each file that was carried in it, byte by byte, and
/// no other.
pub proof fn verified_files_are_the_carried_ones(
    envelope: &BundleEnvelope,
    roots: &TrustRoots,
    tenant_id: &str,
    environment_id: &str,
    now_unix_ms: i64,
    verified: VerifiedBundle,
    path: &str,
    content: Option<&[u8]>,
)
    requires
        call_ensures(
            BundleEnvelope::verify,
            (envelope, roots, tenant_id, environment_id, now_unix_ms),
            Ok::<VerifiedBundle, Error>(verified),
        ),
        call_ensures(VerifiedBundle::entry, (&verified, path), content),
    ensures
        content is Some <==> exists|i: int|
            0 <= i < envelope.entries@.len() && (#[trigger] envelope.entries@[i]).path@ == path@,
        forall|i: int|
            0 <= i < envelope.entries@.len() && (#[trigger] envelope.entries@[i]).path@ == path@
                ==> content is Some && base64_message(envelope.entries@[i].content_base64@) == Some(
                content->0@,
            ),
{
    let files = envelope@.entries;
    let carried = envelope.entries@;
    lemma_unpacks_each(envelope@.statement.entries, files);
    lemma_unpacked_paths(files, path@);
    assert(files.len() == carried.len());
    assert(forall|i: int| 0 <= i < carried.len() ==> files[i] == (#[trigger] carried[i])@);
    if packed_before(files, path@) {
        let i = choose|i: int| 0 <= i < files.len() && (#[trigger] files[i]).path == path@;
        assert(carried[i].path@ == path@);
    }
    assert forall|i: int|
        0 <= i < carried.len() && (#[trigger] carried[i]).path@ == path@ implies content is Some
        && base64_message(carried[i].content_base64@) == Some(content->0@) by {
        assert(files[i].path == path@);
        lemma_unpacked_file(files, i);
        assert(carries_its_file(envelope@.statement.entries, files[i]));
    }
}

} // verus!
