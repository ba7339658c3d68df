//! The signed statement of a bundle.
use super::rules::{
    path_refusal, text_refusal, validate_path, validate_text, MAX_ARCHIVE_BYTES, MAX_ENTRIES,
    MAX_ENTRY_BYTES,
};
use crate::crypto::{digest_of, is_digest, prefixed_digest};
use crate::error::{first_refusal, refusal, Error};
use crate::framing::{
    domain, encoded, lemma_encoded_add, lemma_fields_cancel, lemma_twos_complement_injective,
    same_shape, twos_complement, Field, Statement,
};
use crate::plan_approval::lemma_digest_frameable;
use crate::signature_verification::{digest_refusal, validate_prefixed_digest};
use crate::text::{contains_char, copy_texts, less, same, text_less, texts};
use vstd::prelude::*;

verus! {

pub const BUNDLE_DOMAIN: &'static str = "TENKAI-OFFLINE-BUNDLE-V1";

/// What a bundle delivers, to whom, and for how long it may be applied.
#[derive(Debug, PartialEq, Eq)]
pub struct BundleStatement {
    pub tenant_id: String,
    pub environment_id: String,
    pub plan_id: String,
    pub plan_digest: String,
    pub approval_digest: String,
    pub release_ids: Vec<String>,
    pub exporter_identity: String,
    pub issued_at_unix_ms: i64,
    pub expires_at_unix_ms: i64,
    pub entries: Vec<EntryDescriptor>,
}

/// One file of a bundle.
#[derive(Debug, PartialEq, Eq)]
pub struct EntryDescriptor {
    pub path: String,
    pub media_type: String,
    pub digest: String,
    pub size: u64,
}

/// What an entry descriptor says.
pub struct EntryModel {
    pub path: Seq<char>,
    pub media_type: Seq<char>,
    pub digest: Seq<char>,
    pub size: u64,
}

impl View for EntryDescriptor {
    type V = EntryModel;

    open spec fn view(&self) -> EntryModel {
        EntryModel {
            path: self.path@,
            media_type: self.media_type@,
            digest: self.digest@,
            size: self.size,
        }
    }
}

/// What entry descriptors say, in order.
pub open spec fn entry_models(list: Seq<EntryDescriptor>) -> Seq<EntryModel> {
    list.map_values(|item: EntryDescriptor| item@)
}

/// What a statement says.
pub struct BundleModel {
    pub tenant_id: Seq<char>,
    pub environment_id: Seq<char>,
    pub plan_id: Seq<char>,
    pub plan_digest: Seq<char>,
    pub approval_digest: Seq<char>,
    pub release_ids: Seq<Seq<char>>,
    pub exporter_identity: Seq<char>,
    pub issued_at_unix_ms: i64,
    pub expires_at_unix_ms: i64,
    pub entries: Seq<EntryModel>,
}

impl View for BundleStatement {
    type V = BundleModel;

    open spec fn view(&self) -> BundleModel {
        BundleModel {
            tenant_id: self.tenant_id@,
            environment_id: self.environment_id@,
            plan_id: self.plan_id@,
            plan_digest: self.plan_digest@,
            approval_digest: self.approval_digest@,
            release_ids: texts(self.release_ids@),
            exporter_identity: self.exporter_identity@,
            issued_at_unix_ms: self.issued_at_unix_ms,
            expires_at_unix_ms: self.expires_at_unix_ms,
            entries: entry_models(self.entries@),
        }
    }
}

/// Why a release identity is refused behind the earlier ones.
pub open spec fn release_refusal(earlier: Seq<Seq<char>>, release: Seq<char>) -> Option<Seq<char>> {
    let text = text_refusal("release identity"@, release, 256);
    if text is Some {
        text
    } else if release.contains('/') || release.contains('\\') {
        Some("release identity cannot contain path separators"@)
    } else if earlier.contains(release) {
        Some("bundle contains duplicate release identity "@ + release)
    } else {
        None
    }
}

/// Why a list of release identities is refused: the refusal of the first that
/// is.
pub open spec fn releases_refusal(releases: Seq<Seq<char>>) -> Option<Seq<char>>
    decreases releases.len(),
{
    if releases.len() == 0 {
        None
    } else {
        first_refusal(
            releases_refusal(releases.drop_last()),
            release_refusal(releases.drop_last(), releases.last()),
        )
    }
}

/// The bytes of all entries together.
pub open spec fn total_size(entries: Seq<EntryModel>) -> nat
    decreases entries.len(),
{
    if entries.len() == 0 {
        0
    } else {
        total_size(entries.drop_last()) + entries.last().size as nat
    }
}

/// An earlier entry has the same path.
pub open spec fn path_taken(earlier: Seq<EntryModel>, path: Seq<char>) -> bool {
    exists|i: int| 0 <= i < earlier.len() && (#[trigger] earlier[i]).path == path
}

/// Why an entry is refused behind the earlier ones.
pub open spec fn entry_refusal(earlier: Seq<EntryModel>, entry: EntryModel) -> Option<Seq<char>> {
    let path = path_refusal(entry.path);
    let media_type = text_refusal("entry media type"@, entry.media_type, 128);
    let digest = digest_refusal("entry digest"@, entry.digest);
    if path is Some {
        path
    } else if media_type is Some {
        media_type
    } else if digest is Some {
        digest
    } else if entry.size > MAX_ENTRY_BYTES {
        Some("bundle entry "@ + entry.path + " exceeds the byte limit"@)
    } else if total_size(earlier) + entry.size as nat > MAX_ARCHIVE_BYTES {
        Some("bundle payloads exceed the archive byte limit"@)
    } else if path_taken(earlier, entry.path) {
        Some("bundle contains duplicate entry path "@ + entry.path)
    } else if earlier.len() > 0 && !text_less(earlier.last().path, entry.path) {
        Some("bundle entry descriptors must be sorted by path"@)
    } else {
        None
    }
}

/// Why a list of entries is refused: the refusal of the first that is.
pub open spec fn entries_refusal(entries: Seq<EntryModel>) -> Option<Seq<char>>
    decreases entries.len(),
{
    if entries.len() == 0 {
        None
    } else {
        first_refusal(
            entries_refusal(entries.drop_last()),
            entry_refusal(entries.drop_last(), entries.last()),
        )
    }
}

/// Why the fixed parts of a statement are refused.
pub open spec fn head_refusal(s: BundleModel) -> Option<Seq<char>> {
    let tenant = text_refusal("tenant identity"@, s.tenant_id, 256);
    let environment = text_refusal("environment identity"@, s.environment_id, 256);
    let plan = text_refusal("plan identity"@, s.plan_id, 256);
    let exporter = text_refusal("exporter identity"@, s.exporter_identity, 256);
    let plan_digest = digest_refusal("plan digest"@, s.plan_digest);
    let approval_digest = digest_refusal("approval digest"@, s.approval_digest);
    if tenant is Some {
        tenant
    } else if environment is Some {
        environment
    } else if plan is Some {
        plan
    } else if exporter is Some {
        exporter
    } else if plan_digest is Some {
        plan_digest
    } else if approval_digest is Some {
        approval_digest
    } else if s.issued_at_unix_ms <= 0 || s.expires_at_unix_ms <= s.issued_at_unix_ms {
        Some("bundle validity interval is invalid"@)
    } else if s.release_ids.len() == 0 || s.entries.len() == 0 {
        Some("bundle must contain releases and entries"@)
    } else if s.entries.len() > MAX_ENTRIES {
        Some("bundle exceeds the 1024 entry limit"@)
    } else {
        None
    }
}

/// Why a statement cannot be signed.
pub open spec fn statement_refusal(s: BundleModel) -> Option<Seq<char>> {
    first_refusal(
        head_refusal(s),
        first_refusal(releases_refusal(s.release_ids), entries_refusal(s.entries)),
    )
}

proof fn lemma_releases_stop(releases: Seq<Seq<char>>, at: int)
    requires
        0 <= at < releases.len(),
        releases_refusal(releases.take(at + 1)) is Some,
    ensures
        releases_refusal(releases) == releases_refusal(releases.take(at + 1)),
    decreases releases.len() - at,
{
    if at + 1 == releases.len() {
        assert(releases.take(at + 1) =~= releases);
    } else {
        assert(releases.take(at + 2).drop_last() =~= releases.take(at + 1));
        lemma_releases_stop(releases, at + 1);
    }
}

proof fn lemma_releases_each(releases: Seq<Seq<char>>, i: int)
    requires
        0 <= i < releases.len(),
        releases_refusal(releases) is None,
    ensures
        release_refusal(releases.take(i), releases[i]) is None,
    decreases releases.len(),
{
    if i + 1 == releases.len() {
        assert(releases.take(i) =~= releases.drop_last());
    } else {
        lemma_releases_each(releases.drop_last(), i);
        assert(releases.drop_last().take(i) =~= releases.take(i));
    }
}

proof fn lemma_entries_stop(entries: Seq<EntryModel>, at: int)
    requires
        0 <= at < entries.len(),
        entries_refusal(entries.take(at + 1)) is Some,
    ensures
        entries_refusal(entries) == entries_refusal(entries.take(at + 1)),
    decreases entries.len() - at,
{
    if at + 1 == entries.len() {
        assert(entries.take(at + 1) =~= entries);
    } else {
        assert(entries.take(at + 2).drop_last() =~= entries.take(at + 1));
        lemma_entries_stop(entries, at + 1);
    }
}

/// The entries of a statement that can be signed stand in strictly ascending
/// path order, each at most the entry limit and all within the archive limit.
pub proof fn signed_index_is_canonical(entries: Seq<EntryModel>)
    requires
        entries_refusal(entries) is None,
    ensures
        forall|i: int, j: int|
            0 <= i < j < entries.len() ==> #[trigger] text_less(entries[i].path, entries[j].path),
        forall|i: int|
            0 <= i < entries.len() ==> (#[trigger] entries[i]).size <= MAX_ENTRY_BYTES && is_digest(
                entries[i].digest,
            ) && path_refusal(entries[i].path) is None,
        total_size(entries) <= MAX_ARCHIVE_BYTES,
    decreases entries.len(),
{
    if entries.len() > 0 {
        let before = entries.drop_last();
        signed_index_is_canonical(before);
        let last = entries.last();
        assert forall|i: int, j: int| 0 <= i < j < entries.len() implies #[trigger] text_less(
            entries[i].path,
            entries[j].path,
        ) by {
            assert(before[i] == entries[i]);
            if j < before.len() {
                assert(before[j] == entries[j]);
                assert(text_less(before[i].path, before[j].path));
            } else {
                let end = before.len() - 1;
                assert(before.last() == before[end]);
                assert(text_less(before[end].path, last.path));
                if i < end {
                    assert(text_less(before[i].path, before[end].path));
                    crate::text::text_less_transitive(before[i].path, before[end].path, last.path);
                }
            }
        }
        assert forall|i: int| 0 <= i < entries.len() implies (#[trigger] entries[i]).size
            <= MAX_ENTRY_BYTES && is_digest(entries[i].digest) && path_refusal(entries[i].path) is None by {
            if i < before.len() {
                assert(before[i] == entries[i]);
            }
        }
    }
}

/// The parts of one entry.
pub open spec fn entry_fields(entry: EntryModel) -> Seq<Field> {
    seq![
        Field::Text(entry.path),
        Field::Text(entry.media_type),
        Field::Text(entry.digest),
        Field::Word(entry.size as nat),
    ]
}

/// The parts of a list of entries.
pub open spec fn entries_fields(entries: Seq<EntryModel>) -> Seq<Field>
    decreases entries.len(),
{
    if entries.len() == 0 {
        Seq::<Field>::empty()
    } else {
        entries_fields(entries.drop_last()) + entry_fields(entries.last())
    }
}

/// The parts of a list of texts.
pub open spec fn text_fields(list: Seq<Seq<char>>) -> Seq<Field> {
    list.map_values(|text: Seq<char>| Field::Text(text))
}

/// The fixed parts of a statement.
pub open spec fn head_fields(s: BundleModel) -> Seq<Field> {
    seq![
        Field::Text(s.tenant_id),
        Field::Text(s.environment_id),
        Field::Text(s.plan_id),
        Field::Text(s.plan_digest),
        Field::Text(s.approval_digest),
        Field::Text(s.exporter_identity),
        Field::Word(twos_complement(s.issued_at_unix_ms)),
        Field::Word(twos_complement(s.expires_at_unix_ms)),
        Field::Word(s.release_ids.len()),
    ]
}

/// The parts of a statement that are signed, in order.
pub open spec fn statement_fields(s: BundleModel) -> Seq<Field> {
    head_fields(s) + text_fields(s.release_ids) + seq![Field::Word(s.entries.len())]
        + entries_fields(s.entries)
}

/// The bytes of a statement that are signed.
pub open spec fn statement_bytes(s: BundleModel) -> Seq<u8> {
    domain(BUNDLE_DOMAIN@) + encoded(statement_fields(s))
}

/// A copy of a statement.
pub fn copy_statement(statement: &BundleStatement) -> (copy: BundleStatement)
    ensures
        copy@ == statement@,
{
    let mut entries: Vec<EntryDescriptor> = Vec::new();
    let mut i: usize = 0;
    while i < statement.entries.len()
        invariant
            i <= statement.entries.len(),
            entries@.len() == i,
            forall|k: int| 0 <= k < i ==> (#[trigger] entries@[k])@ == statement.entries@[k]@,
        decreases statement.entries.len() - i,
    {
        let entry = &statement.entries[i];
        entries.push(
            EntryDescriptor {
                path: entry.path.clone(),
                media_type: entry.media_type.clone(),
                digest: entry.digest.clone(),
                size: entry.size,
            },
        );
        i = i + 1;
    }
    assert(entry_models(entries@) =~= entry_models(statement.entries@));
    BundleStatement {
        tenant_id: statement.tenant_id.clone(),
        environment_id: statement.environment_id.clone(),
        plan_id: statement.plan_id.clone(),
        plan_digest: statement.plan_digest.clone(),
        approval_digest: statement.approval_digest.clone(),
        release_ids: copy_texts(&statement.release_ids),
        exporter_identity: statement.exporter_identity.clone(),
        issued_at_unix_ms: statement.issued_at_unix_ms,
        expires_at_unix_ms: statement.expires_at_unix_ms,
        entries,
    }
}

impl BundleStatement {
    fn check_head(&self) -> (result: Result<(), Error>)
        ensures
            refusal(result) == head_refusal(self@),
    {
        match validate_text("tenant identity", self.tenant_id.as_str(), 256) {
            Err(error) => return Err(error),
            Ok(_) => {},
        }
        match validate_text("environment identity", self.environment_id.as_str(), 256) {
            Err(error) => return Err(error),
            Ok(_) => {},
        }
        match validate_text("plan identity", self.plan_id.as_str(), 256) {
            Err(error) => return Err(error),
            Ok(_) => {},
        }
        match validate_text("exporter identity", self.exporter_identity.as_str(), 256) {
            Err(error) => return Err(error),
            Ok(_) => {},
        }
        match validate_prefixed_digest("plan digest", self.plan_digest.as_str()) {
            Err(error) => return Err(error),
            Ok(_) => {},
        }
        match validate_prefixed_digest("approval digest", self.approval_digest.as_str()) {
            Err(error) => return Err(error),
            Ok(_) => {},
        }
        if self.issued_at_unix_ms <= 0 || self.expires_at_unix_ms <= self.issued_at_unix_ms {
            return Err(Error::fixed("bundle validity interval is invalid"));
        }
        assert(self@.release_ids.len() == self.release_ids@.len());
        assert(self@.entries.len() == self.entries@.len());
        if self.release_ids.len() == 0 || self.entries.len() == 0 {
            return Err(Error::fixed("bundle must contain releases and entries"));
        }
        if self.entries.len() > MAX_ENTRIES {
            return Err(Error::fixed("bundle exceeds the 1024 entry limit"));
        }
        Ok(())
    }

    fn check_releases(&self) -> (result: Result<(), Error>)
        ensures
            refusal(result) == releases_refusal(self@.release_ids),
    {
        let ghost models = self@.release_ids;
        let mut i: usize = 0;
        assert(models.take(0) =~= Seq::<Seq<char>>::empty());
        while i < self.release_ids.len()
            invariant
                i <= self.release_ids.len(),
                models == texts(self.release_ids@),
                releases_refusal(models.take(i as int)) is None,
            decreases self.release_ids.len() - i,
        {
            let release = &self.release_ids[i];
            assert(models[i as int] == release@);
            assert(models.take(i + 1).drop_last() =~= models.take(i as int));
            assert(models.take(i + 1).last() == release@);
            let ghost earlier = models.take(i as int);
            match validate_text("release identity", release.as_str(), 256) {
                Err(error) => {
                    proof {
                        lemma_releases_stop(models, i as int);
                    }
                    return Err(error);
                },
                Ok(_) => {},
            }
            if contains_char(release.as_str(), '/') || contains_char(release.as_str(), '\\') {
                proof {
                    lemma_releases_stop(models, i as int);
                }
                return Err(Error::fixed("release identity cannot contain path separators"));
            }
            let mut j: usize = 0;
            while j < i
                invariant
                    j <= i,
                    i < self.release_ids.len(),
                    models == texts(self.release_ids@),
                    earlier == models.take(i as int),
                    release@ == models[i as int],
                    models.take(i + 1).drop_last() == earlier,
                    models.take(i + 1).last() == release@,
                    releases_refusal(earlier) is None,
                    text_refusal("release identity"@, release@, 256) is None,
                    !release@.contains('/'),
                    !release@.contains('\\'),
                    forall|k: int| 0 <= k < j ==> #[trigger] earlier[k] != release@,
                decreases i - j,
            {
                assert(earlier[j as int] == self.release_ids@[j as int]@);
                if same(&self.release_ids[j], release) {
                    assert(earlier.contains(release@));
                    proof {
                        lemma_releases_stop(models, i as int);
                    }
                    let mut message = "bundle contains duplicate release identity ".to_owned();
                    message.append(release.as_str());
                    return Err(Error::new(message));
                }
                j = j + 1;
            }
            assert(!earlier.contains(release@));
            i = i + 1;
        }
        assert(models.take(i as int) =~= models);
        Ok(())
    }

    fn check_entry(&self, at: usize, total: u64) -> (result: Result<u64, Error>)
        requires
            at < self.entries.len(),
            total == total_size(self@.entries.take(at as int)),
            total <= MAX_ARCHIVE_BYTES,
        ensures
            refusal(result) == entry_refusal(
                self@.entries.take(at as int),
                self@.entries[at as int],
            ),
            result matches Ok(sum) ==> sum == total_size(self@.entries.take(at + 1)) && sum
                <= MAX_ARCHIVE_BYTES,
    {
        let entry = &self.entries[at];
        let ghost earlier = self@.entries.take(at as int);
        assert(self@.entries[at as int] == entry@);
        assert(self@.entries.take(at + 1).drop_last() =~= earlier);
        match validate_path(entry.path.as_str()) {
            Err(error) => return Err(error),
            Ok(_) => {},
        }
        match validate_text("entry media type", entry.media_type.as_str(), 128) {
            Err(error) => return Err(error),
            Ok(_) => {},
        }
        match validate_prefixed_digest("entry digest", entry.digest.as_str()) {
            Err(error) => return Err(error),
            Ok(_) => {},
        }
        if entry.size > MAX_ENTRY_BYTES {
            let mut message = "bundle entry ".to_owned();
            message.append(entry.path.as_str());
            message.append(" exceeds the byte limit");
            return Err(Error::new(message));
        }
        let sum: u64 = total + entry.size;
        if sum > MAX_ARCHIVE_BYTES {
            return Err(Error::fixed("bundle payloads exceed the archive byte limit"));
        }
        let mut j: usize = 0;
        while j < at
            invariant
                j <= at,
                at < self.entries.len(),
                entry@ == self@.entries[at as int],
                earlier == self@.entries.take(at as int),
                entry_refusal(earlier, entry@) == (if path_taken(earlier, entry@.path) {
                    Some("bundle contains duplicate entry path "@ + entry@.path)
                } else if earlier.len() > 0 && !text_less(earlier.last().path, entry@.path) {
                    Some("bundle entry descriptors must be sorted by path"@)
                } else {
                    None
                }),
                forall|k: int| 0 <= k < j ==> (#[trigger] earlier[k]).path != entry@.path,
            decreases at - j,
        {
            assert(earlier[j as int] == self.entries@[j as int]@);
            if same(&self.entries[j].path, &entry.path) {
                assert(path_taken(earlier, entry@.path));
                let mut message = "bundle contains duplicate entry path ".to_owned();
                message.append(entry.path.as_str());
                return Err(Error::new(message));
            }
            j = j + 1;
        }
        assert(!path_taken(earlier, entry@.path));
        if at > 0 {
            assert(earlier.last() == self.entries@[at - 1]@);
            if !less(self.entries[at - 1].path.as_str(), entry.path.as_str()) {
                return Err(Error::fixed("bundle entry descriptors must be sorted by path"));
            }
        }
        Ok(sum)
    }

    fn check_entries(&self) -> (result: Result<(), Error>)
        ensures
            refusal(result) == entries_refusal(self@.entries),
    {
        let ghost models = self@.entries;
        let mut total: u64 = 0;
        let mut i: usize = 0;
        assert(models.take(0) =~= Seq::<EntryModel>::empty());
        while i < self.entries.len()
            invariant
                i <= self.entries.len(),
                models == self@.entries,
                models.len() == self.entries.len(),
                total == total_size(models.take(i as int)),
                total <= MAX_ARCHIVE_BYTES,
                entries_refusal(models.take(i as int)) is None,
            decreases self.entries.len() - i,
        {
            assert(models.take(i + 1).drop_last() =~= models.take(i as int));
            assert(models.take(i + 1).last() == models[i as int]);
            match self.check_entry(i, total) {
                Err(error) => {
                    proof {
                        lemma_entries_stop(models, i as int);
                    }
                    return Err(error);
                },
                Ok(sum) => {
                    total = sum;
                },
            }
            i = i + 1;
        }
        assert(models.take(i as int) =~= models);
        Ok(())
    }

    /// Accept a statement that can be signed.
    pub fn validate(&self) -> (result: Result<(), Error>)
        ensures
            refusal(result) == statement_refusal(self@),
    {
        match self.check_head() {
            Err(error) => return Err(error),
            Ok(_) => {},
        }
        match self.check_releases() {
            Err(error) => return Err(error),
            Ok(_) => {},
        }
        self.check_entries()
    }

    /// The bytes of the statement that are signed.
    pub fn canonical_bytes(&self) -> (result: Result<Vec<u8>, Error>)
        ensures
            refusal(result) == statement_refusal(self@),
            result matches Ok(bytes) ==> bytes@ == statement_bytes(self@),
    {
        match self.validate() {
            Err(error) => return Err(error),
            Ok(_) => {},
        }
        let ghost s = self@;
        let mut parts = Statement::new();
        parts.text(self.tenant_id.as_str());
        parts.text(self.environment_id.as_str());
        parts.text(self.plan_id.as_str());
        parts.text(self.plan_digest.as_str());
        parts.text(self.approval_digest.as_str());
        parts.text(self.exporter_identity.as_str());
        parts.signed(self.issued_at_unix_ms);
        parts.signed(self.expires_at_unix_ms);
        parts.word(self.release_ids.len() as u64);
        assert(parts@ =~= head_fields(s));
        assert(parts@ =~= head_fields(s) + text_fields(s.release_ids.take(0)));
        let mut i: usize = 0;
        while i < self.release_ids.len()
            invariant
                i <= self.release_ids.len(),
                s == self@,
                parts.valid(),
                parts@ == head_fields(s) + text_fields(s.release_ids.take(i as int)),
            decreases self.release_ids.len() - i,
        {
            parts.text(self.release_ids[i].as_str());
            assert(s.release_ids[i as int] == self.release_ids@[i as int]@);
            assert(text_fields(s.release_ids.take(i + 1)) =~= text_fields(
                s.release_ids.take(i as int),
            ).push(Field::Text(s.release_ids[i as int])));
            i = i + 1;
            assert(parts@ =~= head_fields(s) + text_fields(s.release_ids.take(i as int)));
        }
        assert(s.release_ids.take(i as int) =~= s.release_ids);
        parts.word(self.entries.len() as u64);
        let ghost front = head_fields(s) + text_fields(s.release_ids) + seq![
            Field::Word(s.entries.len()),
        ];
        assert(parts@ =~= front);
        let mut j: usize = 0;
        assert(s.entries.take(0) =~= Seq::<EntryModel>::empty());
        assert(parts@ =~= front + entries_fields(s.entries.take(0)));
        while j < self.entries.len()
            invariant
                j <= self.entries.len(),
                s == self@,
                parts.valid(),
                parts@ == front + entries_fields(s.entries.take(j as int)),
            decreases self.entries.len() - j,
        {
            let entry = &self.entries[j];
            parts.text(entry.path.as_str());
            parts.text(entry.media_type.as_str());
            parts.text(entry.digest.as_str());
            parts.word(entry.size);
            assert(s.entries[j as int] == entry@);
            assert(s.entries.take(j + 1).drop_last() =~= s.entries.take(j as int));
            assert(s.entries.take(j + 1).last() == entry@);
            j = j + 1;
            assert(parts@ =~= front + entries_fields(s.entries.take(j as int)));
        }
        assert(s.entries.take(j as int) =~= s.entries);
        assert(parts@ =~= statement_fields(s));
        Ok(parts.in_domain(BUNDLE_DOMAIN))
    }

    /// The digest that identifies the bundle.
    pub fn digest(&self) -> (result: Result<String, Error>)
        ensures
            refusal(result) == statement_refusal(self@),
            result matches Ok(digest) ==> digest@ == prefixed_digest(statement_bytes(self@)),
    {
        match self.canonical_bytes() {
            Err(error) => Err(error),
            Ok(bytes) => Ok(digest_of(bytes.as_slice())),
        }
    }
}

proof fn lemma_head_shape(s: BundleModel)
    requires
        head_refusal(s) is None,
        s.release_ids.len() < 0x1_0000_0000_0000_0000,
    ensures
        forall|i: int| 0 <= i < 9 ==> (#[trigger] head_fields(s)[i]).in_range(),
{
    lemma_digest_frameable(s.plan_digest);
    lemma_digest_frameable(s.approval_digest);
    lemma_twos_complement_injective(s.issued_at_unix_ms, s.issued_at_unix_ms);
    lemma_twos_complement_injective(s.expires_at_unix_ms, s.expires_at_unix_ms);
}

proof fn lemma_entries_shape(a: Seq<EntryModel>, b: Seq<EntryModel>)
    requires
        a.len() == b.len(),
        entries_refusal(a) is None,
        entries_refusal(b) is None,
    ensures
        same_shape(entries_fields(a), entries_fields(b)),
    decreases a.len(),
{
    if a.len() > 0 {
        lemma_entries_shape(a.drop_last(), b.drop_last());
        lemma_digest_frameable(a.last().digest);
        lemma_digest_frameable(b.last().digest);
        let fa = entries_fields(a);
        let fb = entries_fields(b);
        let pa = entries_fields(a.drop_last());
        let pb = entries_fields(b.drop_last());
        assert forall|i: int| 0 <= i < fa.len() implies (#[trigger] fa[i]).alike(fb[i])
            && fa[i].in_range() by {
            if i < pa.len() {
                assert(fa[i] == pa[i]);
                assert(fb[i] == pb[i]);
            } else {
                assert(fa[i] == entry_fields(a.last())[i - pa.len()]);
                assert(fb[i] == entry_fields(b.last())[i - pb.len()]);
            }
        }
        assert forall|i: int| 0 <= i < fb.len() implies (#[trigger] fb[i]).in_range() by {
            if i < pb.len() {
                assert(fb[i] == pb[i]);
            } else {
                assert(fb[i] == entry_fields(b.last())[i - pb.len()]);
            }
        }
    }
}

proof fn lemma_entries_fields_length(a: Seq<EntryModel>)
    ensures
        entries_fields(a).len() == 4 * a.len(),
    decreases a.len(),
{
    if a.len() > 0 {
        lemma_entries_fields_length(a.drop_last());
    }
}

proof fn lemma_entries_fields_injective(a: Seq<EntryModel>, b: Seq<EntryModel>)
    requires
        a.len() == b.len(),
        entries_fields(a) == entries_fields(b),
    ensures
        a == b,
    decreases a.len(),
{
    if a.len() > 0 {
        let fa = entries_fields(a);
        let fb = entries_fields(b);
        let pa = entries_fields(a.drop_last());
        let pb = entries_fields(b.drop_last());
        lemma_entries_fields_length(a.drop_last());
        lemma_entries_fields_length(b.drop_last());
        assert(pa =~= fa.take(pa.len() as int));
        assert(pb =~= fb.take(pb.len() as int));
        lemma_entries_fields_injective(a.drop_last(), b.drop_last());
        let n = pa.len() as int;
        assert(fa[n] == entry_fields(a.last())[0]);
        assert(fb[n] == entry_fields(b.last())[0]);
        assert(fa[n + 1] == entry_fields(a.last())[1]);
        assert(fb[n + 1] == entry_fields(b.last())[1]);
        assert(fa[n + 2] == entry_fields(a.last())[2]);
        assert(fb[n + 2] == entry_fields(b.last())[2]);
        assert(fa[n + 3] == entry_fields(a.last())[3]);
        assert(fb[n + 3] == entry_fields(b.last())[3]);
        assert(a.last() == b.last());
        assert(a =~= a.drop_last().push(a.last()));
        assert(b =~= b.drop_last().push(b.last()));
    } else {
        assert(a =~= b);
    }
}

spec fn entry_tail(s: BundleModel) -> Seq<u8> {
    encoded(seq![Field::Word(s.entries.len())]) + encoded(entries_fields(s.entries))
}

spec fn release_tail(s: BundleModel) -> Seq<u8> {
    encoded(text_fields(s.release_ids)) + entry_tail(s)
}

proof fn lemma_statement_tail(s: BundleModel)
    ensures
        statement_bytes(s) == domain(BUNDLE_DOMAIN@) + encoded(head_fields(s)) + release_tail(s),
{
    let t = text_fields(s.release_ids);
    let c = seq![Field::Word(s.entries.len())];
    let entries = entries_fields(s.entries);
    lemma_encoded_add(head_fields(s) + t + c, entries);
    lemma_encoded_add(head_fields(s) + t, c);
    lemma_encoded_add(head_fields(s), t);
    let h = encoded(head_fields(s));
    let d = domain(BUNDLE_DOMAIN@);
    assert(d + (h + encoded(t) + encoded(c) + encoded(entries)) =~= d + h + release_tail(s));
}

proof fn lemma_bind_head(a: BundleModel, b: BundleModel)
    requires
        head_refusal(a) is None,
        head_refusal(b) is None,
        a.release_ids.len() < 0x1_0000_0000_0000_0000,
        b.release_ids.len() < 0x1_0000_0000_0000_0000,
        statement_bytes(a) == statement_bytes(b),
    ensures
        head_fields(a) == head_fields(b),
        release_tail(a) == release_tail(b),
{
    lemma_statement_tail(a);
    lemma_statement_tail(b);
    lemma_head_shape(a);
    lemma_head_shape(b);
    assert(same_shape(head_fields(a), head_fields(b)));
    lemma_fields_cancel(
        domain(BUNDLE_DOMAIN@),
        head_fields(a),
        head_fields(b),
        release_tail(a),
        release_tail(b),
    );
}

proof fn lemma_head_fields_injective(a: BundleModel, b: BundleModel)
    requires
        head_fields(a) == head_fields(b),
    ensures
        a.tenant_id == b.tenant_id,
        a.environment_id == b.environment_id,
        a.plan_id == b.plan_id,
        a.plan_digest == b.plan_digest,
        a.approval_digest == b.approval_digest,
        a.exporter_identity == b.exporter_identity,
        a.issued_at_unix_ms == b.issued_at_unix_ms,
        a.expires_at_unix_ms == b.expires_at_unix_ms,
        a.release_ids.len() == b.release_ids.len(),
{
    let ha = head_fields(a);
    let hb = head_fields(b);
    assert(ha[0] == hb[0]);
    assert(ha[1] == hb[1]);
    assert(ha[2] == hb[2]);
    assert(ha[3] == hb[3]);
    assert(ha[4] == hb[4]);
    assert(ha[5] == hb[5]);
    assert(ha[6] == hb[6]);
    assert(ha[7] == hb[7]);
    assert(ha[8] == hb[8]);
    lemma_twos_complement_injective(a.issued_at_unix_ms, b.issued_at_unix_ms);
    lemma_twos_complement_injective(a.expires_at_unix_ms, b.expires_at_unix_ms);
}

proof fn lemma_bind_releases(a: BundleModel, b: BundleModel)
    requires
        releases_refusal(a.release_ids) is None,
        releases_refusal(b.release_ids) is None,
        a.release_ids.len() == b.release_ids.len(),
        release_tail(a) == release_tail(b),
    ensures
        a.release_ids == b.release_ids,
        entry_tail(a) == entry_tail(b),
{
    let e = Seq::<u8>::empty();
    let ta = text_fields(a.release_ids);
    let tb = text_fields(b.release_ids);
    assert forall|i: int| 0 <= i < ta.len() implies (#[trigger] ta[i]).in_range() by {
        lemma_releases_each(a.release_ids, i);
    }
    assert forall|i: int| 0 <= i < tb.len() implies (#[trigger] tb[i]).in_range() by {
        lemma_releases_each(b.release_ids, i);
    }
    assert(same_shape(ta, tb));
    assert(e + encoded(ta) + entry_tail(a) =~= release_tail(a));
    assert(e + encoded(tb) + entry_tail(b) =~= release_tail(b));
    lemma_fields_cancel(e, ta, tb, entry_tail(a), entry_tail(b));
    assert forall|i: int| 0 <= i < a.release_ids.len() implies a.release_ids[i]
        == b.release_ids[i] by {
        assert(ta[i] == Field::Text(a.release_ids[i]));
        assert(tb[i] == Field::Text(b.release_ids[i]));
    }
    assert(a.release_ids =~= b.release_ids);
}

proof fn lemma_bind_entries(a: BundleModel, b: BundleModel)
    requires
        entries_refusal(a.entries) is None,
        entries_refusal(b.entries) is None,
        a.entries.len() <= MAX_ENTRIES,
        b.entries.len() <= MAX_ENTRIES,
        entry_tail(a) == entry_tail(b),
    ensures
        a.entries == b.entries,
{
    let e = Seq::<u8>::empty();
    let ca = seq![Field::Word(a.entries.len())];
    let cb = seq![Field::Word(b.entries.len())];
    let ea = entries_fields(a.entries);
    let eb = entries_fields(b.entries);
    assert(same_shape(ca, cb));
    assert(e + encoded(ca) + encoded(ea) =~= entry_tail(a));
    assert(e + encoded(cb) + encoded(eb) =~= entry_tail(b));
    lemma_fields_cancel(e, ca, cb, encoded(ea), encoded(eb));
    assert(ca[0] == cb[0]);
    lemma_entries_shape(a.entries, b.entries);
    assert(e + encoded(ea) + e =~= encoded(ea));
    assert(e + encoded(eb) + e =~= encoded(eb));
    lemma_fields_cancel(e, ea, eb, e, e);
    lemma_entries_fields_injective(a.entries, b.entries);
}

/// The signed bytes determine the statement: nothing that a bundle says of
/// its plan, approval, releases or files can change without changing them.
pub proof fn signed_bytes_bind_the_statement(a: BundleModel, b: BundleModel)
    requires
        statement_refusal(a) is None,
        statement_refusal(b) is None,
        a.release_ids.len() < 0x1_0000_0000_0000_0000,
        b.release_ids.len() < 0x1_0000_0000_0000_0000,
        statement_bytes(a) == statement_bytes(b),
    ensures
        a == b,
{
    lemma_bind_head(a, b);
    lemma_head_fields_injective(a, b);
    lemma_bind_releases(a, b);
    lemma_bind_entries(a, b);
}

proof fn lemma_releases_sound(releases: Seq<Seq<char>>)
    ensures
        releases_refusal(releases) is None <==> {
            &&& releases.no_duplicates()
            &&& forall|i: int|
                0 <= i < releases.len() ==> text_refusal(
                    "release identity"@,
                    #[trigger] releases[i],
                    256,
                ) is None && !releases[i].contains('/') && !releases[i].contains('\\')
        },
    decreases releases.len(),
{
    if releases.len() > 0 {
        let front = releases.drop_last();
        let last = releases.len() - 1;
        lemma_releases_sound(front);
        assert(forall|i: int| 0 <= i < last ==> front[i] == releases[i]);
        if releases_refusal(releases) is None {
            assert forall|i: int, j: int|
                0 <= i < releases.len() && 0 <= j < releases.len() && i != j implies releases[i]
                != releases[j] by {
                if i < last && j < last {
                    assert(front[i] != front[j]);
                } else if i < last {
                    assert(front.contains(front[i]));
                } else {
                    assert(front.contains(front[j]));
                }
            }
            assert forall|i: int| 0 <= i < releases.len() implies text_refusal(
                "release identity"@,
                #[trigger] releases[i],
                256,
            ) is None && !releases[i].contains('/') && !releases[i].contains('\\') by {
                if i < last {
                    assert(!front[i].contains('/'));
                }
            }
        }
        if releases.no_duplicates() {
            assert(front.no_duplicates()) by {
                assert forall|i: int, j: int|
                    0 <= i < front.len() && 0 <= j < front.len() && i != j implies front[i]
                    != front[j] by {
                    assert(releases[i] != releases[j]);
                }
            }
            if front.contains(releases.last()) {
                let i = choose|i: int| 0 <= i < front.len() && front[i] == releases.last();
                assert(releases[i] == releases[last]);
            }
        }
    }
}

/// What is asked of one entry: a canonical path and media type, a digest, and at
/// most the bytes of one entry.
pub open spec fn sound_entry(entry: EntryModel) -> bool {
    &&& path_refusal(entry.path) is None
    &&& text_refusal("entry media type"@, entry.media_type, 128) is None
    &&& is_digest(entry.digest)
    &&& entry.size <= 64 * 1024 * 1024
}

proof fn lemma_entries_sound(entries: Seq<EntryModel>)
    ensures
        entries_refusal(entries) is None <==> {
            &&& forall|i: int| 0 <= i < entries.len() ==> sound_entry(#[trigger] entries[i])
            &&& forall|i: int, j: int|
                0 <= i < j < entries.len() ==> #[trigger] text_less(
                    entries[i].path,
                    entries[j].path,
                )
            &&& total_size(entries) <= 256 * 1024 * 1024
        },
    decreases entries.len(),
{
    if entries.len() > 0 {
        let front = entries.drop_last();
        let last = entries.len() - 1;
        lemma_entries_sound(front);
        assert(forall|i: int| 0 <= i < last ==> front[i] == entries[i]);
        if entries_refusal(entries) is None {
            signed_index_is_canonical(entries);
            assert forall|i: int| 0 <= i < entries.len() implies sound_entry(
                #[trigger] entries[i],
            ) by {
                if i < last {
                    assert(sound_entry(front[i]));
                }
            }
        }
        if (forall|i: int| 0 <= i < entries.len() ==> sound_entry(#[trigger] entries[i])) && (
        forall|i: int, j: int|
            0 <= i < j < entries.len() ==> #[trigger] text_less(entries[i].path, entries[j].path))
            && total_size(entries) <= 256 * 1024 * 1024 {
            assert forall|i: int, j: int| 0 <= i < j < front.len() implies #[trigger] text_less(
                front[i].path,
                front[j].path,
            ) by {
                assert(text_less(entries[i].path, entries[j].path));
            }
            assert(sound_entry(entries[last]));
            if path_taken(front, entries[last].path) {
                let i = choose|i: int|
                    0 <= i < front.len() && (#[trigger] front[i]).path == entries[last].path;
                assert(text_less(entries[i].path, entries[last].path));
                crate::text::text_less_irreflexive(entries[last].path);
            }
            if front.len() > 0 {
                assert(text_less(entries[last - 1].path, entries[last].path));
                assert(front.last() == entries[last - 1]);
            }
        }
    }
}

/// A statement can be signed if and only if its identities and digests are in
/// canonical form, its interval is not empty, it names at least one release and
/// none twice, and its index has from one to 1024 sound entries in strictly
/// ascending path order, of 256 mebibytes at most.
pub proof fn statements_that_can_be_signed(
    statement: &BundleStatement,
    result: Result<(), Error>,
)
    requires
        call_ensures(BundleStatement::validate, (statement,), result),
    ensures
        result is Ok <==> {
            let s = statement@;
            &&& text_refusal("tenant identity"@, s.tenant_id, 256) is None
            &&& text_refusal("environment identity"@, s.environment_id, 256) is None
            &&& text_refusal("plan identity"@, s.plan_id, 256) is None
            &&& text_refusal("exporter identity"@, s.exporter_identity, 256) is None
            &&& is_digest(s.plan_digest)
            &&& is_digest(s.approval_digest)
            &&& 0 < s.issued_at_unix_ms < s.expires_at_unix_ms
            &&& 0 < s.release_ids.len()
            &&& 0 < s.entries.len() <= 1024
            &&& s.release_ids.no_duplicates()
            &&& forall|i: int|
                0 <= i < s.release_ids.len() ==> text_refusal(
                    "release identity"@,
                    #[trigger] s.release_ids[i],
                    256,
                ) is None && !s.release_ids[i].contains('/') && !s.release_ids[i].contains('\\')
            &&& forall|i: int| 0 <= i < s.entries.len() ==> sound_entry(#[trigger] s.entries[i])
            &&& forall|i: int, j: int|
                0 <= i < j < s.entries.len() ==> #[trigger] text_less(
                    s.entries[i].path,
                    s.entries[j].path,
                )
            &&& total_size(s.entries) <= 256 * 1024 * 1024
        },
{
    lemma_releases_sound(statement@.release_ids);
    lemma_entries_sound(statement@.entries);
}

/// A statement is digested and signed over its own bytes, and only if it can be
/// signed.
pub proof fn digests_are_of_the_signed_bytes(
    statement: &BundleStatement,
    bytes: Result<Vec<u8>, Error>,
    digest: Result<String, Error>,
    check: Result<(), Error>,
)
    requires
        call_ensures(BundleStatement::canonical_bytes, (statement,), bytes),
        call_ensures(BundleStatement::digest, (statement,), digest),
        call_ensures(BundleStatement::validate, (statement,), check),
    ensures
        bytes is Ok <==> check is Ok,
        digest is Ok <==> check is Ok,
        digest is Ok ==> digest->Ok_0@ == prefixed_digest(bytes->Ok_0@),
{
}

} // verus!
