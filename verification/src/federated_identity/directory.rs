//! Local correlation records of federated identities, and the memory of
//! accepted assertions.
use super::{
    context_refusal, federation_refusal, identifier_refusal, mapping_refusal, refusal_text,
    ContextModel, FederatedIdentifier, FederationError, FederationRefusal, IdentifierModel,
    IdentityKind, IdentityMapping, MappingModel, SignedIdentityContext,
};
use crate::auth_context::AuthError;
use crate::ontology::lemma_delimited;
use crate::text::{blank, opt_text, same};
use crate::text_map::{ascending, TextMap};
use vstd::prelude::*;

verus! {

/// The right to write tenant mappings. Only trusted authentication code gets
/// it, for the configured issuer and audience.
#[derive(Debug, PartialEq, Eq)]
pub struct MappingAuthority {
    issuer: String,
    audience: String,
}

impl MappingAuthority {
    /// The issuer whose subjects may be mapped.
    pub closed spec fn issuer_text(self) -> Seq<char> {
        self.issuer@
    }

    /// The audience whose subjects may be mapped.
    pub closed spec fn audience_text(self) -> Seq<char> {
        self.audience@
    }

    /// The issuer whose subjects may be mapped.
    pub fn issuer(&self) -> (issuer: &str)
        ensures
            issuer@ == self.issuer_text(),
    {
        self.issuer.as_str()
    }

    /// The audience whose subjects may be mapped.
    pub fn audience(&self) -> (audience: &str)
        ensures
            audience@ == self.audience_text(),
    {
        self.audience.as_str()
    }
}

/// How a host federates.
#[derive(Debug, PartialEq, Eq)]
pub struct FederationConfig {
    /// The issuer that enterprise operation requires.
    pub required_enterprise_issuer: Option<String>,
    pub expected_audience: String,
    pub max_clock_skew_ms: i64,
    /// How many accepted assertions are remembered.
    pub replay_cache_capacity: usize,
}

impl Default for FederationConfig {
    /// A host without an enterprise issuer.
    fn default() -> (config: FederationConfig)
        ensures
            config.required_enterprise_issuer is None,
            config.expected_audience@ == "tenkai-server"@,
            config.max_clock_skew_ms == 60_000,
            config.replay_cache_capacity == 4_096,
    {
        FederationConfig {
            required_enterprise_issuer: None,
            expected_audience: "tenkai-server".to_owned(),
            max_clock_skew_ms: 60_000,
            replay_cache_capacity: 4_096,
        }
    }
}

impl FederationConfig {
    /// A community host: no enterprise issuer is required.
    pub fn community() -> (config: FederationConfig)
        ensures
            config.required_enterprise_issuer is None,
            config.expected_audience@ == "tenkai-server"@,
            config.max_clock_skew_ms == 60_000,
            config.replay_cache_capacity == 4_096,
    {
        FederationConfig {
            required_enterprise_issuer: None,
            expected_audience: "tenkai-server".to_owned(),
            max_clock_skew_ms: 60_000,
            replay_cache_capacity: 4_096,
        }
    }

    /// An enterprise host that requires an issuer.
    pub fn enterprise(issuer: &str, audience: &str) -> (config: FederationConfig)
        ensures
            opt_text(config.required_enterprise_issuer) == Some(issuer@),
            config.expected_audience@ == audience@,
            config.max_clock_skew_ms == 60_000,
            config.replay_cache_capacity == 4_096,
    {
        FederationConfig {
            required_enterprise_issuer: Some(issuer.to_owned()),
            expected_audience: audience.to_owned(),
            max_clock_skew_ms: 60_000,
            replay_cache_capacity: 4_096,
        }
    }
}

/// Mappings and accepted assertions. It shares no store with the enterprise
/// identity plane.
#[derive(Debug, PartialEq, Eq)]
pub struct IdentityDirectory {
    mappings: TextMap<IdentityMapping>,
    replayed: TextMap<i64>,
}

/// The key of an identifier in the directory.
pub open spec fn mapping_key_text(id: IdentifierModel) -> Seq<char> {
    id.issuer + "|"@ + id.kind.word() + "|"@ + id.audience + "|"@ + id.subject
}

/// What mappings say.
pub open spec fn mapping_models(map: Map<Seq<char>, IdentityMapping>) -> Map<
    Seq<char>,
    MappingModel,
> {
    map.map_values(|mapping: IdentityMapping| mapping@)
}

/// A mapping could be recorded under a key at some time: whatever came of it
/// later, its identifier, its handle and its generation are valid, and the key
/// is that of its identifier.
pub open spec fn sound_mapping(key: Seq<char>, mapping: MappingModel) -> bool {
    &&& identifier_refusal(mapping.external) is None
    &&& !blank(mapping.local_handle)
    &&& mapping.generation > 0
    &&& key == mapping_key_text(mapping.external)
}

/// Every mapping was valid when it was recorded.
pub open spec fn sound(mappings: Map<Seq<char>, MappingModel>) -> bool {
    forall|key: Seq<char>| #[trigger]
        mappings.contains_key(key) ==> sound_mapping(key, mappings[key])
}

/// An authority covers an identifier.
pub open spec fn covers(authority: MappingAuthority, id: IdentifierModel) -> bool {
    id.issuer == authority.issuer_text() && id.audience == authority.audience_text()
}

/// Why a mapping cannot be recorded.
pub open spec fn put_refusal(
    mappings: Map<Seq<char>, MappingModel>,
    authority: MappingAuthority,
    mapping: MappingModel,
    now: i64,
) -> Option<FederationRefusal> {
    let key = mapping_key_text(mapping.external);
    let existing = mappings[key];
    if mapping_refusal(mapping, now) is Some {
        mapping_refusal(mapping, now)
    } else if !covers(authority, mapping.external) {
        Some(FederationRefusal::UnauthorizedMapping)
    } else if mappings.contains_key(key) && existing.generation > mapping.generation {
        Some(
            FederationRefusal::StaleGeneration {
                found: mapping.generation,
                current: existing.generation,
            },
        )
    } else if mappings.contains_key(key) && existing.generation == mapping.generation
        && existing.local_handle != mapping.local_handle {
        Some(FederationRefusal::MappingConflict)
    } else {
        None
    }
}

/// Why an identifier does not resolve.
pub open spec fn resolve_refusal(
    mappings: Map<Seq<char>, MappingModel>,
    external: IdentifierModel,
    now: i64,
) -> Option<FederationRefusal> {
    let key = mapping_key_text(external);
    if identifier_refusal(external) is Some {
        identifier_refusal(external)
    } else if !mappings.contains_key(key) {
        Some(FederationRefusal::NotFound)
    } else {
        mapping_refusal(mappings[key], now)
    }
}

/// Why a mapping cannot be revoked or deleted.
pub open spec fn change_refusal(
    mappings: Map<Seq<char>, MappingModel>,
    authority: MappingAuthority,
    external: IdentifierModel,
) -> Option<FederationRefusal> {
    if identifier_refusal(external) is Some {
        identifier_refusal(external)
    } else if !covers(authority, external) {
        Some(FederationRefusal::UnauthorizedMapping)
    } else if !mappings.contains_key(mapping_key_text(external)) {
        Some(FederationRefusal::NotFound)
    } else {
        None
    }
}

/// The place of the assertion that expires first among the first of a list,
/// the first of those that expire together.
pub open spec fn first_to_expire(
    keys: Seq<Seq<char>>,
    expiries: Map<Seq<char>, i64>,
    count: nat,
) -> Option<int>
    decreases count,
{
    if count == 0 {
        None
    } else {
        let before = first_to_expire(keys, expiries, (count - 1) as nat);
        if before is None || expiries[keys[count - 1]] < expiries[keys[before->0]] {
            Some(count - 1)
        } else {
            before
        }
    }
}

/// The identities of the accepted assertions are listed once each, in order.
pub open spec fn lists_accepted(keys: Seq<Seq<char>>, expiries: Map<Seq<char>, i64>) -> bool {
    &&& ascending(keys)
    &&& forall|id: Seq<char>| #[trigger] expiries.contains_key(id) <==> keys.contains(id)
}

/// The remembered assertions after one was accepted: at the capacity, the one
/// that expires first is forgotten.
pub open spec fn remembered(
    keys: Seq<Seq<char>>,
    expiries: Map<Seq<char>, i64>,
    capacity: usize,
    assertion_id: Seq<char>,
    expires_at: i64,
) -> Map<Seq<char>, i64> {
    let oldest = first_to_expire(keys, expiries, keys.len());
    let kept = if keys.len() >= capacity && oldest is Some {
        expiries.remove(keys[oldest->0])
    } else {
        expiries
    };
    kept.insert(assertion_id, expires_at)
}

/// Why a signed context is not accepted.
pub open spec fn accept_refusal(
    config: FederationConfig,
    replayed: Map<Seq<char>, i64>,
    context: ContextModel,
    now: i64,
) -> Option<FederationRefusal> {
    match config.required_enterprise_issuer {
        None => Some(FederationRefusal::EnterpriseIssuerNotConfigured),
        Some(issuer) => {
            let refused = context_refusal(
                context,
                issuer@,
                config.expected_audience@,
                now,
                config.max_clock_skew_ms,
            );
            if refused is Some {
                refused
            } else if replayed.contains_key(context.assertion_id) {
                Some(FederationRefusal::Replay)
            } else {
                None
            }
        },
    }
}

fn mapping_key(external: &FederatedIdentifier) -> (key: String)
    ensures
        key@ == mapping_key_text(external@),
{
    let mut key = external.issuer.clone();
    key.append("|");
    key.append(external.kind.as_str());
    key.append("|");
    key.append(external.audience.as_str());
    key.append("|");
    key.append(external.subject.as_str());
    key
}

impl IdentityDirectory {
    #[verifier::type_invariant]
    spec fn well_formed(self) -> bool {
        sound(mapping_models(self.mappings@))
    }

    /// What the mappings say, by key.
    pub closed spec fn mapped(self) -> Map<Seq<char>, MappingModel> {
        mapping_models(self.mappings@)
    }

    /// When the accepted assertions expire, by their identities.
    pub closed spec fn accepted(self) -> Map<Seq<char>, i64> {
        self.replayed@
    }

    /// The identities of the accepted assertions in their order.
    pub closed spec fn accepted_ids(self) -> Seq<Seq<char>> {
        self.replayed.keys()
    }

    /// A directory without records.
    pub fn new() -> (directory: IdentityDirectory)
        ensures
            directory.mapped() == Map::<Seq<char>, MappingModel>::empty(),
            directory.accepted() == Map::<Seq<char>, i64>::empty(),
    {
        let directory = IdentityDirectory {
            mappings: TextMap::<IdentityMapping>::new(),
            replayed: TextMap::<i64>::new(),
        };
        assert(directory.mapped() =~= Map::<Seq<char>, MappingModel>::empty());
        directory
    }

    /// Grant the right to write mappings, for the configured issuer alone.
    pub fn mapping_authority(&self, config: &FederationConfig) -> (result: Result<
        MappingAuthority,
        FederationError,
    >)
        ensures
            federation_refusal(result) == (if config.required_enterprise_issuer is None {
                Some(FederationRefusal::EnterpriseIssuerNotConfigured)
            } else {
                None
            }),
            result matches Ok(authority) ==> authority.issuer_text()
                == config.required_enterprise_issuer->0@ && authority.audience_text()
                == config.expected_audience@,
    {
        match &config.required_enterprise_issuer {
            None => Err(FederationError::EnterpriseIssuerNotConfigured),
            Some(issuer) => Ok(
                MappingAuthority {
                    issuer: issuer.clone(),
                    audience: config.expected_audience.clone(),
                },
            ),
        }
    }

    /// Record a mapping. Caller metadata cannot supply the authority.
    pub fn put_mapping(
        &mut self,
        authority: &MappingAuthority,
        mapping: IdentityMapping,
        now: i64,
    ) -> (result: Result<(), FederationError>)
        ensures
            federation_refusal(result) == put_refusal(
                old(self).mapped(),
                *authority,
                mapping@,
                now,
            ),
            final(self).mapped() == (if result is Ok {
                old(self).mapped().insert(mapping_key_text(mapping@.external), mapping@)
            } else {
                old(self).mapped()
            }),
            final(self).accepted() == old(self).accepted(),
            final(self).accepted_ids() == old(self).accepted_ids(),
            sound(old(self).mapped()),
            sound(final(self).mapped()),
    {
        proof {
            use_type_invariant(&*self);
        }
        match mapping.validate(now) {
            Err(error) => return Err(error),
            Ok(_) => {},
        }
        if !same(&mapping.external.issuer, authority.issuer()) || !same(
            &mapping.external.audience,
            authority.audience(),
        ) {
            return Err(FederationError::UnauthorizedMapping);
        }
        let key = mapping_key(&mapping.external);
        match self.mappings.get(key.as_str()) {
            None => {},
            Some(existing) => {
                if existing.generation > mapping.generation {
                    return Err(
                        FederationError::StaleGeneration {
                            found: mapping.generation,
                            current: existing.generation,
                        },
                    );
                }
                if existing.generation == mapping.generation && !same(
                    &existing.local_handle,
                    &mapping.local_handle,
                ) {
                    return Err(FederationError::MappingConflict);
                }
            },
        }
        let ghost before = self.mappings@;
        let ghost model = mapping@;
        let mut mappings = TextMap::<IdentityMapping>::new();
        std::mem::swap(&mut mappings, &mut self.mappings);
        mappings.insert(key, mapping);
        assert(mapping_models(mappings@) =~= mapping_models(before).insert(key@, model));
        self.mappings = mappings;
        Ok(())
    }

    /// The mapping of an identifier that is valid at an instant.
    pub fn resolve(&self, external: &FederatedIdentifier, now: i64) -> (result: Result<
        IdentityMapping,
        FederationError,
    >)
        ensures
            federation_refusal(result) == resolve_refusal(self.mapped(), external@, now),
            result matches Ok(mapping) ==> mapping@ == self.mapped()[mapping_key_text(
                external@,
            )],
            sound(self.mapped()),
    {
        proof {
            use_type_invariant(self);
        }
        match external.validate() {
            Err(error) => return Err(error),
            Ok(_) => {},
        }
        let key = mapping_key(external);
        match self.mappings.get(key.as_str()) {
            None => Err(FederationError::NotFound),
            Some(mapping) => match mapping.validate(now) {
                Err(error) => Err(error),
                Ok(_) => Ok(mapping.copy()),
            },
        }
    }

    /// Revoke the mapping of an identifier.
    pub fn revoke(
        &mut self,
        authority: &MappingAuthority,
        external: &FederatedIdentifier,
        now: i64,
    ) -> (result: Result<(), FederationError>)
        ensures
            federation_refusal(result) == change_refusal(
                old(self).mapped(),
                *authority,
                external@,
            ),
            final(self).mapped() == (if result is Ok {
                let key = mapping_key_text(external@);
                old(self).mapped().insert(
                    key,
                    MappingModel { revoked_at: Some(now), ..old(self).mapped()[key] },
                )
            } else {
                old(self).mapped()
            }),
            final(self).accepted() == old(self).accepted(),
            final(self).accepted_ids() == old(self).accepted_ids(),
            sound(old(self).mapped()),
            sound(final(self).mapped()),
    {
        proof {
            use_type_invariant(&*self);
        }
        match external.validate() {
            Err(error) => return Err(error),
            Ok(_) => {},
        }
        if !same(&external.issuer, authority.issuer()) || !same(
            &external.audience,
            authority.audience(),
        ) {
            return Err(FederationError::UnauthorizedMapping);
        }
        let key = mapping_key(external);
        let mut revoked = match self.mappings.get(key.as_str()) {
            None => return Err(FederationError::NotFound),
            Some(mapping) => mapping.copy(),
        };
        revoked.revoked_at = Some(now);
        let ghost before = self.mappings@;
        let ghost model = revoked@;
        let mut mappings = TextMap::<IdentityMapping>::new();
        std::mem::swap(&mut mappings, &mut self.mappings);
        mappings.insert(key, revoked);
        assert(mapping_models(mappings@) =~= mapping_models(before).insert(key@, model));
        self.mappings = mappings;
        Ok(())
    }

    /// Delete the mapping of an identifier.
    pub fn delete(
        &mut self,
        authority: &MappingAuthority,
        external: &FederatedIdentifier,
    ) -> (result: Result<(), FederationError>)
        ensures
            federation_refusal(result) == change_refusal(
                old(self).mapped(),
                *authority,
                external@,
            ),
            final(self).mapped() == (if result is Ok {
                old(self).mapped().remove(mapping_key_text(external@))
            } else {
                old(self).mapped()
            }),
            final(self).accepted() == old(self).accepted(),
            final(self).accepted_ids() == old(self).accepted_ids(),
            sound(old(self).mapped()),
            sound(final(self).mapped()),
    {
        proof {
            use_type_invariant(&*self);
        }
        match external.validate() {
            Err(error) => return Err(error),
            Ok(_) => {},
        }
        if !same(&external.issuer, authority.issuer()) || !same(
            &external.audience,
            authority.audience(),
        ) {
            return Err(FederationError::UnauthorizedMapping);
        }
        let key = mapping_key(external);
        if !self.mappings.contains_key(key.as_str()) {
            return Err(FederationError::NotFound);
        }
        let ghost before = self.mappings@;
        let mut mappings = TextMap::<IdentityMapping>::new();
        std::mem::swap(&mut mappings, &mut self.mappings);
        mappings.remove(key.as_str());
        assert(mapping_models(mappings@) =~= mapping_models(before).remove(key@));
        self.mappings = mappings;
        Ok(())
    }

    fn oldest(&self) -> (found: Option<usize>)
        ensures
            match found {
                Some(at) => at < self.accepted_ids().len() && first_to_expire(
                    self.accepted_ids(),
                    self.accepted(),
                    self.accepted_ids().len(),
                ) == Some(at as int),
                None => self.accepted_ids().len() == 0,
            },
    {
        let ghost keys = self.accepted_ids();
        let count = self.replayed.len();
        let mut found: Option<usize> = None;
        let mut i: usize = 0;
        while i < count
            invariant
                i <= count,
                keys == self.accepted_ids(),
                count == keys.len(),
                match found {
                    Some(at) => at < i && first_to_expire(keys, self.accepted(), i as nat)
                        == Some(at as int),
                    None => i == 0,
                },
            decreases count - i,
        {
            let sooner = match found {
                None => true,
                Some(at) => *self.replayed.value_at(i) < *self.replayed.value_at(at),
            };
            if sooner {
                found = Some(i);
            }
            i = i + 1;
        }
        found
    }

    /// Accept a signed context once. An assertion that was accepted before is
    /// refused.
    pub fn accept_signed_context(
        &mut self,
        config: &FederationConfig,
        context: &SignedIdentityContext,
        now: i64,
    ) -> (result: Result<(), FederationError>)
        ensures
            federation_refusal(result) == accept_refusal(
                *config,
                old(self).accepted(),
                context@,
                now,
            ),
            final(self).accepted() == (if result is Ok {
                remembered(
                    old(self).accepted_ids(),
                    old(self).accepted(),
                    config.replay_cache_capacity,
                    context@.assertion_id,
                    context@.expires_at,
                )
            } else {
                old(self).accepted()
            }),
            final(self).mapped() == old(self).mapped(),
            sound(old(self).mapped()),
            lists_accepted(old(self).accepted_ids(), old(self).accepted()),
            lists_accepted(final(self).accepted_ids(), final(self).accepted()),
    {
        let count = self.replayed.len();
        proof {
            use_type_invariant(&*self);
            self.replayed.lemma_keys();
        }
        let issuer = match &config.required_enterprise_issuer {
            None => return Err(FederationError::EnterpriseIssuerNotConfigured),
            Some(text) => text.as_str(),
        };
        match context.validate(
            issuer,
            config.expected_audience.as_str(),
            now,
            config.max_clock_skew_ms,
        ) {
            Err(error) => return Err(error),
            Ok(_) => {},
        }
        if self.replayed.contains_key(context.assertion_id.as_str()) {
            return Err(FederationError::Replay);
        }
        let mut forgotten: Option<String> = None;
        if count >= config.replay_cache_capacity {
            match self.oldest() {
                None => {},
                Some(at) => {
                    forgotten = Some(self.replayed.key_at(at).clone());
                },
            }
        }
        let mut replayed = TextMap::<i64>::new();
        std::mem::swap(&mut replayed, &mut self.replayed);
        match forgotten {
            None => {},
            Some(id) => replayed.remove(id.as_str()),
        }
        replayed.insert(context.assertion_id.clone(), context.expires_at);
        self.replayed = replayed;
        proof {
            use_type_invariant(&self.replayed);
            self.replayed.lemma_keys();
        }
        Ok(())
    }
}

/// What was recorded resolves: the mapping of an identifier, for as long as it
/// is valid.
pub proof fn recorded_mapping_resolves(
    mappings: Map<Seq<char>, MappingModel>,
    authority: MappingAuthority,
    mapping: MappingModel,
    now: i64,
    later: i64,
)
    requires
        put_refusal(mappings, authority, mapping, now) is None,
        mapping_refusal(mapping, later) is None,
    ensures
        ({
            let key = mapping_key_text(mapping.external);
            let after = mappings.insert(key, mapping);
            &&& resolve_refusal(after, mapping.external, later) is None
            &&& after[key] == mapping
        }),
{
}

/// A mapping is never replaced by one of a lower generation, nor by another
/// handle of its own generation.
pub proof fn generations_do_not_go_back(
    mappings: Map<Seq<char>, MappingModel>,
    authority: MappingAuthority,
    mapping: MappingModel,
    now: i64,
)
    requires
        put_refusal(mappings, authority, mapping, now) is None,
        mappings.contains_key(mapping_key_text(mapping.external)),
    ensures
        ({
            let existing = mappings[mapping_key_text(mapping.external)];
            &&& existing.generation <= mapping.generation
            &&& existing.generation == mapping.generation ==> existing.local_handle
                == mapping.local_handle
        }),
{
}

/// A revoked mapping does not resolve, at any time: it is refused as revoked, or
/// as expired where its time is up.
pub proof fn revoked_mapping_does_not_resolve(
    mappings: Map<Seq<char>, MappingModel>,
    external: IdentifierModel,
    revoked_at: i64,
    now: i64,
)
    requires
        sound(mappings),
        identifier_refusal(external) is None,
        mappings.contains_key(mapping_key_text(external)),
        mappings[mapping_key_text(external)].revoked_at == Some(revoked_at),
    ensures
        ({
            let mapping = mappings[mapping_key_text(external)];
            resolve_refusal(mappings, external, now) == Some(
                if mapping.expires_at is Some && mapping.expires_at->0 <= now {
                    FederationRefusal::Expired
                } else {
                    FederationRefusal::Revoked
                },
            )
        }),
{
    assert(sound_mapping(mapping_key_text(external), mappings[mapping_key_text(external)]));
}

/// A revocation holds until its mapping is recorded anew or deleted: neither the
/// record nor the deletion of another identifier lifts it.
pub proof fn revocation_lasts(
    mappings: Map<Seq<char>, MappingModel>,
    authority: MappingAuthority,
    external: IdentifierModel,
    revoked_at: i64,
    other: MappingModel,
    now: i64,
)
    requires
        change_refusal(mappings, authority, external) is None,
        separated(external),
        separated(other.external),
        external != other.external,
        external.contract_version == other.external.contract_version,
    ensures
        ({
            let key = mapping_key_text(external);
            let revoked = mappings.insert(
                key,
                MappingModel { revoked_at: Some(revoked_at), ..mappings[key] },
            );
            let further = mapping_key_text(other.external);
            &&& resolve_refusal(revoked, external, now) is Some
            &&& resolve_refusal(revoked.insert(further, other), external, now) == resolve_refusal(
                revoked,
                external,
                now,
            )
            &&& resolve_refusal(revoked.remove(further), external, now) == resolve_refusal(
                revoked,
                external,
                now,
            )
        }),
{
    keys_tell_identifiers_apart(external, other.external);
}

/// What is done to the mapping of an identifier, no other identifier sees.
pub proof fn changes_touch_one_identifier(
    mappings: Map<Seq<char>, MappingModel>,
    external: IdentifierModel,
    changed: MappingModel,
    other: IdentifierModel,
    now: i64,
)
    requires
        identifier_refusal(external) is None,
        separated(external),
        separated(other),
        external != other,
    ensures
        ({
            let key = mapping_key_text(external);
            &&& resolve_refusal(mappings.insert(key, changed), other, now) == resolve_refusal(
                mappings,
                other,
                now,
            )
            &&& resolve_refusal(mappings.remove(key), other, now) == resolve_refusal(
                mappings,
                other,
                now,
            )
        }),
{
    if identifier_refusal(other) is None {
        keys_tell_identifiers_apart(external, other);
    }
}

/// A foreign authority writes nothing, whatever the mapping.
pub proof fn foreign_authority_is_rejected(
    mappings: Map<Seq<char>, MappingModel>,
    authority: MappingAuthority,
    mapping: MappingModel,
    now: i64,
)
    requires
        !covers(authority, mapping.external),
    ensures
        put_refusal(mappings, authority, mapping, now) is Some,
        change_refusal(mappings, authority, mapping.external) is Some,
{
}

/// An assertion is accepted once: while it is remembered, it is refused.
pub proof fn accepted_assertion_is_not_accepted_again(
    config: FederationConfig,
    keys: Seq<Seq<char>>,
    expiries: Map<Seq<char>, i64>,
    context: ContextModel,
    now: i64,
    later: i64,
)
    requires
        accept_refusal(config, expiries, context, now) is None,
    ensures
        accept_refusal(
            config,
            remembered(
                keys,
                expiries,
                config.replay_cache_capacity,
                context.assertion_id,
                context.expires_at,
            ),
            context,
            later,
        ) is Some,
{
}

proof fn lemma_words(a: IdentityKind, b: IdentityKind)
    ensures
        !a.word().contains('|'),
        a.word() == b.word() ==> a == b,
{
    reveal_strlit("tenant");
    reveal_strlit("principal");
    reveal_strlit("service");
    reveal_strlit("environment");
    reveal_strlit("agent");
    reveal_strlit("product");
    reveal_strlit("plan");
    reveal_strlit("evidence");
    if a.word() == b.word() {
        assert(a.word().len() == b.word().len());
        assert(a.word()[0] == b.word()[0]);
        assert(a.word()[1] == b.word()[1]);
    }
}

/// Neither the issuer nor the audience of an identifier holds the separator of
/// the keys.
pub open spec fn separated(id: IdentifierModel) -> bool {
    !id.issuer.contains('|') && !id.audience.contains('|')
}

/// Identifiers that differ have keys that differ, where neither an issuer nor
/// an audience holds the separator of the keys.
pub proof fn keys_tell_identifiers_apart(a: IdentifierModel, b: IdentifierModel)
    requires
        separated(a),
        separated(b),
        a.contract_version == b.contract_version,
    ensures
        mapping_key_text(a) == mapping_key_text(b) ==> a == b,
{
    if mapping_key_text(a) == mapping_key_text(b) {
        reveal_strlit("|");
        let bar = "|"@;
        let none = Seq::<char>::empty();
        assert(bar =~= seq!['|']);
        lemma_words(a.kind, b.kind);
        lemma_words(b.kind, a.kind);
        let a_rest = a.kind.word() + bar + a.audience + bar + a.subject;
        let b_rest = b.kind.word() + bar + b.audience + bar + b.subject;
        assert(mapping_key_text(a) =~= none + a.issuer + bar + a_rest);
        assert(mapping_key_text(b) =~= none + b.issuer + bar + b_rest);
        lemma_delimited(none, a.issuer, b.issuer, a_rest, b_rest, '|', bar);
        let a_tail = a.audience + bar + a.subject;
        let b_tail = b.audience + bar + b.subject;
        assert(a_rest =~= none + a.kind.word() + bar + a_tail);
        assert(b_rest =~= none + b.kind.word() + bar + b_tail);
        lemma_delimited(none, a.kind.word(), b.kind.word(), a_tail, b_tail, '|', bar);
        assert(a_tail =~= none + a.audience + bar + a.subject);
        assert(b_tail =~= none + b.audience + bar + b.subject);
        lemma_delimited(none, a.audience, b.audience, a.subject, b.subject, '|', bar);
    }
}

/// A refusal is one of authorization, not of the credential's form.
pub open spec fn is_unauthorized(refusal: FederationRefusal) -> bool {
    match refusal {
        FederationRefusal::Replay => true,
        FederationRefusal::Expired => true,
        FederationRefusal::NotYetValid => true,
        FederationRefusal::IssuerMismatch { found, expected } => true,
        FederationRefusal::AudienceMismatch { found, expected } => true,
        FederationRefusal::EnterpriseIssuerNotConfigured => true,
        _ => false,
    }
}

/// An error says why a request is refused.
pub open spec fn auth_says(error: AuthError, refusal: FederationRefusal) -> bool {
    if is_unauthorized(refusal) {
        error matches AuthError::Unauthorized(text) && text@ == refusal_text(refusal)
    } else {
        error matches AuthError::InvalidCredential(text) && text@ == refusal_text(refusal)
    }
}

/// The authentication error of a federation error.
pub fn federation_to_auth_error(error: FederationError) -> (result: AuthError)
    ensures
        auth_says(result, error@),
{
    let text = error.to_string();
    let unauthorized = match error {
        FederationError::Replay => true,
        FederationError::Expired => true,
        FederationError::NotYetValid => true,
        FederationError::IssuerMismatch { .. } => true,
        FederationError::AudienceMismatch { .. } => true,
        FederationError::EnterpriseIssuerNotConfigured => true,
        _ => false,
    };
    if unauthorized {
        AuthError::Unauthorized(text)
    } else {
        AuthError::InvalidCredential(text)
    }
}

/// The federation rules behind an enterprise authentication extension:
/// accepted requests must also present a context that is bound to the issuer
/// and not replayed.
#[derive(Debug, PartialEq, Eq)]
pub struct FederatingAuthExtension {
    directory: IdentityDirectory,
    config: FederationConfig,
}

impl FederatingAuthExtension {
    /// Its directory.
    pub closed spec fn held(self) -> IdentityDirectory {
        self.directory
    }

    /// Its configuration.
    pub closed spec fn configured(self) -> FederationConfig {
        self.config
    }

    /// The rules over a directory and a configuration.
    pub fn new(directory: IdentityDirectory, config: FederationConfig) -> (extension:
        FederatingAuthExtension)
        ensures
            extension.held() == directory,
            extension.configured() == config,
    {
        FederatingAuthExtension { directory, config }
    }

    /// Its directory.
    pub fn directory(&self) -> (directory: &IdentityDirectory)
        ensures
            *directory == self.held(),
    {
        &self.directory
    }

    /// Its configuration.
    pub fn config(&self) -> (config: &FederationConfig)
        ensures
            *config == self.configured(),
    {
        &self.config
    }

    /// Check what an authenticated request asserts: nothing, a context, or
    /// something that reads as none, whose fault is given.
    pub fn check_assertion(
        &mut self,
        assertion: Option<Result<SignedIdentityContext, String>>,
        now: i64,
    ) -> (result: Result<(), AuthError>)
        ensures
            final(self).configured() == old(self).configured(),
            final(self).held().mapped() == old(self).held().mapped(),
            match assertion {
                None => result is Ok && final(self).held() == old(self).held(),
                Some(Err(fault)) => final(self).held() == old(self).held() && (result matches Err(
                    AuthError::InvalidCredential(text),
                ) && text@ == "signed identity context is not valid federation JSON: "@ + fault@),
                Some(Ok(context)) => {
                    let refused = accept_refusal(
                        old(self).configured(),
                        old(self).held().accepted(),
                        context@,
                        now,
                    );
                    match result {
                        Ok(_) => refused is None && final(self).held().accepted() == remembered(
                            old(self).held().accepted_ids(),
                            old(self).held().accepted(),
                            old(self).configured().replay_cache_capacity,
                            context@.assertion_id,
                            context@.expires_at,
                        ),
                        Err(error) => refused is Some && auth_says(error, refused->0)
                            && final(self).held().accepted() == old(self).held().accepted(),
                    }
                },
            },
    {
        match assertion {
            None => Ok(()),
            Some(Err(fault)) => {
                let mut text =
                    "signed identity context is not valid federation JSON: ".to_owned();
                text.append(fault.as_str());
                Err(AuthError::InvalidCredential(text))
            },
            Some(Ok(context)) => match self.directory.accept_signed_context(
                &self.config,
                &context,
                now,
            ) {
                Err(error) => Err(federation_to_auth_error(error)),
                Ok(_) => Ok(()),
            },
        }
    }
}

/// The right to write mappings is granted if and only if an issuer is configured,
/// and for that issuer and the configured audience alone.
pub proof fn granted_authorities(
    directory: &IdentityDirectory,
    config: &FederationConfig,
    result: Result<MappingAuthority, FederationError>,
)
    requires
        call_ensures(IdentityDirectory::mapping_authority, (directory, config), result),
    ensures
        result is Ok <==> config.required_enterprise_issuer is Some,
        result matches Ok(authority) ==> authority.issuer_text()
            == config.required_enterprise_issuer->0@ && authority.audience_text()
            == config.expected_audience@,
        result matches Err(error) ==> error is EnterpriseIssuerNotConfigured,
{
}

/// A mapping is recorded if and only if it is active, the authority is for its
/// issuer and audience, and what is recorded for its identifier is of no higher
/// generation, nor another handle of the same one.
pub proof fn recorded_mappings(
    directory: &mut IdentityDirectory,
    authority: &MappingAuthority,
    mapping: IdentityMapping,
    now: i64,
    result: Result<(), FederationError>,
)
    requires
        call_ensures(
            IdentityDirectory::put_mapping,
            (directory, authority, mapping, now),
            result,
        ),
    ensures
        result is Ok <==> {
            let key = mapping_key_text(mapping.external@);
            let existing = old(directory).mapped()[key];
            &&& mapping_refusal(mapping@, now) is None
            &&& mapping.external.issuer@ == authority.issuer_text()
            &&& mapping.external.audience@ == authority.audience_text()
            &&& old(directory).mapped().contains_key(key) ==> existing.generation
                < mapping.generation || (existing.generation == mapping.generation
                && existing.local_handle == mapping.local_handle@)
        },
        result is Err ==> final(directory).mapped() == old(directory).mapped(),
{
}

/// What was recorded resolves: a later lookup of its identifier gives the handle
/// that was recorded, for as long as the mapping has not expired.
pub proof fn recorded_handles_resolve(
    directory: &mut IdentityDirectory,
    authority: &MappingAuthority,
    mapping: IdentityMapping,
    now: i64,
    done: Result<(), FederationError>,
    external: &FederatedIdentifier,
    later: i64,
    found: Result<IdentityMapping, FederationError>,
)
    requires
        call_ensures(IdentityDirectory::put_mapping, (directory, authority, mapping, now), done),
        done is Ok,
        external@ == mapping.external@,
        call_ensures(IdentityDirectory::resolve, (final(directory), external, later), found),
    ensures
        found is Ok <==> (mapping.expires_at matches Some(end) ==> later < end),
        found matches Ok(resolved) ==> resolved.local_handle@ == mapping.local_handle@
            && resolved.generation == mapping.generation,
{
}

/// A revoked identifier does not resolve any more.
pub proof fn revoked_handles_do_not_resolve(
    directory: &mut IdentityDirectory,
    authority: &MappingAuthority,
    external: &FederatedIdentifier,
    now: i64,
    done: Result<(), FederationError>,
    later: i64,
    found: Result<IdentityMapping, FederationError>,
)
    requires
        call_ensures(IdentityDirectory::revoke, (directory, authority, external, now), done),
        done is Ok,
        call_ensures(IdentityDirectory::resolve, (final(directory), external, later), found),
    ensures
        found is Err,
{
}

/// A deleted identifier is not found any more.
pub proof fn deleted_handles_are_not_found(
    directory: &mut IdentityDirectory,
    authority: &MappingAuthority,
    external: &FederatedIdentifier,
    done: Result<(), FederationError>,
    later: i64,
    found: Result<IdentityMapping, FederationError>,
)
    requires
        call_ensures(IdentityDirectory::delete, (directory, authority, external), done),
        done is Ok,
        call_ensures(IdentityDirectory::resolve, (final(directory), external, later), found),
    ensures
        found matches Err(error) && error is NotFound,
{
}

/// A mapping is revoked or deleted if and only if its identifier is valid and
/// recorded and the authority is for its issuer and audience.
pub proof fn changeable_mappings(
    directory: &mut IdentityDirectory,
    other: &mut IdentityDirectory,
    authority: &MappingAuthority,
    external: &FederatedIdentifier,
    now: i64,
    revoked: Result<(), FederationError>,
    deleted: Result<(), FederationError>,
)
    requires
        old(directory).mapped() == old(other).mapped(),
        call_ensures(IdentityDirectory::revoke, (directory, authority, external, now), revoked),
        call_ensures(IdentityDirectory::delete, (other, authority, external), deleted),
    ensures
        revoked is Ok <==> deleted is Ok,
        revoked is Ok <==> identifier_refusal(external@) is None && external.issuer@
            == authority.issuer_text() && external.audience@ == authority.audience_text()
            && old(directory).mapped().contains_key(mapping_key_text(external@)),
{
}

/// A signed context is accepted if and only if an issuer is configured, the
/// context holds for it, and its assertion is not remembered. It is remembered
/// from then on, so that it is not accepted again.
pub proof fn assertions_are_accepted_once(
    directory: &mut IdentityDirectory,
    config: &FederationConfig,
    context: &SignedIdentityContext,
    now: i64,
    result: Result<(), FederationError>,
    replayed: &mut IdentityDirectory,
    later: i64,
    again: Result<(), FederationError>,
)
    requires
        call_ensures(
            IdentityDirectory::accept_signed_context,
            (directory, config, context, now),
            result,
        ),
        *old(replayed) == *final(directory),
        call_ensures(
            IdentityDirectory::accept_signed_context,
            (replayed, config, context, later),
            again,
        ),
    ensures
        result is Ok <==> config.required_enterprise_issuer is Some && context_refusal(
            context@,
            config.required_enterprise_issuer->0@,
            config.expected_audience@,
            now,
            config.max_clock_skew_ms,
        ) is None && !old(directory).accepted().contains_key(context.assertion_id@),
        result is Ok ==> final(directory).accepted().contains_key(context.assertion_id@),
        result is Ok ==> again is Err,
        result is Err ==> final(directory).accepted() == old(directory).accepted(),
{
}

proof fn lemma_first_to_expire(keys: Seq<Seq<char>>, expiries: Map<Seq<char>, i64>, count: nat)
    requires
        0 < count <= keys.len(),
    ensures
        first_to_expire(keys, expiries, count) matches Some(at) && 0 <= at < count && forall|i: int|
            0 <= i < count ==> expiries[keys[at]] <= expiries[#[trigger] keys[i]],
    decreases count,
{
    if count > 1 {
        lemma_first_to_expire(keys, expiries, (count - 1) as nat);
    } else {
        assert(first_to_expire(keys, expiries, 0) is None);
    }
}

/// Below the capacity nothing is forgotten. At the capacity only an assertion is
/// forgotten that expires no later than any other that was remembered.
pub proof fn only_the_first_to_expire_is_forgotten(
    directory: &mut IdentityDirectory,
    config: &FederationConfig,
    context: &SignedIdentityContext,
    now: i64,
    result: Result<(), FederationError>,
    id: Seq<char>,
)
    requires
        call_ensures(
            IdentityDirectory::accept_signed_context,
            (directory, config, context, now),
            result,
        ),
        result is Ok,
        old(directory).accepted().contains_key(id),
    ensures
        old(directory).accepted_ids().len() < config.replay_cache_capacity
            ==> final(directory).accepted().contains_key(id),
        !final(directory).accepted().contains_key(id) ==> forall|other: Seq<char>| #[trigger]
            old(directory).accepted().contains_key(other) ==> old(directory).accepted()[id]
                <= old(directory).accepted()[other] && (other != id
                ==> final(directory).accepted().contains_key(other)),
{
    let keys = old(directory).accepted_ids();
    let expiries = old(directory).accepted();
    let after = final(directory).accepted();
    if keys.len() >= config.replay_cache_capacity && keys.len() > 0 {
        lemma_first_to_expire(keys, expiries, keys.len());
        let at = first_to_expire(keys, expiries, keys.len())->0;
        if !after.contains_key(id) {
            assert(id == keys[at]);
            assert forall|other: Seq<char>| #[trigger] expiries.contains_key(other) implies expiries[id]
                <= expiries[other] && (other != id ==> after.contains_key(other)) by {
                assert(keys.contains(other));
                let i = choose|i: int| 0 <= i < keys.len() && keys[i] == other;
                assert(expiries[keys[at]] <= expiries[keys[i]]);
            }
        }
    }
}

/// What is asserted in time and for the right parties decides on the credential;
/// replays, wrong times, issuers and audiences are refused as unauthorized.
pub proof fn refusals_as_authentication_errors(error: FederationError, result: AuthError)
    requires
        call_ensures(federation_to_auth_error, (error,), result),
    ensures
        result is Unauthorized <==> error is Replay || error is Expired || error is NotYetValid
            || error is IssuerMismatch || error is AudienceMismatch
            || error is EnterpriseIssuerNotConfigured,
        result is InvalidCredential <==> !(result is Unauthorized),
{
}

/// A request without an assertion passes; one with an assertion that cannot be
/// read does not; one with a context passes if and only if the context is
/// accepted, and then only once.
pub proof fn asserted_requests(
    extension: &mut FederatingAuthExtension,
    assertion: Option<Result<SignedIdentityContext, String>>,
    now: i64,
    result: Result<(), AuthError>,
)
    requires
        call_ensures(FederatingAuthExtension::check_assertion, (extension, assertion, now), result),
    ensures
        assertion is None ==> result is Ok,
        (assertion is Some && assertion->0 is Err) ==> result is Err
            && result->Err_0 is InvalidCredential,
        assertion matches Some(Ok(context)) ==> (result is Ok <==> accept_refusal(
            old(extension).configured(),
            old(extension).held().accepted(),
            context@,
            now,
        ) is None) && (result is Ok ==> final(extension).held().accepted().contains_key(
            context.assertion_id@,
        )),
{
}

/// Of identifiers that expire together the first in the order of their keys is
/// forgotten first.
pub proof fn first_of_equals_is_forgotten(
    keys: Seq<Seq<char>>,
    expiries: Map<Seq<char>, i64>,
    count: nat,
)
    requires
        count <= keys.len(),
    ensures
        count > 0 ==> first_to_expire(keys, expiries, count) is Some,
        first_to_expire(keys, expiries, count) matches Some(at) ==> {
            &&& 0 <= at < count
            &&& forall|i: int|
                0 <= i < count ==> expiries[keys[at]] <= expiries[#[trigger] keys[i]]
            &&& forall|i: int|
                0 <= i < at ==> expiries[keys[at]] < expiries[#[trigger] keys[i]]
        },
    decreases count,
{
    if count > 0 {
        first_of_equals_is_forgotten(keys, expiries, (count - 1) as nat);
    }
}

} // verus!
