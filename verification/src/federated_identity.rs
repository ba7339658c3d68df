//! Federated identity mapping across the delivery control plane, the
//! enterprise identity plane, and optional governance providers.
//!
//! Identities are stable opaque subjects bound to an issuer and an audience.
//! Tenant mappings are derived only by trusted authentication code, never from
//! ordinary caller metadata.
pub mod directory;

pub use directory::{
    FederatingAuthExtension, FederationConfig, IdentityDirectory, MappingAuthority,
};

use crate::crypto::{digest_hex, sha256_hex};
use crate::framing::utf8;
use crate::text::{blank, decimal, decimal_text, same};
use vstd::prelude::*;

verus! {

/// Version of the federated-identity contract.
pub const FEDERATED_IDENTITY_CONTRACT_VERSION: u32 = 1;

/// Which system is authoritative for a class of identity.
#[derive(Debug, Clone, Copy, PartialEq, Eq, PartialOrd, Ord, Hash, Structural)]
pub enum IdentityAuthority {
    /// The enterprise identity plane: tenants, principals, sessions.
    EnterpriseIdentityPlane,
    /// The delivery domain: environments, agents, products, plans, history.
    Tenkai,
    /// Governance providers: policy, evaluation and evidence records.
    GovernanceProvider,
}

/// What an identity names.
#[derive(Debug, Clone, Copy, PartialEq, Eq, PartialOrd, Ord, Hash, Structural)]
pub enum IdentityKind {
    Tenant,
    Principal,
    Service,
    Environment,
    Agent,
    Product,
    Plan,
    Evidence,
}

impl IdentityKind {
    /// The system that owns a kind of identity.
    pub open spec fn owner(self) -> IdentityAuthority {
        match self {
            IdentityKind::Tenant | IdentityKind::Principal | IdentityKind::Service => {
                IdentityAuthority::EnterpriseIdentityPlane
            },
            IdentityKind::Environment | IdentityKind::Agent | IdentityKind::Product
            | IdentityKind::Plan => IdentityAuthority::Tenkai,
            IdentityKind::Evidence => IdentityAuthority::GovernanceProvider,
        }
    }

    /// The word for a kind of identity.
    pub open spec fn word(self) -> Seq<char> {
        match self {
            IdentityKind::Tenant => "tenant"@,
            IdentityKind::Principal => "principal"@,
            IdentityKind::Service => "service"@,
            IdentityKind::Environment => "environment"@,
            IdentityKind::Agent => "agent"@,
            IdentityKind::Product => "product"@,
            IdentityKind::Plan => "plan"@,
            IdentityKind::Evidence => "evidence"@,
        }
    }

    /// The system that owns a kind of identity.
    pub fn default_authority(self) -> (authority: IdentityAuthority)
        ensures
            authority == self.owner(),
    {
        match self {
            IdentityKind::Tenant | IdentityKind::Principal | IdentityKind::Service => {
                IdentityAuthority::EnterpriseIdentityPlane
            },
            IdentityKind::Environment | IdentityKind::Agent | IdentityKind::Product
            | IdentityKind::Plan => IdentityAuthority::Tenkai,
            IdentityKind::Evidence => IdentityAuthority::GovernanceProvider,
        }
    }

    /// The word for a kind of identity.
    pub fn as_str(self) -> (word: &'static str)
        ensures
            word@ == self.word(),
    {
        match self {
            IdentityKind::Tenant => "tenant",
            IdentityKind::Principal => "principal",
            IdentityKind::Service => "service",
            IdentityKind::Environment => "environment",
            IdentityKind::Agent => "agent",
            IdentityKind::Product => "product",
            IdentityKind::Plan => "plan",
            IdentityKind::Evidence => "evidence",
        }
    }
}

/// Why an identity or a mapping is refused.
#[derive(Debug, PartialEq, Eq)]
pub enum FederationError {
    InvalidIdentifier(String),
    IncompatibleContract { found: u32, expected: u32 },
    IssuerMismatch { found: String, expected: String },
    AudienceMismatch { found: String, expected: String },
    NotYetValid,
    Expired,
    Revoked,
    NotFound,
    Replay,
    UnauthorizedMapping,
    StaleGeneration { found: u64, current: u64 },
    MappingConflict,
    EnterpriseIssuerNotConfigured,
    CallerMetadataForbidden,
}

/// Why an identity or a mapping is refused.
pub enum FederationRefusal {
    InvalidIdentifier(Seq<char>),
    IncompatibleContract { found: u32, expected: u32 },
    IssuerMismatch { found: Seq<char>, expected: Seq<char> },
    AudienceMismatch { found: Seq<char>, expected: Seq<char> },
    NotYetValid,
    Expired,
    Revoked,
    NotFound,
    Replay,
    UnauthorizedMapping,
    StaleGeneration { found: u64, current: u64 },
    MappingConflict,
    EnterpriseIssuerNotConfigured,
    CallerMetadataForbidden,
}

impl View for FederationError {
    type V = FederationRefusal;

    open spec fn view(&self) -> FederationRefusal {
        match *self {
            FederationError::InvalidIdentifier(detail) => FederationRefusal::InvalidIdentifier(
                detail@,
            ),
            FederationError::IncompatibleContract { found, expected } => {
                FederationRefusal::IncompatibleContract { found, expected }
            },
            FederationError::IssuerMismatch { found, expected } => {
                FederationRefusal::IssuerMismatch { found: found@, expected: expected@ }
            },
            FederationError::AudienceMismatch { found, expected } => {
                FederationRefusal::AudienceMismatch { found: found@, expected: expected@ }
            },
            FederationError::NotYetValid => FederationRefusal::NotYetValid,
            FederationError::Expired => FederationRefusal::Expired,
            FederationError::Revoked => FederationRefusal::Revoked,
            FederationError::NotFound => FederationRefusal::NotFound,
            FederationError::Replay => FederationRefusal::Replay,
            FederationError::UnauthorizedMapping => FederationRefusal::UnauthorizedMapping,
            FederationError::StaleGeneration { found, current } => {
                FederationRefusal::StaleGeneration { found, current }
            },
            FederationError::MappingConflict => FederationRefusal::MappingConflict,
            FederationError::EnterpriseIssuerNotConfigured => {
                FederationRefusal::EnterpriseIssuerNotConfigured
            },
            FederationError::CallerMetadataForbidden => FederationRefusal::CallerMetadataForbidden,
        }
    }
}

/// What a refusal says.
pub open spec fn refusal_text(refusal: FederationRefusal) -> Seq<char> {
    match refusal {
        FederationRefusal::InvalidIdentifier(detail) => "invalid federated identifier: "@ + detail,
        FederationRefusal::IncompatibleContract { found, expected } => {
            "incompatible federated identity contract version "@ + decimal(found as nat)
                + ", expected "@ + decimal(expected as nat)
        },
        FederationRefusal::IssuerMismatch { found, expected } => {
            "issuer mismatch: found `"@ + found + "`, expected `"@ + expected + "`"@
        },
        FederationRefusal::AudienceMismatch { found, expected } => {
            "audience mismatch: found `"@ + found + "`, expected `"@ + expected + "`"@
        },
        FederationRefusal::NotYetValid => "signed identity context is not yet valid"@,
        FederationRefusal::Expired => "signed identity context or mapping is expired"@,
        FederationRefusal::Revoked => "identity mapping is revoked"@,
        FederationRefusal::NotFound => "identity mapping not found"@,
        FederationRefusal::Replay => "replayed assertion id"@,
        FederationRefusal::UnauthorizedMapping => "mapping authority rejected the write"@,
        FederationRefusal::StaleGeneration { found, current } => {
            "mapping generation "@ + decimal(found as nat) + " is stale; current is "@
                + decimal(current as nat)
        },
        FederationRefusal::MappingConflict => "mapping conflict for the same generation"@,
        FederationRefusal::EnterpriseIssuerNotConfigured => {
            "enterprise issuer is not configured"@
        },
        FederationRefusal::CallerMetadataForbidden => {
            "caller metadata cannot select or overwrite tenant mappings"@
        },
    }
}

fn mismatch(what: &str, found: &str, expected: &str) -> (text: String)
    ensures
        text@ == what@ + found@ + "`, expected `"@ + expected@ + "`"@,
{
    let mut text = what.to_owned();
    text.append(found);
    text.append("`, expected `");
    text.append(expected);
    text.append("`");
    text
}

impl FederationError {
    /// What the error says.
    pub fn to_string(&self) -> (text: String)
        ensures
            text@ == refusal_text(self@),
    {
        match self {
            FederationError::InvalidIdentifier(detail) => {
                let mut text = "invalid federated identifier: ".to_owned();
                text.append(detail.as_str());
                text
            },
            FederationError::IncompatibleContract { found, expected } => {
                let mut text = "incompatible federated identity contract version ".to_owned();
                text.append(decimal_text(*found as u64).as_str());
                text.append(", expected ");
                text.append(decimal_text(*expected as u64).as_str());
                text
            },
            FederationError::IssuerMismatch { found, expected } => mismatch(
                "issuer mismatch: found `",
                found.as_str(),
                expected.as_str(),
            ),
            FederationError::AudienceMismatch { found, expected } => mismatch(
                "audience mismatch: found `",
                found.as_str(),
                expected.as_str(),
            ),
            FederationError::NotYetValid => "signed identity context is not yet valid".to_owned(),
            FederationError::Expired => "signed identity context or mapping is expired".to_owned(),
            FederationError::Revoked => "identity mapping is revoked".to_owned(),
            FederationError::NotFound => "identity mapping not found".to_owned(),
            FederationError::Replay => "replayed assertion id".to_owned(),
            FederationError::UnauthorizedMapping => {
                "mapping authority rejected the write".to_owned()
            },
            FederationError::StaleGeneration { found, current } => {
                let mut text = "mapping generation ".to_owned();
                text.append(decimal_text(*found).as_str());
                text.append(" is stale; current is ");
                text.append(decimal_text(*current).as_str());
                text
            },
            FederationError::MappingConflict => {
                "mapping conflict for the same generation".to_owned()
            },
            FederationError::EnterpriseIssuerNotConfigured => {
                "enterprise issuer is not configured".to_owned()
            },
            FederationError::CallerMetadataForbidden => {
                "caller metadata cannot select or overwrite tenant mappings".to_owned()
            },
        }
    }
}

/// Why a result is a refusal.
pub open spec fn federation_refusal<T>(result: Result<T, FederationError>) -> Option<
    FederationRefusal,
> {
    match result {
        Ok(_) => None,
        Err(error) => Some(error@),
    }
}

fn invalid(detail: &str) -> (error: FederationError)
    ensures
        error@ == FederationRefusal::InvalidIdentifier(detail@),
{
    FederationError::InvalidIdentifier(detail.to_owned())
}

/// A stable opaque identifier bound to an issuer and an audience.
#[derive(Debug, PartialEq, Eq)]
pub struct FederatedIdentifier {
    pub contract_version: u32,
    pub kind: IdentityKind,
    /// The issuer that owns the subject.
    pub issuer: String,
    /// The audience that may consume the identifier.
    pub audience: String,
    /// The opaque subject, stable at the issuer.
    pub subject: String,
}

/// What an identifier says.
pub struct IdentifierModel {
    pub contract_version: u32,
    pub kind: IdentityKind,
    pub issuer: Seq<char>,
    pub audience: Seq<char>,
    pub subject: Seq<char>,
}

impl View for FederatedIdentifier {
    type V = IdentifierModel;

    open spec fn view(&self) -> IdentifierModel {
        IdentifierModel {
            contract_version: self.contract_version,
            kind: self.kind,
            issuer: self.issuer@,
            audience: self.audience@,
            subject: self.subject@,
        }
    }
}

/// Why an identifier is refused.
pub open spec fn identifier_refusal(id: IdentifierModel) -> Option<FederationRefusal> {
    if id.contract_version != FEDERATED_IDENTITY_CONTRACT_VERSION {
        Some(
            FederationRefusal::IncompatibleContract {
                found: id.contract_version,
                expected: FEDERATED_IDENTITY_CONTRACT_VERSION,
            },
        )
    } else if blank(id.issuer) {
        Some(FederationRefusal::InvalidIdentifier("issuer must not be empty"@))
    } else if blank(id.audience) {
        Some(FederationRefusal::InvalidIdentifier("audience must not be empty"@))
    } else if blank(id.subject) {
        Some(FederationRefusal::InvalidIdentifier("subject must not be empty"@))
    } else {
        None
    }
}

impl FederatedIdentifier {
    /// A valid identifier of this contract version.
    pub fn new(kind: IdentityKind, issuer: &str, audience: &str, subject: &str) -> (result: Result<
        FederatedIdentifier,
        FederationError,
    >)
        ensures
            ({
                let model = IdentifierModel {
                    contract_version: FEDERATED_IDENTITY_CONTRACT_VERSION,
                    kind,
                    issuer: issuer@,
                    audience: audience@,
                    subject: subject@,
                };
                &&& federation_refusal(result) == identifier_refusal(model)
                &&& result matches Ok(identity) ==> identity@ == model
            }),
    {
        let identity = FederatedIdentifier {
            contract_version: FEDERATED_IDENTITY_CONTRACT_VERSION,
            kind,
            issuer: issuer.to_owned(),
            audience: audience.to_owned(),
            subject: subject.to_owned(),
        };
        match identity.validate() {
            Err(error) => Err(error),
            Ok(_) => Ok(identity),
        }
    }

    /// Check an identifier.
    pub fn validate(&self) -> (result: Result<(), FederationError>)
        ensures
            federation_refusal(result) == identifier_refusal(self@),
    {
        if self.contract_version != FEDERATED_IDENTITY_CONTRACT_VERSION {
            return Err(
                FederationError::IncompatibleContract {
                    found: self.contract_version,
                    expected: FEDERATED_IDENTITY_CONTRACT_VERSION,
                },
            );
        }
        if self.issuer.as_str().trim().unicode_len() == 0 {
            return Err(invalid("issuer must not be empty"));
        }
        if self.audience.as_str().trim().unicode_len() == 0 {
            return Err(invalid("audience must not be empty"));
        }
        if self.subject.as_str().trim().unicode_len() == 0 {
            return Err(invalid("subject must not be empty"));
        }
        Ok(())
    }

    /// The token by which audit logs name the identity. It holds no secrets.
    pub fn audit_correlation_id(&self) -> (token: String)
        ensures
            token@ == self@.issuer + ":"@ + self@.kind.word() + ":"@ + self@.subject,
    {
        let mut token = self.issuer.clone();
        token.append(":");
        token.append(self.kind.as_str());
        token.append(":");
        token.append(self.subject.as_str());
        token
    }

    /// A copy of the identifier.
    pub fn copy(&self) -> (copy: FederatedIdentifier)
        ensures
            copy@ == self@,
    {
        FederatedIdentifier {
            contract_version: self.contract_version,
            kind: self.kind,
            issuer: self.issuer.clone(),
            audience: self.audience.clone(),
            subject: self.subject.clone(),
        }
    }
}

/// A mapping from an external identifier to a local handle.
#[derive(Debug, PartialEq, Eq)]
pub struct IdentityMapping {
    pub external: FederatedIdentifier,
    pub local_handle: String,
    pub created_at: i64,
    pub expires_at: Option<i64>,
    pub revoked_at: Option<i64>,
    /// A higher generation supersedes a lower one.
    pub generation: u64,
}

/// What a mapping says.
pub struct MappingModel {
    pub external: IdentifierModel,
    pub local_handle: Seq<char>,
    pub created_at: i64,
    pub expires_at: Option<i64>,
    pub revoked_at: Option<i64>,
    pub generation: u64,
}

impl View for IdentityMapping {
    type V = MappingModel;

    open spec fn view(&self) -> MappingModel {
        MappingModel {
            external: self.external@,
            local_handle: self.local_handle@,
            created_at: self.created_at,
            expires_at: self.expires_at,
            revoked_at: self.revoked_at,
            generation: self.generation,
        }
    }
}

/// Why a mapping is refused at an instant.
pub open spec fn mapping_refusal(mapping: MappingModel, now: i64) -> Option<FederationRefusal> {
    let external = identifier_refusal(mapping.external);
    if external is Some {
        external
    } else if blank(mapping.local_handle) {
        Some(FederationRefusal::InvalidIdentifier("local handle must not be empty"@))
    } else if mapping.generation == 0 {
        Some(FederationRefusal::InvalidIdentifier("mapping generation must be >= 1"@))
    } else if mapping.expires_at is Some && mapping.expires_at->0 <= now {
        Some(FederationRefusal::Expired)
    } else if mapping.revoked_at is Some {
        Some(FederationRefusal::Revoked)
    } else {
        None
    }
}

impl IdentityMapping {
    /// Check a mapping at an instant.
    pub fn validate(&self, now: i64) -> (result: Result<(), FederationError>)
        ensures
            federation_refusal(result) == mapping_refusal(self@, now),
    {
        match self.external.validate() {
            Err(error) => return Err(error),
            Ok(_) => {},
        }
        if self.local_handle.as_str().trim().unicode_len() == 0 {
            return Err(invalid("local handle must not be empty"));
        }
        if self.generation == 0 {
            return Err(invalid("mapping generation must be >= 1"));
        }
        if let Some(expires_at) = self.expires_at {
            if expires_at <= now {
                return Err(FederationError::Expired);
            }
        }
        if self.revoked_at.is_some() {
            return Err(FederationError::Revoked);
        }
        Ok(())
    }

    /// The mapping is valid at an instant.
    pub fn is_active(&self, now: i64) -> (answer: bool)
        ensures
            answer == (mapping_refusal(self@, now) is None),
    {
        self.validate(now).is_ok()
    }

    /// A copy of the mapping.
    pub fn copy(&self) -> (copy: IdentityMapping)
        ensures
            copy@ == self@,
    {
        IdentityMapping {
            external: self.external.copy(),
            local_handle: self.local_handle.clone(),
            created_at: self.created_at,
            expires_at: self.expires_at,
            revoked_at: self.revoked_at,
            generation: self.generation,
        }
    }
}

/// The claims of a signed context, bound to an issuer and an audience.
#[derive(Debug, PartialEq, Eq)]
pub struct SignedIdentityContext {
    pub issuer: String,
    pub audience: String,
    pub issued_at: i64,
    pub not_before: i64,
    pub expires_at: i64,
    /// Unique, so that a replay is recognized.
    pub assertion_id: String,
    pub principal: FederatedIdentifier,
    pub tenant: Option<FederatedIdentifier>,
    pub service: Option<FederatedIdentifier>,
}

/// What a signed context says.
pub struct ContextModel {
    pub issuer: Seq<char>,
    pub audience: Seq<char>,
    pub issued_at: i64,
    pub not_before: i64,
    pub expires_at: i64,
    pub assertion_id: Seq<char>,
    pub principal: IdentifierModel,
    pub tenant: Option<IdentifierModel>,
    pub service: Option<IdentifierModel>,
}

/// What an optional identifier says.
pub open spec fn opt_identifier(id: Option<FederatedIdentifier>) -> Option<IdentifierModel> {
    match id {
        Some(identifier) => Some(identifier@),
        None => None,
    }
}

impl View for SignedIdentityContext {
    type V = ContextModel;

    open spec fn view(&self) -> ContextModel {
        ContextModel {
            issuer: self.issuer@,
            audience: self.audience@,
            issued_at: self.issued_at,
            not_before: self.not_before,
            expires_at: self.expires_at,
            assertion_id: self.assertion_id@,
            principal: self.principal@,
            tenant: opt_identifier(self.tenant),
            service: opt_identifier(self.service),
        }
    }
}

/// Why the principal of a signed context is refused.
pub open spec fn principal_refusal(c: ContextModel) -> Option<FederationRefusal> {
    let id = c.principal;
    if identifier_refusal(id) is Some {
        identifier_refusal(id)
    } else if id.kind != IdentityKind::Principal {
        Some(
            FederationRefusal::InvalidIdentifier("principal claim must have kind principal"@),
        )
    } else if id.issuer != c.issuer || id.audience != c.audience {
        Some(
            FederationRefusal::InvalidIdentifier(
                "principal issuer/audience must match signed context"@,
            ),
        )
    } else {
        None
    }
}

/// Why the tenant of a signed context is refused.
pub open spec fn tenant_refusal(c: ContextModel) -> Option<FederationRefusal> {
    match c.tenant {
        None => None,
        Some(id) => if identifier_refusal(id) is Some {
            identifier_refusal(id)
        } else if id.kind != IdentityKind::Tenant {
            Some(FederationRefusal::InvalidIdentifier("tenant claim must have kind tenant"@))
        } else if id.issuer != c.issuer || id.audience != c.audience {
            Some(
                FederationRefusal::InvalidIdentifier(
                    "tenant issuer/audience must match signed context"@,
                ),
            )
        } else {
            None
        },
    }
}

/// Why the service of a signed context is refused.
pub open spec fn service_refusal(c: ContextModel) -> Option<FederationRefusal> {
    match c.service {
        None => None,
        Some(id) => if identifier_refusal(id) is Some {
            identifier_refusal(id)
        } else if id.kind != IdentityKind::Service {
            Some(FederationRefusal::InvalidIdentifier("service claim must have kind service"@))
        } else {
            None
        },
    }
}

/// Why a signed context is refused at an instant.
pub open spec fn context_refusal(
    c: ContextModel,
    issuer: Seq<char>,
    audience: Seq<char>,
    now: i64,
    skew: i64,
) -> Option<FederationRefusal> {
    if c.issuer != issuer {
        Some(FederationRefusal::IssuerMismatch { found: c.issuer, expected: issuer })
    } else if c.audience != audience {
        Some(FederationRefusal::AudienceMismatch { found: c.audience, expected: audience })
    } else if blank(c.assertion_id) {
        Some(FederationRefusal::InvalidIdentifier("assertion id must not be empty"@))
    } else if now + skew < c.not_before {
        Some(FederationRefusal::NotYetValid)
    } else if now - skew >= c.expires_at {
        Some(FederationRefusal::Expired)
    } else if principal_refusal(c) is Some {
        principal_refusal(c)
    } else if tenant_refusal(c) is Some {
        tenant_refusal(c)
    } else {
        service_refusal(c)
    }
}

impl SignedIdentityContext {
    fn check_claims(&self) -> (result: Result<(), FederationError>)
        ensures
            federation_refusal(result) == (if principal_refusal(self@) is Some {
                principal_refusal(self@)
            } else if tenant_refusal(self@) is Some {
                tenant_refusal(self@)
            } else {
                service_refusal(self@)
            }),
    {
        match self.principal.validate() {
            Err(error) => return Err(error),
            Ok(_) => {},
        }
        if self.principal.kind != IdentityKind::Principal {
            return Err(invalid("principal claim must have kind principal"));
        }
        if !same(&self.principal.issuer, &self.issuer) || !same(
            &self.principal.audience,
            &self.audience,
        ) {
            return Err(invalid("principal issuer/audience must match signed context"));
        }
        if let Some(tenant) = &self.tenant {
            match tenant.validate() {
                Err(error) => return Err(error),
                Ok(_) => {},
            }
            if tenant.kind != IdentityKind::Tenant {
                return Err(invalid("tenant claim must have kind tenant"));
            }
            if !same(&tenant.issuer, &self.issuer) || !same(&tenant.audience, &self.audience) {
                return Err(invalid("tenant issuer/audience must match signed context"));
            }
        }
        if let Some(service) = &self.service {
            match service.validate() {
                Err(error) => return Err(error),
                Ok(_) => {},
            }
            if service.kind != IdentityKind::Service {
                return Err(invalid("service claim must have kind service"));
            }
        }
        Ok(())
    }

    /// Check a signed context at an instant, with some tolerance for clocks.
    pub fn validate(
        &self,
        expected_issuer: &str,
        expected_audience: &str,
        now: i64,
        max_clock_skew_ms: i64,
    ) -> (result: Result<(), FederationError>)
        ensures
            federation_refusal(result) == context_refusal(
                self@,
                expected_issuer@,
                expected_audience@,
                now,
                max_clock_skew_ms,
            ),
    {
        if !same(&self.issuer, expected_issuer) {
            return Err(
                FederationError::IssuerMismatch {
                    found: self.issuer.clone(),
                    expected: expected_issuer.to_owned(),
                },
            );
        }
        if !same(&self.audience, expected_audience) {
            return Err(
                FederationError::AudienceMismatch {
                    found: self.audience.clone(),
                    expected: expected_audience.to_owned(),
                },
            );
        }
        if self.assertion_id.as_str().trim().unicode_len() == 0 {
            return Err(invalid("assertion id must not be empty"));
        }
        let late: i128 = now as i128 + max_clock_skew_ms as i128;
        let early: i128 = now as i128 - max_clock_skew_ms as i128;
        if late < self.not_before as i128 {
            return Err(FederationError::NotYetValid);
        }
        if early >= self.expires_at as i128 {
            return Err(FederationError::Expired);
        }
        self.check_claims()
    }
}

/// Whether a decision needs a governance provider.
#[derive(Debug, Clone, Copy, PartialEq, Eq, Structural)]
pub enum ProviderDecisionClass {
    /// Evidence of the provider is required.
    Required,
    /// The provider only adds to the decision.
    Optional,
}

/// What happens while a governance provider is unavailable.
#[derive(Debug, PartialEq, Eq)]
pub enum ProviderAvailabilityOutcome {
    Proceed,
    FailClosed { reason: String },
    Degrade { reason: String },
}

/// What happens while a governance provider is unavailable: a required one
/// fails the decision, an optional one does not.
pub fn provider_unavailability_outcome(class: ProviderDecisionClass, provider_id: &str) -> (outcome:
    ProviderAvailabilityOutcome)
    ensures
        match class {
            ProviderDecisionClass::Required => outcome matches
                ProviderAvailabilityOutcome::FailClosed { reason } && reason@
                == "required governance provider `"@ + provider_id@
                + "` is unavailable; decision fails closed"@,
            ProviderDecisionClass::Optional => outcome matches
                ProviderAvailabilityOutcome::Degrade { reason } && reason@
                == "optional governance provider `"@ + provider_id@
                + "` is unavailable; operational recovery continues"@,
        },
{
    match class {
        ProviderDecisionClass::Required => {
            let mut reason = "required governance provider `".to_owned();
            reason.append(provider_id);
            reason.append("` is unavailable; decision fails closed");
            ProviderAvailabilityOutcome::FailClosed { reason }
        },
        ProviderDecisionClass::Optional => {
            let mut reason = "optional governance provider `".to_owned();
            reason.append(provider_id);
            reason.append("` is unavailable; operational recovery continues");
            ProviderAvailabilityOutcome::Degrade { reason }
        },
    }
}

/// Standalone enterprise hosts authenticate and recover without a governance
/// provider.
pub fn standalone_enterprise_requires_governance_provider() -> (answer: bool)
    ensures
        !answer,
{
    false
}

/// Reject a tenant that ordinary caller metadata selects.
pub fn reject_caller_selected_tenant(caller_tenant_header: Option<&str>) -> (result: Result<
    (),
    FederationError,
>)
    ensures
        federation_refusal(result) == (if caller_tenant_header is Some {
            Some(FederationRefusal::CallerMetadataForbidden)
        } else {
            None
        }),
{
    if caller_tenant_header.is_some() {
        return Err(FederationError::CallerMetadataForbidden);
    }
    Ok(())
}

/// The token by which audit logs name an accepted assertion: derived from its
/// identity alone, which it does not show.
pub fn audit_correlation_token(assertion_id: &str) -> (token: String)
    ensures
        token@ == "fed:"@ + sha256_hex(utf8(assertion_id@)),
{
    let mut token = "fed:".to_owned();
    token.append(digest_hex(assertion_id.as_bytes()).as_str());
    token
}

/// Each kind of identity has one owner: the identity plane owns those of tenants,
/// principals and services, governance providers own evidence, and the delivery
/// domain owns the rest.
pub proof fn owners_of_identities(kind: IdentityKind, authority: IdentityAuthority)
    requires
        call_ensures(IdentityKind::default_authority, (kind,), authority),
    ensures
        authority == IdentityAuthority::EnterpriseIdentityPlane <==> kind == IdentityKind::Tenant
            || kind == IdentityKind::Principal || kind == IdentityKind::Service,
        authority == IdentityAuthority::GovernanceProvider <==> kind == IdentityKind::Evidence,
        authority == IdentityAuthority::Tenkai <==> kind == IdentityKind::Environment || kind
            == IdentityKind::Agent || kind == IdentityKind::Product || kind == IdentityKind::Plan,
{
}

/// An identifier is valid if and only if it is of the first contract version and
/// names an issuer, an audience and a subject.
pub proof fn valid_identifiers(id: &FederatedIdentifier, result: Result<(), FederationError>)
    requires
        call_ensures(FederatedIdentifier::validate, (id,), result),
    ensures
        result is Ok <==> id.contract_version == 1 && !blank(id.issuer@) && !blank(id.audience@)
            && !blank(id.subject@),
        id.contract_version != 1 ==> result is Err && result->Err_0 is IncompatibleContract,
{
}

/// An identifier is made as it was asked for.
pub proof fn made_identifiers(
    kind: IdentityKind,
    issuer: &str,
    audience: &str,
    subject: &str,
    result: Result<FederatedIdentifier, FederationError>,
)
    requires
        call_ensures(FederatedIdentifier::new, (kind, issuer, audience, subject), result),
    ensures
        result is Ok <==> !blank(issuer@) && !blank(audience@) && !blank(subject@),
        result matches Ok(id) ==> id.contract_version == 1 && id.kind == kind && id.issuer@
            == issuer@ && id.audience@ == audience@ && id.subject@ == subject@,
{
}

/// A mapping is active at an instant if and only if its identifier is valid, it
/// names a handle and a generation, it has not expired by then, and it was never
/// revoked.
pub proof fn active_mappings(
    mapping: &IdentityMapping,
    now: i64,
    result: Result<(), FederationError>,
    active: bool,
)
    requires
        call_ensures(IdentityMapping::validate, (mapping, now), result),
        call_ensures(IdentityMapping::is_active, (mapping, now), active),
    ensures
        active <==> result is Ok,
        active <==> {
            &&& mapping.external.contract_version == 1
            &&& !blank(mapping.external.issuer@)
            &&& !blank(mapping.external.audience@)
            &&& !blank(mapping.external.subject@)
            &&& !blank(mapping.local_handle@)
            &&& mapping.generation >= 1
            &&& mapping.expires_at matches Some(end) ==> now < end
            &&& mapping.revoked_at is None
        },
{
}

/// A signed context holds at an instant if and only if it is of the expected
/// issuer and audience, has an assertion id, the instant lies in its interval
/// within the tolerance, and its claims are valid identifiers of their kinds, the
/// principal and the tenant of the same issuer and audience.
pub proof fn contexts_that_hold(
    context: &SignedIdentityContext,
    issuer: &str,
    audience: &str,
    now: i64,
    skew: i64,
    result: Result<(), FederationError>,
)
    requires
        call_ensures(SignedIdentityContext::validate, (context, issuer, audience, now, skew), result),
    ensures
        result is Ok <==> {
            let principal = context.principal;
            &&& context.issuer@ == issuer@
            &&& context.audience@ == audience@
            &&& !blank(context.assertion_id@)
            &&& context.not_before <= now + skew
            &&& now - skew < context.expires_at
            &&& identifier_refusal(principal@) is None
            &&& principal.kind == IdentityKind::Principal
            &&& principal.issuer@ == issuer@
            &&& principal.audience@ == audience@
            &&& context.tenant matches Some(tenant) ==> identifier_refusal(tenant@) is None
                && tenant.kind == IdentityKind::Tenant && tenant.issuer@ == issuer@
                && tenant.audience@ == audience@
            &&& context.service matches Some(service) ==> identifier_refusal(service@) is None
                && service.kind == IdentityKind::Service
        },
        context.issuer@ != issuer@ ==> result is Err && result->Err_0 is IssuerMismatch,
        context.issuer@ == issuer@ && context.audience@ != audience@ ==> result is Err
            && result->Err_0 is AudienceMismatch,
{
}

/// A caller never selects a tenant by what it sends along.
pub proof fn callers_select_no_tenant(
    header: Option<&str>,
    result: Result<(), FederationError>,
)
    requires
        call_ensures(reject_caller_selected_tenant, (header,), result),
    ensures
        result is Ok <==> header is None,
        result matches Err(error) ==> error is CallerMetadataForbidden,
{
}

/// A decision that requires a provider fails closed without it; any other goes
/// on degraded.
pub proof fn missing_providers(
    class: ProviderDecisionClass,
    provider_id: &str,
    outcome: ProviderAvailabilityOutcome,
)
    requires
        call_ensures(provider_unavailability_outcome, (class, provider_id), outcome),
    ensures
        class == ProviderDecisionClass::Required <==> outcome is FailClosed,
        class == ProviderDecisionClass::Optional <==> outcome is Degrade,
{
}

} // verus!
