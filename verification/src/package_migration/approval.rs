//! Fail-closed approval of migrations: the approval digest that a record
//! carries and the signature checks behind it.
use super::types::{
    signer_models, ApprovalTrustRoots, MigrationApprovalEnvelope, MigrationApprovalStatement,
    MigrationAuthorization, MigrationRecord, RecordModel, APPROVAL_DOMAIN, APPROVAL_PURPOSE,
    APPROVAL_SCHEMA, TRUST_ROOT_VERSION,
};
use crate::crypto::{digest_of, prefixed_digest};
use crate::error::{refusal, refuse_unless, Error};
use crate::framing::{
    domain, encoded, frame, frameable, in_domain, lemma_encoded_injective,
    lemma_twos_complement_injective, lemma_utf8_length, push_text, same_shape, twos_complement,
    utf8, Field, Statement,
};
use crate::ontology::{identifier_refusal, validate_identifier};
use crate::plan_approval::lemma_digest_frameable;
use crate::signature_verification::{
    digest_refusal, lemma_signer_with, signature_refusal, signer_with, trusted_key,
    trusted_key_refusal, validate_prefixed_digest, verify_strict, SignerModel,
};
use crate::text::{blank, decimal_int, decimal_int_text, same};
use vstd::prelude::*;

verus! {

/// What an approval statement says.
pub struct StatementModel {
    pub identity_digest: Seq<char>,
    pub environment: Seq<char>,
    pub purpose: Seq<char>,
    pub issued_at: i64,
    pub expires_at: i64,
}

impl View for MigrationApprovalStatement {
    type V = StatementModel;

    open spec fn view(&self) -> StatementModel {
        StatementModel {
            identity_digest: self.identity_digest@,
            environment: self.environment@,
            purpose: self.purpose@,
            issued_at: self.issued_at,
            expires_at: self.expires_at,
        }
    }
}

/// What an approval envelope says.
pub struct EnvelopeModel {
    pub schema: Seq<char>,
    pub key_id: Seq<char>,
    pub statement: StatementModel,
    pub signature: Seq<char>,
}

impl View for MigrationApprovalEnvelope {
    type V = EnvelopeModel;

    open spec fn view(&self) -> EnvelopeModel {
        EnvelopeModel {
            schema: self.schema@,
            key_id: self.key_id@,
            statement: self.statement@,
            signature: self.signature@,
        }
    }
}

/// What trust roots say.
pub struct RootsModel {
    pub version: u32,
    pub signers: Seq<SignerModel>,
}

impl View for ApprovalTrustRoots {
    type V = RootsModel;

    open spec fn view(&self) -> RootsModel {
        RootsModel { version: self.version, signers: signer_models(self.signers@) }
    }
}

/// What an authorization says.
pub enum AuthorizationModel {
    LocalDevelopment(Seq<char>),
    Signed(EnvelopeModel, RootsModel),
}

impl<'a> View for MigrationAuthorization<'a> {
    type V = AuthorizationModel;

    open spec fn view(&self) -> AuthorizationModel {
        match self {
            MigrationAuthorization::LocalDevelopment { reason } => {
                AuthorizationModel::LocalDevelopment(reason@)
            },
            MigrationAuthorization::Signed { approval, trust_roots } => {
                AuthorizationModel::Signed(approval@, trust_roots@)
            },
        }
    }
}

/// Why trust roots cannot be used.
pub open spec fn roots_refusal(roots: RootsModel) -> Option<Seq<char>> {
    refuse_unless(
        roots.version == TRUST_ROOT_VERSION && roots.signers.len() > 0,
        "package migration approval trust roots must use version 1 and contain at least one signer"@,
    )
}

/// Accept trust roots of the supported version with at least one signer.
pub fn check_roots(roots: &ApprovalTrustRoots) -> (result: Result<(), Error>)
    ensures
        refusal(result) == roots_refusal(roots@),
{
    assert(roots@.signers.len() == roots.signers@.len());
    if roots.version != TRUST_ROOT_VERSION || roots.signers.len() == 0 {
        return Err(
            Error::fixed(
                "package migration approval trust roots must use version 1 and contain at least one signer",
            ),
        );
    }
    Ok(())
}

/// Why a statement cannot be signed.
pub open spec fn statement_refusal(s: StatementModel) -> Option<Seq<char>> {
    let digest = digest_refusal("migration identity digest"@, s.identity_digest);
    let environment = identifier_refusal("approval environment"@, s.environment);
    if s.purpose != APPROVAL_PURPOSE@ {
        Some("package migration approval purpose must be "@ + APPROVAL_PURPOSE@)
    } else if digest is Some {
        digest
    } else if environment is Some {
        environment
    } else if s.expires_at <= s.issued_at {
        Some("package migration approval expiry must be after its issue time"@)
    } else {
        None
    }
}

/// The parts of a statement that are signed, in order.
pub open spec fn statement_fields(s: StatementModel) -> Seq<Field> {
    seq![
        Field::Text(s.identity_digest),
        Field::Text(s.environment),
        Field::Text(s.purpose),
        Field::Word(twos_complement(s.issued_at)),
        Field::Word(twos_complement(s.expires_at)),
    ]
}

/// The bytes of a statement that are signed.
pub open spec fn statement_bytes(s: StatementModel) -> Seq<u8> {
    domain(APPROVAL_DOMAIN@) + encoded(statement_fields(s))
}

/// The bytes of a statement that are signed.
pub fn canonical_approval_bytes(statement: &MigrationApprovalStatement) -> (result: Result<
    Vec<u8>,
    Error,
>)
    ensures
        refusal(result) == statement_refusal(statement@),
        result matches Ok(bytes) ==> bytes@ == statement_bytes(statement@),
{
    if !same(&statement.purpose, APPROVAL_PURPOSE) {
        let mut message = "package migration approval purpose must be ".to_owned();
        message.append(APPROVAL_PURPOSE);
        return Err(Error::new(message));
    }
    match validate_prefixed_digest("migration identity digest", statement.identity_digest.as_str()) {
        Err(error) => return Err(error),
        Ok(_) => {},
    }
    match validate_identifier("approval environment", statement.environment.as_str()) {
        Err(error) => return Err(error),
        Ok(_) => {},
    }
    if statement.expires_at <= statement.issued_at {
        return Err(Error::fixed("package migration approval expiry must be after its issue time"));
    }
    let mut parts = Statement::new();
    parts.text(statement.identity_digest.as_str());
    parts.text(statement.environment.as_str());
    parts.text(statement.purpose.as_str());
    parts.signed(statement.issued_at);
    parts.signed(statement.expires_at);
    assert(parts@ =~= statement_fields(statement@));
    Ok(parts.in_domain(APPROVAL_DOMAIN))
}

/// The signed bytes determine the statement, for every environment name that
/// a frame can hold.
pub proof fn signed_bytes_bind_the_statement(a: StatementModel, b: StatementModel)
    requires
        statement_refusal(a) is None,
        statement_refusal(b) is None,
        frameable(utf8(a.environment)),
        frameable(utf8(b.environment)),
        statement_bytes(a) == statement_bytes(b),
    ensures
        a == b,
{
    reveal_strlit("execute_package_migration");
    let fa = statement_fields(a);
    let fb = statement_fields(b);
    lemma_digest_frameable(a.identity_digest);
    lemma_digest_frameable(b.identity_digest);
    lemma_utf8_length(a.purpose);
    lemma_twos_complement_injective(a.issued_at, b.issued_at);
    lemma_twos_complement_injective(b.issued_at, a.issued_at);
    lemma_twos_complement_injective(a.expires_at, b.expires_at);
    lemma_twos_complement_injective(b.expires_at, a.expires_at);
    assert(same_shape(fa, fb));
    lemma_encoded_injective(domain(APPROVAL_DOMAIN@), fa, fb);
    assert(fa[0] == fb[0]);
    assert(fa[1] == fb[1]);
    assert(fa[2] == fb[2]);
    assert(fa[3] == fb[3]);
    assert(fa[4] == fb[4]);
}

/// Why a signed approval does not cover a migration of an environment.
pub open spec fn envelope_refusal(
    identity_digest: Seq<char>,
    environment: Seq<char>,
    envelope: EnvelopeModel,
    roots: RootsModel,
    now: i64,
) -> Option<Seq<char>> {
    let statement = envelope.statement;
    let unusable = roots_refusal(roots);
    let signer = signer_with(roots.signers, envelope.key_id);
    let key = trusted_key_refusal(
        "package migration approval public key"@,
        signer->0.public_key,
        signer->0.key_id,
    );
    let invalid = statement_refusal(statement);
    if envelope.schema != APPROVAL_SCHEMA@ {
        Some("unsupported package migration approval schema "@ + envelope.schema)
    } else if statement.identity_digest != identity_digest || statement.environment != environment {
        Some("package migration approval is bound to a different identity or environment"@)
    } else if now < statement.issued_at {
        Some("package migration approval is not valid yet"@)
    } else if now >= statement.expires_at {
        Some("package migration approval expired at "@ + decimal_int(statement.expires_at as int))
    } else if unusable is Some {
        unusable
    } else if signer is None {
        Some("package migration approval signer "@ + envelope.key_id + " is not currently trusted"@)
    } else if key is Some {
        key
    } else if invalid is Some {
        invalid
    } else {
        signature_refusal(
            crate::crypto::base64_message(signer->0.public_key)->0,
            "package migration approval signature"@,
            envelope.signature,
            statement_bytes(statement),
        )
    }
}

/// Hold a signed approval against a migration of an environment.
pub fn verify_approval_envelope(
    identity_digest: &str,
    environment: &str,
    approval: &MigrationApprovalEnvelope,
    trust_roots: &ApprovalTrustRoots,
    now: i64,
) -> (result: Result<(), Error>)
    ensures
        refusal(result) == envelope_refusal(
            identity_digest@,
            environment@,
            approval@,
            trust_roots@,
            now,
        ),
{
    let statement = &approval.statement;
    if !same(&approval.schema, APPROVAL_SCHEMA) {
        let mut message = "unsupported package migration approval schema ".to_owned();
        message.append(approval.schema.as_str());
        return Err(Error::new(message));
    }
    if !same(&statement.identity_digest, identity_digest) || !same(
        &statement.environment,
        environment,
    ) {
        return Err(
            Error::fixed(
                "package migration approval is bound to a different identity or environment",
            ),
        );
    }
    if now < statement.issued_at {
        return Err(Error::fixed("package migration approval is not valid yet"));
    }
    if now >= statement.expires_at {
        let mut message = "package migration approval expired at ".to_owned();
        message.append(decimal_int_text(statement.expires_at).as_str());
        return Err(Error::new(message));
    }
    match check_roots(trust_roots) {
        Err(error) => return Err(error),
        Ok(_) => {},
    }
    let ghost signers = trust_roots@.signers;
    let mut at: usize = 0;
    while at < trust_roots.signers.len() && !same(&trust_roots.signers[at].key_id, &approval.key_id)
        invariant
            at <= trust_roots.signers.len(),
            signers == signer_models(trust_roots.signers@),
            forall|k: int| 0 <= k < at ==> (#[trigger] signers[k]).key_id != approval@.key_id,
        decreases trust_roots.signers.len() - at,
    {
        assert(signers[at as int] == trust_roots.signers@[at as int]@);
        at = at + 1;
    }
    proof {
        if at < trust_roots.signers.len() {
            assert(signers[at as int] == trust_roots.signers@[at as int]@);
        }
        lemma_signer_with(signers, approval@.key_id, at as int);
    }
    if at >= trust_roots.signers.len() {
        let mut message = "package migration approval signer ".to_owned();
        message.append(approval.key_id.as_str());
        message.append(" is not currently trusted");
        return Err(Error::new(message));
    }
    let signer = &trust_roots.signers[at];
    let public = match trusted_key(
        "package migration approval public key",
        signer.public_key.as_str(),
        signer.key_id.as_str(),
    ) {
        Err(error) => return Err(error),
        Ok(bytes) => bytes,
    };
    let message = match canonical_approval_bytes(statement) {
        Err(error) => return Err(error),
        Ok(bytes) => bytes,
    };
    verify_strict(
        &public,
        "package migration approval signature",
        approval.signature.as_str(),
        message.as_slice(),
    )
}

/// The digest that binds a signed approval to a record.
pub open spec fn signed_binding(record: RecordModel) -> Seq<char> {
    prefixed_digest(
        domain("TENKAI-PACKAGE-MIGRATION-APPROVED-V1"@) + (frame(utf8(record.identity_digest))
            + frame(utf8(record.environment))),
    )
}

/// The digest that binds a development approval to a record.
pub open spec fn development_binding(record: RecordModel, reason: Seq<char>) -> Seq<char> {
    prefixed_digest(
        domain("TENKAI-PACKAGE-MIGRATION-DEV-APPROVAL-V1"@) + (frame(utf8(record.identity_digest))
            + frame(utf8(reason))),
    )
}

/// Why an authorization does not cover a record.
pub open spec fn authorization_refusal(
    record: RecordModel,
    authorization: AuthorizationModel,
    now: i64,
) -> Option<Seq<char>> {
    match authorization {
        AuthorizationModel::LocalDevelopment(reason) => if record.environment != "local"@ {
            Some(
                "unapproved development execution is restricted to the built-in local environment"@,
            )
        } else if blank(reason) {
            Some("package migration development approval requires a non-empty reason"@)
        } else {
            None
        },
        AuthorizationModel::Signed(envelope, roots) => envelope_refusal(
            record.identity_digest,
            record.environment,
            envelope,
            roots,
            now,
        ),
    }
}

/// The digest that binds an authorization to a record.
pub open spec fn approval_binding(
    record: RecordModel,
    authorization: AuthorizationModel,
) -> Seq<char> {
    match authorization {
        AuthorizationModel::LocalDevelopment(reason) => development_binding(record, reason),
        AuthorizationModel::Signed(_, _) => signed_binding(record),
    }
}

/// The digest that binds an authorization to a record, once it covers it.
pub fn approval_digest(
    record: &MigrationRecord,
    authorization: &MigrationAuthorization<'_>,
    now: i64,
) -> (result: Result<String, Error>)
    ensures
        refusal(result) == authorization_refusal(record@, authorization@, now),
        result matches Ok(digest) ==> digest@ == approval_binding(record@, authorization@),
{
    match authorization {
        MigrationAuthorization::LocalDevelopment { reason } => {
            if !same(&record.environment, "local") {
                return Err(
                    Error::fixed(
                        "unapproved development execution is restricted to the built-in local environment",
                    ),
                );
            }
            if reason.trim().is_empty() {
                return Err(
                    Error::fixed(
                        "package migration development approval requires a non-empty reason",
                    ),
                );
            }
            let mut bytes: Vec<u8> = Vec::new();
            push_text(&mut bytes, record.identity_digest.as_str());
            push_text(&mut bytes, reason);
            assert(bytes@ =~= frame(utf8(record@.identity_digest)) + frame(utf8(reason@)));
            let framed = in_domain("TENKAI-PACKAGE-MIGRATION-DEV-APPROVAL-V1", bytes.as_slice());
            Ok(digest_of(framed.as_slice()))
        },
        MigrationAuthorization::Signed { approval, trust_roots } => {
            match verify_approval_envelope(
                record.identity_digest.as_str(),
                record.environment.as_str(),
                approval,
                trust_roots,
                now,
            ) {
                Err(error) => return Err(error),
                Ok(_) => {},
            }
            let mut bytes: Vec<u8> = Vec::new();
            push_text(&mut bytes, record.identity_digest.as_str());
            push_text(&mut bytes, record.environment.as_str());
            assert(bytes@ =~= frame(utf8(record@.identity_digest)) + frame(
                utf8(record@.environment),
            ));
            let framed = in_domain("TENKAI-PACKAGE-MIGRATION-APPROVED-V1", bytes.as_slice());
            Ok(digest_of(framed.as_slice()))
        },
    }
}

/// Check that an authorization covers a record.
pub fn verify_authorization(
    record: &MigrationRecord,
    authorization: &MigrationAuthorization<'_>,
    now: i64,
) -> (result: Result<(), Error>)
    ensures
        refusal(result) == authorization_refusal(record@, authorization@, now),
{
    match approval_digest(record, authorization, now) {
        Err(error) => Err(error),
        Ok(_) => Ok(()),
    }
}

/// Why a record may not run under an authorization.
pub open spec fn approval_refusal(
    record: RecordModel,
    authorization: AuthorizationModel,
    now: i64,
) -> Option<Seq<char>> {
    let uncovered = authorization_refusal(record, authorization, now);
    if record.approval_digest.len() == 0 {
        Some("package migration "@ + record.name + " is not approved"@)
    } else if uncovered is Some {
        uncovered
    } else if approval_binding(record, authorization) != record.approval_digest {
        Some(
            "package migration "@ + record.name + " approval does not match the stored digest"@,
        )
    } else {
        None
    }
}

/// Require that a record was approved and that the authorization is the one
/// it was approved under.
pub fn require_approval(
    record: &MigrationRecord,
    authorization: &MigrationAuthorization<'_>,
    now: i64,
) -> (result: Result<(), Error>)
    ensures
        refusal(result) == approval_refusal(record@, authorization@, now),
{
    if record.approval_digest.as_str().is_empty() {
        let mut message = "package migration ".to_owned();
        message.append(record.name.as_str());
        message.append(" is not approved");
        return Err(Error::new(message));
    }
    let expected = match approval_digest(record, authorization, now) {
        Err(error) => return Err(error),
        Ok(digest) => digest,
    };
    if !same(&expected, &record.approval_digest) {
        let mut message = "package migration ".to_owned();
        message.append(record.name.as_str());
        message.append(" approval does not match the stored digest");
        return Err(Error::new(message));
    }
    Ok(())
}

/// A signed approval covers a migration if and only if it is of the known schema,
/// names its identity and environment, the time lies in its interval, the roots
/// are of the first version and hold its key, that key is strong and its own,
/// its statement can be signed, and the key accepts the signature of the
/// statement.
pub proof fn covering_approvals(
    identity_digest: &str,
    environment: &str,
    approval: &MigrationApprovalEnvelope,
    trust_roots: &ApprovalTrustRoots,
    now: i64,
    result: Result<(), Error>,
)
    requires
        call_ensures(
            verify_approval_envelope,
            (identity_digest, environment, approval, trust_roots, now),
            result,
        ),
    ensures
        result is Ok <==> {
            let statement = approval.statement;
            let signer = signer_with(signer_models(trust_roots.signers@), approval.key_id@);
            let key = crate::crypto::base64_message(signer->0.public_key);
            &&& approval.schema@ == "tenkai.package-migration-approval.v1"@
            &&& statement.identity_digest@ == identity_digest@
            &&& statement.environment@ == environment@
            &&& statement.issued_at <= now < statement.expires_at
            &&& trust_roots.version == 1
            &&& trust_roots.signers@.len() > 0
            &&& signer is Some
            &&& key is Some && key->0.len() == 32
            &&& crate::crypto::ed25519_key(key->0)
            &&& !crate::crypto::ed25519_weak(key->0)
            &&& prefixed_digest(key->0) == signer->0.key_id
            &&& statement.purpose@ == "execute_package_migration"@
            &&& digest_refusal("migration identity digest"@, identity_digest@) is None
            &&& identifier_refusal("approval environment"@, environment@) is None
            &&& crate::crypto::base64_message(approval.signature@) matches Some(signature)
                && signature.len() == 64 && crate::crypto::ed25519_accepts(
                key->0,
                statement_bytes(statement@),
                signature,
            )
        },
{
    assert(trust_roots@.signers.len() == trust_roots.signers@.len());
}

/// Without a signature only the environment `local` is covered, and only with a
/// reason.
pub proof fn unsigned_authorizations(
    record: &MigrationRecord,
    reason: &str,
    now: i64,
    result: Result<(), Error>,
)
    requires
        call_ensures(
            verify_authorization,
            (record, &MigrationAuthorization::LocalDevelopment { reason }, now),
            result,
        ),
    ensures
        result is Ok <==> record.environment@ == "local"@ && !blank(reason@),
{
}

/// A migration runs only under the authorization that it was approved under: it
/// has the digest of an approval, the authorization covers it, and the digest is
/// that of this authorization.
pub proof fn approved_runs(
    record: &MigrationRecord,
    authorization: &MigrationAuthorization<'_>,
    now: i64,
    covered: Result<(), Error>,
    digest: Result<String, Error>,
    result: Result<(), Error>,
)
    requires
        call_ensures(verify_authorization, (record, authorization, now), covered),
        call_ensures(approval_digest, (record, authorization, now), digest),
        call_ensures(require_approval, (record, authorization, now), result),
    ensures
        digest is Ok <==> covered is Ok,
        result is Ok <==> record.approval_digest@.len() > 0 && digest is Ok && digest->Ok_0@
            == record.approval_digest@,
{
}

/// The bytes of a statement that are signed bind every part of it.
pub proof fn approval_bytes_bind_every_part(
    a: &MigrationApprovalStatement,
    b: &MigrationApprovalStatement,
    left: Result<Vec<u8>, Error>,
    right: Result<Vec<u8>, Error>,
)
    requires
        call_ensures(canonical_approval_bytes, (a,), left),
        call_ensures(canonical_approval_bytes, (b,), right),
        left is Ok && right is Ok,
        left->Ok_0@ == right->Ok_0@,
        frameable(utf8(a.environment@)),
        frameable(utf8(b.environment@)),
    ensures
        a.identity_digest@ == b.identity_digest@,
        a.environment@ == b.environment@,
        a.purpose@ == b.purpose@,
        a.issued_at == b.issued_at,
        a.expires_at == b.expires_at,
{
    signed_bytes_bind_the_statement(a@, b@);
}

/// Trust roots pass where they are of the known version and name a signer.
pub proof fn roots_name_signers(roots: &ApprovalTrustRoots, result: Result<(), Error>)
    requires
        call_ensures(check_roots, (roots,), result),
    ensures
        result is Ok <==> roots.version == 1 && roots.signers@.len() > 0,
{
    assert(signer_models(roots.signers@).len() == roots.signers@.len());
}

} // verus!
