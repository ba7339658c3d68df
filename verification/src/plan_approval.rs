//! Signed, provider-independent authorization for immutable plan execution.
use crate::crypto::{accepts, base64_message, digest_of, ed25519_accepts, is_digest, prefixed_digest};
use crate::error::{first_refusal, refusal, refuse_unless, Error};
use crate::framing::{
    domain, encoded, frameable, lemma_encoded_injective, lemma_twos_complement_injective,
    lemma_utf8_length, same_shape, twos_complement, utf8, Field, Statement,
};
use crate::graph::Object;
use crate::ontology::KIND_PLAN_APPROVAL_VERIFICATION;
use crate::plan::Plan;
use crate::signature_verification::{
    decode_key, decode_signature, digest_refusal, exact_bytes, exact_refusal, signer_with,
    validate_prefixed_digest, SignerModel,
};
use crate::text::{
    blank, contains_char, decimal_int, decimal_int_text, opt_text, same, trimmed,
};
use crate::text_map::{group_text_values, text_values, TextMap};
use crate::trust::{
    roots_refusal, signer_models, trusted_signers_have_strong_keys, TrustRoots, TRUST_ROOT_VERSION,
};
use vstd::prelude::*;

verus! {

pub const APPROVAL_SCHEMA: &'static str = "tenkai.plan-approval.v1";

pub const APPROVAL_DOMAIN: &'static str = "TENKAI-PLAN-APPROVAL-V1";

pub const PURPOSE: &'static str = "execute_plan";

/// What an approval states.
#[derive(Debug, PartialEq, Eq)]
pub struct ApprovalStatement {
    pub plan_digest: String,
    pub environment: String,
    pub purpose: String,
    pub skip_gates: bool,
    pub issued_at: i64,
    pub expires_at: i64,
    pub policy_provider: String,
    pub policy_evidence_id: String,
    pub policy_digest: String,
}

/// A signed approval.
#[derive(Debug, PartialEq, Eq)]
pub struct ApprovalEnvelope {
    pub schema: String,
    pub key_id: String,
    pub statement: ApprovalStatement,
    pub signature: String,
}

/// What is recorded of a verified approval.
#[derive(Debug, PartialEq, Eq)]
pub struct VerificationEvidence {
    pub schema: String,
    pub plan_id: String,
    pub plan_digest: String,
    pub environment: String,
    pub signer_identity: String,
    pub key_id: String,
    pub policy_provider: String,
    pub policy_evidence_id: String,
    pub policy_digest: String,
    pub issued_at: i64,
    pub expires_at: i64,
    pub verified_at: i64,
    pub bypass_reason: Option<String>,
}

/// The content of a statement.
pub struct StatementModel {
    pub plan_digest: Seq<char>,
    pub environment: Seq<char>,
    pub purpose: Seq<char>,
    pub skip_gates: bool,
    pub issued_at: i64,
    pub expires_at: i64,
    pub policy_provider: Seq<char>,
    pub policy_evidence_id: Seq<char>,
    pub policy_digest: Seq<char>,
}

impl View for ApprovalStatement {
    type V = StatementModel;

    open spec fn view(&self) -> StatementModel {
        StatementModel {
            plan_digest: self.plan_digest@,
            environment: self.environment@,
            purpose: self.purpose@,
            skip_gates: self.skip_gates,
            issued_at: self.issued_at,
            expires_at: self.expires_at,
            policy_provider: self.policy_provider@,
            policy_evidence_id: self.policy_evidence_id@,
            policy_digest: self.policy_digest@,
        }
    }
}

/// The content of an envelope.
pub struct EnvelopeModel {
    pub schema: Seq<char>,
    pub key_id: Seq<char>,
    pub statement: StatementModel,
    pub signature: Seq<char>,
}

impl View for ApprovalEnvelope {
    type V = EnvelopeModel;

    open spec fn view(&self) -> EnvelopeModel {
        EnvelopeModel {
            schema: self.schema@,
            key_id: self.key_id@,
            statement: self.statement@,
            signature: self.signature@,
        }
    }
}

/// The content of verification evidence.
pub struct EvidenceModel {
    pub schema: Seq<char>,
    pub plan_id: Seq<char>,
    pub plan_digest: Seq<char>,
    pub environment: Seq<char>,
    pub signer_identity: Seq<char>,
    pub key_id: Seq<char>,
    pub policy_provider: Seq<char>,
    pub policy_evidence_id: Seq<char>,
    pub policy_digest: Seq<char>,
    pub issued_at: i64,
    pub expires_at: i64,
    pub verified_at: i64,
    pub bypass_reason: Option<Seq<char>>,
}

impl View for VerificationEvidence {
    type V = EvidenceModel;

    open spec fn view(&self) -> EvidenceModel {
        EvidenceModel {
            schema: self.schema@,
            plan_id: self.plan_id@,
            plan_digest: self.plan_digest@,
            environment: self.environment@,
            signer_identity: self.signer_identity@,
            key_id: self.key_id@,
            policy_provider: self.policy_provider@,
            policy_evidence_id: self.policy_evidence_id@,
            policy_digest: self.policy_digest@,
            issued_at: self.issued_at,
            expires_at: self.expires_at,
            verified_at: self.verified_at,
            bypass_reason: opt_text(self.bypass_reason),
        }
    }
}

/// A text in canonical form: not blank, without white space at either end,
/// at most 512 bytes, without a zero character.
pub open spec fn canonical_text(value: Seq<char>) -> bool {
    &&& !blank(value)
    &&& value == trimmed(value)
    &&& utf8(value).len() <= 512
    &&& !value.contains('\0')
}

/// Why a text is not in canonical form.
pub open spec fn text_refusal(name: Seq<char>, value: Seq<char>) -> Option<Seq<char>> {
    refuse_unless(canonical_text(value), name + " is empty, non-canonical, or too long"@)
}

/// Admit a text in canonical form.
pub fn validate_text(name: &str, value: &str) -> (result: Result<(), Error>)
    ensures
        refusal(result) == text_refusal(name@, value@),
{
    if value.trim().is_empty() || !same(value, value.trim()) || value.as_bytes().len() > 512
        || contains_char(value, '\0') {
        let mut message = name.to_owned();
        message.append(" is empty, non-canonical, or too long");
        return Err(Error::new(message));
    }
    Ok(())
}

/// Why a statement cannot be signed.
pub open spec fn statement_refusal(s: StatementModel) -> Option<Seq<char>> {
    let plan_digest = digest_refusal("plan digest"@, s.plan_digest);
    let environment = text_refusal("environment"@, s.environment);
    let provider = text_refusal("policy provider"@, s.policy_provider);
    let evidence = text_refusal("policy evidence id"@, s.policy_evidence_id);
    if plan_digest is Some {
        plan_digest
    } else if environment is Some {
        environment
    } else if s.purpose != PURPOSE@ {
        Some("approval purpose must be "@ + PURPOSE@)
    } else if s.expires_at <= s.issued_at {
        Some("approval expiry must be after its issue time"@)
    } else if provider is Some {
        provider
    } else if evidence is Some {
        evidence
    } else {
        digest_refusal("policy digest"@, s.policy_digest)
    }
}

/// A statement that can be signed.
pub open spec fn valid_statement(s: StatementModel) -> bool {
    &&& is_digest(s.plan_digest)
    &&& canonical_text(s.environment)
    &&& s.purpose == PURPOSE@
    &&& s.issued_at < s.expires_at
    &&& canonical_text(s.policy_provider)
    &&& canonical_text(s.policy_evidence_id)
    &&& is_digest(s.policy_digest)
}

/// Admit a statement that can be signed.
pub fn validate_statement(statement: &ApprovalStatement) -> (result: Result<(), Error>)
    ensures
        refusal(result) == statement_refusal(statement@),
        result is Ok <==> valid_statement(statement@),
{
    match validate_prefixed_digest("plan digest", statement.plan_digest.as_str()) {
        Err(error) => return Err(error),
        Ok(_) => {},
    }
    match validate_text("environment", statement.environment.as_str()) {
        Err(error) => return Err(error),
        Ok(_) => {},
    }
    if !same(&statement.purpose, PURPOSE) {
        let mut message = "approval purpose must be ".to_owned();
        message.append(PURPOSE);
        return Err(Error::new(message));
    }
    if statement.expires_at <= statement.issued_at {
        return Err(Error::fixed("approval expiry must be after its issue time"));
    }
    match validate_text("policy provider", statement.policy_provider.as_str()) {
        Err(error) => return Err(error),
        Ok(_) => {},
    }
    match validate_text("policy evidence id", statement.policy_evidence_id.as_str()) {
        Err(error) => return Err(error),
        Ok(_) => {},
    }
    validate_prefixed_digest("policy digest", statement.policy_digest.as_str())
}

/// The parts of a statement that are signed, in order.
pub open spec fn statement_fields(s: StatementModel) -> Seq<Field> {
    seq![
        Field::Text(s.plan_digest),
        Field::Text(s.environment),
        Field::Text(s.purpose),
        Field::Word(twos_complement(s.issued_at)),
        Field::Word(twos_complement(s.expires_at)),
        Field::Flag(s.skip_gates),
        Field::Text(s.policy_provider),
        Field::Text(s.policy_evidence_id),
        Field::Text(s.policy_digest),
    ]
}

/// The bytes of a statement that are signed.
pub open spec fn statement_bytes(s: StatementModel) -> Seq<u8> {
    domain(APPROVAL_DOMAIN@) + encoded(statement_fields(s))
}

/// The bytes of a statement that are signed.
pub fn canonical_bytes(statement: &ApprovalStatement) -> (result: Result<Vec<u8>, Error>)
    ensures
        refusal(result) == statement_refusal(statement@),
        result matches Ok(bytes) ==> bytes@ == statement_bytes(statement@),
{
    match validate_statement(statement) {
        Err(error) => return Err(error),
        Ok(_) => {},
    }
    let mut parts = Statement::new();
    parts.text(statement.plan_digest.as_str());
    parts.text(statement.environment.as_str());
    parts.text(statement.purpose.as_str());
    parts.signed(statement.issued_at);
    parts.signed(statement.expires_at);
    parts.flag(statement.skip_gates);
    parts.text(statement.policy_provider.as_str());
    parts.text(statement.policy_evidence_id.as_str());
    parts.text(statement.policy_digest.as_str());
    assert(parts@ =~= statement_fields(statement@));
    Ok(parts.in_domain(APPROVAL_DOMAIN))
}

/// The signed bytes determine the statement: no part of a valid statement can
/// change without changing them.
pub proof fn signed_bytes_bind_the_statement(a: StatementModel, b: StatementModel)
    requires
        valid_statement(a),
        valid_statement(b),
        statement_bytes(a) == statement_bytes(b),
    ensures
        a == b,
{
    let fa = statement_fields(a);
    let fb = statement_fields(b);
    lemma_statement_shape(a);
    lemma_statement_shape(b);
    lemma_twos_complement_injective(a.issued_at, b.issued_at);
    lemma_twos_complement_injective(a.expires_at, b.expires_at);
    assert(same_shape(fa, fb));
    lemma_encoded_injective(domain(APPROVAL_DOMAIN@), fa, fb);
    assert(fa[0] == fb[0]);
    assert(fa[1] == fb[1]);
    assert(fa[2] == fb[2]);
    assert(fa[3] == fb[3]);
    assert(fa[4] == fb[4]);
    assert(fa[5] == fb[5]);
    assert(fa[6] == fb[6]);
    assert(fa[7] == fb[7]);
    assert(fa[8] == fb[8]);
}

proof fn lemma_statement_shape(s: StatementModel)
    requires
        valid_statement(s),
    ensures
        forall|i: int| 0 <= i < 9 ==> (#[trigger] statement_fields(s)[i]).in_range(),
{
    reveal_strlit("execute_plan");
    lemma_digest_frameable(s.plan_digest);
    lemma_digest_frameable(s.policy_digest);
    lemma_utf8_length(s.purpose);
    lemma_twos_complement_injective(s.issued_at, s.issued_at);
    lemma_twos_complement_injective(s.expires_at, s.expires_at);
}

/// A recorded digest is short enough to frame.
pub proof fn lemma_digest_frameable(text: Seq<char>)
    requires
        is_digest(text),
    ensures
        frameable(utf8(text)),
{
    reveal_strlit("sha256:");
    lemma_utf8_length(text);
    assert(text.len() == 71);
}

/// Why an approval does not authorize a plan.
pub open spec fn approval_refusal(
    plan_digest: Seq<char>,
    environment: Seq<char>,
    skip_gates: bool,
    envelope: EnvelopeModel,
    version: u32,
    signers: Seq<SignerModel>,
    now: i64,
) -> Option<Seq<char>> {
    let statement = envelope.statement;
    let roots = roots_refusal("plan approval"@, version, signers);
    let signer = signer_with(signers, envelope.key_id);
    let decoding = exact_refusal("plan approval signature"@, envelope.signature, 64, "64"@);
    let invalid = statement_refusal(statement);
    if envelope.schema != APPROVAL_SCHEMA@ {
        Some("unsupported plan approval schema "@ + envelope.schema)
    } else if statement.plan_digest != plan_digest || statement.environment != environment
        || statement.skip_gates != skip_gates {
        Some(
            "plan approval is bound to different executable content, environment, or gate policy"@,
        )
    } else if now < statement.issued_at {
        Some("plan approval is not valid yet"@)
    } else if now >= statement.expires_at {
        Some("plan approval expired at "@ + decimal_int(statement.expires_at as int))
    } else if roots is Some {
        roots
    } else if signer is None {
        Some("plan approval signer "@ + envelope.key_id + " is not currently trusted"@)
    } else if decoding is Some {
        decoding
    } else if invalid is Some {
        invalid
    } else {
        refuse_unless(
            ed25519_accepts(
                base64_message(signer->0.public_key)->0,
                statement_bytes(statement),
                base64_message(envelope.signature)->0,
            ),
            "plan approval signature verification failed"@,
        )
    }
}

/// Hold an approval against a plan. `content` is the canonical executable
/// content of the plan; its digest is what the approval must name.
pub fn verify(
    plan: &Plan,
    content: &[u8],
    envelope: &ApprovalEnvelope,
    roots: &TrustRoots,
    now: i64,
    skip_gates: bool,
) -> (result: Result<VerificationEvidence, Error>)
    ensures
        refusal(result) == approval_refusal(
            prefixed_digest(content@),
            plan.environment@,
            skip_gates,
            envelope@,
            roots.version,
            signer_models(roots.signers@),
            now,
        ),
        result matches Ok(evidence) ==> evidence@ == (EvidenceModel {
            schema: APPROVAL_SCHEMA@,
            plan_id: plan.id@,
            plan_digest: prefixed_digest(content@),
            environment: plan.environment@,
            signer_identity: signer_with(signer_models(roots.signers@), envelope@.key_id)->0.identity,
            key_id: envelope@.key_id,
            policy_provider: envelope@.statement.policy_provider,
            policy_evidence_id: envelope@.statement.policy_evidence_id,
            policy_digest: envelope@.statement.policy_digest,
            issued_at: envelope@.statement.issued_at,
            expires_at: envelope@.statement.expires_at,
            verified_at: now,
            bypass_reason: None,
        }),
{
    if !same(&envelope.schema, APPROVAL_SCHEMA) {
        let mut message = "unsupported plan approval schema ".to_owned();
        message.append(envelope.schema.as_str());
        return Err(Error::new(message));
    }
    let expected_digest = digest_of(content);
    let statement = &envelope.statement;
    if !same(&statement.plan_digest, &expected_digest) || !same(
        &statement.environment,
        &plan.environment,
    ) || statement.skip_gates != skip_gates {
        return Err(
            Error::fixed(
                "plan approval is bound to different executable content, environment, or gate policy",
            ),
        );
    }
    if now < statement.issued_at {
        return Err(Error::fixed("plan approval is not valid yet"));
    }
    if now >= statement.expires_at {
        let mut message = "plan approval expired at ".to_owned();
        message.append(decimal_int_text(statement.expires_at).as_str());
        return Err(Error::new(message));
    }
    match roots.validate("plan approval") {
        Err(error) => return Err(error),
        Ok(_) => {},
    }
    let signer = match roots.signer(envelope.key_id.as_str()) {
        None => {
            let mut message = "plan approval signer ".to_owned();
            message.append(envelope.key_id.as_str());
            message.append(" is not currently trusted");
            return Err(Error::new(message));
        },
        Some(found) => found,
    };
    proof {
        trusted_signers_have_strong_keys(
            "plan approval"@,
            roots.version,
            signer_models(roots.signers@),
            envelope@.key_id,
        );
    }
    let public = match decode_key("trusted signer public key", signer.public_key.as_str()) {
        Err(error) => return Err(error),
        Ok(bytes) => bytes,
    };
    let signature = match decode_signature("plan approval signature", envelope.signature.as_str()) {
        Err(error) => return Err(error),
        Ok(bytes) => bytes,
    };
    let message = match canonical_bytes(statement) {
        Err(error) => return Err(error),
        Ok(bytes) => bytes,
    };
    if !accepts(&public, message.as_slice(), &signature) {
        return Err(Error::fixed("plan approval signature verification failed"));
    }
    Ok(
        VerificationEvidence {
            schema: APPROVAL_SCHEMA.to_owned(),
            plan_id: plan.id.clone(),
            plan_digest: expected_digest,
            environment: plan.environment.clone(),
            signer_identity: signer.identity.clone(),
            key_id: envelope.key_id.clone(),
            policy_provider: statement.policy_provider.clone(),
            policy_evidence_id: statement.policy_evidence_id.clone(),
            policy_digest: statement.policy_digest.clone(),
            issued_at: statement.issued_at,
            expires_at: statement.expires_at,
            verified_at: now,
            bypass_reason: None,
        },
    )
}

/// A valid statement about a plan, signed by a trusted key whose signature
/// strict verification accepts, authorizes that plan for as long as it is
/// valid.
pub proof fn signed_approval_authorizes(
    statement: StatementModel,
    signers: Seq<SignerModel>,
    key_id: Seq<char>,
    signature: Seq<char>,
    now: i64,
)
    requires
        valid_statement(statement),
        statement.issued_at <= now < statement.expires_at,
        roots_refusal("plan approval"@, TRUST_ROOT_VERSION, signers) is None,
        signer_with(signers, key_id) is Some,
        exact_bytes(signature, 64) is Some,
        ed25519_accepts(
            base64_message(signer_with(signers, key_id)->0.public_key)->0,
            statement_bytes(statement),
            exact_bytes(signature, 64)->0,
        ),
    ensures
        approval_refusal(
            statement.plan_digest,
            statement.environment,
            statement.skip_gates,
            EnvelopeModel { schema: APPROVAL_SCHEMA@, key_id, statement, signature },
            TRUST_ROOT_VERSION,
            signers,
            now,
        ) is None,
{
}

/// An approval never authorizes other content, another environment or another
/// gate policy than the ones it names, nor at a time outside its interval.
pub proof fn approval_is_bound(
    plan_digest: Seq<char>,
    environment: Seq<char>,
    skip_gates: bool,
    envelope: EnvelopeModel,
    version: u32,
    signers: Seq<SignerModel>,
    now: i64,
)
    requires
        approval_refusal(
            plan_digest,
            environment,
            skip_gates,
            envelope,
            version,
            signers,
            now,
        ) is None,
    ensures
        envelope.statement.plan_digest == plan_digest,
        envelope.statement.environment == environment,
        envelope.statement.skip_gates == skip_gates,
        envelope.statement.issued_at <= now < envelope.statement.expires_at,
        valid_statement(envelope.statement),
        signer_with(signers, envelope.key_id) is Some,
{
}

/// Why a development bypass is refused.
pub open spec fn bypass_refusal(environment: Seq<char>, reason: Seq<char>) -> Option<Seq<char>> {
    first_refusal(
        refuse_unless(
            environment == "local"@,
            "unapproved development execution is restricted to the built-in local environment"@,
        ),
        text_refusal("development bypass reason"@, reason),
    )
}

/// Evidence for unapproved execution, which only the environment `local`
/// admits and which names its reason.
pub fn local_bypass(plan: &Plan, content: &[u8], reason: &str, now: i64) -> (result: Result<
    VerificationEvidence,
    Error,
>)
    ensures
        refusal(result) == bypass_refusal(plan.environment@, reason@),
        result matches Ok(evidence) ==> evidence@ == (EvidenceModel {
            schema: APPROVAL_SCHEMA@,
            plan_id: plan.id@,
            plan_digest: prefixed_digest(content@),
            environment: plan.environment@,
            signer_identity: "unsigned-development"@,
            key_id: ""@,
            policy_provider: "builtin-local-development"@,
            policy_evidence_id: "local-bypass:"@ + plan.id@,
            policy_digest: prefixed_digest(utf8(reason@)),
            issued_at: now,
            expires_at: now,
            verified_at: now,
            bypass_reason: Some(reason@),
        }),
{
    if !same(&plan.environment, "local") {
        return Err(
            Error::fixed(
                "unapproved development execution is restricted to the built-in local environment",
            ),
        );
    }
    match validate_text("development bypass reason", reason) {
        Err(error) => return Err(error),
        Ok(_) => {},
    }
    let mut policy_evidence_id = "local-bypass:".to_owned();
    policy_evidence_id.append(plan.id.as_str());
    Ok(
        VerificationEvidence {
            schema: APPROVAL_SCHEMA.to_owned(),
            plan_id: plan.id.clone(),
            plan_digest: digest_of(content),
            environment: plan.environment.clone(),
            signer_identity: "unsigned-development".to_owned(),
            key_id: "".to_owned(),
            policy_provider: "builtin-local-development".to_owned(),
            policy_evidence_id,
            policy_digest: digest_of(reason.as_bytes()),
            issued_at: now,
            expires_at: now,
            verified_at: now,
            bypass_reason: Some(reason.to_owned()),
        },
    )
}

/// The key id of evidence, or the word for a bypass.
pub open spec fn key_or_bypass(key_id: Seq<char>) -> Seq<char> {
    if key_id.len() == 0 {
        "development-bypass"@
    } else {
        key_id
    }
}

impl VerificationEvidence {
    /// The key id, or the word for a bypass.
    pub fn key_id_or_bypass(&self) -> (text: &str)
        ensures
            text@ == key_or_bypass(self@.key_id),
    {
        if self.key_id.as_str().is_empty() {
            "development-bypass"
        } else {
            self.key_id.as_str()
        }
    }
}

/// The properties of the stored object that records evidence.
pub open spec fn evidence_properties(evidence: EvidenceModel, encoded: Seq<char>) -> Map<
    Seq<char>,
    Seq<char>,
> {
    Map::<Seq<char>, Seq<char>>::empty().insert("evidence"@, encoded).insert(
        "plan_id"@,
        evidence.plan_id,
    ).insert("plan_digest"@, evidence.plan_digest).insert(
        "environment"@,
        evidence.environment,
    ).insert("signer_identity"@, evidence.signer_identity).insert(
        "policy_provider"@,
        evidence.policy_provider,
    ).insert("policy_evidence_id"@, evidence.policy_evidence_id).insert(
        "policy_digest"@,
        evidence.policy_digest,
    ).insert("verified_at"@, decimal_int(evidence.verified_at as int))
}

/// The stored object that records evidence. `encoded` is its serialized form.
pub fn record(evidence: &VerificationEvidence, encoded: &str) -> (object: Object)
    ensures
        object.id@ == evidence@.plan_id + ":approval:"@ + key_or_bypass(evidence@.key_id) + ":"@
            + decimal_int(evidence@.verified_at as int),
        object.kind@ == KIND_PLAN_APPROVAL_VERIFICATION@,
        object.name@ == "plan approval "@ + evidence@.plan_id,
        object.namespace@ == "tenkai"@,
        object.external_id@ == ""@,
        object.created == evidence@.verified_at,
        object.updated == evidence@.verified_at,
        text_values(object.properties@) == evidence_properties(evidence@, encoded@),
{
    let mut id = evidence.plan_id.clone();
    id.append(":approval:");
    id.append(evidence.key_id_or_bypass());
    id.append(":");
    id.append(decimal_int_text(evidence.verified_at).as_str());
    let mut name = "plan approval ".to_owned();
    name.append(evidence.plan_id.as_str());
    broadcast use group_text_values;

    let mut properties = TextMap::<String>::new();
    properties.insert("evidence".to_owned(), encoded.to_owned());
    properties.insert("plan_id".to_owned(), evidence.plan_id.clone());
    properties.insert("plan_digest".to_owned(), evidence.plan_digest.clone());
    properties.insert("environment".to_owned(), evidence.environment.clone());
    properties.insert("signer_identity".to_owned(), evidence.signer_identity.clone());
    properties.insert("policy_provider".to_owned(), evidence.policy_provider.clone());
    properties.insert("policy_evidence_id".to_owned(), evidence.policy_evidence_id.clone());
    properties.insert("policy_digest".to_owned(), evidence.policy_digest.clone());
    properties.insert("verified_at".to_owned(), decimal_int_text(evidence.verified_at));
    Object {
        id,
        kind: KIND_PLAN_APPROVAL_VERIFICATION.to_owned(),
        name,
        namespace: "tenkai".to_owned(),
        external_id: "".to_owned(),
        properties,
        created: evidence.verified_at,
        updated: evidence.verified_at,
    }
}

/// A text is in canonical form if and only if it says something, has no white
/// space at either end, no zero character, and at most 512 bytes.
pub proof fn canonical_texts(name: &str, value: &str, result: Result<(), Error>)
    requires
        call_ensures(validate_text, (name, value), result),
    ensures
        result is Ok <==> trimmed(value@).len() > 0 && trimmed(value@) == value@ && utf8(
            value@,
        ).len() <= 512 && forall|i: int| 0 <= i < value@.len() ==> #[trigger] value@[i] != '\0',
{
    if value@.contains('\0') {
        let i = choose|i: int| 0 <= i < value@.len() && value@[i] == '\0';
        assert(value@[i] == '\0');
    }
}

/// A statement can be signed if and only if it names digests of the plan and the
/// policy, texts in canonical form, the purpose, and an interval that is not
/// empty.
pub proof fn statements_that_can_be_signed(
    statement: &ApprovalStatement,
    result: Result<(), Error>,
)
    requires
        call_ensures(validate_statement, (statement,), result),
    ensures
        result is Ok <==> {
            &&& is_digest(statement.plan_digest@)
            &&& canonical_text(statement.environment@)
            &&& statement.purpose@ == "execute_plan"@
            &&& statement.issued_at < statement.expires_at
            &&& canonical_text(statement.policy_provider@)
            &&& canonical_text(statement.policy_evidence_id@)
            &&& is_digest(statement.policy_digest@)
        },
{
}

/// The bytes that are signed bind every part of a statement: two statements
/// with the same bytes say the same.
pub proof fn canonical_bytes_bind_every_part(
    a: &ApprovalStatement,
    b: &ApprovalStatement,
    left: Result<Vec<u8>, Error>,
    right: Result<Vec<u8>, Error>,
)
    requires
        call_ensures(canonical_bytes, (a,), left),
        call_ensures(canonical_bytes, (b,), right),
        left is Ok && right is Ok,
        left->Ok_0@ == right->Ok_0@,
    ensures
        a.plan_digest@ == b.plan_digest@,
        a.environment@ == b.environment@,
        a.purpose@ == b.purpose@,
        a.skip_gates == b.skip_gates,
        a.issued_at == b.issued_at,
        a.expires_at == b.expires_at,
        a.policy_provider@ == b.policy_provider@,
        a.policy_evidence_id@ == b.policy_evidence_id@,
        a.policy_digest@ == b.policy_digest@,
{
    lemma_signable(a@);
    lemma_signable(b@);
    signed_bytes_bind_the_statement(a@, b@);
}

proof fn lemma_signable(s: StatementModel)
    ensures
        statement_refusal(s) is None <==> valid_statement(s),
{
}

/// An approval authorizes a plan if and only if it is of the known schema, is
/// for this content, for where it is deployed and for how it is evaluated, the
/// time lies in its interval, the roots are sound and hold its key, its
/// statement can be signed, and the key accepts the signature of the statement.
/// The evidence says what was verified, and when.
pub proof fn authorized_plans(
    plan: &Plan,
    content: &[u8],
    envelope: &ApprovalEnvelope,
    roots: &TrustRoots,
    now: i64,
    skip_gates: bool,
    result: Result<VerificationEvidence, Error>,
)
    requires
        call_ensures(verify, (plan, content, envelope, roots, now, skip_gates), result),
    ensures
        result is Ok <==> {
            let statement = envelope.statement;
            let signer = signer_with(signer_models(roots.signers@), envelope.key_id@);
            &&& envelope.schema@ == "tenkai.plan-approval.v1"@
            &&& statement.plan_digest@ == prefixed_digest(content@)
            &&& statement.environment@ == plan.environment@
            &&& statement.skip_gates == skip_gates
            &&& statement.issued_at <= now < statement.expires_at
            &&& roots_refusal(
                "plan approval"@,
                roots.version,
                signer_models(roots.signers@),
            ) is None
            &&& signer is Some
            &&& base64_message(envelope.signature@) matches Some(signature) && signature.len() == 64
                && ed25519_accepts(
                base64_message(signer->0.public_key)->0,
                statement_bytes(statement@),
                signature,
            )
            &&& valid_statement(statement@)
        },
        result matches Ok(evidence) ==> {
            let statement = envelope.statement;
            &&& evidence.plan_id@ == plan.id@
            &&& evidence.plan_digest@ == prefixed_digest(content@)
            &&& evidence.environment@ == plan.environment@
            &&& evidence.signer_identity@ == signer_with(
                signer_models(roots.signers@),
                envelope.key_id@,
            )->0.identity
            &&& evidence.key_id@ == envelope.key_id@
            &&& evidence.policy_provider@ == statement.policy_provider@
            &&& evidence.policy_evidence_id@ == statement.policy_evidence_id@
            &&& evidence.policy_digest@ == statement.policy_digest@
            &&& evidence.issued_at == statement.issued_at
            &&& evidence.expires_at == statement.expires_at
            &&& evidence.verified_at == now
            &&& evidence.bypass_reason is None
        },
{
    lemma_signable(envelope.statement@);
}

/// Unapproved execution is admissible if and only if the environment is `local`
/// and a reason is given, and its evidence says so.
pub proof fn unapproved_execution(
    plan: &Plan,
    content: &[u8],
    reason: &str,
    now: i64,
    result: Result<VerificationEvidence, Error>,
)
    requires
        call_ensures(local_bypass, (plan, content, reason, now), result),
    ensures
        result is Ok <==> plan.environment@ == "local"@ && canonical_text(reason@),
        result matches Ok(evidence) ==> {
            &&& evidence.plan_id@ == plan.id@
            &&& evidence.plan_digest@ == prefixed_digest(content@)
            &&& evidence.environment@ == "local"@
            &&& evidence.key_id@.len() == 0
            &&& evidence.bypass_reason matches Some(said) && said@ == reason@
            &&& evidence.issued_at == now
            &&& evidence.expires_at == now
            &&& evidence.verified_at == now
        },
{
    reveal_strlit("");
}

/// Evidence is shown by its key, and by a word of its own where it has none.
pub proof fn evidence_is_shown_by_its_key(evidence: &VerificationEvidence, text: &str)
    requires
        call_ensures(VerificationEvidence::key_id_or_bypass, (evidence,), text),
    ensures
        evidence.key_id@.len() > 0 ==> text@ == evidence.key_id@,
        evidence.key_id@.len() == 0 ==> text@ == "development-bypass"@,
{
}

} // verus!
