use base64::engine::general_purpose::STANDARD;
use base64::Engine as _;
use tenkai::crypto::SigningKey;
use tenkai::plan::convergence::{new_plan, normalized_steps};
use tenkai::plan::Plan;
use tenkai::plan_approval::{
    canonical_bytes, local_bypass, record, verify, ApprovalEnvelope, ApprovalStatement,
    APPROVAL_SCHEMA, PURPOSE,
};
use tenkai::signature_verification::{
    decode_key, decode_signature, key_id, trusted_key, validate_prefixed_digest, verify_strict,
};
use tenkai::trust::{TrustRoots, TrustedSigner, TRUST_ROOT_VERSION};

fn base64(bytes: &[u8]) -> String {
    STANDARD.encode(bytes)
}

fn statement() -> ApprovalStatement {
    ApprovalStatement {
        plan_digest: format!("sha256:{}", "a".repeat(64)),
        environment: "prod".into(),
        purpose: PURPOSE.into(),
        skip_gates: false,
        issued_at: 10,
        expires_at: 20,
        policy_provider: "builtin".into(),
        policy_evidence_id: "decision-1".into(),
        policy_digest: format!("sha256:{}", "b".repeat(64)),
    }
}

#[test]
fn canonical_approval_is_stable_and_content_bound() {
    let original = canonical_bytes(&statement()).unwrap();
    let mut altered = statement();
    altered.environment = "staging".into();
    assert_ne!(original, canonical_bytes(&altered).unwrap());
    let mut altered = statement();
    altered.plan_digest = format!("sha256:{}", "c".repeat(64));
    assert_ne!(original, canonical_bytes(&altered).unwrap());
}

#[test]
fn signature_rejects_changed_statement() {
    let key = SigningKey::from_bytes(&[7; 32]);
    let signature = base64(&key.sign(&canonical_bytes(&statement()).unwrap()));
    let mut changed = statement();
    changed.expires_at += 1;
    let public: [u8; 32] = key.public_key().try_into().unwrap();
    verify_strict(
        &public,
        "approval signature",
        &signature,
        &canonical_bytes(&statement()).unwrap(),
    )
    .unwrap();
    assert!(verify_strict(
        &public,
        "approval signature",
        &signature,
        &canonical_bytes(&changed).unwrap()
    )
    .is_err());
}

#[test]
fn malformed_scope_and_expiry_are_rejected() {
    let mut invalid = statement();
    invalid.purpose = "anything".into();
    assert!(canonical_bytes(&invalid).is_err());
    let mut invalid = statement();
    invalid.expires_at = invalid.issued_at;
    assert!(canonical_bytes(&invalid).is_err());
}

fn signing_key() -> SigningKey {
    SigningKey::from_bytes(&[9; 32])
}

fn roots() -> TrustRoots {
    let public = signing_key().public_key();
    TrustRoots {
        version: TRUST_ROOT_VERSION,
        signers: vec![TrustedSigner {
            key_id: key_id(&public),
            identity: "release-manager".into(),
            public_key: base64(&public),
        }],
    }
}

const CONTENT: &[u8] = b"the executable content of the plan";

fn plan() -> Plan {
    new_plan("prod", 5, Vec::new(), &normalized_steps(&Vec::new()), CONTENT, None)
}

fn approval(change: fn(&mut ApprovalStatement)) -> ApprovalEnvelope {
    let mut statement = statement();
    statement.plan_digest = tenkai::crypto::digest_of(CONTENT);
    change(&mut statement);
    let signature = base64(&signing_key().sign(&canonical_bytes(&statement).unwrap()));
    ApprovalEnvelope {
        schema: APPROVAL_SCHEMA.into(),
        key_id: key_id(&signing_key().public_key()),
        statement,
        signature,
    }
}

#[test]
fn signed_approval_authorizes_the_plan_it_names() {
    let evidence = verify(&plan(), CONTENT, &approval(|_| {}), &roots(), 15, false).unwrap();
    assert_eq!(evidence.signer_identity, "release-manager");
    assert_eq!(evidence.plan_id, plan().id);
    assert_eq!(evidence.verified_at, 15);
    assert_eq!(evidence.key_id_or_bypass(), key_id(&signing_key().public_key()));
    let object = record(&evidence, "{}");
    assert_eq!(object.kind, "tenkai.plan_approval_verification");
    assert_eq!(object.created, 15);
}

#[test]
fn approvals_do_not_carry_over() {
    let refused = |content: &[u8], envelope: ApprovalEnvelope, now: i64, skip: bool| {
        verify(&plan(), content, &envelope, &roots(), now, skip).unwrap_err().to_string()
    };
    let texts = [
        refused(b"other content", approval(|_| {}), 15, false),
        refused(CONTENT, approval(|s| s.environment = "staging".into()), 15, false),
        refused(CONTENT, approval(|_| {}), 9, false),
        refused(CONTENT, approval(|_| {}), 20, false),
        refused(CONTENT, approval(|_| {}), 15, true),
        refused(CONTENT, approval(|s| s.skip_gates = true), 15, false),
    ];
    for (i, text) in texts.iter().enumerate() {
        assert!(!text.is_empty(), "{i}");
    }
    let mut unsigned = approval(|_| {});
    unsigned.signature = approval(|s| s.issued_at = 11).signature;
    assert!(!refused(CONTENT, unsigned, 15, false).is_empty());
    let mut unknown = approval(|_| {});
    unknown.key_id = "ed25519:unknown".into();
    assert!(!refused(CONTENT, unknown, 15, false).is_empty());
    let mut foreign = approval(|_| {});
    foreign.schema = "tenkai.plan-approval.v0".into();
    assert!(!refused(CONTENT, foreign, 15, false).is_empty());
}

#[test]
fn a_bypass_needs_a_reason() {
    let local = new_plan("local", 5, Vec::new(), &Vec::new(), CONTENT, None);
    let evidence = local_bypass(&local, CONTENT, "drill", 15).unwrap();
    assert_eq!(evidence.bypass_reason.as_deref(), Some("drill"));
    assert_eq!(evidence.plan_digest, tenkai::crypto::digest_of(CONTENT));
    assert!(local_bypass(&local, CONTENT, " ", 15).is_err());
    assert!(local_bypass(&plan(), CONTENT, "drill", 15)
        .unwrap_err()
        .to_string()
        .contains("built-in local environment"));
}

#[test]
fn trust_roots_name_distinct_strong_keys() {
    roots().validate("plan approval").unwrap();
    assert!(roots().signer("nobody").is_none());
    assert_eq!(
        roots().signer(&key_id(&signing_key().public_key())).unwrap().identity,
        "release-manager"
    );
    let mut wrong = roots();
    wrong.version = 2;
    assert!(wrong.validate("plan approval").is_err());
    wrong = roots();
    wrong.signers[0].key_id = "ed25519:other".into();
    assert!(wrong.validate("plan approval").is_err());
    wrong = roots();
    wrong.signers[0].identity = " ".into();
    assert!(wrong.validate("plan approval").is_err());
    wrong = roots();
    let again = roots().signers.pop().unwrap();
    wrong.signers.push(again);
    assert!(wrong.validate("plan approval").is_err());
    let weak = [0u8; 32];
    assert!(trusted_key("key", &base64(&weak), &key_id(&weak)).is_err());
}

#[test]
fn keys_and_signatures_have_fixed_lengths() {
    assert_eq!(decode_key("key", &base64(&[3; 32])), Ok([3; 32]));
    assert!(decode_key("key", &base64(&[3; 31])).is_err());
    assert!(decode_key("key", "not base64!").is_err());
    assert_eq!(decode_signature("signature", &base64(&[4; 64])), Ok([4; 64]));
    assert!(decode_signature("signature", &base64(&[4; 63])).is_err());
    validate_prefixed_digest("d", &format!("sha256:{}", "0f".repeat(32))).unwrap();
    assert!(validate_prefixed_digest("d", &format!("sha256:{}", "0F".repeat(32))).is_err());
    assert!(validate_prefixed_digest("d", &"0f".repeat(32)).is_err());
}

#[test]
fn signatures_are_deterministic_ed25519() {
    let key = SigningKey::from_bytes(&[
        0x9d, 0x61, 0xb1, 0x9d, 0xef, 0xfd, 0x5a, 0x60, 0xba, 0x84, 0x4a, 0xf4, 0x92, 0xec, 0x2c,
        0xc4, 0x44, 0x49, 0xc5, 0x69, 0x7b, 0x32, 0x69, 0x19, 0x70, 0x3b, 0xac, 0x03, 0x1c, 0xae,
        0x7f, 0x60,
    ]);
    let hex = |bytes: &[u8]| tenkai::crypto::hex_text(bytes);
    assert_eq!(
        hex(&key.public_key()),
        "d75a980182b10ab7d54bfed3c964073a0ee172f3daa62325af021a68f707511a"
    );
    assert_eq!(
        hex(&key.sign(b"")),
        "e5564300c360ac729086e2cc806e828a84877f1eb8e5d974d873e065224901555fb8821590a33bacc61e39701cf9b46bd25bf5f0595bbe24655141438e7a100b"
    );
}
