//! Digests, base64 and Ed25519 signatures.
use crate::text::{begins_with, chars_of};
use base64::engine::general_purpose::STANDARD;
use base64::Engine as _;
use ed25519_dalek::Signer as _;
use sha2::Digest as _;
use vstd::prelude::*;

verus! {

/// The SHA-256 digest of a message.
pub uninterp spec fn sha256(message: Seq<u8>) -> Seq<u8>;

/// Trusted: `sha2::Sha256::digest` returns the SHA-256 digest of a message,
/// which has 32 bytes.
#[verifier::external_body]
pub(crate) fn sha256_bytes(message: &[u8]) -> (digest: Vec<u8>)
    ensures
        digest@ == sha256(message@),
        digest@.len() == 32,
{
    sha2::Sha256::digest(message).to_vec()
}

/// The base64 text of a message in the standard alphabet with padding.
pub uninterp spec fn base64_text(message: Seq<u8>) -> Seq<char>;

/// The message that a base64 text stands for, where it is well formed.
pub uninterp spec fn base64_message(text: Seq<char>) -> Option<Seq<u8>>;

/// Trusted: `base64`'s `STANDARD.encode` depends on the message alone, and
/// `STANDARD.decode` gives the message back.
#[verifier::external_body]
pub(crate) fn base64_encode(message: &[u8]) -> (text: String)
    requires
        message@.len() <= 0x1000_0000,
    ensures
        text@ == base64_text(message@),
        base64_message(text@) == Some(message@),
{
    STANDARD.encode(message)
}

/// Trusted: `base64`'s `STANDARD.decode` depends on the text alone.
#[verifier::external_body]
pub(crate) fn base64_decode(text: &str) -> (message: Option<Vec<u8>>)
    ensures
        match message {
            Some(bytes) => base64_message(text@) == Some(bytes@),
            None => base64_message(text@) is None,
        },
{
    STANDARD.decode(text).ok()
}

/// The Ed25519 public key of a secret key.
pub uninterp spec fn ed25519_public(secret: Seq<u8>) -> Seq<u8>;

/// The Ed25519 signature of a message under a secret key.
pub uninterp spec fn ed25519_signature(secret: Seq<u8>, message: Seq<u8>) -> Seq<u8>;

/// The bytes are an Ed25519 public key.
pub uninterp spec fn ed25519_key(public: Seq<u8>) -> bool;

/// The public key is of small order.
pub uninterp spec fn ed25519_weak(public: Seq<u8>) -> bool;

/// A public key accepts a signature of a message under strict verification.
pub uninterp spec fn ed25519_accepts(
    public: Seq<u8>,
    message: Seq<u8>,
    signature: Seq<u8>,
) -> bool;

/// Trusted: `SigningKey::verifying_key` depends on the secret key alone and
/// has 32 bytes.
#[verifier::external_body]
fn public_of(secret: &[u8; 32]) -> (public: Vec<u8>)
    ensures
        public@ == ed25519_public(secret@),
        public@.len() == 32,
{
    ed25519_dalek::SigningKey::from_bytes(secret).verifying_key().to_bytes().to_vec()
}

/// Trusted: `SigningKey::sign` is deterministic in the secret key and the
/// message, and a signature has 64 bytes. That strict verification accepts
/// it is left unsaid: it does so unless the nonce is zero.
#[verifier::external_body]
fn sign_with(secret: &[u8; 32], message: &[u8]) -> (signature: Vec<u8>)
    ensures
        signature@ == ed25519_signature(secret@, message@),
        signature@.len() == 64,
{
    ed25519_dalek::SigningKey::from_bytes(secret).sign(message).to_bytes().to_vec()
}

/// Trusted: `VerifyingKey::from_bytes` succeeds depending on the bytes alone.
#[verifier::external_body]
pub(crate) fn is_public_key(public: &[u8; 32]) -> (answer: bool)
    ensures
        answer == ed25519_key(public@),
{
    ed25519_dalek::VerifyingKey::from_bytes(public).is_ok()
}

/// Trusted: `VerifyingKey::is_weak` depends on the key alone; bytes that are
/// no key are reported weak.
#[verifier::external_body]
pub(crate) fn is_weak_key(public: &[u8; 32]) -> (answer: bool)
    requires
        ed25519_key(public@),
    ensures
        answer == ed25519_weak(public@),
{
    ed25519_dalek::VerifyingKey::from_bytes(public).map_or(true, |key| key.is_weak())
}

/// Trusted: `VerifyingKey::verify_strict` answers depending on the key, the
/// message and the signature alone.
#[verifier::external_body]
pub(crate) fn accepts(public: &[u8; 32], message: &[u8], signature: &[u8; 64]) -> (answer: bool)
    requires
        ed25519_key(public@),
    ensures
        answer == ed25519_accepts(public@, message@, signature@),
{
    match ed25519_dalek::VerifyingKey::from_bytes(public) {
        Ok(key) => key.verify_strict(message, &ed25519_dalek::Signature::from_bytes(signature)).is_ok(),
        Err(_) => false,
    }
}

/// An Ed25519 secret key.
pub struct SigningKey {
    secret: [u8; 32],
}

impl View for SigningKey {
    type V = Seq<u8>;

    closed spec fn view(&self) -> Seq<u8> {
        self.secret@
    }
}

impl SigningKey {
    /// The key with the given secret bytes.
    pub fn from_bytes(secret: &[u8; 32]) -> (key: SigningKey)
        ensures
            key@ == secret@,
    {
        SigningKey { secret: *secret }
    }

    /// The bytes of the public key.
    pub fn public_key(&self) -> (public: Vec<u8>)
        ensures
            public@ == ed25519_public(self@),
            public@.len() == 32,
    {
        public_of(&self.secret)
    }

    /// Sign a message.
    pub fn sign(&self, message: &[u8]) -> (signature: Vec<u8>)
        ensures
            signature@ == ed25519_signature(self@, message@),
            signature@.len() == 64,
    {
        sign_with(&self.secret, message)
    }
}

/// A lower-case hexadecimal digit.
pub open spec fn hex_digit(value: int) -> char {
    if value < 10 {
        ('0' as u32 + value) as char
    } else {
        ('a' as u32 + value - 10) as char
    }
}

/// Bytes in lower-case hexadecimal, two digits each.
pub open spec fn hex(bytes: Seq<u8>) -> Seq<char>
    decreases bytes.len(),
{
    if bytes.len() == 0 {
        Seq::<char>::empty()
    } else {
        hex(bytes.drop_last()).push(hex_digit(bytes.last() as int / 16)).push(
            hex_digit(bytes.last() as int % 16),
        )
    }
}

/// The characters of lower-case hexadecimal.
pub open spec fn is_lower_hex(c: char) -> bool {
    '0' <= c <= '9' || 'a' <= c <= 'f'
}

fn hex_digit_char(value: u8) -> (c: char)
    requires
        value < 16,
    ensures
        c == hex_digit(value as int),
{
    if value < 10 {
        (48u8 + value) as char
    } else {
        (87u8 + value) as char
    }
}

/// Render bytes in lower-case hexadecimal.
pub fn hex_text(bytes: &[u8]) -> (text: String)
    ensures
        text@ == hex(bytes@),
{
    let mut text = String::new();
    let mut i: usize = 0;
    while i < bytes.len()
        invariant
            i <= bytes.len(),
            text@ == hex(bytes@.take(i as int)),
        decreases bytes.len() - i,
    {
        let byte = bytes[i];
        text.push(hex_digit_char(byte / 16));
        text.push(hex_digit_char(byte % 16));
        assert(bytes@.take(i + 1).drop_last() =~= bytes@.take(i as int));
        i = i + 1;
    }
    assert(bytes@.take(i as int) =~= bytes@);
    text
}

/// The SHA-256 digest of a message in hexadecimal.
pub open spec fn sha256_hex(message: Seq<u8>) -> Seq<char> {
    hex(sha256(message))
}

/// The digest of a message as it is recorded: `sha256:` and the hexadecimal
/// digest.
pub open spec fn prefixed_digest(message: Seq<u8>) -> Seq<char> {
    "sha256:"@ + sha256_hex(message)
}

/// The SHA-256 digest of a message in hexadecimal.
pub fn digest_hex(message: &[u8]) -> (text: String)
    ensures
        text@ == sha256_hex(message@),
        text@.len() == 64,
        forall|i: int| 0 <= i < 64 ==> is_lower_hex(#[trigger] text@[i]),
{
    let digest = sha256_bytes(message);
    proof {
        lemma_hex_shape(digest@);
    }
    hex_text(digest.as_slice())
}

/// The digest of a message with its `sha256:` prefix.
pub fn digest_of(message: &[u8]) -> (text: String)
    ensures
        text@ == prefixed_digest(message@),
        is_digest(text@),
{
    let mut text = "sha256:".to_owned();
    let hex = digest_hex(message);
    text.append(hex.as_str());
    proof {
        reveal_strlit("sha256:");
        assert(text@.take("sha256:"@.len() as int) =~= "sha256:"@);
        assert(text@.skip("sha256:"@.len() as int) =~= hex@);
    }
    text
}

/// Hexadecimal has two lower-case digits for each byte.
pub proof fn lemma_hex_shape(bytes: Seq<u8>)
    ensures
        hex(bytes).len() == 2 * bytes.len(),
        forall|i: int| 0 <= i < hex(bytes).len() ==> is_lower_hex(#[trigger] hex(bytes)[i]),
    decreases bytes.len(),
{
    if bytes.len() > 0 {
        lemma_hex_shape(bytes.drop_last());
        let before = hex(bytes.drop_last());
        let all = hex(bytes);
        assert forall|i: int| 0 <= i < all.len() implies is_lower_hex(#[trigger] all[i]) by {
            if i < before.len() {
                assert(all[i] == before[i]);
            }
        }
    }
}

/// A text is a recorded digest: `sha256:` and 64 lower-case hexadecimal
/// digits.
pub open spec fn is_digest(text: Seq<char>) -> bool {
    begins_with(text, "sha256:"@) && is_digest_body(text.skip("sha256:"@.len() as int))
}

/// The part of a recorded digest after its prefix.
pub open spec fn is_digest_body(text: Seq<char>) -> bool {
    text.len() == 64 && forall|i: int| 0 <= i < text.len() ==> is_lower_hex(#[trigger] text[i])
}

/// Tell whether a text is the body of a recorded digest.
pub fn digest_body_ok(text: &str) -> (answer: bool)
    ensures
        answer == is_digest_body(text@),
{
    let chars = chars_of(text);
    if chars.len() != 64 {
        return false;
    }
    let mut i: usize = 0;
    while i < chars.len()
        invariant
            chars@ == text@,
            i <= chars.len(),
            forall|j: int| 0 <= j < i ==> is_lower_hex(#[trigger] text@[j]),
        decreases chars.len() - i,
    {
        let c = chars[i];
        if !(('0' <= c && c <= '9') || ('a' <= c && c <= 'f')) {
            assert(!is_lower_hex(text@[i as int]));
            return false;
        }
        i = i + 1;
    }
    true
}

proof fn lemma_hex_digits(bytes: Seq<u8>, i: int)
    requires
        0 <= i < bytes.len(),
    ensures
        hex(bytes).len() == 2 * bytes.len(),
        hex(bytes)[2 * i] == hex_digit(bytes[i] as int / 16),
        hex(bytes)[2 * i + 1] == hex_digit(bytes[i] as int % 16),
    decreases bytes.len(),
{
    lemma_hex_shape(bytes);
    lemma_hex_shape(bytes.drop_last());
    if i < bytes.len() - 1 {
        lemma_hex_digits(bytes.drop_last(), i);
    }
}

/// The value of a lower-case hexadecimal digit.
pub open spec fn hex_value(c: char) -> int {
    if '0' <= c <= '9' {
        c as int - '0' as int
    } else {
        c as int - 'a' as int + 10
    }
}

/// Hexadecimal gives each byte by two digits, the higher first: they read back
/// as the byte.
pub proof fn hexadecimal_reads_back(bytes: &[u8], text: String, i: int)
    requires
        call_ensures(hex_text, (bytes,), text),
        0 <= i < bytes@.len(),
    ensures
        text@.len() == 2 * bytes@.len(),
        is_lower_hex(text@[2 * i]),
        is_lower_hex(text@[2 * i + 1]),
        hex_value(text@[2 * i]) * 16 + hex_value(text@[2 * i + 1]) == bytes@[i],
{
    lemma_hex_digits(bytes@, i);
    lemma_hex_shape(bytes@);
}

/// A digest is recorded behind the prefix that names its algorithm: of a
/// message of any length it has 71 characters.
pub proof fn recorded_digests(message: &[u8], plain: String, recorded: String)
    requires
        call_ensures(digest_hex, (message,), plain),
        call_ensures(digest_of, (message,), recorded),
    ensures
        recorded@ == "sha256:"@ + plain@,
        plain@.len() == 64,
        forall|i: int|
            0 <= i < 64 ==> ('0' <= #[trigger] plain@[i] <= '9' || 'a' <= plain@[i] <= 'f'),
{
}

/// The body of a digest is 64 lower-case hexadecimal digits.
pub proof fn digest_bodies(text: &str, answer: bool)
    requires
        call_ensures(digest_body_ok, (text,), answer),
    ensures
        answer <==> text@.len() == 64 && forall|i: int|
            0 <= i < 64 ==> ('0' <= #[trigger] text@[i] <= '9' || 'a' <= text@[i] <= 'f'),
{
}

} // verus!
