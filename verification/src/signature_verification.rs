//! Recorded digests, trusted keys and strict signature checks.
use crate::crypto::{
    accepts, base64_decode, base64_message, digest_body_ok, digest_of, ed25519_accepts, ed25519_key,
    ed25519_weak, is_digest, is_digest_body, is_public_key, is_weak_key, prefixed_digest,
};
use crate::error::{first_refusal, refusal, refuse_unless, Error};
use crate::text::{begins_with, same, strip_prefix};
use vstd::prelude::*;

verus! {

/// Why a text is not a recorded digest.
pub open spec fn digest_refusal(name: Seq<char>, value: Seq<char>) -> Option<Seq<char>> {
    if !begins_with(value, "sha256:"@) {
        Some(name + " must use sha256:<hex>"@)
    } else if !is_digest_body(value.skip("sha256:"@.len() as int)) {
        Some(name + " must contain 64 lowercase hexadecimal characters"@)
    } else {
        None
    }
}

/// Admit `sha256:` followed by 64 lower-case hexadecimal digits.
pub fn validate_prefixed_digest(name: &str, value: &str) -> (result: Result<(), Error>)
    ensures
        refusal(result) == digest_refusal(name@, value@),
        result is Ok <==> is_digest(value@),
{
    match strip_prefix(value, "sha256:") {
        None => {
            let mut message = name.to_owned();
            message.append(" must use sha256:<hex>");
            Err(Error::new(message))
        },
        Some(body) => {
            if digest_body_ok(body) {
                Ok(())
            } else {
                let mut message = name.to_owned();
                message.append(" must contain 64 lowercase hexadecimal characters");
                Err(Error::new(message))
            }
        },
    }
}

/// What a trusted signer says.
pub struct SignerModel {
    pub key_id: Seq<char>,
    pub identity: Seq<char>,
    pub public_key: Seq<char>,
}

/// The first signer with a key id, where there is one.
pub open spec fn signer_with(signers: Seq<SignerModel>, key_id: Seq<char>) -> Option<SignerModel>
    decreases signers.len(),
{
    if signers.len() == 0 {
        None
    } else if signers[0].key_id == key_id {
        Some(signers[0])
    } else {
        signer_with(signers.drop_first(), key_id)
    }
}

/// A signer with no earlier one of its key id is the one that is found.
pub proof fn lemma_signer_with(signers: Seq<SignerModel>, key_id: Seq<char>, at: int)
    requires
        0 <= at <= signers.len(),
        at < signers.len() ==> signers[at].key_id == key_id,
        forall|k: int| 0 <= k < at ==> (#[trigger] signers[k]).key_id != key_id,
    ensures
        signer_with(signers, key_id) == (if at < signers.len() {
            Some(signers[at])
        } else {
            None
        }),
    decreases signers.len(),
{
    if signers.len() > 0 && at > 0 {
        assert(signers[0].key_id != key_id);
        assert forall|k: int| 0 <= k < at - 1 implies (#[trigger] signers.drop_first()[k]).key_id
            != key_id by {
            assert(signers.drop_first()[k] == signers[k + 1]);
        }
        lemma_signer_with(signers.drop_first(), key_id, at - 1);
    }
}

/// The identity of a public key: the recorded digest of its bytes.
pub fn key_id(public: &[u8]) -> (id: String)
    ensures
        id@ == prefixed_digest(public@),
        is_digest(id@),
{
    digest_of(public)
}

/// The bytes of a base64 text, where it stands for exactly `size` bytes.
pub open spec fn exact_bytes(value: Seq<char>, size: nat) -> Option<Seq<u8>> {
    match base64_message(value) {
        Some(bytes) => if bytes.len() == size {
            Some(bytes)
        } else {
            None
        },
        None => None,
    }
}

/// Why a base64 text does not stand for exactly `size` bytes.
pub open spec fn exact_refusal(
    name: Seq<char>,
    value: Seq<char>,
    size: nat,
    size_text: Seq<char>,
) -> Option<Seq<char>> {
    match base64_message(value) {
        None => Some("decoding "@ + name),
        Some(bytes) => refuse_unless(
            bytes.len() == size,
            name + " must decode to exactly "@ + size_text + " bytes"@,
        ),
    }
}

/// Decode the 32 bytes of a public key.
pub fn decode_key(name: &str, value: &str) -> (result: Result<[u8; 32], Error>)
    ensures
        refusal(result) == exact_refusal(name@, value@, 32, "32"@),
        result matches Ok(bytes) ==> base64_message(value@) == Some(bytes@),
        result is Ok <==> exact_bytes(value@, 32) is Some,
{
    match base64_decode(value) {
        None => {
            let mut message = "decoding ".to_owned();
            message.append(name);
            Err(Error::new(message))
        },
        Some(decoded) => {
            if decoded.len() != 32 {
                let mut message = name.to_owned();
                message.append(" must decode to exactly ");
                message.append("32");
                message.append(" bytes");
                return Err(Error::new(message));
            }
            let mut bytes: [u8; 32] = [0; 32];
            let mut i: usize = 0;
            while i < 32
                invariant
                    decoded@.len() == 32,
                    i <= 32,
                    forall|j: int| 0 <= j < i ==> bytes@[j] == decoded@[j],
                decreases 32 - i,
            {
                bytes[i] = decoded[i];
                i = i + 1;
            }
            assert(bytes@ =~= decoded@);
            Ok(bytes)
        },
    }
}

/// Decode the 64 bytes of a signature.
pub fn decode_signature(name: &str, value: &str) -> (result: Result<[u8; 64], Error>)
    ensures
        refusal(result) == exact_refusal(name@, value@, 64, "64"@),
        result matches Ok(bytes) ==> base64_message(value@) == Some(bytes@),
        result is Ok <==> exact_bytes(value@, 64) is Some,
{
    match base64_decode(value) {
        None => {
            let mut message = "decoding ".to_owned();
            message.append(name);
            Err(Error::new(message))
        },
        Some(decoded) => {
            if decoded.len() != 64 {
                let mut message = name.to_owned();
                message.append(" must decode to exactly ");
                message.append("64");
                message.append(" bytes");
                return Err(Error::new(message));
            }
            let mut bytes: [u8; 64] = [0; 64];
            let mut i: usize = 0;
            while i < 64
                invariant
                    decoded@.len() == 64,
                    i <= 64,
                    forall|j: int| 0 <= j < i ==> bytes@[j] == decoded@[j],
                decreases 64 - i,
            {
                bytes[i] = decoded[i];
                i = i + 1;
            }
            assert(bytes@ =~= decoded@);
            Ok(bytes)
        },
    }
}

/// A base64 text stands for a strong public key with the given identity.
pub open spec fn trusted_key_bytes(public_key: Seq<char>, key_id: Seq<char>) -> bool {
    match exact_bytes(public_key, 32) {
        Some(bytes) => ed25519_key(bytes) && !ed25519_weak(bytes) && prefixed_digest(bytes)
            == key_id,
        None => false,
    }
}

/// Why a base64 text is not a strong public key with the given identity.
pub open spec fn trusted_key_refusal(
    name: Seq<char>,
    public_key: Seq<char>,
    key_id: Seq<char>,
) -> Option<Seq<char>> {
    let bytes = base64_message(public_key)->0;
    first_refusal(
        exact_refusal(name, public_key, 32, "32"@),
        first_refusal(
            refuse_unless(ed25519_key(bytes), name + " is not a valid Ed25519 key"@),
            first_refusal(
                refuse_unless(!ed25519_weak(bytes), name + " is weak and cannot be trusted"@),
                refuse_unless(
                    prefixed_digest(bytes) == key_id,
                    name + " does not match its key id "@ + key_id,
                ),
            ),
        ),
    )
}

/// Decode a trusted public key and hold it to its identity.
pub fn trusted_key(name: &str, public_key: &str, id: &str) -> (result: Result<[u8; 32], Error>)
    ensures
        refusal(result) == trusted_key_refusal(name@, public_key@, id@),
        result is Ok <==> trusted_key_bytes(public_key@, id@),
        result matches Ok(bytes) ==> base64_message(public_key@) == Some(bytes@) && ed25519_key(
            bytes@,
        ),
{
    match decode_key(name, public_key) {
        Err(error) => Err(error),
        Ok(bytes) => {
            if !is_public_key(&bytes) {
                let mut message = name.to_owned();
                message.append(" is not a valid Ed25519 key");
                return Err(Error::new(message));
            }
            if is_weak_key(&bytes) {
                let mut message = name.to_owned();
                message.append(" is weak and cannot be trusted");
                return Err(Error::new(message));
            }
            let derived = key_id(bytes.as_slice());
            if !same(&derived, id) {
                let mut message = name.to_owned();
                message.append(" does not match its key id ");
                message.append(id);
                return Err(Error::new(message));
            }
            Ok(bytes)
        },
    }
}

/// A base64 signature of a message is accepted by a public key.
pub open spec fn signature_accepted(public: Seq<u8>, signature: Seq<char>, message: Seq<u8>) -> bool {
    match exact_bytes(signature, 64) {
        Some(bytes) => ed25519_accepts(public, message, bytes),
        None => false,
    }
}

/// Why a base64 signature of a message is not accepted.
pub open spec fn signature_refusal(
    public: Seq<u8>,
    name: Seq<char>,
    signature: Seq<char>,
    message: Seq<u8>,
) -> Option<Seq<char>> {
    first_refusal(
        exact_refusal(name, signature, 64, "64"@),
        refuse_unless(
            ed25519_accepts(public, message, base64_message(signature)->0),
            name + " verification failed"@,
        ),
    )
}

/// Check a base64 signature of a message under strict verification.
pub fn verify_strict(
    public: &[u8; 32],
    name: &str,
    signature: &str,
    message: &[u8],
) -> (result: Result<(), Error>)
    requires
        ed25519_key(public@),
    ensures
        refusal(result) == signature_refusal(public@, name@, signature@, message@),
        result is Ok <==> signature_accepted(public@, signature@, message@),
{
    match decode_signature(name, signature) {
        Err(error) => Err(error),
        Ok(bytes) => {
            if accepts(public, message, &bytes) {
                Ok(())
            } else {
                let mut text = name.to_owned();
                text.append(" verification failed");
                Err(Error::new(text))
            }
        },
    }
}

/// A text is a recorded digest if and only if it is `sha256:` followed by 64
/// lower-case hexadecimal digits.
pub proof fn digests_that_are_recorded(name: &str, value: &str, result: Result<(), Error>)
    requires
        call_ensures(validate_prefixed_digest, (name, value), result),
    ensures
        result is Ok <==> value@.len() == 71 && value@.take(7) == "sha256:"@ && forall|i: int|
            7 <= i < 71 ==> ('0' <= #[trigger] value@[i] <= '9' || 'a' <= value@[i] <= 'f'),
{
    reveal_strlit("sha256:");
    let body = value@.skip(7);
    if result is Ok {
        assert(value@.take(7) =~= "sha256:"@);
        assert forall|i: int| 7 <= i < 71 implies ('0' <= #[trigger] value@[i] <= '9' || 'a'
            <= value@[i] <= 'f') by {
            assert(body[i - 7] == value@[i]);
        }
    }
    if value@.len() == 71 && value@.take(7) == "sha256:"@ && forall|i: int|
        7 <= i < 71 ==> ('0' <= #[trigger] value@[i] <= '9' || 'a' <= value@[i] <= 'f') {
        assert(begins_with(value@, "sha256:"@));
        assert forall|i: int| 0 <= i < body.len() implies crate::crypto::is_lower_hex(
            #[trigger] body[i],
        ) by {
            assert(body[i] == value@[i + 7]);
        }
    }
}

/// A public key is trusted if and only if it decodes to the 32 bytes of a
/// strong key with the given identity, and it is those bytes.
pub proof fn keys_that_are_trusted(
    name: &str,
    public_key: &str,
    id: &str,
    result: Result<[u8; 32], Error>,
)
    requires
        call_ensures(trusted_key, (name, public_key, id), result),
    ensures
        result is Ok <==> (base64_message(public_key@) matches Some(bytes) && bytes.len() == 32
            && ed25519_key(bytes) && !ed25519_weak(bytes) && prefixed_digest(bytes) == id@),
        result matches Ok(bytes) ==> base64_message(public_key@) == Some(bytes@),
{
}

/// A signature passes if and only if it decodes to 64 bytes that the key accepts
/// for the message.
pub proof fn signatures_that_pass(
    public: &[u8; 32],
    name: &str,
    signature: &str,
    message: &[u8],
    result: Result<(), Error>,
)
    requires
        call_ensures(verify_strict, (public, name, signature, message), result),
    ensures
        result is Ok <==> (base64_message(signature@) matches Some(bytes) && bytes.len() == 64
            && ed25519_accepts(public@, message@, bytes)),
{
}

/// Keys and signatures decode if and only if their texts stand for exactly 32
/// and 64 bytes.
pub proof fn texts_that_decode(
    name: &str,
    value: &str,
    key: Result<[u8; 32], Error>,
    signature: Result<[u8; 64], Error>,
)
    requires
        call_ensures(decode_key, (name, value), key),
        call_ensures(decode_signature, (name, value), signature),
    ensures
        key is Ok <==> (base64_message(value@) matches Some(bytes) && bytes.len() == 32),
        signature is Ok <==> (base64_message(value@) matches Some(bytes) && bytes.len() == 64),
        key matches Ok(bytes) ==> base64_message(value@) == Some(bytes@),
        signature matches Ok(bytes) ==> base64_message(value@) == Some(bytes@),
{
}

} // verus!
