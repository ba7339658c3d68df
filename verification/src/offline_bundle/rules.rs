//! Rules on the texts and paths that bundles and receipts hold.
use crate::error::{first_refusal, refusal, refuse_unless, Error};
use crate::framing::utf8;
use crate::paths::{is_normal_path, normal_path};
use crate::text::{chars_of, contains_char, control, quote, quoted, same, trimmed};
use vstd::prelude::*;

verus! {

pub const BUNDLE_SCHEMA: &'static str = "tenkai.offline-bundle.v1";

pub const RECEIPT_SCHEMA: &'static str = "tenkai.offline-receipt.v1";

pub const MAX_ARCHIVE_BYTES: u64 = 268_435_456;

pub const MAX_ENTRY_BYTES: u64 = 67_108_864;

pub const MAX_ENTRIES: usize = 1024;

/// A text in canonical form: not empty, without white space at either end or
/// control characters anywhere, and of limited length in bytes.
pub open spec fn canonical_text(value: Seq<char>, max: nat) -> bool {
    &&& value.len() > 0
    &&& value == trimmed(value)
    &&& utf8(value).len() <= max
    &&& forall|i: int| 0 <= i < value.len() ==> !control(#[trigger] value[i])
}

/// Why a text is not in canonical form.
pub open spec fn text_refusal(name: Seq<char>, value: Seq<char>, max: nat) -> Option<Seq<char>> {
    refuse_unless(
        canonical_text(value, max),
        name + " is empty, non-canonical, contains control characters, or is too long"@,
    )
}

fn has_control(value: &str) -> (answer: bool)
    ensures
        answer == !(forall|i: int| 0 <= i < value@.len() ==> !control(#[trigger] value@[i])),
{
    let chars = chars_of(value);
    let mut i: usize = 0;
    while i < chars.len()
        invariant
            chars@ == value@,
            i <= chars.len(),
            forall|k: int| 0 <= k < i ==> !control(#[trigger] value@[k]),
        decreases chars.len() - i,
    {
        if chars[i].is_control() {
            assert(control(value@[i as int]));
            return true;
        }
        i = i + 1;
    }
    false
}

/// Accept a text in canonical form.
pub fn validate_text(name: &str, value: &str, max: usize) -> (result: Result<(), Error>)
    ensures
        refusal(result) == text_refusal(name@, value@, max as nat),
{
    if value.is_empty() || !same(value, value.trim()) || value.as_bytes().len() > max
        || has_control(value) {
        let mut message = name.to_owned();
        message.append(" is empty, non-canonical, contains control characters, or is too long");
        return Err(Error::new(message));
    }
    Ok(())
}

/// A path below its directory, with forward slashes only.
pub open spec fn relative_path(path: Seq<char>) -> bool {
    normal_path(path) && !path.contains('\\')
}

/// Why a text is not the path of a bundle entry.
pub open spec fn path_refusal(path: Seq<char>) -> Option<Seq<char>> {
    first_refusal(
        text_refusal("bundle entry path"@, path, 512),
        refuse_unless(
            relative_path(path),
            "bundle entry path "@ + quoted(path) + " is not a canonical relative path"@,
        ),
    )
}

/// Accept the path of a bundle entry.
pub fn validate_path(path: &str) -> (result: Result<(), Error>)
    ensures
        refusal(result) == path_refusal(path@),
{
    match validate_text("bundle entry path", path, 512) {
        Err(error) => return Err(error),
        Ok(_) => {},
    }
    if !is_normal_path(path) || contains_char(path, '\\') {
        let mut message = "bundle entry path ".to_owned();
        message.append(quote(path).as_str());
        message.append(" is not a canonical relative path");
        return Err(Error::new(message));
    }
    Ok(())
}

/// How many bytes an encoded bundle may have: those of the largest archive in
/// base64, and four mebibytes for the rest.
pub open spec fn encoded_limit() -> int {
    MAX_ARCHIVE_BYTES * 4 / 3 + 4 * 1024 * 1024
}

/// Check the size of an encoded bundle before it is read.
pub fn check_encoded_size(size: u64) -> (result: Result<(), Error>)
    ensures
        refusal(result) == refuse_unless(
            size <= encoded_limit(),
            "offline bundle exceeds the encoded archive byte limit"@,
        ),
{
    if size > MAX_ARCHIVE_BYTES * 4 / 3 + 4 * 1024 * 1024 {
        return Err(Error::fixed("offline bundle exceeds the encoded archive byte limit"));
    }
    Ok(())
}

/// A text is in canonical form if and only if it says something, has no white
/// space at either end, no control character, and few enough bytes.
pub proof fn canonical_texts(name: &str, value: &str, max: usize, result: Result<(), Error>)
    requires
        call_ensures(validate_text, (name, value, max), result),
    ensures
        result is Ok <==> value@.len() > 0 && trimmed(value@) == value@ && utf8(value@).len() <= max
            && forall|i: int| 0 <= i < value@.len() ==> !control(#[trigger] value@[i]),
{
}

/// The path of an entry is a canonical text of at most 512 bytes that stays
/// below its directory and has no backslash.
pub proof fn entry_paths(path: &str, result: Result<(), Error>)
    requires
        call_ensures(validate_path, (path,), result),
    ensures
        result is Ok <==> canonical_text(path@, 512) && normal_path(path@) && forall|i: int|
            0 <= i < path@.len() ==> #[trigger] path@[i] != '\\',
{
    if path@.contains('\\') {
        let i = choose|i: int| 0 <= i < path@.len() && path@[i] == '\\';
        assert(path@[i] == '\\');
    }
}

/// An encoded bundle may have the bytes of 256 mebibytes in base64 and four
/// mebibytes more.
pub proof fn encoded_sizes(size: u64, result: Result<(), Error>)
    requires
        call_ensures(check_encoded_size, (size,), result),
    ensures
        result is Ok <==> 3 * (size - 4 * 1024 * 1024) <= 4 * 256 * 1024 * 1024,
{
}

} // verus!
