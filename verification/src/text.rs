//! From the bytes of a card to text: UTF-8 for what is text, base64 for the
//! photo.

use vstd::prelude::*;
use vstd::string::*;
use vstd::utf8::*;

verus! {

/// `core::str::Utf8Error`, the error of `core::str::from_utf8`: carried
/// through, never looked into.
#[verifier::external_type_specification]
#[verifier::external_body]
pub struct ExUtf8Error(core::str::Utf8Error);

/// `core::str::from_utf8`, taken on trust: it succeeds exactly on valid
/// UTF-8, and the string slice it gives has the bytes it was given.
pub assume_specification[ core::str::from_utf8 ](v: &[u8]) -> (res: Result<
    &str,
    core::str::Utf8Error,
>)
    ensures
        res is Ok <==> valid_utf8(v@),
        res matches Ok(s) ==> s.spec_bytes() == v@,
;

/// The text that `bytes` spell in UTF-8, if they are valid UTF-8.
pub fn utf8_text(bytes: &[u8]) -> (text: Option<String>)
    ensures
        text is Some <==> valid_utf8(bytes@),
        text matches Some(t) ==> t@ == decode_utf8(bytes@),
{
    match core::str::from_utf8(bytes) {
        Ok(s) => {
            proof {
                encode_utf8_decode_utf8(s@);
            }
            Some(s.to_owned())
        },
        Err(_) => None,
    }
}

/// The base64 text of `bytes`: standard alphabet, padded with `=`.
pub uninterp spec fn base64_text(bytes: Seq<u8>) -> Seq<char>;

/// Whether the base64 text of `len` bytes has a length that the machine can
/// count.
pub open spec fn base64_fits(len: nat) -> bool {
    len / 3 * 4 + 4 <= usize::MAX
}

/// `base64::encode`, taken on trust: it returns the standard padded base64
/// text of its input. It panics where the length of that text overflows
/// `usize`, which `requires` excludes.
#[verifier::external_body]
fn base64_encode(bytes: &[u8]) -> (text: String)
    requires
        base64_fits(bytes@.len()),
    ensures
        text@ == base64_text(bytes@),
{
    base64::encode(bytes)
}

/// The base64 text of `bytes`, unless it would be too long to count.
pub fn photo_text(bytes: &[u8]) -> (text: Option<String>)
    ensures
        text is Some <==> base64_fits(bytes@.len()),
        text matches Some(t) ==> t@ == base64_text(bytes@),
{
    if bytes.len() / 3 <= (usize::MAX - 4) / 4 {
        Some(base64_encode(bytes))
    } else {
        None
    }
}

} // verus!
