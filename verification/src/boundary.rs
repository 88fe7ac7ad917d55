//! The adapter for callers that speak in bytes and numbers: the hostname
//! arrives as bytes that claim to be UTF-8, and the result leaves as its
//! stable number.

use crate::osx;
use crate::platform;
use crate::platform::Backend;
use crate::result::ValidationResult;
use crate::windows;
use vstd::prelude::*;
use vstd::utf8::{encode_utf8, valid_utf8};

verus! {

/// `core::str::from_utf8` of std: the bytes as text, where they are valid
/// UTF-8, without copying them; nothing where they are not.
#[verifier::external_body]
fn text_of(bytes: &[u8]) -> (text: Option<&str>)
    ensures
        text is Some <==> valid_utf8(bytes@),
        text matches Some(t) ==> encode_utf8(t@) == bytes@,
{
    match core::str::from_utf8(bytes) {
        Ok(text) => Some(text),
        Err(_) => None,
    }
}

/// Decodes the bytes of a hostname. Bytes that are UTF-8 give the text they
/// encode, without a copy; any other bytes give `MalformedHostname`.
pub fn decode_hostname(hostname: &[u8]) -> (decoded: Result<&str, ValidationResult>)
    ensures
        decoded is Ok <==> valid_utf8(hostname@),
        decoded matches Ok(text) ==> encode_utf8(text@) == hostname@,
        decoded matches Err(result) ==> result == ValidationResult::MalformedHostname,
{
    match text_of(hostname) {
        Some(text) => Ok(text),
        None => Err(ValidationResult::MalformedHostname),
    }
}

/// The number that the boundary returns for these hostname bytes, given what
/// the backend concluded where it was asked.
pub open spec fn answer<A, W>(
    backend: Backend<A, W>,
    chain: &[&[u8]],
    hostname: Seq<u8>,
    code: u32,
) -> bool
    where
        A: Fn(osx::Request, &[&[u8]], &str) -> osx::Reply,
        W: Fn(windows::Request, &[&[u8]], &windows::Parameters) -> windows::Reply,
{
    if valid_utf8(hostname) {
        exists|text: &str, result: ValidationResult|
            {
                &&& encode_utf8(text@) == hostname
                &&& platform::concluded(backend, chain, text, result)
                &&& code == result.ordinal()
            }
    } else {
        code == ValidationResult::MalformedHostname.ordinal()
    }
}

/// Validates a chain for a hostname given as bytes, and returns the result as
/// its number.
///
/// `hostname` holds the bytes of the name without a closing zero. Where they
/// are not UTF-8 the answer is the number of `MalformedHostname`, and the
/// backend is not asked anything: nothing is required of it for such a name.
/// Otherwise the backend validates the chain for the decoded name, and what
/// it refuses unasked is refused here under the same number.
pub fn validate_cert_chain<A, W>(
    encoded_certs: &[&[u8]],
    hostname: &[u8],
    backend: Backend<A, W>,
) -> (code: u32)
    where
        A: Fn(osx::Request, &[&[u8]], &str) -> osx::Reply,
        W: Fn(windows::Request, &[&[u8]], &windows::Parameters) -> windows::Reply,
    requires
        forall|text: &str|
            encode_utf8(text@) == hostname@ ==> platform::callable(backend, encoded_certs, text),
    ensures
        answer(backend, encoded_certs, hostname@, code),
        1 <= code <= 8,
        !valid_utf8(hostname@) ==> code == 8,
        forall|text: Seq<char>|
            encode_utf8(text) == hostname@ ==> (#[trigger] platform::refusal(
                backend,
                encoded_certs,
                text,
            ) matches Some(refused) ==> code == refused.ordinal()),
{
    broadcast use {vstd::utf8::encode_utf8_decode_utf8, vstd::utf8::encode_utf8_valid_utf8};

    match decode_hostname(hostname) {
        Ok(text) => {
            let result = platform::validate_cert_chain(encoded_certs, text, backend);
            assert forall|other: Seq<char>| encode_utf8(other) == hostname@ implies other
                == text@ by {
                assert(vstd::utf8::decode_utf8(encode_utf8(other)) == other);
                assert(vstd::utf8::decode_utf8(encode_utf8(text@)) == text@);
            }
            result.code()
        },
        Err(result) => result.code(),
    }
}

} // verus!
