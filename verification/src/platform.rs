//! The choice of the backend. Exactly one native facility belongs to a
//! platform; the call is handed to it unchanged, and so is its result.

use crate::osx;
use crate::result::ValidationResult;
use crate::windows;
use vstd::prelude::*;

verus! {

/// The native facility of the platform that the program runs on.
pub enum Backend<A, W> {
    /// Apple's Security trust facility.
    Apple(A),
    /// The Windows chain facility.
    Windows(W),
}

/// The chosen facility can be asked every request that a conversation about
/// this chain and hostname can make.
pub open spec fn callable<A, W>(backend: Backend<A, W>, chain: &[&[u8]], hostname: &str) -> bool
    where
        A: Fn(osx::Request, &[&[u8]], &str) -> osx::Reply,
        W: Fn(windows::Request, &[&[u8]], &windows::Parameters) -> windows::Reply,
{
    match backend {
        Backend::Apple(facility) => osx::callable(facility, chain, hostname),
        Backend::Windows(facility) => windows::callable(facility, chain, hostname),
    }
}

/// The result that the chosen backend fixes before its facility is asked
/// anything; `None` where the facility is asked.
pub open spec fn refusal<A, W>(
    backend: Backend<A, W>,
    chain: &[&[u8]],
    hostname: Seq<char>,
) -> Option<ValidationResult> {
    match backend {
        Backend::Apple(_) => osx::refusal(chain),
        Backend::Windows(_) => windows::refusal(chain, hostname),
    }
}

/// `result` is what the chosen backend's conversation about this chain and
/// hostname ended in.
pub open spec fn concluded<A, W>(
    backend: Backend<A, W>,
    chain: &[&[u8]],
    hostname: &str,
    result: ValidationResult,
) -> bool
    where
        A: Fn(osx::Request, &[&[u8]], &str) -> osx::Reply,
        W: Fn(windows::Request, &[&[u8]], &windows::Parameters) -> windows::Reply,
{
    match backend {
        Backend::Apple(facility) => osx::concluded(facility, chain, hostname, result),
        Backend::Windows(facility) => windows::concluded(facility, chain, hostname, result),
    }
}

/// Validate a chain of certificates.
///
/// Given a chain of DER-encoded X.509 certificates and the hostname that is
/// being contacted, says whether the platform considers the chain valid for
/// the connection. The certificates are in order of specificity: the leaf
/// first, then each intermediate. The order of the intermediates may not
/// matter to the platform; that the leaf comes first does.
///
/// Nothing is added to what the backend does: its result is the result.
pub fn validate_cert_chain<A, W>(
    encoded_certs: &[&[u8]],
    hostname: &str,
    backend: Backend<A, W>,
) -> (result: ValidationResult)
    where
        A: Fn(osx::Request, &[&[u8]], &str) -> osx::Reply,
        W: Fn(windows::Request, &[&[u8]], &windows::Parameters) -> windows::Reply,
    requires
        callable(backend, encoded_certs, hostname),
    ensures
        concluded(backend, encoded_certs, hostname, result),
        refusal(backend, encoded_certs, hostname@) matches Some(refused) ==> result == refused,
{
    match backend {
        Backend::Apple(facility) => osx::validate_cert_chain(encoded_certs, hostname, facility),
        Backend::Windows(facility) => windows::validate_cert_chain(
            encoded_certs,
            hostname,
            facility,
        ),
    }
}

} // verus!
