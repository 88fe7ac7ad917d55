//! Whole validations against a stand-in for the native facility. The stand-in
//! reads a toy certificate format, so that what it answers follows from the
//! chain and the hostname it is given, as a platform's answers do.

use certitude::osx;
use certitude::platform::Backend;
use certitude::validate_cert_chain;
use certitude::windows;
use certitude::ValidationResult;

const CERT_E_EXPIRED: u32 = 0x800B_0101;
const CERT_E_UNTRUSTEDROOT: u32 = 0x800B_0109;
const CERT_E_CN_NO_MATCH: u32 = 0x800B_010F;

/// A toy certificate: a sequence tag, the length of the rest, a validity
/// flag, then subject and issuer, each closed by a zero, then padding.
fn certificate(subject: &str, issuer: &str, expired: bool) -> Vec<u8> {
    let mut body: Vec<u8> = vec![if expired { 1 } else { 0 }];
    body.extend_from_slice(subject.as_bytes());
    body.push(0);
    body.extend_from_slice(issuer.as_bytes());
    body.push(0);
    while body.len() < 96 {
        body.push(0xA5);
    }
    let mut der: Vec<u8> = vec![0x30, body.len() as u8];
    der.extend_from_slice(&body);
    der
}

struct Parsed {
    expired: bool,
    subject: String,
    issuer: String,
}

fn parse(der: &[u8]) -> Option<Parsed> {
    if der.len() < 3 || der[0] != 0x30 || der[1] as usize != der.len() - 2 {
        return None;
    }
    let mut fields = der[3..].split(|b| *b == 0);
    let subject = String::from_utf8(fields.next()?.to_vec()).ok()?;
    let issuer = String::from_utf8(fields.next()?.to_vec()).ok()?;
    Some(Parsed { expired: der[2] == 1, subject, issuer })
}

/// What the stand-in's trust store makes of a chain: zero, or the reason for
/// which the chain is not good for the host.
fn policy_status(chain: &[&[u8]], hostname: &str) -> u32 {
    let mut issuer = String::new();
    for (position, der) in chain.iter().enumerate() {
        let parsed = match parse(der) {
            Some(parsed) => parsed,
            None => return CERT_E_UNTRUSTEDROOT,
        };
        if parsed.expired {
            return CERT_E_EXPIRED;
        }
        if position == 0 && parsed.subject != hostname {
            return CERT_E_CN_NO_MATCH;
        }
        if position > 0 && parsed.subject != issuer {
            return CERT_E_UNTRUSTEDROOT;
        }
        issuer = parsed.issuer;
    }
    if issuer == "Trusted Root" {
        0
    } else {
        CERT_E_UNTRUSTEDROOT
    }
}

fn windows_facility(
    request: windows::Request,
    chain: &[&[u8]],
    parameters: &windows::Parameters,
) -> windows::Reply {
    match request {
        windows::Request::OpenStore => windows::Reply::StoreOpened(
            parameters.store_provider == 2 && parameters.store_flags == 4,
        ),
        windows::Request::AddCertificate { index } => {
            windows::Reply::CertificateAdded(parse(chain[index]).is_some())
        }
        windows::Request::BuildChain => windows::Reply::ChainBuilt {
            built: parameters.usage_match == 1 && parameters.usage.len() == 3,
            present: true,
        },
        windows::Request::VerifyPolicy => {
            let units = &parameters.server_name;
            assert_eq!(units.last(), Some(&0u16));
            let hostname = String::from_utf16(&units[..units.len() - 1]).unwrap();
            windows::Reply::PolicyVerified {
                invoked: parameters.authentication == 2 && parameters.checks == 0,
                status: policy_status(chain, &hostname),
            }
        }
        windows::Request::FreeChain
        | windows::Request::FreeLeaf
        | windows::Request::CloseStore => windows::Reply::Released,
        windows::Request::Done(_) => unreachable!(),
    }
}

fn apple_facility(request: osx::Request, chain: &[&[u8]], hostname: &str) -> osx::Reply {
    match request {
        // This parser is lazy: it takes any bytes and finds faults on evaluation.
        osx::Request::ParseCertificate { index } => osx::Reply::Parsed(!chain[index].is_empty()),
        osx::Request::CreatePolicy => osx::Reply::PolicyCreated(true),
        osx::Request::CreateTrust => osx::Reply::TrustCreated(true),
        osx::Request::Evaluate => {
            if policy_status(chain, hostname) == 0 {
                osx::Reply::Evaluated(Some(osx::TrustVerdict::Unspecified))
            } else {
                osx::Reply::Evaluated(Some(osx::TrustVerdict::RecoverableTrustFailure))
            }
        }
        osx::Request::Done(_) => unreachable!(),
    }
}

type AppleFacility = fn(osx::Request, &[&[u8]], &str) -> osx::Reply;
type WindowsFacility = fn(windows::Request, &[&[u8]], &windows::Parameters) -> windows::Reply;

fn on_apple() -> Backend<AppleFacility, WindowsFacility> {
    Backend::Apple(apple_facility)
}

fn on_windows() -> Backend<AppleFacility, WindowsFacility> {
    Backend::Windows(windows_facility)
}

fn certifi_chain() -> Vec<Vec<u8>> {
    vec![
        certificate("certifi.io", "First Intermediate", false),
        certificate("First Intermediate", "Second Intermediate", false),
        certificate("Second Intermediate", "Trusted Root", false),
    ]
}

fn expired_chain() -> Vec<Vec<u8>> {
    vec![
        certificate("expired.badssl.com", "First Intermediate", true),
        certificate("First Intermediate", "Second Intermediate", false),
        certificate("Second Intermediate", "Trusted Root", false),
    ]
}

fn self_signed_chain() -> Vec<Vec<u8>> {
    vec![certificate("self-signed.badssl.com", "self-signed.badssl.com", false)]
}

fn borrowed(chain: &[Vec<u8>]) -> Vec<&[u8]> {
    chain.iter().map(|der| der.as_slice()).collect()
}

/// The chain with its leaf deliberately truncated.
fn truncated<'a>(good_chain: &'a [Vec<u8>]) -> Vec<&'a [u8]> {
    let (leaf, intermediates) = good_chain.split_first().unwrap();
    let mut certs: Vec<&[u8]> = vec![&leaf[1..50]];
    certs.extend(intermediates.iter().map(|der| der.as_slice()));
    certs
}

#[test]
fn lib_can_validate_good_chain() {
    let owned = certifi_chain();
    let chain = borrowed(&owned);
    let valid = validate_cert_chain(&chain, "certifi.io", on_windows());
    assert_eq!(valid, ValidationResult::Trusted);
    let valid = validate_cert_chain(&chain, "certifi.io", on_apple());
    assert_eq!(valid, ValidationResult::Trusted);
}

#[test]
fn lib_fails_on_bad_hostname() {
    let owned = certifi_chain();
    let chain = borrowed(&owned);
    let valid = validate_cert_chain(&chain, "lukasa.co.uk", on_windows());
    assert_eq!(valid, ValidationResult::NotTrusted);
    let valid = validate_cert_chain(&chain, "lukasa.co.uk", on_apple());
    assert_eq!(valid, ValidationResult::NotTrusted);
}

#[test]
fn lib_fails_on_bad_cert() {
    let owned = certifi_chain();
    let certs = truncated(&owned);
    let valid = validate_cert_chain(&certs, "certifi.io", on_apple());
    assert_eq!(valid, ValidationResult::NotTrusted);
    let valid = validate_cert_chain(&certs, "certifi.io", on_windows());
    assert_eq!(valid, ValidationResult::MalformedCertificateInChain);
}

#[test]
fn lib_fails_on_expired_cert() {
    let owned = expired_chain();
    let chain = borrowed(&owned);
    let valid = validate_cert_chain(&chain, "expired.badssl.com", on_windows());
    assert_eq!(valid, ValidationResult::NotTrusted);
    let valid = validate_cert_chain(&chain, "expired.badssl.com", on_apple());
    assert_eq!(valid, ValidationResult::NotTrusted);
}

#[test]
fn lib_test_fails_on_self_signed() {
    let owned = self_signed_chain();
    let chain = borrowed(&owned);
    let valid = validate_cert_chain(&chain, "self-signed.badssl.com", on_windows());
    assert_eq!(valid, ValidationResult::NotTrusted);
    let valid = validate_cert_chain(&chain, "self-signed.badssl.com", on_apple());
    assert_eq!(valid, ValidationResult::NotTrusted);
}

#[test]
fn osx_can_validate_good_chain() {
    let owned = certifi_chain();
    let chain = borrowed(&owned);
    let valid = osx::validate_cert_chain(&chain, "certifi.io", apple_facility);
    assert_eq!(valid, ValidationResult::Trusted);
}

#[test]
fn osx_fails_on_bad_hostname() {
    let owned = certifi_chain();
    let chain = borrowed(&owned);
    let valid = osx::validate_cert_chain(&chain, "lukasa.co.uk", apple_facility);
    assert_eq!(valid, ValidationResult::NotTrusted);
}

#[test]
fn osx_fails_on_bad_cert() {
    let owned = certifi_chain();
    let certs = truncated(&owned);
    let valid = osx::validate_cert_chain(&certs, "certifi.io", apple_facility);
    assert_eq!(valid, ValidationResult::NotTrusted);
}

#[test]
fn osx_fails_on_expired_cert() {
    let owned = expired_chain();
    let chain = borrowed(&owned);
    let valid = osx::validate_cert_chain(&chain, "expired.badssl.com", apple_facility);
    assert_eq!(valid, ValidationResult::NotTrusted);
}

#[test]
fn osx_test_fails_on_self_signed() {
    let owned = self_signed_chain();
    let chain = borrowed(&owned);
    let valid = osx::validate_cert_chain(&chain, "self-signed.badssl.com", apple_facility);
    assert_eq!(valid, ValidationResult::NotTrusted);
}

#[test]
fn windows_can_validate_good_chain() {
    let owned = certifi_chain();
    let chain = borrowed(&owned);
    let valid = windows::validate_cert_chain(&chain, "certifi.io", windows_facility);
    assert_eq!(valid, ValidationResult::Trusted);
}

#[test]
fn windows_fails_on_bad_hostname() {
    let owned = certifi_chain();
    let chain = borrowed(&owned);
    let valid = windows::validate_cert_chain(&chain, "lukasa.co.uk", windows_facility);
    assert_eq!(valid, ValidationResult::NotTrusted);
}

#[test]
fn windows_fails_on_bad_cert() {
    let owned = certifi_chain();
    let certs = truncated(&owned);
    let valid = windows::validate_cert_chain(&certs, "certifi.io", windows_facility);
    assert_eq!(valid, ValidationResult::MalformedCertificateInChain);
}

#[test]
fn windows_fails_on_expired_cert() {
    let owned = expired_chain();
    let chain = borrowed(&owned);
    let valid = windows::validate_cert_chain(&chain, "expired.badssl.com", windows_facility);
    assert_eq!(valid, ValidationResult::NotTrusted);
}

#[test]
fn windows_test_fails_on_self_signed() {
    let owned = self_signed_chain();
    let chain = borrowed(&owned);
    let valid = windows::validate_cert_chain(&chain, "self-signed.badssl.com", windows_facility);
    assert_eq!(valid, ValidationResult::NotTrusted);
}

#[test]
fn asking_twice_gives_the_same_result() {
    let owned = certifi_chain();
    let chain = borrowed(&owned);
    for hostname in ["certifi.io", "lukasa.co.uk"] {
        let first = validate_cert_chain(&chain, hostname, on_windows());
        let second = validate_cert_chain(&chain, hostname, on_windows());
        assert_eq!(first, second);
        let first = validate_cert_chain(&chain, hostname, on_apple());
        let second = validate_cert_chain(&chain, hostname, on_apple());
        assert_eq!(first, second);
    }
}

#[test]
fn an_international_hostname_reaches_the_policy_step_whole() {
    let owned = vec![certificate("bücher.example", "Trusted Root", false)];
    let chain = borrowed(&owned);
    let valid = windows::validate_cert_chain(&chain, "bücher.example", windows_facility);
    assert_eq!(valid, ValidationResult::Trusted);
    let valid = windows::validate_cert_chain(&chain, "bucher.example", windows_facility);
    assert_eq!(valid, ValidationResult::NotTrusted);
}
