//! The closed set of outcomes of one validation attempt, and the number that
//! stands for each of them across a foreign boundary.

use vstd::prelude::*;

verus! {

/// Possible results from attempting to validate a certificate chain.
///
/// Only `Trusted` says that the chain may be used. `NotTrusted` is a definite
/// rejection of a chain that could be evaluated; every other variant says that
/// the question could not be put to the platform at all.
#[derive(Clone, Copy, PartialEq, Eq, Structural, Debug)]
pub enum ValidationResult {
    /// The chain is valid for the hostname under the platform's trust policy.
    Trusted,
    /// The chain was evaluable but rejected.
    NotTrusted,
    /// The native facility did not accept the bytes of a certificate.
    MalformedCertificateInChain,
    /// A native trust object could not be made from otherwise valid inputs.
    UnableToBuildTrustStore,
    /// Any other native failure while evaluating trust.
    ErrorDuringValidation,
    /// The platform lacks the module or policy support that is needed.
    MissingFunctionality,
    /// The platform wants the user to authenticate before it goes on.
    UserAuthenticationRequired,
    /// The hostname is not valid text for the platform's policy object.
    MalformedHostname,
}

impl ValidationResult {
    /// The stable number of a variant: one to eight, in the order of declaration.
    pub open spec fn ordinal(self) -> u32 {
        match self {
            ValidationResult::Trusted => 1,
            ValidationResult::NotTrusted => 2,
            ValidationResult::MalformedCertificateInChain => 3,
            ValidationResult::UnableToBuildTrustStore => 4,
            ValidationResult::ErrorDuringValidation => 5,
            ValidationResult::MissingFunctionality => 6,
            ValidationResult::UserAuthenticationRequired => 7,
            ValidationResult::MalformedHostname => 8,
        }
    }

    /// The variant that a number stands for, if it stands for one.
    pub open spec fn of_ordinal(code: u32) -> Option<ValidationResult> {
        if code == 1 {
            Some(ValidationResult::Trusted)
        } else if code == 2 {
            Some(ValidationResult::NotTrusted)
        } else if code == 3 {
            Some(ValidationResult::MalformedCertificateInChain)
        } else if code == 4 {
            Some(ValidationResult::UnableToBuildTrustStore)
        } else if code == 5 {
            Some(ValidationResult::ErrorDuringValidation)
        } else if code == 6 {
            Some(ValidationResult::MissingFunctionality)
        } else if code == 7 {
            Some(ValidationResult::UserAuthenticationRequired)
        } else if code == 8 {
            Some(ValidationResult::MalformedHostname)
        } else {
            None
        }
    }

    /// The number that carries this result across a foreign boundary.
    pub fn code(&self) -> (code: u32)
        ensures
            code == self.ordinal(),
            1 <= code <= 8,
    {
        match self {
            ValidationResult::Trusted => 1,
            ValidationResult::NotTrusted => 2,
            ValidationResult::MalformedCertificateInChain => 3,
            ValidationResult::UnableToBuildTrustStore => 4,
            ValidationResult::ErrorDuringValidation => 5,
            ValidationResult::MissingFunctionality => 6,
            ValidationResult::UserAuthenticationRequired => 7,
            ValidationResult::MalformedHostname => 8,
        }
    }

    /// Reads a number back into the result it stands for.
    pub fn from_code(code: u32) -> (result: Option<ValidationResult>)
        ensures
            result == ValidationResult::of_ordinal(code),
            result is Some <==> 1 <= code <= 8,
    {
        match code {
            1 => Some(ValidationResult::Trusted),
            2 => Some(ValidationResult::NotTrusted),
            3 => Some(ValidationResult::MalformedCertificateInChain),
            4 => Some(ValidationResult::UnableToBuildTrustStore),
            5 => Some(ValidationResult::ErrorDuringValidation),
            6 => Some(ValidationResult::MissingFunctionality),
            7 => Some(ValidationResult::UserAuthenticationRequired),
            8 => Some(ValidationResult::MalformedHostname),
            _ => None,
        }
    }
}

/// Two different results never share a number.
pub proof fn ordinals_are_distinct(a: ValidationResult, b: ValidationResult)
    requires
        a != b,
    ensures
        a.ordinal() != b.ordinal(),
{
}

/// The numbers in use are exactly one to eight: each result has one of them,
/// each of them has a result, and reading a number back gives the result it
/// came from.
pub proof fn ordinals_are_contiguous(result: ValidationResult, code: u32)
    ensures
        1 <= result.ordinal() <= 8,
        ValidationResult::of_ordinal(result.ordinal()) == Some(result),
        1 <= code <= 8 ==> ValidationResult::of_ordinal(code) is Some
            && ValidationResult::of_ordinal(code)->0.ordinal() == code,
        !(1 <= code <= 8) ==> ValidationResult::of_ordinal(code) is None,
{
}

} // verus!
