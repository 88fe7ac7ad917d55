//! Certificate-chain validation that leaves the trust decision to the host's
//! native trust facility.
//!
//! The crate holds the protocol: which native request comes next, what each
//! answer means, which handles are held and in what order they are given back,
//! and which [`ValidationResult`] the conversation ends in. The native requests
//! themselves are made by a facility that the embedding hands in.

pub mod boundary;
pub mod osx;
pub mod platform;
pub mod result;
pub mod windows;

pub use platform::validate_cert_chain;
pub use result::ValidationResult;
