//! The conversation with the Windows chain facility.
//!
//! Four native steps are taken in a fixed order: open an in-memory store, add
//! the certificates to it (keeping the context of the leaf), build a chain from
//! the leaf, and check the chain against the SSL policy for the hostname. Each
//! step can fail, and each failure has its own result. Whatever was acquired is
//! given back before the result is reported: the chain first, then the leaf's
//! context, then the store.
//!
//! The facility takes the hostname as zero-terminated text and the length of
//! a certificate as a number of 32 bits. A hostname with a zero character in
//! it and a certificate longer than that are therefore refused before the
//! facility is asked anything.

use crate::result::ValidationResult;
use vstd::prelude::*;
use vstd::utf8::encode_utf8;

verus! {

/// What the facility is asked to do next.
#[derive(Clone, Copy, PartialEq, Eq, Structural, Debug)]
pub enum Request {
    /// Open an in-memory store whose closing waits for the last handle made from it.
    OpenStore,
    /// Add the certificate at `index` to the store; keep its context if it is the leaf.
    AddCertificate { index: usize },
    /// Build a chain from the leaf's context, searching the store.
    BuildChain,
    /// Check the built chain against the SSL server policy for the hostname.
    VerifyPolicy,
    /// Give the chain context back.
    FreeChain,
    /// Give the leaf's certificate context back.
    FreeLeaf,
    /// Close the store.
    CloseStore,
    /// Nothing more to ask: this is the result.
    Done(ValidationResult),
}

/// What the facility answered.
#[derive(Clone, Copy, PartialEq, Eq, Structural, Debug)]
pub enum Reply {
    /// Whether a store handle came back.
    StoreOpened(bool),
    /// Whether the store accepted the encoded certificate.
    CertificateAdded(bool),
    /// Whether the build call succeeded, and whether it left a chain context.
    ChainBuilt { built: bool, present: bool },
    /// Whether the policy call itself succeeded, and the status it reported.
    PolicyVerified { invoked: bool, status: u32 },
    /// A handle was given back.
    Released,
}

/// The values that the store, build and policy steps hand to the facility.
pub struct Parameters {
    /// The kind of store to open: 2, a store in memory, which takes no
    /// further parameter and is neither a system store nor persisted.
    pub store_provider: u32,
    /// How the store is opened: 4, its closing waits until the last handle
    /// made from it is given back.
    pub store_flags: u32,
    /// How the usage identifiers are matched: 1, any one of them suffices.
    pub usage_match: u32,
    /// The acceptable enhanced key usages, each as zero-terminated text.
    pub usage: Vec<Vec<u8>>,
    /// The side whose certificate is checked: 2, the server.
    pub authentication: u32,
    /// The checks to leave out: 0, none.
    pub checks: u32,
    /// The hostname in UTF-16, closed by the only zero in it.
    pub server_name: Vec<u16>,
}

/// The UTF-16 code units of one character.
pub open spec fn wide_units(c: char) -> Seq<u16> {
    let scalar = c as u32;
    if scalar < 0x10000 {
        seq![scalar as u16]
    } else {
        seq![
            (0xD800 + (scalar - 0x10000) / 0x400) as u16,
            (0xDC00 + (scalar - 0x10000) % 0x400) as u16,
        ]
    }
}

/// The UTF-16 encoding of a text.
pub open spec fn wide(text: Seq<char>) -> Seq<u16>
    decreases text.len(),
{
    if text.len() == 0 {
        Seq::empty()
    } else {
        wide(text.drop_last()) + wide_units(text.last())
    }
}

/// A text as the bytes of a zero-terminated string.
pub open spec fn terminated(text: Seq<char>) -> Seq<u8> {
    encode_utf8(text).push(0u8)
}

impl Parameters {
    /// The parameters that belong to a hostname. A hostname with a zero
    /// character in it has none: as zero-terminated text it would read as
    /// another name.
    pub open spec fn describes(&self, hostname: Seq<char>) -> bool {
        &&& !hostname.contains('\0')
        &&& self.store_provider == 2
        &&& self.store_flags == 4
        &&& self.usage_match == 1
        &&& self.usage@.len() == 3
        &&& self.usage@[0]@ == terminated("1.3.6.1.5.5.7.3.1"@)
        &&& self.usage@[1]@ == terminated("1.3.6.1.4.1.311.10.3.3"@)
        &&& self.usage@[2]@ == terminated("2.16.840.1.113730.4.1"@)
        &&& self.authentication == 2
        &&& self.checks == 0
        &&& self.server_name@ == wide(hostname).push(0u16)
    }
}

/// An identifier as zero-terminated bytes.
fn terminate(text: &str) -> (bytes: Vec<u8>)
    ensures
        bytes@ == terminated(text@),
{
    let mut bytes = text.as_bytes_vec();
    bytes.push(0u8);
    bytes
}

/// The usages that a chain may be built for: server authentication, and the
/// two older gated-cryptography usages that certificates in the field still
/// carry.
pub fn usage_identifiers() -> (usage: Vec<Vec<u8>>)
    ensures
        usage@.len() == 3,
        usage@[0]@ == terminated("1.3.6.1.5.5.7.3.1"@),
        usage@[1]@ == terminated("1.3.6.1.4.1.311.10.3.3"@),
        usage@[2]@ == terminated("2.16.840.1.113730.4.1"@),
{
    let mut usage: Vec<Vec<u8>> = Vec::new();
    usage.push(terminate("1.3.6.1.5.5.7.3.1"));
    usage.push(terminate("1.3.6.1.4.1.311.10.3.3"));
    usage.push(terminate("2.16.840.1.113730.4.1"));
    usage
}

/// The hostname as the policy step wants it: UTF-16 with a closing zero.
/// A hostname with a zero character in it has no such form, since the text
/// would end at that zero.
///
/// The characters are fetched by position, which is slow on long texts and
/// of no account on a hostname.
pub fn server_name(hostname: &str) -> (name: Option<Vec<u16>>)
    ensures
        name is None <==> hostname@.contains('\0'),
        name matches Some(units) ==> units@ == wide(hostname@).push(0u16),
{
    broadcast use vstd::utf8::char_is_scalar;

    let len = hostname.unicode_len();
    let mut units: Vec<u16> = Vec::new();
    let mut i: usize = 0;
    while i < len
        invariant
            i <= len,
            len == hostname@.len(),
            units@ == wide(hostname@.take(i as int)),
            forall|j: int| 0 <= j < i ==> hostname@[j] != '\0',
        decreases len - i,
    {
        let c = hostname.get_char(i);
        if c == '\0' {
            return None;
        }
        let scalar = c as u32;
        let ghost before = units@;
        if scalar < 0x10000 {
            units.push(scalar as u16);
        } else {
            assert(scalar <= 0x10FFFF);
            units.push((0xD800 + (scalar - 0x10000) / 0x400) as u16);
            units.push((0xDC00 + (scalar - 0x10000) % 0x400) as u16);
        }
        proof {
            let taken = hostname@.take(i + 1);
            assert(taken.drop_last() =~= hostname@.take(i as int));
            assert(taken.last() == c);
            assert(units@ =~= before + wide_units(c));
        }
        i += 1;
    }
    assert(hostname@.take(len as int) =~= hostname@);
    units.push(0u16);
    Some(units)
}

/// Everything the store, build and policy steps are parameterised with.
///
/// A hostname with a zero character in it has no parameters.
pub fn parameters(hostname: &str) -> (parameters: Option<Parameters>)
    ensures
        parameters is None <==> hostname@.contains('\0'),
        parameters matches Some(p) ==> p.describes(hostname@),
{
    match server_name(hostname) {
        Some(server_name) => Some(
            Parameters {
                store_provider: 2,
                store_flags: 4,
                usage_match: 1,
                usage: usage_identifiers(),
                authentication: 2,
                checks: 0,
                server_name,
            },
        ),
        None => None,
    }
}

/// What one answer decides: `Some` result where the request failed or the
/// policy step spoke, `None` where the conversation goes on with the next
/// request. An answer of the wrong kind counts as a failure of the
/// validation. Giving a handle back decides nothing.
pub open spec fn step_result(request: Request, reply: Reply) -> Option<ValidationResult> {
    match request {
        Request::OpenStore => match reply {
            Reply::StoreOpened(true) => None,
            _ => Some(ValidationResult::ErrorDuringValidation),
        },
        Request::AddCertificate { .. } => match reply {
            Reply::CertificateAdded(true) => None,
            Reply::CertificateAdded(false) => Some(ValidationResult::MalformedCertificateInChain),
            _ => Some(ValidationResult::ErrorDuringValidation),
        },
        Request::BuildChain => match reply {
            Reply::ChainBuilt { built: true, present: true } => None,
            Reply::ChainBuilt { built: false, .. } => Some(ValidationResult::NotTrusted),
            _ => Some(ValidationResult::ErrorDuringValidation),
        },
        Request::VerifyPolicy => match reply {
            Reply::PolicyVerified { invoked: true, status } => Some(
                if status == 0 {
                    ValidationResult::Trusted
                } else {
                    ValidationResult::NotTrusted
                },
            ),
            _ => Some(ValidationResult::ErrorDuringValidation),
        },
        _ => None,
    }
}

/// Where a conversation stands: the request that is out, the handles that are
/// held, and the result that waits for the handles to be given back.
#[derive(Clone, Copy, PartialEq, Eq, Structural, Debug)]
pub struct Session {
    /// The number of certificates in the chain.
    pub chain_len: usize,
    /// The request that the facility is to answer next.
    pub request: Request,
    /// The store is open.
    pub store: bool,
    /// The leaf's certificate context is held.
    pub leaf: bool,
    /// The chain context is held.
    pub chain: bool,
    /// The result that is reported once nothing is held.
    pub verdict: ValidationResult,
}

impl Session {
    /// The first state: an empty chain is refused before anything is asked,
    /// any other chain begins with opening the store.
    pub open spec fn start(chain_len: usize) -> Session {
        Session {
            chain_len,
            request: if chain_len == 0 {
                Request::Done(ValidationResult::MalformedCertificateInChain)
            } else {
                Request::OpenStore
            },
            store: false,
            leaf: false,
            chain: false,
            verdict: ValidationResult::MalformedCertificateInChain,
        }
    }

    /// The result is decided: ask for the innermost handle that is still held,
    /// or report the result if none is.
    pub open spec fn settle(self, verdict: ValidationResult) -> Session {
        Session {
            request: if self.chain {
                Request::FreeChain
            } else if self.leaf {
                Request::FreeLeaf
            } else if self.store {
                Request::CloseStore
            } else {
                Request::Done(verdict)
            },
            verdict,
            ..self
        }
    }

    /// The request succeeded: the handle it made is held, and the next native
    /// step is asked for.
    pub open spec fn proceed(self) -> Session {
        match self.request {
            Request::OpenStore => Session {
                store: true,
                request: Request::AddCertificate { index: 0 },
                ..self
            },
            Request::AddCertificate { index } => Session {
                leaf: self.leaf || index == 0,
                request: if index + 1 < self.chain_len {
                    Request::AddCertificate { index: (index + 1) as usize }
                } else {
                    Request::BuildChain
                },
                ..self
            },
            Request::BuildChain => Session { chain: true, request: Request::VerifyPolicy, ..self },
            _ => self,
        }
    }

    /// The state after the facility answered the request that was out: a
    /// native step either decides the result or leads to the next step, a
    /// handle that was asked back is no longer held, and a result stands.
    pub open spec fn next(self, reply: Reply) -> Session {
        match self.request {
            Request::FreeChain => Session { chain: false, ..self }.settle(self.verdict),
            Request::FreeLeaf => Session { leaf: false, ..self }.settle(self.verdict),
            Request::CloseStore => Session { store: false, ..self }.settle(self.verdict),
            Request::Done(_) => self,
            _ => match step_result(self.request, reply) {
                Some(verdict) => self.settle(verdict),
                None => self.proceed(),
            },
        }
    }

    /// What holds of every state that a conversation passes through. A handle
    /// is held only while the one it was made from is held; a handle is given
    /// back only when nothing made from it is held; a result is reported only
    /// when nothing is held.
    pub open spec fn wf(self) -> bool {
        &&& self.leaf ==> self.store
        &&& self.chain ==> self.leaf
        &&& match self.request {
            Request::OpenStore => !self.store && self.chain_len > 0,
            Request::AddCertificate { index } => index < self.chain_len && self.store
                && !self.chain && (self.leaf <==> index > 0),
            Request::BuildChain => self.leaf && !self.chain,
            Request::VerifyPolicy => self.chain,
            Request::FreeChain => self.chain,
            Request::FreeLeaf => self.leaf && !self.chain,
            Request::CloseStore => self.store && !self.leaf,
            Request::Done(verdict) => !self.store && verdict == self.verdict,
        }
    }

    /// An upper bound on the number of requests still to come.
    pub open spec fn remaining(self) -> nat {
        match self.request {
            Request::OpenStore => (self.chain_len + 6) as nat,
            Request::AddCertificate { index } => (self.chain_len - index + 5) as nat,
            Request::BuildChain => 5,
            Request::VerifyPolicy => 4,
            Request::FreeChain => 3,
            Request::FreeLeaf => 2,
            Request::CloseStore => 1,
            Request::Done(_) => 0,
        }
    }

    /// Begins a conversation about a chain of `chain_len` certificates.
    pub fn begin(chain_len: usize) -> (session: Session)
        ensures
            session == Session::start(chain_len),
            session.wf(),
    {
        Session {
            chain_len,
            request: if chain_len == 0 {
                Request::Done(ValidationResult::MalformedCertificateInChain)
            } else {
                Request::OpenStore
            },
            store: false,
            leaf: false,
            chain: false,
            verdict: ValidationResult::MalformedCertificateInChain,
        }
    }

    fn settled(self, verdict: ValidationResult) -> (session: Session)
        ensures
            session == self.settle(verdict),
    {
        let request = if self.chain {
            Request::FreeChain
        } else if self.leaf {
            Request::FreeLeaf
        } else if self.store {
            Request::CloseStore
        } else {
            Request::Done(verdict)
        };
        Session { request, verdict, ..self }
    }

    /// Takes the facility's answer to the request that was out and says what
    /// to ask next. Every state is answered; a state that a conversation can
    /// reach leads to another such state, and one request nearer to the end.
    pub fn advance(self, reply: Reply) -> (session: Session)
        ensures
            session == self.next(reply),
            self.wf() ==> session.wf(),
            self.wf() && !(self.request is Done) ==> session.remaining() < self.remaining(),
    {
        match self.request {
            Request::OpenStore => match reply {
                Reply::StoreOpened(true) => Session {
                    store: true,
                    request: Request::AddCertificate { index: 0 },
                    ..self
                },
                _ => self.settled(ValidationResult::ErrorDuringValidation),
            },
            Request::AddCertificate { index } => match reply {
                Reply::CertificateAdded(true) => {
                    let request = if index < self.chain_len && index + 1 < self.chain_len {
                        Request::AddCertificate { index: index + 1 }
                    } else {
                        Request::BuildChain
                    };
                    Session { leaf: self.leaf || index == 0, request, ..self }
                },
                Reply::CertificateAdded(false) => self.settled(
                    ValidationResult::MalformedCertificateInChain,
                ),
                _ => self.settled(ValidationResult::ErrorDuringValidation),
            },
            Request::BuildChain => match reply {
                Reply::ChainBuilt { built: true, present: true } => Session {
                    chain: true,
                    request: Request::VerifyPolicy,
                    ..self
                },
                Reply::ChainBuilt { built: false, .. } => self.settled(
                    ValidationResult::NotTrusted,
                ),
                _ => self.settled(ValidationResult::ErrorDuringValidation),
            },
            Request::VerifyPolicy => match reply {
                Reply::PolicyVerified { invoked: true, status } => {
                    if status == 0 {
                        self.settled(ValidationResult::Trusted)
                    } else {
                        self.settled(ValidationResult::NotTrusted)
                    }
                },
                _ => self.settled(ValidationResult::ErrorDuringValidation),
            },
            Request::FreeChain => Session { chain: false, ..self }.settled(self.verdict),
            Request::FreeLeaf => Session { leaf: false, ..self }.settled(self.verdict),
            Request::CloseStore => Session { store: false, ..self }.settled(self.verdict),
            Request::Done(_) => self,
        }
    }
}

/// The state that a conversation is in after the facility gave `replies`, one
/// for each request in turn.
pub open spec fn run(chain_len: usize, replies: Seq<Reply>) -> Session
    decreases replies.len(),
{
    if replies.len() == 0 {
        Session::start(chain_len)
    } else {
        run(chain_len, replies.drop_last()).next(replies.last())
    }
}

/// `replies` is a conversation with `facility`: each reply is one that the
/// facility may give to the request that was out at that point, and no reply
/// was asked for after the result was known.
pub open spec fn conducted<F: Fn(Request, &[&[u8]], &Parameters) -> Reply>(
    facility: F,
    chain: &[&[u8]],
    parameters: &Parameters,
    replies: Seq<Reply>,
) -> bool {
    forall|i: int|
        0 <= i < replies.len() ==> {
            &&& !(run(chain@.len() as usize, #[trigger] replies.take(i)).request is Done)
            &&& call_ensures(
                facility,
                (run(chain@.len() as usize, replies.take(i)).request, chain, parameters),
                replies[i],
            )
        }
}

/// A request that a conversation about a chain of `chain_len` certificates
/// can make of the facility: any but `Done`, and an addition only of a
/// certificate that the chain has.
pub open spec fn askable(request: Request, chain_len: nat) -> bool {
    match request {
        Request::AddCertificate { index } => index < chain_len,
        Request::Done(_) => false,
        _ => true,
    }
}

/// The facility can be asked every request that a conversation about this
/// chain and hostname can make.
pub open spec fn callable<F: Fn(Request, &[&[u8]], &Parameters) -> Reply>(
    facility: F,
    chain: &[&[u8]],
    hostname: &str,
) -> bool {
    forall|request: Request, parameters: &Parameters|
        askable(request, chain@.len()) && parameters.describes(hostname@) ==> #[trigger] call_requires(
            facility,
            (request, chain, parameters),
        )
}

/// The longest certificate that the facility can be handed: its length is
/// passed as a number of 32 bits.
pub const LONGEST_CERTIFICATE: usize = 0xFFFF_FFFF;

/// Some certificate of the chain is longer than the facility can be handed.
pub open spec fn oversized(chain: &[&[u8]]) -> bool {
    exists|i: int| 0 <= i < chain@.len() && (#[trigger] chain@[i])@.len() > LONGEST_CERTIFICATE
}

/// The result that is fixed before the facility is asked anything: a hostname
/// with a zero character in it is malformed, whatever the chain; a chain that
/// is empty, or that holds a certificate too long to hand over, is malformed.
/// `None` where the facility is asked.
pub open spec fn refusal(chain: &[&[u8]], hostname: Seq<char>) -> Option<ValidationResult> {
    if hostname.contains('\0') {
        Some(ValidationResult::MalformedHostname)
    } else if chain@.len() == 0 || oversized(chain) {
        Some(ValidationResult::MalformedCertificateInChain)
    } else {
        None
    }
}

/// `result` is what the validation of this chain for this hostname ended in:
/// the refusal, where the inputs are refused, and else what a whole
/// conversation with `facility` ended in.
pub open spec fn concluded<F: Fn(Request, &[&[u8]], &Parameters) -> Reply>(
    facility: F,
    chain: &[&[u8]],
    hostname: &str,
    result: ValidationResult,
) -> bool {
    match refusal(chain, hostname@) {
        Some(refused) => result == refused,
        None => exists|parameters: Parameters, replies: Seq<Reply>|
            {
                &&& parameters.describes(hostname@)
                &&& conducted(facility, chain, &parameters, replies)
                &&& run(chain@.len() as usize, replies).request == Request::Done(result)
            },
    }
}

/// Whether every certificate of the chain can be handed to the facility.
fn every_certificate_fits(chain: &[&[u8]]) -> (fits: bool)
    ensures
        fits == !oversized(chain),
{
    let mut i: usize = 0;
    while i < chain.len()
        invariant
            i <= chain@.len(),
            forall|j: int| 0 <= j < i ==> (#[trigger] chain@[j])@.len() <= LONGEST_CERTIFICATE,
        decreases chain@.len() - i,
    {
        if chain[i].len() > LONGEST_CERTIFICATE {
            return false;
        }
        i += 1;
    }
    true
}

/// Validates a chain of DER-encoded certificates, leaf first, for a hostname.
///
/// `facility` performs one native request and reports its outcome; it is given
/// the request, the chain the request speaks of, and the parameters of the
/// store, build and policy steps.
///
/// A hostname with a zero character in it is refused as malformed, and so is
/// a chain that is empty or holds a certificate of more than
/// `LONGEST_CERTIFICATE` bytes: the facility is then asked nothing. Otherwise
/// the function asks the requests in order, stops asking for native work at
/// the first failure, has every handle given back, and returns the result
/// that the conversation ended in.
pub fn validate_cert_chain<F: Fn(Request, &[&[u8]], &Parameters) -> Reply>(
    encoded_certs: &[&[u8]],
    hostname: &str,
    facility: F,
) -> (result: ValidationResult)
    requires
        callable(facility, encoded_certs, hostname),
    ensures
        concluded(facility, encoded_certs, hostname, result),
        hostname@.contains('\0') ==> result == ValidationResult::MalformedHostname,
        !hostname@.contains('\0') && (encoded_certs@.len() == 0 || oversized(encoded_certs))
            ==> result == ValidationResult::MalformedCertificateInChain,
{
    let parameters = match parameters(hostname) {
        Some(parameters) => parameters,
        None => {
            return ValidationResult::MalformedHostname;
        },
    };
    if !every_certificate_fits(encoded_certs) {
        return ValidationResult::MalformedCertificateInChain;
    }
    let chain_len = encoded_certs.len();
    let mut session = Session::begin(chain_len);
    let ghost mut replies: Seq<Reply> = Seq::empty();
    loop
        invariant
            chain_len == encoded_certs@.len(),
            parameters.describes(hostname@),
            !oversized(encoded_certs),
            callable(facility, encoded_certs, hostname),
            session == run(chain_len, replies),
            session.chain_len == chain_len,
            session.wf(),
            conducted(facility, encoded_certs, &parameters, replies),
            chain_len == 0 ==> session.request == Request::Done(
                ValidationResult::MalformedCertificateInChain,
            ),
        decreases session.remaining(),
    {
        match session.request {
            Request::Done(result) => {
                return result;
            },
            request => {
                let reply = facility(request, encoded_certs, &parameters);
                let ghost before = replies;
                session = session.advance(reply);
                proof {
                    replies = before.push(reply);
                    assert(replies.drop_last() =~= before);
                    assert(replies.last() == reply);
                    assert forall|i: int| 0 <= i < replies.len() implies {
                        &&& !(run(chain_len, #[trigger] replies.take(i)).request is Done)
                        &&& call_ensures(
                            facility,
                            (run(chain_len, replies.take(i)).request, encoded_certs, &parameters),
                            replies[i],
                        )
                    } by {
                        if i < before.len() {
                            assert(replies.take(i) =~= before.take(i));
                            assert(replies[i] == before[i]);
                        } else {
                            assert(replies.take(i) =~= before);
                        }
                    }
                }
            },
        }
    }
}

/// No leak and no double release: after any answers whatever, a handle is held
/// only while the one it was made from is held, a handle is asked back only
/// when nothing made from it is held, and once the result is reported nothing
/// is held at all.
pub proof fn handles_are_given_back(chain_len: usize, replies: Seq<Reply>)
    ensures
        run(chain_len, replies).wf(),
        run(chain_len, replies).request is Done ==> {
            &&& !run(chain_len, replies).store
            &&& !run(chain_len, replies).leaf
            &&& !run(chain_len, replies).chain
        },
    decreases replies.len(),
{
    if replies.len() > 0 {
        handles_are_given_back(chain_len, replies.drop_last());
    }
}

/// Every conversation ends: a chain of `chain_len` certificates takes at most
/// `chain_len + 6` requests before the result is reported.
pub proof fn conversation_ends(chain_len: usize, replies: Seq<Reply>)
    ensures
        run(chain_len, replies).request is Done || run(chain_len, replies).remaining()
            + replies.len() <= chain_len + 6,
        replies.len() >= chain_len + 6 ==> run(chain_len, replies).request is Done,
    decreases replies.len(),
{
    if replies.len() > 0 {
        handles_are_given_back(chain_len, replies.drop_last());
        conversation_ends(chain_len, replies.drop_last());
    }
}

/// The policy step approved: it was invoked and reported status zero.
pub open spec fn approved(replies: Seq<Reply>) -> bool {
    exists|k: int|
        0 <= k < replies.len() && #[trigger] replies[k] == (Reply::PolicyVerified {
            invoked: true,
            status: 0,
        })
}

/// `Trusted` is never reported unless the facility's policy step approved the
/// chain for the hostname.
pub proof fn trusted_only_when_approved(chain_len: usize, replies: Seq<Reply>)
    ensures
        run(chain_len, replies).verdict == ValidationResult::Trusted ==> approved(replies),
        run(chain_len, replies).request == Request::Done(ValidationResult::Trusted) ==> approved(
            replies,
        ),
    decreases replies.len(),
{
    handles_are_given_back(chain_len, replies);
    if replies.len() > 0 {
        let before = replies.drop_last();
        trusted_only_when_approved(chain_len, before);
        handles_are_given_back(chain_len, before);
        if run(chain_len, replies).verdict == ValidationResult::Trusted {
            if approved(before) {
                let k = choose|k: int|
                    0 <= k < before.len() && #[trigger] before[k] == (Reply::PolicyVerified {
                        invoked: true,
                        status: 0,
                    });
                assert(replies[k] == before[k]);
            } else {
                assert(replies[replies.len() - 1] == replies.last());
            }
        }
    }
}

/// The answer at position `k` of a conversation decided `result`.
pub open spec fn decides(
    chain_len: usize,
    replies: Seq<Reply>,
    k: int,
    result: ValidationResult,
) -> bool {
    0 <= k < replies.len() && step_result(run(chain_len, replies.take(k)).request, replies[k])
        == Some(result)
}

/// The result is decided and only handles are left to give back.
pub open spec fn winding_down(session: Session) -> bool {
    match session.request {
        Request::FreeChain | Request::FreeLeaf | Request::CloseStore => true,
        Request::Done(result) => result == session.verdict,
        _ => false,
    }
}

/// The first failure decides: once an answer has decided a result, no later
/// answer changes it, no native step is asked for any more, and the result
/// that is reported in the end is that one.
pub proof fn decision_stands(
    chain_len: usize,
    replies: Seq<Reply>,
    k: int,
    result: ValidationResult,
)
    requires
        decides(chain_len, replies, k, result),
    ensures
        run(chain_len, replies).verdict == result,
        winding_down(run(chain_len, replies)),
        run(chain_len, replies).request is Done ==> run(chain_len, replies).request
            == Request::Done(result),
    decreases replies.len(),
{
    let before = replies.drop_last();
    if k == replies.len() - 1 {
        assert(replies.take(k) =~= before);
    } else {
        assert(before.take(k) =~= replies.take(k));
        assert(before[k] == replies[k]);
        decision_stands(chain_len, before, k, result);
    }
}

/// Nothing is reported that was not decided: the result of a chain that is
/// not empty is the one that some answer of the conversation decided.
pub proof fn result_was_decided(chain_len: usize, replies: Seq<Reply>)
    requires
        chain_len > 0,
    ensures
        winding_down(run(chain_len, replies)) ==> exists|k: int| #[trigger]
            decides(chain_len, replies, k, run(chain_len, replies).verdict),
    decreases replies.len(),
{
    if replies.len() > 0 && winding_down(run(chain_len, replies)) {
        let before = replies.drop_last();
        result_was_decided(chain_len, before);
        if winding_down(run(chain_len, before)) {
            let k = choose|k: int| #[trigger]
                decides(chain_len, before, k, run(chain_len, before).verdict);
            assert(before.take(k) =~= replies.take(k));
            assert(before[k] == replies[k]);
            assert(decides(chain_len, replies, k, run(chain_len, replies).verdict));
        } else {
            let k = replies.len() - 1;
            assert(replies.take(k) =~= before);
            assert(decides(chain_len, replies, k, run(chain_len, replies).verdict));
        }
    }
}

/// Where the facility lets every step succeed and the policy step reports
/// status zero, a chain that is not empty is trusted.
pub proof fn success_is_trusted(chain_len: usize, replies: Seq<Reply>)
    requires
        chain_len > 0,
        run(chain_len, replies).request is Done,
        forall|k: int, result: ValidationResult| #[trigger]
            decides(chain_len, replies, k, result) ==> result == ValidationResult::Trusted,
    ensures
        run(chain_len, replies).request == Request::Done(ValidationResult::Trusted),
{
    handles_are_given_back(chain_len, replies);
    result_was_decided(chain_len, replies);
}

/// The facility answers one request about this chain and hostname in one way
/// only.
pub open spec fn steady<F: Fn(Request, &[&[u8]], &Parameters) -> Reply>(
    facility: F,
    chain: &[&[u8]],
    hostname: &str,
) -> bool {
    forall|request: Request, p: &Parameters, q: &Parameters, a: Reply, b: Reply|
        p.describes(hostname@) && q.describes(hostname@) && #[trigger] call_ensures(
            facility,
            (request, chain, p),
            a,
        ) && #[trigger] call_ensures(facility, (request, chain, q), b) ==> a == b
}

proof fn conversations_agree<F: Fn(Request, &[&[u8]], &Parameters) -> Reply>(
    facility: F,
    chain: &[&[u8]],
    hostname: &str,
    p: Parameters,
    q: Parameters,
    a: Seq<Reply>,
    b: Seq<Reply>,
    i: int,
)
    requires
        steady(facility, chain, hostname),
        p.describes(hostname@),
        q.describes(hostname@),
        conducted(facility, chain, &p, a),
        conducted(facility, chain, &q, b),
        0 <= i <= a.len(),
        i <= b.len(),
    ensures
        a.take(i) =~= b.take(i),
    decreases i,
{
    if i > 0 {
        conversations_agree(facility, chain, hostname, p, q, a, b, i - 1);
        let request = run(chain@.len() as usize, a.take(i - 1)).request;
        assert(call_ensures(facility, (request, chain, &p), a[i - 1]));
        assert(call_ensures(facility, (request, chain, &q), b[i - 1]));
        assert(a.take(i) =~= a.take(i - 1).push(a[i - 1]));
        assert(b.take(i) =~= b.take(i - 1).push(b[i - 1]));
    }
}

/// Asking twice gives the same result: where the facility answers each
/// request in one way only, every conversation about the same chain and
/// hostname ends in the same result.
pub proof fn same_inputs_same_result<F: Fn(Request, &[&[u8]], &Parameters) -> Reply>(
    facility: F,
    chain: &[&[u8]],
    hostname: &str,
    first: ValidationResult,
    second: ValidationResult,
)
    requires
        steady(facility, chain, hostname),
        concluded(facility, chain, hostname, first),
        concluded(facility, chain, hostname, second),
    ensures
        first == second,
{
    if refusal(chain, hostname@) is Some {
        return ;
    }
    let n = chain@.len() as usize;
    let (p, a) = choose|p: Parameters, a: Seq<Reply>|
        {
            &&& p.describes(hostname@)
            &&& conducted(facility, chain, &p, a)
            &&& run(n, a).request == Request::Done(first)
        };
    let (q, b) = choose|q: Parameters, b: Seq<Reply>|
        {
            &&& q.describes(hostname@)
            &&& conducted(facility, chain, &q, b)
            &&& run(n, b).request == Request::Done(second)
        };
    if a.len() <= b.len() {
        conversations_agree(facility, chain, hostname, p, q, a, b, a.len() as int);
        assert(a.take(a.len() as int) =~= a);
        if a.len() < b.len() {
            assert(!(run(n, b.take(a.len() as int)).request is Done));
        }
        assert(b.take(b.len() as int) =~= b);
    } else {
        conversations_agree(facility, chain, hostname, p, q, a, b, b.len() as int);
        assert(b.take(b.len() as int) =~= b);
        assert(!(run(n, a.take(b.len() as int)).request is Done));
    }
}

} // verus!
