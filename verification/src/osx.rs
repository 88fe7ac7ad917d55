//! The conversation with Apple's Security trust facility.
//!
//! Every certificate of the chain is parsed, an SSL policy is made for the
//! hostname, a trust object is made from both, and the trust object is
//! evaluated. The first step that fails ends the conversation with the result
//! that belongs to that step.

use crate::result::ValidationResult;
use vstd::prelude::*;

verus! {

/// The verdict of a trust evaluation, as the facility reports it.
#[derive(Clone, Copy, PartialEq, Eq, Structural, Debug)]
pub enum TrustVerdict {
    /// An invalid setting or result: no verdict was reached.
    Invalid,
    /// The trust parameters are explicitly satisfied: the chain may be used.
    Proceed,
    /// The user has chosen not to trust the chain.
    Deny,
    /// Formally indeterminate: the evaluation found no fault, and no user
    /// setting is recorded for or against the chain.
    Unspecified,
    /// The policy failed in a way that the user may override.
    RecoverableTrustFailure,
    /// The policy failed in a way that the user cannot override.
    FatalTrustFailure,
    /// An error that has nothing to do with trust.
    OtherError,
}

/// What the facility is asked to do next.
#[derive(Clone, Copy, PartialEq, Eq, Structural, Debug)]
pub enum Request {
    /// Parse the certificate at `index` into a native certificate object.
    ParseCertificate { index: usize },
    /// Make the SSL policy for a client that checks the hostname.
    CreatePolicy,
    /// Make a trust object from the parsed certificates and the policy.
    CreateTrust,
    /// Evaluate the trust object.
    Evaluate,
    /// Nothing more to ask: this is the result.
    Done(ValidationResult),
}

/// What the facility answered.
#[derive(Clone, Copy, PartialEq, Eq, Structural, Debug)]
pub enum Reply {
    /// Whether the bytes were accepted as a certificate.
    Parsed(bool),
    /// Whether a policy object came back.
    PolicyCreated(bool),
    /// Whether a trust object came back.
    TrustCreated(bool),
    /// The verdict of the evaluation, or `None` where the evaluation itself failed.
    Evaluated(Option<TrustVerdict>),
}

/// The status with which the Security framework says that no trust results
/// are available.
pub const ERR_SEC_NOT_AVAILABLE: i32 = -25291;

/// The status with which it says that authorization or authentication failed.
pub const ERR_SEC_AUTH_FAILED: i32 = -25293;

/// The status with which it says that there is no security module.
pub const ERR_SEC_NO_SECURITY_MODULE: i32 = -25313;

/// The status with which it says that there is no policy module.
pub const ERR_SEC_NO_POLICY_MODULE: i32 = -25314;

/// The result that a verdict stands for. Two verdicts are accepted: that the
/// trust parameters are explicitly satisfied, and that trust is formally
/// indeterminate, which mostly means that no user override is recorded.
/// Every other verdict is a rejection.
pub open spec fn verdict_result(verdict: TrustVerdict) -> ValidationResult {
    if verdict == TrustVerdict::Proceed || verdict == TrustVerdict::Unspecified {
        ValidationResult::Trusted
    } else {
        ValidationResult::NotTrusted
    }
}

/// The result that a native status code stands for: a missing module or
/// policy, a user who has to authenticate, or, for any other code, a failure
/// of the validation.
pub open spec fn status_result(status: i32) -> ValidationResult {
    if status == ERR_SEC_NOT_AVAILABLE || status == ERR_SEC_NO_SECURITY_MODULE || status
        == ERR_SEC_NO_POLICY_MODULE {
        ValidationResult::MissingFunctionality
    } else if status == ERR_SEC_AUTH_FAILED {
        ValidationResult::UserAuthenticationRequired
    } else {
        ValidationResult::ErrorDuringValidation
    }
}

/// Converts the verdict of an evaluation to a validation result.
pub fn trust_result_to_validation_result(trust_result: TrustVerdict) -> (result: ValidationResult)
    ensures
        result == verdict_result(trust_result),
        result == ValidationResult::Trusted || result == ValidationResult::NotTrusted,
{
    match trust_result {
        TrustVerdict::Proceed | TrustVerdict::Unspecified => ValidationResult::Trusted,
        _ => ValidationResult::NotTrusted,
    }
}

/// Converts a native status code to a validation result. No code stands for
/// `Trusted`.
pub fn os_status_to_validation_result(status: i32) -> (result: ValidationResult)
    ensures
        result == status_result(status),
        result != ValidationResult::Trusted,
{
    if status == ERR_SEC_NOT_AVAILABLE || status == ERR_SEC_NO_SECURITY_MODULE || status
        == ERR_SEC_NO_POLICY_MODULE {
        ValidationResult::MissingFunctionality
    } else if status == ERR_SEC_AUTH_FAILED {
        ValidationResult::UserAuthenticationRequired
    } else {
        ValidationResult::ErrorDuringValidation
    }
}

/// What one answer decides: `Some` result where the request failed or the
/// evaluation spoke, `None` where the conversation goes on with the next
/// request. An answer of the wrong kind counts as a failure of the
/// validation.
pub open spec fn step_result(request: Request, reply: Reply) -> Option<ValidationResult> {
    match request {
        Request::ParseCertificate { .. } => match reply {
            Reply::Parsed(true) => None,
            Reply::Parsed(false) => Some(ValidationResult::MalformedCertificateInChain),
            _ => Some(ValidationResult::ErrorDuringValidation),
        },
        Request::CreatePolicy => match reply {
            Reply::PolicyCreated(true) => None,
            Reply::PolicyCreated(false) => Some(ValidationResult::MalformedHostname),
            _ => Some(ValidationResult::ErrorDuringValidation),
        },
        Request::CreateTrust => match reply {
            Reply::TrustCreated(true) => None,
            Reply::TrustCreated(false) => Some(ValidationResult::UnableToBuildTrustStore),
            _ => Some(ValidationResult::ErrorDuringValidation),
        },
        Request::Evaluate => match reply {
            Reply::Evaluated(Some(verdict)) => Some(verdict_result(verdict)),
            _ => Some(ValidationResult::ErrorDuringValidation),
        },
        Request::Done(_) => None,
    }
}

/// Where a conversation stands: the request that is out.
#[derive(Clone, Copy, PartialEq, Eq, Structural, Debug)]
pub struct Session {
    /// The number of certificates in the chain.
    pub chain_len: usize,
    /// The request that the facility is to answer next.
    pub request: Request,
}

impl Session {
    /// The first state: an empty chain is refused before anything is asked,
    /// any other chain begins with parsing the leaf.
    pub open spec fn start(chain_len: usize) -> Session {
        Session {
            chain_len,
            request: if chain_len == 0 {
                Request::Done(ValidationResult::MalformedCertificateInChain)
            } else {
                Request::ParseCertificate { index: 0 }
            },
        }
    }

    /// The request succeeded: the next step is asked for.
    pub open spec fn proceed(self) -> Session {
        let request = match self.request {
            Request::ParseCertificate { index } => if index + 1 < self.chain_len {
                Request::ParseCertificate { index: (index + 1) as usize }
            } else {
                Request::CreatePolicy
            },
            Request::CreatePolicy => Request::CreateTrust,
            Request::CreateTrust => Request::Evaluate,
            other => other,
        };
        Session { request, ..self }
    }

    /// The state after the facility answered the request that was out: a step
    /// either decides the result or leads to the next step, and a result
    /// stands.
    pub open spec fn next(self, reply: Reply) -> Session {
        match self.request {
            Request::Done(_) => self,
            _ => match step_result(self.request, reply) {
                Some(result) => Session { request: Request::Done(result), ..self },
                None => self.proceed(),
            },
        }
    }

    /// What holds of every state that a conversation passes through: a
    /// certificate that is to be parsed is one of the chain.
    pub open spec fn wf(self) -> bool {
        match self.request {
            Request::ParseCertificate { index } => index < self.chain_len,
            _ => true,
        }
    }

    /// An upper bound on the number of requests still to come.
    pub open spec fn remaining(self) -> nat {
        match self.request {
            Request::ParseCertificate { index } => (self.chain_len - index + 3) as nat,
            Request::CreatePolicy => 3,
            Request::CreateTrust => 2,
            Request::Evaluate => 1,
            Request::Done(_) => 0,
        }
    }

    /// Begins a conversation about a chain of `chain_len` certificates.
    pub fn begin(chain_len: usize) -> (session: Session)
        ensures
            session == Session::start(chain_len),
            session.wf(),
    {
        Session {
            chain_len,
            request: if chain_len == 0 {
                Request::Done(ValidationResult::MalformedCertificateInChain)
            } else {
                Request::ParseCertificate { index: 0 }
            },
        }
    }

    /// Takes the facility's answer to the request that was out and says what
    /// to ask next. Every state is answered; a state that a conversation can
    /// reach leads to another such state, and one request nearer to the end.
    pub fn advance(self, reply: Reply) -> (session: Session)
        ensures
            session == self.next(reply),
            self.wf() ==> session.wf(),
            self.wf() && !(self.request is Done) ==> session.remaining() < self.remaining(),
    {
        let request = match self.request {
            Request::ParseCertificate { index } => match reply {
                Reply::Parsed(true) => {
                    if index < self.chain_len && index + 1 < self.chain_len {
                        Request::ParseCertificate { index: index + 1 }
                    } else {
                        Request::CreatePolicy
                    }
                },
                Reply::Parsed(false) => Request::Done(
                    ValidationResult::MalformedCertificateInChain,
                ),
                _ => Request::Done(ValidationResult::ErrorDuringValidation),
            },
            Request::CreatePolicy => match reply {
                Reply::PolicyCreated(true) => Request::CreateTrust,
                Reply::PolicyCreated(false) => Request::Done(ValidationResult::MalformedHostname),
                _ => Request::Done(ValidationResult::ErrorDuringValidation),
            },
            Request::CreateTrust => match reply {
                Reply::TrustCreated(true) => Request::Evaluate,
                Reply::TrustCreated(false) => Request::Done(
                    ValidationResult::UnableToBuildTrustStore,
                ),
                _ => Request::Done(ValidationResult::ErrorDuringValidation),
            },
            Request::Evaluate => match reply {
                Reply::Evaluated(Some(verdict)) => Request::Done(
                    trust_result_to_validation_result(verdict),
                ),
                _ => Request::Done(ValidationResult::ErrorDuringValidation),
            },
            Request::Done(result) => Request::Done(result),
        };
        Session { request, ..self }
    }
}

/// The state that a conversation is in after the facility gave `replies`, one
/// for each request in turn.
pub open spec fn run(chain_len: usize, replies: Seq<Reply>) -> Session
    decreases replies.len(),
{
    if replies.len() == 0 {
        Session::start(chain_len)
    } else {
        run(chain_len, replies.drop_last()).next(replies.last())
    }
}

/// `replies` is a conversation with `facility`: each reply is one that the
/// facility may give to the request that was out at that point, and no reply
/// was asked for after the result was known.
pub open spec fn conducted<F: Fn(Request, &[&[u8]], &str) -> Reply>(
    facility: F,
    chain: &[&[u8]],
    hostname: &str,
    replies: Seq<Reply>,
) -> bool {
    forall|i: int|
        0 <= i < replies.len() ==> {
            &&& !(run(chain@.len() as usize, #[trigger] replies.take(i)).request is Done)
            &&& call_ensures(
                facility,
                (run(chain@.len() as usize, replies.take(i)).request, chain, hostname),
                replies[i],
            )
        }
}

/// A request that a conversation about a chain of `chain_len` certificates
/// can make of the facility: any but `Done`, and the parsing only of a
/// certificate that the chain has.
pub open spec fn askable(request: Request, chain_len: nat) -> bool {
    match request {
        Request::ParseCertificate { index } => index < chain_len,
        Request::Done(_) => false,
        _ => true,
    }
}

/// The facility can be asked every request that a conversation about this
/// chain and hostname can make.
pub open spec fn callable<F: Fn(Request, &[&[u8]], &str) -> Reply>(
    facility: F,
    chain: &[&[u8]],
    hostname: &str,
) -> bool {
    forall|request: Request|
        askable(request, chain@.len()) ==> #[trigger] call_requires(
            facility,
            (request, chain, hostname),
        )
}

/// The result that is fixed before the facility is asked anything: an empty
/// chain is malformed. `None` where the facility is asked.
pub open spec fn refusal(chain: &[&[u8]]) -> Option<ValidationResult> {
    if chain@.len() == 0 {
        Some(ValidationResult::MalformedCertificateInChain)
    } else {
        None
    }
}

/// `result` is what a whole conversation with `facility` about this chain and
/// hostname ended in.
pub open spec fn concluded<F: Fn(Request, &[&[u8]], &str) -> Reply>(
    facility: F,
    chain: &[&[u8]],
    hostname: &str,
    result: ValidationResult,
) -> bool {
    exists|replies: Seq<Reply>|
        {
            &&& conducted(facility, chain, hostname, replies)
            &&& run(chain@.len() as usize, replies).request == Request::Done(result)
        }
}

/// Validates a chain of DER-encoded certificates, leaf first, for a hostname.
///
/// `facility` performs one native request and reports its outcome; it is given
/// the request, the chain and the hostname. The function asks the requests in
/// order, stops at the first failure, and returns the result that the
/// conversation ended in.
pub fn validate_cert_chain<F: Fn(Request, &[&[u8]], &str) -> Reply>(
    encoded_certs: &[&[u8]],
    hostname: &str,
    facility: F,
) -> (result: ValidationResult)
    requires
        callable(facility, encoded_certs, hostname),
    ensures
        concluded(facility, encoded_certs, hostname, result),
        encoded_certs@.len() == 0 ==> result == ValidationResult::MalformedCertificateInChain,
{
    let chain_len = encoded_certs.len();
    let mut session = Session::begin(chain_len);
    let ghost mut replies: Seq<Reply> = Seq::empty();
    loop
        invariant
            chain_len == encoded_certs@.len(),
            callable(facility, encoded_certs, hostname),
            session == run(chain_len, replies),
            session.chain_len == chain_len,
            session.wf(),
            conducted(facility, encoded_certs, hostname, replies),
            chain_len == 0 ==> session.request == Request::Done(
                ValidationResult::MalformedCertificateInChain,
            ),
        decreases session.remaining(),
    {
        match session.request {
            Request::Done(result) => {
                return result;
            },
            request => {
                let reply = facility(request, encoded_certs, hostname);
                let ghost before = replies;
                session = session.advance(reply);
                proof {
                    replies = before.push(reply);
                    assert(replies.drop_last() =~= before);
                    assert(replies.last() == reply);
                    assert forall|i: int| 0 <= i < replies.len() implies {
                        &&& !(run(chain_len, #[trigger] replies.take(i)).request is Done)
                        &&& call_ensures(
                            facility,
                            (run(chain_len, replies.take(i)).request, encoded_certs, hostname),
                            replies[i],
                        )
                    } by {
                        if i < before.len() {
                            assert(replies.take(i) =~= before.take(i));
                            assert(replies[i] == before[i]);
                        } else {
                            assert(replies.take(i) =~= before);
                        }
                    }
                }
            },
        }
    }
}

/// Every conversation ends: a chain of `chain_len` certificates takes at most
/// `chain_len + 3` requests before the result is reported.
pub proof fn conversation_ends(chain_len: usize, replies: Seq<Reply>)
    ensures
        run(chain_len, replies).wf(),
        run(chain_len, replies).request is Done || run(chain_len, replies).remaining()
            + replies.len() <= chain_len + 3,
        replies.len() >= chain_len + 3 ==> run(chain_len, replies).request is Done,
    decreases replies.len(),
{
    if replies.len() > 0 {
        conversation_ends(chain_len, replies.drop_last());
    }
}

/// The evaluation accepted: it gave a verdict that stands for `Trusted`.
pub open spec fn accepted(replies: Seq<Reply>) -> bool {
    exists|k: int|
        0 <= k < replies.len() && (#[trigger] replies[k] == Reply::Evaluated(
            Some(TrustVerdict::Proceed),
        ) || replies[k] == Reply::Evaluated(Some(TrustVerdict::Unspecified)))
}

/// `Trusted` is never reported unless the facility's evaluation gave a verdict
/// that is accepted.
pub proof fn trusted_only_when_accepted(chain_len: usize, replies: Seq<Reply>)
    ensures
        run(chain_len, replies).request == Request::Done(ValidationResult::Trusted) ==> accepted(
            replies,
        ),
    decreases replies.len(),
{
    if replies.len() > 0 {
        let before = replies.drop_last();
        trusted_only_when_accepted(chain_len, before);
        if run(chain_len, replies).request == Request::Done(ValidationResult::Trusted) {
            if accepted(before) {
                let k = choose|k: int|
                    0 <= k < before.len() && (#[trigger] before[k] == Reply::Evaluated(
                        Some(TrustVerdict::Proceed),
                    ) || before[k] == Reply::Evaluated(Some(TrustVerdict::Unspecified)));
                assert(replies[k] == before[k]);
            } else {
                assert(replies[replies.len() - 1] == replies.last());
            }
        }
    }
}

/// The answer at position `k` of a conversation decided `result`.
pub open spec fn decides(
    chain_len: usize,
    replies: Seq<Reply>,
    k: int,
    result: ValidationResult,
) -> bool {
    0 <= k < replies.len() && step_result(run(chain_len, replies.take(k)).request, replies[k])
        == Some(result)
}

/// The first failure decides: the answer that decides a result ends the
/// conversation with that result, and no later answer changes it.
pub proof fn decision_stands(
    chain_len: usize,
    replies: Seq<Reply>,
    k: int,
    result: ValidationResult,
)
    requires
        decides(chain_len, replies, k, result),
    ensures
        run(chain_len, replies).request == Request::Done(result),
    decreases replies.len(),
{
    let before = replies.drop_last();
    if k == replies.len() - 1 {
        assert(replies.take(k) =~= before);
    } else {
        assert(before.take(k) =~= replies.take(k));
        assert(before[k] == replies[k]);
        decision_stands(chain_len, before, k, result);
    }
}

/// Nothing is reported that was not decided: the result of a chain that is
/// not empty is the one that some answer of the conversation decided.
pub proof fn result_was_decided(chain_len: usize, replies: Seq<Reply>, result: ValidationResult)
    requires
        chain_len > 0,
        run(chain_len, replies).request == Request::Done(result),
    ensures
        exists|k: int| #[trigger] decides(chain_len, replies, k, result),
    decreases replies.len(),
{
    if replies.len() > 0 {
        let before = replies.drop_last();
        if run(chain_len, before).request is Done {
            result_was_decided(chain_len, before, result);
            let k = choose|k: int| #[trigger] decides(chain_len, before, k, result);
            assert(before.take(k) =~= replies.take(k));
            assert(before[k] == replies[k]);
            assert(decides(chain_len, replies, k, result));
        } else {
            let k = replies.len() - 1;
            assert(replies.take(k) =~= before);
            assert(decides(chain_len, replies, k, result));
        }
    }
}

/// Where the facility lets every step succeed and the evaluation gives an
/// accepted verdict, a chain that is not empty is trusted.
pub proof fn success_is_trusted(chain_len: usize, replies: Seq<Reply>)
    requires
        chain_len > 0,
        run(chain_len, replies).request is Done,
        forall|k: int, result: ValidationResult| #[trigger]
            decides(chain_len, replies, k, result) ==> result == ValidationResult::Trusted,
    ensures
        run(chain_len, replies).request == Request::Done(ValidationResult::Trusted),
{
    let result = run(chain_len, replies).request->Done_0;
    result_was_decided(chain_len, replies, result);
}

/// The facility answers one request about this chain and hostname in one way
/// only.
pub open spec fn steady<F: Fn(Request, &[&[u8]], &str) -> Reply>(
    facility: F,
    chain: &[&[u8]],
    hostname: &str,
) -> bool {
    forall|request: Request, a: Reply, b: Reply|
        #[trigger] call_ensures(facility, (request, chain, hostname), a) && #[trigger] call_ensures(
            facility,
            (request, chain, hostname),
            b,
        ) ==> a == b
}

proof fn conversations_agree<F: Fn(Request, &[&[u8]], &str) -> Reply>(
    facility: F,
    chain: &[&[u8]],
    hostname: &str,
    a: Seq<Reply>,
    b: Seq<Reply>,
    i: int,
)
    requires
        steady(facility, chain, hostname),
        conducted(facility, chain, hostname, a),
        conducted(facility, chain, hostname, b),
        0 <= i <= a.len(),
        i <= b.len(),
    ensures
        a.take(i) =~= b.take(i),
    decreases i,
{
    if i > 0 {
        conversations_agree(facility, chain, hostname, a, b, i - 1);
        let request = run(chain@.len() as usize, a.take(i - 1)).request;
        assert(call_ensures(facility, (request, chain, hostname), a[i - 1]));
        assert(call_ensures(facility, (request, chain, hostname), b[i - 1]));
        assert(a.take(i) =~= a.take(i - 1).push(a[i - 1]));
        assert(b.take(i) =~= b.take(i - 1).push(b[i - 1]));
    }
}

/// Asking twice gives the same result: where the facility answers each
/// request in one way only, every conversation about the same chain and
/// hostname ends in the same result.
pub proof fn same_inputs_same_result<F: Fn(Request, &[&[u8]], &str) -> Reply>(
    facility: F,
    chain: &[&[u8]],
    hostname: &str,
    first: ValidationResult,
    second: ValidationResult,
)
    requires
        steady(facility, chain, hostname),
        concluded(facility, chain, hostname, first),
        concluded(facility, chain, hostname, second),
    ensures
        first == second,
{
    let n = chain@.len() as usize;
    let a = choose|a: Seq<Reply>|
        {
            &&& conducted(facility, chain, hostname, a)
            &&& run(n, a).request == Request::Done(first)
        };
    let b = choose|b: Seq<Reply>|
        {
            &&& conducted(facility, chain, hostname, b)
            &&& run(n, b).request == Request::Done(second)
        };
    if a.len() <= b.len() {
        conversations_agree(facility, chain, hostname, a, b, a.len() as int);
        assert(a.take(a.len() as int) =~= a);
        if a.len() < b.len() {
            assert(!(run(n, b.take(a.len() as int)).request is Done));
        }
        assert(b.take(b.len() as int) =~= b);
    } else {
        conversations_agree(facility, chain, hostname, a, b, b.len() as int);
        assert(b.take(b.len() as int) =~= b);
        assert(!(run(n, a.take(b.len() as int)).request is Done));
    }
}

} // verus!
