//! What a worker does with each reply of the endpoint: retry, back off,
//! settle the credential, or report a reply that breaks the wire contract.

use vstd::prelude::*;
use crate::backoff::{parse_seconds, seconds_of};

verus! {

/// How many times one request is tried before a credential that the
/// transport keeps failing on is given up as invalid.
pub const MAX_ATTEMPTS: u8 = 10;

/// The status with which the endpoint accepts a credential.
pub const STATUS_OK: u16 = 200;

/// The status with which the endpoint asks the caller to slow down.
pub const STATUS_RATE_LIMITED: u16 = 429;

/// The binary classification of one credential.
#[derive(Clone, Copy, Debug, PartialEq, Eq, Structural)]
pub enum Verdict {
    Valid,
    Invalid,
}

/// A rate-limited reply that does not say how long to wait.
#[derive(Clone, Copy, Debug, PartialEq, Eq, Structural)]
pub enum ProtocolViolation {
    /// The reply has no `Retry-After` header.
    MissingRetryAfter,
    /// The header is there, but is no whole number of seconds.
    MalformedRetryAfter,
}

/// What came back from one request.
#[derive(Clone, Debug, PartialEq, Eq)]
pub enum Reply {
    /// The transport failed: no connection, or no answer in time.
    Unreachable,
    /// The endpoint answered.
    Status {
        /// The HTTP status code.
        code: u16,
        /// The bytes of the `Retry-After` header, where the reply has one.
        retry_after: Option<Vec<u8>>,
    },
}

/// What the worker does next.
#[derive(Clone, Copy, Debug, PartialEq, Eq, Structural)]
pub enum Step {
    /// Issue the same request again, at once.
    Resend,
    /// Suspend for that many seconds, then issue the same request again.
    Backoff(u64),
    /// The credential is classified.
    Finish(Verdict),
    /// The endpoint broke the wire contract.
    Violation(ProtocolViolation),
}

/// How a run of replies ends.
#[derive(Clone, Copy, Debug, PartialEq, Eq, Structural)]
pub enum Ending {
    /// A reply settled the credential.
    Settled(Verdict),
    /// A reply broke the wire contract.
    Violated(ProtocolViolation),
    /// The replies ran out first: another request is due.
    Pending,
}

/// A finished replay of recorded replies.
#[derive(Clone, Copy, Debug, PartialEq, Eq, Structural)]
pub struct Run {
    /// Requests issued until the run ended or the replies ran out.
    pub requests: usize,
    /// Seconds spent suspended, all backoffs together.
    pub waited: u128,
    /// How the run ended.
    pub ending: Ending,
}

/// The step that follows `reply`, for a worker that has seen `failures`
/// transport failures in a row since it last got an answer.
pub open spec fn step_of(failures: u8, reply: Reply) -> Step {
    match reply {
        Reply::Unreachable => if failures + 1 < MAX_ATTEMPTS {
            Step::Resend
        } else {
            Step::Finish(Verdict::Invalid)
        },
        Reply::Status { code, retry_after } => if code == STATUS_OK {
            Step::Finish(Verdict::Valid)
        } else if code == STATUS_RATE_LIMITED {
            match retry_after {
                None => Step::Violation(ProtocolViolation::MissingRetryAfter),
                Some(value) => match seconds_of(value@) {
                    Some(seconds) => Step::Backoff(seconds),
                    None => Step::Violation(ProtocolViolation::MalformedRetryAfter),
                },
            }
        } else {
            Step::Finish(Verdict::Invalid)
        },
    }
}

/// The count of transport failures in a row once `reply` has been handled:
/// one more after a failure that is retried, none after a backoff, and
/// unchanged where the reply ends the exchange.
pub open spec fn failures_after(failures: u8, reply: Reply) -> u8 {
    match step_of(failures, reply) {
        Step::Resend => (failures + 1) as u8,
        Step::Backoff(_) => 0,
        _ => failures,
    }
}

/// Whether a step ends the exchange.
pub open spec fn is_final(step: Step) -> bool {
    step is Finish || step is Violation
}

/// How the exchange ends when the endpoint answers with `replies`, in order.
pub open spec fn ending_of(failures: u8, replies: Seq<Reply>) -> Ending
    decreases replies.len(),
{
    if replies.len() == 0 {
        Ending::Pending
    } else {
        match step_of(failures, replies[0]) {
            Step::Finish(verdict) => Ending::Settled(verdict),
            Step::Violation(violation) => Ending::Violated(violation),
            _ => ending_of(failures_after(failures, replies[0]), replies.skip(1)),
        }
    }
}

/// How many requests are issued when the endpoint answers with `replies`:
/// one for each reply up to the one that ends the exchange.
pub open spec fn requests_of(failures: u8, replies: Seq<Reply>) -> nat
    decreases replies.len(),
{
    if replies.len() == 0 {
        0
    } else if is_final(step_of(failures, replies[0])) {
        1
    } else {
        1 + requests_of(failures_after(failures, replies[0]), replies.skip(1))
    }
}

/// How many seconds are spent suspended when the endpoint answers with
/// `replies`.
pub open spec fn waited_of(failures: u8, replies: Seq<Reply>) -> nat
    decreases replies.len(),
{
    if replies.len() == 0 {
        0
    } else {
        match step_of(failures, replies[0]) {
            Step::Resend => waited_of(failures_after(failures, replies[0]), replies.skip(1)),
            Step::Backoff(seconds) => seconds as nat + waited_of(0, replies.skip(1)),
            _ => 0,
        }
    }
}

/// Decides the step that follows `reply` and the new count of transport
/// failures in a row.
pub fn next_step(failures: u8, reply: &Reply) -> (next: (Step, u8))
    ensures
        next.0 == step_of(failures, *reply),
        next.1 == failures_after(failures, *reply),
{
    match reply {
        Reply::Unreachable => {
            if failures < MAX_ATTEMPTS - 1 {
                (Step::Resend, failures + 1)
            } else {
                (Step::Finish(Verdict::Invalid), failures)
            }
        },
        Reply::Status { code, retry_after } => {
            if *code == STATUS_OK {
                (Step::Finish(Verdict::Valid), failures)
            } else if *code == STATUS_RATE_LIMITED {
                match retry_after {
                    None => (Step::Violation(ProtocolViolation::MissingRetryAfter), failures),
                    Some(value) => match parse_seconds(value) {
                        Some(seconds) => (Step::Backoff(seconds), 0),
                        None => (Step::Violation(ProtocolViolation::MalformedRetryAfter), failures),
                    },
                }
            } else {
                (Step::Finish(Verdict::Invalid), failures)
            }
        },
    }
}

/// Replays recorded replies against a fresh exchange: the requests issued,
/// the seconds waited and the ending, had the endpoint answered so.
pub fn replay(replies: &Vec<Reply>) -> (run: Run)
    ensures
        run.requests == requests_of(0, replies@),
        run.waited == waited_of(0, replies@),
        run.ending == ending_of(0, replies@),
{
    let n: usize = replies.len();
    let mut failures: u8 = 0;
    let mut waited: u128 = 0;
    let mut i: usize = 0;
    assert(replies@.skip(0) =~= replies@);
    while i < n
        invariant
            i <= n,
            n == replies.len(),
            waited <= i * u64::MAX,
            requests_of(0, replies@) == i + requests_of(failures, replies@.skip(i as int)),
            waited_of(0, replies@) == waited + waited_of(failures, replies@.skip(i as int)),
            ending_of(0, replies@) == ending_of(failures, replies@.skip(i as int)),
        decreases n - i,
    {
        let ghost rest = replies@.skip(i as int);
        proof {
            assert(rest.len() > 0);
            assert(rest[0] == replies@[i as int]);
            assert(rest.skip(1) =~= replies@.skip(i + 1));
            assert(i * u64::MAX + u64::MAX == (i + 1) * u64::MAX) by (nonlinear_arith);
            assert((i + 1) * u64::MAX <= usize::MAX * u64::MAX) by (nonlinear_arith)
                requires
                    i + 1 <= usize::MAX,
            ;
            assert(usize::MAX * u64::MAX <= u128::MAX) by (nonlinear_arith)
                requires
                    usize::MAX <= u64::MAX,
                    u64::MAX == 0xffff_ffff_ffff_ffff,
                    u128::MAX == 0xffff_ffff_ffff_ffff_ffff_ffff_ffff_ffff,
            ;
        }
        let (step, after) = next_step(failures, &replies[i]);
        match step {
            Step::Resend => {},
            Step::Backoff(seconds) => {
                waited = waited + seconds as u128;
            },
            Step::Finish(verdict) => {
                return Run { requests: i + 1, waited, ending: Ending::Settled(verdict) };
            },
            Step::Violation(violation) => {
                return Run { requests: i + 1, waited, ending: Ending::Violated(violation) };
            },
        }
        failures = after;
        i = i + 1;
    }
    assert(replies@.skip(i as int).len() == 0);
    Run { requests: n, waited, ending: Ending::Pending }
}

/// A reply with the accepting status settles the credential as valid at
/// once: one request is issued, nothing is waited for, and what the endpoint
/// would have answered afterwards plays no part.
pub proof fn law_accepted_at_once(failures: u8, replies: Seq<Reply>)
    requires
        replies.len() > 0,
        replies[0] is Status,
        replies[0]->code == STATUS_OK,
    ensures
        step_of(failures, replies[0]) == Step::Finish(Verdict::Valid),
        ending_of(failures, replies) == Ending::Settled(Verdict::Valid),
        requests_of(failures, replies) == 1,
        waited_of(failures, replies) == 0,
{
}

/// A reply with any status but the accepting and the rate-limiting one
/// settles the credential as invalid at once.
pub proof fn law_rejected_at_once(failures: u8, replies: Seq<Reply>)
    requires
        replies.len() > 0,
        replies[0] is Status,
        replies[0]->code != STATUS_OK,
        replies[0]->code != STATUS_RATE_LIMITED,
    ensures
        step_of(failures, replies[0]) == Step::Finish(Verdict::Invalid),
        ending_of(failures, replies) == Ending::Settled(Verdict::Invalid),
        requests_of(failures, replies) == 1,
        waited_of(failures, replies) == 0,
{
}

/// A rate-limited reply that names its wait classifies nothing by itself:
/// the worker waits exactly the seconds named, issues one more request with
/// its failure count cleared, and the exchange ends as the later replies
/// alone decide.
pub proof fn law_backoff_defers(failures: u8, replies: Seq<Reply>, seconds: u64)
    requires
        replies.len() > 0,
        replies[0] is Status,
        replies[0]->code == STATUS_RATE_LIMITED,
        replies[0]->retry_after is Some,
        seconds_of(replies[0]->retry_after->0@) == Some(seconds),
    ensures
        step_of(failures, replies[0]) == Step::Backoff(seconds),
        ending_of(failures, replies) == ending_of(0, replies.skip(1)),
        requests_of(failures, replies) == 1 + requests_of(0, replies.skip(1)),
        waited_of(failures, replies) == seconds + waited_of(0, replies.skip(1)),
        waited_of(failures, replies) >= seconds,
{
}

/// A rate-limited reply without a usable wait is a violation of the wire
/// contract: the exchange ends there, after that one request, and the
/// credential is not classified.
pub proof fn law_unusable_wait_is_violation(failures: u8, replies: Seq<Reply>)
    requires
        replies.len() > 0,
        replies[0] is Status,
        replies[0]->code == STATUS_RATE_LIMITED,
        replies[0]->retry_after is None || seconds_of(replies[0]->retry_after->0@) is None,
    ensures
        step_of(failures, replies[0]) is Violation,
        ending_of(failures, replies) is Violated,
        (replies[0]->retry_after is None) == (ending_of(failures, replies) == Ending::Violated(
            ProtocolViolation::MissingRetryAfter,
        )),
        requests_of(failures, replies) == 1,
        waited_of(failures, replies) == 0,
{
}

/// A worker that already counts `failures` transport failures in a row and
/// meets nothing but further ones gives the credential up as invalid with
/// the request that brings the count to `MAX_ATTEMPTS`, without waiting.
pub proof fn law_failures_run_out(failures: u8, replies: Seq<Reply>)
    requires
        failures < MAX_ATTEMPTS,
        replies.len() >= MAX_ATTEMPTS - failures,
        forall|i: int| 0 <= i < MAX_ATTEMPTS - failures ==> #[trigger] replies[i] is Unreachable,
    ensures
        ending_of(failures, replies) == Ending::Settled(Verdict::Invalid),
        requests_of(failures, replies) == MAX_ATTEMPTS - failures,
        waited_of(failures, replies) == 0,
    decreases MAX_ATTEMPTS - failures,
{
    assert(replies[0] is Unreachable);
    if failures + 1 < MAX_ATTEMPTS {
        let rest = replies.skip(1);
        assert forall|i: int| 0 <= i < MAX_ATTEMPTS - (failures + 1) implies #[trigger] rest[i]
            is Unreachable by {
            assert(rest[i] == replies[i + 1]);
        }
        law_failures_run_out((failures + 1) as u8, rest);
    }
}

/// On an endpoint that cannot be reached a fresh exchange issues exactly
/// `MAX_ATTEMPTS` requests, never more, and settles the credential as
/// invalid.
pub proof fn law_transport_budget(replies: Seq<Reply>)
    requires
        replies.len() >= MAX_ATTEMPTS,
        forall|i: int| 0 <= i < MAX_ATTEMPTS ==> #[trigger] replies[i] is Unreachable,
    ensures
        ending_of(0, replies) == Ending::Settled(Verdict::Invalid),
        requests_of(0, replies) == MAX_ATTEMPTS,
        waited_of(0, replies) == 0,
{
    law_failures_run_out(0, replies);
}

/// Fewer transport failures in a row than `MAX_ATTEMPTS` settle nothing:
/// the worker has issued one request for each and owes another.
pub proof fn law_failures_within_budget(failures: u8, replies: Seq<Reply>)
    requires
        failures + replies.len() < MAX_ATTEMPTS,
        forall|i: int| 0 <= i < replies.len() ==> #[trigger] replies[i] is Unreachable,
    ensures
        ending_of(failures, replies) == Ending::Pending,
        requests_of(failures, replies) == replies.len(),
        waited_of(failures, replies) == 0,
    decreases replies.len(),
{
    if replies.len() > 0 {
        assert(replies[0] is Unreachable);
        let rest = replies.skip(1);
        assert forall|i: int| 0 <= i < rest.len() implies #[trigger] rest[i] is Unreachable by {
            assert(rest[i] == replies[i + 1]);
        }
        law_failures_within_budget((failures + 1) as u8, rest);
    }
}

/// No run issues more requests than it has replies, and one that has not
/// ended has issued one for each.
pub proof fn law_requests_bounded(failures: u8, replies: Seq<Reply>)
    ensures
        requests_of(failures, replies) <= replies.len(),
        ending_of(failures, replies) == Ending::Pending ==> requests_of(failures, replies)
            == replies.len(),
        replies.len() > 0 ==> requests_of(failures, replies) >= 1,
    decreases replies.len(),
{
    if replies.len() > 0 && !is_final(step_of(failures, replies[0])) {
        law_requests_bounded(failures_after(failures, replies[0]), replies.skip(1));
    }
}

/// Rate limiting has no cap: as long as every reply is a rate limit that
/// names its wait, the exchange goes on, one request for each reply, the
/// credential unclassified.
pub proof fn law_rate_limits_never_settle(failures: u8, replies: Seq<Reply>)
    requires
        forall|i: int|
            0 <= i < replies.len() ==> step_of(0, #[trigger] replies[i]) is Backoff,
    ensures
        ending_of(failures, replies) == Ending::Pending,
        requests_of(failures, replies) == replies.len(),
    decreases replies.len(),
{
    if replies.len() > 0 {
        assert(step_of(0, replies[0]) is Backoff);
        let rest = replies.skip(1);
        assert forall|i: int| 0 <= i < rest.len() implies step_of(0, #[trigger] rest[i])
            is Backoff by {
            assert(rest[i] == replies[i + 1]);
        }
        law_rate_limits_never_settle(0, rest);
    }
}

} // verus!
