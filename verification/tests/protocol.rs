use tokval::protocol::{
    next_step, replay, Ending, ProtocolViolation, Reply, Run, Step, Verdict, MAX_ATTEMPTS,
};

fn status(code: u16) -> Reply {
    Reply::Status { code, retry_after: None }
}

fn rate_limited(wait: &str) -> Reply {
    Reply::Status { code: 429, retry_after: Some(wait.as_bytes().to_vec()) }
}

#[test]
fn ok_reply_is_valid_after_exactly_one_request() {
    assert_eq!(next_step(0, &status(200)), (Step::Finish(Verdict::Valid), 0));
    let run = replay(&vec![status(200)]);
    assert_eq!(run, Run { requests: 1, waited: 0, ending: Ending::Settled(Verdict::Valid) });
    // What the endpoint would have said afterwards is never asked for.
    let run = replay(&vec![status(200), status(401), Reply::Unreachable]);
    assert_eq!(run, Run { requests: 1, waited: 0, ending: Ending::Settled(Verdict::Valid) });
}

#[test]
fn other_statuses_are_invalid() {
    for code in [100u16, 201, 204, 301, 400, 401, 403, 404, 428, 430, 500, 503] {
        assert_eq!(next_step(0, &status(code)), (Step::Finish(Verdict::Invalid), 0));
        assert_eq!(
            replay(&vec![status(code)]),
            Run { requests: 1, waited: 0, ending: Ending::Settled(Verdict::Invalid) }
        );
    }
}

#[test]
fn retry_after_on_other_statuses_is_ignored() {
    let reply = Reply::Status { code: 503, retry_after: Some(b"5".to_vec()) };
    assert_eq!(next_step(0, &reply), (Step::Finish(Verdict::Invalid), 0));
    let reply = Reply::Status { code: 200, retry_after: Some(b"junk".to_vec()) };
    assert_eq!(next_step(3, &reply), (Step::Finish(Verdict::Valid), 3));
}

#[test]
fn rate_limit_waits_then_classifies_by_the_later_reply() {
    assert_eq!(next_step(0, &rate_limited("2")), (Step::Backoff(2), 0));
    let run = replay(&vec![rate_limited("2"), status(200)]);
    assert_eq!(run, Run { requests: 2, waited: 2, ending: Ending::Settled(Verdict::Valid) });
    let run = replay(&vec![rate_limited("2"), status(401)]);
    assert_eq!(run, Run { requests: 2, waited: 2, ending: Ending::Settled(Verdict::Invalid) });
    // The rate-limited reply alone settles nothing.
    let run = replay(&vec![rate_limited("2")]);
    assert_eq!(run, Run { requests: 1, waited: 2, ending: Ending::Pending });
}

#[test]
fn rate_limits_in_a_row_add_up_without_a_cap() {
    let mut replies = Vec::new();
    for _ in 0..50 {
        replies.push(rate_limited("3"));
    }
    replies.push(status(200));
    let run = replay(&replies);
    assert_eq!(run, Run { requests: 51, waited: 150, ending: Ending::Settled(Verdict::Valid) });
}

#[test]
fn waits_do_not_overflow() {
    let replies = vec![
        rate_limited("18446744073709551615"),
        rate_limited("18446744073709551615"),
        status(200),
    ];
    let run = replay(&replies);
    assert_eq!(run.waited, 2 * (u64::MAX as u128));
    assert_eq!(run.requests, 3);
}

#[test]
fn rate_limit_clears_the_failure_count() {
    assert_eq!(next_step(7, &rate_limited("1")), (Step::Backoff(1), 0));
    let mut replies = Vec::new();
    for _ in 0..9 {
        replies.push(Reply::Unreachable);
    }
    replies.push(rate_limited("4"));
    for _ in 0..9 {
        replies.push(Reply::Unreachable);
    }
    replies.push(status(200));
    let run = replay(&replies);
    assert_eq!(run, Run { requests: 20, waited: 4, ending: Ending::Settled(Verdict::Valid) });
}

#[test]
fn missing_retry_after_is_a_violation() {
    assert_eq!(
        next_step(0, &status(429)),
        (Step::Violation(ProtocolViolation::MissingRetryAfter), 0)
    );
    let run = replay(&vec![status(429), status(200)]);
    assert_eq!(
        run,
        Run {
            requests: 1,
            waited: 0,
            ending: Ending::Violated(ProtocolViolation::MissingRetryAfter),
        }
    );
}

#[test]
fn non_numeric_retry_after_is_a_violation() {
    for wait in ["", "soon", "2.5", "-1", "Wed, 21 Oct 2015 07:28:00 GMT", "18446744073709551616"] {
        assert_eq!(
            next_step(0, &rate_limited(wait)),
            (Step::Violation(ProtocolViolation::MalformedRetryAfter), 0)
        );
        let run = replay(&vec![rate_limited(wait), status(200)]);
        assert_eq!(
            run,
            Run {
                requests: 1,
                waited: 0,
                ending: Ending::Violated(ProtocolViolation::MalformedRetryAfter),
            }
        );
    }
}

#[test]
fn transport_failures_give_up_after_exactly_the_bound() {
    assert_eq!(MAX_ATTEMPTS, 10);
    let mut failures = 0u8;
    let mut requests = 0usize;
    let verdict = loop {
        requests += 1;
        let (step, after) = next_step(failures, &Reply::Unreachable);
        failures = after;
        match step {
            Step::Resend => {}
            Step::Finish(verdict) => break verdict,
            other => panic!("unexpected step {:?}", other),
        }
        assert!(requests < 1000);
    };
    assert_eq!(verdict, Verdict::Invalid);
    assert_eq!(requests, 10);
}

#[test]
fn transport_failures_never_use_more_than_the_bound() {
    for extra in [0usize, 1, 5, 90] {
        let mut replies = Vec::new();
        for _ in 0..10 + extra {
            replies.push(Reply::Unreachable);
        }
        assert_eq!(
            replay(&replies),
            Run { requests: 10, waited: 0, ending: Ending::Settled(Verdict::Invalid) }
        );
    }
}

#[test]
fn fewer_failures_than_the_bound_settle_nothing() {
    for count in 0..10usize {
        let mut replies = Vec::new();
        for _ in 0..count {
            replies.push(Reply::Unreachable);
        }
        assert_eq!(replay(&replies), Run { requests: count, waited: 0, ending: Ending::Pending });
    }
}

#[test]
fn failure_count_steps_by_one() {
    for failures in 0..9u8 {
        assert_eq!(next_step(failures, &Reply::Unreachable), (Step::Resend, failures + 1));
    }
    assert_eq!(next_step(9, &Reply::Unreachable), (Step::Finish(Verdict::Invalid), 9));
    assert_eq!(next_step(10, &Reply::Unreachable), (Step::Finish(Verdict::Invalid), 10));
    assert_eq!(next_step(255, &Reply::Unreachable), (Step::Finish(Verdict::Invalid), 255));
}

#[test]
fn answer_after_some_failures_still_counts() {
    let mut replies = Vec::new();
    for _ in 0..9 {
        replies.push(Reply::Unreachable);
    }
    replies.push(status(200));
    assert_eq!(
        replay(&replies),
        Run { requests: 10, waited: 0, ending: Ending::Settled(Verdict::Valid) }
    );
}

#[test]
fn no_replies_no_requests() {
    assert_eq!(replay(&Vec::new()), Run { requests: 0, waited: 0, ending: Ending::Pending });
}
