//! The collecting end of the pipeline: outcomes come in, in whatever order
//! the workers finish, valid credentials go on to the sink, and two counts
//! are kept.

use vstd::prelude::*;
use crate::protocol::Verdict;

verus! {

/// The classification of one credential, as it reaches the collector.
#[derive(Clone, Debug, PartialEq, Eq)]
pub enum ValidationOutcome {
    /// The endpoint accepted the credential that is carried along.
    Valid(String),
    /// It did not, or could not be asked.
    Invalid,
}

/// The two counts of a run.
#[derive(Clone, Copy, Debug, PartialEq, Eq, Structural)]
pub struct RunStats {
    /// How many credentials were classified.
    pub total_processed: usize,
    /// How many of them were classified as valid.
    pub total_valid: usize,
}

/// The outcome that a worker reports for `credential` once its exchange has
/// settled with `verdict`.
pub open spec fn outcome_of(credential: String, verdict: Verdict) -> ValidationOutcome {
    match verdict {
        Verdict::Valid => ValidationOutcome::Valid(credential),
        Verdict::Invalid => ValidationOutcome::Invalid,
    }
}

/// The credentials that go on to the sink: those of the valid outcomes, in
/// the order in which the outcomes came in.
pub open spec fn forwarded(outcomes: Seq<ValidationOutcome>) -> Seq<String>
    decreases outcomes.len(),
{
    if outcomes.len() == 0 {
        Seq::empty()
    } else {
        match outcomes.last() {
            ValidationOutcome::Valid(credential) => forwarded(outcomes.drop_last()).push(
                credential,
            ),
            ValidationOutcome::Invalid => forwarded(outcomes.drop_last()),
        }
    }
}

/// How many of the outcomes are valid.
pub open spec fn valid_count(outcomes: Seq<ValidationOutcome>) -> nat {
    forwarded(outcomes).len()
}

/// There are never more valid outcomes than outcomes.
pub proof fn lemma_valid_within_total(outcomes: Seq<ValidationOutcome>)
    ensures
        valid_count(outcomes) <= outcomes.len(),
    decreases outcomes.len(),
{
    if outcomes.len() > 0 {
        lemma_valid_within_total(outcomes.drop_last());
    }
}

impl ValidationOutcome {
    /// The outcome for `credential` under `verdict`: the credential is kept
    /// where it is valid and dropped where it is not.
    pub fn settle(credential: String, verdict: Verdict) -> (outcome: ValidationOutcome)
        ensures
            outcome == outcome_of(credential, verdict),
    {
        match verdict {
            Verdict::Valid => ValidationOutcome::Valid(credential),
            Verdict::Invalid => ValidationOutcome::Invalid,
        }
    }

    /// An outcome equal to this one.
    pub fn duplicate(&self) -> (copy: ValidationOutcome)
        ensures
            copy == *self,
    {
        match self {
            ValidationOutcome::Valid(credential) => ValidationOutcome::Valid(credential.clone()),
            ValidationOutcome::Invalid => ValidationOutcome::Invalid,
        }
    }
}

/// The single consumer of outcomes. It alone keeps the counts.
pub struct Collector {
    processed: usize,
    valid: usize,
    seen: Ghost<Seq<ValidationOutcome>>,
}

impl Collector {
    #[verifier::type_invariant]
    spec fn well_formed(self) -> bool {
        &&& self.processed == self.seen@.len()
        &&& self.valid == valid_count(self.seen@)
    }

    /// The outcomes taken in so far, oldest first.
    pub closed spec fn seen(&self) -> Seq<ValidationOutcome> {
        self.seen@
    }

    /// A collector that has seen nothing.
    pub fn new() -> (collector: Collector)
        ensures
            collector.seen() == Seq::<ValidationOutcome>::empty(),
    {
        Collector { processed: 0, valid: 0, seen: Ghost(Seq::empty()) }
    }

    /// Whether one more outcome can be counted.
    pub fn has_room(&self) -> (room: bool)
        ensures
            room == (self.seen().len() < usize::MAX),
    {
        proof {
            use_type_invariant(self);
        }
        self.processed < usize::MAX
    }

    /// Takes one outcome in. A valid one hands its credential on, to be
    /// written to the sink; an invalid one is only counted.
    pub fn accept(&mut self, outcome: ValidationOutcome) -> (forward: Option<String>)
        requires
            old(self).seen().len() < usize::MAX,
        ensures
            final(self).seen() == old(self).seen().push(outcome),
            forward == match outcome {
                ValidationOutcome::Valid(credential) => Some(credential),
                ValidationOutcome::Invalid => None,
            },
    {
        proof {
            use_type_invariant(&*self);
            lemma_valid_within_total(self.seen@);
            assert(self.seen@.push(outcome).drop_last() =~= self.seen@);
        }
        let ghost seen = self.seen@.push(outcome);
        match outcome {
            ValidationOutcome::Valid(credential) => {
                *self = Collector {
                    processed: self.processed + 1,
                    valid: self.valid + 1,
                    seen: Ghost(seen),
                };
                Some(credential)
            },
            ValidationOutcome::Invalid => {
                *self = Collector {
                    processed: self.processed + 1,
                    valid: self.valid,
                    seen: Ghost(seen),
                };
                None
            },
        }
    }

    /// The counts so far: every outcome taken in is counted once, and the
    /// valid ones among them once more.
    pub fn report(&self) -> (stats: RunStats)
        ensures
            stats.total_processed == self.seen().len(),
            stats.total_valid == valid_count(self.seen()),
            stats.total_valid <= stats.total_processed,
    {
        proof {
            use_type_invariant(self);
            lemma_valid_within_total(self.seen@);
        }
        RunStats { total_processed: self.processed, total_valid: self.valid }
    }
}

/// Drains a finished run: the counts over all its outcomes, and the
/// credentials that go to the sink, in the order of arrival.
pub fn collect(outcomes: &Vec<ValidationOutcome>) -> (drained: (RunStats, Vec<String>))
    ensures
        drained.0.total_processed == outcomes@.len(),
        drained.0.total_valid == valid_count(outcomes@),
        drained.0.total_valid <= drained.0.total_processed,
        drained.1@ == forwarded(outcomes@),
{
    let n: usize = outcomes.len();
    let mut collector = Collector::new();
    let mut sink: Vec<String> = Vec::new();
    let mut i: usize = 0;
    while i < n
        invariant
            i <= n,
            n == outcomes@.len(),
            collector.seen() == outcomes@.take(i as int),
            sink@ == forwarded(outcomes@.take(i as int)),
        decreases n - i,
    {
        proof {
            assert(outcomes@.take(i + 1).drop_last() =~= outcomes@.take(i as int));
            assert(outcomes@.take(i + 1) =~= outcomes@.take(i as int).push(outcomes@[i as int]));
        }
        match collector.accept(outcomes[i].duplicate()) {
            Some(credential) => {
                sink.push(credential);
            },
            None => {},
        }
        i = i + 1;
    }
    proof {
        assert(outcomes@.take(n as int) =~= outcomes@);
    }
    (collector.report(), sink)
}

/// A credential reaches the sink as often as it came in with a valid
/// outcome.
pub proof fn lemma_forwarded_count(outcomes: Seq<ValidationOutcome>, credential: String)
    ensures
        forwarded(outcomes).to_multiset().count(credential) == outcomes.to_multiset().count(
            ValidationOutcome::Valid(credential),
        ),
    decreases outcomes.len(),
{
    broadcast use vstd::seq_lib::group_to_multiset_ensures;

    if outcomes.len() == 0 {
        assert(forwarded(outcomes).to_multiset().len() == 0);
        assert(outcomes.to_multiset().len() == 0);
    } else {
        let front = outcomes.drop_last();
        lemma_forwarded_count(front, credential);
        assert(outcomes =~= front.push(outcomes.last()));
        assert(outcomes.to_multiset() =~= front.to_multiset().insert(outcomes.last()));
        match outcomes.last() {
            ValidationOutcome::Valid(other) => {
                assert(forwarded(outcomes).to_multiset() =~= forwarded(front).to_multiset().insert(
                    other,
                ));
            },
            ValidationOutcome::Invalid => {},
        }
    }
}

/// The order in which outcomes arrive changes nothing that a run reports:
/// two arrivals of the same outcomes give the same two counts and send the
/// same credentials to the sink, each as often.
pub proof fn law_arrival_order_is_immaterial(
    first: Seq<ValidationOutcome>,
    second: Seq<ValidationOutcome>,
)
    requires
        first.to_multiset() == second.to_multiset(),
    ensures
        first.len() == second.len(),
        valid_count(first) == valid_count(second),
        forwarded(first).to_multiset() == forwarded(second).to_multiset(),
{
    broadcast use vstd::seq_lib::group_to_multiset_ensures;

    assert(first.len() == first.to_multiset().len());
    assert(second.len() == second.to_multiset().len());
    assert forall|credential: String|
        forwarded(first).to_multiset().count(credential) == forwarded(
            second,
        ).to_multiset().count(credential) by {
        lemma_forwarded_count(first, credential);
        lemma_forwarded_count(second, credential);
    }
    assert(forwarded(first).to_multiset() =~= forwarded(second).to_multiset());
    assert(forwarded(first).len() == forwarded(first).to_multiset().len());
    assert(forwarded(second).len() == forwarded(second).to_multiset().len());
}

/// The outcomes that `credentials` give when the exchange of each settles
/// with the verdict at the same place in `verdicts`.
pub open spec fn outcomes_for(credentials: Seq<String>, verdicts: Seq<Verdict>) -> Seq<
    ValidationOutcome,
> {
    Seq::new(credentials.len(), |i: int| outcome_of(credentials[i], verdicts[i]))
}

/// Every credential is counted exactly once: however the outcomes of `K`
/// credentials arrive, a run that has drained them all has processed `K`, and
/// has found valid as many as were settled so.
pub proof fn law_every_credential_counted(
    credentials: Seq<String>,
    verdicts: Seq<Verdict>,
    arrived: Seq<ValidationOutcome>,
)
    requires
        verdicts.len() == credentials.len(),
        arrived.to_multiset() == outcomes_for(credentials, verdicts).to_multiset(),
    ensures
        arrived.len() == credentials.len(),
        valid_count(arrived) == valid_count(outcomes_for(credentials, verdicts)),
        valid_count(arrived) <= arrived.len(),
{
    law_arrival_order_is_immaterial(arrived, outcomes_for(credentials, verdicts));
    lemma_valid_within_total(arrived);
}

} // verus!
