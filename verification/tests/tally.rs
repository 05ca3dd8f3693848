use tokval::protocol::{next_step, Reply, Step, Verdict};
use tokval::tally::{collect, Collector, RunStats, ValidationOutcome};

fn stub_endpoint(token: &str) -> Reply {
    let code = if token.starts_with("good") { 200 } else { 401 };
    Reply::Status { code, retry_after: None }
}

fn run_pipeline(tokens: &[&str], arrival: &[usize]) -> (RunStats, Vec<String>) {
    let mut outcomes = Vec::new();
    for token in tokens {
        let verdict = match next_step(0, &stub_endpoint(token)).0 {
            Step::Finish(verdict) => verdict,
            other => panic!("unexpected step {:?}", other),
        };
        outcomes.push(ValidationOutcome::settle(token.to_string(), verdict));
    }
    let arrived: Vec<ValidationOutcome> = arrival.iter().map(|&i| outcomes[i].clone()).collect();
    collect(&arrived)
}

#[test]
fn three_credentials_two_good() {
    let (stats, sink) = run_pipeline(&["good1", "bad1", "good2"], &[0, 1, 2]);
    assert_eq!(stats, RunStats { total_processed: 3, total_valid: 2 });
    assert_eq!(sink, vec!["good1".to_string(), "good2".to_string()]);
}

#[test]
fn three_credentials_in_any_arrival_order() {
    let orders: [[usize; 3]; 6] =
        [[0, 1, 2], [0, 2, 1], [1, 0, 2], [1, 2, 0], [2, 0, 1], [2, 1, 0]];
    for order in orders {
        let (stats, mut sink) = run_pipeline(&["good1", "bad1", "good2"], &order);
        assert_eq!((stats.total_processed, stats.total_valid), (3, 2));
        sink.sort();
        assert_eq!(sink, vec!["good1".to_string(), "good2".to_string()]);
    }
}

#[test]
fn no_credentials_report_zero_zero() {
    let (stats, sink) = collect(&Vec::new());
    assert_eq!(stats, RunStats { total_processed: 0, total_valid: 0 });
    assert!(sink.is_empty());
    assert_eq!(Collector::new().report(), RunStats { total_processed: 0, total_valid: 0 });
}

#[test]
fn processed_equals_the_number_of_outcomes() {
    for k in 1..40usize {
        let mut outcomes = Vec::new();
        for i in 0..k {
            if i % 3 == 0 {
                outcomes.push(ValidationOutcome::Valid(format!("token{}", i)));
            } else {
                outcomes.push(ValidationOutcome::Invalid);
            }
        }
        let (stats, sink) = collect(&outcomes);
        assert_eq!(stats.total_processed, k);
        assert_eq!(stats.total_valid, (k + 2) / 3);
        assert_eq!(sink.len(), stats.total_valid);
        assert!(stats.total_valid <= stats.total_processed);
    }
}

#[test]
fn collector_forwards_valid_and_counts_all() {
    let mut collector = Collector::new();
    assert!(collector.has_room());
    assert_eq!(collector.accept(ValidationOutcome::Invalid), None);
    assert_eq!(collector.report(), RunStats { total_processed: 1, total_valid: 0 });
    assert_eq!(
        collector.accept(ValidationOutcome::Valid("abc".to_string())),
        Some("abc".to_string())
    );
    assert_eq!(collector.report(), RunStats { total_processed: 2, total_valid: 1 });
    assert_eq!(collector.accept(ValidationOutcome::Valid(String::new())), Some(String::new()));
    assert_eq!(collector.report(), RunStats { total_processed: 3, total_valid: 2 });
    assert!(collector.has_room());
}

#[test]
fn duplicates_are_counted_each_time() {
    let outcomes = vec![
        ValidationOutcome::Valid("same".to_string()),
        ValidationOutcome::Valid("same".to_string()),
        ValidationOutcome::Invalid,
    ];
    let (stats, sink) = collect(&outcomes);
    assert_eq!(stats, RunStats { total_processed: 3, total_valid: 2 });
    assert_eq!(sink, vec!["same".to_string(), "same".to_string()]);
}

#[test]
fn settle_keeps_the_credential_only_when_valid() {
    assert_eq!(
        ValidationOutcome::settle("tok".to_string(), Verdict::Valid),
        ValidationOutcome::Valid("tok".to_string())
    );
    assert_eq!(
        ValidationOutcome::settle("tok".to_string(), Verdict::Invalid),
        ValidationOutcome::Invalid
    );
}

#[test]
fn duplicate_is_equal() {
    let valid = ValidationOutcome::Valid("tok".to_string());
    assert_eq!(valid.duplicate(), valid);
    assert_eq!(ValidationOutcome::Invalid.duplicate(), ValidationOutcome::Invalid);
}
