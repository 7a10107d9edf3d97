use dns_optimizer::model::Candidate;
use dns_optimizer::model::ProbeOutcome;
use dns_optimizer::model::ProbeStatus;
use dns_optimizer::rank::rank;
use dns_optimizer::rank::select_winner;

fn outcome(name: &str, address: &str, latency_micros: u64, status: ProbeStatus) -> ProbeOutcome {
    ProbeOutcome {
        candidate: Candidate { name: name.to_string(), address: address.to_string() },
        latency_micros,
        status,
    }
}

#[test]
fn ranks_by_latency_with_failures_last() {
    // catalog order: A 30ms, B 10ms, C 20ms success; D timeout
    let outcomes = vec![
        outcome("A", "10.0.0.1", 30_000, ProbeStatus::Success),
        outcome("B", "10.0.0.2", 10_000, ProbeStatus::Success),
        outcome("C", "10.0.0.3", 20_000, ProbeStatus::Success),
        outcome("D", "10.0.0.4", 0, ProbeStatus::Timeout),
    ];
    let ranked = rank(outcomes);
    let names: Vec<&str> = ranked.iter().map(|o| o.candidate.name.as_str()).collect();
    assert_eq!(names, vec!["B", "C", "A", "D"]);
}

#[test]
fn latency_non_decreasing_and_successes_first() {
    let outcomes = vec![
        outcome("A", "1.1.1.1", 500, ProbeStatus::Success),
        outcome("B", "2.2.2.2", 100, ProbeStatus::Unreachable),
        outcome("C", "3.3.3.3", 300, ProbeStatus::Success),
        outcome("D", "4.4.4.4", 200, ProbeStatus::Timeout),
        outcome("E", "5.5.5.5", 100, ProbeStatus::Success),
    ];
    let ranked = rank(outcomes);
    let mut seen_failure = false;
    let mut last_latency = 0u64;
    for o in ranked.iter() {
        if o.status == ProbeStatus::Success {
            assert!(!seen_failure, "a successful outcome came after a failure");
            assert!(o.latency_micros >= last_latency);
            last_latency = o.latency_micros;
        } else {
            seen_failure = true;
        }
    }
}

#[test]
fn ties_keep_catalog_order() {
    let outcomes = vec![
        outcome("A", "1.1.1.1", 200, ProbeStatus::Success),
        outcome("B", "2.2.2.2", 100, ProbeStatus::Success),
        outcome("C", "3.3.3.3", 200, ProbeStatus::Success),
        outcome("D", "4.4.4.4", 100, ProbeStatus::Success),
    ];
    let ranked = rank(outcomes);
    let names: Vec<&str> = ranked.iter().map(|o| o.candidate.name.as_str()).collect();
    // ties at 100 keep B before D, ties at 200 keep A before C
    assert_eq!(names, vec!["B", "D", "A", "C"]);
}

#[test]
fn all_failures_keep_catalog_order() {
    let outcomes = vec![
        outcome("A", "1.1.1.1", 900, ProbeStatus::Timeout),
        outcome("B", "2.2.2.2", 100, ProbeStatus::Unreachable),
        outcome("C", "3.3.3.3", 500, ProbeStatus::Timeout),
    ];
    let ranked = rank(outcomes);
    let names: Vec<&str> = ranked.iter().map(|o| o.candidate.name.as_str()).collect();
    assert_eq!(names, vec!["A", "B", "C"]);
}

#[test]
fn winner_is_first_ranked_success() {
    let outcomes = vec![
        outcome("A", "10.0.0.1", 30_000, ProbeStatus::Success),
        outcome("B", "10.0.0.2", 10_000, ProbeStatus::Success),
        outcome("D", "10.0.0.4", 0, ProbeStatus::Timeout),
    ];
    let ranked = rank(outcomes);
    assert_eq!(select_winner(&ranked), Some("10.0.0.2".to_string()));
}

#[test]
fn no_winner_when_all_fail() {
    let outcomes = vec![
        outcome("A", "10.0.0.1", 0, ProbeStatus::Timeout),
        outcome("B", "10.0.0.2", 0, ProbeStatus::Unreachable),
    ];
    let ranked = rank(outcomes);
    assert_eq!(select_winner(&ranked), None);
}

#[test]
fn empty_catalog_has_no_winner() {
    let ranked = rank(Vec::new());
    assert!(ranked.is_empty());
    assert_eq!(select_winner(&ranked), None);
}
