use dns_optimizer::config::ResolverConfigModel;
use dns_optimizer::model::Candidate;
use dns_optimizer::model::ProbeStatus;
use dns_optimizer::pipeline::Action;
use dns_optimizer::pipeline::Event;
use dns_optimizer::pipeline::Pipeline;
use dns_optimizer::pipeline::PipelineError;
use dns_optimizer::pipeline::Stage;

fn candidate(name: &str, address: &str) -> Candidate {
    Candidate { name: name.to_string(), address: address.to_string() }
}

/// Run a whole pipeline against the in-memory configuration model and a
/// probe function from address to (total elapsed micros, succeeded, timed
/// out).  Returns the finished pipeline and every address an apply was
/// requested for.
fn drive(
    catalog: Vec<Candidate>,
    probe: &dyn Fn(&str) -> (u64, bool, bool),
    config: &mut ResolverConfigModel,
) -> (Pipeline, Vec<String>) {
    let mut pipeline = Pipeline::new(catalog, 3);
    let mut applied: Vec<String> = Vec::new();
    let mut event = Event::Start;
    loop {
        let action = pipeline.step(event);
        event = match action {
            Action::ReadState => Event::StateRead { servers: config.read() },
            Action::ResetConfig => {
                config.reset_to_automatic();
                Event::ResetApplied
            }
            Action::ProbeHost { address, .. } => {
                let (elapsed_total_micros, echo_succeeded, timed_out) = probe(&address);
                Event::ProbeMeasured { elapsed_total_micros, echo_succeeded, timed_out }
            }
            Action::ApplyConfig { address } => {
                applied.push(address.clone());
                config.apply(address);
                Event::ConfigApplied
            }
            Action::Halt => break,
        };
    }
    (pipeline, applied)
}

#[test]
fn end_to_end_fastest_server_wins() {
    // A:30ms, B:10ms, C:20ms success; D times out
    let catalog = vec![
        candidate("A", "10.0.0.1"),
        candidate("B", "10.0.0.2"),
        candidate("C", "10.0.0.3"),
        candidate("D", "10.0.0.4"),
    ];
    let probe = |address: &str| match address {
        "10.0.0.1" => (90_000, true, false),
        "10.0.0.2" => (30_000, true, false),
        "10.0.0.3" => (60_000, true, false),
        _ => (0, false, true),
    };
    let mut config = ResolverConfigModel::with_servers(vec!["192.168.1.1".to_string()]);
    let (pipeline, applied) = drive(catalog, &probe, &mut config);

    assert_eq!(pipeline.stage, Stage::Done);
    let ranked_names: Vec<&str> =
        pipeline.ranked.iter().map(|o| o.candidate.name.as_str()).collect();
    assert_eq!(ranked_names, vec!["B", "C", "A", "D"]);
    assert_eq!(applied, vec!["10.0.0.2".to_string()]);
    assert_eq!(pipeline.winner, Some("10.0.0.2".to_string()));
    assert_eq!(pipeline.initial_servers, vec!["192.168.1.1".to_string()]);
    assert_eq!(pipeline.final_servers, vec!["10.0.0.2".to_string()]);
    assert_eq!(config.read(), vec!["10.0.0.2".to_string()]);
    // mean latency of B: 30000 micros over 3 round trips
    assert_eq!(pipeline.ranked[0].latency_micros, 10_000);
    assert_eq!(pipeline.ranked[0].status, ProbeStatus::Success);
}

#[test]
fn end_to_end_every_probe_times_out() {
    let catalog = vec![
        candidate("A", "10.0.0.1"),
        candidate("B", "10.0.0.2"),
        candidate("C", "10.0.0.3"),
    ];
    let probe = |_address: &str| (0u64, false, true);
    let mut config = ResolverConfigModel::with_servers(vec!["192.168.1.1".to_string()]);
    let (pipeline, applied) = drive(catalog, &probe, &mut config);

    assert_eq!(pipeline.stage, Stage::Done);
    // failures keep catalog order
    let ranked_names: Vec<&str> =
        pipeline.ranked.iter().map(|o| o.candidate.name.as_str()).collect();
    assert_eq!(ranked_names, vec!["A", "B", "C"]);
    // no apply was ever requested and the interface stays automatic
    assert_eq!(applied, Vec::<String>::new());
    assert_eq!(pipeline.winner, None);
    assert_eq!(pipeline.final_servers, Vec::<String>::new());
    assert_eq!(config.read(), Vec::<String>::new());
}

#[test]
fn probe_failures_never_abort_the_run() {
    let catalog = vec![candidate("A", "10.0.0.1"), candidate("B", "10.0.0.2")];
    let probe = |address: &str| match address {
        "10.0.0.1" => (0, false, false), // unreachable, not fatal
        _ => (15_000, true, false),
    };
    let mut config = ResolverConfigModel::new();
    let (pipeline, applied) = drive(catalog, &probe, &mut config);
    assert_eq!(pipeline.stage, Stage::Done);
    assert_eq!(pipeline.outcomes[0].status, ProbeStatus::Unreachable);
    assert_eq!(applied, vec!["10.0.0.2".to_string()]);
}

#[test]
fn read_failure_is_fatal() {
    let mut pipeline = Pipeline::new(vec![candidate("A", "10.0.0.1")], 3);
    let action = pipeline.step(Event::Start);
    assert!(matches!(action, Action::ReadState));
    let action = pipeline.step(Event::OpFailed { error: PipelineError::ReadFailed });
    assert!(matches!(action, Action::Halt));
    assert_eq!(pipeline.stage, Stage::Failed);
    assert_eq!(pipeline.error, Some(PipelineError::ReadFailed));
}

#[test]
fn missing_tool_is_fatal() {
    let mut pipeline = Pipeline::new(vec![candidate("A", "10.0.0.1")], 3);
    pipeline.step(Event::Start);
    let action = pipeline.step(Event::OpFailed { error: PipelineError::CommandUnavailable });
    assert!(matches!(action, Action::Halt));
    assert_eq!(pipeline.stage, Stage::Failed);
    assert_eq!(pipeline.error, Some(PipelineError::CommandUnavailable));
}

#[test]
fn reset_failure_is_fatal() {
    let mut pipeline = Pipeline::new(vec![candidate("A", "10.0.0.1")], 3);
    pipeline.step(Event::Start);
    let action = pipeline.step(Event::StateRead { servers: Vec::new() });
    assert!(matches!(action, Action::ResetConfig));
    let action = pipeline.step(Event::OpFailed { error: PipelineError::ApplyFailed });
    assert!(matches!(action, Action::Halt));
    assert_eq!(pipeline.stage, Stage::Failed);
    assert_eq!(pipeline.error, Some(PipelineError::ApplyFailed));
}

#[test]
fn unexpected_event_leaves_the_machine_unchanged() {
    let mut pipeline = Pipeline::new(vec![candidate("A", "10.0.0.1")], 3);
    let action = pipeline.step(Event::ConfigApplied);
    assert!(matches!(action, Action::Halt));
    assert_eq!(pipeline.stage, Stage::Init);
    assert_eq!(pipeline.error, None);
}

#[test]
fn empty_catalog_skips_probing_and_stays_automatic() {
    let probe = |_address: &str| (0u64, true, false);
    let mut config = ResolverConfigModel::with_servers(vec!["192.168.1.1".to_string()]);
    let (pipeline, applied) = drive(Vec::new(), &probe, &mut config);
    assert_eq!(pipeline.stage, Stage::Done);
    assert_eq!(applied, Vec::<String>::new());
    assert_eq!(config.read(), Vec::<String>::new());
}

#[test]
fn probe_actions_follow_catalog_order() {
    let catalog = vec![
        candidate("A", "10.0.0.1"),
        candidate("B", "10.0.0.2"),
        candidate("C", "10.0.0.3"),
    ];
    let mut probed: Vec<String> = Vec::new();
    let mut pipeline = Pipeline::new(catalog, 3);
    let mut event = Event::Start;
    loop {
        let action = pipeline.step(event);
        event = match action {
            Action::ReadState => Event::StateRead { servers: Vec::new() },
            Action::ResetConfig => Event::ResetApplied,
            Action::ProbeHost { address, round_trips, .. } => {
                assert_eq!(round_trips, 3);
                probed.push(address);
                Event::ProbeMeasured {
                    elapsed_total_micros: 3_000,
                    echo_succeeded: true,
                    timed_out: false,
                }
            }
            Action::ApplyConfig { .. } => Event::ConfigApplied,
            Action::Halt => break,
        };
    }
    assert_eq!(
        probed,
        vec!["10.0.0.1".to_string(), "10.0.0.2".to_string(), "10.0.0.3".to_string()]
    );
    // every candidate got exactly one outcome, in catalog order
    assert_eq!(pipeline.outcomes.len(), 3);
    for (i, o) in pipeline.outcomes.iter().enumerate() {
        assert_eq!(o.candidate.address, format!("10.0.0.{}", i + 1));
    }
}
