use dns_optimizer::config::ResolverConfigModel;

#[test]
fn apply_then_read_yields_exactly_that_address() {
    // independent of prior state: start from a non-trivial configuration
    let mut config = ResolverConfigModel::with_servers(vec![
        "10.0.0.1".to_string(),
        "10.0.0.2".to_string(),
    ]);
    config.apply("1.1.1.1".to_string());
    assert_eq!(config.read(), vec!["1.1.1.1".to_string()]);
}

#[test]
fn apply_then_read_from_automatic_prior_state() {
    let mut config = ResolverConfigModel::new();
    config.apply("8.8.8.8".to_string());
    assert_eq!(config.read(), vec!["8.8.8.8".to_string()]);
}

#[test]
fn reset_then_read_yields_empty() {
    let mut config = ResolverConfigModel::with_servers(vec!["9.9.9.9".to_string()]);
    config.reset_to_automatic();
    assert_eq!(config.read(), Vec::<String>::new());
}

#[test]
fn reset_is_idempotent() {
    let mut config = ResolverConfigModel::with_servers(vec!["9.9.9.9".to_string()]);
    config.reset_to_automatic();
    config.reset_to_automatic();
    assert_eq!(config.read(), Vec::<String>::new());
}

#[test]
fn apply_twice_reads_the_same_both_times() {
    let mut config = ResolverConfigModel::with_servers(vec!["4.2.2.1".to_string()]);
    config.apply("1.0.0.1".to_string());
    let first = config.read();
    config.apply("1.0.0.1".to_string());
    let second = config.read();
    assert_eq!(first, second);
    assert_eq!(second, vec!["1.0.0.1".to_string()]);
}

#[test]
fn new_model_reads_as_automatic() {
    let config = ResolverConfigModel::new();
    assert_eq!(config.read(), Vec::<String>::new());
}
