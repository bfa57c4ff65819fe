use uptime_monitor::config::{
    Config, ConfigError, DEFAULT_INTERVAL_MS, DEFAULT_MAX_RETRIES, DEFAULT_TIMEOUT_MS,
    DEFAULT_WORKERS,
};

fn endpoints(names: &[&str]) -> Vec<String> {
    names.iter().map(|name| name.to_string()).collect()
}

#[test]
fn the_defaults_are_the_documented_ones() {
    let config = Config::with_defaults(endpoints(&["https://a.test", "https://b.test"]));
    assert_eq!(config.endpoints, endpoints(&["https://a.test", "https://b.test"]));
    assert_eq!(config.num_workers, 8);
    assert_eq!(config.timeout_ms, 5_000);
    assert_eq!(config.max_retries, 3);
    assert_eq!(config.interval_ms, 60_000);
    assert_eq!(
        (DEFAULT_WORKERS, DEFAULT_TIMEOUT_MS, DEFAULT_MAX_RETRIES, DEFAULT_INTERVAL_MS),
        (8, 5_000, 3, 60_000)
    );
    assert_eq!(config.validate(), Ok(()));
}

#[test]
fn a_configuration_without_workers_is_refused() {
    let mut config = Config::with_defaults(endpoints(&["https://a.test"]));
    config.num_workers = 0;
    assert_eq!(config.validate(), Err(ConfigError::ZeroWorkers));
}

#[test]
fn an_endpoint_without_a_name_is_refused() {
    let config = Config::with_defaults(endpoints(&["https://a.test", "", "https://c.test", ""]));
    assert_eq!(config.validate(), Err(ConfigError::EmptyEndpoint(1)));
}

#[test]
fn the_empty_pool_is_reported_before_the_endpoints() {
    let mut config = Config::with_defaults(endpoints(&["", "https://b.test"]));
    config.num_workers = 0;
    assert_eq!(config.validate(), Err(ConfigError::ZeroWorkers));
}

#[test]
fn a_list_of_no_endpoints_is_in_order() {
    let config = Config::with_defaults(Vec::new());
    assert_eq!(config.validate(), Ok(()));
}

#[test]
fn more_workers_than_endpoints_are_in_order() {
    let mut config = Config::with_defaults(endpoints(&["https://a.test"]));
    config.num_workers = 64;
    config.max_retries = 0;
    assert_eq!(config.validate(), Ok(()));
}
