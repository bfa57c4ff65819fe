//! The configuration of a monitor, and its validation.
//!
//! A configuration is checked once, before the first round is dispatched, so
//! that a bad one stops the monitor at the door and not inside a worker.

use vstd::prelude::*;

verus! {

/// The size of the worker pool where none is given.
pub const DEFAULT_WORKERS: usize = 8;

/// The time allowed to one attempt where none is given: five seconds.
pub const DEFAULT_TIMEOUT_MS: u64 = 5_000;

/// The retries per check where none are given.
pub const DEFAULT_MAX_RETRIES: u32 = 3;

/// The pause between two rounds where none is given: one minute.
pub const DEFAULT_INTERVAL_MS: u64 = 60_000;

/// Why a configuration is refused.
#[derive(Clone, Copy, Debug, PartialEq, Eq)]
pub enum ConfigError {
    /// A pool of no workers can check nothing.
    ZeroWorkers,
    /// The endpoint at this index is the empty string.
    EmptyEndpoint(usize),
}

/// What a monitor is run with.
#[derive(Clone, Debug, PartialEq, Eq)]
pub struct Config {
    /// The endpoints to check, in the order that decides which worker checks
    /// which.
    pub endpoints: Vec<String>,
    /// The size of the worker pool.
    pub num_workers: usize,
    /// The time allowed to each single attempt, in milliseconds.
    pub timeout_ms: u64,
    /// How many times a failed attempt is followed by another.
    pub max_retries: u32,
    /// The pause between the end of one round and the start of the next, in
    /// milliseconds.
    pub interval_ms: u64,
}

/// The mathematical value of a [`Config`].
pub struct ConfigView {
    pub endpoints: Seq<Seq<char>>,
    pub num_workers: nat,
    pub timeout_ms: nat,
    pub max_retries: nat,
    pub interval_ms: nat,
}

impl View for Config {
    type V = ConfigView;

    open spec fn view(&self) -> ConfigView {
        ConfigView {
            endpoints: self.endpoints.deep_view(),
            num_workers: self.num_workers as nat,
            timeout_ms: self.timeout_ms as nat,
            max_retries: self.max_retries as nat,
            interval_ms: self.interval_ms as nat,
        }
    }
}

/// Whether no endpoint before `upto` is the empty string.
pub open spec fn all_named(endpoints: Seq<Seq<char>>, upto: int) -> bool {
    forall|i: int| 0 <= i < upto && i < endpoints.len() ==> (#[trigger] endpoints[i]).len() > 0
}

/// Whether a monitor can run with this configuration: it has a worker, and
/// every endpoint has a name.
pub open spec fn acceptable(config: ConfigView) -> bool {
    config.num_workers >= 1 && all_named(config.endpoints, config.endpoints.len() as int)
}

impl Config {
    /// The configuration that checks `endpoints` with eight workers, five
    /// seconds per attempt, three retries, and a minute between rounds.
    pub fn with_defaults(endpoints: Vec<String>) -> (config: Config)
        ensures
            config@ == (ConfigView {
                endpoints: endpoints.deep_view(),
                num_workers: 8,
                timeout_ms: 5_000,
                max_retries: 3,
                interval_ms: 60_000,
            }),
    {
        Config {
            endpoints,
            num_workers: DEFAULT_WORKERS,
            timeout_ms: DEFAULT_TIMEOUT_MS,
            max_retries: DEFAULT_MAX_RETRIES,
            interval_ms: DEFAULT_INTERVAL_MS,
        }
    }

    /// Accepts the configuration or names the first thing wrong with it. An
    /// empty pool is reported before any endpoint is looked at; of the
    /// endpoints without a name, the first is reported. A list of no
    /// endpoints is in order.
    pub fn validate(&self) -> (checked: Result<(), ConfigError>)
        ensures
            checked is Ok <==> acceptable(self@),
            checked == Err::<(), ConfigError>(ConfigError::ZeroWorkers) <==> self@.num_workers == 0,
            checked matches Err(ConfigError::EmptyEndpoint(at)) ==> {
                &&& at < self@.endpoints.len()
                &&& self@.endpoints[at as int].len() == 0
                &&& all_named(self@.endpoints, at as int)
            },
    {
        if self.num_workers == 0 {
            return Err(ConfigError::ZeroWorkers);
        }
        let mut at: usize = 0;
        while at < self.endpoints.len()
            invariant
                at <= self.endpoints.len(),
                self.num_workers >= 1,
                all_named(self@.endpoints, at as int),
            decreases self.endpoints.len() - at,
        {
            if self.endpoints[at].as_str().is_empty() {
                assert(self@.endpoints[at as int] == self.endpoints[at as int]@);
                return Err(ConfigError::EmptyEndpoint(at));
            }
            assert(self@.endpoints[at as int] == self.endpoints[at as int]@);
            at = at + 1;
        }
        Ok(())
    }
}

} // verus!
