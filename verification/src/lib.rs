//! The core of an uptime monitor.
//!
//! A monitor checks a fixed list of HTTP endpoints round after round. In each
//! round a pool of workers shares the list out by index, every worker checks
//! its endpoints one after the other, retrying the checks that fail, and one
//! record per endpoint is passed on as soon as it is there. When every worker
//! has finished, the monitor pauses and starts over.
//!
//! This library holds the decisions: when a check is retried and when it is
//! over ([`prober`]), which worker checks which endpoint ([`partition`]),
//! whether a record fits the round and when the round is complete
//! ([`collector`]), when the next round may start ([`scheduler`]), and whether
//! a configuration can be run at all ([`config`]). It makes no HTTP call,
//! starts no thread, prints nothing and never sleeps; the caller does, and
//! tells the library what came of it. The only thing the library reaches for
//! itself is the clock that measures a check ([`clock`]).

pub mod clock;
pub mod collector;
pub mod config;
pub mod partition;
pub mod prober;
pub mod record;
pub mod scheduler;
