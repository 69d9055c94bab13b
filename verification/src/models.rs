//! The durable record of one search episode.

use crate::evaluator::SMAConfig;
use vstd::prelude::*;

verus! {

/// The outcome of one evaluation episode: the sampled configuration, the
/// replayed symbol, the realized gain and when the episode ended. Created
/// at episode end, persisted by the results store, never mutated
/// thereafter.
#[derive(Debug, Clone)]
pub struct RunResult {
    /// Identifier assigned by the results store; absent until persisted.
    pub id: Option<String>,
    pub config: SMAConfig,
    pub symbol: String,
    /// Realized gain, truncated to the integer currency unit.
    pub gain: i64,
    /// Seconds since the Unix epoch at episode end.
    pub timestamp: i64,
}

/// Relies on `chrono::Utc::now` and `DateTime::timestamp`: the current
/// wall-clock time as seconds since the Unix epoch. Nothing is promised of
/// the value.
#[verifier::external_body]
pub(crate) fn now_epoch() -> i64 {
    chrono::Utc::now().timestamp()
}

impl RunResult {
    /// A fresh, not-yet-persisted result for one episode, stamped with the
    /// current time.
    pub fn new(config: SMAConfig, symbol: String, gain: i64) -> (r: RunResult)
        ensures
            r.id is None,
            r.config == config,
            r.symbol@ == symbol@,
            r.gain == gain,
    {
        RunResult { id: None, config, symbol, gain, timestamp: now_epoch() }
    }
}

} // verus!
