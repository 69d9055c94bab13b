//! Process configuration consumed by the engine.
//!
//! The built-in defaults live here with the validation rules; overlaying
//! them from configuration files or the environment is I/O and happens
//! outside this crate.

use vstd::prelude::*;

verus! {

/// A malformed startup configuration; fatal at startup only.
#[derive(Debug, Clone, Copy, PartialEq, Eq, Structural)]
pub enum ConfigError {
    /// A required endpoint or credential is empty.
    MissingSetting,
    /// A risk limit or the retention bound is out of range.
    InvalidLimits,
}

/// Connection endpoints, credentials and the engine limits the core
/// respects.
#[derive(Debug, Clone)]
pub struct Settings {
    pub depot_url: String,
    pub api_key_id: String,
    pub api_secret_key: String,
    pub api_base_url: String,
    pub indicator_url: String,
    /// Replay bars from a file instead of the live feed.
    pub use_mock_data: bool,
    pub mock_file_path: String,
    /// How many episodes the configuration search runs.
    pub eval_iterations: u64,
    /// How many best configurations the ranking retains.
    pub top_n_configs: usize,
    /// Maximum percentage of portfolio per trade.
    pub max_trade_percent: i64,
    /// Maximum percentage of portfolio per stock.
    pub max_position_percent: i64,
}

impl Settings {
    /// A required endpoint or credential is empty.
    pub open spec fn spec_missing(self) -> bool {
        ||| self.depot_url@.len() == 0
        ||| self.api_key_id@.len() == 0
        ||| self.api_secret_key@.len() == 0
        ||| self.api_base_url@.len() == 0
        ||| self.indicator_url@.len() == 0
    }

    /// A risk limit or the retention bound is out of range.
    pub open spec fn spec_invalid_limits(self) -> bool {
        ||| !(0 <= self.max_trade_percent <= 100)
        ||| !(0 <= self.max_position_percent <= 100)
        ||| self.top_n_configs == 0
    }

    /// The built-in defaults; always well-formed.
    pub fn new() -> (r: Result<Settings, ConfigError>)
        ensures
            r matches Ok(s) && {
                &&& s.depot_url@ == "http://[::1]:50051"@
                &&& s.api_key_id@ == "FAKE_API_KEY"@
                &&& s.api_secret_key@ == "FAKE_SECRET_KEY"@
                &&& s.api_base_url@ == "https://paper-api.alpaca.markets"@
                &&& s.indicator_url@ == "http://[::1]:50052"@
                &&& s.use_mock_data == false
                &&& s.mock_file_path@ == "files/orcl.csv"@
                &&& s.eval_iterations == 10u64
                &&& s.top_n_configs == 5usize
                &&& s.max_trade_percent == 1i64
                &&& s.max_position_percent == 10i64
            },
    {
        Ok(
            Settings {
                depot_url: "http://[::1]:50051".to_string(),
                api_key_id: "FAKE_API_KEY".to_string(),
                api_secret_key: "FAKE_SECRET_KEY".to_string(),
                api_base_url: "https://paper-api.alpaca.markets".to_string(),
                indicator_url: "http://[::1]:50052".to_string(),
                use_mock_data: false,
                mock_file_path: "files/orcl.csv".to_string(),
                eval_iterations: 10,
                top_n_configs: 5,
                max_trade_percent: 1,
                max_position_percent: 10,
            },
        )
    }

    /// Check the configuration: missing settings are reported first, then
    /// out-of-range limits; a valid configuration passes.
    pub fn validate(&self) -> (r: Result<(), ConfigError>)
        ensures
            r is Ok <==> !self.spec_missing() && !self.spec_invalid_limits(),
            r == Err::<(), ConfigError>(ConfigError::MissingSetting) <==> self.spec_missing(),
            r == Err::<(), ConfigError>(ConfigError::InvalidLimits) <==> !self.spec_missing()
                && self.spec_invalid_limits(),
    {
        if self.depot_url.as_str().is_empty() || self.api_key_id.as_str().is_empty()
            || self.api_secret_key.as_str().is_empty() || self.api_base_url.as_str().is_empty()
            || self.indicator_url.as_str().is_empty() {
            return Err(ConfigError::MissingSetting);
        }
        if self.max_trade_percent < 0 || self.max_trade_percent > 100 || self.max_position_percent
            < 0 || self.max_position_percent > 100 || self.top_n_configs == 0 {
            return Err(ConfigError::InvalidLimits);
        }
        Ok(())
    }
}

} // verus!
