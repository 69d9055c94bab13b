//! A signal-driven order engine for a paper-trading bot.
//!
//! The core pipeline: incoming bars are buffered per symbol in a bounded
//! FIFO window ([`buffers`]), a moving-average crossover is classified from
//! the last two points of a long- and a short-period series
//! ([`cross_gc_dc`]), and a risk-bounded share count is derived from account
//! state ([`position_sizing`]). The per-symbol state machine that ties these
//! together lives in [`evaluator`]; the outer configuration search keeps the
//! best-performing indicator configurations in a bounded ranking
//! ([`ranking`]). Network transports (market data, brokerage, indicator and
//! results services) are external collaborators; this crate holds the logic
//! between them.

pub mod actor;
pub mod buffers;
pub mod cross_gc_dc;
pub mod decisions;
pub mod evaluator;
pub mod mocking;
pub mod models;
pub mod position_sizing;
pub mod randomness;
pub mod ranking;
pub mod search;
pub mod settings;
