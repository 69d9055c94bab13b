//! Building bars from plain values.
//!
//! Historical replays construct their bars from parsed records; reading
//! and parsing the files happens outside this crate, which receives plain
//! values.

use crate::buffers::Bar;
use vstd::prelude::*;

verus! {

/// Converts OHLC values to a [`Bar`]. The argument order — open, close,
/// high, low — follows the historical call sites.
pub fn values_to_bar(
    symbol: &str,
    timestamp: i64,
    open: i64,
    close: i64,
    high: i64,
    low: i64,
    volume: i64,
) -> (r: Bar)
    ensures
        r.symbol@ == symbol@,
        r.timestamp == timestamp,
        r.open == open,
        r.close == close,
        r.high == high,
        r.low == low,
        r.volume == volume,
{
    Bar { symbol: symbol.to_owned(), timestamp, open, high, low, close, volume }
}

} // verus!
