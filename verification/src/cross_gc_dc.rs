//! Moving-average crossover classification.
//!
//! Both detectors look at the last two points of a long-period series
//! (`high`) and a short-period series (`low`), taken from the same two most
//! recent time steps: `.0` is the earlier point, `.1` the later one.

use vstd::prelude::*;

verus! {

/// The short series overtakes the long series upward between the two steps
/// (a golden cross).
pub open spec fn bullish_cross(high: (i64, i64), low: (i64, i64)) -> bool {
    high.0 > low.0 && low.1 > high.1
}

/// The short series falls below the long series between the two steps
/// (a death cross).
pub open spec fn bearish_cross(high: (i64, i64), low: (i64, i64)) -> bool {
    high.0 < low.0 && low.1 < high.1
}

/// Golden-cross detector: `Some(true)` on a bullish cross, `Some(false)` on
/// a bearish cross, `None` when the series do not cross.
pub fn gc(high: (i64, i64), low: (i64, i64)) -> (r: Option<bool>)
    ensures
        r == Some(true) <==> bullish_cross(high, low),
        r == Some(false) <==> bearish_cross(high, low),
        r is None <==> !bullish_cross(high, low) && !bearish_cross(high, low),
{
    if high.0 > low.0 && low.1 > high.1 {
        return Some(true);
    } else if high.0 < low.0 && low.1 < high.1 {
        return Some(false);
    }
    None
}

/// Death-cross detector: `Some(true)` on a bearish cross, `None` otherwise.
pub fn dc(high: (i64, i64), low: (i64, i64)) -> (r: Option<bool>)
    ensures
        r == Some(true) <==> bearish_cross(high, low),
        r is None <==> !bearish_cross(high, low),
{
    if high.0 < low.0 && low.1 < high.1 {
        return Some(true);
    }
    None
}

/// The two crossing predicates are mutually exclusive: no pair of series
/// deltas is classified both bullish and bearish, so one evaluation step can
/// act on at most one of the two signals.
pub proof fn lemma_cross_signals_exclusive(high: (i64, i64), low: (i64, i64))
    ensures
        !(bullish_cross(high, low) && bearish_cross(high, low)),
{
}

} // verus!
