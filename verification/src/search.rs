//! Per-episode decisions of the configuration search.
//!
//! The search loop itself performs network work — brokerage resets, the
//! historical replay, the gain query — and so runs outside this crate; the
//! decisions it takes between those calls are here.

use crate::evaluator::{OrderIntent, SMAConfig};
use crate::ranking::{insert_ranked, BestConfigsRanking};
use vstd::prelude::*;

verus! {

/// At episode end a residual long position is liquidated in full at the
/// last observed close price, bypassing the sizer; anything else leaves no
/// order.
pub fn liquidation_order(position: i64, last_close: i64) -> (r: Option<OrderIntent>)
    ensures
        position > 0 ==> r == Some(
            OrderIntent::Sell { count: position, price_per_share: last_close },
        ),
        position <= 0 ==> r is None,
{
    if position > 0 {
        Some(OrderIntent::Sell { count: position, price_per_share: last_close })
    } else {
        None
    }
}

/// Fold one episode's outcome into the ranking: a measured gain is
/// recorded under its truncated integer key; an unavailable gain leaves
/// the ranking untouched and the search simply moves on.
pub fn record_episode(
    ranking: &mut BestConfigsRanking,
    config: SMAConfig,
    gain: Option<i64>,
) -> (recorded: bool)
    requires
        old(ranking).wf(),
    ensures
        final(ranking).wf(),
        final(ranking).spec_top_n() == old(ranking).spec_top_n(),
        gain matches Some(g) ==> recorded && final(ranking).spec_entries() == insert_ranked(
            old(ranking).spec_entries(),
            g,
            config,
            old(ranking).spec_top_n(),
        ),
        gain is None ==> !recorded && final(ranking).spec_entries() == old(
            ranking,
        ).spec_entries(),
{
    match gain {
        Some(g) => {
            ranking.insert(g, config);
            true
        },
        None => false,
    }
}

} // verus!
