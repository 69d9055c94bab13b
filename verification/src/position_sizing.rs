//! Risk-bounded position sizing.
//!
//! Three pure sizing rules over integer currency amounts: how many shares to
//! buy, sell or short given account state and two percentage-of-portfolio
//! risk limits. All rounding floors toward zero, so the configured limits
//! are approached but never exceeded; the lemma-grade ceiling clauses in the
//! `ensures` of each method state that exactly.

use vstd::arithmetic::div_mod::{
    lemma_div_is_ordered, lemma_div_multiples_vanish, lemma_div_nonincreasing,
    lemma_remainder_lower,
};
use vstd::prelude::*;

verus! {

/// Number of shares to buy, as a function of the two percentage limits and
/// the account state. Zero whenever the portfolio value or the price is not
/// positive, the per-stock position capacity is exhausted, or no positive
/// amount remains under the three ceilings (trade limit, remaining position
/// capacity, available cash).
pub open spec fn spec_buy_size(
    max_trade_percent: int,
    max_position_percent: int,
    price: int,
    portfolio: int,
    position_value: int,
    cash: int,
) -> int {
    if portfolio <= 0 || price <= 0 {
        0
    } else {
        let max_trade = portfolio * max_trade_percent / 100;
        let max_position = portfolio * max_position_percent / 100;
        let remaining = max_position - position_value;
        if remaining <= 0 {
            0
        } else {
            let bound = if max_trade <= remaining {
                max_trade
            } else {
                remaining
            };
            let value = if bound <= cash {
                bound
            } else {
                cash
            };
            if value <= 0 {
                0
            } else {
                value / price
            }
        }
    }
}

/// Number of shares to sell: the full long position, or zero when there is
/// no long position (partial sells and short initiation are out of scope
/// here).
pub open spec fn spec_sell_size(position: int) -> int {
    if position > 0 {
        position
    } else {
        0
    }
}

/// Number of shares to short, measured against the absolute value of an
/// existing short position. Zero whenever the portfolio value or the price
/// is not positive, the short capacity is exhausted, or no positive amount
/// remains under the two ceilings (trade limit, remaining short capacity).
pub open spec fn spec_short_size(
    max_trade_percent: int,
    max_position_percent: int,
    price: int,
    portfolio: int,
    position: int,
) -> int {
    if portfolio <= 0 || price <= 0 {
        0
    } else {
        let max_trade = portfolio * max_trade_percent / 100;
        let max_position = portfolio * max_position_percent / 100;
        let short_value = if position < 0 {
            (-position) * price
        } else {
            0
        };
        let remaining = max_position - short_value;
        if remaining <= 0 {
            0
        } else {
            let value = if max_trade <= remaining {
                max_trade
            } else {
                remaining
            };
            if value <= 0 {
                0
            } else {
                value / price
            }
        }
    }
}

/// Position sizing calculator for risk management.
pub struct PositionSizer {
    /// Maximum percentage of portfolio per trade (e.g., 1 = 1%).
    pub max_trade_percent: i64,
    /// Maximum percentage of portfolio per stock (e.g., 10 = 10%).
    pub max_position_percent: i64,
}

impl PositionSizer {
    /// Invariant: both limits are percentages of the portfolio value.
    pub open spec fn wf(self) -> bool {
        &&& 0 <= self.max_trade_percent <= 100
        &&& 0 <= self.max_position_percent <= 100
    }

    pub fn new(max_trade_percent: i64, max_position_percent: i64) -> (r: PositionSizer)
        requires
            0 <= max_trade_percent <= 100,
            0 <= max_position_percent <= 100,
        ensures
            r.wf(),
            r.max_trade_percent == max_trade_percent,
            r.max_position_percent == max_position_percent,
    {
        PositionSizer { max_trade_percent, max_position_percent }
    }

    /// Calculate the number of shares to buy based on portfolio value and
    /// risk limits: the floor of the largest value under all three ceilings
    /// divided by the share price. The last three clauses are the risk
    /// guarantee: the order value stays within the trade limit, keeps the
    /// position within the position limit, and stays within available cash.
    pub fn calculate_buy_size(
        &self,
        current_price: i64,
        portfolio_value: i64,
        current_position_value: i64,
        cash_available: i64,
    ) -> (r: i64)
        requires
            self.wf(),
        ensures
            r == spec_buy_size(
                self.max_trade_percent as int,
                self.max_position_percent as int,
                current_price as int,
                portfolio_value as int,
                current_position_value as int,
                cash_available as int,
            ),
            0 <= r,
            r * current_price <= portfolio_value * self.max_trade_percent / 100 || r == 0,
            current_position_value + r * current_price <= portfolio_value
                * self.max_position_percent / 100 || r == 0,
            r * current_price <= cash_available || r == 0,
    {
        if portfolio_value <= 0 || current_price <= 0 {
            return 0;
        }
        let price: u128 = current_price as u128;
        let portfolio: u128 = portfolio_value as u128;
        proof {
            assert((portfolio_value as int) * (self.max_trade_percent as int) <= (
            portfolio_value as int) * 100) by (nonlinear_arith)
                requires
                    0 <= portfolio_value as int,
                    self.max_trade_percent <= 100,
            ;
            assert((portfolio_value as int) * (self.max_position_percent as int) <= (
            portfolio_value as int) * 100) by (nonlinear_arith)
                requires
                    0 <= portfolio_value as int,
                    self.max_position_percent <= 100,
            ;
        }
        let max_trade: u128 = portfolio * (self.max_trade_percent as u128) / 100;
        let max_position: u128 = portfolio * (self.max_position_percent as u128) / 100;
        proof {
            lemma_div_nonincreasing((portfolio * (self.max_trade_percent as u128)) as int, 100);
            lemma_div_nonincreasing((portfolio * (self.max_position_percent as u128)) as int, 100);
        }
        // remaining position capacity must be positive
        if current_position_value >= 0 && current_position_value as u128 >= max_position {
            return 0;
        }
        let remaining: u128 = if current_position_value >= 0 {
            max_position - current_position_value as u128
        } else {
            max_position + ((-(current_position_value as i128)) as u128)
        };
        if cash_available <= 0 {
            return 0;
        }
        let cash: u128 = cash_available as u128;
        let bound: u128 = if max_trade <= remaining {
            max_trade
        } else {
            remaining
        };
        let value: u128 = if bound <= cash {
            bound
        } else {
            cash
        };
        if value == 0 {
            return 0;
        }
        let shares: u128 = value / price;
        proof {
            lemma_div_nonincreasing(value as int, price as int);
            lemma_remainder_lower(value as int, price as int);
            assert(shares <= cash);
        }
        shares as i64
    }

    /// Calculate the number of shares to sell based on the current
    /// position: the full long position in one action, or zero when there
    /// is none.
    pub fn calculate_sell_size(
        &self,
        current_position: i64,
        current_price: i64,
        portfolio_value: i64,
    ) -> (r: i64)
        ensures
            r == spec_sell_size(current_position as int),
            0 <= r,
    {
        if current_position > 0 {
            current_position
        } else {
            0
        }
    }

    /// Calculate the number of shares to short based on portfolio value and
    /// risk limits, measured against the absolute value of an existing
    /// short. The last two clauses are the risk guarantee: the order value
    /// stays within the trade limit and keeps the total short value within
    /// the position limit.
    pub fn calculate_short_size(
        &self,
        current_price: i64,
        portfolio_value: i64,
        current_position: i64,
    ) -> (r: i64)
        requires
            self.wf(),
        ensures
            r == spec_short_size(
                self.max_trade_percent as int,
                self.max_position_percent as int,
                current_price as int,
                portfolio_value as int,
                current_position as int,
            ),
            0 <= r,
            r * current_price <= portfolio_value * self.max_trade_percent / 100 || r == 0,
            (if current_position < 0 {
                (-current_position) * current_price
            } else {
                0
            }) + r * current_price <= portfolio_value * self.max_position_percent / 100 || r == 0,
    {
        if portfolio_value <= 0 || current_price <= 0 {
            return 0;
        }
        let price: u128 = current_price as u128;
        let portfolio: u128 = portfolio_value as u128;
        proof {
            assert((portfolio_value as int) * (self.max_trade_percent as int) <= (
            portfolio_value as int) * 100) by (nonlinear_arith)
                requires
                    0 <= portfolio_value as int,
                    self.max_trade_percent <= 100,
            ;
            assert((portfolio_value as int) * (self.max_position_percent as int) <= (
            portfolio_value as int) * 100) by (nonlinear_arith)
                requires
                    0 <= portfolio_value as int,
                    self.max_position_percent <= 100,
            ;
        }
        let max_trade: u128 = portfolio * (self.max_trade_percent as u128) / 100;
        let max_position: u128 = portfolio * (self.max_position_percent as u128) / 100;
        proof {
            lemma_div_is_ordered(
                (portfolio * (self.max_trade_percent as u128)) as int,
                (portfolio_value as int) * 100,
                100,
            );
            lemma_div_multiples_vanish(portfolio_value as int, 100);
            lemma_div_nonincreasing((portfolio * (self.max_position_percent as u128)) as int, 100);
            assert(max_trade <= portfolio);
        }
        proof {
            assert((0 - current_position as int) * (current_price as int)
                < 0x4000_0000_0000_0000_0000_0000_0000_0000) by (nonlinear_arith)
                requires
                    (current_position as int) >= -0x8000_0000_0000_0000,
                    0 < (current_price as int),
                    (current_price as int) < 0x8000_0000_0000_0000,
            ;
        }
        let short_value: u128 = if current_position < 0 {
            ((-(current_position as i128)) as u128) * price
        } else {
            0
        };
        if short_value >= max_position {
            return 0;
        }
        let remaining: u128 = max_position - short_value;
        let value: u128 = if max_trade <= remaining {
            max_trade
        } else {
            remaining
        };
        if value == 0 {
            return 0;
        }
        let shares: u128 = value / price;
        proof {
            lemma_div_nonincreasing(value as int, price as int);
            lemma_remainder_lower(value as int, price as int);
            assert(shares <= portfolio);
        }
        shares as i64
    }
}

} // verus!

