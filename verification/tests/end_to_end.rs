//! A 25-bar historical replay through the whole engine, with an in-memory
//! paper broker and a simple-moving-average indicator standing in for the
//! external services.

use trader_bot::evaluator::{
    decide_order, signal_from_series, AccountSnapshot, BarStep, Evaluator, OrderIntent, SMAConfig,
    Signal,
};
use trader_bot::mocking::values_to_bar;
use trader_bot::position_sizing::PositionSizer;
use trader_bot::search::liquidation_order;

/// Same-length simple moving average: each point averages the window of up
/// to `period` values ending there.
fn sma(values: &[i64], period: usize) -> Vec<i64> {
    let mut out = Vec::new();
    for i in 0..values.len() {
        let start = (i + 1).saturating_sub(period);
        let window = &values[start..=i];
        let sum: i64 = window.iter().sum();
        out.push(sum / window.len() as i64);
    }
    out
}

struct PaperBroker {
    cash: i64,
    position: i64,
}

impl PaperBroker {
    fn snapshot(&self, price: i64) -> AccountSnapshot {
        AccountSnapshot {
            portfolio_value: self.cash + self.position * price,
            cash_available: self.cash,
            position: self.position,
        }
    }

    fn execute(&mut self, order: &OrderIntent) {
        match *order {
            OrderIntent::Buy { count, price_per_share } => {
                self.cash -= count * price_per_share;
                self.position += count;
            }
            OrderIntent::Sell { count, price_per_share } => {
                self.cash += count * price_per_share;
                self.position -= count;
            }
        }
    }
}

#[test]
fn test_25_bar_replay_emits_orders_only_after_activation() {
    let mut closes: Vec<i64> = Vec::new();
    closes.extend(std::iter::repeat(100).take(15));
    closes.extend([90, 80, 70, 60, 50]);
    closes.extend([120, 130, 140, 150, 160]);
    assert_eq!(closes.len(), 25);

    let mut ev = Evaluator::new(100);
    ev.set_config(SMAConfig { long_range: 20, short_range: 5 });
    let sizer = PositionSizer::new(1, 10);
    let mut broker = PaperBroker { cash: 100_000, position: 0 };

    let mut orders: Vec<(usize, OrderIntent)> = Vec::new();
    for (i, close) in closes.iter().enumerate() {
        let bar = values_to_bar("ORCL", i as i64, *close, *close, *close + 1, *close - 1, 1000);
        let step = ev.eval_bar(bar);
        match step {
            BarStep::Accumulating | BarStep::InsufficientHistory => {
                // the first 19 steps never reach an evaluation
                assert!(i < 19);
            }
            BarStep::Evaluate(req) => {
                assert!(i >= 19);
                let long_series = sma(&req.closes, req.long_period);
                let short_series = sma(&req.closes, req.short_period);
                let signal = signal_from_series(&long_series, &short_series);
                // at most one signal per step, so at most one order per bar
                if let Some(signal) = signal {
                    let acct = broker.snapshot(req.price);
                    if let Some(order) = decide_order(&sizer, signal, req.price, acct) {
                        if matches!(signal, Signal::Bullish) {
                            assert!(matches!(order, OrderIntent::Buy { .. }));
                        } else {
                            assert!(matches!(order, OrderIntent::Sell { .. }));
                        }
                        broker.execute(&order);
                        orders.push((i, order));
                    }
                }
            }
        }
    }

    // the price recovery produces a golden cross and a buy; no order
    // before the activation threshold
    assert!(!orders.is_empty());
    assert!(orders.iter().all(|(i, _)| *i >= 19));
    assert!(orders
        .iter()
        .any(|(_, o)| matches!(o, OrderIntent::Buy { .. })));
    assert!(broker.position > 0);
    assert!(broker.cash < 100_000);

    // end of stream: the residual long position is liquidated in full at
    // the last close
    let last_close = *closes.last().unwrap();
    let final_order = liquidation_order(broker.position, last_close).unwrap();
    assert_eq!(
        final_order,
        OrderIntent::Sell { count: broker.position, price_per_share: last_close }
    );
    broker.execute(&final_order);
    assert_eq!(broker.position, 0);
    // buying the dip and selling the recovery realizes a gain
    assert!(broker.cash > 100_000);
}
