use trader_bot::actor::{buffer, Actor};
use trader_bot::buffers::Trade;
use trader_bot::evaluator::{
    decide_order, signal_from_series, AccountSnapshot, BarStep, Evaluator, OrderIntent, SMAConfig,
    Signal,
};
use trader_bot::mocking::values_to_bar;
use trader_bot::search::liquidation_order;

fn bar_with_close(symbol: &str, t: i64, close: i64) -> trader_bot::buffers::Bar {
    values_to_bar(symbol, t, close, close, close + 1, close - 1, 1000)
}

#[test]
fn test_values_to_bar_field_order() {
    let bar = values_to_bar("TEST", 7, 100, 102, 105, 95, 1000);
    assert_eq!(bar.symbol, "TEST");
    assert_eq!(bar.timestamp, 7);
    assert_eq!(bar.open, 100);
    assert_eq!(bar.close, 102);
    assert_eq!(bar.high, 105);
    assert_eq!(bar.low, 95);
    assert_eq!(bar.volume, 1000);
}

#[test]
fn test_accumulating_until_threshold() {
    // no config installed: the long period defaults to the full window
    let mut ev = Evaluator::new(100);
    for i in 0..19 {
        let step = ev.eval_bar(bar_with_close("AAPL", i, 100 + i));
        assert!(matches!(step, BarStep::Accumulating));
    }
    let step = ev.eval_bar(bar_with_close("AAPL", 19, 119));
    match step {
        BarStep::Evaluate(req) => {
            assert_eq!(req.symbol, "AAPL");
            assert_eq!(req.long_period, 20);
            assert_eq!(req.short_period, 5);
            assert_eq!(req.closes.len(), 20);
            assert_eq!(req.price, 119);
            assert_eq!(req.closes[0], 100);
            assert_eq!(req.closes[19], 119);
        }
        _ => panic!("expected an evaluation step at the activation threshold"),
    }
}

#[test]
fn test_insufficient_history_is_skipped() {
    let mut ev = Evaluator::new(100);
    ev.set_config(SMAConfig { long_range: 30, short_range: 5 });
    for i in 0..30 {
        let step = ev.eval_bar(bar_with_close("AAPL", i, 100));
        if i < 19 {
            assert!(matches!(step, BarStep::Accumulating));
        } else if i < 29 {
            // active, but the window is shorter than the long period
            assert!(matches!(step, BarStep::InsufficientHistory));
        } else {
            assert!(matches!(step, BarStep::Evaluate(_)));
        }
    }
}

#[test]
fn test_symbols_accumulate_independently() {
    let mut ev = Evaluator::new(100);
    for i in 0..19 {
        ev.eval_bar(bar_with_close("AAPL", i, 100));
    }
    // a first bar for another symbol starts a fresh window
    let step = ev.eval_bar(bar_with_close("TSLA", 0, 200));
    assert!(matches!(step, BarStep::Accumulating));
    let aapl = ev.get_buffer(&"AAPL".to_string()).unwrap();
    assert_eq!(aapl.bar_count(), 19);
    let tsla = ev.get_buffer(&"TSLA".to_string()).unwrap();
    assert_eq!(tsla.bar_count(), 1);
    assert!(ev.get_buffer(&"GOOGL".to_string()).is_none());
}

#[test]
fn test_eval_trade_only_buffers() {
    let mut ev = Evaluator::new(10);
    for i in 0..3 {
        ev.eval_trade(Trade { symbol: "AAPL".to_string(), timestamp: i, trade_price: 100 + i });
    }
    let buf = ev.get_buffer(&"AAPL".to_string()).unwrap();
    assert_eq!(buf.trade_count(), 3);
    assert_eq!(buf.bar_count(), 0);
}

#[test]
fn test_clear_buffers_between_episodes() {
    let mut ev = Evaluator::new(100);
    for i in 0..25 {
        ev.eval_bar(bar_with_close("AAPL", i, 100));
    }
    ev.clear_buffers();
    assert!(ev.get_buffer(&"AAPL".to_string()).is_none());
    // the next bar starts accumulating again
    let step = ev.eval_bar(bar_with_close("AAPL", 0, 100));
    assert!(matches!(step, BarStep::Accumulating));
}

#[test]
fn test_signal_from_series() {
    // bullish: short overtakes long between the two steps
    let long: Vec<i64> = vec![5, 2, 2];
    let short: Vec<i64> = vec![9, 1, 3];
    assert_eq!(signal_from_series(&long, &short), Some(Signal::Bullish));

    // bearish: short falls below long
    let long: Vec<i64> = vec![1, 2];
    let short: Vec<i64> = vec![2, 1];
    assert_eq!(signal_from_series(&long, &short), Some(Signal::Bearish));

    // no crossing
    let long: Vec<i64> = vec![2, 2];
    let short: Vec<i64> = vec![2, 2];
    assert_eq!(signal_from_series(&long, &short), None);

    // series too short to compare
    let long: Vec<i64> = vec![2];
    let short: Vec<i64> = vec![1, 3];
    assert_eq!(signal_from_series(&long, &short), None);
}

#[test]
fn test_decide_order_bullish_buys_within_limits() {
    let sizer = trader_bot::position_sizing::PositionSizer::new(1, 10);
    let acct = AccountSnapshot { portfolio_value: 100_000, cash_available: 100_000, position: 0 };
    let order = decide_order(&sizer, Signal::Bullish, 100, acct);
    assert_eq!(order, Some(OrderIntent::Buy { count: 10, price_per_share: 100 }));

    // too expensive for the trade limit: no order rather than a zero order
    let order = decide_order(&sizer, Signal::Bullish, 2_000, acct);
    assert_eq!(order, None);
}

#[test]
fn test_decide_order_bearish_liquidates_long() {
    let sizer = trader_bot::position_sizing::PositionSizer::new(1, 10);
    let acct = AccountSnapshot { portfolio_value: 100_000, cash_available: 50_000, position: 7 };
    let order = decide_order(&sizer, Signal::Bearish, 100, acct);
    assert_eq!(order, Some(OrderIntent::Sell { count: 7, price_per_share: 100 }));
}

#[test]
fn test_decide_order_bearish_shorts_when_flat_or_short() {
    let sizer = trader_bot::position_sizing::PositionSizer::new(1, 10);
    let flat = AccountSnapshot { portfolio_value: 100_000, cash_available: 100_000, position: 0 };
    let order = decide_order(&sizer, Signal::Bearish, 100, flat);
    assert_eq!(order, Some(OrderIntent::Sell { count: 10, price_per_share: 100 }));

    let short = AccountSnapshot { portfolio_value: 100_000, cash_available: 100_000, position: -95 };
    let order = decide_order(&sizer, Signal::Bearish, 100, short);
    assert_eq!(order, Some(OrderIntent::Sell { count: 5, price_per_share: 100 }));

    let maxed = AccountSnapshot { portfolio_value: 100_000, cash_available: 100_000, position: -100 };
    let order = decide_order(&sizer, Signal::Bearish, 100, maxed);
    assert_eq!(order, None);
}

#[test]
fn test_liquidation_order() {
    assert_eq!(
        liquidation_order(7, 160),
        Some(OrderIntent::Sell { count: 7, price_per_share: 160 })
    );
    assert_eq!(liquidation_order(0, 160), None);
    assert_eq!(liquidation_order(-3, 160), None);
}

#[test]
fn test_actor_and_stream_buffer() {
    let _actor = Actor::new();
    let window = buffer(100, 42i64);
    assert_eq!(window, vec![42]);
}
