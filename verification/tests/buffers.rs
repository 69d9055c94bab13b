use trader_bot::buffers::{Buffer, Trade};
use trader_bot::mocking::values_to_bar;

#[test]
fn test_buffer_initialization() {
    let buffer = Buffer::new("AAPL".to_string(), 10);

    assert_eq!(buffer.symbol(), "AAPL");
    assert_eq!(buffer.trade_count(), 0);
    assert_eq!(buffer.bar_count(), 0);
}

#[test]
fn test_add_single_bar() {
    let mut buffer = Buffer::new("AAPL".to_string(), 10);
    let bar = values_to_bar("AAPL", 0, 100, 105, 110, 95, 1000);

    buffer.add_bar(bar);

    assert_eq!(buffer.bar_count(), 1);
    assert_eq!(buffer.trade_count(), 0);
}

#[test]
fn test_add_multiple_bars() {
    let mut buffer = Buffer::new("AAPL".to_string(), 10);

    for i in 0..5 {
        let bar = values_to_bar("AAPL", i, 100 + i, 105 + i, 110 + i, 95 + i, 1000);
        buffer.add_bar(bar);
    }

    assert_eq!(buffer.bar_count(), 5);
}

#[test]
fn test_buffer_size_limit_bars() {
    let size = 4;
    let mut buffer = Buffer::new("TSLA".to_string(), size);

    // Add 5 bars to a buffer with a smaller size
    for i in 0..5 {
        let bar = values_to_bar("TSLA", i, 200 + i, 205 + i, 210 + i, 195 + i, 1000);
        buffer.add_bar(bar);
    }

    // Should only keep the last `size` bars
    assert_eq!(buffer.bar_count(), size);

    // Verify we can get the bars
    assert!(buffer.get_bars().is_some());
    assert_eq!(buffer.get_bars().unwrap().len(), size);
}

#[test]
fn test_buffer_symbol_access() {
    let buffer = Buffer::new("NVDA".to_string(), 10);

    assert_eq!(buffer.symbol(), "NVDA");
}

#[test]
fn test_empty_buffer_returns_empty_vectors() {
    let buffer = Buffer::new("GOOGL".to_string(), 5);

    assert!(buffer.get_bars().is_some());
    assert_eq!(buffer.get_bars().unwrap().len(), 0);

    assert!(buffer.get_trades().is_some());
    assert_eq!(buffer.get_trades().unwrap().len(), 0);
}

#[test]
fn test_buffer_keeps_last_entries_in_order() {
    let mut buffer = Buffer::new("AAPL".to_string(), 3);

    for i in 0..5 {
        let bar = values_to_bar("AAPL", i, 10 + i, 20 + i, 30 + i, 5 + i, 100);
        buffer.add_bar(bar);
    }

    // the window holds the last three inserted bars, oldest first
    let bars = buffer.get_bars().unwrap();
    let closes: Vec<i64> = bars.iter().map(|b| b.close).collect();
    assert_eq!(closes, vec![22, 23, 24]);
}

#[test]
fn test_buffer_trades_evict_oldest() {
    let mut buffer = Buffer::new("AAPL".to_string(), 2);

    for i in 0..4 {
        let t = Trade { symbol: "AAPL".to_string(), timestamp: i, trade_price: 100 + i };
        buffer.add_trade(t);
    }

    assert_eq!(buffer.trade_count(), 2);
    let trades = buffer.get_trades().unwrap();
    assert_eq!(trades[0].trade_price, 102);
    assert_eq!(trades[1].trade_price, 103);
}
