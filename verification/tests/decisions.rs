use trader_bot::decisions::random_action;
use trader_bot::evaluator::gen_sell;
use trader_bot::models::RunResult;
use trader_bot::evaluator::{sample_config, SMAConfig};

#[test]
fn test_random_action() {
    let action = random_action();
    assert!(action == "Buy" || action == "Sell");
}

#[test]
fn test_gen_sell_stays_in_range() {
    for _ in 0..100 {
        let (price, count) = gen_sell();
        assert!((100..=200).contains(&price));
        assert!((1..=10).contains(&count));
    }
}

#[test]
fn test_sample_config_is_well_formed() {
    for _ in 0..100 {
        let c = sample_config();
        assert!((10..=50).contains(&c.long_range));
        assert!(c.short_range >= 2);
        assert!(c.short_range + 5 <= c.long_range);
    }
}

#[test]
fn test_run_result_fields() {
    let config = SMAConfig { long_range: 20, short_range: 5 };
    let r = RunResult::new(config, "TEST".to_string(), 123);
    assert!(r.id.is_none());
    assert_eq!(r.config.long_range, 20);
    assert_eq!(r.config.short_range, 5);
    assert_eq!(r.symbol, "TEST");
    assert_eq!(r.gain, 123);
}
