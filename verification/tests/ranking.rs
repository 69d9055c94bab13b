use trader_bot::evaluator::SMAConfig;
use trader_bot::ranking::BestConfigsRanking;
use trader_bot::search::record_episode;

fn cfg(long: usize) -> SMAConfig {
    SMAConfig { long_range: long, short_range: 2 }
}

#[test]
fn test_top_n_retention() {
    // insert topN + m distinct-gain configs; exactly the topN highest stay
    let mut r = BestConfigsRanking::new(3);
    let gains: [i64; 7] = [40, 10, 70, 20, 60, 50, 30];
    for (i, g) in gains.iter().enumerate() {
        r.insert(*g, cfg(10 + i));
    }
    assert_eq!(r.len(), 3);
    let entries = r.entries();
    let keys: Vec<i64> = entries.iter().map(|e| e.0).collect();
    assert_eq!(keys, vec![70, 60, 50]);
    // the evicted lowest gains never reappear
    assert!(!keys.contains(&10));
    assert!(!keys.contains(&20));
    // the surviving configs are the ones inserted under those gains
    assert_eq!(entries[0].1.long_range, 12);
    assert_eq!(entries[1].1.long_range, 14);
    assert_eq!(entries[2].1.long_range, 15);
}

#[test]
fn test_equal_truncated_gain_overwrites() {
    let mut r = BestConfigsRanking::new(5);
    r.insert(42, cfg(10));
    r.insert(42, cfg(20));
    assert_eq!(r.len(), 1);
    let entries = r.entries();
    assert_eq!(entries[0].0, 42);
    assert_eq!(entries[0].1.long_range, 20);
}

#[test]
fn test_under_capacity_keeps_everything() {
    let mut r = BestConfigsRanking::new(10);
    for g in [3i64, 1, 2] {
        r.insert(g, cfg(10));
    }
    assert_eq!(r.len(), 3);
    let keys: Vec<i64> = r.entries().iter().map(|e| e.0).collect();
    assert_eq!(keys, vec![3, 2, 1]);
}

#[test]
fn test_lowest_new_entry_is_evicted_immediately() {
    let mut r = BestConfigsRanking::new(2);
    r.insert(9, cfg(10));
    r.insert(8, cfg(11));
    // a new key below everything retained does not displace anything
    r.insert(1, cfg(12));
    let keys: Vec<i64> = r.entries().iter().map(|e| e.0).collect();
    assert_eq!(keys, vec![9, 8]);
}

#[test]
fn test_record_episode_skips_unavailable_gain() {
    let mut r = BestConfigsRanking::new(3);
    let recorded = record_episode(&mut r, cfg(10), None);
    assert!(!recorded);
    assert_eq!(r.len(), 0);

    let recorded = record_episode(&mut r, cfg(10), Some(17));
    assert!(recorded);
    assert_eq!(r.len(), 1);
    assert_eq!(r.entries()[0].0, 17);
}
