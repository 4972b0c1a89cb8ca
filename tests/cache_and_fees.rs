use std::sync::Arc;

use eth_serving::block_cache::{should_retry, BlockCache, FetchError, GetStart};
use eth_serving::eth::head_after;
use eth_serving::fee_history::{entry_of, FeeHistoryError, FeeHistoryWindow};
use eth_serving::gas_oracle::{kth_smallest, suggest_price, GasPriceEstimator, GasPriceOracleConfig};
use eth_serving::types::{Block, BlockKey, ChainUpdate, ProviderError, B256};

fn hash(n: u64) -> B256 {
    B256 { w0: 0, w1: 0, w2: 0, w3: n }
}

fn key(n: u64, h: u64) -> BlockKey {
    BlockKey { hash: hash(h), number: n }
}

fn block(n: u64, h: u64, prices: Vec<u64>) -> Block {
    Block {
        key: key(n, h),
        parent_hash: hash(h.wrapping_sub(1)),
        base_fee_per_gas: 7 * n,
        gas_used: n,
        gas_limit: 30_000_000,
        blob_gas_used: None,
        base_fee_per_blob_gas: None,
        total_difficulty: n as u128,
        tx_gas_prices: prices,
        receipts: Vec::new(),
    }
}

fn new_block(n: u64, h: u64) -> ChainUpdate {
    ChainUpdate::NewCanonicalBlock { block: Arc::new(block(n, h, vec![])) }
}

#[test]
fn capacity_two_evicts_least_recent() {
    let mut c = BlockCache::new(2);
    for n in 1..=3 {
        c.on_canonical_update(&new_block(n, n));
    }
    assert_eq!(c.len(), 2);
    assert!(c.get_cached(&key(1, 1)).is_none());
    assert_eq!(c.get_cached(&key(2, 2)).unwrap().key, key(2, 2));
    assert_eq!(c.get_cached(&key(3, 3)).unwrap().key, key(3, 3));
}

#[test]
fn read_refreshes_recency() {
    let mut c = BlockCache::new(2);
    c.insert(key(1, 1), Arc::new(block(1, 1, vec![])));
    c.insert(key(2, 2), Arc::new(block(2, 2, vec![])));
    assert!(c.get_cached(&key(1, 1)).is_some());
    c.insert(key(3, 3), Arc::new(block(3, 3, vec![])));
    assert!(c.peek(&key(1, 1)).is_some());
    assert!(c.peek(&key(2, 2)).is_none());
    assert!(c.peek(&key(3, 3)).is_some());
}

#[test]
fn duplicate_new_block_is_cached_once() {
    let mut c = BlockCache::new(4);
    let u = new_block(5, 50);
    c.on_canonical_update(&u);
    c.on_canonical_update(&u);
    assert_eq!(c.len(), 1);
}

#[test]
fn single_flight_one_fetch() {
    let mut c = BlockCache::new(4);
    let k = key(9, 90);
    let mut fetches = 0;
    for w in [1u64, 2u64] {
        match c.begin_get(k, w) {
            GetStart::Fetch => fetches += 1,
            GetStart::Wait => {}
            GetStart::Hit(_) => panic!("nothing is cached yet"),
        }
    }
    assert_eq!(fetches, 1);
    let done = c.complete_fetch(k, Ok(block(9, 90, vec![3])));
    assert_eq!(done.waiters, vec![1, 2]);
    assert_eq!(done.outcome.unwrap().tx_gas_prices, vec![3]);
    assert!(matches!(c.begin_get(k, 3), GetStart::Hit(_)));
}

#[test]
fn provider_failure_not_cached() {
    let mut c = BlockCache::new(4);
    let k = key(9, 90);
    assert!(matches!(c.begin_get(k, 1), GetStart::Fetch));
    let done = c.complete_fetch(k, Err(ProviderError { code: 7 }));
    assert_eq!(done.waiters, vec![1]);
    assert_eq!(done.outcome.err(), Some(FetchError::Provider(ProviderError { code: 7 })));
    assert_eq!(c.len(), 0);
    assert!(matches!(c.begin_get(k, 2), GetStart::Fetch));
}

#[test]
fn reorg_purges_abandoned_numbers() {
    let mut c = BlockCache::new(8);
    for n in 1..=3 {
        c.on_canonical_update(&new_block(n, n));
    }
    let reorg = ChainUpdate::Reorg {
        abandoned: vec![key(2, 2), key(3, 3)],
        new_blocks: vec![Arc::new(block(2, 20, vec![])), Arc::new(block(3, 30, vec![]))],
    };
    c.on_canonical_update(&reorg);
    assert!(c.peek(&key(2, 2)).is_none());
    assert!(c.peek(&key(3, 3)).is_none());
    assert!(c.peek(&key(2, 20)).is_some());
    assert!(c.peek(&key(3, 30)).is_some());
    assert!(c.peek(&key(1, 1)).is_some());
    c.on_canonical_update(&new_block(4, 40));
    assert!(c.get_cached(&key(2, 2)).is_none());
}

#[test]
fn fetch_superseded_by_reorg() {
    let mut c = BlockCache::new(8);
    let k = key(5, 5);
    assert!(matches!(c.begin_get(k, 1), GetStart::Fetch));
    c.on_canonical_update(&ChainUpdate::Reorg { abandoned: vec![k], new_blocks: vec![] });
    let done = c.complete_fetch(k, Ok(block(5, 5, vec![])));
    assert_eq!(done.outcome.err(), Some(FetchError::ReorgRace));
    assert!(c.peek(&k).is_none());
}

fn fee_window(max: u64, from: u64, to: u64) -> FeeHistoryWindow {
    let mut w = FeeHistoryWindow::new(max);
    for n in from..=to {
        w.append(entry_of(&block(n, n, vec![])));
    }
    w
}

#[test]
fn fee_range_contiguous() {
    let w = fee_window(10, 100, 109);
    let r = w.range(103, 4).unwrap();
    assert_eq!(r.iter().map(|e| e.number).collect::<Vec<_>>(), vec![103, 104, 105, 106]);
    assert_eq!(r[0].base_fee_per_gas, 721);
    assert_eq!(w.range(100, 10).unwrap().len(), 10);
}

#[test]
fn fee_range_errors() {
    let w = fee_window(3, 100, 109);
    assert_eq!(w.first_number(), Some(107));
    assert_eq!(w.range(106, 2), Err(FeeHistoryError::RangeNotRetained));
    assert_eq!(w.range(108, 3), Err(FeeHistoryError::RangeNotAvailable));
    assert_eq!(w.range(109, 1).unwrap().len(), 1);
    let empty = FeeHistoryWindow::new(3);
    assert_eq!(empty.range(0, 1), Err(FeeHistoryError::RangeNotAvailable));
}

#[test]
fn fee_reorg_overwrites() {
    let mut w = fee_window(10, 1, 5);
    w.on_canonical_update(&ChainUpdate::Reorg {
        abandoned: vec![key(4, 4), key(5, 5)],
        new_blocks: vec![Arc::new(block(4, 44, vec![]))],
    });
    assert_eq!(w.last_number(), Some(4));
    assert_eq!(w.range(4, 1).unwrap()[0].base_fee_per_gas, 28);
    assert_eq!(w.range(5, 1), Err(FeeHistoryError::RangeNotAvailable));
}

#[test]
fn percentile_selection() {
    assert_eq!(kth_smallest(&vec![5, 1, 4, 2, 3], 0), 1);
    assert_eq!(kth_smallest(&vec![5, 1, 4, 2, 3], 2), 3);
    assert_eq!(kth_smallest(&vec![5, 1, 4, 2, 3], 4), 5);
    assert_eq!(suggest_price(&vec![10, 40, 20, 30, 50], 60, 1), 30);
    assert_eq!(suggest_price(&vec![], 60, 17), 17);
    assert_eq!(suggest_price(&vec![8], 100, 17), 8);
}

#[test]
fn estimate_within_samples_and_cached() {
    let mut c = BlockCache::new(8);
    c.insert(key(1, 1), Arc::new(block(1, 1, vec![30, 10])));
    c.insert(key(2, 2), Arc::new(block(2, 2, vec![20, 50, 40])));
    let cfg = GasPriceOracleConfig { blocks: 20, percentile: 60, default_price: 1, cache_interval_ms: 1000 };
    let mut g = GasPriceEstimator::new(cfg);
    let first = g.estimate(&c, 5_000);
    assert_eq!(first, 30);
    assert!(first >= 10 && first <= 50);
    c.insert(key(3, 3), Arc::new(block(3, 3, vec![1000, 1000, 1000])));
    assert_eq!(g.estimate(&c, 5_999), 30);
    assert_eq!(g.estimate(&c, 6_000), 50);
}

#[test]
fn estimate_default_without_transactions() {
    let c = BlockCache::new(8);
    let cfg = GasPriceOracleConfig { blocks: 20, percentile: 60, default_price: 77, cache_interval_ms: 1000 };
    let mut g = GasPriceEstimator::new(cfg);
    assert_eq!(g.estimate(&c, 0), 77);
}

#[test]
fn reorg_race_retry_is_bounded() {
    assert!(should_retry(0, FetchError::ReorgRace));
    assert!(should_retry(2, FetchError::ReorgRace));
    assert!(!should_retry(3, FetchError::ReorgRace));
    assert!(!should_retry(0, FetchError::Provider(ProviderError { code: 1 })));
}

#[test]
fn head_follows_updates() {
    assert_eq!(head_after(4, &new_block(5, 5)), 5);
    let reorg = ChainUpdate::Reorg { abandoned: vec![key(4, 4)], new_blocks: vec![] };
    assert_eq!(head_after(4, &reorg), 4);
    let reorg = ChainUpdate::Reorg {
        abandoned: vec![key(4, 4)],
        new_blocks: vec![Arc::new(block(4, 41, vec![])), Arc::new(block(5, 51, vec![]))],
    };
    assert_eq!(head_after(4, &reorg), 5);
}

#[test]
fn estimate_samples_highest_numbers_not_recent_reads() {
    let mut c = BlockCache::new(8);
    c.insert(key(1, 1), Arc::new(block(1, 1, vec![900])));
    c.insert(key(2, 2), Arc::new(block(2, 2, vec![20])));
    c.insert(key(3, 3), Arc::new(block(3, 3, vec![40])));
    assert!(c.get_cached(&key(1, 1)).is_some());
    let sample: Vec<u64> = c.recent_blocks(2).iter().map(|b| b.key.number).collect();
    assert_eq!(sample, vec![2, 3]);
    let cfg = GasPriceOracleConfig { blocks: 2, percentile: 100, default_price: 1, cache_interval_ms: 1000 };
    let mut g = GasPriceEstimator::new(cfg);
    assert_eq!(g.estimate(&c, 0), 40);
    assert!(c.recent_blocks(0).is_empty());
}
