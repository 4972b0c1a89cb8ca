use std::sync::Arc;

use eth_serving::eth::{
    CriticalTask, EthConfig, EthHandlers, SupervisorAction, TaskExit, TaskSupervisor,
};
use eth_serving::filters::{FilterConfig, FilterError, FilterItem, FilterKind, FilterRegistry, LogFilter};
use eth_serving::pubsub::{PushEvent, SubscriptionHub, SubscriptionKind};
use eth_serving::types::{Address, Block, BlockKey, ChainUpdate, Log, Receipt, B256};

fn hash(n: u64) -> B256 {
    B256 { w0: 1, w1: 2, w2: 3, w3: n }
}

fn addr(n: u64) -> Address {
    Address { hi: 0, mid: 0, lo: n }
}

fn block_with_logs(n: u64, receipts: Vec<Receipt>) -> Arc<Block> {
    Arc::new(Block {
        key: BlockKey { hash: hash(n), number: n },
        parent_hash: hash(n - 1),
        base_fee_per_gas: 1,
        gas_used: 1,
        gas_limit: 2,
        blob_gas_used: None,
        base_fee_per_blob_gas: None,
        total_difficulty: 0,
        tx_gas_prices: vec![],
        receipts,
    })
}

fn plain(n: u64) -> Arc<Block> {
    block_with_logs(n, vec![])
}

fn config() -> FilterConfig {
    FilterConfig { max_blocks_per_filter: 100, max_logs_per_response: 100, stale_filter_ttl_ms: 1_000 }
}

#[test]
fn filter_lifecycle_block_hashes() {
    let mut reg = FilterRegistry::new(config(), 10);
    let id = reg.create(FilterKind::NewBlockHashes, 0).unwrap();
    assert_eq!(reg.cursor(id), Some(10));
    let blocks = vec![plain(11), plain(12), plain(13)];
    reg.set_head(13);
    let items = reg.poll(id, 5, &blocks).unwrap();
    assert_eq!(
        items,
        vec![FilterItem::BlockHash(hash(11)), FilterItem::BlockHash(hash(12)), FilterItem::BlockHash(hash(13))]
    );
    assert_eq!(reg.cursor(id), Some(13));
    assert_eq!(reg.poll(id, 6, &blocks).unwrap(), vec![]);
    assert_eq!(reg.poll(id, 7, &vec![]).unwrap(), vec![]);
    assert_eq!(reg.cursor(id), Some(13));
}

#[test]
fn unknown_filter_not_found() {
    let mut reg = FilterRegistry::new(config(), 0);
    assert_eq!(reg.poll(42, 0, &vec![]), Err(FilterError::FilterNotFound));
    let id = reg.create(FilterKind::NewBlockHashes, 0).unwrap();
    assert_eq!(reg.remove(id), Ok(()));
    assert_eq!(reg.remove(id), Err(FilterError::FilterNotFound));
    assert_eq!(reg.poll(id, 0, &vec![]), Err(FilterError::FilterNotFound));
}

#[test]
fn stale_filter_reaped() {
    let mut reg = FilterRegistry::new(config(), 0);
    let stale = reg.create(FilterKind::NewBlockHashes, 100).unwrap();
    let kept = reg.create(FilterKind::NewBlockHashes, 100).unwrap();
    reg.reap(1_099);
    assert_eq!(reg.len(), 2);
    reg.poll(kept, 1_050, &vec![]).unwrap();
    reg.reap(1_100);
    assert_eq!(reg.cursor(stale), None);
    assert_eq!(reg.cursor(kept), Some(0));
    assert_eq!(reg.poll(stale, 1_200, &vec![]), Err(FilterError::FilterNotFound));
}

#[test]
fn fresh_ids_are_unique() {
    let mut reg = FilterRegistry::new(config(), 0);
    let a = reg.create(FilterKind::NewBlockHashes, 0).unwrap();
    reg.remove(a).unwrap();
    let b = reg.create(FilterKind::PendingTransactions, 0).unwrap();
    assert_ne!(a, b);
}

fn log(a: u64, topics: Vec<u64>) -> Log {
    Log { address: addr(a), topics: topics.into_iter().map(hash).collect() }
}

#[test]
fn logs_filter_matches_in_order() {
    let mut reg = FilterRegistry::new(config(), 0);
    let lf = LogFilter { addresses: vec![addr(7)], topics: vec![None, Some(hash(9))] };
    let id = reg.create(FilterKind::Logs(lf), 0).unwrap();
    let b1 = block_with_logs(
        1,
        vec![
            Receipt { logs: vec![log(7, vec![1, 9]), log(8, vec![1, 9])] },
            Receipt { logs: vec![log(7, vec![1]), log(7, vec![2, 9, 3])] },
        ],
    );
    let b2 = block_with_logs(2, vec![Receipt { logs: vec![log(7, vec![5, 9])] }]);
    let items = reg.poll(id, 1, &vec![b1, b2]).unwrap();
    let pos: Vec<(u64, u64, u64)> = items
        .iter()
        .map(|i| match i {
            FilterItem::Log { block_number, transaction_index, log_index, .. } => {
                (*block_number, *transaction_index, *log_index)
            }
            _ => panic!("a log was expected"),
        })
        .collect();
    assert_eq!(pos, vec![(1, 0, 0), (1, 1, 1), (2, 0, 0)]);
}

#[test]
fn logs_filter_bounds() {
    let tight = FilterConfig { max_blocks_per_filter: 1, max_logs_per_response: 1, stale_filter_ttl_ms: 1_000 };
    let mut reg = FilterRegistry::new(tight, 0);
    let id = reg.create(FilterKind::Logs(LogFilter { addresses: vec![], topics: vec![] }), 0).unwrap();
    assert_eq!(reg.poll(id, 1, &vec![plain(1), plain(2)]), Err(FilterError::QueryExceedsMaxBlocks));
    let b = block_with_logs(1, vec![Receipt { logs: vec![log(1, vec![]), log(2, vec![])] }]);
    assert_eq!(reg.poll(id, 1, &vec![b]), Err(FilterError::QueryExceedsMaxResults));
    assert_eq!(reg.cursor(id), Some(0));
}

#[test]
fn pending_transactions_filter_drains() {
    let mut reg = FilterRegistry::new(config(), 0);
    let id = reg.create(FilterKind::PendingTransactions, 0).unwrap();
    reg.on_pending_transaction(hash(1));
    reg.on_pending_transaction(hash(2));
    assert_eq!(
        reg.poll(id, 1, &vec![]).unwrap(),
        vec![FilterItem::TransactionHash(hash(1)), FilterItem::TransactionHash(hash(2))]
    );
    assert_eq!(reg.poll(id, 2, &vec![]).unwrap(), vec![]);
}

fn header_numbers(d: &[eth_serving::pubsub::Delivery], sub: u64) -> Vec<u64> {
    d.iter()
        .filter(|x| x.subscription == sub)
        .filter_map(|x| match x.event {
            PushEvent::Header { number, .. } => Some(number),
            _ => None,
        })
        .collect()
}

#[test]
fn subscriber_sees_only_later_blocks() {
    let mut hub = SubscriptionHub::new();
    let mut seen = Vec::new();
    for n in 1..=5 {
        seen.extend(hub.on_canonical_block(&plain(n)));
    }
    let id = hub.subscribe(SubscriptionKind::NewHeads, 1).unwrap();
    for n in 6..=7 {
        seen.extend(hub.on_canonical_block(&plain(n)));
    }
    assert_eq!(header_numbers(&seen, id), vec![6, 7]);
}

#[test]
fn repeated_block_fanned_out_once() {
    let mut hub = SubscriptionHub::new();
    let id = hub.subscribe(SubscriptionKind::NewHeads, 1).unwrap();
    let u = ChainUpdate::NewCanonicalBlock { block: plain(3) };
    let first = hub.on_canonical_update(&u);
    let second = hub.on_canonical_update(&u);
    assert_eq!(header_numbers(&first, id), vec![3]);
    assert!(second.is_empty());
}

#[test]
fn unsubscribe_and_connection_close() {
    let mut hub = SubscriptionHub::new();
    let a = hub.subscribe(SubscriptionKind::NewHeads, 1).unwrap();
    let b = hub.subscribe(SubscriptionKind::NewPendingTransactions, 2).unwrap();
    let c = hub.subscribe(SubscriptionKind::Syncing, 2).unwrap();
    assert_eq!(hub.on_pending_transaction(hash(4)).len(), 1);
    assert_eq!(hub.on_sync_status(true)[0].subscription, c);
    assert!(hub.unsubscribe(a));
    assert!(!hub.unsubscribe(a));
    hub.on_connection_closed(2);
    assert_eq!(hub.len(), 0);
    assert!(hub.on_pending_transaction(hash(5)).is_empty());
    let _ = b;
}

#[test]
fn handlers_follow_canonical_updates() {
    let config = EthConfig::with_available_cpus(None);
    let builder = EthHandlers::builder(config, 0);
    assert_eq!(builder.critical_tasks().len(), 4);
    let mut h = builder.build();
    let id = h.filter.create(FilterKind::NewBlockHashes, 0).unwrap();
    let sub = h.pubsub.subscribe(SubscriptionKind::NewHeads, 9).unwrap();
    let out = h.on_canonical_update(&ChainUpdate::NewCanonicalBlock { block: plain(1) });
    assert_eq!(header_numbers(&out, sub), vec![1]);
    assert_eq!(h.cache.len(), 1);
    assert_eq!(h.fee_history.last_number(), Some(1));
    assert_eq!(h.filter.head_number(), 1);
    assert_eq!(h.filter.poll(id, 1, &vec![plain(1)]).unwrap(), vec![FilterItem::BlockHash(hash(1))]);
}

#[test]
fn supervisor_escalates_unexpected_exits() {
    let tasks = vec![CriticalTask::CacheCanonicalBlocks, CriticalTask::FilterReaper];
    let mut s = TaskSupervisor::new(tasks.clone());
    assert_eq!(s.on_task_exit(CriticalTask::FilterReaper, TaskExit::Finished), SupervisorAction::AbortProcess);
    let mut s = TaskSupervisor::new(tasks.clone());
    assert_eq!(s.on_task_exit(CriticalTask::FilterReaper, TaskExit::Panicked), SupervisorAction::AbortProcess);
    let mut s = TaskSupervisor::new(tasks);
    s.request_shutdown();
    assert_eq!(s.on_task_exit(CriticalTask::FilterReaper, TaskExit::Failed), SupervisorAction::AbortProcess);
    assert_eq!(s.on_task_exit(CriticalTask::CacheCanonicalBlocks, TaskExit::Finished), SupervisorAction::Continue);
    assert!(s.all_stopped());
}

#[test]
fn tracing_requests_capped() {
    let config = EthConfig::with_available_cpus(None).max_tracing_requests(2);
    let mut h = EthHandlers::builder(config, 0).build();
    assert!(h.tracing.try_acquire());
    assert!(h.tracing.try_acquire());
    assert!(!h.tracing.try_acquire());
    h.tracing.release();
    assert_eq!(h.tracing.running(), 1);
    assert!(h.tracing.try_acquire());
}
