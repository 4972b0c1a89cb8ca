//! Configuration of the `eth` namespace, assembly of its handlers, and the
//! supervision of their background tasks.
use vstd::prelude::*;
use crate::block_cache::BlockCache;
use crate::fee_history::FeeHistoryWindow;
use crate::filters::{FilterConfig, FilterRegistry};
use crate::gas_oracle::{GasPriceEstimator, GasPriceOracleConfig};
use crate::pubsub::{Delivery, SubscriptionHub};
use crate::types::ChainUpdate;

verus! {

/// Default time-to-live of an unpolled filter: five minutes, in milliseconds.
pub const DEFAULT_STALE_FILTER_TTL_MS: u64 = 300_000;
/// Default bound on the blocks one logs query may scan.
pub const DEFAULT_MAX_BLOCKS_PER_FILTER: u64 = 100_000;
/// Default bound on the logs one response may hold.
pub const DEFAULT_MAX_LOGS_PER_RESPONSE: usize = 20_000;
/// Default gas limit for calls.
pub const RPC_DEFAULT_GAS_CAP: u64 = 50_000_000;
/// Tracing slots kept free for other blocking work.
pub const RESERVED_BLOCKING_TASKS: usize = 2;

/// The default cap on concurrent tracing requests: the available parallelism
/// less the reserved tasks, at least 2; 25 when the parallelism is unknown.
pub fn default_max_tracing_requests(available_cpus: Option<usize>) -> (r: usize)
    ensures
        r == match available_cpus {
            None => 25,
            Some(n) => if n >= RESERVED_BLOCKING_TASKS + 2 { (n - RESERVED_BLOCKING_TASKS) as usize } else { 2 },
        },
{
    match available_cpus {
        None => 25,
        Some(n) => {
            if n >= RESERVED_BLOCKING_TASKS + 2 {
                n - RESERVED_BLOCKING_TASKS
            } else {
                2
            }
        },
    }
}

/// Settings of the block cache.
#[derive(Clone, Copy, Debug, PartialEq, Eq, Structural)]
pub struct EthStateCacheConfig {
    /// Capacity of the block cache.
    pub max_blocks: u32,
    /// Bound on concurrent provider fetches.
    pub max_concurrent_db_requests: usize,
}

impl Default for EthStateCacheConfig {
    fn default() -> (r: Self)
        ensures
            r.max_blocks == 5000,
            r.max_concurrent_db_requests == 512,
    {
        EthStateCacheConfig { max_blocks: 5000, max_concurrent_db_requests: 512 }
    }
}

/// Settings of the fee-history window.
#[derive(Clone, Copy, Debug, PartialEq, Eq, Structural)]
pub struct FeeHistoryCacheConfig {
    /// How many blocks the window retains.
    pub max_blocks: u64,
}

impl Default for FeeHistoryCacheConfig {
    fn default() -> (r: Self)
        ensures
            r.max_blocks == 1124,
    {
        FeeHistoryCacheConfig { max_blocks: 1124 }
    }
}

/// Configuration of the `eth` namespace handlers.
#[derive(Clone, Copy, Debug, PartialEq, Eq, Structural)]
pub struct EthConfig {
    pub cache: EthStateCacheConfig,
    pub gas_oracle: GasPriceOracleConfig,
    /// The maximum number of tracing calls executed concurrently.
    pub max_tracing_requests: usize,
    /// Maximum number of blocks scanned per logs request.
    pub max_blocks_per_filter: u64,
    /// Maximum number of logs returned in a single response.
    pub max_logs_per_response: usize,
    /// Gas limit for calls.
    pub rpc_gas_cap: u64,
    /// Time-to-live of unpolled filters, in milliseconds.
    pub stale_filter_ttl_ms: u64,
    pub fee_history_cache: FeeHistoryCacheConfig,
}

impl EthConfig {
    /// The default configuration on a machine with the given parallelism.
    pub fn with_available_cpus(available_cpus: Option<usize>) -> (r: Self)
        ensures
            r.cache == (EthStateCacheConfig { max_blocks: 5000, max_concurrent_db_requests: 512 }),
            r.gas_oracle == (GasPriceOracleConfig {
                blocks: 20,
                percentile: 60,
                default_price: 1_000_000_000,
                cache_interval_ms: 1_000,
            }),
            r.max_tracing_requests == default_max_tracing_requests_spec(available_cpus),
            r.max_blocks_per_filter == DEFAULT_MAX_BLOCKS_PER_FILTER,
            r.max_logs_per_response == DEFAULT_MAX_LOGS_PER_RESPONSE,
            r.rpc_gas_cap == RPC_DEFAULT_GAS_CAP,
            r.stale_filter_ttl_ms == DEFAULT_STALE_FILTER_TTL_MS,
            r.fee_history_cache == (FeeHistoryCacheConfig { max_blocks: 1124 }),
    {
        EthConfig {
            cache: EthStateCacheConfig::default(),
            gas_oracle: GasPriceOracleConfig::default(),
            max_tracing_requests: default_max_tracing_requests(available_cpus),
            max_blocks_per_filter: DEFAULT_MAX_BLOCKS_PER_FILTER,
            max_logs_per_response: DEFAULT_MAX_LOGS_PER_RESPONSE,
            rpc_gas_cap: RPC_DEFAULT_GAS_CAP,
            stale_filter_ttl_ms: DEFAULT_STALE_FILTER_TTL_MS,
            fee_history_cache: FeeHistoryCacheConfig::default(),
        }
    }

    /// Settings that every handler can be built from.
    pub open spec fn valid(&self) -> bool {
        self.gas_oracle.valid() && self.fee_history_cache.max_blocks > 0
    }

    /// The settings of the filter registry.
    pub fn filter_config(&self) -> (r: FilterConfig)
        ensures
            r.max_blocks_per_filter == self.max_blocks_per_filter,
            r.max_logs_per_response == self.max_logs_per_response,
            r.stale_filter_ttl_ms == self.stale_filter_ttl_ms,
    {
        FilterConfig {
            max_blocks_per_filter: self.max_blocks_per_filter,
            max_logs_per_response: self.max_logs_per_response,
            stale_filter_ttl_ms: self.stale_filter_ttl_ms,
        }
    }

    /// Configures the caching layer settings.
    pub fn state_cache(self, cache: EthStateCacheConfig) -> (r: Self)
        ensures
            r == (EthConfig { cache, ..self }),
    {
        EthConfig { cache, ..self }
    }

    /// Configures the gas price oracle settings.
    pub fn gpo_config(self, gas_oracle_config: GasPriceOracleConfig) -> (r: Self)
        ensures
            r == (EthConfig { gas_oracle: gas_oracle_config, ..self }),
    {
        EthConfig { gas_oracle: gas_oracle_config, ..self }
    }

    /// Configures the maximum number of tracing requests.
    pub fn max_tracing_requests(self, max_requests: usize) -> (r: Self)
        ensures
            r == (EthConfig { max_tracing_requests: max_requests, ..self }),
    {
        EthConfig { max_tracing_requests: max_requests, ..self }
    }

    /// Configures the maximum block length to scan per logs request.
    pub fn max_blocks_per_filter(self, max_blocks: u64) -> (r: Self)
        ensures
            r == (EthConfig { max_blocks_per_filter: max_blocks, ..self }),
    {
        EthConfig { max_blocks_per_filter: max_blocks, ..self }
    }

    /// Configures the maximum number of logs per response.
    pub fn max_logs_per_response(self, max_logs: usize) -> (r: Self)
        ensures
            r == (EthConfig { max_logs_per_response: max_logs, ..self }),
    {
        EthConfig { max_logs_per_response: max_logs, ..self }
    }

    /// Configures the maximum gas limit for calls.
    pub fn rpc_gas_cap(self, rpc_gas_cap: u64) -> (r: Self)
        ensures
            r == (EthConfig { rpc_gas_cap, ..self }),
    {
        EthConfig { rpc_gas_cap, ..self }
    }
}

pub open spec fn default_max_tracing_requests_spec(available_cpus: Option<usize>) -> usize {
    match available_cpus {
        None => 25,
        Some(n) => if n >= RESERVED_BLOCKING_TASKS + 2 { (n - RESERVED_BLOCKING_TASKS) as usize } else { 2 },
    }
}

/// Builds the gas price estimator.
#[derive(Debug)]
pub struct GasPriceOracleBuilder;

impl GasPriceOracleBuilder {
    /// Builds a gas price estimator from the configuration.
    pub fn build(config: &EthConfig) -> (r: GasPriceEstimator)
        requires
            config.gas_oracle.valid(),
        ensures
            r.config() == config.gas_oracle,
            r.cached() is None,
    {
        GasPriceEstimator::new(config.gas_oracle)
    }
}

/// Builds the fee-history window.
#[derive(Debug)]
pub struct FeeHistoryCacheBuilder;

impl FeeHistoryCacheBuilder {
    /// Builds an empty fee-history window from the configuration.
    pub fn build(config: &EthConfig) -> (r: FeeHistoryWindow)
        requires
            config.fee_history_cache.max_blocks > 0,
        ensures
            r.wf(),
            r.max_block_count() == config.fee_history_cache.max_blocks,
            r.entries().len() == 0,
    {
        FeeHistoryWindow::new(config.fee_history_cache.max_blocks)
    }
}

/// A background task whose end, other than on a requested shutdown, is fatal.
#[derive(Clone, Copy, Debug, PartialEq, Eq, Structural)]
pub enum CriticalTask {
    /// Feeds canonical updates to the block cache.
    CacheCanonicalBlocks,
    /// Feeds canonical updates to the fee-history window.
    FeeHistoryCanonicalBlocks,
    /// Sweeps stale filters.
    FilterReaper,
    /// Fans canonical updates out to subscriptions.
    SubscriptionFanout,
}

/// Admission of tracing requests: at most `max` run at once.
pub struct TracingLimiter {
    max: usize,
    in_use: usize,
}

impl TracingLimiter {
    pub closed spec fn max(&self) -> nat {
        self.max as nat
    }

    pub closed spec fn in_use(&self) -> nat {
        self.in_use as nat
    }

    pub open spec fn wf(&self) -> bool {
        self.in_use() <= self.max()
    }

    pub fn new(max: usize) -> (r: Self)
        ensures
            r.wf(),
            r.max() == max,
            r.in_use() == 0,
    {
        TracingLimiter { max, in_use: 0 }
    }

    /// Admits a request if a slot is free.
    pub fn try_acquire(&mut self) -> (r: bool)
        requires
            old(self).wf(),
        ensures
            final(self).wf(),
            final(self).max() == old(self).max(),
            r == (old(self).in_use() < old(self).max()),
            final(self).in_use() == if r { old(self).in_use() + 1 } else { old(self).in_use() },
    {
        if self.in_use < self.max {
            self.in_use = self.in_use + 1;
            true
        } else {
            false
        }
    }

    /// Frees the slot of a finished request.
    pub fn release(&mut self)
        requires
            old(self).wf(),
            old(self).in_use() > 0,
        ensures
            final(self).wf(),
            final(self).max() == old(self).max(),
            final(self).in_use() == old(self).in_use() - 1,
    {
        self.in_use = self.in_use - 1;
    }

    /// How many requests are running.
    pub fn running(&self) -> (r: usize)
        ensures
            r == self.in_use(),
    {
        self.in_use
    }
}

/// All handlers of the `eth` namespace.
pub struct EthHandlers {
    pub cache: BlockCache,
    pub fee_history: FeeHistoryWindow,
    pub gas_oracle: GasPriceEstimator,
    pub filter: FilterRegistry,
    pub pubsub: SubscriptionHub,
    pub tracing: TracingLimiter,
}

impl EthHandlers {
    pub open spec fn wf(&self) -> bool {
        &&& self.cache.wf()
        &&& self.fee_history.wf()
        &&& self.gas_oracle.config().valid()
        &&& self.filter.wf()
        &&& self.pubsub.wf()
        &&& self.tracing.wf()
    }

    /// Returns a builder of the handlers for a chain whose head is `head`.
    pub fn builder(config: EthConfig, head: u64) -> (r: EthHandlersBuilder)
        ensures
            r.config == config,
            r.head == head,
    {
        EthHandlersBuilder { config, head }
    }

    /// Feeds a canonical update to every component, in the order the source
    /// emitted it, and returns the events to push to subscriptions.
    pub fn on_canonical_update(&mut self, update: &ChainUpdate) -> (r: Vec<Delivery>)
        requires
            old(self).wf(),
        ensures
            final(self).wf(),
            final(self).cache.capacity() == old(self).cache.capacity(),
            final(self).cache.waiters() == old(self).cache.waiters(),
            match *update {
                ChainUpdate::NewCanonicalBlock { .. } => final(self).cache.in_flight() == old(self).cache.in_flight(),
                ChainUpdate::Reorg { abandoned, .. } => final(self).cache.in_flight() == crate::block_cache::mark_superseded(
                    old(self).cache.in_flight(),
                    crate::block_cache::key_numbers(abandoned@),
                ),
            },
            final(self).fee_history.max_block_count() == old(self).fee_history.max_block_count(),
            final(self).filter.config() == old(self).filter.config(),
            final(self).filter.next_id() == old(self).filter.next_id(),
            final(self).pubsub.next_id() == old(self).pubsub.next_id(),
            final(self).cache.entries() == crate::block_cache::apply_update(
                old(self).cache.entries(),
                *update,
                old(self).cache.capacity(),
            ),
            final(self).fee_history.entries() == crate::fee_history::update_spec(
                old(self).fee_history.entries(),
                *update,
                old(self).fee_history.max_block_count(),
            ),
            final(self).filter.head() == canonical_head(old(self).filter.head(), *update),
            final(self).filter.filters() == old(self).filter.filters(),
            (final(self).pubsub.last_block(), r@) == crate::pubsub::fanout_update(
                old(self).pubsub.last_block(),
                old(self).pubsub.subs(),
                *update,
            ),
            final(self).pubsub.subs() == old(self).pubsub.subs(),
            final(self).gas_oracle == old(self).gas_oracle,
            final(self).tracing == old(self).tracing,
    {
        self.cache.on_canonical_update(update);
        self.fee_history.on_canonical_update(update);
        let head = head_after(self.filter.head_number(), update);
        self.filter.set_head(head);
        self.pubsub.on_canonical_update(update)
    }
}

/// The canonical head after an update.
pub open spec fn canonical_head(head: u64, u: ChainUpdate) -> u64 {
    match u {
        ChainUpdate::NewCanonicalBlock { block } => block.key.number,
        ChainUpdate::Reorg { new_blocks, .. } => if new_blocks@.len() == 0 {
            head
        } else {
            new_blocks@.last().key.number
        },
    }
}

/// The canonical head after `update`, given the head before it.
pub fn head_after(head: u64, update: &ChainUpdate) -> (r: u64)
    ensures
        r == canonical_head(head, *update),
{
    match update {
        ChainUpdate::NewCanonicalBlock { block } => block.key.number,
        ChainUpdate::Reorg { new_blocks, .. } => {
            if new_blocks.len() == 0 {
                head
            } else {
                new_blocks[new_blocks.len() - 1].key.number
            }
        },
    }
}

/// Assembles the `eth` handlers.
#[derive(Debug)]
pub struct EthHandlersBuilder {
    pub config: EthConfig,
    pub head: u64,
}

impl EthHandlersBuilder {
    /// Builds every handler, in dependency order, from the configuration.
    pub fn build(self) -> (r: EthHandlers)
        requires
            self.config.valid(),
        ensures
            r.wf(),
            r.cache.capacity() == self.config.cache.max_blocks,
            r.cache.entries().len() == 0,
            r.cache.in_flight().len() == 0,
            r.cache.waiters().len() == 0,
            r.fee_history.max_block_count() == self.config.fee_history_cache.max_blocks,
            r.fee_history.entries().len() == 0,
            r.gas_oracle.config() == self.config.gas_oracle,
            r.gas_oracle.cached() is None,
            r.filter.config() == (FilterConfig {
                max_blocks_per_filter: self.config.max_blocks_per_filter,
                max_logs_per_response: self.config.max_logs_per_response,
                stale_filter_ttl_ms: self.config.stale_filter_ttl_ms,
            }),
            r.filter.filters().len() == 0,
            r.filter.head() == self.head,
            r.filter.next_id() == 0,
            r.pubsub.subs().len() == 0,
            r.pubsub.next_id() == 0,
            r.pubsub.last_block() is None,
            r.tracing.max() == self.config.max_tracing_requests,
            r.tracing.in_use() == 0,
    {
        let cache = BlockCache::new(self.config.cache.max_blocks as usize);
        let fee_history = FeeHistoryCacheBuilder::build(&self.config);
        let gas_oracle = GasPriceOracleBuilder::build(&self.config);
        let filter = FilterRegistry::new(self.config.filter_config(), self.head);
        let pubsub = SubscriptionHub::new();
        let tracing = TracingLimiter::new(self.config.max_tracing_requests);
        EthHandlers { cache, fee_history, gas_oracle, filter, pubsub, tracing }
    }

    /// The background tasks the handlers need, each to be spawned as critical.
    pub fn critical_tasks(&self) -> (r: Vec<CriticalTask>)
        ensures
            r@ == seq![
                CriticalTask::CacheCanonicalBlocks,
                CriticalTask::FeeHistoryCanonicalBlocks,
                CriticalTask::FilterReaper,
                CriticalTask::SubscriptionFanout,
            ],
    {
        let r = vec![
            CriticalTask::CacheCanonicalBlocks,
            CriticalTask::FeeHistoryCanonicalBlocks,
            CriticalTask::FilterReaper,
            CriticalTask::SubscriptionFanout,
        ];
        assert(r@ =~= seq![
            CriticalTask::CacheCanonicalBlocks,
            CriticalTask::FeeHistoryCanonicalBlocks,
            CriticalTask::FilterReaper,
            CriticalTask::SubscriptionFanout,
        ]);
        r
    }
}

/// How a supervised task ended.
#[derive(Clone, Copy, Debug, PartialEq, Eq, Structural)]
pub enum TaskExit {
    /// It returned.
    Finished,
    /// It returned an error.
    Failed,
    /// It panicked.
    Panicked,
}

/// What the serving process does after a task ended.
#[derive(Clone, Copy, Debug, PartialEq, Eq, Structural)]
pub enum SupervisorAction {
    /// Nothing: the task ended as part of a requested shutdown.
    Continue,
    /// Signal shutdown to every sibling task and abort the serving process.
    AbortProcess,
}

/// Supervision of the critical tasks: a task may end only after a shutdown was
/// requested, and then only by returning.
pub struct TaskSupervisor {
    running: Vec<CriticalTask>,
    shutdown_requested: bool,
}

pub open spec fn supervise_spec(shutdown_requested: bool, exit: TaskExit) -> SupervisorAction {
    if shutdown_requested && exit == TaskExit::Finished {
        SupervisorAction::Continue
    } else {
        SupervisorAction::AbortProcess
    }
}

impl TaskSupervisor {
    pub closed spec fn running(&self) -> Seq<CriticalTask> {
        self.running@
    }

    pub closed spec fn shutdown_requested(&self) -> bool {
        self.shutdown_requested
    }

    pub fn new(tasks: Vec<CriticalTask>) -> (r: Self)
        ensures
            r.running() == tasks@,
            !r.shutdown_requested(),
    {
        TaskSupervisor { running: tasks, shutdown_requested: false }
    }

    /// Records that the serving process is shutting down.
    pub fn request_shutdown(&mut self)
        ensures
            final(self).shutdown_requested(),
            final(self).running() == old(self).running(),
    {
        self.shutdown_requested = true;
    }

    /// Decides what follows the end of `task`. Any end other than a return after
    /// a requested shutdown aborts the process, which then also counts as
    /// shutting down.
    pub fn on_task_exit(&mut self, task: CriticalTask, exit: TaskExit) -> (r: SupervisorAction)
        ensures
            r == supervise_spec(old(self).shutdown_requested(), exit),
            final(self).shutdown_requested(),
            final(self).running() == old(self).running().filter(|t: CriticalTask| t != task),
    {
        let r = if self.shutdown_requested && exit == TaskExit::Finished {
            SupervisorAction::Continue
        } else {
            SupervisorAction::AbortProcess
        };
        self.shutdown_requested = true;
        let ghost orig = self.running@;
        let mut kept: Vec<CriticalTask> = Vec::new();
        let mut i: usize = 0;
        while i < self.running.len()
            invariant
                i <= self.running@.len(),
                self.running@ == orig,
                kept@ == orig.subrange(0, i as int).filter(|t: CriticalTask| t != task),
            decreases self.running@.len() - i,
        {
            proof {
                assert(orig.subrange(0, i + 1).drop_last() =~= orig.subrange(0, i as int));
                reveal(Seq::filter);
            }
            if self.running[i] != task {
                kept.push(self.running[i]);
            }
            i = i + 1;
        }
        assert(orig.subrange(0, orig.len() as int) =~= orig);
        self.running = kept;
        r
    }

    /// Whether every supervised task has ended.
    pub fn all_stopped(&self) -> (r: bool)
        ensures
            r == (self.running().len() == 0),
    {
        self.running.len() == 0
    }
}

} // verus!
