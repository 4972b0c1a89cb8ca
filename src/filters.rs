//! Poll-style filters: creation, incremental polling from a cursor, explicit
//! removal and reaping of filters left unpolled past their time-to-live.
use vstd::prelude::*;
use std::sync::Arc;
use crate::types::{Address, Block, B256, Log};

verus! {

/// Which logs a `Logs` filter selects. An empty address list admits any address;
/// topic position `i` must equal `topics[i]` where that is given.
#[derive(Debug)]
pub struct LogFilter {
    pub addresses: Vec<Address>,
    pub topics: Vec<Option<B256>>,
}

/// What a filter watches.
#[derive(Debug)]
pub enum FilterKind {
    Logs(LogFilter),
    NewBlockHashes,
    PendingTransactions,
}

/// One item delivered by a poll.
#[derive(Clone, Copy, Debug, PartialEq, Eq, Structural)]
pub enum FilterItem {
    BlockHash(B256),
    TransactionHash(B256),
    Log { block_number: u64, block_hash: B256, transaction_index: u64, log_index: u64, address: Address },
}

#[derive(Clone, Copy, Debug, PartialEq, Eq, Structural)]
pub enum FilterError {
    /// The identifier is unknown or its filter was removed.
    FilterNotFound,
    /// A logs poll would scan more blocks than allowed.
    QueryExceedsMaxBlocks,
    /// A logs poll would return more logs than allowed.
    QueryExceedsMaxResults,
    /// Every identifier has been handed out.
    IdsExhausted,
}

/// A registered filter. `cursor` is the block number up to which results were
/// delivered; `pending` holds transaction hashes not yet delivered.
#[derive(Debug)]
pub struct Filter {
    pub id: u64,
    pub kind: FilterKind,
    pub created_at: u64,
    pub last_polled: u64,
    pub cursor: u64,
    pub pending: Vec<B256>,
}

/// Settings of the filter registry.
#[derive(Clone, Copy, Debug, PartialEq, Eq, Structural)]
pub struct FilterConfig {
    pub max_blocks_per_filter: u64,
    pub max_logs_per_response: usize,
    /// Time-to-live of an unpolled filter, in milliseconds.
    pub stale_filter_ttl_ms: u64,
}

pub open spec fn log_matches(f: LogFilter, log: Log) -> bool {
    &&& (f.addresses@.len() == 0 || f.addresses@.contains(log.address))
    &&& forall|i: int|
        0 <= i < f.topics@.len() && #[trigger] f.topics@[i] is Some ==> i < log.topics@.len()
            && log.topics@[i] == f.topics@[i]->Some_0
}

pub open spec fn log_item(b: Block, ti: int, li: int, log: Log) -> FilterItem {
    FilterItem::Log {
        block_number: b.key.number,
        block_hash: b.key.hash,
        transaction_index: ti as u64,
        log_index: li as u64,
        address: log.address,
    }
}

/// The matching logs of transaction `ti` of block `b`, in log order.
pub open spec fn receipt_items(f: LogFilter, b: Block, ti: int, logs: Seq<Log>) -> Seq<FilterItem>
    decreases logs.len(),
{
    if logs.len() == 0 {
        Seq::empty()
    } else {
        receipt_items(f, b, ti, logs.drop_last()) + if log_matches(f, logs.last()) {
            seq![log_item(b, ti, logs.len() - 1, logs.last())]
        } else {
            Seq::empty()
        }
    }
}

/// The matching logs of a block, by transaction then log.
pub open spec fn block_items(f: LogFilter, b: Block, n: int) -> Seq<FilterItem>
    decreases n,
{
    if n <= 0 {
        Seq::empty()
    } else {
        block_items(f, b, n - 1) + receipt_items(f, b, n - 1, b.receipts@[n - 1].logs@)
    }
}

/// The matching logs of the blocks, in order.
pub open spec fn log_items(f: LogFilter, bs: Seq<Arc<Block>>) -> Seq<FilterItem>
    decreases bs.len(),
{
    if bs.len() == 0 {
        Seq::empty()
    } else {
        log_items(f, bs.drop_last()) + block_items(f, *bs.last(), bs.last().receipts@.len() as int)
    }
}

pub open spec fn after_cursor(cursor: u64) -> spec_fn(Arc<Block>) -> bool {
    |b: Arc<Block>| b.key.number > cursor
}

/// The cursor after delivering the blocks past `cursor`.
pub open spec fn next_cursor(bs: Seq<Arc<Block>>, cursor: u64) -> u64 {
    let fresh = bs.filter(after_cursor(cursor));
    if fresh.len() == 0 {
        cursor
    } else {
        fresh.last().key.number
    }
}

/// A filter is kept by a sweep at `now` while it was polled less than `ttl` ago.
pub open spec fn still_live(now: u64, ttl: u64) -> spec_fn(Filter) -> bool {
    |f: Filter| now < f.last_polled + ttl
}

pub open spec fn filter_at(s: Seq<Filter>, id: u64, i: int) -> bool {
    0 <= i < s.len() && s[i].id == id
}

pub open spec fn has_filter(s: Seq<Filter>, id: u64) -> bool {
    exists|i: int| #[trigger] filter_at(s, id, i)
}

pub open spec fn unique_ids(s: Seq<Filter>) -> bool {
    forall|i: int, j: int| 0 <= i < s.len() && 0 <= j < s.len() && s[i].id == s[j].id ==> i == j
}

/// A filter created at `t0` and never polled since is gone after any sweep at or
/// past `t0 + ttl`.
pub proof fn lemma_stale_filter_reaped(s: Seq<Filter>, id: u64, t0: u64, ttl: u64, now: u64)
    requires
        unique_ids(s),
        forall|i: int| #[trigger] filter_at(s, id, i) ==> s[i].last_polled == t0,
        now >= t0 + ttl,
    ensures
        !has_filter(s.filter(still_live(now, ttl)), id),
{
    let r = s.filter(still_live(now, ttl));
    crate::block_cache::lemma_filter_facts(s, still_live(now, ttl));
    if has_filter(r, id) {
        let i = choose|i: int| #[trigger] filter_at(r, id, i);
        let j = choose|j: int| 0 <= j < s.len() && s[j] == r[i];
        assert(filter_at(s, id, j));
        assert(still_live(now, ttl)(r[i]));
    }
}

/// Ids strictly ascending along the registry, hence unique.
pub open spec fn ascending_ids(s: Seq<Filter>) -> bool {
    forall|i: int, j: int| 0 <= i < j < s.len() ==> s[i].id < s[j].id
}

/// What a poll of filter `f` delivers, given the canonical blocks handed to it.
pub open spec fn poll_items(f: Filter, bs: Seq<Arc<Block>>) -> Seq<FilterItem> {
    let fresh = bs.filter(after_cursor(f.cursor));
    match f.kind {
        FilterKind::NewBlockHashes => fresh.map_values(|b: Arc<Block>| FilterItem::BlockHash(b.key.hash)),
        FilterKind::Logs(lf) => log_items(lf, fresh),
        FilterKind::PendingTransactions => f.pending@.map_values(|h: B256| FilterItem::TransactionHash(h)),
    }
}

/// The error a poll of `f` ends in, if any.
pub open spec fn poll_error(f: Filter, bs: Seq<Arc<Block>>, config: FilterConfig) -> Option<FilterError> {
    let fresh = bs.filter(after_cursor(f.cursor));
    match f.kind {
        FilterKind::Logs(lf) => if fresh.len() > config.max_blocks_per_filter {
            Some(FilterError::QueryExceedsMaxBlocks)
        } else if log_items(lf, fresh).len() > config.max_logs_per_response {
            Some(FilterError::QueryExceedsMaxResults)
        } else {
            None
        },
        _ => None,
    }
}

proof fn lemma_filter_keeps_ascending(s: Seq<Filter>, pred: spec_fn(Filter) -> bool)
    requires
        ascending_ids(s),
    ensures
        ascending_ids(s.filter(pred)),
    decreases s.len(),
{
    reveal(Seq::filter);
    if s.len() > 0 {
        let d = s.drop_last();
        lemma_filter_keeps_ascending(d, pred);
        crate::block_cache::lemma_filter_facts(d, pred);
        let g = d.filter(pred);
        assert forall|i: int| 0 <= i < g.len() implies #[trigger] g[i].id < s.last().id by {
            let j = choose|j: int| 0 <= j < d.len() && d[j] == g[i];
            assert(s[j] == d[j]);
        }
    }
}

/// The poll-style filters of the serving layer.
pub struct FilterRegistry {
    config: FilterConfig,
    filters: Vec<Filter>,
    next_id: u64,
    head: u64,
}

impl FilterRegistry {
    pub closed spec fn config(&self) -> FilterConfig {
        self.config
    }

    pub closed spec fn filters(&self) -> Seq<Filter> {
        self.filters@
    }

    pub closed spec fn next_id(&self) -> u64 {
        self.next_id
    }

    /// The canonical head as last reported.
    pub closed spec fn head(&self) -> u64 {
        self.head
    }

    pub open spec fn wf(&self) -> bool {
        &&& ascending_ids(self.filters())
        &&& forall|i: int| 0 <= i < self.filters().len() ==> #[trigger] self.filters()[i].id < self.next_id()
    }

    pub fn new(config: FilterConfig, head: u64) -> (r: Self)
        ensures
            r.wf(),
            r.config() == config,
            r.filters().len() == 0,
            r.head() == head,
            r.next_id() == 0,
    {
        FilterRegistry { config, filters: Vec::new(), next_id: 0, head }
    }

    pub fn len(&self) -> (r: usize)
        ensures
            r == self.filters().len(),
    {
        self.filters.len()
    }

    /// The canonical head as last reported.
    pub fn head_number(&self) -> (r: u64)
        ensures
            r == self.head(),
    {
        self.head
    }

    /// Records a new canonical head.
    pub fn set_head(&mut self, head: u64)
        ensures
            final(self).head() == head,
            final(self).filters() == old(self).filters(),
            final(self).next_id() == old(self).next_id(),
            final(self).config() == old(self).config(),
    {
        self.head = head;
    }

    fn position(&self, id: u64) -> (r: Option<usize>)
        ensures
            match r {
                Some(i) => filter_at(self.filters(), id, i as int),
                None => !has_filter(self.filters(), id),
            },
    {
        let mut i: usize = 0;
        while i < self.filters.len()
            invariant
                i <= self.filters@.len(),
                forall|j: int| 0 <= j < i ==> self.filters@[j].id != id,
            decreases self.filters@.len() - i,
        {
            if self.filters[i].id == id {
                return Some(i);
            }
            i = i + 1;
        }
        None
    }

    /// The cursor of filter `id`, if it is registered.
    pub fn cursor(&self, id: u64) -> (r: Option<u64>)
        requires
            self.wf(),
        ensures
            has_filter(self.filters(), id) <==> r is Some,
            forall|i: int| filter_at(self.filters(), id, i) ==> r == Some(self.filters()[i].cursor),
    {
        match self.position(id) {
            Some(i) => Some(self.filters[i].cursor),
            None => None,
        }
    }

    /// Registers a filter with a fresh identifier, its cursor at the current head.
    pub fn create(&mut self, kind: FilterKind, now: u64) -> (r: Result<u64, FilterError>)
        requires
            old(self).wf(),
        ensures
            final(self).wf(),
            final(self).config() == old(self).config(),
            final(self).head() == old(self).head(),
            r is Err <==> old(self).next_id() == u64::MAX,
            r is Err ==> r == Err::<u64, FilterError>(FilterError::IdsExhausted) && final(self).filters() == old(self).filters(),
            r is Ok ==> {
                let id = r->Ok_0;
                let f = final(self).filters().last();
                &&& id == old(self).next_id()
                &&& !has_filter(old(self).filters(), id)
                &&& final(self).filters().len() == old(self).filters().len() + 1
                &&& final(self).filters().drop_last() == old(self).filters()
                &&& f.id == id && f.kind == kind && f.created_at == now && f.last_polled == now
                &&& f.cursor == old(self).head() && f.pending@.len() == 0
            },
    {
        if self.next_id == u64::MAX {
            return Err(FilterError::IdsExhausted);
        }
        let id = self.next_id;
        self.filters.push(Filter { id, kind, created_at: now, last_polled: now, cursor: self.head, pending: Vec::new() });
        self.next_id = id + 1;
        assert(self.filters@.drop_last() =~= old(self).filters@);
        Ok(id)
    }

    /// Removes filter `id`.
    pub fn remove(&mut self, id: u64) -> (r: Result<(), FilterError>)
        requires
            old(self).wf(),
        ensures
            final(self).wf(),
            final(self).config() == old(self).config(),
            final(self).head() == old(self).head(),
            r is Ok <==> has_filter(old(self).filters(), id),
            r is Err ==> r == Err::<(), FilterError>(FilterError::FilterNotFound) && final(self).filters() == old(self).filters(),
            r is Ok ==> exists|i: int| #[trigger] filter_at(old(self).filters(), id, i) && final(self).filters() == old(self).filters().remove(i),
            !has_filter(final(self).filters(), id),
    {
        match self.position(id) {
            None => Err(FilterError::FilterNotFound),
            Some(i) => {
                let ghost s = self.filters@;
                self.filters.remove(i);
                assert forall|a: int, b: int| 0 <= a < b < self.filters@.len() implies self.filters@[a].id < self.filters@[b].id by {
                    let a0 = if a < i { a } else { a + 1 };
                    let b0 = if b < i { b } else { b + 1 };
                    assert(self.filters@[a] == s[a0]);
                    assert(self.filters@[b] == s[b0]);
                }
                assert(forall|j: int| 0 <= j < self.filters@.len() ==> #[trigger] self.filters@[j] == s[if j < i { j } else { j + 1 }]);
                assert(filter_at(s, id, i as int));
                Ok(())
            },
        }
    }


    /// Delivers what filter `id` has gathered since its cursor: the hashes of the
    /// given canonical blocks numbered past the cursor, their matching logs, or the
    /// pending transaction hashes received since the last poll. The cursor moves
    /// to the last block delivered and the poll time is recorded. Fails with
    /// `FilterNotFound` for an unknown id, and for a logs filter with
    /// `QueryExceedsMaxBlocks` or `QueryExceedsMaxResults` past the configured
    /// bounds, leaving the filter as it was.
    pub fn poll(&mut self, id: u64, now: u64, blocks: &Vec<Arc<Block>>) -> (r: Result<Vec<FilterItem>, FilterError>)
        requires
            old(self).wf(),
        ensures
            final(self).wf(),
            final(self).config() == old(self).config(),
            final(self).head() == old(self).head(),
            final(self).next_id() == old(self).next_id(),
            !has_filter(old(self).filters(), id) ==> r == Err::<Vec<FilterItem>, FilterError>(FilterError::FilterNotFound)
                && final(self).filters() == old(self).filters(),
            forall|i: int| #[trigger] filter_at(old(self).filters(), id, i) ==> {
                let f = old(self).filters()[i];
                let g = final(self).filters()[i];
                match poll_error(f, blocks@, old(self).config()) {
                    Some(e) => r == Err::<Vec<FilterItem>, FilterError>(e) && final(self).filters() == old(self).filters(),
                    None => {
                        &&& r is Ok
                        &&& r->Ok_0@ == poll_items(f, blocks@)
                        &&& final(self).filters().len() == old(self).filters().len()
                        &&& forall|j: int| 0 <= j < old(self).filters().len() && j != i ==> final(self).filters()[j] == old(self).filters()[j]
                        &&& g.id == f.id && g.kind == f.kind && g.created_at == f.created_at
                        &&& g.last_polled == now
                        &&& g.cursor == next_cursor(blocks@, f.cursor)
                        &&& if f.kind is PendingTransactions { g.pending@.len() == 0 } else { g.pending == f.pending }
                    },
                }
            },
    {
        let i = match self.position(id) {
            None => return Err(FilterError::FilterNotFound),
            Some(i) => i,
        };
        proof {
            assert forall|j: int| #[trigger] filter_at(self.filters@, id, j) implies j == i by {
                if j < i {
                    assert(self.filters@[j].id < self.filters@[i as int].id);
                } else if j > i {
                    assert(self.filters@[i as int].id < self.filters@[j].id);
                }
            }
        }
        let cursor = self.filters[i].cursor;
        let fresh = blocks_after(blocks, cursor);
        let mut pending_kind = false;
        let items: Vec<FilterItem> = match &self.filters[i].kind {
            FilterKind::NewBlockHashes => block_hashes(&fresh),
            FilterKind::Logs(lf) => {
                if fresh.len() as u64 > self.config.max_blocks_per_filter {
                    return Err(FilterError::QueryExceedsMaxBlocks);
                }
                let found = collect_logs(lf, &fresh);
                if found.len() > self.config.max_logs_per_response {
                    return Err(FilterError::QueryExceedsMaxResults);
                }
                found
            },
            FilterKind::PendingTransactions => {
                pending_kind = true;
                pending_items(&self.filters[i].pending)
            },
        };
        let new_cursor = if fresh.len() == 0 { cursor } else { fresh[fresh.len() - 1].key.number };
        let ghost s = self.filters@;
        let mut f = self.filters.remove(i);
        f.last_polled = now;
        f.cursor = new_cursor;
        if pending_kind {
            f.pending = Vec::new();
        }
        self.filters.insert(i, f);
        assert forall|j: int| 0 <= j < self.filters@.len() && j != i implies self.filters@[j] == s[j] by {}
        assert forall|a: int, b: int| 0 <= a < b < self.filters@.len() implies self.filters@[a].id < self.filters@[b].id by {
            assert(self.filters@[a].id == s[a].id);
            assert(self.filters@[b].id == s[b].id);
        }
        assert forall|j: int| 0 <= j < self.filters@.len() implies #[trigger] self.filters@[j].id < self.next_id by {
            assert(self.filters@[j].id == s[j].id);
        }
        Ok(items)
    }

    /// Hands a newly seen pending transaction to every pending-transactions filter.
    pub fn on_pending_transaction(&mut self, hash: B256)
        requires
            old(self).wf(),
        ensures
            final(self).wf(),
            final(self).config() == old(self).config(),
            final(self).head() == old(self).head(),
            final(self).next_id() == old(self).next_id(),
            final(self).filters().len() == old(self).filters().len(),
            forall|j: int| 0 <= j < old(self).filters().len() ==> {
                let f = old(self).filters()[j];
                let g = #[trigger] final(self).filters()[j];
                &&& g.id == f.id && g.kind == f.kind && g.created_at == f.created_at
                &&& g.last_polled == f.last_polled && g.cursor == f.cursor
                &&& g.pending@ == if f.kind is PendingTransactions { f.pending@.push(hash) } else { f.pending@ }
            },
    {
        let ghost s = self.filters@;
        let mut i: usize = 0;
        while i < self.filters.len()
            invariant
                i <= self.filters@.len(),
                self.filters@.len() == s.len(),
                self.config == old(self).config,
                self.head == old(self).head,
                self.next_id == old(self).next_id,
                forall|j: int| i <= j < s.len() ==> self.filters@[j] == s[j],
                forall|j: int| 0 <= j < s.len() ==> self.filters@[j].id == s[j].id,
                forall|j: int| 0 <= j < i ==> {
                    let f = s[j];
                    let g = #[trigger] self.filters@[j];
                    &&& g.id == f.id && g.kind == f.kind && g.created_at == f.created_at
                    &&& g.last_polled == f.last_polled && g.cursor == f.cursor
                    &&& g.pending@ == if f.kind is PendingTransactions { f.pending@.push(hash) } else { f.pending@ }
                },
            decreases s.len() - i,
        {
            let is_pending = match self.filters[i].kind {
                FilterKind::PendingTransactions => true,
                _ => false,
            };
            if is_pending {
                let ghost before = self.filters@;
                let mut f = self.filters.remove(i);
                f.pending.push(hash);
                self.filters.insert(i, f);
                assert forall|j: int| 0 <= j < s.len() && j != i implies self.filters@[j] == before[j] by {}
            }
            i = i + 1;
        }
        proof {
            assert forall|a: int, b: int| 0 <= a < b < self.filters@.len() implies self.filters@[a].id < self.filters@[b].id by {
                assert(self.filters@[a].id == s[a].id);
                assert(self.filters@[b].id == s[b].id);
            }
            assert forall|j: int| 0 <= j < self.filters@.len() implies #[trigger] self.filters@[j].id < self.next_id by {
                assert(self.filters@[j].id == s[j].id);
            }
        }
    }

    /// Removes every filter not polled within the time-to-live before `now`.
    pub fn reap(&mut self, now: u64)
        requires
            old(self).wf(),
        ensures
            final(self).wf(),
            final(self).config() == old(self).config(),
            final(self).head() == old(self).head(),
            final(self).filters() == old(self).filters().filter(still_live(now, old(self).config().stale_filter_ttl_ms)),
    {
        let ttl = self.config.stale_filter_ttl_ms;
        let ghost orig = self.filters@;
        let ghost pred = still_live(now, ttl);
        let mut i: usize = 0;
        let ghost mut k: int = 0;
        while i < self.filters.len()
            invariant
                0 <= k <= orig.len(),
                i <= self.filters@.len(),
                self.filters@.subrange(0, i as int) == orig.subrange(0, k).filter(pred),
                self.filters@.subrange(i as int, self.filters@.len() as int) == orig.subrange(k, orig.len() as int),
                self.filters@.len() - i == orig.len() - k,
                self.config == old(self).config,
                self.head == old(self).head,
                self.next_id == old(self).next_id,
                ttl == self.config.stale_filter_ttl_ms,
                pred == still_live(now, ttl),
            decreases self.filters@.len() - i,
        {
            proof {
                assert(orig.subrange(0, k + 1).drop_last() =~= orig.subrange(0, k));
                assert(orig[k] == self.filters@.subrange(i as int, self.filters@.len() as int)[0]);
                reveal(Seq::filter);
            }
            let ghost before = self.filters@;
            let ghost tail = before.subrange(i as int, before.len() as int);
            assert(tail.drop_first() =~= orig.subrange(k + 1, orig.len() as int));
            if (now as u128) < (self.filters[i].last_polled as u128) + (ttl as u128) {
                i = i + 1;
                assert(self.filters@.subrange(0, i as int) =~= before.subrange(0, i - 1).push(orig[k]));
                assert(self.filters@.subrange(i as int, self.filters@.len() as int) =~= tail.drop_first());
            } else {
                self.filters.remove(i);
                assert(self.filters@.subrange(0, i as int) =~= before.subrange(0, i as int));
                assert(self.filters@.subrange(i as int, self.filters@.len() as int) =~= tail.drop_first());
            }
            proof {
                k = k + 1;
            }
        }
        assert(self.filters@ =~= self.filters@.subrange(0, i as int));
        assert(orig.subrange(0, k) =~= orig);
        proof {
            lemma_filter_keeps_ascending(orig, pred);
            crate::block_cache::lemma_filter_facts(orig, pred);
            assert forall|j: int| 0 <= j < self.filters@.len() implies #[trigger] self.filters@[j].id < self.next_id by {
                assert(self.filters@[j] == orig.filter(pred)[j]);
                assert(orig.contains(orig.filter(pred)[j]));
                let m = choose|m: int| 0 <= m < orig.len() && orig[m] == self.filters@[j];
            }
        }
    }
}

fn pending_items(v: &Vec<B256>) -> (r: Vec<FilterItem>)
    ensures
        r@ == v@.map_values(|h: B256| FilterItem::TransactionHash(h)),
{
    let mut r: Vec<FilterItem> = Vec::new();
    let mut i: usize = 0;
    while i < v.len()
        invariant
            i <= v@.len(),
            r@.len() == i,
            forall|j: int| 0 <= j < i ==> r@[j] == FilterItem::TransactionHash(v@[j]),
        decreases v@.len() - i,
    {
        r.push(FilterItem::TransactionHash(v[i]));
        i = i + 1;
    }
    assert(r@ =~= v@.map_values(|h: B256| FilterItem::TransactionHash(h)));
    r
}

fn address_admitted(f: &LogFilter, a: Address) -> (r: bool)
    ensures
        r == (f.addresses@.len() == 0 || f.addresses@.contains(a)),
{
    if f.addresses.len() == 0 {
        return true;
    }
    let mut i: usize = 0;
    while i < f.addresses.len()
        invariant
            i <= f.addresses@.len(),
            forall|j: int| 0 <= j < i ==> f.addresses@[j] != a,
        decreases f.addresses@.len() - i,
    {
        if f.addresses[i] == a {
            assert(f.addresses@[i as int] == a);
            return true;
        }
        i = i + 1;
    }
    false
}

/// Whether `log` satisfies the filter's address and topic predicate.
pub fn matches_log(f: &LogFilter, log: &Log) -> (r: bool)
    ensures
        r == log_matches(*f, *log),
{
    if !address_admitted(f, log.address) {
        return false;
    }
    let mut i: usize = 0;
    while i < f.topics.len()
        invariant
            i <= f.topics@.len(),
            forall|j: int|
                0 <= j < i && #[trigger] f.topics@[j] is Some ==> j < log.topics@.len()
                    && log.topics@[j] == f.topics@[j]->Some_0,
        decreases f.topics@.len() - i,
    {
        match f.topics[i] {
            Some(t) => {
                if i >= log.topics.len() || log.topics[i] != t {
                    assert(f.topics@[i as int] is Some);
                    return false;
                }
            },
            None => {},
        }
        i = i + 1;
    }
    true
}

pub(crate) fn collect_block_logs(f: &LogFilter, b: &Block, out: &mut Vec<FilterItem>)
    ensures
        final(out)@ == old(out)@ + block_items(*f, *b, b.receipts@.len() as int),
{
    let ghost start = out@;
    let mut t: usize = 0;
    while t < b.receipts.len()
        invariant
            t <= b.receipts@.len(),
            out@ == start + block_items(*f, *b, t as int),
        decreases b.receipts@.len() - t,
    {
        let logs = &b.receipts[t].logs;
        let ghost mid = out@;
        let mut l: usize = 0;
        while l < logs.len()
            invariant
                l <= logs@.len(),
                logs@ == b.receipts@[t as int].logs@,
                out@ == mid + receipt_items(*f, *b, t as int, logs@.subrange(0, l as int)),
            decreases logs@.len() - l,
        {
            assert(logs@.subrange(0, l + 1).drop_last() =~= logs@.subrange(0, l as int));
            if matches_log(f, &logs[l]) {
                out.push(FilterItem::Log {
                    block_number: b.key.number,
                    block_hash: b.key.hash,
                    transaction_index: t as u64,
                    log_index: l as u64,
                    address: logs[l].address,
                });
            }
            l = l + 1;
            assert(out@ =~= mid + receipt_items(*f, *b, t as int, logs@.subrange(0, l as int)));
        }
        assert(logs@.subrange(0, logs@.len() as int) =~= logs@);
        t = t + 1;
        assert(out@ =~= start + block_items(*f, *b, t as int));
    }
}

/// The blocks numbered past `cursor`, in order.
fn blocks_after(blocks: &Vec<Arc<Block>>, cursor: u64) -> (r: Vec<Arc<Block>>)
    ensures
        r@ == blocks@.filter(after_cursor(cursor)),
{
    let mut r: Vec<Arc<Block>> = Vec::new();
    let mut i: usize = 0;
    while i < blocks.len()
        invariant
            i <= blocks@.len(),
            r@ == blocks@.subrange(0, i as int).filter(after_cursor(cursor)),
        decreases blocks@.len() - i,
    {
        proof {
            assert(blocks@.subrange(0, i + 1).drop_last() =~= blocks@.subrange(0, i as int));
            reveal(Seq::filter);
        }
        if blocks[i].key.number > cursor {
            r.push(crate::types::share(&blocks[i]));
        }
        i = i + 1;
    }
    assert(blocks@.subrange(0, blocks@.len() as int) =~= blocks@);
    r
}

/// The matching logs of `blocks`, by block, transaction and log.
pub fn collect_logs(f: &LogFilter, blocks: &Vec<Arc<Block>>) -> (r: Vec<FilterItem>)
    ensures
        r@ == log_items(*f, blocks@),
{
    let mut r: Vec<FilterItem> = Vec::new();
    let mut i: usize = 0;
    while i < blocks.len()
        invariant
            i <= blocks@.len(),
            r@ == log_items(*f, blocks@.subrange(0, i as int)),
        decreases blocks@.len() - i,
    {
        assert(blocks@.subrange(0, i + 1).drop_last() =~= blocks@.subrange(0, i as int));
        collect_block_logs(f, &blocks[i], &mut r);
        i = i + 1;
    }
    assert(blocks@.subrange(0, blocks@.len() as int) =~= blocks@);
    r
}

/// The hashes of `blocks`, in order.
pub fn block_hashes(blocks: &Vec<Arc<Block>>) -> (r: Vec<FilterItem>)
    ensures
        r@ == blocks@.map_values(|b: Arc<Block>| FilterItem::BlockHash(b.key.hash)),
{
    let mut r: Vec<FilterItem> = Vec::new();
    let mut i: usize = 0;
    while i < blocks.len()
        invariant
            i <= blocks@.len(),
            r@.len() == i,
            forall|j: int| 0 <= j < i ==> r@[j] == FilterItem::BlockHash(blocks@[j].key.hash),
        decreases blocks@.len() - i,
    {
        r.push(FilterItem::BlockHash(blocks[i].key.hash));
        i = i + 1;
    }
    assert(r@ =~= blocks@.map_values(|b: Arc<Block>| FilterItem::BlockHash(b.key.hash)));
    r
}

} // verus!
