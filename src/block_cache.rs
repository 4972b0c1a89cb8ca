//! Recency-ordered cache of recent blocks with single-flight fetching and
//! reorg-aware invalidation.
use vstd::prelude::*;
use std::sync::Arc;
use crate::types::{share, Block, BlockKey, ChainUpdate, ProviderError};

verus! {

/// One cached block under the key it was requested or announced with.
pub type CacheEntry = (BlockKey, Arc<Block>);

pub open spec fn other_key(k: BlockKey) -> spec_fn(CacheEntry) -> bool {
    |e: CacheEntry| e.0 != k
}

/// The entries without any for key `k`, order kept.
pub open spec fn without_key(s: Seq<CacheEntry>, k: BlockKey) -> Seq<CacheEntry> {
    s.filter(other_key(k))
}

/// The block cached under `k`, if any (the most recent one).
pub open spec fn find_entry(s: Seq<CacheEntry>, k: BlockKey) -> Option<Arc<Block>>
    decreases s.len(),
{
    if s.len() == 0 {
        None
    } else if s.last().0 == k {
        Some(s.last().1)
    } else {
        find_entry(s.drop_last(), k)
    }
}

/// Inserting `(k, b)` as the most recently used entry: any older entry for `k`
/// goes, and at capacity the least recently used entry is evicted.
pub open spec fn insert_entry(s: Seq<CacheEntry>, k: BlockKey, b: Arc<Block>, cap: nat) -> Seq<
    CacheEntry,
> {
    let r = without_key(s, k);
    if cap == 0 {
        r
    } else if r.len() >= cap {
        r.drop_first().push((k, b))
    } else {
        r.push((k, b))
    }
}

/// A read hit makes its entry the most recently used one.
pub open spec fn touch_entry(s: Seq<CacheEntry>, k: BlockKey) -> Seq<CacheEntry> {
    match find_entry(s, k) {
        Some(b) => without_key(s, k).push((k, b)),
        None => s,
    }
}

pub open spec fn outside_numbers(ns: Seq<u64>) -> spec_fn(CacheEntry) -> bool {
    |e: CacheEntry| !ns.contains(e.0.number)
}

/// The entries whose block number is not among `ns`.
pub open spec fn purge_numbers(s: Seq<CacheEntry>, ns: Seq<u64>) -> Seq<CacheEntry> {
    s.filter(outside_numbers(ns))
}

/// Inserting each block in turn under its own key.
pub open spec fn insert_blocks(s: Seq<CacheEntry>, bs: Seq<Arc<Block>>, cap: nat) -> Seq<
    CacheEntry,
>
    decreases bs.len(),
{
    if bs.len() == 0 {
        s
    } else {
        insert_entry(insert_blocks(s, bs.drop_last(), cap), bs.last().key, bs.last(), cap)
    }
}

pub open spec fn key_numbers(ks: Seq<BlockKey>) -> Seq<u64> {
    ks.map_values(|k: BlockKey| k.number)
}

/// What a canonical update does to the entries: a new block is inserted; a reorg
/// first purges every entry at an abandoned block number, then inserts the
/// replacement blocks in order.
pub open spec fn apply_update(s: Seq<CacheEntry>, u: ChainUpdate, cap: nat) -> Seq<CacheEntry> {
    match u {
        ChainUpdate::NewCanonicalBlock { block } => insert_entry(s, block.key, block, cap),
        ChainUpdate::Reorg { abandoned, new_blocks } => insert_blocks(
            purge_numbers(s, key_numbers(abandoned@)),
            new_blocks@,
            cap,
        ),
    }
}

/// A fetch in flight for a key is superseded once a reorg abandons its block number.
pub open spec fn mark_superseded(fl: Seq<(BlockKey, bool)>, ns: Seq<u64>) -> Seq<(BlockKey, bool)> {
    fl.map_values(|f: (BlockKey, bool)| (f.0, f.1 || ns.contains(f.0.number)))
}

pub open spec fn in_flight_index(fl: Seq<(BlockKey, bool)>, k: BlockKey, i: int) -> bool {
    0 <= i < fl.len() && fl[i].0 == k
}

pub open spec fn is_in_flight(fl: Seq<(BlockKey, bool)>, k: BlockKey) -> bool {
    exists|i: int| #[trigger] in_flight_index(fl, k, i)
}

pub open spec fn other_fetch(k: BlockKey) -> spec_fn((BlockKey, bool)) -> bool {
    |f: (BlockKey, bool)| f.0 != k
}

pub open spec fn other_waiter(k: BlockKey) -> spec_fn((BlockKey, u64)) -> bool {
    |w: (BlockKey, u64)| w.0 != k
}

pub open spec fn waiter_for(k: BlockKey) -> spec_fn((BlockKey, u64)) -> bool {
    |w: (BlockKey, u64)| w.0 == k
}

/// How a lookup starts.
#[derive(Debug)]
pub enum GetStart {
    /// The block was cached.
    Hit(Arc<Block>),
    /// The caller is the first to ask: it must fetch from the provider and then
    /// report with `complete_fetch`.
    Fetch,
    /// A fetch for the key is already in flight: the caller waits for its outcome.
    Wait,
}

/// Why a fetch delivered no block.
#[derive(Clone, Copy, Debug, PartialEq, Eq, Structural)]
pub enum FetchError {
    /// The provider failed; nothing was cached.
    Provider(ProviderError),
    /// A reorg abandoned the block's number while the fetch was in flight: the
    /// caller re-resolves against the current canonical chain.
    ReorgRace,
}

/// How many times a lookup is re-resolved after a reorg raced it.
pub const MAX_REORG_RETRIES: u32 = 3;

/// Whether a lookup that failed with `err` after `attempts` re-resolutions is
/// tried again against the current canonical chain: only a reorg race is, and
/// only a bounded number of times.
pub fn should_retry(attempts: u32, err: FetchError) -> (r: bool)
    ensures
        r == (err == FetchError::ReorgRace && attempts < MAX_REORG_RETRIES),
{
    match err {
        FetchError::ReorgRace => attempts < MAX_REORG_RETRIES,
        FetchError::Provider(_) => false,
    }
}

/// The outcome of a fetch, for every caller that waited on it.
#[derive(Debug)]
pub struct FetchDone {
    pub waiters: Vec<u64>,
    pub outcome: Result<Arc<Block>, FetchError>,
}

/// The block cache: at most `max_blocks` entries, least recently used first.
pub struct BlockCache {
    max_blocks: usize,
    entries: Vec<CacheEntry>,
    in_flight: Vec<(BlockKey, bool)>,
    waiters: Vec<(BlockKey, u64)>,
}

impl BlockCache {
    pub closed spec fn capacity(&self) -> nat {
        self.max_blocks as nat
    }

    /// The cached entries, least recently used first.
    pub closed spec fn entries(&self) -> Seq<CacheEntry> {
        self.entries@
    }

    /// The fetches in flight, each with whether a reorg has superseded it.
    pub closed spec fn in_flight(&self) -> Seq<(BlockKey, bool)> {
        self.in_flight@
    }

    /// The callers waiting on a fetch, with the key each waits for.
    pub closed spec fn waiters(&self) -> Seq<(BlockKey, u64)> {
        self.waiters@
    }

    pub open spec fn wf(&self) -> bool {
        self.entries().len() <= self.capacity()
    }

    pub fn new(max_blocks: usize) -> (r: Self)
        ensures
            r.wf(),
            r.capacity() == max_blocks,
            r.entries().len() == 0,
            r.in_flight().len() == 0,
            r.waiters().len() == 0,
    {
        BlockCache {
            max_blocks,
            entries: Vec::new(),
            in_flight: Vec::new(),
            waiters: Vec::new(),
        }
    }

    pub fn len(&self) -> (r: usize)
        ensures
            r == self.entries().len(),
    {
        self.entries.len()
    }

    /// The block cached under `key`, without touching recency.
    pub fn peek(&self, key: &BlockKey) -> (r: Option<Arc<Block>>)
        ensures
            r == find_entry(self.entries(), *key),
    {
        let mut i: usize = self.entries.len();
        assert(self.entries@.subrange(0, i as int) =~= self.entries@);
        while i > 0
            invariant
                i <= self.entries@.len(),
                find_entry(self.entries@, *key) == find_entry(
                    self.entries@.subrange(0, i as int),
                    *key,
                ),
            decreases i,
        {
            let ghost s = self.entries@.subrange(0, i as int);
            assert(s.drop_last() =~= self.entries@.subrange(0, i - 1));
            if self.entries[i - 1].0 == *key {
                return Some(share(&self.entries[i - 1].1));
            }
            i = i - 1;
        }
        None
    }

    fn in_flight_position(&self, key: BlockKey) -> (r: Option<usize>)
        ensures
            match r {
                Some(i) => in_flight_index(self.in_flight(), key, i as int),
                None => !is_in_flight(self.in_flight(), key),
            },
    {
        let mut i: usize = 0;
        while i < self.in_flight.len()
            invariant
                i <= self.in_flight@.len(),
                forall|j: int| 0 <= j < i ==> self.in_flight@[j].0 != key,
            decreases self.in_flight@.len() - i,
        {
            if self.in_flight[i].0 == key {
                return Some(i);
            }
            i = i + 1;
        }
        None
    }

    /// Starts a lookup of `key` on behalf of `waiter`. A hit is returned at once
    /// (and becomes the most recently used entry). On a miss, only the first caller
    /// is told to fetch; every later caller for the same key waits on that fetch.
    pub fn begin_get(&mut self, key: BlockKey, waiter: u64) -> (r: GetStart)
        requires
            old(self).wf(),
        ensures
            final(self).wf(),
            final(self).capacity() == old(self).capacity(),
            match r {
                GetStart::Hit(b) => {
                    &&& find_entry(old(self).entries(), key) == Some(b)
                    &&& final(self).entries() == touch_entry(old(self).entries(), key)
                    &&& final(self).in_flight() == old(self).in_flight()
                    &&& final(self).waiters() == old(self).waiters()
                },
                GetStart::Fetch => {
                    &&& find_entry(old(self).entries(), key) is None
                    &&& !is_in_flight(old(self).in_flight(), key)
                    &&& final(self).entries() == old(self).entries()
                    &&& final(self).in_flight() == old(self).in_flight().push((key, false))
                    &&& final(self).waiters() == old(self).waiters().push((key, waiter))
                },
                GetStart::Wait => {
                    &&& find_entry(old(self).entries(), key) is None
                    &&& is_in_flight(old(self).in_flight(), key)
                    &&& final(self).entries() == old(self).entries()
                    &&& final(self).in_flight() == old(self).in_flight()
                    &&& final(self).waiters() == old(self).waiters().push((key, waiter))
                },
            },
    {
        match self.get_cached(&key) {
            Some(b) => GetStart::Hit(b),
            None => {
                proof {
                    lemma_touch_none(self.entries@, key);
                }
                match self.in_flight_position(key) {
                    Some(i) => {
                        self.waiters.push((key, waiter));
                        GetStart::Wait
                    },
                    None => {
                        self.in_flight.push((key, false));
                        self.waiters.push((key, waiter));
                        GetStart::Fetch
                    },
                }
            },
        }
    }

    /// Reports the outcome of the provider fetch for `key`. The fetch leaves the
    /// in-flight table and every caller waiting on it is handed the outcome. A block
    /// is cached unless a reorg superseded the fetch; a provider failure is never
    /// cached.
    pub fn complete_fetch(&mut self, key: BlockKey, result: Result<Block, ProviderError>) -> (r:
        FetchDone)
        requires
            old(self).wf(),
        ensures
            final(self).wf(),
            final(self).capacity() == old(self).capacity(),
            final(self).in_flight() == old(self).in_flight().filter(other_fetch(key)),
            final(self).waiters() == old(self).waiters().filter(other_waiter(key)),
            r.waiters@ == old(self).waiters().filter(waiter_for(key)).map_values(
                |w: (BlockKey, u64)| w.1,
            ),
            match result {
                Err(e) => {
                    &&& r.outcome == Err::<Arc<Block>, FetchError>(FetchError::Provider(e))
                    &&& final(self).entries() == old(self).entries()
                },
                Ok(b) => if fetch_superseded(old(self).in_flight(), key) {
                    &&& r.outcome == Err::<Arc<Block>, FetchError>(FetchError::ReorgRace)
                    &&& final(self).entries() == old(self).entries()
                } else {
                    &&& r.outcome is Ok
                    &&& *r.outcome->Ok_0 == b
                    &&& final(self).entries() == insert_entry(
                        old(self).entries(),
                        key,
                        r.outcome->Ok_0,
                        old(self).capacity(),
                    )
                },
            },
    {
        let mut superseded = false;
        let mut kept: Vec<(BlockKey, bool)> = Vec::new();
        let mut i: usize = 0;
        while i < self.in_flight.len()
            invariant
                i <= self.in_flight@.len(),
                kept@ == self.in_flight@.subrange(0, i as int).filter(other_fetch(key)),
                superseded <==> exists|j: int| 0 <= j < i && #[trigger] in_flight_index(self.in_flight@, key, j) && self.in_flight@[j].1,
            decreases self.in_flight@.len() - i,
        {
            proof {
                assert(self.in_flight@.subrange(0, i + 1).drop_last() =~= self.in_flight@.subrange(0, i as int));
                reveal(Seq::filter);
            }
            let f = self.in_flight[i];
            if f.0 == key {
                if f.1 {
                    superseded = true;
                }
                assert(in_flight_index(self.in_flight@, key, i as int));
            } else {
                kept.push(f);
            }
            i = i + 1;
        }
        assert(self.in_flight@.subrange(0, self.in_flight@.len() as int) =~= self.in_flight@);
        let mut rest: Vec<(BlockKey, u64)> = Vec::new();
        let mut woken: Vec<u64> = Vec::new();
        let ghost mine = self.waiters@.filter(waiter_for(key));
        let mut j: usize = 0;
        while j < self.waiters.len()
            invariant
                j <= self.waiters@.len(),
                rest@ == self.waiters@.subrange(0, j as int).filter(other_waiter(key)),
                woken@ == self.waiters@.subrange(0, j as int).filter(waiter_for(key)).map_values(
                    |w: (BlockKey, u64)| w.1,
                ),
            decreases self.waiters@.len() - j,
        {
            let ghost pre = self.waiters@.subrange(0, j as int).filter(waiter_for(key));
            proof {
                assert(self.waiters@.subrange(0, j + 1).drop_last() =~= self.waiters@.subrange(0, j as int));
                reveal(Seq::filter);
            }
            let w = self.waiters[j];
            if w.0 == key {
                woken.push(w.1);
                assert(pre.push(w).map_values(|w: (BlockKey, u64)| w.1) =~= pre.map_values(
                    |w: (BlockKey, u64)| w.1,
                ).push(w.1));
            } else {
                rest.push(w);
            }
            j = j + 1;
        }
        assert(self.waiters@.subrange(0, self.waiters@.len() as int) =~= self.waiters@);
        proof {
            lemma_filter_facts(self.in_flight@, other_fetch(key));
        }
        self.in_flight = kept;
        self.waiters = rest;
        let outcome = match result {
            Err(e) => Err(FetchError::Provider(e)),
            Ok(b) => {
                if superseded {
                    Err(FetchError::ReorgRace)
                } else {
                    let block = Arc::new(b);
                    self.insert(key, share(&block));
                    Ok(block)
                }
            },
        };
        FetchDone { waiters: woken, outcome }
    }


    /// Applies a canonical update: a new block is inserted; a reorg purges every
    /// entry at an abandoned block number and marks fetches in flight at those
    /// numbers superseded before the replacement blocks are inserted in order.
    pub fn on_canonical_update(&mut self, update: &ChainUpdate)
        requires
            old(self).wf(),
        ensures
            final(self).wf(),
            final(self).capacity() == old(self).capacity(),
            final(self).entries() == apply_update(old(self).entries(), *update, old(self).capacity()),
            final(self).waiters() == old(self).waiters(),
            match *update {
                ChainUpdate::NewCanonicalBlock { .. } => final(self).in_flight() == old(self).in_flight(),
                ChainUpdate::Reorg { abandoned, .. } => final(self).in_flight() == mark_superseded(
                    old(self).in_flight(),
                    key_numbers(abandoned@),
                ),
            },
    {
        match update {
            ChainUpdate::NewCanonicalBlock { block } => {
                self.insert(block.key, share(block));
            },
            ChainUpdate::Reorg { abandoned, new_blocks } => {
                let numbers = numbers_of(abandoned);
                self.purge(&numbers);
                self.supersede(&numbers);
                let ghost base = self.entries@;
                let mut i: usize = 0;
                while i < new_blocks.len()
                    invariant
                        i <= new_blocks@.len(),
                        self.wf(),
                        self.capacity() == old(self).capacity(),
                        self.entries() == insert_blocks(base, new_blocks@.subrange(0, i as int), self.capacity()),
                        self.waiters() == old(self).waiters(),
                        self.in_flight() == mark_superseded(old(self).in_flight(), numbers@),
                    decreases new_blocks@.len() - i,
                {
                    assert(new_blocks@.subrange(0, i + 1).drop_last() =~= new_blocks@.subrange(0, i as int));
                    self.insert(new_blocks[i].key, share(&new_blocks[i]));
                    i = i + 1;
                }
                assert(new_blocks@.subrange(0, new_blocks@.len() as int) =~= new_blocks@);
            },
        }
    }

    fn purge(&mut self, numbers: &Vec<u64>)
        requires
            old(self).wf(),
        ensures
            final(self).wf(),
            final(self).capacity() == old(self).capacity(),
            final(self).entries() == purge_numbers(old(self).entries(), numbers@),
            final(self).in_flight() == old(self).in_flight(),
            final(self).waiters() == old(self).waiters(),
    {
        let mut r: Vec<CacheEntry> = Vec::new();
        let mut i: usize = 0;
        while i < self.entries.len()
            invariant
                i <= self.entries@.len(),
                r@ == self.entries@.subrange(0, i as int).filter(outside_numbers(numbers@)),
            decreases self.entries@.len() - i,
        {
            proof {
                assert(self.entries@.subrange(0, i + 1).drop_last() =~= self.entries@.subrange(0, i as int));
                reveal(Seq::filter);
            }
            if !contains_number(numbers, self.entries[i].0.number) {
                r.push((self.entries[i].0, share(&self.entries[i].1)));
            }
            i = i + 1;
        }
        assert(self.entries@.subrange(0, self.entries@.len() as int) =~= self.entries@);
        proof {
            lemma_filter_facts(self.entries@, outside_numbers(numbers@));
        }
        self.entries = r;
    }

    fn supersede(&mut self, numbers: &Vec<u64>)
        ensures
            final(self).capacity() == old(self).capacity(),
            final(self).entries() == old(self).entries(),
            final(self).in_flight() == mark_superseded(old(self).in_flight(), numbers@),
            final(self).waiters() == old(self).waiters(),
    {
        let mut r: Vec<(BlockKey, bool)> = Vec::new();
        let mut i: usize = 0;
        while i < self.in_flight.len()
            invariant
                i <= self.in_flight@.len(),
                r@.len() == i,
                forall|j: int| 0 <= j < i ==> r@[j] == (self.in_flight@[j].0, self.in_flight@[j].1 || numbers@.contains(self.in_flight@[j].0.number)),
            decreases self.in_flight@.len() - i,
        {
            let f = self.in_flight[i];
            let hit = contains_number(numbers, f.0.number);
            r.push((f.0, f.1 || hit));
            i = i + 1;
        }
        assert(r@ =~= mark_superseded(self.in_flight@, numbers@));
        self.in_flight = r;
    }

    /// The cached blocks whose numbers lie among the `n` highest cached block
    /// numbers (every cached block at those numbers, forks included), in cache
    /// order; none when `n` is zero.
    pub fn recent_blocks(&self, n: usize) -> (r: Vec<Arc<Block>>)
        ensures
            r@ == recent_of(self.entries(), n as nat),
    {
        let mut top: u64 = 0;
        let mut i: usize = 0;
        while i < self.entries.len()
            invariant
                i <= self.entries@.len(),
                top == max_number(self.entries@.subrange(0, i as int)),
            decreases self.entries@.len() - i,
        {
            assert(self.entries@.subrange(0, i + 1).drop_last() =~= self.entries@.subrange(0, i as int));
            if self.entries[i].0.number > top {
                top = self.entries[i].0.number;
            }
            i = i + 1;
        }
        assert(self.entries@.subrange(0, self.entries@.len() as int) =~= self.entries@);
        let mut r: Vec<Arc<Block>> = Vec::new();
        let mut j: usize = 0;
        while j < self.entries.len()
            invariant
                j <= self.entries@.len(),
                top == max_number(self.entries@),
                r@ == blocks_from(self.entries@.subrange(0, j as int), top, n as nat),
            decreases self.entries@.len() - j,
        {
            assert(self.entries@.subrange(0, j + 1).drop_last() =~= self.entries@.subrange(0, j as int));
            if (self.entries[j].0.number as u128) + (n as u128) > top as u128 {
                r.push(share(&self.entries[j].1));
            }
            j = j + 1;
        }
        assert(self.entries@.subrange(0, self.entries@.len() as int) =~= self.entries@);
        r
    }

    fn removed_key(v: &Vec<CacheEntry>, key: BlockKey) -> (r: Vec<CacheEntry>)
        ensures
            r@ == without_key(v@, key),
    {
        let mut r: Vec<CacheEntry> = Vec::new();
        let mut i: usize = 0;
        while i < v.len()
            invariant
                i <= v@.len(),
                r@ == v@.subrange(0, i as int).filter(other_key(key)),
            decreases v@.len() - i,
        {
            proof {
                assert(v@.subrange(0, i + 1).drop_last() =~= v@.subrange(0, i as int));
                reveal(Seq::filter);
            }
            if v[i].0 != key {
                r.push((v[i].0, share(&v[i].1)));
            }
            i = i + 1;
        }
        assert(v@.subrange(0, v@.len() as int) =~= v@);
        r
    }

    /// Inserts `block` under `key` as the most recently used entry, evicting the
    /// least recently used one at capacity.
    pub fn insert(&mut self, key: BlockKey, block: Arc<Block>)
        requires
            old(self).wf(),
        ensures
            final(self).wf(),
            final(self).capacity() == old(self).capacity(),
            final(self).entries() == insert_entry(old(self).entries(), key, block, old(self).capacity()),
            final(self).in_flight() == old(self).in_flight(),
            final(self).waiters() == old(self).waiters(),
    {
        let mut r = Self::removed_key(&self.entries, key);
        proof {
            lemma_filter_facts(self.entries@, other_key(key));
        }
        if self.max_blocks == 0 {
        } else if r.len() >= self.max_blocks {
            r.remove(0);
            r.push((key, block));
        } else {
            r.push((key, block));
        }
        self.entries = r;
    }

    /// Looks `key` up; a hit becomes the most recently used entry.
    pub fn get_cached(&mut self, key: &BlockKey) -> (r: Option<Arc<Block>>)
        requires
            old(self).wf(),
        ensures
            final(self).wf(),
            r == find_entry(old(self).entries(), *key),
            final(self).capacity() == old(self).capacity(),
            final(self).entries() == touch_entry(old(self).entries(), *key),
            final(self).in_flight() == old(self).in_flight(),
            final(self).waiters() == old(self).waiters(),
    {
        let found = self.peek(key);
        match found {
            Some(b) => {
                let mut r = Self::removed_key(&self.entries, *key);
                proof {
                    lemma_filter_facts(self.entries@, other_key(*key));
                    lemma_find_some_len(self.entries@, *key);
                }
                r.push((*key, share(&b)));
                self.entries = r;
                Some(b)
            },
            None => None,
        }
    }
}

/// The highest block number cached (0 when nothing is).
pub open spec fn max_number(s: Seq<CacheEntry>) -> u64
    decreases s.len(),
{
    if s.len() == 0 {
        0
    } else if s.last().0.number > max_number(s.drop_last()) {
        s.last().0.number
    } else {
        max_number(s.drop_last())
    }
}

/// The blocks of the entries numbered above `top - n`, in order.
pub open spec fn blocks_from(s: Seq<CacheEntry>, top: u64, n: nat) -> Seq<Arc<Block>>
    decreases s.len(),
{
    if s.len() == 0 {
        Seq::empty()
    } else if s.last().0.number + n > top {
        blocks_from(s.drop_last(), top, n).push(s.last().1)
    } else {
        blocks_from(s.drop_last(), top, n)
    }
}

/// The blocks cached at the `n` highest block numbers up to the highest cached
/// one, in cache order.
pub open spec fn recent_of(s: Seq<CacheEntry>, n: nat) -> Seq<Arc<Block>> {
    blocks_from(s, max_number(s), n)
}


/// No entry of `s` is cached under `k`.
pub open spec fn absent(s: Seq<CacheEntry>, k: BlockKey) -> bool {
    forall|i: int| 0 <= i < s.len() ==> s[i].0 != k
}

/// Applying updates in order.
pub open spec fn apply_updates(s: Seq<CacheEntry>, us: Seq<ChainUpdate>, cap: nat) -> Seq<CacheEntry>
    decreases us.len(),
{
    if us.len() == 0 {
        s
    } else {
        apply_update(apply_updates(s, us.drop_last(), cap), us.last(), cap)
    }
}

/// Whether an update announces a block under key `k`.
pub open spec fn announces(u: ChainUpdate, k: BlockKey) -> bool {
    match u {
        ChainUpdate::NewCanonicalBlock { block } => block.key == k,
        ChainUpdate::Reorg { new_blocks, .. } => exists|i: int|
            0 <= i < new_blocks@.len() && #[trigger] new_blocks@[i].key == k,
    }
}

pub(crate) proof fn lemma_filter_facts<A>(s: Seq<A>, pred: spec_fn(A) -> bool)
    ensures
        s.filter(pred).len() <= s.len(),
        forall|i: int| 0 <= i < s.filter(pred).len() ==> pred(#[trigger] s.filter(pred)[i]),
        forall|i: int| 0 <= i < s.filter(pred).len() ==> s.contains(#[trigger] s.filter(pred)[i]),
    decreases s.len(),
{
    reveal(Seq::filter);
    if s.len() > 0 {
        lemma_filter_facts(s.drop_last(), pred);
        let f = s.filter(pred);
        let g = s.drop_last().filter(pred);
        assert forall|i: int| 0 <= i < f.len() implies s.contains(#[trigger] f[i]) by {
            if i < g.len() {
                let j = choose|j: int| 0 <= j < s.drop_last().len() && s.drop_last()[j] == g[i];
                assert(s[j] == f[i]);
            } else {
                assert(s[s.len() - 1] == f[i]);
            }
        }
    }
}

proof fn lemma_absent_find(s: Seq<CacheEntry>, k: BlockKey)
    requires
        absent(s, k),
    ensures
        find_entry(s, k) is None,
    decreases s.len(),
{
    if s.len() > 0 {
        lemma_absent_find(s.drop_last(), k);
    }
}

proof fn lemma_filter_keeps_absent(s: Seq<CacheEntry>, pred: spec_fn(CacheEntry) -> bool, k: BlockKey)
    requires
        absent(s, k),
    ensures
        absent(s.filter(pred), k),
{
    lemma_filter_facts(s, pred);
    assert forall|i: int| 0 <= i < s.filter(pred).len() implies s.filter(pred)[i].0 != k by {
        assert(s.contains(s.filter(pred)[i]));
        let j = choose|j: int| 0 <= j < s.len() && s[j] == s.filter(pred)[i];
    }
}

proof fn lemma_insert_keeps_absent(s: Seq<CacheEntry>, k2: BlockKey, b: Arc<Block>, cap: nat, k: BlockKey)
    requires
        absent(s, k),
        k2 != k,
    ensures
        absent(insert_entry(s, k2, b, cap), k),
{
    lemma_filter_keeps_absent(s, other_key(k2), k);
}

proof fn lemma_insert_blocks_keeps_absent(s: Seq<CacheEntry>, bs: Seq<Arc<Block>>, cap: nat, k: BlockKey)
    requires
        absent(s, k),
        forall|i: int| 0 <= i < bs.len() ==> #[trigger] bs[i].key != k,
    ensures
        absent(insert_blocks(s, bs, cap), k),
    decreases bs.len(),
{
    if bs.len() > 0 {
        assert(bs.last().key != k);
        lemma_insert_blocks_keeps_absent(s, bs.drop_last(), cap, k);
        lemma_insert_keeps_absent(insert_blocks(s, bs.drop_last(), cap), bs.last().key, bs.last(), cap, k);
    }
}

proof fn lemma_update_keeps_absent(s: Seq<CacheEntry>, u: ChainUpdate, cap: nat, k: BlockKey)
    requires
        absent(s, k),
        !announces(u, k),
    ensures
        absent(apply_update(s, u, cap), k),
{
    match u {
        ChainUpdate::NewCanonicalBlock { block } => {
            lemma_insert_keeps_absent(s, block.key, block, cap, k);
        },
        ChainUpdate::Reorg { abandoned, new_blocks } => {
            let ns = key_numbers(abandoned@);
            lemma_filter_keeps_absent(s, outside_numbers(ns), k);
            assert forall|i: int| 0 <= i < new_blocks@.len() implies #[trigger] new_blocks@[i].key != k by {
                if new_blocks@[i].key == k {
                    assert(announces(u, k));
                }
            }
            lemma_insert_blocks_keeps_absent(purge_numbers(s, ns), new_blocks@, cap, k);
        },
    }
}

/// Once a reorg that abandons block `k` has been applied, and no later update
/// announces `k` again, a lookup of `k` misses: after any such sequence of
/// updates, and after any read (reads only reorder entries).
pub proof fn lemma_abandoned_block_stays_out(
    s: Seq<CacheEntry>,
    reorg: ChainUpdate,
    later: Seq<ChainUpdate>,
    cap: nat,
    k: BlockKey,
    read: BlockKey,
)
    requires
        reorg is Reorg,
        reorg->abandoned@.contains(k),
        !announces(reorg, k),
        forall|i: int| 0 <= i < later.len() ==> !announces(#[trigger] later[i], k),
    ensures
        find_entry(apply_updates(apply_update(s, reorg, cap), later, cap), k) is None,
        find_entry(touch_entry(apply_updates(apply_update(s, reorg, cap), later, cap), read), k) is None,
{
    let ns = key_numbers(reorg->abandoned@);
    let purged = purge_numbers(s, ns);
    let i = choose|i: int| 0 <= i < reorg->abandoned@.len() && reorg->abandoned@[i] == k;
    assert(ns[i] == k.number);
    assert(ns.contains(k.number));
    lemma_filter_facts(s, outside_numbers(ns));
    assert forall|j: int| 0 <= j < purged.len() implies purged[j].0 != k by {
        assert(outside_numbers(ns)(purged[j]));
    }
    lemma_update_keeps_absent_from_purged(s, reorg, cap, k);
    lemma_updates_keep_absent(apply_update(s, reorg, cap), later, cap, k);
    let t = apply_updates(apply_update(s, reorg, cap), later, cap);
    lemma_absent_find(t, k);
    if find_entry(t, read) is Some {
        lemma_insert_keeps_absent_touch(t, read, k);
    }
    lemma_absent_find(touch_entry(t, read), k);
}

proof fn lemma_update_keeps_absent_from_purged(s: Seq<CacheEntry>, reorg: ChainUpdate, cap: nat, k: BlockKey)
    requires
        reorg is Reorg,
        absent(purge_numbers(s, key_numbers(reorg->abandoned@)), k),
        !announces(reorg, k),
    ensures
        absent(apply_update(s, reorg, cap), k),
{
    let new_blocks = reorg->new_blocks;
    assert forall|i: int| 0 <= i < new_blocks@.len() implies #[trigger] new_blocks@[i].key != k by {
        if new_blocks@[i].key == k {
            assert(announces(reorg, k));
        }
    }
    lemma_insert_blocks_keeps_absent(purge_numbers(s, key_numbers(reorg->abandoned@)), new_blocks@, cap, k);
}

proof fn lemma_updates_keep_absent(s: Seq<CacheEntry>, us: Seq<ChainUpdate>, cap: nat, k: BlockKey)
    requires
        absent(s, k),
        forall|i: int| 0 <= i < us.len() ==> !announces(#[trigger] us[i], k),
    ensures
        absent(apply_updates(s, us, cap), k),
    decreases us.len(),
{
    if us.len() > 0 {
        assert(!announces(us[us.len() - 1], k));
        lemma_updates_keep_absent(s, us.drop_last(), cap, k);
        lemma_update_keeps_absent(apply_updates(s, us.drop_last(), cap), us.last(), cap, k);
    }
}

proof fn lemma_insert_keeps_absent_touch(s: Seq<CacheEntry>, read: BlockKey, k: BlockKey)
    requires
        absent(s, k),
        find_entry(s, read) is Some,
    ensures
        absent(touch_entry(s, read), k),
{
    lemma_absent_find(s, k);
    lemma_filter_keeps_absent(s, other_key(read), k);
    if read == k {
        assert(false);
    }
}

proof fn lemma_filter_all_kept<A>(s: Seq<A>, pred: spec_fn(A) -> bool)
    requires
        forall|i: int| 0 <= i < s.len() ==> pred(#[trigger] s[i]),
    ensures
        s.filter(pred) == s,
    decreases s.len(),
{
    reveal(Seq::filter);
    if s.len() > 0 {
        lemma_filter_all_kept(s.drop_last(), pred);
        assert(s.drop_last().push(s.last()) =~= s);
    }
}

/// Delivering the same new canonical block twice leaves the cache as one delivery
/// does: in particular exactly one entry holds its key.
pub proof fn lemma_new_block_idempotent(s: Seq<CacheEntry>, block: Arc<Block>, cap: nat)
    requires
        s.len() <= cap,
    ensures
        ({
            let u = ChainUpdate::NewCanonicalBlock { block };
            apply_update(apply_update(s, u, cap), u, cap) == apply_update(s, u, cap)
        }),
        cap > 0 ==> {
            let once = apply_update(s, ChainUpdate::NewCanonicalBlock { block }, cap);
            &&& once.last() == (block.key, block)
            &&& forall|i: int| 0 <= i < once.len() - 1 ==> once[i].0 != block.key
        },
{
    let k = block.key;
    let r = without_key(s, k);
    lemma_filter_facts(s, other_key(k));
    assert forall|i: int| 0 <= i < r.len() implies other_key(k)(#[trigger] r[i]) by {}
    let x = if cap == 0 || r.len() < cap { r } else { r.drop_first() };
    assert forall|i: int| 0 <= i < x.len() implies other_key(k)(#[trigger] x[i]) by {
        if !(cap == 0 || r.len() < cap) {
            assert(x[i] == r[i + 1]);
        }
    }
    lemma_filter_all_kept(x, other_key(k));
    let once = insert_entry(s, k, block, cap);
    if cap == 0 {
        assert(once == r);
        lemma_filter_all_kept(r, other_key(k));
    } else {
        assert(once == x.push((k, block)));
        reveal(Seq::filter);
        assert(once.drop_last() =~= x);
        assert(without_key(once, k) == x);
        assert(x.len() < cap);
    }
}

fn contains_number(ns: &Vec<u64>, n: u64) -> (r: bool)
    ensures
        r == ns@.contains(n),
{
    let mut i: usize = 0;
    while i < ns.len()
        invariant
            i <= ns@.len(),
            forall|j: int| 0 <= j < i ==> ns@[j] != n,
        decreases ns@.len() - i,
    {
        if ns[i] == n {
            assert(ns@[i as int] == n);
            return true;
        }
        i = i + 1;
    }
    false
}

fn numbers_of(ks: &Vec<BlockKey>) -> (r: Vec<u64>)
    ensures
        r@ == key_numbers(ks@),
{
    let mut r: Vec<u64> = Vec::new();
    let mut i: usize = 0;
    while i < ks.len()
        invariant
            i <= ks@.len(),
            r@.len() == i,
            forall|j: int| 0 <= j < i ==> r@[j] == ks@[j].number,
        decreases ks@.len() - i,
    {
        r.push(ks[i].number);
        i = i + 1;
    }
    assert(r@ =~= key_numbers(ks@));
    r
}

/// Whether a reorg superseded a fetch in flight for `k`.
pub open spec fn fetch_superseded(fl: Seq<(BlockKey, bool)>, k: BlockKey) -> bool {
    exists|i: int| #[trigger] in_flight_index(fl, k, i) && fl[i].1
}

proof fn lemma_touch_none(s: Seq<CacheEntry>, k: BlockKey)
    requires
        find_entry(s, k) is None,
    ensures
        touch_entry(s, k) == s,
{
}

proof fn lemma_find_some_len(s: Seq<CacheEntry>, k: BlockKey)
    requires
        find_entry(s, k) is Some,
    ensures
        without_key(s, k).len() < s.len(),
    decreases s.len(),
{
    reveal(Seq::filter);
    if s.last().0 != k {
        lemma_find_some_len(s.drop_last(), k);
    } else {
        lemma_filter_facts(s.drop_last(), other_key(k));
    }
}

} // verus!
