//! Suggested gas price: a percentile of the gas prices paid in recently cached
//! blocks, reused for the rest of a short time interval.
use vstd::prelude::*;
use std::sync::Arc;
use crate::block_cache::{recent_of, BlockCache};
use crate::types::Block;

verus! {

/// Settings of the gas price estimator.
#[derive(Clone, Copy, Debug, PartialEq, Eq, Structural)]
pub struct GasPriceOracleConfig {
    /// How many of the most recently cached blocks are sampled.
    pub blocks: u32,
    /// Which percentile of the sampled prices is suggested, from 0 to 100.
    pub percentile: u32,
    /// The price suggested when the sample holds no transaction.
    pub default_price: u64,
    /// Length of the interval, in milliseconds, for which an estimate is reused.
    pub cache_interval_ms: u64,
}

impl GasPriceOracleConfig {
    pub open spec fn valid(&self) -> bool {
        self.percentile <= 100 && self.cache_interval_ms > 0
    }
}

impl Default for GasPriceOracleConfig {
    fn default() -> (r: Self)
        ensures
            r.blocks == 20,
            r.percentile == 60,
            r.default_price == 1_000_000_000,
            r.cache_interval_ms == 1_000,
            r.valid(),
    {
        GasPriceOracleConfig {
            blocks: 20,
            percentile: 60,
            default_price: 1_000_000_000,
            cache_interval_ms: 1_000,
        }
    }
}

/// Position of the first smallest price.
pub open spec fn min_index(s: Seq<u64>) -> int
    decreases s.len(),
{
    if s.len() <= 1 {
        0
    } else {
        let j = min_index(s.drop_last());
        if s.last() < s[j] {
            s.len() - 1
        } else {
            j
        }
    }
}

/// The `k`-th smallest price (from 0): the smallest left after taking out the
/// smallest one `k` times.
pub open spec fn select(s: Seq<u64>, k: nat) -> u64
    decreases k,
{
    if k == 0 || s.len() <= 1 {
        s[min_index(s)]
    } else {
        select(s.remove(min_index(s)), (k - 1) as nat)
    }
}

/// The index of the `p`-th percentile among `len` sorted values.
pub open spec fn percentile_index(len: nat, p: nat) -> nat {
    ((len - 1) * p / 100) as nat
}

/// The gas prices of the transactions of the given blocks, block by block.
pub open spec fn all_prices(bs: Seq<Arc<Block>>) -> Seq<u64>
    decreases bs.len(),
{
    if bs.len() == 0 {
        Seq::empty()
    } else {
        all_prices(bs.drop_last()) + bs.last().tx_gas_prices@
    }
}

/// The suggested price for a sample of prices.
pub open spec fn price_of(prices: Seq<u64>, percentile: nat, default_price: u64) -> u64 {
    if prices.len() == 0 {
        default_price
    } else {
        select(prices, percentile_index(prices.len(), percentile))
    }
}

/// One estimate: a value cached for the current interval is reused; otherwise
/// `fresh` is computed and cached for this interval.
pub open spec fn estimate_spec(cached: Option<(u64, u64)>, interval: u64, fresh: u64) -> (Option<(u64, u64)>, u64) {
    match cached {
        Some(c) if c.0 == interval => (cached, c.1),
        _ => (Some((interval, fresh)), fresh),
    }
}

proof fn lemma_min_index_bounds(s: Seq<u64>)
    requires
        s.len() > 0,
    ensures
        0 <= min_index(s) < s.len(),
    decreases s.len(),
{
    if s.len() > 1 {
        lemma_min_index_bounds(s.drop_last());
    }
}

proof fn lemma_select_member(s: Seq<u64>, k: nat)
    requires
        s.len() > 0,
    ensures
        s.contains(select(s, k)),
    decreases k,
{
    lemma_min_index_bounds(s);
    if !(k == 0 || s.len() <= 1) {
        let m = min_index(s);
        let t = s.remove(m);
        lemma_select_member(t, (k - 1) as nat);
        let i = choose|i: int| 0 <= i < t.len() && t[i] == select(t, (k - 1) as nat);
        if i < m {
            assert(s[i] == t[i]);
        } else {
            assert(s[i + 1] == t[i]);
        }
    }
}

/// A suggested price lies between the smallest and the largest sampled price (it
/// is one of them); with no sampled price it is the default.
pub proof fn lemma_estimate_within_samples(prices: Seq<u64>, percentile: nat, default_price: u64)
    ensures
        prices.len() == 0 ==> price_of(prices, percentile, default_price) == default_price,
        prices.len() > 0 ==> exists|i: int|
            0 <= i < prices.len() && prices[i] <= price_of(prices, percentile, default_price),
        prices.len() > 0 ==> exists|j: int|
            0 <= j < prices.len() && price_of(prices, percentile, default_price) <= prices[j],
{
    if prices.len() > 0 {
        lemma_select_member(prices, percentile_index(prices.len(), percentile));
    }
}

/// Two estimates within one cache interval return the same value, whatever the
/// sample holds at the second one.
pub proof fn lemma_same_interval_same_estimate(
    cached: Option<(u64, u64)>,
    interval: u64,
    fresh1: u64,
    fresh2: u64,
)
    ensures
        estimate_spec(estimate_spec(cached, interval, fresh1).0, interval, fresh2).1 == estimate_spec(
            cached,
            interval,
            fresh1,
        ).1,
{
}

fn min_position(v: &Vec<u64>) -> (r: usize)
    requires
        v@.len() > 0,
    ensures
        r == min_index(v@),
{
    let mut best: usize = 0;
    let mut i: usize = 1;
    assert(v@.subrange(0, 1).len() == 1);
    while i < v.len()
        invariant
            1 <= i <= v@.len(),
            best == min_index(v@.subrange(0, i as int)),
            best < i,
        decreases v@.len() - i,
    {
        let ghost s = v@.subrange(0, i + 1);
        assert(s.drop_last() =~= v@.subrange(0, i as int));
        proof {
            lemma_min_index_bounds(v@.subrange(0, i as int));
        }
        if v[i] < v[best] {
            best = i;
        }
        i = i + 1;
    }
    assert(v@.subrange(0, v@.len() as int) =~= v@);
    best
}

/// The `k`-th smallest of `prices` (from 0).
pub fn kth_smallest(prices: &Vec<u64>, k: usize) -> (r: u64)
    requires
        k < prices@.len(),
    ensures
        r == select(prices@, k as nat),
{
    let mut cur: Vec<u64> = Vec::new();
    let mut i: usize = 0;
    while i < prices.len()
        invariant
            i <= prices@.len(),
            cur@ == prices@.subrange(0, i as int),
        decreases prices@.len() - i,
    {
        cur.push(prices[i]);
        i = i + 1;
        assert(cur@ =~= prices@.subrange(0, i as int));
    }
    assert(cur@ =~= prices@);
    let mut left: usize = k;
    while left > 0 && cur.len() > 1
        invariant
            cur@.len() > left,
            select(prices@, k as nat) == select(cur@, left as nat),
        decreases left,
    {
        let m = min_position(&cur);
        proof {
            lemma_min_index_bounds(cur@);
        }
        cur.remove(m);
        left = left - 1;
    }
    let m = min_position(&cur);
    proof {
        lemma_min_index_bounds(cur@);
    }
    cur[m]
}

/// The gas prices of the transactions of `blocks`, block by block.
pub fn collect_prices(blocks: &Vec<Arc<Block>>) -> (r: Vec<u64>)
    ensures
        r@ == all_prices(blocks@),
{
    let mut r: Vec<u64> = Vec::new();
    let mut i: usize = 0;
    while i < blocks.len()
        invariant
            i <= blocks@.len(),
            r@ == all_prices(blocks@.subrange(0, i as int)),
        decreases blocks@.len() - i,
    {
        let ghost before = r@;
        assert(blocks@.subrange(0, i + 1).drop_last() =~= blocks@.subrange(0, i as int));
        let txs = &blocks[i].tx_gas_prices;
        let mut j: usize = 0;
        while j < txs.len()
            invariant
                j <= txs@.len(),
                r@ == before + txs@.subrange(0, j as int),
            decreases txs@.len() - j,
        {
            r.push(txs[j]);
            j = j + 1;
            assert(r@ =~= before + txs@.subrange(0, j as int));
        }
        assert(txs@.subrange(0, txs@.len() as int) =~= txs@);
        i = i + 1;
    }
    assert(blocks@.subrange(0, blocks@.len() as int) =~= blocks@);
    r
}

/// The suggested price for a sample of prices: the configured percentile, or the
/// default price when the sample is empty.
pub fn suggest_price(prices: &Vec<u64>, percentile: u32, default_price: u64) -> (r: u64)
    requires
        percentile <= 100,
    ensures
        r == price_of(prices@, percentile as nat, default_price),
{
    let len = prices.len();
    if len == 0 {
        return default_price;
    }
    let a: u128 = (len - 1) as u128;
    let p: u128 = percentile as u128;
    assert(a * p <= 0xffff_ffff_ffff_ffffu128 * 100) by (nonlinear_arith)
        requires a <= 0xffff_ffff_ffff_ffffu128, p <= 100;
    let idx128: u128 = a * p / 100;
    proof {
        let a = (len - 1) as int;
        let p = percentile as int;
        assert(a * p <= a * 100) by (nonlinear_arith)
            requires 0 <= p <= 100, 0 <= a;
        assert(a * p / 100 <= a) by (nonlinear_arith)
            requires a * p <= a * 100, 0 <= a, 0 <= p;
        assert(a * p / 100 >= 0) by (nonlinear_arith)
            requires 0 <= a, 0 <= p;
    }
    let idx = idx128 as usize;
    kth_smallest(prices, idx)
}

/// The gas price estimator.
pub struct GasPriceEstimator {
    config: GasPriceOracleConfig,
    cached: Option<(u64, u64)>,
}

impl GasPriceEstimator {
    pub closed spec fn config(&self) -> GasPriceOracleConfig {
        self.config
    }

    /// The cached estimate, with the number of the interval it was computed in.
    pub closed spec fn cached(&self) -> Option<(u64, u64)> {
        self.cached
    }

    pub fn new(config: GasPriceOracleConfig) -> (r: Self)
        requires
            config.valid(),
        ensures
            r.config() == config,
            r.cached() is None,
    {
        GasPriceEstimator { config, cached: None }
    }

    /// Suggests a gas price at time `now` (in milliseconds). Within the interval
    /// of the cached estimate that value is returned again; otherwise the
    /// configured percentile of the prices in the most recently cached blocks is
    /// computed, or the default price when they hold no transaction.
    pub fn estimate(&mut self, cache: &BlockCache, now: u64) -> (r: u64)
        requires
            old(self).config().valid(),
        ensures
            final(self).config() == old(self).config(),
            ({
                let fresh = price_of(
                    all_prices(recent_of(cache.entries(), old(self).config().blocks as nat)),
                    old(self).config().percentile as nat,
                    old(self).config().default_price,
                );
                let (c, v) = estimate_spec(
                    old(self).cached(),
                    now / old(self).config().cache_interval_ms,
                    fresh,
                );
                final(self).cached() == c && r == v
            }),
    {
        let interval = now / self.config.cache_interval_ms;
        if let Some(c) = self.cached {
            if c.0 == interval {
                return c.1;
            }
        }
        let sample = cache.recent_blocks(self.config.blocks as usize);
        let prices = collect_prices(&sample);
        let v = suggest_price(&prices, self.config.percentile, self.config.default_price);
        self.cached = Some((interval, v));
        v
    }
}

} // verus!
