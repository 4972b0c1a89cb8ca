//! A bounded window of per-block fee statistics, contiguous by block number.
use vstd::prelude::*;
use std::sync::Arc;
use crate::types::{Block, ChainUpdate};

verus! {

/// Fee statistics of one canonical block. The gas-used ratio is `gas_used / gas_limit`.
#[derive(Clone, Copy, Debug, PartialEq, Eq, Structural)]
pub struct FeeHistoryEntry {
    pub number: u64,
    pub base_fee_per_gas: u64,
    pub gas_used: u64,
    pub gas_limit: u64,
    pub base_fee_per_blob_gas: Option<u64>,
    pub blob_gas_used: Option<u64>,
}

/// Why a fee-history range cannot be served.
#[derive(Clone, Copy, Debug, PartialEq, Eq, Structural)]
pub enum FeeHistoryError {
    /// The range starts before the oldest retained entry.
    RangeNotRetained,
    /// The range reaches past the newest entry (or nothing is retained yet).
    RangeNotAvailable,
}

pub open spec fn entry_of_spec(b: Block) -> FeeHistoryEntry {
    FeeHistoryEntry {
        number: b.key.number,
        base_fee_per_gas: b.base_fee_per_gas,
        gas_used: b.gas_used,
        gas_limit: b.gas_limit,
        base_fee_per_blob_gas: b.base_fee_per_blob_gas,
        blob_gas_used: b.blob_gas_used,
    }
}

/// The fee statistics of a block.
pub fn entry_of(b: &Block) -> (r: FeeHistoryEntry)
    ensures
        r == entry_of_spec(*b),
{
    FeeHistoryEntry {
        number: b.key.number,
        base_fee_per_gas: b.base_fee_per_gas,
        gas_used: b.gas_used,
        gas_limit: b.gas_limit,
        base_fee_per_blob_gas: b.base_fee_per_blob_gas,
        blob_gas_used: b.blob_gas_used,
    }
}

/// Entries numbered one after another.
pub open spec fn contiguous(s: Seq<FeeHistoryEntry>) -> bool {
    forall|i: int| 0 <= i < s.len() ==> #[trigger] s[i].number == s[0].number + i
}

/// Appending `e`: the next number extends the window (dropping the oldest entry
/// beyond `max`); a number inside the window replaces that entry and drops the
/// ones after it (a reorg); an older number is ignored; a gap restarts the window.
pub open spec fn append_spec(s: Seq<FeeHistoryEntry>, e: FeeHistoryEntry, max: nat) -> Seq<FeeHistoryEntry> {
    if s.len() == 0 {
        seq![e]
    } else if e.number == s.last().number + 1 {
        if s.len() + 1 > max {
            s.push(e).drop_first()
        } else {
            s.push(e)
        }
    } else if s[0].number <= e.number <= s.last().number {
        s.subrange(0, e.number - s[0].number).push(e)
    } else if e.number < s[0].number {
        s
    } else {
        seq![e]
    }
}

/// Dropping every entry numbered `n` or higher.
pub open spec fn truncate_spec(s: Seq<FeeHistoryEntry>, n: u64) -> Seq<FeeHistoryEntry> {
    if s.len() == 0 || n > s.last().number {
        s
    } else if n <= s[0].number {
        Seq::empty()
    } else {
        s.subrange(0, n - s[0].number)
    }
}

pub open spec fn truncate_all(s: Seq<FeeHistoryEntry>, ns: Seq<u64>) -> Seq<FeeHistoryEntry>
    decreases ns.len(),
{
    if ns.len() == 0 {
        s
    } else {
        truncate_spec(truncate_all(s, ns.drop_last()), ns.last())
    }
}

pub open spec fn append_all(s: Seq<FeeHistoryEntry>, bs: Seq<Arc<Block>>, max: nat) -> Seq<FeeHistoryEntry>
    decreases bs.len(),
{
    if bs.len() == 0 {
        s
    } else {
        append_spec(append_all(s, bs.drop_last(), max), entry_of_spec(*bs.last()), max)
    }
}

/// What a canonical update does to the window: a reorg drops the entries from the
/// lowest abandoned number on, then the replacement blocks are appended in order.
pub open spec fn update_spec(s: Seq<FeeHistoryEntry>, u: ChainUpdate, max: nat) -> Seq<FeeHistoryEntry> {
    match u {
        ChainUpdate::NewCanonicalBlock { block } => append_spec(s, entry_of_spec(*block), max),
        ChainUpdate::Reorg { abandoned, new_blocks } => append_all(
            truncate_all(s, abandoned@.map_values(|k: crate::types::BlockKey| k.number)),
            new_blocks@,
            max,
        ),
    }
}

/// The result of `range(start, count)` on the entries `s`.
pub open spec fn range_spec(s: Seq<FeeHistoryEntry>, start: u64, count: u64) -> Result<
    Seq<FeeHistoryEntry>,
    FeeHistoryError,
> {
    if s.len() == 0 {
        Err(FeeHistoryError::RangeNotAvailable)
    } else if start < s[0].number {
        Err(FeeHistoryError::RangeNotRetained)
    } else if start + count > s.last().number + 1 {
        Err(FeeHistoryError::RangeNotAvailable)
    } else {
        Ok(s.subrange(start - s[0].number, start - s[0].number + count))
    }
}

/// The fee-history window: at most `max_block_count` entries, contiguous by number.
pub struct FeeHistoryWindow {
    max_block_count: u64,
    entries: Vec<FeeHistoryEntry>,
}

impl FeeHistoryWindow {
    pub closed spec fn max_block_count(&self) -> nat {
        self.max_block_count as nat
    }

    /// The retained entries, oldest first.
    pub closed spec fn entries(&self) -> Seq<FeeHistoryEntry> {
        self.entries@
    }

    pub open spec fn wf(&self) -> bool {
        &&& self.max_block_count() > 0
        &&& self.entries().len() <= self.max_block_count()
        &&& contiguous(self.entries())
    }

    pub fn new(max_block_count: u64) -> (r: Self)
        requires
            max_block_count > 0,
        ensures
            r.wf(),
            r.max_block_count() == max_block_count,
            r.entries().len() == 0,
    {
        FeeHistoryWindow { max_block_count, entries: Vec::new() }
    }

    /// The oldest retained block number.
    pub fn first_number(&self) -> (r: Option<u64>)
        ensures
            r == (if self.entries().len() == 0 { None } else { Some(self.entries()[0].number) }),
    {
        if self.entries.len() == 0 {
            None
        } else {
            Some(self.entries[0].number)
        }
    }

    /// The newest retained block number.
    pub fn last_number(&self) -> (r: Option<u64>)
        ensures
            r == (if self.entries().len() == 0 { None } else { Some(self.entries().last().number) }),
    {
        if self.entries.len() == 0 {
            None
        } else {
            Some(self.entries[self.entries.len() - 1].number)
        }
    }

    fn copy_prefix(&self, n: usize) -> (r: Vec<FeeHistoryEntry>)
        requires
            n <= self.entries@.len(),
        ensures
            r@ == self.entries@.subrange(0, n as int),
    {
        let mut r: Vec<FeeHistoryEntry> = Vec::new();
        let mut i: usize = 0;
        while i < n
            invariant
                i <= n <= self.entries@.len(),
                r@ == self.entries@.subrange(0, i as int),
            decreases n - i,
        {
            r.push(self.entries[i]);
            i = i + 1;
            assert(r@ =~= self.entries@.subrange(0, i as int));
        }
        r
    }

    /// Records the fee statistics of a canonical block.
    pub fn append(&mut self, e: FeeHistoryEntry)
        requires
            old(self).wf(),
        ensures
            final(self).wf(),
            final(self).max_block_count() == old(self).max_block_count(),
            final(self).entries() == append_spec(old(self).entries(), e, old(self).max_block_count()),
    {
        let len = self.entries.len();
        if len == 0 {
            self.entries.push(e);
            assert(self.entries@ =~= seq![e]);
            return;
        }
        let first = self.entries[0].number;
        let last = self.entries[len - 1].number;
        proof {
            assert(self.entries@[len - 1].number == first + (len - 1));
        }
        if e.number > last && e.number - last == 1 {
            let ghost s = self.entries@;
            self.entries.push(e);
            if self.entries.len() as u64 > self.max_block_count {
                self.entries.remove(0);
            }
            assert forall|i: int| 0 <= i < self.entries@.len() implies #[trigger] self.entries@[i].number
                == self.entries@[0].number + i by {
                if self.entries@.len() == s.len() {
                    assert(self.entries@[i] == s.push(e)[i + 1]);
                    assert(self.entries@[0] == s.push(e)[1]);
                }
            }
        } else if first <= e.number && e.number <= last {
            let keep = (e.number - first) as usize;
            let mut r = self.copy_prefix(keep);
            r.push(e);
            self.entries = r;
        } else if e.number < first {
        } else {
            self.entries = vec![e];
            assert(self.entries@ =~= seq![e]);
        }
    }

    /// Drops every entry numbered `n` or higher.
    pub fn truncate_from(&mut self, n: u64)
        requires
            old(self).wf(),
        ensures
            final(self).wf(),
            final(self).max_block_count() == old(self).max_block_count(),
            final(self).entries() == truncate_spec(old(self).entries(), n),
    {
        let len = self.entries.len();
        if len == 0 {
            return;
        }
        let first = self.entries[0].number;
        let last = self.entries[len - 1].number;
        proof {
            assert(self.entries@[len - 1].number == first + (len - 1));
        }
        if n > last {
        } else if n <= first {
            self.entries = Vec::new();
            assert(self.entries@ =~= Seq::<FeeHistoryEntry>::empty());
        } else {
            let r = self.copy_prefix((n - first) as usize);
            self.entries = r;
        }
    }

    /// Applies a canonical update.
    pub fn on_canonical_update(&mut self, update: &ChainUpdate)
        requires
            old(self).wf(),
        ensures
            final(self).wf(),
            final(self).max_block_count() == old(self).max_block_count(),
            final(self).entries() == update_spec(old(self).entries(), *update, old(self).max_block_count()),
    {
        match update {
            ChainUpdate::NewCanonicalBlock { block } => {
                let e = entry_of(block);
                self.append(e);
            },
            ChainUpdate::Reorg { abandoned, new_blocks } => {
                let ghost ns = abandoned@.map_values(|k: crate::types::BlockKey| k.number);
                let ghost s0 = self.entries@;
                let mut i: usize = 0;
                while i < abandoned.len()
                    invariant
                        i <= abandoned@.len(),
                        ns == abandoned@.map_values(|k: crate::types::BlockKey| k.number),
                        self.wf(),
                        self.max_block_count() == old(self).max_block_count(),
                        self.entries() == truncate_all(s0, ns.subrange(0, i as int)),
                    decreases abandoned@.len() - i,
                {
                    assert(ns.subrange(0, i + 1).drop_last() =~= ns.subrange(0, i as int));
                    assert(ns[i as int] == abandoned@[i as int].number);
                    self.truncate_from(abandoned[i].number);
                    i = i + 1;
                }
                assert(ns.subrange(0, ns.len() as int) =~= ns);
                let ghost s1 = self.entries@;
                let mut j: usize = 0;
                while j < new_blocks.len()
                    invariant
                        j <= new_blocks@.len(),
                        self.wf(),
                        self.max_block_count() == old(self).max_block_count(),
                        self.entries() == append_all(s1, new_blocks@.subrange(0, j as int), self.max_block_count()),
                    decreases new_blocks@.len() - j,
                {
                    assert(new_blocks@.subrange(0, j + 1).drop_last() =~= new_blocks@.subrange(0, j as int));
                    let e = entry_of(&new_blocks[j]);
                    self.append(e);
                    j = j + 1;
                }
                assert(new_blocks@.subrange(0, new_blocks@.len() as int) =~= new_blocks@);
            },
        }
    }

    /// The `count` entries numbered from `start` on. Fails with `RangeNotRetained`
    /// when `start` precedes the oldest entry and with `RangeNotAvailable` when the
    /// range reaches past the newest one. A returned range is contiguous.
    pub fn range(&self, start: u64, count: u64) -> (r: Result<Vec<FeeHistoryEntry>, FeeHistoryError>)
        requires
            self.wf(),
        ensures
            match (r, range_spec(self.entries(), start, count)) {
                (Ok(v), Ok(w)) => v@ == w,
                (Err(e), Err(f)) => e == f,
                _ => false,
            },
            r is Ok ==> r->Ok_0@.len() == count && forall|i: int|
                0 <= i < count ==> #[trigger] r->Ok_0@[i].number == start + i,
    {
        let len = self.entries.len();
        if len == 0 {
            return Err(FeeHistoryError::RangeNotAvailable);
        }
        let first = self.entries[0].number;
        let last = self.entries[len - 1].number;
        proof {
            assert(self.entries@[len - 1].number == first + (len - 1));
        }
        if start < first {
            return Err(FeeHistoryError::RangeNotRetained);
        }
        if (start as u128) + (count as u128) > (last as u128) + 1 {
            return Err(FeeHistoryError::RangeNotAvailable);
        }
        let off = (start - first) as usize;
        let end = off + count as usize;
        let mut r: Vec<FeeHistoryEntry> = Vec::new();
        let mut i: usize = off;
        while i < end
            invariant
                off <= i <= end <= self.entries@.len(),
                r@ == self.entries@.subrange(off as int, i as int),
            decreases end - i,
        {
            r.push(self.entries[i]);
            i = i + 1;
            assert(r@ =~= self.entries@.subrange(off as int, i as int));
        }
        Ok(r)
    }
}

} // verus!
