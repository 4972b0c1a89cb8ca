//! Push-style subscriptions tied to live connections, and the fanout of chain
//! events to them.
use vstd::prelude::*;
use std::sync::Arc;
use crate::filters::{block_items, collect_block_logs, FilterItem, LogFilter};
use crate::types::{Block, BlockKey, ChainUpdate, B256};

verus! {

/// What a subscription receives.
#[derive(Debug)]
pub enum SubscriptionKind {
    NewHeads,
    Logs(LogFilter),
    NewPendingTransactions,
    Syncing,
}

/// A registered subscription and the connection its sink belongs to.
#[derive(Debug)]
pub struct Subscription {
    pub id: u64,
    pub kind: SubscriptionKind,
    pub connection: u64,
}

/// An event pushed to a subscription.
#[derive(Clone, Copy, Debug, PartialEq, Eq, Structural)]
pub enum PushEvent {
    Header { number: u64, hash: B256 },
    Log(FilterItem),
    PendingTransaction(B256),
    Syncing(bool),
}

/// An event addressed to one subscription's sink.
#[derive(Clone, Copy, Debug, PartialEq, Eq, Structural)]
pub struct Delivery {
    pub subscription: u64,
    pub event: PushEvent,
}

#[derive(Clone, Copy, Debug, PartialEq, Eq, Structural)]
pub enum SubscriptionError {
    /// Every identifier has been handed out.
    IdsExhausted,
}

/// The events of one block for subscription `s`.
pub open spec fn sub_block_events(s: Subscription, b: Block) -> Seq<Delivery> {
    match s.kind {
        SubscriptionKind::NewHeads => seq![
            Delivery { subscription: s.id, event: PushEvent::Header { number: b.key.number, hash: b.key.hash } },
        ],
        SubscriptionKind::Logs(lf) => block_items(lf, b, b.receipts@.len() as int).map_values(
            |it: FilterItem| Delivery { subscription: s.id, event: PushEvent::Log(it) },
        ),
        _ => Seq::empty(),
    }
}

/// The events of one block for every subscription, subscription by subscription.
pub open spec fn block_deliveries(subs: Seq<Subscription>, b: Block) -> Seq<Delivery>
    decreases subs.len(),
{
    if subs.len() == 0 {
        Seq::empty()
    } else {
        block_deliveries(subs.drop_last(), b) + sub_block_events(subs.last(), b)
    }
}

/// Fanning out one canonical block: a block identical to the last one processed
/// is not delivered again.
pub open spec fn fanout_block(last: Option<BlockKey>, subs: Seq<Subscription>, b: Block) -> (Option<BlockKey>, Seq<Delivery>) {
    if last == Some(b.key) {
        (last, Seq::empty())
    } else {
        (Some(b.key), block_deliveries(subs, b))
    }
}

/// Fanning out blocks in order.
pub open spec fn fanout_blocks(last: Option<BlockKey>, subs: Seq<Subscription>, bs: Seq<Arc<Block>>) -> (Option<BlockKey>, Seq<Delivery>)
    decreases bs.len(),
{
    if bs.len() == 0 {
        (last, Seq::empty())
    } else {
        let (l, d) = fanout_blocks(last, subs, bs.drop_last());
        let (l2, d2) = fanout_block(l, subs, *bs.last());
        (l2, d + d2)
    }
}

/// The deliveries of a canonical update: each new block in order.
pub open spec fn fanout_update(last: Option<BlockKey>, subs: Seq<Subscription>, u: ChainUpdate) -> (Option<BlockKey>, Seq<Delivery>) {
    match u {
        ChainUpdate::NewCanonicalBlock { block } => fanout_block(last, subs, *block),
        ChainUpdate::Reorg { new_blocks, .. } => fanout_blocks(last, subs, new_blocks@),
    }
}

/// Delivering the same new canonical block twice fans it out once: the second
/// delivery yields no event.
pub proof fn lemma_repeated_block_not_fanned_out(last: Option<BlockKey>, subs: Seq<Subscription>, b: Block)
    ensures
        fanout_block(fanout_block(last, subs, b).0, subs, b).1.len() == 0,
{
}

pub open spec fn sub_at(s: Seq<Subscription>, id: u64, i: int) -> bool {
    0 <= i < s.len() && s[i].id == id
}

pub open spec fn has_sub(s: Seq<Subscription>, id: u64) -> bool {
    exists|i: int| #[trigger] sub_at(s, id, i)
}

pub open spec fn other_sub(id: u64) -> spec_fn(Subscription) -> bool {
    |s: Subscription| s.id != id
}

pub open spec fn other_connection(c: u64) -> spec_fn(Subscription) -> bool {
    |s: Subscription| s.connection != c
}

/// The subscriptions and the last canonical block fanned out.
pub struct SubscriptionHub {
    subs: Vec<Subscription>,
    next_id: u64,
    last_block: Option<BlockKey>,
}

fn push_sub_events(s: &Subscription, b: &Block, out: &mut Vec<Delivery>)
    ensures
        final(out)@ == old(out)@ + sub_block_events(*s, *b),
{
    match &s.kind {
        SubscriptionKind::NewHeads => {
            out.push(Delivery { subscription: s.id, event: PushEvent::Header { number: b.key.number, hash: b.key.hash } });
        },
        SubscriptionKind::Logs(lf) => {
            let mut items: Vec<FilterItem> = Vec::new();
            collect_block_logs(lf, b, &mut items);
            assert(items@ =~= block_items(*lf, *b, b.receipts@.len() as int));
            let ghost start = out@;
            let mut i: usize = 0;
            while i < items.len()
                invariant
                    i <= items@.len(),
                    out@.len() == start.len() + i,
                    forall|j: int| 0 <= j < start.len() ==> out@[j] == start[j],
                    forall|j: int| 0 <= j < i ==> #[trigger] out@[start.len() + j] == (Delivery { subscription: s.id, event: PushEvent::Log(items@[j]) }),
                decreases items@.len() - i,
            {
                out.push(Delivery { subscription: s.id, event: PushEvent::Log(items[i]) });
                i = i + 1;
            }
            let ghost mapped = items@.map_values(|it: FilterItem| Delivery { subscription: s.id, event: PushEvent::Log(it) });
            assert forall|j: int| 0 <= j < out@.len() implies out@[j] == (start + mapped)[j] by {
                if j >= start.len() {
                    assert(out@[start.len() + (j - start.len())] == mapped[j - start.len()]);
                }
            }
            assert(out@ =~= start + mapped);
        },
        _ => {
            assert(out@ =~= old(out)@ + Seq::<Delivery>::empty());
        },
    }
}

impl SubscriptionHub {
    pub closed spec fn subs(&self) -> Seq<Subscription> {
        self.subs@
    }

    pub closed spec fn next_id(&self) -> u64 {
        self.next_id
    }

    /// The last canonical block fanned out.
    pub closed spec fn last_block(&self) -> Option<BlockKey> {
        self.last_block
    }

    pub open spec fn wf(&self) -> bool {
        forall|i: int| 0 <= i < self.subs().len() ==> #[trigger] self.subs()[i].id < self.next_id()
    }

    pub fn new() -> (r: Self)
        ensures
            r.wf(),
            r.subs().len() == 0,
            r.next_id() == 0,
            r.last_block() is None,
    {
        SubscriptionHub { subs: Vec::new(), next_id: 0, last_block: None }
    }

    pub fn len(&self) -> (r: usize)
        ensures
            r == self.subs().len(),
    {
        self.subs.len()
    }

    /// Registers a subscription for a connection's sink; it is active at once.
    pub fn subscribe(&mut self, kind: SubscriptionKind, connection: u64) -> (r: Result<u64, SubscriptionError>)
        requires
            old(self).wf(),
        ensures
            final(self).wf(),
            final(self).last_block() == old(self).last_block(),
            r is Err <==> old(self).next_id() == u64::MAX,
            r is Err ==> final(self).subs() == old(self).subs(),
            r is Ok ==> {
                &&& r->Ok_0 == old(self).next_id()
                &&& !has_sub(old(self).subs(), r->Ok_0)
                &&& final(self).subs() == old(self).subs().push((Subscription { id: r->Ok_0, kind, connection }))
            },
    {
        if self.next_id == u64::MAX {
            return Err(SubscriptionError::IdsExhausted);
        }
        let id = self.next_id;
        self.subs.push(Subscription { id, kind, connection });
        self.next_id = id + 1;
        Ok(id)
    }

    fn remove_where(&mut self, id: u64, by_connection: bool)
        requires
            old(self).wf(),
        ensures
            final(self).wf(),
            final(self).next_id() == old(self).next_id(),
            final(self).last_block() == old(self).last_block(),
            final(self).subs() == old(self).subs().filter(if by_connection { other_connection(id) } else { other_sub(id) }),
    {
        let ghost orig = self.subs@;
        let ghost pred = if by_connection { other_connection(id) } else { other_sub(id) };
        let mut i: usize = 0;
        let ghost mut k: int = 0;
        while i < self.subs.len()
            invariant
                0 <= k <= orig.len(),
                i <= self.subs@.len(),
                self.subs@.subrange(0, i as int) == orig.subrange(0, k).filter(pred),
                self.subs@.subrange(i as int, self.subs@.len() as int) == orig.subrange(k, orig.len() as int),
                self.subs@.len() - i == orig.len() - k,
                self.next_id == old(self).next_id,
                self.last_block == old(self).last_block,
                pred == if by_connection { other_connection(id) } else { other_sub(id) },
            decreases self.subs@.len() - i,
        {
            proof {
                assert(orig.subrange(0, k + 1).drop_last() =~= orig.subrange(0, k));
                assert(orig[k] == self.subs@.subrange(i as int, self.subs@.len() as int)[0]);
                reveal(Seq::filter);
            }
            let ghost before = self.subs@;
            let ghost tail = before.subrange(i as int, before.len() as int);
            assert(tail.drop_first() =~= orig.subrange(k + 1, orig.len() as int));
            let keep = if by_connection { self.subs[i].connection != id } else { self.subs[i].id != id };
            if keep {
                i = i + 1;
                assert(self.subs@.subrange(0, i as int) =~= before.subrange(0, i - 1).push(orig[k]));
                assert(self.subs@.subrange(i as int, self.subs@.len() as int) =~= tail.drop_first());
            } else {
                self.subs.remove(i);
                assert(self.subs@.subrange(0, i as int) =~= before.subrange(0, i as int));
                assert(self.subs@.subrange(i as int, self.subs@.len() as int) =~= tail.drop_first());
            }
            proof {
                k = k + 1;
            }
        }
        assert(self.subs@ =~= self.subs@.subrange(0, i as int));
        assert(orig.subrange(0, k) =~= orig);
        proof {
            crate::block_cache::lemma_filter_facts(orig, pred);
            assert forall|j: int| 0 <= j < self.subs@.len() implies #[trigger] self.subs@[j].id < self.next_id by {
                assert(self.subs@[j] == orig.filter(pred)[j]);
                assert(orig.contains(orig.filter(pred)[j]));
                let m = choose|m: int| 0 <= m < orig.len() && orig[m] == self.subs@[j];
            }
        }
    }

    /// Closes subscription `id` (on unsubscribe, or when its sink could not keep
    /// up); returns whether it was open.
    pub fn unsubscribe(&mut self, id: u64) -> (r: bool)
        requires
            old(self).wf(),
        ensures
            final(self).wf(),
            r == has_sub(old(self).subs(), id),
            final(self).subs() == old(self).subs().filter(other_sub(id)),
            final(self).last_block() == old(self).last_block(),
    {
        let mut found = false;
        let mut i: usize = 0;
        while i < self.subs.len()
            invariant
                i <= self.subs@.len(),
                found <==> exists|j: int| 0 <= j < i && #[trigger] sub_at(self.subs@, id, j),
            decreases self.subs@.len() - i,
        {
            if self.subs[i].id == id {
                found = true;
                assert(sub_at(self.subs@, id, i as int));
            }
            i = i + 1;
        }
        self.remove_where(id, false);
        found
    }

    /// Closes every subscription of a dropped connection.
    pub fn on_connection_closed(&mut self, connection: u64)
        requires
            old(self).wf(),
        ensures
            final(self).wf(),
            final(self).subs() == old(self).subs().filter(other_connection(connection)),
            final(self).last_block() == old(self).last_block(),
    {
        self.remove_where(connection, true);
    }

    /// The events of a canonical block for every active subscription, in
    /// subscription order; nothing when the block is the last one fanned out.
    pub fn on_canonical_block(&mut self, block: &Block) -> (r: Vec<Delivery>)
        requires
            old(self).wf(),
        ensures
            final(self).wf(),
            final(self).subs() == old(self).subs(),
            final(self).next_id() == old(self).next_id(),
            (final(self).last_block(), r@) == fanout_block(old(self).last_block(), old(self).subs(), *block),
    {
        let mut out: Vec<Delivery> = Vec::new();
        if let Some(k) = self.last_block {
            if k == block.key {
                return out;
            }
        }
        let mut i: usize = 0;
        while i < self.subs.len()
            invariant
                i <= self.subs@.len(),
                out@ == block_deliveries(self.subs@.subrange(0, i as int), *block),
            decreases self.subs@.len() - i,
        {
            assert(self.subs@.subrange(0, i + 1).drop_last() =~= self.subs@.subrange(0, i as int));
            push_sub_events(&self.subs[i], block, &mut out);
            i = i + 1;
        }
        assert(self.subs@.subrange(0, self.subs@.len() as int) =~= self.subs@);
        self.last_block = Some(block.key);
        out
    }

    /// The events of a canonical update: each new block fanned out in order.
    pub fn on_canonical_update(&mut self, update: &ChainUpdate) -> (r: Vec<Delivery>)
        requires
            old(self).wf(),
        ensures
            final(self).wf(),
            final(self).subs() == old(self).subs(),
            final(self).next_id() == old(self).next_id(),
            (final(self).last_block(), r@) == fanout_update(old(self).last_block(), old(self).subs(), *update),
    {
        match update {
            ChainUpdate::NewCanonicalBlock { block } => self.on_canonical_block(block),
            ChainUpdate::Reorg { new_blocks, .. } => {
                let mut out: Vec<Delivery> = Vec::new();
                let ghost l0 = self.last_block;
                let mut i: usize = 0;
                while i < new_blocks.len()
                    invariant
                        i <= new_blocks@.len(),
                        self.wf(),
                        self.subs@ == old(self).subs@,
                        self.next_id == old(self).next_id,
                        (self.last_block, out@) == fanout_blocks(l0, self.subs@, new_blocks@.subrange(0, i as int)),
                    decreases new_blocks@.len() - i,
                {
                    assert(new_blocks@.subrange(0, i + 1).drop_last() =~= new_blocks@.subrange(0, i as int));
                    let mut more = self.on_canonical_block(&new_blocks[i]);
                    out.append(&mut more);
                    i = i + 1;
                }
                assert(new_blocks@.subrange(0, new_blocks@.len() as int) =~= new_blocks@);
                out
            },
        }
    }

    fn simple_events(&self, want_syncing: bool, event: PushEvent) -> (r: Vec<Delivery>)
        ensures
            r@ == simple_deliveries(self.subs(), want_syncing, event),
    {
        let mut out: Vec<Delivery> = Vec::new();
        let mut i: usize = 0;
        while i < self.subs.len()
            invariant
                i <= self.subs@.len(),
                out@ == simple_deliveries(self.subs@.subrange(0, i as int), want_syncing, event),
            decreases self.subs@.len() - i,
        {
            assert(self.subs@.subrange(0, i + 1).drop_last() =~= self.subs@.subrange(0, i as int));
            let wanted = match self.subs[i].kind {
                SubscriptionKind::Syncing => want_syncing,
                SubscriptionKind::NewPendingTransactions => !want_syncing,
                _ => false,
            };
            if wanted {
                out.push(Delivery { subscription: self.subs[i].id, event });
            }
            i = i + 1;
        }
        assert(self.subs@.subrange(0, self.subs@.len() as int) =~= self.subs@);
        out
    }

    /// A pending transaction, for every pending-transactions subscription.
    pub fn on_pending_transaction(&self, hash: B256) -> (r: Vec<Delivery>)
        ensures
            r@ == simple_deliveries(self.subs(), false, PushEvent::PendingTransaction(hash)),
    {
        self.simple_events(false, PushEvent::PendingTransaction(hash))
    }

    /// A change of sync status, for every syncing subscription.
    pub fn on_sync_status(&self, syncing: bool) -> (r: Vec<Delivery>)
        ensures
            r@ == simple_deliveries(self.subs(), true, PushEvent::Syncing(syncing)),
    {
        self.simple_events(true, PushEvent::Syncing(syncing))
    }
}

/// `event` for each subscription of the syncing kind (or, when `syncing` is
/// false, of the pending-transactions kind), in subscription order.
pub open spec fn simple_deliveries(subs: Seq<Subscription>, syncing: bool, event: PushEvent) -> Seq<Delivery>
    decreases subs.len(),
{
    if subs.len() == 0 {
        Seq::empty()
    } else {
        let wanted = match subs.last().kind {
            SubscriptionKind::Syncing => syncing,
            SubscriptionKind::NewPendingTransactions => !syncing,
            _ => false,
        };
        simple_deliveries(subs.drop_last(), syncing, event) + if wanted {
            seq![Delivery { subscription: subs.last().id, event }]
        } else {
            Seq::empty()
        }
    }
}

} // verus!
