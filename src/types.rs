//! Plain chain values shared by every component.
use vstd::prelude::*;
use std::sync::Arc;

verus! {

/// A 256-bit hash, held as four 64-bit words (most significant first).
#[derive(Clone, Copy, Debug, PartialEq, Eq, Structural)]
pub struct B256 {
    pub w0: u64,
    pub w1: u64,
    pub w2: u64,
    pub w3: u64,
}

/// A 160-bit account address.
#[derive(Clone, Copy, Debug, PartialEq, Eq, Structural)]
pub struct Address {
    pub hi: u32,
    pub mid: u64,
    pub lo: u64,
}

/// Identity of a candidate block: a number may name several hashes on competing forks.
#[derive(Clone, Copy, Debug, PartialEq, Eq, Structural)]
pub struct BlockKey {
    pub hash: B256,
    pub number: u64,
}

/// A log entry emitted by a transaction.
#[derive(Debug)]
pub struct Log {
    pub address: Address,
    pub topics: Vec<B256>,
}

/// The receipt of one transaction: the logs it emitted, in order.
#[derive(Debug)]
pub struct Receipt {
    pub logs: Vec<Log>,
}

/// A block as the serving layer keeps it: header values, the gas price paid by each
/// included transaction, and one receipt per transaction.
#[derive(Debug)]
pub struct Block {
    pub key: BlockKey,
    pub parent_hash: B256,
    pub base_fee_per_gas: u64,
    pub gas_used: u64,
    pub gas_limit: u64,
    pub blob_gas_used: Option<u64>,
    pub base_fee_per_blob_gas: Option<u64>,
    /// Total-difficulty-equivalent weight of the chain up to this block.
    pub total_difficulty: u128,
    pub tx_gas_prices: Vec<u64>,
    pub receipts: Vec<Receipt>,
}

/// A failure of the underlying state provider, passed on to callers as it came.
#[derive(Clone, Copy, Debug, PartialEq, Eq, Structural)]
pub struct ProviderError {
    pub code: u32,
}

/// A chain-head update from the canonical state source.
#[derive(Debug)]
pub enum ChainUpdate {
    /// A block appended to the canonical chain.
    NewCanonicalBlock { block: Arc<Block> },
    /// A suffix of the chain replaced by a competing fork: the abandoned blocks'
    /// identities and the new blocks in ascending order.
    Reorg { abandoned: Vec<BlockKey>, new_blocks: Vec<Arc<Block>> },
}

/// Relies on `Arc::clone`: the result points to the same allocation, so it holds
/// the same value.
#[verifier::external_body]
pub(crate) fn share(a: &Arc<Block>) -> (r: Arc<Block>)
    ensures
        r == *a,
{
    Arc::clone(a)
}

} // verus!
