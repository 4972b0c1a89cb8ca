//! Node configuration values and their defaults.
use vstd::prelude::*;

verus! {

/// Configuration of the node: the pipeline stages and the bytecode compiler.
#[derive(Clone, Debug, PartialEq, Eq)]
pub struct Config {
    /// Configuration for each stage in the pipeline.
    pub stages: StageConfig,
    /// Configuration for the EVM bytecode compiler.
    pub compiler: CompilerConfig,
}

impl Default for Config {
    fn default() -> (r: Self)
        ensures
            r.stages.headers.commit_threshold == 10_000,
            r.stages.etl.dir is None,
            r.stages.etl.file_size == 500 * 1024 * 1024,
            r.compiler.end_block == 19_000_000,
            r.compiler.cflags@.len() == 0,
    {
        Config { stages: StageConfig::default(), compiler: CompilerConfig::default() }
    }
}

/// Header stage configuration.
#[derive(Clone, Copy, Debug, PartialEq, Eq, Structural)]
pub struct HeadersConfig {
    /// The maximum number of requests to send concurrently.
    pub downloader_max_concurrent_requests: usize,
    /// The minimum number of requests to send concurrently.
    pub downloader_min_concurrent_requests: usize,
    /// Maximum amount of responses to buffer internally.
    pub downloader_max_buffered_responses: usize,
    /// The maximum number of headers to request from a peer at a time.
    pub downloader_request_limit: u64,
    /// The maximum number of headers to download before committing progress.
    pub commit_threshold: u64,
}

impl Default for HeadersConfig {
    fn default() -> (r: Self)
        ensures
            r.commit_threshold == 10_000,
            r.downloader_request_limit == 1_000,
            r.downloader_max_concurrent_requests == 100,
            r.downloader_min_concurrent_requests == 5,
            r.downloader_max_buffered_responses == 100,
    {
        HeadersConfig {
            commit_threshold: 10_000,
            downloader_request_limit: 1_000,
            downloader_max_concurrent_requests: 100,
            downloader_min_concurrent_requests: 5,
            downloader_max_buffered_responses: 100,
        }
    }
}

/// Body stage configuration.
#[derive(Clone, Copy, Debug, PartialEq, Eq, Structural)]
pub struct BodiesConfig {
    /// The batch size of non-empty blocks per one request.
    pub downloader_request_limit: u64,
    /// The maximum number of block bodies returned at once from the stream.
    pub downloader_stream_batch_size: usize,
    /// The size of the internal block buffer in bytes.
    pub downloader_max_buffered_blocks_size_bytes: usize,
    /// The minimum number of requests to send concurrently.
    pub downloader_min_concurrent_requests: usize,
    /// The maximum number of requests to send concurrently.
    pub downloader_max_concurrent_requests: usize,
}

impl Default for BodiesConfig {
    fn default() -> (r: Self)
        ensures
            r.downloader_request_limit == 200,
            r.downloader_stream_batch_size == 1_000,
            r.downloader_max_buffered_blocks_size_bytes == 2 * 1024 * 1024 * 1024,
            r.downloader_min_concurrent_requests == 5,
            r.downloader_max_concurrent_requests == 100,
    {
        BodiesConfig {
            downloader_request_limit: 200,
            downloader_stream_batch_size: 1_000,
            downloader_max_buffered_blocks_size_bytes: 2147483648,
            downloader_min_concurrent_requests: 5,
            downloader_max_concurrent_requests: 100,
        }
    }
}

/// Sender recovery stage configuration.
#[derive(Clone, Copy, Debug, PartialEq, Eq, Structural)]
pub struct SenderRecoveryConfig {
    /// The maximum number of transactions to process before committing progress.
    pub commit_threshold: u64,
}

impl Default for SenderRecoveryConfig {
    fn default() -> (r: Self)
        ensures
            r.commit_threshold == 5_000_000,
    {
        SenderRecoveryConfig { commit_threshold: 5_000_000 }
    }
}

/// Execution stage configuration.
#[derive(Clone, Copy, Debug, PartialEq, Eq, Structural)]
pub struct ExecutionConfig {
    /// The maximum number of blocks to process before the execution stage commits.
    pub max_blocks: Option<u64>,
    /// The maximum number of state changes to keep in memory before committing.
    pub max_changes: Option<u64>,
    /// The maximum cumulative amount of gas to process before committing.
    pub max_cumulative_gas: Option<u64>,
    /// The maximum time, in whole seconds, spent on processing before committing.
    pub max_duration: Option<u64>,
}

impl Default for ExecutionConfig {
    fn default() -> (r: Self)
        ensures
            r.max_blocks == Some(500_000u64),
            r.max_changes == Some(5_000_000u64),
            r.max_cumulative_gas == Some((30_000_000 * 50_000) as u64),
            r.max_duration == Some(600u64),
    {
        ExecutionConfig {
            max_blocks: Some(500_000),
            max_changes: Some(5_000_000),
            // 50k full blocks of 30M gas
            max_cumulative_gas: Some(30_000_000 * 50_000),
            // 10 minutes
            max_duration: Some(10 * 60),
        }
    }
}

/// Hashing stage configuration.
#[derive(Clone, Copy, Debug, PartialEq, Eq, Structural)]
pub struct HashingConfig {
    /// The threshold (in blocks) for switching between incremental and full hashing.
    pub clean_threshold: u64,
    /// The maximum number of entities to process before committing progress.
    pub commit_threshold: u64,
}

impl Default for HashingConfig {
    fn default() -> (r: Self)
        ensures
            r.clean_threshold == 500_000,
            r.commit_threshold == 100_000,
    {
        HashingConfig { clean_threshold: 500_000, commit_threshold: 100_000 }
    }
}

/// Merkle stage configuration.
#[derive(Clone, Copy, Debug, PartialEq, Eq, Structural)]
pub struct MerkleConfig {
    /// The threshold (in blocks) for switching from incremental trie building to a rebuild.
    pub clean_threshold: u64,
}

impl Default for MerkleConfig {
    fn default() -> (r: Self)
        ensures
            r.clean_threshold == 5_000,
    {
        MerkleConfig { clean_threshold: 5_000 }
    }
}

/// Transaction lookup stage configuration.
#[derive(Clone, Copy, Debug, PartialEq, Eq, Structural)]
pub struct TransactionLookupConfig {
    /// The maximum number of transactions to process before writing to disk.
    pub chunk_size: u64,
}

impl Default for TransactionLookupConfig {
    fn default() -> (r: Self)
        ensures
            r.chunk_size == 5_000_000,
    {
        TransactionLookupConfig { chunk_size: 5_000_000 }
    }
}

/// The file name of the ETL scratch directory under a data directory: `etl-tmp`.
pub open spec fn etl_dir_name() -> Seq<u8> {
    seq![0x65u8, 0x74u8, 0x6cu8, 0x2du8, 0x74u8, 0x6du8, 0x70u8]
}

/// Joins a relative file name onto a base path, as a Unix path: a separator is
/// put between them unless the base is empty or already ends in one.
pub open spec fn join_path(base: Seq<u8>, name: Seq<u8>) -> Seq<u8> {
    if base.len() == 0 || base.last() == 0x2fu8 {
        base + name
    } else {
        base.push(0x2fu8) + name
    }
}

/// Common ETL related configuration.
#[derive(Clone, Debug, PartialEq, Eq)]
pub struct EtlConfig {
    /// Data directory where temporary files are created, as the bytes of a path.
    pub dir: Option<Vec<u8>>,
    /// The maximum size in bytes of data held in memory before being flushed to disk.
    pub file_size: usize,
}

impl Default for EtlConfig {
    fn default() -> (r: Self)
        ensures
            r.dir is None,
            r.file_size == 500 * 1024 * 1024,
    {
        EtlConfig { dir: None, file_size: Self::default_file_size() }
    }
}

impl EtlConfig {
    /// Creates an ETL configuration.
    pub fn new(dir: Option<Vec<u8>>, file_size: usize) -> (r: Self)
        ensures
            r.dir == dir,
            r.file_size == file_size,
    {
        EtlConfig { dir, file_size }
    }

    /// Returns the default ETL directory under a data directory.
    pub fn from_datadir(path: &[u8]) -> (r: Vec<u8>)
        ensures
            r@ == join_path(path@, etl_dir_name()),
    {
        let mut r: Vec<u8> = Vec::new();
        let mut i: usize = 0;
        while i < path.len()
            invariant
                i <= path@.len(),
                r@ == path@.subrange(0, i as int),
            decreases path@.len() - i,
        {
            r.push(path[i]);
            i = i + 1;
        }
        assert(r@ == path@);
        if path.len() > 0 && path[path.len() - 1] != 0x2fu8 {
            r.push(0x2fu8);
        }
        let name: Vec<u8> = vec![0x65u8, 0x74u8, 0x6cu8, 0x2du8, 0x74u8, 0x6du8, 0x70u8];
        assert(name@ == etl_dir_name());
        let ghost before = r@;
        let mut j: usize = 0;
        while j < name.len()
            invariant
                j <= name@.len(),
                r@ == before + name@.subrange(0, j as int),
            decreases name@.len() - j,
        {
            r.push(name[j]);
            j = j + 1;
        }
        assert(name@.subrange(0, name@.len() as int) == name@);
        r
    }

    /// Default size in bytes of data held in memory before being flushed to disk.
    pub fn default_file_size() -> (r: usize)
        ensures
            r == 500 * 1024 * 1024,
    {
        // 500 MB
        500 * (1024 * 1024)
    }
}

/// History indexing stage configuration.
#[derive(Clone, Copy, Debug, PartialEq, Eq, Structural)]
pub struct IndexHistoryConfig {
    /// The maximum number of blocks to process before committing progress.
    pub commit_threshold: u64,
}

impl Default for IndexHistoryConfig {
    fn default() -> (r: Self)
        ensures
            r.commit_threshold == 100_000,
    {
        IndexHistoryConfig { commit_threshold: 100_000 }
    }
}

/// EVM bytecode compiler configuration.
#[derive(Clone, Debug, PartialEq, Eq)]
pub struct CompilerConfig {
    /// The block number at which the compiled contracts stop being run.
    pub end_block: u64,
    /// Path of a file that lists the contracts to compile.
    pub contracts_file: Option<Vec<u8>>,
    /// Directory in which intermediate artifacts, metadata, and results are stored.
    pub out_dir: Option<Vec<u8>>,
    /// Which C compiler to use for linking.
    pub cc: Option<Vec<u8>>,
    /// Additional arguments to pass to the C compiler when linking.
    pub cflags: Vec<String>,
}

impl Default for CompilerConfig {
    fn default() -> (r: Self)
        ensures
            r.end_block == 19_000_000,
            r.contracts_file is None,
            r.out_dir is None,
            r.cc is None,
            r.cflags@.len() == 0,
    {
        CompilerConfig {
            end_block: 19_000_000,
            contracts_file: None,
            out_dir: None,
            cc: None,
            cflags: Vec::new(),
        }
    }
}

/// Configuration for each stage in the pipeline.
#[derive(Clone, Debug, PartialEq, Eq)]
pub struct StageConfig {
    pub headers: HeadersConfig,
    pub bodies: BodiesConfig,
    pub sender_recovery: SenderRecoveryConfig,
    pub execution: ExecutionConfig,
    pub account_hashing: HashingConfig,
    pub storage_hashing: HashingConfig,
    pub merkle: MerkleConfig,
    pub transaction_lookup: TransactionLookupConfig,
    pub index_account_history: IndexHistoryConfig,
    pub index_storage_history: IndexHistoryConfig,
    pub etl: EtlConfig,
}

impl Default for StageConfig {
    fn default() -> (r: Self)
        ensures
            r.headers.commit_threshold == 10_000,
            r.bodies.downloader_request_limit == 200,
            r.sender_recovery.commit_threshold == 5_000_000,
            r.execution.max_blocks == Some(500_000u64),
            r.account_hashing.clean_threshold == 500_000,
            r.storage_hashing.clean_threshold == 500_000,
            r.merkle.clean_threshold == 5_000,
            r.transaction_lookup.chunk_size == 5_000_000,
            r.index_account_history.commit_threshold == 100_000,
            r.index_storage_history.commit_threshold == 100_000,
            r.etl.dir is None,
            r.etl.file_size == 500 * 1024 * 1024,
    {
        StageConfig {
            headers: HeadersConfig::default(),
            bodies: BodiesConfig::default(),
            sender_recovery: SenderRecoveryConfig::default(),
            execution: ExecutionConfig::default(),
            account_hashing: HashingConfig::default(),
            storage_hashing: HashingConfig::default(),
            merkle: MerkleConfig::default(),
            transaction_lookup: TransactionLookupConfig::default(),
            index_account_history: IndexHistoryConfig::default(),
            index_storage_history: IndexHistoryConfig::default(),
            etl: EtlConfig::default(),
        }
    }
}

} // verus!
