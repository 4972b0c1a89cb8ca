use eth_serving::config::{
    Config,
    BodiesConfig, CompilerConfig, EtlConfig, ExecutionConfig, HashingConfig, HeadersConfig,
    IndexHistoryConfig, MerkleConfig, SenderRecoveryConfig, StageConfig, TransactionLookupConfig,
};
use eth_serving::eth::{default_max_tracing_requests, EthConfig, EthStateCacheConfig};

#[test]
fn stage_defaults() {
    let h = HeadersConfig::default();
    assert_eq!(h.commit_threshold, 10_000);
    assert_eq!(h.downloader_request_limit, 1_000);
    assert_eq!(h.downloader_max_concurrent_requests, 100);
    assert_eq!(h.downloader_min_concurrent_requests, 5);
    assert_eq!(h.downloader_max_buffered_responses, 100);
    let b = BodiesConfig::default();
    assert_eq!(b.downloader_request_limit, 200);
    assert_eq!(b.downloader_stream_batch_size, 1_000);
    assert_eq!(b.downloader_max_buffered_blocks_size_bytes, 2 * 1024 * 1024 * 1024);
    assert_eq!(SenderRecoveryConfig::default().commit_threshold, 5_000_000);
    let e = ExecutionConfig::default();
    assert_eq!(e.max_blocks, Some(500_000));
    assert_eq!(e.max_changes, Some(5_000_000));
    assert_eq!(e.max_cumulative_gas, Some(1_500_000_000_000));
    assert_eq!(e.max_duration, Some(600));
    let hc = HashingConfig::default();
    assert_eq!((hc.clean_threshold, hc.commit_threshold), (500_000, 100_000));
    assert_eq!(MerkleConfig::default().clean_threshold, 5_000);
    assert_eq!(TransactionLookupConfig::default().chunk_size, 5_000_000);
    assert_eq!(IndexHistoryConfig::default().commit_threshold, 100_000);
    let c = CompilerConfig::default();
    assert_eq!(c.end_block, 19_000_000);
    assert!(c.cflags.is_empty() && c.cc.is_none());
    let s = StageConfig::default();
    assert_eq!(s.etl, EtlConfig::default());
    assert_eq!(s.merkle, MerkleConfig::default());
}

#[test]
fn etl_config_values() {
    assert_eq!(EtlConfig::default_file_size(), 524_288_000);
    let d = EtlConfig::default();
    assert_eq!(d.dir, None);
    assert_eq!(d.file_size, 524_288_000);
    let n = EtlConfig::new(Some(b"/tmp/x".to_vec()), 7);
    assert_eq!(n.dir, Some(b"/tmp/x".to_vec()));
    assert_eq!(n.file_size, 7);
}

#[test]
fn etl_dir_under_datadir() {
    assert_eq!(EtlConfig::from_datadir(b"/data/reth"), b"/data/reth/etl-tmp".to_vec());
    assert_eq!(EtlConfig::from_datadir(b"/data/reth/"), b"/data/reth/etl-tmp".to_vec());
    assert_eq!(EtlConfig::from_datadir(b""), b"etl-tmp".to_vec());
}

#[test]
fn tracing_request_defaults() {
    assert_eq!(default_max_tracing_requests(None), 25);
    assert_eq!(default_max_tracing_requests(Some(16)), 14);
    assert_eq!(default_max_tracing_requests(Some(3)), 2);
    assert_eq!(default_max_tracing_requests(Some(4)), 2);
    assert_eq!(default_max_tracing_requests(Some(5)), 3);
}

#[test]
fn eth_config_builders() {
    let c = EthConfig::with_available_cpus(Some(10));
    assert_eq!(c.max_tracing_requests, 8);
    assert_eq!(c.max_blocks_per_filter, 100_000);
    assert_eq!(c.max_logs_per_response, 20_000);
    assert_eq!(c.rpc_gas_cap, 50_000_000);
    assert_eq!(c.stale_filter_ttl_ms, 300_000);
    assert_eq!(c.cache.max_blocks, 5000);
    let d = c
        .max_tracing_requests(3)
        .max_blocks_per_filter(9)
        .max_logs_per_response(11)
        .rpc_gas_cap(13)
        .state_cache(EthStateCacheConfig { max_blocks: 2, max_concurrent_db_requests: 1 });
    assert_eq!(d.max_tracing_requests, 3);
    assert_eq!(d.max_blocks_per_filter, 9);
    assert_eq!(d.max_logs_per_response, 11);
    assert_eq!(d.rpc_gas_cap, 13);
    assert_eq!(d.cache.max_blocks, 2);
    assert_eq!(d.gas_oracle, c.gas_oracle);
    let f = d.filter_config();
    assert_eq!((f.max_blocks_per_filter, f.max_logs_per_response, f.stale_filter_ttl_ms), (9, 11, 300_000));
}

#[test]
fn node_config_default() {
    let c = Config::default();
    assert_eq!(c.stages, StageConfig::default());
    assert_eq!(c.compiler, CompilerConfig::default());
}
