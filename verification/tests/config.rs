//! Tests for the configuration defaults and the data-path helpers.

use chain_storage::config::{
    Config, ConfigConsensus, ConfigExecutor, ConfigGraphQL, ConfigLogger, ConfigMempool,
    ConfigNetwork, ConfigRocksDB,
};

fn sample_config() -> Config {
    Config {
        privkey: String::from("00"),
        data_path: vec![String::from("devtools"), String::from("chain")],
        graphql: ConfigGraphQL {
            listening_address: String::from("0.0.0.0:8000"),
            graphql_uri: String::from("/graphql"),
            graphiql_uri: String::from("/graphiql"),
            workers: 0,
            maxconn: 0,
            max_payload_size: 0,
        },
        network: ConfigNetwork {
            bootstraps: None,
            whitelist: None,
            whitelist_peers_only: None,
            max_connected_peers: None,
            listening_address: String::from("0.0.0.0:1337"),
            rpc_timeout: None,
            selfcheck_interval: None,
            send_buffer_size: None,
            write_timeout: None,
            recv_buffer_size: None,
            max_frame_length: None,
            max_wait_streams: None,
        },
        mempool: ConfigMempool {
            pool_size: 20000,
            broadcast_txs_size: 200,
            broadcast_txs_interval: 200,
            pull_txs_chunks_size: 200,
        },
        executor: ConfigExecutor { light: false },
        consensus: ConfigConsensus::default(),
        logger: ConfigLogger::default(),
        rocksdb: ConfigRocksDB::default(),
    }
}

#[test]
fn engine_tuning_default_values() {
    let t = chain_storage::config::EngineTuning::default_tuning();
    assert!(t.create_if_missing);
    assert!(t.create_missing_column_families);
    assert_eq!(256, t.max_open_files);
    assert_eq!(2, t.max_background_jobs);
    assert_eq!(0, t.bytes_per_sync);
    assert_eq!(4096, t.block_size);
    assert!(!t.cache_index_and_filter_blocks);
}

#[test]
fn engine_tuning_suggested_values() {
    let t = chain_storage::config::EngineTuning::suggest();
    assert!(t.create_if_missing);
    assert!(t.create_missing_column_families);
    assert_eq!(256, t.max_open_files);
    assert_eq!(6, t.max_background_jobs);
    assert_eq!(1_048_576, t.bytes_per_sync);
    assert_eq!(16 * 1024, t.block_size);
    assert!(t.cache_index_and_filter_blocks);
}

#[test]
fn consensus_default_chunk_size() {
    assert_eq!(5000, ConfigConsensus::default().sync_txs_chunk_size);
}

#[test]
fn rocksdb_default_max_open_files() {
    assert_eq!(64, ConfigRocksDB::default().max_open_files);
}

#[test]
fn logger_defaults() {
    let l = ConfigLogger::default();
    assert_eq!("info", l.filter);
    assert!(l.log_to_console);
    assert!(!l.console_show_file_and_line);
    assert!(l.log_to_file);
    assert!(l.metrics);
    assert_eq!(vec![String::from("logs")], l.log_path);
    assert!(l.modules_level.is_empty());
}

#[test]
fn data_path_for_state_appends_components() {
    let c = sample_config();
    assert_eq!(
        vec![
            String::from("devtools"),
            String::from("chain"),
            String::from("rocksdb"),
            String::from("state_data"),
        ],
        c.data_path_for_state()
    );
}

#[test]
fn data_path_for_block_appends_components() {
    let c = sample_config();
    assert_eq!(
        vec![
            String::from("devtools"),
            String::from("chain"),
            String::from("rocksdb"),
            String::from("block_data"),
        ],
        c.data_path_for_block()
    );
}

#[test]
fn data_path_for_txs_wal_appends_component() {
    let c = sample_config();
    assert_eq!(
        vec![
            String::from("devtools"),
            String::from("chain"),
            String::from("txs_wal"),
        ],
        c.data_path_for_txs_wal()
    );
}
