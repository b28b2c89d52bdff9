//! The node's configuration surface. The storage core consumes only the
//! engine tuning knobs; the rest is carried for the surrounding node.
//!
//! Paths are held as their components, in order, as a path-building call
//! would push them; the unverified rim turns them into filesystem paths.
//! Network addresses and hexadecimal key material are held as plain strings.

use vstd::prelude::*;

verus! {

/// Copies a list of path components.
fn copy_segments(src: &Vec<String>) -> (r: Vec<String>)
    ensures
        r@.len() == src@.len(),
        forall|i: int| 0 <= i < src@.len() ==> r@[i]@ == src@[i]@,
{
    let mut r: Vec<String> = Vec::new();
    let mut i: usize = 0;
    while i < src.len()
        invariant
            i <= src@.len(),
            r@.len() == i,
            forall|j: int| 0 <= j < i ==> r@[j]@ == src@[j]@,
        decreases src@.len() - i,
    {
        r.push(src[i].clone());
        i += 1;
    }
    r
}

/// The GraphQL front end's knobs.
#[derive(Debug)]
pub struct ConfigGraphQL {
    pub listening_address: String,
    pub graphql_uri: String,
    pub graphiql_uri: String,
    pub workers: usize,
    pub maxconn: usize,
    pub max_payload_size: usize,
}

/// One bootstrap peer: its public key, hexadecimal, and its address.
#[derive(Debug)]
pub struct ConfigNetworkBootstrap {
    pub pubkey: String,
    pub address: String,
}

/// The peer-to-peer layer's knobs.
#[derive(Debug)]
pub struct ConfigNetwork {
    pub bootstraps: Option<Vec<ConfigNetworkBootstrap>>,
    pub whitelist: Option<Vec<String>>,
    pub whitelist_peers_only: Option<bool>,
    pub max_connected_peers: Option<usize>,
    pub listening_address: String,
    pub rpc_timeout: Option<u64>,
    pub selfcheck_interval: Option<u64>,
    pub send_buffer_size: Option<usize>,
    pub write_timeout: Option<u64>,
    pub recv_buffer_size: Option<usize>,
    pub max_frame_length: Option<usize>,
    pub max_wait_streams: Option<usize>,
}

/// The consensus engine's knobs.
#[derive(Debug)]
pub struct ConfigConsensus {
    pub sync_txs_chunk_size: usize,
}

impl Default for ConfigConsensus {
    /// Synchronize transactions five thousand at a time.
    fn default() -> (c: ConfigConsensus)
        ensures
            c.sync_txs_chunk_size == 5000,
    {
        ConfigConsensus { sync_txs_chunk_size: 5000 }
    }
}

/// The mempool's knobs.
#[derive(Debug)]
pub struct ConfigMempool {
    pub pool_size: u64,
    pub broadcast_txs_size: usize,
    pub broadcast_txs_interval: u64,
    pub pull_txs_chunks_size: usize,
}

/// The executor's knobs.
#[derive(Debug)]
pub struct ConfigExecutor {
    pub light: bool,
}

/// The persistent engine's tuning: how many file handles it may keep open.
#[derive(Debug)]
pub struct ConfigRocksDB {
    pub max_open_files: i32,
}

impl Default for ConfigRocksDB {
    /// A modest file-handle budget.
    fn default() -> (c: ConfigRocksDB)
        ensures
            c.max_open_files == 64,
    {
        ConfigRocksDB { max_open_files: 64 }
    }
}

/// The persistent engine's tuning surface, held as plain values; the
/// unverified rim applies them to the engine's opaque options type.
#[derive(Debug, Clone, Copy)]
pub struct EngineTuning {
    /// Create the store if the directory holds none.
    pub create_if_missing: bool,
    /// Create any partition the store lacks.
    pub create_missing_column_families: bool,
    /// Bound on the engine's open file handles.
    pub max_open_files: i32,
    /// Budget shared by background compaction and flush jobs.
    pub max_background_jobs: i32,
    /// Bytes written between incremental syncs; zero leaves syncing to the
    /// engine.
    pub bytes_per_sync: u64,
    /// Size of one table block.
    pub block_size: usize,
    /// Keep index and filter blocks in the block cache.
    pub cache_index_and_filter_blocks: bool,
}

impl EngineTuning {
    /// The baseline: create what is missing, allow 256 open files, and
    /// leave every read- and write-path knob at the engine's own default.
    pub fn default_tuning() -> (c: EngineTuning)
        ensures
            c.create_if_missing,
            c.create_missing_column_families,
            c.max_open_files == 256,
            c.max_background_jobs == 2,
            c.bytes_per_sync == 0,
            c.block_size == 4096,
            !c.cache_index_and_filter_blocks,
    {
        EngineTuning {
            create_if_missing: true,
            create_missing_column_families: true,
            max_open_files: 256,
            max_background_jobs: 2,
            bytes_per_sync: 0,
            block_size: 4096,
            cache_index_and_filter_blocks: false,
        }
    }

    /// The recommended production tuning: six background jobs, a sync every
    /// mebibyte written, sixteen-kibibyte blocks, and index and filter
    /// blocks cached.
    pub fn suggest() -> (c: EngineTuning)
        ensures
            c.create_if_missing,
            c.create_missing_column_families,
            c.max_open_files == 256,
            c.max_background_jobs == 6,
            c.bytes_per_sync == 1048576,
            c.block_size == 16384,
            c.cache_index_and_filter_blocks,
    {
        let mut c = EngineTuning::default_tuning();
        c.max_background_jobs = 6;
        c.bytes_per_sync = 1048576;
        c.block_size = 16384;
        c.cache_index_and_filter_blocks = true;
        c
    }
}

/// The logger's knobs.
#[derive(Debug)]
pub struct ConfigLogger {
    pub filter: String,
    pub log_to_console: bool,
    pub console_show_file_and_line: bool,
    pub log_to_file: bool,
    pub metrics: bool,
    pub log_path: Vec<String>,
    pub modules_level: Vec<(String, String)>,
}

impl Default for ConfigLogger {
    /// Log at the informational level, to console and file both, metrics
    /// on, under a `logs` directory, with no per-module overrides.
    fn default() -> (c: ConfigLogger)
        ensures
            c.filter@ == "info"@,
            c.log_to_console == true,
            c.console_show_file_and_line == false,
            c.log_to_file == true,
            c.metrics == true,
            c.log_path@.len() == 1 && c.log_path@[0]@ == "logs"@,
            c.modules_level@.len() == 0,
    {
        let mut log_path: Vec<String> = Vec::new();
        log_path.push("logs".to_owned());
        ConfigLogger {
            filter: "info".to_owned(),
            log_to_console: true,
            console_show_file_and_line: false,
            log_to_file: true,
            metrics: true,
            log_path,
            modules_level: Vec::new(),
        }
    }
}

/// The node's whole configuration.
#[derive(Debug)]
pub struct Config {
    /// The node's private key, hexadecimal.
    pub privkey: String,
    /// Where the node keeps its data, as path components.
    pub data_path: Vec<String>,
    pub graphql: ConfigGraphQL,
    pub network: ConfigNetwork,
    pub mempool: ConfigMempool,
    pub executor: ConfigExecutor,
    pub consensus: ConfigConsensus,
    pub logger: ConfigLogger,
    pub rocksdb: ConfigRocksDB,
}

impl Config {
    /// Where the state store lives: the data directory, then `rocksdb`,
    /// then `state_data`.
    pub fn data_path_for_state(&self) -> (p: Vec<String>)
        ensures
            p@.len() == self.data_path@.len() + 2,
            forall|i: int| 0 <= i < self.data_path@.len() ==> p@[i]@ == self.data_path@[i]@,
            p@[self.data_path@.len() as int]@ == "rocksdb"@,
            p@[self.data_path@.len() as int + 1]@ == "state_data"@,
    {
        let mut p = copy_segments(&self.data_path);
        p.push("rocksdb".to_owned());
        p.push("state_data".to_owned());
        p
    }

    /// Where the block store lives: the data directory, then `rocksdb`,
    /// then `block_data`.
    pub fn data_path_for_block(&self) -> (p: Vec<String>)
        ensures
            p@.len() == self.data_path@.len() + 2,
            forall|i: int| 0 <= i < self.data_path@.len() ==> p@[i]@ == self.data_path@[i]@,
            p@[self.data_path@.len() as int]@ == "rocksdb"@,
            p@[self.data_path@.len() as int + 1]@ == "block_data"@,
    {
        let mut p = copy_segments(&self.data_path);
        p.push("rocksdb".to_owned());
        p.push("block_data".to_owned());
        p
    }

    /// Where the transaction write-ahead log lives: the data directory,
    /// then `txs_wal`.
    pub fn data_path_for_txs_wal(&self) -> (p: Vec<String>)
        ensures
            p@.len() == self.data_path@.len() + 1,
            forall|i: int| 0 <= i < self.data_path@.len() ==> p@[i]@ == self.data_path@[i]@,
            p@[self.data_path@.len() as int]@ == "txs_wal"@,
    {
        let mut p = copy_segments(&self.data_path);
        p.push("txs_wal".to_owned());
        p
    }
}

} // verus!
