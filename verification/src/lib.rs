//! Shard-balance advisor for an Elasticsearch cluster.
//!
//! The crate builds multi-key lookup tables over three cluster metadata
//! payloads (data streams, index settings, nodes), joins a nested
//! shard-statistics payload against them to produce flat shard documents,
//! and annotates every document with an advisory target node chosen by a
//! deterministic sort-and-round-robin pass.  All I/O (fetching payloads,
//! writing documents) is left to callers; every function here is pure
//! computation with a verified contract.

pub mod auth;
pub mod data_streams;
pub mod errors;
pub mod index_stats;
pub mod indices_settings;
pub mod lookup;
pub mod lookups;
pub mod nodes;
pub mod processor;
pub mod shards;
pub mod text;

pub use auth::{Auth, AuthType};
pub use data_streams::{DataStream, DataStreams, TimestampField};
pub use errors::BalanceError;
pub use index_stats::{extract_index_stats, extract_shard_docs, extract_shard_stats};
pub use indices_settings::{IndexData, IndexSettings, IndicesSettings, Settings};
pub use lookup::{Lookup, LookupDisplay};
pub use lookups::Lookups;
pub use nodes::{Node, NodeData, Nodes};
pub use processor::{
    candidate_pool, doc_le, evaluate_shard_balance, rebalance_shards, sort_shard_docs,
};
pub use shards::{
    DocStats, IndexStats, IndexingStats, IndicesStats, PrimaryShardStats, PrimaryStats,
    SearchStats, ShardData, ShardDoc, ShardEnrich, ShardRouting, ShardStats,
};
pub use text::{compare_str, parse_shard_number, str_eq};
