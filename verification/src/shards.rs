//! The shard statistics payload and the shard document it is flattened into.
//!
//! The payload nests index name over shard-number key over a list of
//! per-replica statistics snapshots.  Extraction turns every replica
//! snapshot into one [`ShardDoc`]: the replica's counters and routing
//! information, an enrichment bundle resolved from the metadata lookups,
//! and the capture timestamp of the run.

use vstd::prelude::*;

use crate::indices_settings::IndexSettings;
use crate::nodes::NodeData;

verus! {

/// The whole statistics payload: index name paired with that index's stats.
#[derive(Debug, Default, PartialEq, Eq)]
pub struct IndicesStats {
    pub indices: Vec<(String, IndexStats)>,
}

#[derive(Debug, Default, PartialEq, Eq)]
pub struct IndexStats {
    pub primaries: PrimaryStats,
    /// Shard-number key paired with the replica snapshots under it.
    pub shards: Vec<(String, Vec<ShardStats>)>,
    pub uuid: String,
}

#[derive(Clone, Copy, Debug, Default, PartialEq, Eq)]
pub struct PrimaryStats {
    pub shard_stats: PrimaryShardStats,
}

#[derive(Clone, Copy, Debug, Default, PartialEq, Eq)]
pub struct PrimaryShardStats {
    pub total_count: u16,
}

#[derive(Debug, Default, PartialEq, Eq)]
pub struct ShardStats {
    pub docs: DocStats,
    pub indexing: IndexingStats,
    pub search: SearchStats,
    pub routing: ShardRouting,
}

impl Clone for ShardStats {
    fn clone(&self) -> (res: Self)
        ensures
            res == *self,
    {
        ShardStats {
            docs: self.docs,
            indexing: self.indexing,
            search: self.search,
            routing: self.routing.clone(),
        }
    }
}

#[derive(Clone, Copy, Debug, Default, PartialEq, Eq)]
pub struct DocStats {
    pub count: u64,
    pub deleted: u64,
    pub total_size_in_bytes: Option<u64>,
}

#[derive(Clone, Copy, Debug, Default, PartialEq, Eq)]
pub struct IndexingStats {
    pub index_total: u64,
    pub index_time_in_millis: u64,
    pub index_current: u64,
    pub index_failed: u64,
    pub delete_total: u64,
    pub delete_time_in_millis: u64,
    pub delete_current: u64,
    pub noop_update_total: u64,
    pub is_throttled: bool,
    pub throttle_time_in_millis: u64,
}

#[derive(Clone, Copy, Debug, Default, PartialEq, Eq)]
pub struct SearchStats {
    pub open_contexts: u64,
    pub query_total: u64,
    pub query_time_in_millis: u64,
    pub query_current: u64,
    pub fetch_total: u64,
    pub fetch_time_in_millis: u64,
    pub fetch_current: u64,
    pub scroll_total: u64,
    pub scroll_time_in_millis: u64,
    pub scroll_current: u64,
    pub suggest_total: u64,
    pub suggest_time_in_millis: u64,
    pub suggest_current: u64,
}

#[derive(Debug, Default, PartialEq, Eq)]
pub struct ShardRouting {
    /// Identifier of the hosting node.
    pub node: String,
    pub primary: bool,
    pub relocating_node: Option<String>,
    pub state: String,
}

impl Clone for ShardRouting {
    fn clone(&self) -> (res: Self)
        ensures
            res == *self,
    {
        ShardRouting {
            node: self.node.clone(),
            primary: self.primary,
            relocating_node: self.relocating_node.clone(),
            state: self.state.clone(),
        }
    }
}

/// The metadata resolved for one shard document: the owning index's
/// settings (if present, carrying the owning data-stream name) and the
/// hosting node.
#[derive(Debug, Default, PartialEq, Eq)]
pub struct ShardEnrich {
    pub index: Option<IndexSettings>,
    pub node: Option<NodeData>,
}

impl Clone for ShardEnrich {
    fn clone(&self) -> (res: Self)
        ensures
            res == *self,
    {
        ShardEnrich { index: self.index.clone(), node: self.node.clone() }
    }
}

/// A shard's position: its number and the replica's routing information.
#[derive(Debug, Default, PartialEq, Eq)]
pub struct ShardData {
    pub number: u16,
    pub routing: ShardRouting,
}

impl Clone for ShardData {
    fn clone(&self) -> (res: Self)
        ensures
            res == *self,
    {
        ShardData { number: self.number, routing: self.routing.clone() }
    }
}

/// One document per physical shard replica: statistics snapshot, routing,
/// resolved enrichment and the capture timestamp of the run.
#[derive(Debug, Default, PartialEq, Eq)]
pub struct ShardDoc {
    pub enrich: ShardEnrich,
    pub shard: ShardData,
    pub stats: ShardStats,
    pub timestamp: i64,
}

impl Clone for ShardDoc {
    fn clone(&self) -> (res: Self)
        ensures
            res == *self,
    {
        ShardDoc {
            enrich: self.enrich.clone(),
            shard: self.shard.clone(),
            stats: self.stats.clone(),
            timestamp: self.timestamp,
        }
    }
}

/// The document built from one replica snapshot: the shard carries the
/// parsed number and a copy of the replica's routing.
pub open spec fn spec_new_shard_doc(
    number: u16,
    stats: ShardStats,
    enrich: ShardEnrich,
    timestamp: i64,
) -> ShardDoc {
    ShardDoc {
        enrich,
        shard: ShardData { number, routing: stats.routing },
        stats,
        timestamp,
    }
}

/// The owning data-stream name a document sorts under: the name attached to
/// its index enrichment, or empty when no stream was resolved.
pub open spec fn spec_data_stream_name(doc: ShardDoc) -> Seq<char> {
    match doc.enrich.index {
        Some(ix) => match ix.data_stream {
            Some(name) => name@,
            None => Seq::empty(),
        },
        None => Seq::empty(),
    }
}

/// The index name a document sorts under: the name attached to its index
/// enrichment, or empty when no settings entry was resolved.
pub open spec fn spec_index_name(doc: ShardDoc) -> Seq<char> {
    match doc.enrich.index {
        Some(ix) => match ix.name {
            Some(name) => name@,
            None => Seq::empty(),
        },
        None => Seq::empty(),
    }
}

/// The document with its advisory desired-target-node set to `name`; a
/// document without node enrichment is left unchanged.
pub open spec fn spec_set_desired(doc: ShardDoc, name: String) -> ShardDoc {
    match doc.enrich.node {
        Some(node) => ShardDoc {
            enrich: ShardEnrich {
                node: Some(NodeData { desired: Some(name), ..node }),
                ..doc.enrich
            },
            ..doc
        },
        None => doc,
    }
}

impl ShardDoc {
    pub fn new(number: u16, stats: ShardStats, enrich: ShardEnrich, timestamp: i64) -> (res: Self)
        ensures
            res == spec_new_shard_doc(number, stats, enrich, timestamp),
    {
        let routing = stats.routing.clone();
        ShardDoc { enrich, shard: ShardData { number, routing }, stats, timestamp }
    }

    /// The owning data-stream name, or empty when none was resolved.
    pub fn data_stream_name(&self) -> (res: String)
        ensures
            res@ == spec_data_stream_name(*self),
    {
        match &self.enrich.index {
            Some(ix) => match &ix.data_stream {
                Some(name) => name.clone(),
                None => String::new(),
            },
            None => String::new(),
        }
    }

    /// The index name, or empty when no settings entry was resolved.
    pub fn index_name(&self) -> (res: String)
        ensures
            res@ == spec_index_name(*self),
    {
        match &self.enrich.index {
            Some(ix) => match &ix.name {
                Some(name) => name.clone(),
                None => String::new(),
            },
            None => String::new(),
        }
    }

    pub fn shard_number(&self) -> (res: u16)
        ensures
            res == self.shard.number,
    {
        self.shard.number
    }

    pub fn primary(&self) -> (res: bool)
        ensures
            res == self.shard.routing.primary,
    {
        self.shard.routing.primary
    }

    /// Sets the advisory desired-target-node on the node enrichment; a
    /// document without node enrichment is left unchanged.
    pub fn set_desired_node(&mut self, name: String)
        ensures
            *final(self) == spec_set_desired(*old(self), name),
    {
        match &mut self.enrich.node {
            Some(node) => {
                node.desired = Some(name);
            },
            None => {},
        }
    }
}

} // verus!
