//! Extraction: the join of the statistics payload against the lookups.
//!
//! For every index entry the owning data stream and the index settings are
//! resolved once; for every shard-number key that parses as a number, each
//! replica snapshot under it becomes one shard document whose hosting node
//! is resolved through the node lookup.  An unparseable shard-number key
//! drops only its own records; a node identifier the lookup does not know
//! aborts the whole extraction.

use vstd::prelude::*;

use crate::data_streams::DataStream;
use crate::errors::BalanceError;
use crate::indices_settings::IndexSettings;
use crate::lookup::{spec_by_id, spec_by_name, LookupModel};
use crate::lookups::Lookups;
use crate::nodes::{spec_node_data, Node};
use crate::shards::{
    spec_new_shard_doc, IndexStats, IndicesStats, ShardDoc, ShardEnrich, ShardStats,
};
use crate::text::{parse_shard_number, spec_parse_shard_number};

verus! {

/// The index enrichment for an index name: its settings record, if any,
/// annotated with the name it was resolved under and with the owning
/// data-stream name, if one is keyed by this index.
pub open spec fn spec_index_enrich(
    index_name: String,
    data_streams: LookupModel<DataStream>,
    indices: LookupModel<IndexSettings>,
) -> Option<IndexSettings> {
    let data_stream = match spec_by_id(data_streams, index_name@) {
        Some(stream) => Some(stream.name),
        None => None,
    };
    match spec_by_name(indices, index_name@) {
        Some(settings) => Some(
            IndexSettings { name: Some(index_name), data_stream, ..settings },
        ),
        None => None,
    }
}

/// The documents of one run of replica snapshots under a parsed shard
/// number, in order; the first replica hosted on an unknown node aborts.
pub open spec fn spec_replica_docs(
    number: u16,
    replicas: Seq<ShardStats>,
    index_enrich: Option<IndexSettings>,
    nodes: LookupModel<Node>,
    timestamp: i64,
) -> Result<Seq<ShardDoc>, BalanceError>
    decreases replicas.len(),
{
    if replicas.len() == 0 {
        Ok(Seq::empty())
    } else {
        let replica = replicas.first();
        match spec_by_id(nodes, replica.routing.node@) {
            None => Err(BalanceError::NodeNotFound(replica.routing.node)),
            Some(node) => {
                let enrich = ShardEnrich {
                    index: index_enrich,
                    node: Some(spec_node_data(node, replica.routing.node)),
                };
                let doc = spec_new_shard_doc(number, replica, enrich, timestamp);
                match spec_replica_docs(
                    number,
                    replicas.drop_first(),
                    index_enrich,
                    nodes,
                    timestamp,
                ) {
                    Ok(rest) => Ok(Seq::empty().push(doc) + rest),
                    Err(e) => Err(e),
                }
            },
        }
    }
}

/// The documents of one shard-number key: none when the key does not parse
/// as a shard number, else one per replica snapshot.
pub open spec fn spec_shard_group_docs(
    key: String,
    replicas: Seq<ShardStats>,
    index_enrich: Option<IndexSettings>,
    nodes: LookupModel<Node>,
    timestamp: i64,
) -> Result<Seq<ShardDoc>, BalanceError> {
    match spec_parse_shard_number(key@) {
        None => Ok(Seq::empty()),
        Some(number) => spec_replica_docs(number, replicas, index_enrich, nodes, timestamp),
    }
}

/// The documents of a run of shard-number groups, concatenated in order.
pub open spec fn spec_group_seq_docs(
    groups: Seq<(String, Vec<ShardStats>)>,
    index_enrich: Option<IndexSettings>,
    nodes: LookupModel<Node>,
    timestamp: i64,
) -> Result<Seq<ShardDoc>, BalanceError>
    decreases groups.len(),
{
    if groups.len() == 0 {
        Ok(Seq::empty())
    } else {
        match spec_shard_group_docs(
            groups.first().0,
            groups.first().1@,
            index_enrich,
            nodes,
            timestamp,
        ) {
            Err(e) => Err(e),
            Ok(docs) => match spec_group_seq_docs(
                groups.drop_first(),
                index_enrich,
                nodes,
                timestamp,
            ) {
                Ok(rest) => Ok(docs + rest),
                Err(e) => Err(e),
            },
        }
    }
}

/// The documents of one index entry of the statistics payload.
pub open spec fn spec_index_docs(
    index_name: String,
    stats: IndexStats,
    data_streams: LookupModel<DataStream>,
    indices: LookupModel<IndexSettings>,
    nodes: LookupModel<Node>,
    timestamp: i64,
) -> Result<Seq<ShardDoc>, BalanceError> {
    spec_group_seq_docs(
        stats.shards@,
        spec_index_enrich(index_name, data_streams, indices),
        nodes,
        timestamp,
    )
}

/// The documents of the whole payload, one index entry after the other.
pub open spec fn spec_extract_docs(
    entries: Seq<(String, IndexStats)>,
    data_streams: LookupModel<DataStream>,
    indices: LookupModel<IndexSettings>,
    nodes: LookupModel<Node>,
    timestamp: i64,
) -> Result<Seq<ShardDoc>, BalanceError>
    decreases entries.len(),
{
    if entries.len() == 0 {
        Ok(Seq::empty())
    } else {
        match spec_index_docs(
            entries.first().0,
            entries.first().1,
            data_streams,
            indices,
            nodes,
            timestamp,
        ) {
            Err(e) => Err(e),
            Ok(docs) => match spec_extract_docs(
                entries.drop_first(),
                data_streams,
                indices,
                nodes,
                timestamp,
            ) {
                Ok(rest) => Ok(docs + rest),
                Err(e) => Err(e),
            },
        }
    }
}

/// One document per replica snapshot under one shard-number key.  A key
/// that does not parse as a shard number yields no documents and no error;
/// a replica hosted on a node the lookup does not know aborts with
/// [`BalanceError::NodeNotFound`] naming that identifier.
pub fn extract_shard_stats(
    shard_number: &String,
    shards_stats: &Vec<ShardStats>,
    index_enrich: &Option<IndexSettings>,
    lookups: &Lookups,
    timestamp: i64,
) -> (r: Result<Vec<ShardDoc>, BalanceError>)
    requires
        lookups.wf(),
    ensures
        spec_shard_group_docs(*shard_number, shards_stats@, *index_enrich, lookups.node@, timestamp)
            == match r {
            Ok(docs) => Ok::<Seq<ShardDoc>, BalanceError>(docs@),
            Err(e) => Err::<Seq<ShardDoc>, BalanceError>(e),
        },
{
    let number = match parse_shard_number(shard_number.as_str()) {
        Some(number) => number,
        None => {
            return Ok(Vec::new());
        },
    };
    let mut docs: Vec<ShardDoc> = Vec::new();
    let n = shards_stats.len();
    proof {
        assert(shards_stats@.skip(0) =~= shards_stats@);
        assert(docs@ + Seq::<ShardDoc>::empty() =~= docs@);
    }
    for i in 0..n
        invariant
            n == shards_stats@.len(),
            lookups.wf(),
            spec_parse_shard_number(shard_number@) == Some(number),
            spec_replica_docs(number, shards_stats@, *index_enrich, lookups.node@, timestamp)
                == match spec_replica_docs(
                number,
                shards_stats@.skip(i as int),
                *index_enrich,
                lookups.node@,
                timestamp,
            ) {
                Ok(rest) => Ok::<Seq<ShardDoc>, BalanceError>(docs@ + rest),
                Err(e) => Err::<Seq<ShardDoc>, BalanceError>(e),
            },
    {
        let replica = &shards_stats[i];
        proof {
            assert(shards_stats@.skip(i as int).first() == shards_stats@[i as int]);
            assert(shards_stats@.skip(i as int).drop_first() =~= shards_stats@.skip(i + 1));
        }
        let node = match lookups.node.by_id(replica.routing.node.as_str()) {
            Some(node) => node,
            None => {
                return Err(BalanceError::NodeNotFound(replica.routing.node.clone()));
            },
        };
        let node_data = node.to_data(&replica.routing.node);
        let enrich = ShardEnrich { index: clone_index_enrich(index_enrich), node: Some(node_data) };
        let doc = ShardDoc::new(number, replica.clone(), enrich, timestamp);
        let ghost prev = docs@;
        let ghost tail = spec_replica_docs(
            number,
            shards_stats@.skip(i + 1),
            *index_enrich,
            lookups.node@,
            timestamp,
        );
        docs.push(doc);
        proof {
            if tail is Ok {
                assert(prev + (Seq::empty().push(doc) + tail->Ok_0) =~= docs@ + tail->Ok_0);
            }
        }
    }
    proof {
        assert(shards_stats@.skip(n as int) =~= Seq::<ShardStats>::empty());
    }
    Ok(docs)
}

/// An exact copy of an optional index enrichment.
fn clone_index_enrich(index_enrich: &Option<IndexSettings>) -> (r: Option<IndexSettings>)
    ensures
        r == *index_enrich,
{
    match index_enrich {
        Some(settings) => Some(settings.clone()),
        None => None,
    }
}

/// All documents of one index entry: the index enrichment is resolved once
/// and copied into every document; each shard-number group contributes its
/// replicas in order.
pub fn extract_index_stats(
    index_name: &String,
    index_stats: &IndexStats,
    lookups: &Lookups,
    timestamp: i64,
) -> (r: Result<Vec<ShardDoc>, BalanceError>)
    requires
        lookups.wf(),
    ensures
        spec_index_docs(
            *index_name,
            *index_stats,
            lookups.data_stream@,
            lookups.index@,
            lookups.node@,
            timestamp,
        ) == match r {
            Ok(docs) => Ok::<Seq<ShardDoc>, BalanceError>(docs@),
            Err(e) => Err::<Seq<ShardDoc>, BalanceError>(e),
        },
{
    let data_stream: Option<String> = match lookups.data_stream.by_id(index_name.as_str()) {
        Some(stream) => Some(stream.name.clone()),
        None => None,
    };
    let index_enrich: Option<IndexSettings> = match lookups.index.by_name(index_name.as_str()) {
        Some(settings) => Some(
            settings.clone().with_name(index_name).with_data_stream(data_stream),
        ),
        None => None,
    };
    proof {
        assert(index_enrich == spec_index_enrich(*index_name, lookups.data_stream@, lookups.index@));
    }
    let mut docs: Vec<ShardDoc> = Vec::new();
    let n = index_stats.shards.len();
    proof {
        assert(index_stats.shards@.skip(0) =~= index_stats.shards@);
        assert(docs@ + Seq::<ShardDoc>::empty() =~= docs@);
    }
    for i in 0..n
        invariant
            n == index_stats.shards@.len(),
            lookups.wf(),
            index_enrich == spec_index_enrich(
                *index_name,
                lookups.data_stream@,
                lookups.index@,
            ),
            spec_group_seq_docs(index_stats.shards@, index_enrich, lookups.node@, timestamp)
                == match spec_group_seq_docs(
                index_stats.shards@.skip(i as int),
                index_enrich,
                lookups.node@,
                timestamp,
            ) {
                Ok(rest) => Ok::<Seq<ShardDoc>, BalanceError>(docs@ + rest),
                Err(e) => Err::<Seq<ShardDoc>, BalanceError>(e),
            },
    {
        let group = &index_stats.shards[i];
        proof {
            assert(index_stats.shards@.skip(i as int).first() == index_stats.shards@[i as int]);
            assert(index_stats.shards@.skip(i as int).drop_first() =~= index_stats.shards@.skip(
                i + 1,
            ));
        }
        let group_docs = match extract_shard_stats(
            &group.0,
            &group.1,
            &index_enrich,
            lookups,
            timestamp,
        ) {
            Ok(group_docs) => group_docs,
            Err(e) => {
                return Err(e);
            },
        };
        let ghost prev = docs@;
        let ghost added = group_docs@;
        let ghost tail = spec_group_seq_docs(
            index_stats.shards@.skip(i + 1),
            index_enrich,
            lookups.node@,
            timestamp,
        );
        docs = append_docs(docs, group_docs);
        proof {
            if tail is Ok {
                assert(prev + (added + tail->Ok_0) =~= docs@ + tail->Ok_0);
            }
        }
    }
    proof {
        assert(index_stats.shards@.skip(n as int) =~= Seq::<(String, Vec<ShardStats>)>::empty());
    }
    Ok(docs)
}

/// Concatenation of two document runs.
fn append_docs(mut docs: Vec<ShardDoc>, mut tail: Vec<ShardDoc>) -> (r: Vec<ShardDoc>)
    ensures
        r@ == docs@ + tail@,
{
    docs.append(&mut tail);
    docs
}

/// Flattens the whole statistics payload into shard documents, one per
/// replica snapshot, in payload order.  Succeeds exactly when every replica
/// under a parseable shard-number key is hosted on a node the node lookup
/// knows; the first replica that is not aborts the extraction with
/// [`BalanceError::NodeNotFound`] naming the unknown identifier.
pub fn extract_shard_docs(indices_stats: IndicesStats, lookups: &Lookups, timestamp: i64) -> (r:
    Result<Vec<ShardDoc>, BalanceError>)
    requires
        lookups.wf(),
    ensures
        spec_extract_docs(
            indices_stats.indices@,
            lookups.data_stream@,
            lookups.index@,
            lookups.node@,
            timestamp,
        ) == match r {
            Ok(docs) => Ok::<Seq<ShardDoc>, BalanceError>(docs@),
            Err(e) => Err::<Seq<ShardDoc>, BalanceError>(e),
        },
{
    let mut docs: Vec<ShardDoc> = Vec::new();
    let n = indices_stats.indices.len();
    proof {
        assert(indices_stats.indices@.skip(0) =~= indices_stats.indices@);
        assert(docs@ + Seq::<ShardDoc>::empty() =~= docs@);
    }
    for i in 0..n
        invariant
            n == indices_stats.indices@.len(),
            lookups.wf(),
            spec_extract_docs(
                indices_stats.indices@,
                lookups.data_stream@,
                lookups.index@,
                lookups.node@,
                timestamp,
            ) == match spec_extract_docs(
                indices_stats.indices@.skip(i as int),
                lookups.data_stream@,
                lookups.index@,
                lookups.node@,
                timestamp,
            ) {
                Ok(rest) => Ok::<Seq<ShardDoc>, BalanceError>(docs@ + rest),
                Err(e) => Err::<Seq<ShardDoc>, BalanceError>(e),
            },
    {
        let entry = &indices_stats.indices[i];
        proof {
            assert(indices_stats.indices@.skip(i as int).first() == indices_stats.indices@[
                i as int]);
            assert(indices_stats.indices@.skip(i as int).drop_first()
                =~= indices_stats.indices@.skip(i + 1));
        }
        let index_docs = match extract_index_stats(&entry.0, &entry.1, lookups, timestamp) {
            Ok(index_docs) => index_docs,
            Err(e) => {
                return Err(e);
            },
        };
        let ghost prev = docs@;
        let ghost added = index_docs@;
        let ghost tail = spec_extract_docs(
            indices_stats.indices@.skip(i + 1),
            lookups.data_stream@,
            lookups.index@,
            lookups.node@,
            timestamp,
        );
        docs = append_docs(docs, index_docs);
        proof {
            if tail is Ok {
                assert(prev + (added + tail->Ok_0) =~= docs@ + tail->Ok_0);
            }
        }
    }
    proof {
        assert(indices_stats.indices@.skip(n as int) =~= Seq::<(String, IndexStats)>::empty());
    }
    Ok(docs)
}

/// Extraction is a pure function of the frozen inputs: two runs over equal
/// payloads and equal lookup tables produce exactly the same documents —
/// in particular, the same set of documents ignoring order.
pub proof fn lemma_extraction_deterministic(
    entries1: Seq<(String, IndexStats)>,
    entries2: Seq<(String, IndexStats)>,
    data_streams: LookupModel<DataStream>,
    indices: LookupModel<IndexSettings>,
    nodes: LookupModel<Node>,
    timestamp: i64,
)
    requires
        entries1 == entries2,
    ensures
        spec_extract_docs(entries1, data_streams, indices, nodes, timestamp) == spec_extract_docs(
            entries2,
            data_streams,
            indices,
            nodes,
            timestamp,
        ),
        spec_extract_docs(entries1, data_streams, indices, nodes, timestamp) matches Ok(docs1)
            ==> spec_extract_docs(entries2, data_streams, indices, nodes, timestamp) matches
            Ok(docs2) && docs1.to_multiset() == docs2.to_multiset(),
{
}

/// Replica documents always carry node enrichment.
proof fn lemma_replica_docs_have_node(
    number: u16,
    replicas: Seq<ShardStats>,
    index_enrich: Option<IndexSettings>,
    nodes: LookupModel<Node>,
    timestamp: i64,
)
    ensures
        spec_replica_docs(number, replicas, index_enrich, nodes, timestamp) matches Ok(docs)
            ==> forall|i: int| 0 <= i < docs.len() ==> (#[trigger] docs[i].enrich.node) is Some,
    decreases replicas.len(),
{
    if replicas.len() > 0 {
        lemma_replica_docs_have_node(number, replicas.drop_first(), index_enrich, nodes, timestamp);
    }
}

/// Shard-group documents always carry node enrichment.
proof fn lemma_group_docs_have_node(
    groups: Seq<(String, Vec<ShardStats>)>,
    index_enrich: Option<IndexSettings>,
    nodes: LookupModel<Node>,
    timestamp: i64,
)
    ensures
        spec_group_seq_docs(groups, index_enrich, nodes, timestamp) matches Ok(docs)
            ==> forall|i: int| 0 <= i < docs.len() ==> (#[trigger] docs[i].enrich.node) is Some,
    decreases groups.len(),
{
    if groups.len() > 0 {
        lemma_replica_docs_have_node_for_group(
            groups.first().0,
            groups.first().1@,
            index_enrich,
            nodes,
            timestamp,
        );
        lemma_group_docs_have_node(groups.drop_first(), index_enrich, nodes, timestamp);
    }
}

/// The documents of one shard-number key always carry node enrichment.
proof fn lemma_replica_docs_have_node_for_group(
    key: String,
    replicas: Seq<ShardStats>,
    index_enrich: Option<IndexSettings>,
    nodes: LookupModel<Node>,
    timestamp: i64,
)
    ensures
        spec_shard_group_docs(key, replicas, index_enrich, nodes, timestamp) matches Ok(docs)
            ==> forall|i: int| 0 <= i < docs.len() ==> (#[trigger] docs[i].enrich.node) is Some,
{
    match spec_parse_shard_number(key@) {
        Some(number) => lemma_replica_docs_have_node(
            number,
            replicas,
            index_enrich,
            nodes,
            timestamp,
        ),
        None => (),
    }
}

/// Every document a successful extraction produces carries node
/// enrichment: the join fails rather than emit a document whose hosting
/// node could not be resolved.  The round-robin fairness law relies on
/// this.
pub proof fn lemma_extracted_docs_have_node(
    entries: Seq<(String, IndexStats)>,
    data_streams: LookupModel<DataStream>,
    indices: LookupModel<IndexSettings>,
    nodes: LookupModel<Node>,
    timestamp: i64,
)
    ensures
        spec_extract_docs(entries, data_streams, indices, nodes, timestamp) matches Ok(docs)
            ==> forall|i: int| 0 <= i < docs.len() ==> (#[trigger] docs[i].enrich.node) is Some,
    decreases entries.len(),
{
    if entries.len() > 0 {
        lemma_group_docs_have_node(
            entries.first().1.shards@,
            spec_index_enrich(entries.first().0, data_streams, indices),
            nodes,
            timestamp,
        );
        lemma_extracted_docs_have_node(
            entries.drop_first(),
            data_streams,
            indices,
            nodes,
            timestamp,
        );
    }
}

} // verus!
