//! The bundle of the three metadata lookup tables, built once per run.
//!
//! Construction is pure: given the three raw payloads it registers keys per
//! resource type and nothing else.  A data-stream record is keyed by its
//! name and, one identifier per backing index, by member index name; an
//! index-settings record by index name and index UUID; a node record by
//! node identifier and display name.  No cross-validation happens here —
//! all joins are resolved lazily during extraction.

use vstd::prelude::*;

use crate::data_streams::{DataStream, DataStreams, Index};
use crate::indices_settings::{IndexSettings, IndicesSettings, Settings};
use crate::lookup::{
    spec_add, spec_with_id, spec_with_name, Lookup, LookupModel,
};
use crate::nodes::{Node, Nodes};

verus! {

/// The three metadata tables a run joins against.
pub struct Lookups {
    pub index: Lookup<IndexSettings>,
    pub data_stream: Lookup<DataStream>,
    pub node: Lookup<Node>,
}

impl Lookups {
    pub open spec fn wf(&self) -> bool {
        self.index.wf() && self.data_stream.wf() && self.node.wf()
    }

    /// Builds the three tables from the three raw payloads, each keyed per
    /// its resource type's policy.
    pub fn new(data_streams: DataStreams, indices_settings: IndicesSettings, nodes: Nodes) -> (r:
        Self)
        ensures
            r.wf(),
            r.data_stream@ == spec_data_stream_lookup(data_streams.data_streams@),
            r.index@ == spec_index_settings_lookup(indices_settings@),
            r.node@ == spec_node_lookup(nodes.nodes@),
    {
        Lookups {
            index: index_settings_lookup(indices_settings),
            data_stream: data_stream_lookup(data_streams),
            node: node_lookup(nodes),
        }
    }
}

/// An empty lookup model.
pub open spec fn spec_empty_lookup<T>() -> LookupModel<T> {
    LookupModel {
        entries: Seq::empty(),
        by_id: Map::empty(),
        by_name: Map::empty(),
    }
}

/// Registration of one identifier per backing index of a data stream.
pub open spec fn spec_register_indices(
    m: LookupModel<DataStream>,
    indices: Seq<Index>,
) -> LookupModel<DataStream>
    decreases indices.len(),
{
    if indices.len() == 0 {
        m
    } else {
        spec_with_id(spec_register_indices(m, indices.drop_last()), indices.last().index_name@)
    }
}

/// Registration of one data-stream record: the record is appended, keyed by
/// stream name, and additionally keyed by each backing index's name.
pub open spec fn spec_register_stream(
    m: LookupModel<DataStream>,
    stream: DataStream,
) -> LookupModel<DataStream> {
    spec_register_indices(spec_with_name(spec_add(m, stream), stream.name@), stream.indices@)
}

/// The data-stream lookup built from the payload's records in order.
pub open spec fn spec_data_stream_lookup(streams: Seq<DataStream>) -> LookupModel<DataStream>
    decreases streams.len(),
{
    if streams.len() == 0 {
        spec_empty_lookup()
    } else {
        spec_register_stream(spec_data_stream_lookup(streams.drop_last()), streams.last())
    }
}

/// Registration of one settings entry: the record is appended, keyed by the
/// index name the payload listed it under and by the index UUID.
pub open spec fn spec_register_settings(
    m: LookupModel<IndexSettings>,
    name: String,
    settings: Settings,
) -> LookupModel<IndexSettings> {
    spec_with_id(
        spec_with_name(spec_add(m, settings.settings.index), name@),
        settings.settings.index.uuid@,
    )
}

/// The index-settings lookup built from the payload's entries in order.
pub open spec fn spec_index_settings_lookup(entries: Seq<(String, Settings)>) -> LookupModel<
    IndexSettings,
>
    decreases entries.len(),
{
    if entries.len() == 0 {
        spec_empty_lookup()
    } else {
        spec_register_settings(
            spec_index_settings_lookup(entries.drop_last()),
            entries.last().0,
            entries.last().1,
        )
    }
}

/// Registration of one node entry: the record is appended, keyed by the
/// node identifier the payload listed it under and by its display name.
pub open spec fn spec_register_node(
    m: LookupModel<Node>,
    id: String,
    node: Node,
) -> LookupModel<Node> {
    spec_with_name(spec_with_id(spec_add(m, node), id@), node.name@)
}

/// The node lookup built from the payload's entries in order.
pub open spec fn spec_node_lookup(entries: Seq<(String, Node)>) -> LookupModel<Node>
    decreases entries.len(),
{
    if entries.len() == 0 {
        spec_empty_lookup()
    } else {
        spec_register_node(
            spec_node_lookup(entries.drop_last()),
            entries.last().0,
            entries.last().1,
        )
    }
}

/// Builds the data-stream lookup, consuming the payload's records in order.
pub fn data_stream_lookup(payload: DataStreams) -> (r: Lookup<DataStream>)
    ensures
        r.wf(),
        r@ == spec_data_stream_lookup(payload.data_streams@),
{
    let ghost orig = payload.data_streams@;
    let mut streams = payload.data_streams;
    let mut lookup = Lookup::<DataStream>::new();
    proof {
        assert(lookup@ =~= spec_data_stream_lookup(orig.take(0)));
        assert(streams@ =~= orig.skip(0));
    }
    let ghost mut i: int = 0;
    while streams.len() > 0
        invariant
            0 <= i <= orig.len(),
            streams@ =~= orig.skip(i),
            lookup.wf(),
            lookup@ == spec_data_stream_lookup(orig.take(i)),
        decreases streams@.len(),
    {
        let stream = streams.remove(0);
        proof {
            assert(stream == orig[i]);
            assert(streams@ =~= orig.skip(i + 1));
        }
        let name = stream.name.clone();
        let mut index_names: Vec<String> = Vec::new();
        let mut j: usize = 0;
        while j < stream.indices.len()
            invariant
                j <= stream.indices@.len(),
                index_names@.len() == j,
                forall|k: int| 0 <= k < j ==> index_names@[k] == stream.indices@[k].index_name,
            decreases stream.indices@.len() - j,
        {
            index_names.push(stream.indices[j].index_name.clone());
            j = j + 1;
        }
        let ghost indices = stream.indices@;
        let ghost named = spec_with_name(spec_add(lookup@, stream), stream.name@);
        lookup.add(stream);
        lookup.with_name(name.as_str());
        let mut k: usize = 0;
        proof {
            assert(lookup@ == spec_register_indices(named, indices.take(0)));
        }
        while k < index_names.len()
            invariant
                k <= index_names@.len(),
                index_names@.len() == indices.len(),
                forall|t: int| 0 <= t < indices.len() ==> index_names@[t] == indices[t].index_name,
                lookup.wf(),
                lookup@.entries.len() > 0,
                lookup@ == spec_register_indices(named, indices.take(k as int)),
            decreases index_names@.len() - k,
        {
            lookup.with_id(index_names[k].as_str());
            proof {
                assert(indices.take(k + 1).drop_last() =~= indices.take(k as int));
                assert(indices.take(k + 1).last() == indices[k as int]);
            }
            k = k + 1;
        }
        proof {
            assert(indices.take(indices.len() as int) =~= indices);
            assert(orig.take(i + 1).drop_last() =~= orig.take(i));
            assert(orig.take(i + 1).last() == orig[i]);
            i = i + 1;
        }
    }
    proof {
        assert(orig.take(orig.len() as int) =~= orig);
    }
    lookup
}

/// Builds the index-settings lookup, consuming the payload's entries in order.
pub fn index_settings_lookup(payload: IndicesSettings) -> (r: Lookup<IndexSettings>)
    ensures
        r.wf(),
        r@ == spec_index_settings_lookup(payload@),
{
    let ghost orig = payload@;
    let mut entries = payload;
    let mut lookup = Lookup::<IndexSettings>::new();
    proof {
        assert(lookup@ =~= spec_index_settings_lookup(orig.take(0)));
        assert(entries@ =~= orig.skip(0));
    }
    let ghost mut i: int = 0;
    while entries.len() > 0
        invariant
            0 <= i <= orig.len(),
            entries@ =~= orig.skip(i),
            lookup.wf(),
            lookup@ == spec_index_settings_lookup(orig.take(i)),
        decreases entries@.len(),
    {
        let (name, settings) = entries.remove(0);
        proof {
            assert((name, settings) == orig[i]);
            assert(entries@ =~= orig.skip(i + 1));
        }
        let uuid = settings.settings.index.uuid.clone();
        lookup.add(settings.settings.index);
        lookup.with_name(name.as_str());
        lookup.with_id(uuid.as_str());
        proof {
            assert(orig.take(i + 1).drop_last() =~= orig.take(i));
            assert(orig.take(i + 1).last() == orig[i]);
            i = i + 1;
        }
    }
    proof {
        assert(orig.take(orig.len() as int) =~= orig);
    }
    lookup
}

/// Builds the node lookup, consuming the payload's entries in order.
pub fn node_lookup(payload: Nodes) -> (r: Lookup<Node>)
    ensures
        r.wf(),
        r@ == spec_node_lookup(payload.nodes@),
{
    let ghost orig = payload.nodes@;
    let mut entries = payload.nodes;
    let mut lookup = Lookup::<Node>::new();
    proof {
        assert(lookup@ =~= spec_node_lookup(orig.take(0)));
        assert(entries@ =~= orig.skip(0));
    }
    let ghost mut i: int = 0;
    while entries.len() > 0
        invariant
            0 <= i <= orig.len(),
            entries@ =~= orig.skip(i),
            lookup.wf(),
            lookup@ == spec_node_lookup(orig.take(i)),
        decreases entries@.len(),
    {
        let (id, node) = entries.remove(0);
        proof {
            assert((id, node) == orig[i]);
            assert(entries@ =~= orig.skip(i + 1));
        }
        let name = node.name.clone();
        lookup.add(node);
        lookup.with_id(id.as_str());
        lookup.with_name(name.as_str());
        proof {
            assert(orig.take(i + 1).drop_last() =~= orig.take(i));
            assert(orig.take(i + 1).last() == orig[i]);
            i = i + 1;
        }
    }
    proof {
        assert(orig.take(orig.len() as int) =~= orig);
    }
    lookup
}

} // verus!
