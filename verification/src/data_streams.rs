//! The data-stream metadata payload.
//!
//! One record per data stream, each listing the backing indices that
//! currently belong to the stream.  The lookup built from this payload is
//! keyed by stream name and, one key per backing index, by member index
//! name, so that a shard's owning stream can be found from its index.

use vstd::prelude::*;

use crate::lookup::LookupDisplay;

verus! {

#[derive(Debug, Default, PartialEq, Eq)]
pub struct DataStreams {
    pub data_streams: Vec<DataStream>,
}

pub type Indices = Vec<Index>;

#[derive(Debug, Default, PartialEq, Eq)]
pub struct DataStream {
    pub generation: u64,
    pub hidden: Option<bool>,
    pub ilm_policy: Option<String>,
    pub indices: Indices,
    pub name: String,
    pub status: String,
    pub template: String,
    pub timestamp_field: TimestampField,
}

#[derive(Debug, Default, PartialEq, Eq)]
pub struct TimestampField {
    pub name: String,
}

#[derive(Debug, Default, PartialEq, Eq)]
pub struct Index {
    pub index_name: String,
    pub index_uuid: String,
    pub prefer_ilm: Option<bool>,
    pub ilm_policy: Option<String>,
    pub managed_by: Option<String>,
}

impl LookupDisplay for DataStream {
    fn display() -> &'static str {
        "data_stream"
    }
}

} // verus!
