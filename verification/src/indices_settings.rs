//! The per-index settings payload.
//!
//! Each entry pairs an index name with that index's settings record.  The
//! lookup built from this payload is keyed by index name and by index UUID.
//! During extraction a settings record is copied into every shard document
//! of its index, annotated with the index name it was resolved under and the
//! owning data stream, if one was found.

use vstd::prelude::*;

use crate::lookup::LookupDisplay;

verus! {

#[derive(Debug, Default, PartialEq, Eq)]
pub struct IndexSettings {
    pub codec: String,
    pub creation_date: Option<i64>,
    pub hidden: Option<String>,
    pub number_of_replicas: Option<i64>,
    pub number_of_shards: Option<i64>,
    pub provided_name: String,
    pub refresh_interval: String,
    pub uuid: String,
    /// The index name this record was resolved under; set during extraction.
    pub name: Option<String>,
    /// The name of the owning data stream, if one was resolved.
    pub data_stream: Option<String>,
}

impl Clone for IndexSettings {
    fn clone(&self) -> (res: Self)
        ensures
            res == *self,
    {
        IndexSettings {
            codec: self.codec.clone(),
            creation_date: self.creation_date,
            hidden: self.hidden.clone(),
            number_of_replicas: self.number_of_replicas,
            number_of_shards: self.number_of_shards,
            provided_name: self.provided_name.clone(),
            refresh_interval: self.refresh_interval.clone(),
            uuid: self.uuid.clone(),
            name: self.name.clone(),
            data_stream: self.data_stream.clone(),
        }
    }
}

impl IndexSettings {
    /// Annotates the record with the index name it was resolved under.
    pub fn with_name(self, name: &String) -> (res: Self)
        ensures
            res == (IndexSettings { name: Some(*name), ..self }),
    {
        IndexSettings { name: Some(name.clone()), ..self }
    }

    /// Attaches the name of the owning data stream, if one was resolved.
    pub fn with_data_stream(self, data_stream: Option<String>) -> (res: Self)
        ensures
            res == (IndexSettings { data_stream, ..self }),
    {
        IndexSettings { data_stream, ..self }
    }
}

/// One entry of the settings payload, as the settings API nests it.
#[derive(Debug, Default, PartialEq, Eq)]
pub struct Settings {
    pub settings: Index,
}

#[derive(Debug, Default, PartialEq, Eq)]
pub struct Index {
    pub index: IndexSettings,
}

/// The whole settings payload: index name paired with its settings record.
pub type IndicesSettings = Vec<(String, Settings)>;

impl LookupDisplay for IndexSettings {
    fn display() -> &'static str {
        "index_settings"
    }
}

/// The slice of an index settings record that is worth charting per shard.
#[derive(Debug, PartialEq, Eq)]
pub struct IndexData {
    pub codec: String,
    pub creation_date: Option<i64>,
    pub hidden: Option<String>,
    pub indexing_complete: Option<bool>,
    pub refresh_interval: String,
}

impl IndexData {
    pub fn new() -> (res: Self)
        ensures
            res.codec@ == Seq::<char>::empty(),
            res.creation_date is None,
            res.hidden is None,
            res.indexing_complete is None,
            res.refresh_interval@ == Seq::<char>::empty(),
    {
        IndexData {
            codec: String::new(),
            creation_date: None,
            hidden: None,
            indexing_complete: None,
            refresh_interval: String::new(),
        }
    }
}

impl Default for IndexData {
    fn default() -> (res: Self)
        ensures
            res.codec@ == Seq::<char>::empty(),
            res.creation_date is None,
            res.hidden is None,
            res.indexing_complete is None,
            res.refresh_interval@ == Seq::<char>::empty(),
    {
        IndexData::new()
    }
}

} // verus!
