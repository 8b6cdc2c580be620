//! Extraction: the join of the statistics payload against the lookups.

use eshipster::extract_shard_docs;
use eshipster::parse_shard_number;
use eshipster::BalanceError;
use eshipster::DataStream;
use eshipster::DataStreams;
use eshipster::IndexSettings;
use eshipster::IndexStats;
use eshipster::IndicesStats;
use eshipster::Lookups;
use eshipster::Node;
use eshipster::Nodes;
use eshipster::Settings;
use eshipster::ShardRouting;
use eshipster::ShardStats;
use eshipster::data_streams;
use eshipster::indices_settings;

fn replica(node_id: &str, primary: bool) -> ShardStats {
    ShardStats {
        routing: ShardRouting {
            node: node_id.to_string(),
            primary,
            relocating_node: None,
            state: "STARTED".to_string(),
        },
        ..Default::default()
    }
}

fn node(name: &str, roles: &[&str]) -> Node {
    Node {
        name: name.to_string(),
        roles: roles.iter().map(|r| r.to_string()).collect(),
        ..Default::default()
    }
}

fn nodes_payload(entries: Vec<(&str, Node)>) -> Nodes {
    Nodes {
        cluster_name: Some("test-cluster".to_string()),
        nodes: entries.into_iter().map(|(id, n)| (id.to_string(), n)).collect(),
    }
}

fn index_stats(shards: Vec<(&str, Vec<ShardStats>)>) -> IndexStats {
    IndexStats {
        shards: shards.into_iter().map(|(k, v)| (k.to_string(), v)).collect(),
        uuid: "uuid-1".to_string(),
        ..Default::default()
    }
}

fn stats_payload(indices: Vec<(&str, IndexStats)>) -> IndicesStats {
    IndicesStats {
        indices: indices.into_iter().map(|(k, v)| (k.to_string(), v)).collect(),
    }
}

fn settings_for(name: &str) -> (String, Settings) {
    (
        name.to_string(),
        Settings {
            settings: indices_settings::Index {
                index: IndexSettings {
                    uuid: format!("uuid-{name}"),
                    provided_name: name.to_string(),
                    ..Default::default()
                },
            },
        },
    )
}

fn stream_over(name: &str, member_indices: &[&str]) -> DataStream {
    DataStream {
        name: name.to_string(),
        indices: member_indices
            .iter()
            .map(|ix| data_streams::Index {
                index_name: ix.to_string(),
                index_uuid: format!("uuid-{ix}"),
                prefer_ilm: None,
                ilm_policy: None,
                managed_by: None,
            })
            .collect(),
        ..Default::default()
    }
}

fn one_node_lookups() -> Lookups {
    Lookups::new(
        DataStreams {
            data_streams: vec![stream_over("logs-stream", &["idx-1"])],
        },
        vec![settings_for("idx-1")],
        nodes_payload(vec![("n1", node("node-one", &["data_hot"]))]),
    )
}

#[test]
fn extraction_flattens_replicas() {
    let lookups = one_node_lookups();
    let stats = stats_payload(vec![(
        "idx-1",
        index_stats(vec![("0", vec![replica("n1", true), replica("n1", false)])]),
    )]);
    let docs = extract_shard_docs(stats, &lookups, 7).expect("extraction should succeed");
    assert_eq!(docs.len(), 2);
    assert_eq!(docs[0].shard_number(), 0);
    assert!(docs[0].primary());
    assert!(!docs[1].primary());
}

#[test]
fn bad_shard_key_drops_only_its_records() {
    let lookups = one_node_lookups();
    let stats = stats_payload(vec![(
        "idx-1",
        index_stats(vec![
            ("0", vec![replica("n1", true)]),
            ("abc", vec![replica("n1", true), replica("n1", false)]),
            ("1", vec![replica("n1", true)]),
        ]),
    )]);
    let docs = extract_shard_docs(stats, &lookups, 7).expect("extraction should succeed");
    let numbers: Vec<u16> = docs.iter().map(|d| d.shard_number()).collect();
    assert_eq!(numbers, vec![0, 1]);
}

#[test]
fn missing_node_aborts_with_descriptive_error() {
    let lookups = one_node_lookups();
    let stats = stats_payload(vec![(
        "idx-1",
        index_stats(vec![("0", vec![replica("missing-node", true)])]),
    )]);
    let err = extract_shard_docs(stats, &lookups, 7).expect_err("extraction must fail");
    assert_eq!(err, BalanceError::NodeNotFound("missing-node".to_string()));
    let message = err.message();
    assert!(message.contains("missing-node"));
}

#[test]
fn missing_node_under_bad_key_is_not_reached() {
    // The unparseable key is dropped before node resolution, so the
    // unknown node under it never aborts the run.
    let lookups = one_node_lookups();
    let stats = stats_payload(vec![(
        "idx-1",
        index_stats(vec![("abc", vec![replica("missing-node", true)])]),
    )]);
    let docs = extract_shard_docs(stats, &lookups, 7).expect("extraction should succeed");
    assert!(docs.is_empty());
}

#[test]
fn extraction_is_idempotent_on_frozen_inputs() {
    let build = || {
        let lookups = one_node_lookups();
        let stats = stats_payload(vec![(
            "idx-1",
            index_stats(vec![
                ("1", vec![replica("n1", false)]),
                ("0", vec![replica("n1", true), replica("n1", false)]),
            ]),
        )]);
        extract_shard_docs(stats, &lookups, 42).expect("extraction should succeed")
    };
    let first = build();
    let second = build();
    assert_eq!(first, second);
}

#[test]
fn enrichment_carries_settings_and_stream() {
    let lookups = one_node_lookups();
    let stats = stats_payload(vec![("idx-1", index_stats(vec![("0", vec![replica("n1", true)])]))]);
    let docs = extract_shard_docs(stats, &lookups, 7).expect("extraction should succeed");
    let doc = &docs[0];
    let settings = doc.enrich.index.as_ref().expect("index enrichment expected");
    assert_eq!(settings.name, Some("idx-1".to_string()));
    assert_eq!(settings.data_stream, Some("logs-stream".to_string()));
    assert_eq!(doc.data_stream_name(), "logs-stream");
    assert_eq!(doc.index_name(), "idx-1");
    let node_data = doc.enrich.node.as_ref().expect("node enrichment expected");
    assert_eq!(node_data.id, "n1");
    assert_eq!(node_data.name, "node-one");
    assert_eq!(node_data.desired, None);
}

#[test]
fn unknown_index_leaves_enrichment_empty() {
    let lookups = one_node_lookups();
    let stats = stats_payload(vec![(
        "idx-unlisted",
        index_stats(vec![("0", vec![replica("n1", true)])]),
    )]);
    let docs = extract_shard_docs(stats, &lookups, 7).expect("extraction should succeed");
    assert!(docs[0].enrich.index.is_none());
    assert_eq!(docs[0].data_stream_name(), "");
    assert_eq!(docs[0].index_name(), "");
}

#[test]
fn every_document_shares_the_run_timestamp() {
    let lookups = one_node_lookups();
    let stats = stats_payload(vec![(
        "idx-1",
        index_stats(vec![("0", vec![replica("n1", true), replica("n1", false)])]),
    )]);
    let docs = extract_shard_docs(stats, &lookups, 1700000000).expect("extraction should succeed");
    assert!(docs.iter().all(|d| d.timestamp == 1700000000));
}

#[test]
fn empty_payload_yields_no_documents() {
    let lookups = one_node_lookups();
    let docs = extract_shard_docs(stats_payload(vec![]), &lookups, 7)
        .expect("extraction should succeed");
    assert!(docs.is_empty());
}

#[test]
fn parse_accepts_decimal_shard_keys() {
    assert_eq!(parse_shard_number("0"), Some(0));
    assert_eq!(parse_shard_number("42"), Some(42));
    assert_eq!(parse_shard_number("007"), Some(7));
    assert_eq!(parse_shard_number("65535"), Some(65535));
}

#[test]
fn parse_rejects_everything_else() {
    assert_eq!(parse_shard_number(""), None);
    assert_eq!(parse_shard_number("abc"), None);
    assert_eq!(parse_shard_number("4a"), None);
    assert_eq!(parse_shard_number("-1"), None);
    assert_eq!(parse_shard_number("+5"), None);
    assert_eq!(parse_shard_number("4 2"), None);
    assert_eq!(parse_shard_number("65536"), None);
    assert_eq!(parse_shard_number("999999999999"), None);
}
