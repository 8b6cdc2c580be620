//! The rebalance pass: pool filtering, sorting and round-robin assignment.

use eshipster::candidate_pool;
use eshipster::evaluate_shard_balance;
use eshipster::rebalance_shards;
use eshipster::sort_shard_docs;
use eshipster::BalanceError;
use eshipster::DataStreams;
use eshipster::IndexSettings;
use eshipster::IndexStats;
use eshipster::IndicesStats;
use eshipster::Lookups;
use eshipster::Node;
use eshipster::NodeData;
use eshipster::Nodes;
use eshipster::ShardData;
use eshipster::ShardDoc;
use eshipster::ShardEnrich;
use eshipster::ShardRouting;
use eshipster::ShardStats;

fn node(name: &str, roles: &[&str]) -> Node {
    Node {
        name: name.to_string(),
        roles: roles.iter().map(|r| r.to_string()).collect(),
        ..Default::default()
    }
}

fn nodes_payload(entries: Vec<(&str, Node)>) -> Nodes {
    Nodes {
        cluster_name: None,
        nodes: entries.into_iter().map(|(id, n)| (id.to_string(), n)).collect(),
    }
}

fn lookups_with_nodes(entries: Vec<(&str, Node)>) -> Lookups {
    Lookups::new(
        DataStreams { data_streams: vec![] },
        vec![],
        nodes_payload(entries),
    )
}

fn doc(stream: &str, index: &str, number: u16, primary: bool) -> ShardDoc {
    ShardDoc {
        enrich: ShardEnrich {
            index: Some(IndexSettings {
                name: Some(index.to_string()),
                data_stream: Some(stream.to_string()),
                ..Default::default()
            }),
            node: Some(NodeData {
                id: "host-node".to_string(),
                name: "host-node".to_string(),
                ..Default::default()
            }),
        },
        shard: ShardData {
            number,
            routing: ShardRouting {
                node: "host-node".to_string(),
                primary,
                relocating_node: None,
                state: "STARTED".to_string(),
            },
        },
        stats: ShardStats::default(),
        timestamp: 7,
    }
}

fn desired_of(d: &ShardDoc) -> Option<String> {
    d.enrich.node.as_ref().and_then(|n| n.desired.clone())
}

#[test]
fn pool_keeps_only_the_target_role_in_order() {
    let lookups = lookups_with_nodes(vec![
        ("a", node("alpha", &["data_hot", "ingest"])),
        ("b", node("beta", &["data_cold"])),
        ("c", node("gamma", &["data_hot"])),
    ]);
    let pool = candidate_pool(&lookups.node, "data_hot");
    assert_eq!(pool, vec!["alpha".to_string(), "gamma".to_string()]);
}

#[test]
fn hot_nodes_alternate_and_cold_gets_nothing() {
    // Three nodes, two of them hot; six sorted documents must alternate
    // between the hot pair and never reach the cold node.
    let lookups = lookups_with_nodes(vec![
        ("a", node("node-a", &["data_hot"])),
        ("b", node("node-b", &["data_hot"])),
        ("c", node("node-c", &["data_cold"])),
    ]);
    let mut docs: Vec<ShardDoc> = (0..6).map(|n| doc("s", "i", n, true)).collect();
    rebalance_shards(&lookups, &mut docs, "data_hot").expect("rebalance should succeed");
    for (position, d) in docs.iter().enumerate() {
        let expected = if position % 2 == 0 { "node-a" } else { "node-b" };
        assert_eq!(desired_of(d), Some(expected.to_string()));
    }
    assert!(docs.iter().all(|d| desired_of(d) != Some("node-c".to_string())));
}

#[test]
fn empty_pool_is_an_explicit_error() {
    let lookups = lookups_with_nodes(vec![("c", node("node-c", &["data_cold"]))]);
    let mut docs = vec![doc("s", "i", 0, true)];
    let before = docs.clone();
    let err = rebalance_shards(&lookups, &mut docs, "data_hot").expect_err("must fail");
    assert_eq!(err, BalanceError::NoEligibleNode);
    assert!(err.message().contains("no eligible node"));
    assert_eq!(docs, before);
}

#[test]
fn empty_pool_fails_even_without_documents() {
    let lookups = lookups_with_nodes(vec![]);
    let mut docs: Vec<ShardDoc> = vec![];
    let err = rebalance_shards(&lookups, &mut docs, "data_hot").expect_err("must fail");
    assert_eq!(err, BalanceError::NoEligibleNode);
}

#[test]
fn sort_orders_by_the_composite_key() {
    let mut docs = vec![
        doc("s2", "i1", 0, true),
        doc("s1", "i2", 0, true),
        doc("s1", "i1", 1, true),
        doc("s1", "i1", 0, false),
        doc("s1", "i1", 0, true),
    ];
    sort_shard_docs(&mut docs);
    let keys: Vec<(String, String, u16, bool)> = docs
        .iter()
        .map(|d| (d.data_stream_name(), d.index_name(), d.shard_number(), d.primary()))
        .collect();
    assert_eq!(
        keys,
        vec![
            ("s1".to_string(), "i1".to_string(), 0, true),
            ("s1".to_string(), "i1".to_string(), 0, false),
            ("s1".to_string(), "i1".to_string(), 1, true),
            ("s1".to_string(), "i2".to_string(), 0, true),
            ("s2".to_string(), "i1".to_string(), 0, true),
        ]
    );
}

#[test]
fn rebalance_ignores_arrival_order() {
    let lookups = lookups_with_nodes(vec![
        ("a", node("node-a", &["data_hot"])),
        ("b", node("node-b", &["data_hot"])),
    ]);
    let forward: Vec<ShardDoc> = (0..5).map(|n| doc("s", "i", n, true)).collect();
    let mut reversed: Vec<ShardDoc> = forward.iter().rev().cloned().collect();
    let mut forward = forward;
    rebalance_shards(&lookups, &mut forward, "data_hot").expect("rebalance should succeed");
    rebalance_shards(&lookups, &mut reversed, "data_hot").expect("rebalance should succeed");
    assert_eq!(forward, reversed);
}

#[test]
fn round_robin_counts_are_fair() {
    // Seven documents over three hot nodes: counts must be 3, 2 and 2 —
    // between floor(7 / 3) and ceil(7 / 3) for every node.
    let lookups = lookups_with_nodes(vec![
        ("a", node("node-a", &["data_hot"])),
        ("b", node("node-b", &["data_hot"])),
        ("c", node("node-c", &["data_hot"])),
    ]);
    let mut docs: Vec<ShardDoc> = (0..7).map(|n| doc("s", "i", n, true)).collect();
    rebalance_shards(&lookups, &mut docs, "data_hot").expect("rebalance should succeed");
    let count = |name: &str| {
        docs.iter().filter(|d| desired_of(d) == Some(name.to_string())).count()
    };
    assert_eq!(count("node-a"), 3);
    assert_eq!(count("node-b"), 2);
    assert_eq!(count("node-c"), 2);
}

#[test]
fn documents_without_node_enrichment_stay_unassigned() {
    let lookups = lookups_with_nodes(vec![("a", node("node-a", &["data_hot"]))]);
    let mut bare = doc("s", "i", 0, true);
    bare.enrich.node = None;
    let mut docs = vec![bare];
    rebalance_shards(&lookups, &mut docs, "data_hot").expect("rebalance should succeed");
    assert!(docs[0].enrich.node.is_none());
}

#[test]
fn evaluate_runs_the_whole_pipeline() {
    let data_streams = DataStreams { data_streams: vec![] };
    let nodes = nodes_payload(vec![
        ("a", node("node-a", &["data_hot"])),
        ("b", node("node-b", &["data_hot"])),
    ]);
    let stats = IndicesStats {
        indices: vec![(
            "idx-1".to_string(),
            IndexStats {
                shards: vec![(
                    "0".to_string(),
                    vec![
                        ShardStats {
                            routing: ShardRouting {
                                node: "a".to_string(),
                                primary: true,
                                relocating_node: None,
                                state: "STARTED".to_string(),
                            },
                            ..Default::default()
                        },
                        ShardStats {
                            routing: ShardRouting {
                                node: "b".to_string(),
                                primary: false,
                                relocating_node: None,
                                state: "STARTED".to_string(),
                            },
                            ..Default::default()
                        },
                    ],
                )],
                uuid: "uuid-1".to_string(),
                ..Default::default()
            },
        )],
    };
    let docs = evaluate_shard_balance(data_streams, vec![], nodes, stats, "data_hot", 99)
        .expect("evaluation should succeed");
    assert_eq!(docs.len(), 2);
    // Primary sorts first and takes the first pool slot.
    assert!(docs[0].primary());
    assert_eq!(desired_of(&docs[0]), Some("node-a".to_string()));
    assert_eq!(desired_of(&docs[1]), Some("node-b".to_string()));
    assert!(docs.iter().all(|d| d.timestamp == 99));
}

#[test]
fn evaluate_surfaces_extraction_failure() {
    let nodes = nodes_payload(vec![("a", node("node-a", &["data_hot"]))]);
    let stats = IndicesStats {
        indices: vec![(
            "idx-1".to_string(),
            IndexStats {
                shards: vec![(
                    "0".to_string(),
                    vec![ShardStats {
                        routing: ShardRouting {
                            node: "missing-node".to_string(),
                            primary: true,
                            relocating_node: None,
                            state: "STARTED".to_string(),
                        },
                        ..Default::default()
                    }],
                )],
                uuid: "uuid-1".to_string(),
                ..Default::default()
            },
        )],
    };
    let err = evaluate_shard_balance(
        DataStreams { data_streams: vec![] },
        vec![],
        nodes,
        stats,
        "data_hot",
        99,
    )
    .expect_err("evaluation must fail");
    assert_eq!(err, BalanceError::NodeNotFound("missing-node".to_string()));
}
