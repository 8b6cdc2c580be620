//! The lookup bundle: per-resource key registration policies.

use eshipster::data_streams;
use eshipster::indices_settings;
use eshipster::DataStream;
use eshipster::DataStreams;
use eshipster::IndexSettings;
use eshipster::Lookups;
use eshipster::Node;
use eshipster::Nodes;
use eshipster::Settings;

fn stream_index(name: &str) -> data_streams::Index {
    data_streams::Index {
        index_name: name.to_string(),
        index_uuid: format!("uuid-{name}"),
        prefer_ilm: None,
        ilm_policy: None,
        managed_by: None,
    }
}

fn bundle() -> Lookups {
    let data_streams = DataStreams {
        data_streams: vec![DataStream {
            name: "logs-stream".to_string(),
            indices: vec![stream_index("backing-1"), stream_index("backing-2")],
            ..Default::default()
        }],
    };
    let indices_settings = vec![(
        "backing-1".to_string(),
        Settings {
            settings: indices_settings::Index {
                index: IndexSettings {
                    uuid: "uuid-backing-1".to_string(),
                    provided_name: "backing-1".to_string(),
                    ..Default::default()
                },
            },
        },
    )];
    let nodes = Nodes {
        cluster_name: None,
        nodes: vec![(
            "node-id-1".to_string(),
            Node {
                name: "node-name-1".to_string(),
                roles: vec!["data_hot".to_string()],
                ..Default::default()
            },
        )],
    };
    Lookups::new(data_streams, indices_settings, nodes)
}

#[test]
fn stream_is_keyed_by_name_and_by_every_backing_index() {
    let lookups = bundle();
    assert_eq!(lookups.data_stream.len(), 1);
    let by_name = lookups.data_stream.by_name("logs-stream").expect("stream by name");
    assert_eq!(by_name.name, "logs-stream");
    // One stored record, indexed under each member index's name.
    let via_first = lookups.data_stream.by_id("backing-1").expect("stream by member");
    let via_second = lookups.data_stream.by_id("backing-2").expect("stream by member");
    assert_eq!(via_first.name, "logs-stream");
    assert_eq!(via_second.name, "logs-stream");
    assert!(lookups.data_stream.by_id("logs-stream").is_none());
}

#[test]
fn settings_are_keyed_by_index_name_and_uuid() {
    let lookups = bundle();
    assert_eq!(lookups.index.len(), 1);
    let by_name = lookups.index.by_name("backing-1").expect("settings by name");
    assert_eq!(by_name.uuid, "uuid-backing-1");
    let by_uuid = lookups.index.by_id("uuid-backing-1").expect("settings by uuid");
    assert_eq!(by_uuid.provided_name, "backing-1");
}

#[test]
fn nodes_are_keyed_by_identifier_and_display_name() {
    let lookups = bundle();
    assert_eq!(lookups.node.len(), 1);
    let by_id = lookups.node.by_id("node-id-1").expect("node by id");
    assert_eq!(by_id.name, "node-name-1");
    let by_name = lookups.node.by_name("node-name-1").expect("node by name");
    assert_eq!(by_name.roles, vec!["data_hot".to_string()]);
    assert!(lookups.node.by_id("node-name-1").is_none());
}
