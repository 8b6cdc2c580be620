//! The lookup table: registration, retrieval and overwrite behaviour.

use eshipster::Lookup;
use eshipster::Node;

fn node_named(name: &str) -> Node {
    Node {
        name: name.to_string(),
        ..Default::default()
    }
}

#[test]
fn new_lookup_is_empty() {
    let lookup = Lookup::<Node>::new();
    assert_eq!(lookup.len(), 0);
    assert!(lookup.by_id("anything").is_none());
    assert!(lookup.by_name("anything").is_none());
}

#[test]
fn add_register_then_find() {
    let mut lookup = Lookup::<Node>::new();
    lookup.add(node_named("alpha"));
    lookup.with_id("id-alpha");
    lookup.with_name("alpha");
    assert_eq!(lookup.len(), 1);
    assert_eq!(lookup.by_id("id-alpha"), Some(&node_named("alpha")));
    assert_eq!(lookup.by_name("alpha"), Some(&node_named("alpha")));
}

#[test]
fn each_add_grows_by_one() {
    let mut lookup = Lookup::<Node>::new();
    lookup.add(node_named("one"));
    assert_eq!(lookup.len(), 1);
    lookup.add(node_named("two"));
    assert_eq!(lookup.len(), 2);
    lookup.add(node_named("three"));
    assert_eq!(lookup.len(), 3);
}

#[test]
fn reregistered_id_overwrites_only_the_pointer() {
    let mut lookup = Lookup::<Node>::new();
    lookup.add(node_named("old"));
    lookup.with_id("shared-id");
    lookup.with_name("old");
    lookup.add(node_named("new"));
    lookup.with_id("shared-id");
    // The id now resolves to the new record.
    assert_eq!(lookup.by_id("shared-id"), Some(&node_named("new")));
    // The old record is no longer reachable by id, but stays in the
    // insertion-ordered sequence and under its name.
    assert_eq!(lookup.len(), 2);
    assert_eq!(lookup.get_entries()[0], node_named("old"));
    assert_eq!(lookup.get_entries()[1], node_named("new"));
    assert_eq!(lookup.by_name("old"), Some(&node_named("old")));
}

#[test]
fn reregistered_name_overwrites_only_the_pointer() {
    let mut lookup = Lookup::<Node>::new();
    lookup.add(node_named("first"));
    lookup.with_name("shared-name");
    lookup.add(node_named("second"));
    lookup.with_name("shared-name");
    assert_eq!(lookup.by_name("shared-name"), Some(&node_named("second")));
    assert_eq!(lookup.get_entries()[0], node_named("first"));
}

#[test]
fn one_record_under_many_ids() {
    let mut lookup = Lookup::<Node>::new();
    lookup.add(node_named("stream"));
    lookup.with_name("stream");
    lookup.with_id("backing-1");
    lookup.with_id("backing-2");
    assert_eq!(lookup.len(), 1);
    assert_eq!(lookup.by_id("backing-1"), Some(&node_named("stream")));
    assert_eq!(lookup.by_id("backing-2"), Some(&node_named("stream")));
}

#[test]
fn entries_keep_insertion_order() {
    let mut lookup = Lookup::<Node>::new();
    lookup.add(node_named("a"));
    lookup.add(node_named("b"));
    lookup.add(node_named("c"));
    let names: Vec<String> = lookup.get_entries().iter().map(|n| n.name.clone()).collect();
    assert_eq!(names, vec!["a".to_string(), "b".to_string(), "c".to_string()]);
}
