//! The cluster-nodes payload.
//!
//! Each entry pairs a node identifier with the node's record.  The lookup
//! built from this payload is keyed by node identifier and by display name.
//! Shard documents carry a flattened [`NodeData`] copy of their hosting
//! node, which is also where the rebalance pass writes the advisory
//! desired-target-node.

use vstd::prelude::*;

use crate::lookup::LookupDisplay;

verus! {

#[derive(Debug, Default, PartialEq, Eq)]
pub struct Node {
    pub host: String,
    pub ip: String,
    pub name: String,
    pub roles: Vec<String>,
    pub version: String,
}

#[derive(Debug, Default, PartialEq, Eq)]
pub struct Nodes {
    pub cluster_name: Option<String>,
    /// Node identifier paired with the node record.
    pub nodes: Vec<(String, Node)>,
}

/// The flattened per-document copy of a hosting node.
#[derive(Debug, Default, PartialEq, Eq)]
pub struct NodeData {
    pub host: String,
    pub id: String,
    pub ip: String,
    pub name: String,
    pub version: String,
    /// The advisory target node, filled in by the rebalance pass.
    pub desired: Option<String>,
}

impl Clone for NodeData {
    fn clone(&self) -> (res: Self)
        ensures
            res == *self,
    {
        NodeData {
            host: self.host.clone(),
            id: self.id.clone(),
            ip: self.ip.clone(),
            name: self.name.clone(),
            version: self.version.clone(),
            desired: self.desired.clone(),
        }
    }
}

impl NodeData {
    /// The same record under another display name.
    pub fn rename(self, name: &String) -> (res: Self)
        ensures
            res == (NodeData { name: *name, ..self }),
    {
        NodeData { name: name.clone(), ..self }
    }
}

impl Node {
    /// The flattened copy of this node that shard documents carry, under
    /// the identifier the node lookup knows it by.
    pub fn to_data(&self, id: &String) -> (res: NodeData)
        ensures
            res == spec_node_data(*self, *id),
    {
        NodeData {
            host: self.host.clone(),
            id: id.clone(),
            ip: self.ip.clone(),
            name: self.name.clone(),
            version: self.version.clone(),
            desired: None,
        }
    }
}

/// The flattened copy of `node` under identifier `id`, with no desired
/// target assigned yet.
pub open spec fn spec_node_data(node: Node, id: String) -> NodeData {
    NodeData {
        host: node.host,
        id: id,
        ip: node.ip,
        name: node.name,
        version: node.version,
        desired: None,
    }
}

impl LookupDisplay for Node {
    fn display() -> &'static str {
        "nodes"
    }
}

impl LookupDisplay for NodeData {
    fn display() -> &'static str {
        "node_data"
    }
}

} // verus!
