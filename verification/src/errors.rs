//! The failures the pipeline distinguishes.
//!
//! A malformed shard-number key is not an error at all — the record is
//! skipped.  A shard that references a node the node lookup does not know
//! is fatal, because it means the input snapshots were captured from
//! inconsistent cluster states.  An empty candidate pool is fatal to the
//! rebalance pass, surfaced explicitly instead of as an arithmetic fault.

use vstd::prelude::*;
use vstd::string::StringExecFns;

verus! {

#[derive(Debug, PartialEq, Eq)]
pub enum BalanceError {
    /// A replica references this node identifier, which the node lookup
    /// does not contain: the snapshots are inconsistent and the run aborts.
    NodeNotFound(String),
    /// No node in the lookup carries the target role, so round robin has
    /// no pool to draw from.
    NoEligibleNode,
}

impl Clone for BalanceError {
    fn clone(&self) -> (res: Self)
        ensures
            res == *self,
    {
        match self {
            BalanceError::NodeNotFound(id) => BalanceError::NodeNotFound(id.clone()),
            BalanceError::NoEligibleNode => BalanceError::NoEligibleNode,
        }
    }
}

impl BalanceError {
    /// A human-readable description; the unknown-node variant names the
    /// missing identifier.
    pub fn message(&self) -> (res: String)
        ensures
            match self {
                BalanceError::NodeNotFound(id) => res@ == "shard references unknown node id: "@
                    + id@,
                BalanceError::NoEligibleNode => res@ == "no eligible node: no node carries the target role"@,
            },
    {
        match self {
            BalanceError::NodeNotFound(id) => {
                let prefix: String = "shard references unknown node id: ".to_owned();
                prefix.concat(id.as_str())
            },
            BalanceError::NoEligibleNode => "no eligible node: no node carries the target role".to_owned(),
        }
    }
}

} // verus!
