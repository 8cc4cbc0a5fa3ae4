//! Mesh sync: the operation envelope that peers exchange, and an in-memory
//! mesh that records what is broadcast.
use vstd::prelude::*;
use crate::json::Json;

verus! {

/// A CRDT operation envelope.
#[derive(Debug, Clone)]
pub struct Operation {
    pub op_type: OpType,
    pub target: String,
    pub value: Option<Json>,
    pub lamport: u64,
    pub origin: String,
}

/// The kind of an operation.
#[derive(Debug, Clone, Copy, PartialEq, Eq)]
pub enum OpType {
    Insert,
    Delete,
    Update,
    Move,
}

/// A mesh peer: can send and receive operations.
pub trait MeshPeer {
    fn send(&mut self, op: Operation);

    fn receive(&mut self) -> Option<Operation>;
}

/// A simple in-memory mesh: a log of every broadcast operation, in order.
pub struct MockMesh {
    pub log: Vec<Operation>,
}

impl MockMesh {
    /// An empty mesh.
    pub fn new() -> (r: Self)
        ensures
            r.log@ == Seq::<Operation>::empty(),
    {
        Self { log: Vec::new() }
    }

    /// Broadcast an operation: it is appended to the log.
    pub fn broadcast(&mut self, op: Operation)
        ensures
            final(self).log@ == old(self).log@.push(op),
    {
        self.log.push(op);
    }
}

impl Default for MockMesh {
    fn default() -> (r: Self)
        ensures
            r.log@ == Seq::<Operation>::empty(),
    {
        Self::new()
    }
}

} // verus!
