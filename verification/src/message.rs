//! Messages exchanged between the nodes of the network.
//!
//! Payloads that carry an amount of money hold a float and are built by the
//! program around this library; the others stand here.

use vstd::prelude::*;
use crate::clock::Clock;
use crate::snapshot::TxSummary;

verus! {

/// Kinds of network message.
#[derive(Debug, Clone, Copy, PartialEq, Eq, Structural)]
pub enum NetworkMessageCode {
    /// Discovering other nodes in the network.
    Discovery,
    /// A financial transaction, spread by the wave protocol.
    Transaction,
    /// Acknowledges a transaction of a wave back towards its initiator.
    TransactionAcknowledgement,
    /// Acknowledges a discovery message.
    Acknowledgment,
    /// An error condition.
    Error,
    /// A node leaves the network.
    Disconnect,
    /// Asks for a local snapshot.
    SnapshotRequest,
    /// Carries a local snapshot.
    SnapshotResponse,
    /// A node asks for the global mutual exclusion.
    AcquireMutex,
    /// A node acknowledges a request for the global mutual exclusion.
    AckGlobalMutex,
    /// A node releases the global mutual exclusion.
    ReleaseGlobalMutex,
    /// A node asks to be brought up to date.
    Sync,
}

/// A node's answer to a snapshot request.
#[derive(Debug, Clone)]
pub struct SnapshotResponse {
    /// Identifier of the answering node.
    pub site_id: String,
    /// Logical clocks of the answering node.
    pub clock: Clock,
    /// Summaries of the transactions the node knows.
    pub tx_log: Vec<TxSummary>,
}

/// Request to create a user.
#[derive(Debug, Clone)]
pub struct CreateUser {
    /// Name of the user to create.
    pub name: String,
}

impl CreateUser {
    /// Creates the request for the given name.
    pub fn new(name: String) -> (r: Self)
        ensures
            r.name == name,
    {
        CreateUser { name }
    }
}

/// Request to refund a transaction.
#[derive(Debug, Clone)]
pub struct Refund {
    /// Name of the account.
    pub name: String,
    /// Lamport time of the transaction to refund.
    pub transac_time: i64,
    /// Node that recorded the transaction to refund.
    pub transac_node: String,
}

impl Refund {
    /// Creates the request from its parts.
    pub fn new(name: String, transac_time: i64, transac_node: String) -> (r: Self)
        ensures
            r.name == name,
            r.transac_time == transac_time,
            r.transac_node == transac_node,
    {
        Refund { name, transac_time, transac_node }
    }
}

} // verus!
