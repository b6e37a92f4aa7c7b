//! Peillute: a distributed payment ledger whose nodes keep their databases in step.
//!
//! The library holds the logic of a node, verified with Verus:
//! - `sitemap`: maps keyed by site identifiers, in insertion order;
//! - `clock`: Lamport and vector clocks, with the laws of their merge;
//! - `snapshot`: consistency of local snapshots and their combination into a global one;
//! - `state`: a node's state, the wave protocol and the global mutual exclusion;
//! - `addr`: node addresses as plain values;
//! - `message`: message kinds and the payloads without money amounts;
//! - `control`: parsing of command lines;
//! - `network`: what may be sent, and to whom;
//! - `db`: the checks of deposits, withdrawals, transactions and refunds;
//! - `utils`: naming a site by its MAC address, and snapshot file names.

pub mod sitemap;
pub mod clock;
pub mod message;
pub mod snapshot;
pub mod addr;
pub mod state;
pub mod control;
pub mod network;
pub mod utils;
pub mod db;
