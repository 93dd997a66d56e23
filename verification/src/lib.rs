//! Core logic of a peer-to-peer networking substrate: peer identity and
//! directory management, bounded connection pools, flood propagation with
//! loop suppression, an RPC session protocol with a typed error taxonomy,
//! seed-peer parsing, transport selection, and the exclusive-lock guard for
//! the persistent peer store.

pub mod config;
pub mod connectivity;
pub mod directory;
pub mod factories;
pub mod framing;
pub mod guard;
pub mod init;
pub mod node_id;
pub mod peer;
pub mod pipeline;
pub mod pool;
pub mod propagation;
pub mod random;
pub mod rpc;
pub mod seeds;
pub mod session;
pub mod text;
pub mod transport;
