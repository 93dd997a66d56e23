//! Peers and the local node identity.

use vstd::prelude::*;
use crate::node_id::{spec_node_id_of, NodeId};

verus! {

/// Role a peer plays on the network.
#[derive(Clone, Copy, Debug, PartialEq, Eq, Structural)]
pub enum PeerFeatures {
    /// A full node that stores and forwards messages.
    CommunicationNode,
    /// A client that only sends and receives its own traffic.
    CommunicationClient,
}

/// A known remote node: identity, addresses, feature flags, and when it
/// was last seen.
#[derive(Clone, Debug)]
pub struct Peer {
    pub node_id: NodeId,
    pub public_key: Vec<u8>,
    pub addresses: Vec<String>,
    pub features: PeerFeatures,
    /// When the node last heard from this peer, if ever.
    pub last_seen_ms: Option<u64>,
}

impl Peer {
    /// A peer is well formed when its key is not empty and its id is the one
    /// the key derives to.
    pub open spec fn wf(self) -> bool {
        &&& self.public_key@.len() >= 1
        &&& self.node_id.id == spec_node_id_of(self.public_key@)
    }

    /// Builds a peer from its public key, deriving the node id; the peer
    /// has not been seen yet.
    pub fn new(public_key: Vec<u8>, addresses: Vec<String>, features: PeerFeatures) -> (r: Peer)
        requires
            public_key@.len() >= 1,
        ensures
            r.wf(),
            r.public_key == public_key,
            r.addresses == addresses,
            r.features == features,
            r.last_seen_ms is None,
    {
        let node_id = NodeId::from_public_key(&public_key);
        Peer { node_id, public_key, addresses, features, last_seen_ms: None }
    }

    /// Records that the peer was heard from at the given instant.
    pub fn mark_seen(&mut self, at_ms: u64)
        requires
            old(self).wf(),
        ensures
            final(self).wf(),
            final(self).last_seen_ms == Some(at_ms),
            final(self).node_id == old(self).node_id,
            final(self).public_key == old(self).public_key,
            final(self).addresses == old(self).addresses,
            final(self).features == old(self).features,
    {
        self.last_seen_ms = Some(at_ms);
    }
}

/// The local node's long-term identity: key pair handle, derived id, public
/// address and features. The secret key itself stays outside this model.
#[derive(Clone, Debug)]
pub struct NodeIdentity {
    pub node_id: NodeId,
    pub public_key: Vec<u8>,
    pub public_address: String,
    pub features: PeerFeatures,
}

impl NodeIdentity {
    /// The identity's id is the one its key derives to.
    pub open spec fn wf(self) -> bool {
        &&& self.public_key@.len() >= 1
        &&& self.node_id.id == spec_node_id_of(self.public_key@)
    }

    /// Builds the local identity from its public key, deriving the node id.
    pub fn new(public_key: Vec<u8>, public_address: String, features: PeerFeatures) -> (r:
        NodeIdentity)
        requires
            public_key@.len() >= 1,
        ensures
            r.wf(),
            r.public_key == public_key,
            r.public_address == public_address,
            r.features == features,
    {
        let node_id = NodeId::from_public_key(&public_key);
        NodeIdentity { node_id, public_key, public_address, features }
    }

    /// Whether this node offers a feature: a communication node stores and
    /// forwards, a client does not.
    pub fn is_communication_node(&self) -> (r: bool)
        ensures
            r == (self.features is CommunicationNode),
    {
        match self.features {
            PeerFeatures::CommunicationNode => true,
            PeerFeatures::CommunicationClient => false,
        }
    }
}

} // verus!
