//! Node identifiers and the xor distance that orders the overlay.
//!
//! A node id is a fixed-width identifier derived from the node's public key:
//! the value of the key's leading bytes, read big-endian. Topological
//! closeness between two nodes is the xor of their ids; because xor by a
//! fixed id is injective, two distinct peers are never equidistant from the
//! local node, so ranking by distance needs no tie-break.

use vstd::prelude::*;

verus! {

/// How many leading key bytes make up a node id.
pub const NODE_ID_BYTES: usize = 8;

/// A fixed-width identifier of a node on the network.
#[derive(Clone, Copy, Debug, PartialEq, Eq, Structural)]
pub struct NodeId {
    pub id: u64,
}

/// The value of the first `k` bytes of `s`, read big-endian.
pub open spec fn byte_prefix_value(s: Seq<u8>, k: int) -> int
    decreases k,
{
    if k <= 0 {
        0
    } else {
        byte_prefix_value(s, k - 1) * 256 + s[k - 1]
    }
}

/// `256^k`, the count of values of `k` bytes.
pub open spec fn pow256(k: int) -> int
    decreases k,
{
    if k <= 0 {
        1
    } else {
        256 * pow256(k - 1)
    }
}

/// The id that a public key derives to: the value of its leading bytes —
/// all of them when the key is shorter than the id width.
pub open spec fn spec_node_id_of(key: Seq<u8>) -> int {
    if key.len() < NODE_ID_BYTES {
        byte_prefix_value(key, key.len() as int)
    } else {
        byte_prefix_value(key, NODE_ID_BYTES as int)
    }
}

/// The value of a byte prefix fits in as many bytes as it reads.
proof fn lemma_byte_prefix_value_bound(s: Seq<u8>, k: int)
    requires
        0 <= k <= s.len(),
    ensures
        0 <= byte_prefix_value(s, k) < pow256(k),
    decreases k,
{
    if k > 0 {
        lemma_byte_prefix_value_bound(s, k - 1);
    }
}

/// A value of at most eight bytes fits in a machine word.
proof fn lemma_pow256_fits_u64(k: int)
    requires
        0 <= k <= 8,
    ensures
        pow256(k) <= 0x10000000000000000,
{
    assert(pow256(0) == 1);
    assert(pow256(1) == 0x100);
    assert(pow256(2) == 0x10000);
    assert(pow256(3) == 0x1000000);
    assert(pow256(4) == 0x100000000);
    assert(pow256(5) == 0x10000000000);
    assert(pow256(6) == 0x1000000000000);
    assert(pow256(7) == 0x100000000000000);
    assert(pow256(8) == 0x10000000000000000);
}

impl NodeId {
    /// Derives the id of a public key: the big-endian value of its leading
    /// bytes.
    pub fn from_public_key(key: &Vec<u8>) -> (r: NodeId)
        requires
            key@.len() >= 1,
        ensures
            r.id == spec_node_id_of(key@),
    {
        let m: usize = if key.len() < NODE_ID_BYTES {
            key.len()
        } else {
            NODE_ID_BYTES
        };
        let mut acc: u64 = 0;
        let mut i: usize = 0;
        while i < m
            invariant
                0 <= i <= m <= NODE_ID_BYTES,
                m <= key@.len(),
                acc == byte_prefix_value(key@, i as int),
            decreases m - i,
        {
            proof {
                lemma_byte_prefix_value_bound(key@, i as int);
                lemma_byte_prefix_value_bound(key@, i + 1);
                lemma_pow256_fits_u64(i + 1);
            }
            acc = acc * 256 + (key[i] as u64);
            i = i + 1;
        }
        NodeId { id: acc }
    }

    /// The xor distance between this id and another.
    pub fn distance(&self, other: &NodeId) -> (d: u64)
        ensures
            d == (self.id ^ other.id),
    {
        self.id ^ other.id
    }
}

/// Law: distances from one node to two distinct nodes are distinct, so
/// ranking peers by distance to the local id never ties.
pub proof fn lemma_distance_injective(local: u64, a: u64, b: u64)
    requires
        (local ^ a) == (local ^ b),
    ensures
        a == b,
{
    assert((local ^ a) == (local ^ b) ==> a == b) by (bit_vector);
}

} // verus!
