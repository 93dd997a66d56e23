//! Flood propagation: loop suppression and bounded fan-out selection.
//!
//! Each node keeps a bounded set of recently seen message ids. A message
//! whose id is already in the set is dropped: it is neither handed to the
//! application again nor propagated further. Fan-out targets are drawn from
//! the connection pool, neighbours first and random members after them,
//! never more than the propagation factor, and never the immediate sender
//! nor a peer recorded as having seen the message.

use vstd::prelude::*;
use crate::node_id::NodeId;
use crate::pool::{contains_node, ConnectionPool};

verus! {

/// How many peers one node forwards a broadcast to, at most.
pub const PROPAGATION_FACTOR: usize = 4;

/// No message id occurs twice.
pub open spec fn distinct_msg_ids(s: Seq<u64>) -> bool {
    forall|i: int, j: int| 0 <= i < j < s.len() ==> #[trigger] s[i] != #[trigger] s[j]
}

/// The bounded set of recently seen message ids, oldest first.
pub struct RecentMessages {
    /// The ids, oldest first, without duplicates.
    pub ids: Vec<u64>,
    /// How many ids are remembered at most.
    pub cap: usize,
}

/// What the router does with an inbound broadcast message.
pub enum InboundDisposition {
    /// First sight: hand the message to the application and propagate it.
    Deliver,
    /// Already seen: neither deliver again nor propagate.
    Drop,
}

impl RecentMessages {
    /// Bounded, duplicate-free, with room for at least one id.
    pub open spec fn wf(self) -> bool {
        &&& self.ids@.len() <= self.cap
        &&& self.cap >= 1
        &&& distinct_msg_ids(self.ids@)
    }

    /// An empty set remembering at most `cap` ids.
    pub fn new(cap: usize) -> (r: RecentMessages)
        requires
            cap >= 1,
        ensures
            r.wf(),
            r.cap == cap,
            r.ids@.len() == 0,
    {
        RecentMessages { ids: Vec::new(), cap }
    }

    /// Whether `id` was seen recently.
    pub fn contains(&self, id: u64) -> (r: bool)
        ensures
            r == self.ids@.contains(id),
    {
        let mut i: usize = 0;
        while i < self.ids.len()
            invariant
                i <= self.ids@.len(),
                forall|j: int| 0 <= j < i ==> self.ids@[j] != id,
            decreases self.ids@.len() - i,
        {
            if self.ids[i] == id {
                return true;
            }
            i = i + 1;
        }
        false
    }

    /// Records `id` as seen. An id already present changes nothing; a new
    /// id is appended, evicting the oldest id when the set is full.
    pub fn record(&mut self, id: u64)
        requires
            old(self).wf(),
        ensures
            final(self).wf(),
            final(self).cap == old(self).cap,
            final(self).ids@.contains(id),
            old(self).ids@.contains(id) ==> *final(self) == *old(self),
            (!old(self).ids@.contains(id) && old(self).ids@.len() < old(self).cap)
                ==> final(self).ids@ == old(self).ids@.push(id),
            (!old(self).ids@.contains(id) && old(self).ids@.len() == old(self).cap)
                ==> final(self).ids@ == old(self).ids@.remove(0).push(id),
    {
        if self.contains(id) {
            return ;
        }
        let ghost orig = self.ids@;
        if self.ids.len() == self.cap {
            self.ids.remove(0);
            proof {
                orig.remove_ensures(0);
                assert(self.ids@ == orig.remove(0));
                assert forall|x: u64| #[trigger] self.ids@.contains(x) implies orig.contains(
                    x,
                ) by {
                    let w = choose|w: int| 0 <= w < self.ids@.len() && self.ids@[w] == x;
                    assert(orig[w + 1] == x);
                }
            }
        }
        let ghost mid = self.ids@;
        self.ids.push(id);
        proof {
            assert(self.ids@ == mid.push(id));
            assert(self.ids@[self.ids@.len() - 1] == id);
            assert(distinct_msg_ids(self.ids@)) by {
                assert forall|a: int, b: int|
                    0 <= a < b < self.ids@.len() implies self.ids@[a] != self.ids@[b] by {
                    if b < self.ids@.len() - 1 {
                        assert(self.ids@[a] == mid[a] && self.ids@[b] == mid[b]);
                    } else {
                        assert(self.ids@[a] == mid[a]);
                        assert(!mid.contains(id));
                        assert(mid.contains(mid[a]));
                    }
                }
            }
        }
    }

    /// Decides an inbound broadcast: a first-seen id is recorded and
    /// delivered; an already seen id is dropped — neither delivered to the
    /// application again nor propagated further, and the set is unchanged.
    pub fn handle_inbound(&mut self, id: u64) -> (d: InboundDisposition)
        requires
            old(self).wf(),
        ensures
            final(self).wf(),
            final(self).cap == old(self).cap,
            d is Deliver <==> !old(self).ids@.contains(id),
            d is Drop ==> *final(self) == *old(self),
            d is Deliver ==> final(self).ids@.contains(id),
    {
        if self.contains(id) {
            InboundDisposition::Drop
        } else {
            self.record(id);
            InboundDisposition::Deliver
        }
    }
}

/// A peer the broadcast may be forwarded to: pooled, not the immediate
/// sender, and not recorded as having already seen the message.
pub open spec fn eligible_target(
    pool: ConnectionPool,
    exclude: Option<NodeId>,
    seen_by: Seq<NodeId>,
    x: NodeId,
) -> bool {
    &&& pool.in_pool(x)
    &&& Some(x) != exclude
    &&& !seen_by.contains(x)
}

/// Whether `x` is the excluded sender.
fn is_excluded(exclude: &Option<NodeId>, x: NodeId) -> (r: bool)
    ensures
        r == (Some(x) == *exclude),
{
    match exclude {
        Some(s) => s.id == x.id,
        None => false,
    }
}

/// A sound fan-out choice: bounded by the factor, every target eligible,
/// no target twice, every eligible peer included when the factor was not
/// reached, and a random member chosen only once every eligible neighbour
/// was.
pub open spec fn valid_fanout(
    pool: ConnectionPool,
    factor: int,
    exclude: Option<NodeId>,
    seen_by: Seq<NodeId>,
    r: Seq<NodeId>,
) -> bool {
    &&& r.len() <= factor
    &&& forall|k: int| 0 <= k < r.len() ==> eligible_target(pool, exclude, seen_by, #[trigger] r[k])
    &&& forall|a: int, b: int| 0 <= a < b < r.len() ==> #[trigger] r[a] != #[trigger] r[b]
    &&& r.len() < factor ==> forall|x: NodeId|
        eligible_target(pool, exclude, seen_by, x) ==> r.contains(x)
    &&& forall|k: int|
        0 <= k < r.len() && pool.random@.contains(#[trigger] r[k]) ==> forall|x: NodeId|
            pool.neighbours@.contains(x) && eligible_target(pool, exclude, seen_by, x)
                ==> r.contains(x)
}

/// Picks the fan-out targets for one broadcast: at most `factor` peers from
/// the pool, neighbours before random members, excluding the immediate
/// sender and every peer that already saw the message. When fewer targets
/// than the factor come back, every eligible pooled peer is among them; a
/// random member is chosen only once every eligible neighbour is.
pub fn select_broadcast_targets(
    pool: &ConnectionPool,
    factor: usize,
    exclude: Option<NodeId>,
    seen_by: &Vec<NodeId>,
) -> (r: Vec<NodeId>)
    requires
        pool.wf(),
    ensures
        valid_fanout(*pool, factor as int, exclude, seen_by@, r@),
{
    let mut out: Vec<NodeId> = Vec::new();
    let mut i: usize = 0;
    while i < pool.neighbours.len() && out.len() < factor
        invariant
            pool.wf(),
            i <= pool.neighbours@.len(),
            out@.len() <= factor,
            forall|k: int|
                0 <= k < out@.len() ==> eligible_target(*pool, exclude, seen_by@, #[trigger] out@[k]),
            forall|k: int| 0 <= k < out@.len() ==> pool.neighbours@.contains(#[trigger] out@[k]),
            forall|a: int, b: int| 0 <= a < b < out@.len() ==> #[trigger] out@[a] != #[trigger] out@[b],
            forall|j: int|
                0 <= j < i && eligible_target(*pool, exclude, seen_by@, #[trigger] pool.neighbours@[j])
                    ==> out@.contains(pool.neighbours@[j]),
        decreases pool.neighbours@.len() - i,
    {
        let x = pool.neighbours[i];
        if !is_excluded(&exclude, x) && !contains_node(seen_by, x) && !contains_node(&out, x) {
            let ghost before = out@;
            out.push(x);
            proof {
                assert(out@[out@.len() - 1] == x);
                assert(forall|k: int| 0 <= k < before.len() ==> out@[k] == before[k]);
                assert forall|w: int| 0 <= w < out@.len() implies pool.neighbours@.contains(
                    #[trigger] out@[w],
                ) by {
                    if w < out@.len() - 1 {
                        assert(out@[w] == before[w]);
                    } else {
                        assert(pool.neighbours@[i as int] == x);
                    }
                }
                assert forall|j: int|
                    0 <= j < i + 1 && eligible_target(
                        *pool,
                        exclude,
                        seen_by@,
                        #[trigger] pool.neighbours@[j],
                    ) implies out@.contains(pool.neighbours@[j]) by {
                    if j < i {
                        assert(before.contains(pool.neighbours@[j]));
                        let w = choose|w: int|
                            0 <= w < before.len() && before[w] == pool.neighbours@[j];
                        assert(out@[w] == pool.neighbours@[j]);
                    } else {
                        assert(out@[out@.len() - 1] == pool.neighbours@[j]);
                    }
                }
            }
        } else {
            proof {
                assert forall|j: int|
                    0 <= j < i + 1 && eligible_target(
                        *pool,
                        exclude,
                        seen_by@,
                        #[trigger] pool.neighbours@[j],
                    ) implies out@.contains(pool.neighbours@[j]) by {
                    if j == i {
                        assert(pool.neighbours@[j] == x);
                        if eligible_target(*pool, exclude, seen_by@, x) {
                            assert(out@.contains(x));
                        }
                    }
                }
            }
        }
        i = i + 1;
    }
    let ghost neighbours_done = i;
    proof {
        assert forall|w: int| 0 <= w < out@.len() implies !pool.random@.contains(
            #[trigger] out@[w],
        ) by {
            assert(pool.neighbours@.contains(out@[w]));
        }
    }
    let mut k: usize = 0;
    while k < pool.random.len() && out.len() < factor
        invariant
            pool.wf(),
            k <= pool.random@.len(),
            out@.len() <= factor,
            forall|w: int|
                0 <= w < out@.len() ==> eligible_target(*pool, exclude, seen_by@, #[trigger] out@[w]),
            forall|a: int, b: int| 0 <= a < b < out@.len() ==> #[trigger] out@[a] != #[trigger] out@[b],
            forall|j: int|
                0 <= j < neighbours_done && eligible_target(
                    *pool,
                    exclude,
                    seen_by@,
                    #[trigger] pool.neighbours@[j],
                ) ==> out@.contains(pool.neighbours@[j]),
            neighbours_done <= pool.neighbours@.len(),
            out@.len() < factor ==> neighbours_done == pool.neighbours@.len(),
            forall|j: int|
                0 <= j < k && eligible_target(*pool, exclude, seen_by@, #[trigger] pool.random@[j])
                    ==> out@.contains(pool.random@[j]),
            (exists|w: int| 0 <= w < out@.len() && pool.random@.contains(#[trigger] out@[w]))
                ==> neighbours_done == pool.neighbours@.len(),
        decreases pool.random@.len() - k,
    {
        let x = pool.random[k];
        if !is_excluded(&exclude, x) && !contains_node(seen_by, x) && !contains_node(&out, x) {
            let ghost before = out@;
            assert(before.len() < factor);
            out.push(x);
            proof {
                assert(out@[out@.len() - 1] == x);
                assert(pool.random@[k as int] == x);
                assert(pool.random@.contains(x));
                assert(forall|w: int| 0 <= w < before.len() ==> out@[w] == before[w]);
                assert forall|j: int|
                    0 <= j < neighbours_done && eligible_target(
                        *pool,
                        exclude,
                        seen_by@,
                        #[trigger] pool.neighbours@[j],
                    ) implies out@.contains(pool.neighbours@[j]) by {
                    assert(before.contains(pool.neighbours@[j]));
                    let w = choose|w: int| 0 <= w < before.len() && before[w] == pool.neighbours@[j];
                    assert(out@[w] == pool.neighbours@[j]);
                }
                assert forall|j: int|
                    0 <= j < k + 1 && eligible_target(
                        *pool,
                        exclude,
                        seen_by@,
                        #[trigger] pool.random@[j],
                    ) implies out@.contains(pool.random@[j]) by {
                    if j < k {
                        assert(before.contains(pool.random@[j]));
                        let w = choose|w: int| 0 <= w < before.len() && before[w] == pool.random@[j];
                        assert(out@[w] == pool.random@[j]);
                    } else {
                        assert(out@[out@.len() - 1] == pool.random@[j]);
                    }
                }
            }
        } else {
            proof {
                assert forall|j: int|
                    0 <= j < k + 1 && eligible_target(
                        *pool,
                        exclude,
                        seen_by@,
                        #[trigger] pool.random@[j],
                    ) implies out@.contains(pool.random@[j]) by {
                    if j == k {
                        assert(pool.random@[j] == x);
                        if eligible_target(*pool, exclude, seen_by@, x) {
                            assert(out@.contains(x));
                        }
                    }
                }
            }
        }
        k = k + 1;
    }
    proof {
        if out@.len() < factor {
            assert(neighbours_done == pool.neighbours@.len());
            assert(k == pool.random@.len());
            assert forall|x: NodeId| eligible_target(*pool, exclude, seen_by@, x) implies
                out@.contains(x) by {
                if pool.neighbours@.contains(x) {
                    let j = choose|j: int|
                        0 <= j < pool.neighbours@.len() && pool.neighbours@[j] == x;
                } else {
                    let j = choose|j: int| 0 <= j < pool.random@.len() && pool.random@[j] == x;
                }
            }
        }
        assert forall|w: int|
            0 <= w < out@.len() && pool.random@.contains(#[trigger] out@[w]) implies forall|
            x: NodeId,
        |
            pool.neighbours@.contains(x) && eligible_target(*pool, exclude, seen_by@, x)
                ==> out@.contains(x) by {
            assert(neighbours_done == pool.neighbours@.len());
            assert forall|x: NodeId|
                pool.neighbours@.contains(x) && eligible_target(
                    *pool,
                    exclude,
                    seen_by@,
                    x,
                ) implies out@.contains(x) by {
                let j = choose|j: int| 0 <= j < pool.neighbours@.len() && pool.neighbours@[j] == x;
            }
        }
    }
    out
}

/// Where a message is headed.
pub enum Destination {
    /// To one peer only.
    Direct(NodeId),
    /// To the network, by bounded flooding.
    Broadcast,
}

/// A routed message: enough identity for loop suppression — origin and
/// message id — plus the destination policy and the payload bytes.
pub struct MessageEnvelope {
    pub origin: NodeId,
    pub message_id: u64,
    pub destination: Destination,
    pub payload: Vec<u8>,
}

/// The router's inbound decision for one envelope: an already seen message
/// id is dropped — delivered to nobody and propagated to nobody — while a
/// first-seen broadcast is delivered to the application and forwarded to a
/// fan-out of the pool that excludes the peer it just came from; a
/// first-seen direct message is delivered and goes no further.
pub fn route_inbound(
    seen: &mut RecentMessages,
    pool: &ConnectionPool,
    envelope: &MessageEnvelope,
    sender: NodeId,
    factor: usize,
) -> (r: (InboundDisposition, Vec<NodeId>))
    requires
        old(seen).wf(),
        pool.wf(),
    ensures
        final(seen).wf(),
        final(seen).cap == old(seen).cap,
        r.0 is Deliver <==> !old(seen).ids@.contains(envelope.message_id),
        r.0 is Drop ==> *final(seen) == *old(seen) && r.1@.len() == 0,
        r.0 is Deliver ==> final(seen).ids@.contains(envelope.message_id),
        (r.0 is Deliver && envelope.destination is Broadcast) ==> valid_fanout(
            *pool,
            factor as int,
            Some(sender),
            Seq::empty(),
            r.1@,
        ),
        (r.0 is Deliver && envelope.destination is Direct) ==> r.1@.len() == 0,
{
    match seen.handle_inbound(envelope.message_id) {
        InboundDisposition::Drop => (InboundDisposition::Drop, Vec::new()),
        InboundDisposition::Deliver => {
            match envelope.destination {
                Destination::Broadcast => {
                    let targets = select_broadcast_targets(pool, factor, Some(sender), &Vec::new());
                    (InboundDisposition::Deliver, targets)
                },
                Destination::Direct(_) => (InboundDisposition::Deliver, Vec::new()),
            }
        },
    }
}

} // verus!
