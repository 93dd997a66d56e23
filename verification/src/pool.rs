//! The bounded connection pool of the overlay router.
//!
//! Connected peers split into two disjoint subsets: the neighbours — the
//! closest peers by xor distance to the local id, kept sorted closest
//! first — and a bounded random sample of the rest. The connectivity
//! manager mutates the pool on connection events; the router only reads it
//! to pick fan-out targets.

use vstd::prelude::*;
use crate::node_id::NodeId;
use crate::random::pick_index;

verus! {

/// The xor distance from the local node to `x`.
pub open spec fn dist_to(local: NodeId, x: NodeId) -> u64 {
    local.id ^ x.id
}

/// Strictly ordered by distance to the local node, closest first.
pub open spec fn sorted_by_dist(local: NodeId, s: Seq<NodeId>) -> bool {
    forall|i: int, j: int|
        0 <= i < j < s.len() ==> dist_to(local, #[trigger] s[i]) < dist_to(local, #[trigger] s[j])
}

/// No id occurs twice.
pub open spec fn distinct_ids(s: Seq<NodeId>) -> bool {
    forall|i: int, j: int| 0 <= i < j < s.len() ==> #[trigger] s[i] != #[trigger] s[j]
}

/// What one connection event did to the pool.
pub enum PoolChange {
    /// The pool kept its exact previous state.
    Unchanged,
    /// The peer joined the neighbour subset; a displaced farthest neighbour
    /// may have been demoted to the random subset, and a peer may have
    /// left the pool to make room.
    AddedNeighbour { demoted: Option<NodeId>, dropped: Option<NodeId> },
    /// The peer joined the random subset, possibly replacing a member.
    AddedRandom { replaced: Option<NodeId> },
}

/// Whether the event admitted the connecting peer into the pool.
pub open spec fn admitted(c: PoolChange) -> bool {
    !(c is Unchanged)
}

/// The peer the event pushed out of the pool, if any.
pub open spec fn dropped_of(c: PoolChange) -> Option<NodeId> {
    match c {
        PoolChange::Unchanged => None,
        PoolChange::AddedNeighbour { dropped, .. } => dropped,
        PoolChange::AddedRandom { replaced } => replaced,
    }
}

/// The bounded, two-subset pool of connected peers.
pub struct ConnectionPool {
    /// The local node's id; distances are measured from it.
    pub local: NodeId,
    /// The closest connected peers, sorted closest first.
    pub neighbours: Vec<NodeId>,
    /// A bounded sample of the other connected peers.
    pub random: Vec<NodeId>,
    /// Size bound of the neighbour subset.
    pub max_neighbours: usize,
    /// Size bound of the random subset.
    pub max_random: usize,
}

/// Law: a well-formed pool keeps both subsets within their bounds and
/// disjoint — no peer sits in the neighbour and the random subset at once.
pub proof fn lemma_pool_subsets_bounded_and_disjoint(p: ConnectionPool)
    requires
        p.wf(),
    ensures
        p.neighbours@.len() <= p.max_neighbours,
        p.random@.len() <= p.max_random,
        forall|x: NodeId| !(p.neighbours@.contains(x) && #[trigger] p.random@.contains(x)),
{
}

/// Whether `v` holds `id`.
pub(crate) fn contains_node(v: &Vec<NodeId>, id: NodeId) -> (r: bool)
    ensures
        r == v@.contains(id),
{
    let mut i: usize = 0;
    while i < v.len()
        invariant
            i <= v@.len(),
            forall|j: int| 0 <= j < i ==> v@[j] != id,
        decreases v@.len() - i,
    {
        if v[i].id == id.id {
            assert(v@[i as int] == id);
            return true;
        }
        i = i + 1;
    }
    assert(!v@.contains(id));
    false
}

/// Removing one entry keeps a distance-sorted sequence sorted.
proof fn lemma_sorted_remove(local: NodeId, s: Seq<NodeId>, i: int)
    requires
        sorted_by_dist(local, s),
        0 <= i < s.len(),
    ensures
        sorted_by_dist(local, s.remove(i)),
{
    s.remove_ensures(i);
    let t = s.remove(i);
    assert forall|a: int, b: int| 0 <= a < b < t.len() implies dist_to(local, #[trigger] t[a])
        < dist_to(local, #[trigger] t[b]) by {
        let k = if a < i { a } else { a + 1 };
        let l = if b < i { b } else { b + 1 };
        assert(t[a] == s[k] && t[b] == s[l]);
        assert(0 <= k < l < s.len());
    }
}

/// Removes the entry holding `id`, when there is one.
fn remove_node(v: &mut Vec<NodeId>, id: NodeId)
    requires
        distinct_ids(old(v)@),
    ensures
        !final(v)@.contains(id),
        forall|x: NodeId| x != id ==> final(v)@.contains(x) == old(v)@.contains(x),
        distinct_ids(final(v)@),
        old(v)@.contains(id) ==> final(v)@.len() == old(v)@.len() - 1,
        !old(v)@.contains(id) ==> final(v)@ == old(v)@,
        old(v)@.contains(id) ==> exists|i: int|
            #![trigger old(v)@[i]]
            0 <= i < old(v)@.len() && old(v)@[i] == id && final(v)@ == old(v)@.remove(i),
{
    let ghost orig = v@;
    let mut i: usize = 0;
    while i < v.len()
        invariant
            i <= v@.len(),
            v@ == orig,
            orig == old(v)@,
            distinct_ids(orig),
            forall|j: int| 0 <= j < i ==> orig[j] != id,
        decreases v@.len() - i,
    {
        if v[i].id == id.id {
            assert(orig[i as int] == id);
            v.remove(i);
            proof {
                orig.remove_ensures(i as int);
                assert(v@ =~= orig.remove(i as int));
                assert forall|x: NodeId| x != id implies v@.contains(x) == orig.contains(x) by {
                    if orig.contains(x) {
                        let w = choose|w: int| 0 <= w < orig.len() && orig[w] == x;
                        if w < i {
                            assert(v@[w] == x);
                        } else {
                            assert(w > i);
                            assert(v@[w - 1] == x);
                        }
                    }
                    if v@.contains(x) {
                        let w = choose|w: int| 0 <= w < v@.len() && v@[w] == x;
                        if w < i {
                            assert(orig[w] == x);
                        } else {
                            assert(orig[w + 1] == x);
                        }
                    }
                }
                assert(!v@.contains(id)) by {
                    assert forall|w: int| 0 <= w < v@.len() implies v@[w] != id by {
                        if w < i {
                            assert(v@[w] == orig[w]);
                        } else {
                            assert(v@[w] == orig[w + 1]);
                            assert(orig[i as int] == id);
                        }
                    }
                }
                assert(orig[i as int] == id && v@ == orig.remove(i as int));
            }
            return ;
        }
        i = i + 1;
    }
    proof {
        assert(!orig.contains(id));
    }
}

impl ConnectionPool {
    /// The pool invariant: both subsets respect their bounds, hold no
    /// duplicates, are disjoint, exclude the local node, and the neighbour
    /// subset is sorted closest first.
    pub open spec fn wf(self) -> bool {
        &&& self.neighbours@.len() <= self.max_neighbours
        &&& self.random@.len() <= self.max_random
        &&& distinct_ids(self.neighbours@)
        &&& distinct_ids(self.random@)
        &&& forall|x: NodeId|
            self.neighbours@.contains(x) ==> !(#[trigger] self.random@.contains(x))
        &&& !self.neighbours@.contains(self.local)
        &&& !self.random@.contains(self.local)
        &&& sorted_by_dist(self.local, self.neighbours@)
    }

    /// Whether `x` is in either subset.
    pub open spec fn in_pool(self, x: NodeId) -> bool {
        self.neighbours@.contains(x) || self.random@.contains(x)
    }

    /// An empty pool for the given local node and bounds.
    pub fn new(local: NodeId, max_neighbours: usize, max_random: usize) -> (r: ConnectionPool)
        ensures
            r.wf(),
            r.local == local,
            r.max_neighbours == max_neighbours,
            r.max_random == max_random,
            r.neighbours@.len() == 0,
            r.random@.len() == 0,
    {
        ConnectionPool { local, neighbours: Vec::new(), random: Vec::new(), max_neighbours, max_random }
    }

    /// Whether the pool holds `id`.
    pub fn contains(&self, id: NodeId) -> (r: bool)
        ensures
            r == self.in_pool(id),
    {
        contains_node(&self.neighbours, id) || contains_node(&self.random, id)
    }

    /// Inserts `id` into the neighbour subset at its distance rank.
    fn insert_neighbour(&mut self, id: NodeId)
        requires
            old(self).wf(),
            old(self).neighbours@.len() < old(self).max_neighbours,
            !old(self).in_pool(id),
            id != old(self).local,
        ensures
            final(self).wf(),
            final(self).local == old(self).local,
            final(self).max_neighbours == old(self).max_neighbours,
            final(self).max_random == old(self).max_random,
            final(self).random == old(self).random,
            final(self).neighbours@.len() == old(self).neighbours@.len() + 1,
            forall|x: NodeId|
                final(self).neighbours@.contains(x) == (old(self).neighbours@.contains(x) || x
                    == id),
    {
        let ghost orig = self.neighbours@;
        let d = self.local.distance(&id);
        let mut j: usize = 0;
        while j < self.neighbours.len() && self.local.distance(&self.neighbours[j]) < d
            invariant
                j <= self.neighbours@.len(),
                self.neighbours@ == orig,
                d == dist_to(self.local, id),
                self.local == old(self).local,
                forall|k: int| 0 <= k < j ==> dist_to(self.local, #[trigger] orig[k]) < d,
            decreases self.neighbours@.len() - j,
        {
            j = j + 1;
        }
        proof {
            if j < self.neighbours@.len() {
                assert(dist_to(self.local, orig[j as int]) != d) by {
                    if dist_to(self.local, orig[j as int]) == d {
                        crate::node_id::lemma_distance_injective(
                            self.local.id,
                            orig[j as int].id,
                            id.id,
                        );
                        assert(orig[j as int] == id);
                        assert(orig.contains(id));
                    }
                }
            }
        }
        self.neighbours.insert(j, id);
        proof {
            let cur = self.neighbours@;
            assert(cur == orig.insert(j as int, id));
            assert forall|x: NodeId| cur.contains(x) == (orig.contains(x) || x == id) by {
                if cur.contains(x) {
                    let w = choose|w: int| 0 <= w < cur.len() && cur[w] == x;
                    if w < j {
                        assert(orig[w] == x);
                    } else if w == j {
                        assert(x == id);
                    } else {
                        assert(orig[w - 1] == x);
                    }
                }
                if orig.contains(x) {
                    let w = choose|w: int| 0 <= w < orig.len() && orig[w] == x;
                    if w < j {
                        assert(cur[w] == x);
                    } else {
                        assert(cur[w + 1] == x);
                    }
                }
                if x == id {
                    assert(cur[j as int] == x);
                }
            }
            assert(distinct_ids(cur)) by {
                assert forall|a: int, b: int| 0 <= a < b < cur.len() implies cur[a] != cur[b] by {
                    let xa = cur[a];
                    let xb = cur[b];
                    if a == j {
                        if orig.contains(xb) || b != j {
                            assert(cur[b] == orig[b - 1]);
                            assert(xa == id);
                            assert(!orig.contains(id));
                            assert(orig.contains(orig[b - 1]));
                        }
                    } else if b == j {
                        assert(cur[a] == orig[a]);
                        assert(xb == id);
                        assert(!orig.contains(id));
                        assert(orig.contains(orig[a]));
                    } else {
                        let ka: int = if a < j { a } else { a - 1 };
                        let kb: int = if b < j { b } else { b - 1 };
                        assert(cur[a] == orig[ka] && cur[b] == orig[kb]);
                        assert(0 <= ka < kb < orig.len());
                    }
                }
            }
            assert(sorted_by_dist(self.local, cur)) by {
                assert forall|a: int, b: int| 0 <= a < b < cur.len() implies dist_to(
                    self.local,
                    cur[a],
                ) < dist_to(self.local, cur[b]) by {
                    if a == j {
                        assert(cur[b] == orig[b - 1]);
                        assert(b - 1 >= j);
                        assert(dist_to(self.local, orig[b - 1]) > d) by {
                            if dist_to(self.local, orig[b - 1]) == d {
                                crate::node_id::lemma_distance_injective(
                                    self.local.id,
                                    orig[b - 1].id,
                                    id.id,
                                );
                                assert(orig.contains(id));
                            }
                        }
                    } else if b == j {
                        assert(cur[a] == orig[a]);
                        assert(a < j);
                    } else {
                        let ka: int = if a < j { a } else { a - 1 };
                        let kb: int = if b < j { b } else { b - 1 };
                        assert(cur[a] == orig[ka] && cur[b] == orig[kb]);
                        if ka < kb {
                        } else {
                            assert(ka == kb && a < j && b > j);
                            assert(dist_to(self.local, orig[ka]) < d);
                            assert(dist_to(self.local, orig[kb]) > d) by {
                                if dist_to(self.local, orig[kb]) == d {
                                    crate::node_id::lemma_distance_injective(
                                        self.local.id,
                                        orig[kb].id,
                                        id.id,
                                    );
                                    assert(orig.contains(id));
                                }
                            }
                        }
                    }
                }
            }
        }
    }

    /// Handles a newly established connection: the peer becomes a
    /// neighbour when it ranks among the closest, joins the random subset
    /// otherwise, and the subsets keep their bounds by demoting or
    /// dropping a member when full. Connecting the local node itself or an
    /// already pooled peer changes nothing.
    pub fn on_peer_connected(&mut self, id: NodeId) -> (c: PoolChange)
        requires
            old(self).wf(),
        ensures
            final(self).wf(),
            final(self).local == old(self).local,
            final(self).max_neighbours == old(self).max_neighbours,
            final(self).max_random == old(self).max_random,
            c is Unchanged ==> *final(self) == *old(self),
            (id == old(self).local || old(self).in_pool(id)) ==> c is Unchanged,
            admitted(c) ==> final(self).in_pool(id),
            c is AddedNeighbour ==> final(self).neighbours@.contains(id),
            c is AddedRandom ==> final(self).random@.contains(id),
            dropped_of(c) matches Some(v) ==> old(self).in_pool(v) && !final(self).in_pool(v) && v
                != id,
            forall|x: NodeId|
                x != id && Some(x) != dropped_of(c) && !(c matches PoolChange::AddedNeighbour {
                    demoted: Some(dd),
                    ..
                } && dd == x) ==> final(self).in_pool(x) == old(self).in_pool(x),
            c matches PoolChange::AddedNeighbour { demoted: Some(d), dropped } ==> old(
                self,
            ).neighbours@.contains(d) && (dropped != Some(d) ==> final(self).random@.contains(d)),
            (id != old(self).local && !old(self).in_pool(id) && old(self).neighbours@.len() < old(
                self,
            ).max_neighbours) ==> c matches PoolChange::AddedNeighbour {
                demoted: None,
                dropped: None,
            },
            (id != old(self).local && !old(self).in_pool(id) && old(self).neighbours@.len() == old(
                self,
            ).max_neighbours && old(self).neighbours@.len() > 0 && dist_to(old(self).local, id)
                < dist_to(old(self).local, old(self).neighbours@.last())) ==> c is AddedNeighbour,
            (id != old(self).local && !old(self).in_pool(id) && old(self).neighbours@.len() == old(
                self,
            ).max_neighbours && (old(self).neighbours@.len() == 0 || dist_to(old(self).local, id)
                >= dist_to(old(self).local, old(self).neighbours@.last())) && old(self).max_random
                > 0) ==> c is AddedRandom,
            (id != old(self).local && !old(self).in_pool(id) && old(self).neighbours@.len() == old(
                self,
            ).max_neighbours && (old(self).neighbours@.len() == 0 || dist_to(old(self).local, id)
                >= dist_to(old(self).local, old(self).neighbours@.last())) && old(self).max_random
                == 0) ==> c is Unchanged,
    {
        if id.id == self.local.id {
            assert(id == self.local);
            return PoolChange::Unchanged;
        }
        if self.contains(id) {
            return PoolChange::Unchanged;
        }
        if self.neighbours.len() < self.max_neighbours {
            self.insert_neighbour(id);
            return PoolChange::AddedNeighbour { demoted: None, dropped: None };
        }
        // Neighbour subset is full. Check whether the new peer is closer
        // than the farthest (last) neighbour.
        if self.neighbours.len() > 0 {
            let last = self.neighbours[self.neighbours.len() - 1];
            if self.local.distance(&id) < self.local.distance(&last) {
                let demoted = self.neighbours.pop().unwrap();
                assert(demoted == last);
                proof {
                    let orig_n = old(self).neighbours@;
                    assert forall|x: NodeId| #[trigger]
                        self.neighbours@.contains(x) implies x != demoted && orig_n.contains(
                        x,
                    ) by {
                        let w = choose|w: int|
                            0 <= w < self.neighbours@.len() && self.neighbours@[w] == x;
                        assert(orig_n[w] == x);
                        if x == demoted {
                            assert(orig_n[orig_n.len() - 1] == demoted);
                        }
                    }
                    assert forall|x: NodeId| #[trigger] orig_n.contains(x) && x
                        != demoted implies self.neighbours@.contains(x) by {
                        let w = choose|w: int| 0 <= w < orig_n.len() && orig_n[w] == x;
                        assert(orig_n[orig_n.len() - 1] == demoted);
                        assert(w < orig_n.len() - 1);
                        assert(self.neighbours@[w] == x);
                    }
                }
                self.insert_neighbour(id);
                // Demote the displaced neighbour into the random subset.
                if self.random.len() < self.max_random {
                    self.random.push(demoted);
                    assert(self.random@ == old(self).random@.push(demoted));
                    proof {
                        assert forall|x: NodeId| #[trigger]
                            self.random@.contains(x) implies old(self).random@.contains(x) || x
                            == demoted by {
                            let w = choose|w: int|
                                0 <= w < self.random@.len() && self.random@[w] == x;
                            if w < self.random@.len() - 1 {
                                assert(old(self).random@[w] == x);
                            }
                        }
                        assert forall|x: NodeId| #[trigger] old(self).random@.contains(
                            x,
                        ) implies self.random@.contains(x) by {
                            let w = choose|w: int|
                                0 <= w < old(self).random@.len() && old(self).random@[w] == x;
                            assert(self.random@[w] == x);
                        }
                        assert(self.random@[self.random@.len() - 1] == demoted);
                        assert(old(self).random@.contains(demoted) == false);
                    }
                    return PoolChange::AddedNeighbour { demoted: Some(demoted), dropped: None };
                }
                if self.max_random == 0 {
                    return PoolChange::AddedNeighbour { demoted: None, dropped: Some(demoted) };
                }
                let k = pick_index(self.random.len());
                let victim = self.random[k];
                self.random.set(k, demoted);
                proof {
                    let cur = self.random@;
                    let orig = old(self).random@;
                    assert(cur == orig.update(k as int, demoted));
                    assert(orig.contains(victim));
                    assert forall|x: NodeId| #[trigger] cur.contains(x) implies (orig.contains(x)
                        && x != victim) || x == demoted by {
                        let w = choose|w: int| 0 <= w < cur.len() && cur[w] == x;
                        if w != k {
                            assert(orig[w] == x);
                            if x == victim {
                                assert(orig[k as int] == victim);
                            }
                        }
                    }
                    assert forall|x: NodeId| (orig.contains(x) && x != victim) || x
                        == demoted implies cur.contains(x) by {
                        if x == demoted {
                            assert(cur[k as int] == x);
                        } else {
                            let w = choose|w: int| 0 <= w < orig.len() && orig[w] == x;
                            assert(w != k);
                            assert(cur[w] == x);
                        }
                    }
                    assert(distinct_ids(cur)) by {
                        assert forall|a: int, b: int|
                            0 <= a < b < cur.len() implies cur[a] != cur[b] by {
                            if a != k && b != k {
                                assert(cur[a] == orig[a] && cur[b] == orig[b]);
                            } else if a == k {
                                assert(cur[b] == orig[b]);
                                assert(!orig.contains(demoted));
                            } else {
                                assert(cur[a] == orig[a]);
                                assert(!orig.contains(demoted));
                            }
                        }
                    }
                }
                return PoolChange::AddedNeighbour {
                    demoted: Some(demoted),
                    dropped: Some(victim),
                };
            }
        }
        // Not close enough for the neighbour subset: random admission.
        if self.random.len() < self.max_random {
            self.random.push(id);
            proof {
                assert forall|x: NodeId| #[trigger] self.random@.contains(x) implies old(
                    self,
                ).random@.contains(x) || x == id by {
                    let w = choose|w: int| 0 <= w < self.random@.len() && self.random@[w] == x;
                    if w < self.random@.len() - 1 {
                        assert(old(self).random@[w] == x);
                    }
                }
                assert forall|x: NodeId| #[trigger] old(self).random@.contains(x) implies
                    self.random@.contains(x) by {
                    let w = choose|w: int|
                        0 <= w < old(self).random@.len() && old(self).random@[w] == x;
                    assert(self.random@[w] == x);
                }
                assert(self.random@[self.random@.len() - 1] == id);
            }
            return PoolChange::AddedRandom { replaced: None };
        }
        if self.max_random == 0 {
            return PoolChange::Unchanged;
        }
        let k = pick_index(self.random.len());
        let victim = self.random[k];
        self.random.set(k, id);
        proof {
            let cur = self.random@;
            let orig = old(self).random@;
            assert(cur == orig.update(k as int, id));
            assert(orig.contains(victim));
            assert forall|x: NodeId| #[trigger] cur.contains(x) implies (orig.contains(x) && x
                != victim) || x == id by {
                let w = choose|w: int| 0 <= w < cur.len() && cur[w] == x;
                if w != k {
                    assert(orig[w] == x);
                    if x == victim {
                        assert(orig[k as int] == victim);
                    }
                }
            }
            assert forall|x: NodeId| (orig.contains(x) && x != victim) || x == id implies
                cur.contains(x) by {
                if x == id {
                    assert(cur[k as int] == x);
                } else {
                    let w = choose|w: int| 0 <= w < orig.len() && orig[w] == x;
                    assert(w != k);
                    assert(cur[w] == x);
                }
            }
            assert(distinct_ids(cur)) by {
                assert forall|a: int, b: int| 0 <= a < b < cur.len() implies cur[a] != cur[b] by {
                    if a != k && b != k {
                        assert(cur[a] == orig[a] && cur[b] == orig[b]);
                    } else if a == k {
                        assert(cur[b] == orig[b]);
                    } else {
                        assert(cur[a] == orig[a]);
                    }
                }
            }
        }
        PoolChange::AddedRandom { replaced: Some(victim) }
    }

    /// Handles a lost connection: the peer leaves whichever subset holds
    /// it, and every other member stays pooled. Membership is recomputed: a
    /// vacated neighbour slot is refilled by promoting the closest random
    /// member.
    pub fn on_peer_disconnected(&mut self, id: NodeId)
        requires
            old(self).wf(),
        ensures
            final(self).wf(),
            final(self).local == old(self).local,
            final(self).max_neighbours == old(self).max_neighbours,
            final(self).max_random == old(self).max_random,
            !final(self).in_pool(id),
            forall|x: NodeId| x != id ==> final(self).in_pool(x) == old(self).in_pool(x),
            (old(self).neighbours@.contains(id) && old(self).random@.len() > 0) ==> (exists|
                p: NodeId,
            |
                {
                    &&& #[trigger] old(self).random@.contains(p)
                    &&& final(self).neighbours@.contains(p)
                    &&& forall|q: NodeId|
                        #[trigger] old(self).random@.contains(q) ==> dist_to(old(self).local, p)
                            <= dist_to(old(self).local, q)
                }),
    {
        if contains_node(&self.neighbours, id) {
            let ghost orig_n = self.neighbours@;
            remove_node(&mut self.neighbours, id);
            proof {
                let i = choose|i: int|
                    #![trigger orig_n[i]]
                    0 <= i < orig_n.len() && orig_n[i] == id && self.neighbours@ == orig_n.remove(
                        i,
                    );
                lemma_sorted_remove(self.local, orig_n, i);
            }
            if self.random.len() > 0 && self.neighbours.len() < self.max_neighbours {
                // Recompute membership: the closest random member takes the
                // vacated neighbour slot.
                let mut best: usize = 0;
                let mut j: usize = 1;
                while j < self.random.len()
                    invariant
                        best < j <= self.random@.len(),
                        self.random@.len() > 0,
                        self.local == old(self).local,
                        forall|w: int|
                            0 <= w < j ==> dist_to(self.local, self.random@[best as int])
                                <= dist_to(self.local, #[trigger] self.random@[w]),
                    decreases self.random@.len() - j,
                {
                    if self.local.distance(&self.random[j]) < self.local.distance(
                        &self.random[best],
                    ) {
                        best = j;
                    }
                    j = j + 1;
                }
                let promoted = self.random[best];
                proof {
                    assert(self.random@.contains(promoted));
                    assert(old(self).random@.contains(promoted));
                    assert forall|q: NodeId| #[trigger]
                        old(self).random@.contains(q) implies dist_to(self.local, promoted)
                        <= dist_to(self.local, q) by {
                        let w = choose|w: int|
                            0 <= w < old(self).random@.len() && old(self).random@[w] == q;
                    }
                    assert(promoted != old(self).local);
                    assert(promoted != id) by {
                        assert(!old(self).neighbours@.contains(promoted));
                        assert(old(self).neighbours@.contains(id));
                    }
                }
                remove_node(&mut self.random, promoted);
                self.insert_neighbour(promoted);
            }
        } else {
            remove_node(&mut self.random, id);
        }
    }
}

} // verus!
