//! The peer directory: the single table of known remote peers, keyed by
//! node id.
//!
//! The directory holds at most one entry per node id (an update is
//! last-write-wins) and never stores the local node itself: adding a peer
//! whose id equals the local id is a no-op.

use vstd::prelude::*;
use crate::node_id::NodeId;
use crate::peer::Peer;

verus! {

/// The first index whose entry carries `id`, or `-1` when none does.
pub open spec fn id_index(s: Seq<Peer>, id: NodeId) -> int
    decreases s.len(),
{
    if s.len() == 0 {
        -1
    } else if s[0].node_id == id {
        0
    } else {
        let r = id_index(s.drop_first(), id);
        if r < 0 {
            -1
        } else {
            r + 1
        }
    }
}

/// Whether some entry carries `id`.
pub open spec fn has_id(s: Seq<Peer>, id: NodeId) -> bool {
    id_index(s, id) >= 0
}

/// What one insertion does: nothing for the local id, last-write-wins for a
/// known id, append for a new one.
pub open spec fn add_peer_spec(s: Seq<Peer>, local: NodeId, p: Peer) -> Seq<Peer> {
    if p.node_id == local {
        s
    } else {
        let i = id_index(s, p.node_id);
        if i >= 0 {
            s.update(i, p)
        } else {
            s.push(p)
        }
    }
}

/// What inserting a whole batch does, first entry first.
pub open spec fn add_all_spec(s: Seq<Peer>, local: NodeId, ps: Seq<Peer>) -> Seq<Peer>
    decreases ps.len(),
{
    if ps.len() == 0 {
        s
    } else {
        add_all_spec(add_peer_spec(s, local, ps[0]), local, ps.drop_first())
    }
}

/// `id_index` finds the first match: its entry carries the id, nothing
/// before it does, and `-1` means nothing does at all.
pub proof fn lemma_id_index(s: Seq<Peer>, id: NodeId)
    ensures
        id_index(s, id) >= 0 ==> id_index(s, id) < s.len() && s[id_index(s, id)].node_id == id,
        forall|j: int| 0 <= j < id_index(s, id) ==> s[j].node_id != id,
        id_index(s, id) < 0 ==> forall|j: int| 0 <= j < s.len() ==> s[j].node_id != id,
    decreases s.len(),
{
    if s.len() > 0 && s[0].node_id != id {
        lemma_id_index(s.drop_first(), id);
        assert(forall|j: int| 1 <= j < s.len() ==> s[j] == s.drop_first()[j - 1]);
    }
}

/// The directory of known peers, keyed by node id, with the local node
/// excluded.
pub struct PeerDirectory {
    /// The local node's id, never stored as a peer.
    pub local: NodeId,
    /// The entries, one per node id.
    pub peers: Vec<Peer>,
}

impl PeerDirectory {
    /// Well-formed: every entry is a well-formed peer, node ids are unique,
    /// and the local node is not an entry.
    pub open spec fn wf(self) -> bool {
        &&& forall|i: int| 0 <= i < self.peers@.len() ==> (#[trigger] self.peers@[i]).wf()
        &&& forall|i: int, j: int|
            0 <= i < j < self.peers@.len() ==> (#[trigger] self.peers@[i]).node_id != (
            #[trigger] self.peers@[j]).node_id
        &&& forall|i: int|
            0 <= i < self.peers@.len() ==> (#[trigger] self.peers@[i]).node_id != self.local
    }

    /// An empty directory for the given local node.
    pub fn new(local: NodeId) -> (r: PeerDirectory)
        ensures
            r.wf(),
            r.local == local,
            r.peers@.len() == 0,
    {
        PeerDirectory { local, peers: Vec::new() }
    }

    /// How many peers are known.
    pub fn len(&self) -> (n: usize)
        ensures
            n == self.peers@.len(),
    {
        self.peers.len()
    }

    /// The first index holding `id`, if any.
    fn find_index(&self, id: NodeId) -> (r: Option<usize>)
        ensures
            match r {
                Some(i) => i == id_index(self.peers@, id),
                None => id_index(self.peers@, id) < 0,
            },
    {
        proof {
            lemma_id_index(self.peers@, id);
        }
        let mut i: usize = 0;
        while i < self.peers.len()
            invariant
                i <= self.peers@.len(),
                forall|j: int| 0 <= j < i ==> (#[trigger] self.peers@[j]).node_id != id,
                id_index(self.peers@, id) >= 0 ==> id_index(self.peers@, id) < self.peers@.len()
                    && self.peers@[id_index(self.peers@, id)].node_id == id,
                forall|j: int| 0 <= j < id_index(self.peers@, id) ==> self.peers@[j].node_id != id,
                id_index(self.peers@, id) < 0 ==> forall|j: int|
                    0 <= j < self.peers@.len() ==> self.peers@[j].node_id != id,
            decreases self.peers@.len() - i,
        {
            if self.peers[i].node_id == id {
                return Some(i);
            }
            i = i + 1;
        }
        None
    }

    /// Looks a peer up by node id.
    pub fn find_by_node_id(&self, id: NodeId) -> (r: Option<&Peer>)
        ensures
            match r {
                Some(p) => has_id(self.peers@, id) && *p == self.peers@[id_index(self.peers@, id)],
                None => !has_id(self.peers@, id),
            },
    {
        proof {
            lemma_id_index(self.peers@, id);
        }
        match self.find_index(id) {
            Some(i) => Some(&self.peers[i]),
            None => None,
        }
    }

    /// Adds or updates one peer. A peer carrying the local node's id is
    /// never stored: the call is a no-op. A known id is overwritten
    /// (last-write-wins); a new id is appended.
    pub fn add_peer(&mut self, p: Peer)
        requires
            old(self).wf(),
            p.wf(),
        ensures
            final(self).wf(),
            final(self).local == old(self).local,
            final(self).peers@ == add_peer_spec(old(self).peers@, old(self).local, p),
            p.node_id == old(self).local ==> final(self).peers@ == old(self).peers@,
    {
        proof {
            lemma_id_index(self.peers@, p.node_id);
        }
        if p.node_id == self.local {
            return ;
        }
        match self.find_index(p.node_id) {
            Some(i) => {
                self.peers.set(i, p);
            },
            None => {
                self.peers.push(p);
            },
        }
    }

    /// Adds a whole batch, first entry first; entries carrying the local id
    /// are skipped, the rest inserted last-write-wins.
    pub fn add_all_peers(&mut self, peers: Vec<Peer>)
        requires
            old(self).wf(),
            forall|i: int| 0 <= i < peers@.len() ==> (#[trigger] peers@[i]).wf(),
        ensures
            final(self).wf(),
            final(self).local == old(self).local,
            final(self).peers@ == add_all_spec(old(self).peers@, old(self).local, peers@),
    {
        let ghost all = peers@;
        let ghost orig = self.peers@;
        let mut rest = peers;
        while rest.len() > 0
            invariant
                self.wf(),
                self.local == old(self).local,
                forall|j: int| 0 <= j < rest@.len() ==> (#[trigger] rest@[j]).wf(),
                add_all_spec(self.peers@, self.local, rest@) == add_all_spec(
                    orig,
                    old(self).local,
                    all,
                ),
            decreases rest@.len(),
        {
            let ghost before = rest@;
            let p = rest.remove(0);
            proof {
                assert(rest@ =~= before.drop_first());
            }
            self.add_peer(p);
        }
    }
}

} // verus!
