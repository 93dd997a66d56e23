//! The connectivity manager's decisions: tracking live connections,
//! waiting for minimum connectivity against a deadline, and the constant
//! dial backoff.
//!
//! The dialling, accepting and sleeping themselves are I/O outside this
//! library; what is verified is the bookkeeping and every decision taken
//! on it.

use vstd::prelude::*;
use crate::node_id::NodeId;

verus! {

/// Milliseconds between dial retries: the backoff policy is a constant
/// interval.
pub const DIAL_BACKOFF_MS: u64 = 500;

/// What a poll of a minimum-connectivity wait decides.
pub enum WaitOutcome {
    /// Enough connections are live; the waiter proceeds.
    Ready,
    /// Not enough yet and the deadline passed: the wait fails with a
    /// timeout error.
    TimedOut,
    /// Not enough yet, deadline not reached: keep waiting.
    KeepWaiting,
}

/// The set of live connections and the minimum the node wants.
pub struct ConnectivityManager {
    /// The peers a live connection exists to, without duplicates.
    pub connected: Vec<NodeId>,
    /// How many live connections startup waits for.
    pub min_connectivity: usize,
}

impl ConnectivityManager {
    /// No peer is tracked twice.
    pub open spec fn wf(self) -> bool {
        forall|i: int, j: int|
            0 <= i < j < self.connected@.len() ==> #[trigger] self.connected@[i]
                != #[trigger] self.connected@[j]
    }

    /// A manager with no live connections.
    pub fn new(min_connectivity: usize) -> (r: ConnectivityManager)
        ensures
            r.wf(),
            r.min_connectivity == min_connectivity,
            r.connected@.len() == 0,
    {
        ConnectivityManager { connected: Vec::new(), min_connectivity }
    }

    /// Whether a live connection to `id` exists.
    pub fn is_connected(&self, id: NodeId) -> (r: bool)
        ensures
            r == self.connected@.contains(id),
    {
        let mut i: usize = 0;
        while i < self.connected.len()
            invariant
                i <= self.connected@.len(),
                forall|j: int| 0 <= j < i ==> self.connected@[j] != id,
            decreases self.connected@.len() - i,
        {
            if self.connected[i].id == id.id {
                assert(self.connected@[i as int] == id);
                return true;
            }
            i = i + 1;
        }
        false
    }

    /// Records an established connection; one already tracked changes
    /// nothing.
    pub fn on_connected(&mut self, id: NodeId)
        requires
            old(self).wf(),
        ensures
            final(self).wf(),
            final(self).min_connectivity == old(self).min_connectivity,
            final(self).connected@.contains(id),
            old(self).connected@.contains(id) ==> *final(self) == *old(self),
            !old(self).connected@.contains(id) ==> final(self).connected@ == old(
                self,
            ).connected@.push(id),
    {
        if self.is_connected(id) {
            return ;
        }
        let ghost before = self.connected@;
        self.connected.push(id);
        proof {
            assert(self.connected@[self.connected@.len() - 1] == id);
            assert forall|a: int, b: int|
                0 <= a < b < self.connected@.len() implies #[trigger] self.connected@[a]
                != #[trigger] self.connected@[b] by {
                if b < self.connected@.len() - 1 {
                    assert(self.connected@[a] == before[a] && self.connected@[b] == before[b]);
                } else {
                    assert(self.connected@[a] == before[a]);
                    assert(!before.contains(id));
                    assert(before.contains(before[a]));
                }
            }
        }
    }

    /// Records a lost connection: the peer leaves, every other stays.
    pub fn on_disconnected(&mut self, id: NodeId)
        requires
            old(self).wf(),
        ensures
            final(self).wf(),
            final(self).min_connectivity == old(self).min_connectivity,
            !final(self).connected@.contains(id),
            forall|x: NodeId|
                x != id ==> final(self).connected@.contains(x) == old(self).connected@.contains(x),
    {
        let ghost orig = self.connected@;
        let mut i: usize = 0;
        while i < self.connected.len()
            invariant
                i <= self.connected@.len(),
                self.connected@ == orig,
                orig == old(self).connected@,
                old(self).wf(),
                self.min_connectivity == old(self).min_connectivity,
                forall|j: int| 0 <= j < i ==> orig[j] != id,
            decreases self.connected@.len() - i,
        {
            if self.connected[i].id == id.id {
                assert(orig[i as int] == id);
                self.connected.remove(i);
                proof {
                    orig.remove_ensures(i as int);
                    let cur = self.connected@;
                    assert(cur =~= orig.remove(i as int));
                    assert(!cur.contains(id)) by {
                        assert forall|w: int| 0 <= w < cur.len() implies cur[w] != id by {
                            if w < i {
                                assert(cur[w] == orig[w]);
                            } else {
                                assert(cur[w] == orig[w + 1]);
                                assert(orig[i as int] == id);
                            }
                        }
                    }
                    assert forall|x: NodeId| x != id implies cur.contains(x) == orig.contains(
                        x,
                    ) by {
                        if orig.contains(x) {
                            let w = choose|w: int| 0 <= w < orig.len() && orig[w] == x;
                            if w < i {
                                assert(cur[w] == x);
                            } else {
                                assert(w > i);
                                assert(cur[w - 1] == x);
                            }
                        }
                        if cur.contains(x) {
                            let w = choose|w: int| 0 <= w < cur.len() && cur[w] == x;
                            if w < i {
                                assert(orig[w] == x);
                            } else {
                                assert(orig[w + 1] == x);
                            }
                        }
                    }
                    assert forall|a: int, b: int|
                        0 <= a < b < cur.len() implies #[trigger] cur[a] != #[trigger] cur[b] by {
                        let ka = if a < i { a } else { a + 1 };
                        let kb = if b < i { b } else { b + 1 };
                        assert(cur[a] == orig[ka] && cur[b] == orig[kb]);
                        assert(0 <= ka < kb < orig.len());
                    }
                }
                return ;
            }
            i = i + 1;
        }
        proof {
            assert(!orig.contains(id));
        }
    }

    /// How many connections are live.
    pub fn num_connected(&self) -> (n: usize)
        ensures
            n == self.connected@.len(),
    {
        self.connected.len()
    }

    /// One poll of a minimum-connectivity wait: ready as soon as enough
    /// connections are live; otherwise the wait times out exactly when the
    /// deadline is reached, and keeps waiting before it.
    pub fn poll_wait_for_connectivity(&self, now: u64, deadline: u64) -> (r: WaitOutcome)
        ensures
            r is Ready <==> self.connected@.len() >= self.min_connectivity,
            r is TimedOut <==> (self.connected@.len() < self.min_connectivity && now >= deadline),
            r is KeepWaiting <==> (self.connected@.len() < self.min_connectivity && now < deadline),
    {
        if self.connected.len() >= self.min_connectivity {
            WaitOutcome::Ready
        } else if now >= deadline {
            WaitOutcome::TimedOut
        } else {
            WaitOutcome::KeepWaiting
        }
    }

    /// The delay before the next dial attempt: the same constant interval
    /// whatever the attempt number.
    pub fn next_dial_delay_ms(&self, _attempt: u64) -> (d: u64)
        ensures
            d == DIAL_BACKOFF_MS,
    {
        DIAL_BACKOFF_MS
    }
}

} // verus!
