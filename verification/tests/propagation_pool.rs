use p2p_core::node_id::NodeId;
use p2p_core::pool::{ConnectionPool, PoolChange};
use p2p_core::propagation::{
    select_broadcast_targets, InboundDisposition, RecentMessages, PROPAGATION_FACTOR,
};

fn n(id: u64) -> NodeId {
    NodeId { id }
}

fn pool_ids(v: &Vec<NodeId>) -> Vec<u64> {
    v.iter().map(|x| x.id).collect()
}

#[test]
fn pool_bounds_and_disjointness_hold() {
    // Local node 0; two neighbour slots, two random slots.
    let mut pool = ConnectionPool::new(n(0), 2, 2);
    for id in [1u64, 2, 3, 4, 5, 6, 7] {
        pool.on_peer_connected(n(id));
    }
    assert!(pool.neighbours.len() <= 2);
    assert!(pool.random.len() <= 2);
    for x in &pool.neighbours {
        assert!(!pool.random.contains(x));
        assert_ne!(x.id, 0);
    }
    for x in &pool.random {
        assert_ne!(x.id, 0);
    }
}

#[test]
fn pool_keeps_closest_as_neighbours() {
    // Distances from 0 are the ids themselves, so 1 and 2 are closest.
    let mut pool = ConnectionPool::new(n(0), 2, 8);
    for id in [7u64, 5, 1, 2, 6] {
        pool.on_peer_connected(n(id));
    }
    assert_eq!(pool_ids(&pool.neighbours), vec![1, 2]);
}

#[test]
fn pool_neighbours_sorted_closest_first() {
    let mut pool = ConnectionPool::new(n(0), 4, 0);
    for id in [9u64, 3, 7, 1] {
        pool.on_peer_connected(n(id));
    }
    assert_eq!(pool_ids(&pool.neighbours), vec![1, 3, 7, 9]);
}

#[test]
fn pool_duplicate_and_self_connections_change_nothing() {
    let mut pool = ConnectionPool::new(n(0), 2, 2);
    pool.on_peer_connected(n(1));
    let again = pool.on_peer_connected(n(1));
    assert!(matches!(again, PoolChange::Unchanged));
    let own = pool.on_peer_connected(n(0));
    assert!(matches!(own, PoolChange::Unchanged));
    assert_eq!(pool.neighbours.len(), 1);
    assert_eq!(pool.random.len(), 0);
}

#[test]
fn pool_disconnect_removes_only_that_peer() {
    let mut pool = ConnectionPool::new(n(0), 2, 2);
    for id in [1u64, 2, 3, 4] {
        pool.on_peer_connected(n(id));
    }
    pool.on_peer_disconnected(n(1));
    assert!(!pool.contains(n(1)));
    assert!(pool.contains(n(2)));
    pool.on_peer_disconnected(n(3));
    assert!(!pool.contains(n(3)));
}

#[test]
fn pool_promotes_closest_random_member_when_a_neighbour_leaves() {
    let mut pool = ConnectionPool::new(n(0), 2, 4);
    for id in [1u64, 2, 5, 9, 7] {
        pool.on_peer_connected(n(id));
    }
    assert_eq!(pool_ids(&pool.neighbours), vec![1, 2]);
    assert_eq!(pool.random.len(), 3);
    pool.on_peer_disconnected(n(1));
    // The closest random member takes the vacated slot.
    assert_eq!(pool_ids(&pool.neighbours), vec![2, 5]);
    assert!(!pool.random.contains(&n(5)));
    assert_eq!(pool.random.len(), 2);
    assert!(pool.contains(n(9)));
    assert!(pool.contains(n(7)));
}

#[test]
fn fanout_bounded_and_excludes_sender() {
    let mut pool = ConnectionPool::new(n(0), 8, 4);
    for id in 1u64..=10 {
        pool.on_peer_connected(n(id));
    }
    let sender = n(1);
    let targets = select_broadcast_targets(&pool, PROPAGATION_FACTOR, Some(sender), &vec![]);
    assert!(targets.len() <= PROPAGATION_FACTOR);
    assert!(!targets.contains(&sender));
    for t in &targets {
        assert!(pool.contains(*t));
    }
}

#[test]
fn fanout_excludes_peers_that_already_saw_the_message() {
    let mut pool = ConnectionPool::new(n(0), 4, 0);
    for id in [1u64, 2, 3] {
        pool.on_peer_connected(n(id));
    }
    let seen_by = vec![n(2)];
    let targets = select_broadcast_targets(&pool, 4, None, &seen_by);
    assert!(!targets.contains(&n(2)));
    assert!(targets.contains(&n(1)));
    assert!(targets.contains(&n(3)));
}

#[test]
fn fanout_prefers_neighbours_over_random() {
    let mut pool = ConnectionPool::new(n(0), 2, 4);
    for id in [1u64, 2, 9, 8, 7] {
        pool.on_peer_connected(n(id));
    }
    // Neighbours are 1 and 2; the rest went to the random subset.
    let targets = select_broadcast_targets(&pool, 3, None, &vec![]);
    assert_eq!(targets.len(), 3);
    assert_eq!(targets[0].id, 1);
    assert_eq!(targets[1].id, 2);
    assert!(pool.random.contains(&targets[2]));
}

#[test]
fn recently_seen_message_is_dropped_not_redelivered() {
    let mut seen = RecentMessages::new(16);
    let first = seen.handle_inbound(42);
    assert!(matches!(first, InboundDisposition::Deliver));
    let len_after_first = seen.ids.len();
    let second = seen.handle_inbound(42);
    assert!(matches!(second, InboundDisposition::Drop));
    assert_eq!(seen.ids.len(), len_after_first);
}

#[test]
fn recently_seen_set_is_bounded_and_evicts_oldest() {
    let mut seen = RecentMessages::new(3);
    for id in [1u64, 2, 3] {
        seen.record(id);
    }
    assert_eq!(seen.ids, vec![1, 2, 3]);
    seen.record(4);
    assert_eq!(seen.ids, vec![2, 3, 4]);
    assert!(!seen.contains(1));
    assert!(seen.contains(4));
}

#[test]
fn broadcast_reaches_two_hops_exactly_once() {
    // Node a knows b; node b knows a and c; node c is two hops from a.
    let a = n(0x10);
    let b = n(0x20);
    let c = n(0x30);
    let mut a_pool = ConnectionPool::new(a, 8, 4);
    a_pool.on_peer_connected(b);
    let mut b_pool = ConnectionPool::new(b, 8, 4);
    b_pool.on_peer_connected(a);
    b_pool.on_peer_connected(c);
    let mut b_seen = RecentMessages::new(16);
    let mut c_seen = RecentMessages::new(16);
    let message = 777u64;

    // a broadcasts: b, directly connected and pooled, is a target.
    let from_a = select_broadcast_targets(&a_pool, PROPAGATION_FACTOR, None, &vec![]);
    assert!(from_a.contains(&b));

    // b receives it exactly once.
    assert!(matches!(b_seen.handle_inbound(message), InboundDisposition::Deliver));
    assert!(matches!(b_seen.handle_inbound(message), InboundDisposition::Drop));

    // b forwards, never back to a; c is within reach and has not seen it.
    let from_b = select_broadcast_targets(&b_pool, PROPAGATION_FACTOR, Some(a), &vec![]);
    assert!(!from_b.contains(&a));
    assert!(from_b.contains(&c));

    // c receives it exactly once as well.
    assert!(matches!(c_seen.handle_inbound(message), InboundDisposition::Deliver));
    assert!(matches!(c_seen.handle_inbound(message), InboundDisposition::Drop));
}
