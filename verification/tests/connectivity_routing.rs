use p2p_core::connectivity::{ConnectivityManager, WaitOutcome, DIAL_BACKOFF_MS};
use p2p_core::node_id::NodeId;
use p2p_core::pool::ConnectionPool;
use p2p_core::propagation::{
    route_inbound, Destination, InboundDisposition, MessageEnvelope, RecentMessages,
    PROPAGATION_FACTOR,
};

fn n(id: u64) -> NodeId {
    NodeId { id }
}

#[test]
fn connectivity_waits_until_the_minimum_then_reports_ready() {
    let mut manager = ConnectivityManager::new(2);
    assert!(matches!(manager.poll_wait_for_connectivity(0, 100), WaitOutcome::KeepWaiting));
    manager.on_connected(n(1));
    assert!(matches!(manager.poll_wait_for_connectivity(50, 100), WaitOutcome::KeepWaiting));
    manager.on_connected(n(2));
    assert!(matches!(manager.poll_wait_for_connectivity(50, 100), WaitOutcome::Ready));
    // Ready even past the deadline once the minimum holds.
    assert!(matches!(manager.poll_wait_for_connectivity(500, 100), WaitOutcome::Ready));
}

#[test]
fn connectivity_wait_times_out_at_the_deadline() {
    let manager = ConnectivityManager::new(1);
    assert!(matches!(manager.poll_wait_for_connectivity(99, 100), WaitOutcome::KeepWaiting));
    assert!(matches!(manager.poll_wait_for_connectivity(100, 100), WaitOutcome::TimedOut));
}

#[test]
fn connectivity_tracks_connections_without_duplicates() {
    let mut manager = ConnectivityManager::new(1);
    manager.on_connected(n(1));
    manager.on_connected(n(1));
    assert_eq!(manager.num_connected(), 1);
    manager.on_connected(n(2));
    assert_eq!(manager.num_connected(), 2);
    manager.on_disconnected(n(1));
    assert_eq!(manager.num_connected(), 1);
    assert!(!manager.is_connected(n(1)));
    assert!(manager.is_connected(n(2)));
}

#[test]
fn dial_backoff_is_a_constant_interval() {
    let manager = ConnectivityManager::new(1);
    assert_eq!(manager.next_dial_delay_ms(0), DIAL_BACKOFF_MS);
    assert_eq!(manager.next_dial_delay_ms(7), DIAL_BACKOFF_MS);
    assert_eq!(DIAL_BACKOFF_MS, 500);
}

fn broadcast_envelope(origin: NodeId, message_id: u64) -> MessageEnvelope {
    MessageEnvelope {
        origin,
        message_id,
        destination: Destination::Broadcast,
        payload: vec![1, 2, 3],
    }
}

#[test]
fn router_forwards_a_first_seen_broadcast_and_drops_the_echo() {
    let local = n(0);
    let sender = n(1);
    let mut pool = ConnectionPool::new(local, 8, 4);
    for id in [1u64, 2, 3] {
        pool.on_peer_connected(n(id));
    }
    let mut seen = RecentMessages::new(16);
    let envelope = broadcast_envelope(n(9), 55);

    let (disposition, targets) =
        route_inbound(&mut seen, &pool, &envelope, sender, PROPAGATION_FACTOR);
    assert!(matches!(disposition, InboundDisposition::Deliver));
    assert!(targets.len() <= PROPAGATION_FACTOR);
    assert!(!targets.contains(&sender));
    assert!(targets.contains(&n(2)));
    assert!(targets.contains(&n(3)));

    // The same message id again: dropped, forwarded to nobody.
    let (disposition, targets) =
        route_inbound(&mut seen, &pool, &envelope, sender, PROPAGATION_FACTOR);
    assert!(matches!(disposition, InboundDisposition::Drop));
    assert!(targets.is_empty());
}

#[test]
fn router_delivers_a_direct_message_without_forwarding() {
    let local = n(0);
    let mut pool = ConnectionPool::new(local, 8, 4);
    pool.on_peer_connected(n(2));
    let mut seen = RecentMessages::new(16);
    let envelope = MessageEnvelope {
        origin: n(9),
        message_id: 77,
        destination: Destination::Direct(local),
        payload: vec![],
    };
    let (disposition, targets) = route_inbound(&mut seen, &pool, &envelope, n(2), 4);
    assert!(matches!(disposition, InboundDisposition::Deliver));
    assert!(targets.is_empty());
}
