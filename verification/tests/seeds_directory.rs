use p2p_core::directory::PeerDirectory;
use p2p_core::node_id::NodeId;
use p2p_core::peer::{Peer, PeerFeatures};
use p2p_core::seeds::{collect_dns_seed_results, parse_seed, try_parse_seed_peers};

#[test]
fn node_id_derives_from_leading_key_bytes() {
    let key = vec![0x01u8, 0x02, 0x03, 0x04, 0x05, 0x06, 0x07, 0x08, 0xff, 0xff];
    assert_eq!(NodeId::from_public_key(&key).id, 0x0102030405060708);
    let short = vec![0xabu8, 0xcd];
    assert_eq!(NodeId::from_public_key(&short).id, 0xabcd);
}

#[test]
fn distance_is_xor_of_ids() {
    let a = NodeId { id: 0b1100 };
    let b = NodeId { id: 0b1010 };
    assert_eq!(a.distance(&b), 0b0110);
    assert_eq!(b.distance(&a), 0b0110);
    assert_eq!(a.distance(&a), 0);
}

#[test]
fn seed_string_parses_into_key_and_address() {
    let sp = parse_seed("abcd@addr1").unwrap();
    assert_eq!(sp.public_key, vec![0xab, 0xcd]);
    assert_eq!(sp.address, "addr1");
    let upper = parse_seed("AB01@addr").unwrap();
    assert_eq!(upper.public_key, vec![0xab, 0x01]);
}

#[test]
fn malformed_seed_strings_are_refused() {
    // A non-hex digit in the key.
    assert!(parse_seed("defg@addr2").is_none());
    // An odd number of hex digits.
    assert!(parse_seed("abc@addr").is_none());
    // No separator, no key, no address.
    assert!(parse_seed("abcd").is_none());
    assert!(parse_seed("@addr").is_none());
    assert!(parse_seed("abcd@").is_none());
}

#[test]
fn seed_batch_skips_malformed_entries_without_failing() {
    let seeds = vec![String::from("abcd@addr1"), String::from("defg@addr2")];
    let (peers, skipped) = try_parse_seed_peers(&seeds);
    assert_eq!(peers.len(), 1);
    assert_eq!(skipped, 1);
    assert_eq!(peers[0].public_key, vec![0xab, 0xcd]);
    assert_eq!(peers[0].addresses, vec![String::from("addr1")]);
    assert!(matches!(peers[0].features, PeerFeatures::CommunicationNode));
}

#[test]
fn failed_dns_hosts_are_skipped_not_fatal() {
    let p1 = Peer::new(vec![1u8, 2], vec![], PeerFeatures::CommunicationNode);
    let p2 = Peer::new(vec![3u8, 4], vec![], PeerFeatures::CommunicationNode);
    let results = vec![Some(vec![p1]), None, Some(vec![p2])];
    let peers = collect_dns_seed_results(results);
    assert_eq!(peers.len(), 2);
    assert_eq!(peers[0].public_key, vec![1, 2]);
    assert_eq!(peers[1].public_key, vec![3, 4]);
}

#[test]
fn directory_never_stores_the_local_node() {
    let local_key = vec![9u8, 9, 9, 9, 9, 9, 9, 9];
    let local = NodeId::from_public_key(&local_key);
    let mut dir = PeerDirectory::new(local);
    let own = Peer::new(local_key, vec![String::from("addr")], PeerFeatures::CommunicationNode);
    dir.add_peer(own);
    assert_eq!(dir.len(), 0);
    let other = Peer::new(vec![1u8, 1, 1, 1, 1, 1, 1, 1], vec![], PeerFeatures::CommunicationNode);
    dir.add_peer(other);
    assert_eq!(dir.len(), 1);
}

#[test]
fn directory_updates_are_last_write_wins() {
    let mut dir = PeerDirectory::new(NodeId { id: 0 });
    let key = vec![5u8, 5, 5, 5, 5, 5, 5, 5];
    let first = Peer::new(key.clone(), vec![String::from("old")], PeerFeatures::CommunicationNode);
    let second = Peer::new(key.clone(), vec![String::from("new")], PeerFeatures::CommunicationNode);
    dir.add_peer(first);
    dir.add_peer(second);
    assert_eq!(dir.len(), 1);
    let id = NodeId::from_public_key(&key);
    let stored = dir.find_by_node_id(id).unwrap();
    assert_eq!(stored.addresses, vec![String::from("new")]);
}

#[test]
fn batch_insertion_skips_the_local_node() {
    let local_key = vec![7u8, 0, 0, 0, 0, 0, 0, 0];
    let local = NodeId::from_public_key(&local_key);
    let mut dir = PeerDirectory::new(local);
    let own = Peer::new(local_key, vec![], PeerFeatures::CommunicationNode);
    let other = Peer::new(vec![8u8, 0, 0, 0, 0, 0, 0, 0], vec![], PeerFeatures::CommunicationNode);
    dir.add_all_peers(vec![own, other]);
    assert_eq!(dir.len(), 1);
    assert!(dir.find_by_node_id(local).is_none());
}

#[test]
fn directory_lookup_misses_unknown_ids() {
    let dir = PeerDirectory::new(NodeId { id: 0 });
    assert!(dir.find_by_node_id(NodeId { id: 42 }).is_none());
}
