use p2p_core::config::{
    parse_cidr, parse_cidrs, parse_ipv4, parse_socket_addr, Cidr, CollectiblesConfig,
    DhtConfig, DhtProtocolVersion, Network, SocketAddress,
};
use p2p_core::factories::CryptoFactories;
use p2p_core::guard::{lock_file_path, StoreLockRegistry};
use p2p_core::init::{
    dht_config_harmonized, dht_protocol_version_for, local_test_comms_settings,
    node_network_info, CommsInitializationError, HiddenServiceControllerError, P2pInitializer,
    ServiceInitializationError, MAJOR_NETWORK_VERSION, MINOR_NETWORK_VERSION,
};
use p2p_core::pipeline::BoundedQueue;
use p2p_core::random::{pick_index, random_database_name};
use p2p_core::rpc::HandshakeRejectReason;
use p2p_core::transport::{
    hidden_service_request, transport_plan, SocksAuthentication, SocksConfig,
    TorControlAuthentication, TorConfig, TorPortMapping, TransportKind, TransportType,
};

#[test]
fn ipv4_parses_exactly() {
    assert_eq!(parse_ipv4("127.0.0.1"), Some((127, 0, 0, 1)));
    assert_eq!(parse_ipv4("255.254.1.0"), Some((255, 254, 1, 0)));
    assert!(parse_ipv4("127.0.0").is_none());
    assert!(parse_ipv4("256.0.0.1").is_none());
    assert!(parse_ipv4("1.2.3.4.5").is_none());
    assert!(parse_ipv4("a.b.c.d").is_none());
    assert!(parse_ipv4("1..2.3").is_none());
}

#[test]
fn cidr_entries_parse_exactly() {
    assert_eq!(
        parse_cidr("10.0.0.0/8"),
        Some(Cidr { a: 10, b: 0, c: 0, d: 0, prefix: 8 })
    );
    assert_eq!(
        parse_cidr("192.168.1.0/24"),
        Some(Cidr { a: 192, b: 168, c: 1, d: 0, prefix: 24 })
    );
    assert!(parse_cidr("10.0.0.0/33").is_none());
    assert!(parse_cidr("10.0.0.0").is_none());
    assert!(parse_cidr("10.0.0/8").is_none());
}

#[test]
fn invalid_allowlist_entry_is_fatal_and_named() {
    let good = vec![String::from("127.0.0.1/32"), String::from("10.0.0.0/8")];
    let parsed = parse_cidrs(&good).unwrap();
    assert_eq!(parsed.len(), 2);
    let mixed = vec![String::from("127.0.0.1/32"), String::from("not-a-cidr")];
    let bad = parse_cidrs(&mixed).unwrap_err();
    assert_eq!(bad, "not-a-cidr");
}

#[test]
fn socket_addresses_parse_exactly() {
    assert_eq!(
        parse_socket_addr("127.0.0.1:18144"),
        Some(SocketAddress { a: 127, b: 0, c: 0, d: 1, port: 18144 })
    );
    assert!(parse_socket_addr("127.0.0.1").is_none());
    assert!(parse_socket_addr("127.0.0.1:99999").is_none());
}

#[test]
fn collectibles_defaults_are_the_loopback_endpoints() {
    let cfg = CollectiblesConfig::default();
    assert_eq!(cfg.validator_node_grpc_address.port, 18144);
    assert_eq!(cfg.base_node_grpc_address.port, 18142);
    assert_eq!(cfg.wallet_grpc_address.port, 18143);
    assert_eq!(cfg.validator_node_grpc_address.a, 127);
    assert_eq!(cfg.validator_node_grpc_address.d, 1);
}

#[test]
fn collectibles_section_falls_back_and_refuses_malformed() {
    let whole = CollectiblesConfig::convert_if_present(None, None, None).unwrap();
    assert_eq!(whole, CollectiblesConfig::default());
    let custom =
        CollectiblesConfig::convert_if_present(Some("10.1.1.1:900"), None, None).unwrap();
    assert_eq!(custom.validator_node_grpc_address.port, 900);
    assert_eq!(custom.base_node_grpc_address.port, 18142);
    assert!(CollectiblesConfig::convert_if_present(Some("nonsense"), None, None).is_none());
}

#[test]
fn network_bytes_are_stable() {
    assert_eq!(Network::MainNet.as_byte(), 0x00);
    assert_eq!(Network::Weatherwax.as_byte(), 0xa3);
    assert_eq!(Network::Igor.as_byte(), 0x24);
    assert_eq!(Network::LocalNet.as_byte(), 0x10);
}

#[test]
fn node_announcement_carries_version_and_network() {
    let info = node_network_info(Network::Weatherwax, String::from("/test/agent"));
    assert_eq!(info.major_version, MAJOR_NETWORK_VERSION);
    assert_eq!(info.minor_version, MINOR_NETWORK_VERSION);
    assert_eq!(info.network_byte, 0xa3);
    assert_eq!(info.user_agent, "/test/agent");
}

#[test]
fn test_address_policy_always_matches_node_wide_setting() {
    let dht = DhtConfig::default();
    let harmonized = dht_config_harmonized(dht, true);
    assert!(harmonized.allow_test_addresses);
    assert_eq!(harmonized.num_neighbouring_nodes, dht.num_neighbouring_nodes);
    assert_eq!(harmonized.num_random_nodes, dht.num_random_nodes);
    let back = dht_config_harmonized(harmonized, false);
    assert!(!back.allow_test_addresses);
}

#[test]
fn legacy_network_speaks_the_first_protocol_generation() {
    assert_eq!(
        dht_protocol_version_for(Network::Weatherwax, DhtProtocolVersion::V2),
        DhtProtocolVersion::V1
    );
    assert_eq!(
        dht_protocol_version_for(Network::MainNet, DhtProtocolVersion::V2),
        DhtProtocolVersion::V2
    );
}

#[test]
fn local_test_stack_settings_are_fixed() {
    let s = local_test_comms_settings();
    assert_eq!(s.liveness_max_sessions, 1);
    assert_eq!(s.user_agent, "/test/1.0");
    assert_eq!(s.dial_backoff_ms, 500);
    assert_eq!(s.min_connectivity, 1);
    assert_eq!(s.outbound_buffer_size, 10);
    assert_eq!(s.max_concurrent_inbound_tasks, 10);
    assert_eq!(s.event_channel_capacity, 100);
    assert_eq!(s.max_databases, 1);
}

fn sample_config() -> p2p_core::config::P2pConfig {
    let dht = DhtConfig::default();
    let identity = p2p_core::peer::NodeIdentity::new(
        vec![1u8, 2, 3, 4, 5, 6, 7, 8],
        String::from("/memory/1"),
        p2p_core::peer::PeerFeatures::CommunicationNode,
    );
    p2p_core::config::P2pConfig {
        datastore_path: String::from("/tmp/data"),
        peer_database_name: String::from("peers"),
        max_concurrent_inbound_tasks: 10,
        max_concurrent_outbound_tasks: 10,
        outbound_buffer_size: 10,
        dht,
        network: Network::LocalNet,
        node_identity: identity,
        transport_type: TransportType::Memory { listener_address: String::from("/memory/1") },
        allow_test_addresses: true,
        listener_liveness_max_sessions: 1,
        listener_liveness_allowlist_cidrs: vec![],
        user_agent: String::from("/test/1.0"),
        peer_seeds: vec![],
        dns_seeds: vec![],
        dns_seeds_name_server: String::from("1.1.1.1:853"),
        dns_seeds_use_dnssec: false,
        auxilary_tcp_listener_address: None,
    }
}

#[test]
fn initializer_connector_is_consumed_exactly_once() {
    let config = sample_config();
    let mut init = P2pInitializer::new(config, "connector");
    assert_eq!(init.take_connector(), Ok("connector"));
    assert_eq!(
        init.take_connector(),
        Err(ServiceInitializationError::InitializerAlreadyRun)
    );
}

#[test]
fn exclusive_lock_admits_one_holder_per_path() {
    let mut registry = StoreLockRegistry::new();
    let path = String::from("/var/data/node");
    let handle = registry.acquire(&path).unwrap();
    // The second attempt on the same path fails with the lock error.
    let second = registry.acquire(&path).unwrap_err();
    assert!(matches!(second, CommsInitializationError::CannotAcquireFileLock));
    // Another path is independent.
    let other = registry.acquire(&String::from("/var/data/other")).unwrap();
    // Releasing frees the path for a new holder.
    registry.release(handle);
    assert!(registry.acquire(&path).is_ok());
    registry.release(other);
}

#[test]
fn lock_file_sits_inside_the_datastore_directory() {
    assert_eq!(lock_file_path("/var/data/node"), "/var/data/node/.p2p_file.lock");
}

#[test]
fn cannot_acquire_lock_message_names_the_cause() {
    let msg = CommsInitializationError::CannotAcquireFileLock.to_friendly_string();
    assert!(msg.contains("another instance"));
}

#[test]
fn tor_control_port_failure_explains_remediation() {
    let err = CommsInitializationError::HiddenServiceControllerError(
        HiddenServiceControllerError::TorControlPortOffline,
    );
    let msg = err.to_friendly_string();
    assert!(msg.starts_with("Unable to connect to the Tor control port."));
    assert!(msg.contains("--controlport 127.0.0.1:9051"));
}

#[test]
fn transport_dispatch_is_exact_per_variant() {
    let memory = TransportType::Memory { listener_address: String::from("/memory/7") };
    let plan = transport_plan(memory, None).unwrap();
    assert!(matches!(plan.kind, TransportKind::Memory));
    assert_eq!(plan.listener_address, "/memory/7");
    assert!(!plan.retain_hidden_service_controller);

    let tcp = TransportType::Tcp {
        listener_address: String::from("/ip4/0.0.0.0/tcp/18189"),
        tor_socks_config: None,
    };
    let plan = transport_plan(tcp, None).unwrap();
    assert!(matches!(plan.kind, TransportKind::Tcp { tor_socks_config: None }));

    let socks = TransportType::Socks {
        socks_config: SocksConfig {
            proxy_address: String::from("/ip4/127.0.0.1/tcp/9050"),
            authentication: SocksAuthentication::Anonymous,
        },
        listener_address: String::from("/ip4/0.0.0.0/tcp/18190"),
    };
    let plan = transport_plan(socks, None).unwrap();
    assert!(matches!(plan.kind, TransportKind::Socks { .. }));
}

fn sample_tor_config() -> TorConfig {
    TorConfig {
        control_server_addr: String::from("/ip4/127.0.0.1/tcp/9051"),
        control_server_auth: TorControlAuthentication::Anonymous,
        port_mapping: TorPortMapping {
            onion_port: 18141,
            proxied_address: String::from("127.0.0.1:18101"),
        },
        socks_address_override: None,
        socks_auth: SocksAuthentication::Anonymous,
        tor_proxy_bypass_addresses: vec![],
        tor_proxy_bypass_for_outbound_tcp: true,
        identity: None,
    }
}

#[test]
fn tor_listener_binds_the_proxied_address_and_retains_the_controller() {
    let plan =
        transport_plan(TransportType::Tor(sample_tor_config()), Some(String::from("127.0.0.1:18101")))
            .unwrap();
    assert!(matches!(plan.kind, TransportKind::Tor));
    assert_eq!(plan.listener_address, "127.0.0.1:18101");
    assert!(plan.retain_hidden_service_controller);
}

#[test]
fn unreachable_tor_controller_is_fatal_never_a_fallback() {
    let err = transport_plan(TransportType::Tor(sample_tor_config()), None).unwrap_err();
    assert!(matches!(
        err,
        CommsInitializationError::HiddenServiceControllerError(
            HiddenServiceControllerError::TorControlPortOffline
        )
    ));
}

#[test]
fn hidden_service_request_maps_every_field_and_detaches() {
    let config = sample_tor_config();
    let req = hidden_service_request(config);
    assert!(req.detach);
    assert_eq!(req.port_mapping.onion_port, 18141);
    assert_eq!(req.port_mapping.proxied_address, "127.0.0.1:18101");
    assert!(req.bypass_tor_for_tcp_addresses);
    assert_eq!(req.control_server_addr, "/ip4/127.0.0.1/tcp/9051");
}

#[test]
fn full_queue_rejects_the_producer_and_keeps_order() {
    let mut q: BoundedQueue<u32> = BoundedQueue::new(2);
    assert!(q.enqueue(1).is_ok());
    assert!(q.enqueue(2).is_ok());
    let (back, _) = q.enqueue(3).unwrap_err();
    assert_eq!(back, 3);
    assert_eq!(q.len(), 2);
    assert_eq!(q.dequeue(), Some(1));
    assert_eq!(q.dequeue(), Some(2));
    assert_eq!(q.dequeue(), None);
}

#[test]
fn random_database_name_is_eight_alphanumerics() {
    let name = random_database_name();
    assert_eq!(name.len(), 8);
    assert!(name.chars().all(|c| c.is_ascii_alphanumeric()));
}

#[test]
fn random_index_stays_below_its_bound() {
    for _ in 0..100 {
        assert!(pick_index(5) < 5);
    }
    assert_eq!(pick_index(1), 0);
}

#[test]
fn crypto_factories_keep_their_range() {
    assert_eq!(CryptoFactories::default().max_proof_range, 64);
    assert_eq!(CryptoFactories::new(32).max_proof_range, 32);
    let f = CryptoFactories::new(16);
    assert_eq!(f.clone(), f);
}

#[test]
fn reject_reason_unknown_keeps_generic_text() {
    match HandshakeRejectReason::from_wire_code(12345) {
        HandshakeRejectReason::Unknown(text) => {
            assert_eq!(text, "reject reason is not known");
        },
        _ => panic!("an out-of-range code must decode to the unknown reason"),
    }
}

#[test]
fn comms_plan_carries_the_configured_decisions() {
    let mut config = sample_config();
    config.network = Network::Weatherwax;
    config.listener_liveness_allowlist_cidrs = vec![String::from("127.0.0.1/32")];
    config.auxilary_tcp_listener_address = Some(String::from("/ip4/127.0.0.1/tcp/18190"));
    let plan = p2p_core::init::plan_comms_and_dht(&config).unwrap();
    assert_eq!(plan.dial_backoff_ms, 500);
    assert_eq!(plan.max_databases, 1);
    assert_eq!(plan.liveness_max_sessions, 1);
    assert_eq!(plan.liveness_allowlist.len(), 1);
    assert_eq!(plan.liveness_allowlist[0].prefix, 32);
    assert!(plan.use_auxilary_tcp_listener);
    // A communication node serves the overlay's own RPC service.
    assert!(plan.add_dht_rpc_server);
    // The legacy network speaks the first protocol generation.
    assert_eq!(plan.dht_protocol_version, DhtProtocolVersion::V1);
    assert_eq!(plan.outbound_buffer_size, 10);
}

#[test]
fn comms_plan_refuses_a_bad_allowlist_entry_fatally() {
    let mut config = sample_config();
    config.listener_liveness_allowlist_cidrs =
        vec![String::from("127.0.0.1/32"), String::from("bogus")];
    let err = p2p_core::init::plan_comms_and_dht(&config).unwrap_err();
    assert!(matches!(
        err,
        CommsInitializationError::InvalidLivenessCidrs(bad) if bad == "bogus"
    ));
}
