//! Node initialization: the fatal startup error taxonomy, the decisions
//! the comms stack is assembled from, and the one-shot service initializer.
//!
//! Every fatal startup error is typed; initialization either completes
//! whole or aborts — there is no partial startup. The initializer consumes
//! its application connector exactly once: running it a second time is a
//! typed error, not a crash.

use vstd::prelude::*;
use vstd::string::StringExecFns;
use crate::config::{network_byte, DhtConfig, DhtProtocolVersion, Network, P2pConfig};
use crate::config::{parse_cidrs, spec_cidr_of, valid_cidr, Cidr};

verus! {

/// Why the hidden-service controller failed.
#[derive(Debug)]
pub enum HiddenServiceControllerError {
    /// The Tor control port did not answer.
    TorControlPortOffline,
    /// Any other controller failure, with its description.
    Other(String),
}

/// A fatal startup error: initialization aborts entirely, nothing starts.
#[derive(Debug)]
pub enum CommsInitializationError {
    /// The comms stack could not be assembled.
    CommsBuilderError(String),
    /// The hidden-service controller failed.
    HiddenServiceControllerError(HiddenServiceControllerError),
    /// The overlay router could not start.
    DhtInitializationError(String),
    /// The hidden-service request was refused.
    HiddenServiceBuilderError(String),
    /// A liveness allow-list entry is not a CIDR network.
    InvalidLivenessCidrs(String),
    /// A seed peer could not be stored.
    FailedToAddSeedPeer(String),
    /// Another instance already holds the datastore's exclusive lock.
    CannotAcquireFileLock,
    /// The datastore directory or lock file could not be touched.
    IoError(String),
}

/// The text a startup failure shows the operator.
pub open spec fn friendly_string_of(e: CommsInitializationError) -> Seq<char> {
    match e {
        CommsInitializationError::HiddenServiceControllerError(
            HiddenServiceControllerError::TorControlPortOffline,
        ) => "Unable to connect to the Tor control port.\n    Please check that you have the Tor proxy running and that access to the Tor control port is turned on.\n    If you are unsure of what to do, use the following command to start the Tor proxy:\n    tor --allow-missing-torrc --ignore-missing-torrc --clientonly 1 --socksport 9050 --controlport 127.0.0.1:9051 --log \"warn stdout\" --clientuseipv6 1"@,
        CommsInitializationError::HiddenServiceControllerError(
            HiddenServiceControllerError::Other(d),
        ) => "Failed to initialize comms: "@ + d@,
        CommsInitializationError::CommsBuilderError(d) => "Failed to initialize comms: "@ + d@,
        CommsInitializationError::DhtInitializationError(d) => "Failed to initialize comms: "@
            + d@,
        CommsInitializationError::HiddenServiceBuilderError(d) => "Failed to initialize comms: "@
            + d@,
        CommsInitializationError::InvalidLivenessCidrs(d) => "Failed to initialize comms: "@ + d@,
        CommsInitializationError::FailedToAddSeedPeer(d) => "Failed to initialize comms: "@ + d@,
        CommsInitializationError::CannotAcquireFileLock => "Failed to initialize comms: cannot acquire exclusive file lock, another instance of the application is already running"@,
        CommsInitializationError::IoError(d) => "Failed to initialize comms: "@ + d@,
    }
}

impl CommsInitializationError {
    /// The operator-facing message: an unreachable Tor control port gets
    /// explicit remediation instructions, every other failure a short
    /// description.
    pub fn to_friendly_string(&self) -> (r: String)
        ensures
            r@ == friendly_string_of(*self),
    {
        match self {
            CommsInitializationError::HiddenServiceControllerError(
                HiddenServiceControllerError::TorControlPortOffline,
            ) => String::from_str(
                "Unable to connect to the Tor control port.\n    Please check that you have the Tor proxy running and that access to the Tor control port is turned on.\n    If you are unsure of what to do, use the following command to start the Tor proxy:\n    tor --allow-missing-torrc --ignore-missing-torrc --clientonly 1 --socksport 9050 --controlport 127.0.0.1:9051 --log \"warn stdout\" --clientuseipv6 1",
            ),
            CommsInitializationError::HiddenServiceControllerError(
                HiddenServiceControllerError::Other(d),
            ) => String::from_str("Failed to initialize comms: ").concat(d.as_str()),
            CommsInitializationError::CommsBuilderError(d) => String::from_str(
                "Failed to initialize comms: ",
            ).concat(d.as_str()),
            CommsInitializationError::DhtInitializationError(d) => String::from_str(
                "Failed to initialize comms: ",
            ).concat(d.as_str()),
            CommsInitializationError::HiddenServiceBuilderError(d) => String::from_str(
                "Failed to initialize comms: ",
            ).concat(d.as_str()),
            CommsInitializationError::InvalidLivenessCidrs(d) => String::from_str(
                "Failed to initialize comms: ",
            ).concat(d.as_str()),
            CommsInitializationError::FailedToAddSeedPeer(d) => String::from_str(
                "Failed to initialize comms: ",
            ).concat(d.as_str()),
            CommsInitializationError::CannotAcquireFileLock => String::from_str(
                "Failed to initialize comms: cannot acquire exclusive file lock, another instance of the application is already running",
            ),
            CommsInitializationError::IoError(d) => String::from_str(
                "Failed to initialize comms: ",
            ).concat(d.as_str()),
        }
    }
}

/// The protocol version this node announces in its handshake.
pub const MAJOR_NETWORK_VERSION: u32 = 0;

/// The minor protocol version this node announces.
pub const MINOR_NETWORK_VERSION: u32 = 0;

/// What a node announces about itself during connection setup.
pub struct NodeNetworkInfo {
    pub major_version: u32,
    pub minor_version: u32,
    pub network_byte: u8,
    pub user_agent: String,
}

/// Assembles the announcement: the library's protocol version, the
/// network's identifier byte, and the configured user agent.
pub fn node_network_info(network: Network, user_agent: String) -> (r: NodeNetworkInfo)
    ensures
        r.major_version == MAJOR_NETWORK_VERSION,
        r.minor_version == MINOR_NETWORK_VERSION,
        r.network_byte == network_byte(network),
        r.user_agent == user_agent,
{
    NodeNetworkInfo {
        major_version: MAJOR_NETWORK_VERSION,
        minor_version: MINOR_NETWORK_VERSION,
        network_byte: network.as_byte(),
        user_agent,
    }
}

/// The overlay parameters with the test-address policy forced to match the
/// node-wide setting — the two must never disagree.
pub fn dht_config_harmonized(dht: DhtConfig, allow_test_addresses: bool) -> (r: DhtConfig)
    ensures
        r.allow_test_addresses == allow_test_addresses,
        r.protocol_version == dht.protocol_version,
        r.num_neighbouring_nodes == dht.num_neighbouring_nodes,
        r.num_random_nodes == dht.num_random_nodes,
        r.propagation_factor == dht.propagation_factor,
{
    DhtConfig { allow_test_addresses, ..dht }
}

/// Which overlay protocol generation a network speaks: the one legacy
/// network stays on the first generation, everything else on the current.
pub fn dht_protocol_version_for(network: Network, configured: DhtProtocolVersion) -> (r:
    DhtProtocolVersion)
    ensures
        network is Weatherwax ==> r is V1,
        !(network is Weatherwax) ==> r == configured,
{
    match network {
        Network::Weatherwax => DhtProtocolVersion::V1,
        _ => configured,
    }
}

/// The decisions that assemble the comms stack and the overlay router from
/// one configuration.
#[derive(Debug)]
pub struct CommsAndDhtPlan {
    /// Milliseconds between dial retries; the backoff is constant.
    pub dial_backoff_ms: u64,
    /// How many tables the peer store may hold.
    pub max_databases: usize,
    /// Bound on listener liveness sessions.
    pub liveness_max_sessions: usize,
    /// The parsed liveness allow-list.
    pub liveness_allowlist: Vec<Cidr>,
    /// Whether an extra plain TCP listener is bound.
    pub use_auxilary_tcp_listener: bool,
    /// Whether the overlay's own RPC service is served — only a
    /// communication node serves it.
    pub add_dht_rpc_server: bool,
    /// The overlay protocol generation to speak.
    pub dht_protocol_version: DhtProtocolVersion,
    /// Capacity of the outbound message queue.
    pub outbound_buffer_size: usize,
    /// Bound on concurrent inbound pipeline tasks.
    pub max_concurrent_inbound_tasks: usize,
    /// Bound on concurrent outbound pipeline tasks.
    pub max_concurrent_outbound_tasks: usize,
}

/// Plans the comms and overlay assembly. Fails — fatally, applying nothing
/// — when a liveness allow-list entry is not a CIDR network, and carries
/// that entry in the error.
pub fn plan_comms_and_dht(config: &P2pConfig) -> (r: Result<
    CommsAndDhtPlan,
    CommsInitializationError,
>)
    ensures
        r is Ok <==> (forall|k: int|
            0 <= k < config.listener_liveness_allowlist_cidrs@.len() ==> valid_cidr(
                (#[trigger] config.listener_liveness_allowlist_cidrs@[k])@,
            )),
        r matches Ok(p) ==> {
            &&& p.dial_backoff_ms == 500
            &&& p.max_databases == 1
            &&& p.liveness_max_sessions == config.listener_liveness_max_sessions
            &&& p.liveness_allowlist@.len() == config.listener_liveness_allowlist_cidrs@.len()
            &&& forall|k: int|
                0 <= k < p.liveness_allowlist@.len() ==> p.liveness_allowlist@[k] == spec_cidr_of(
                    (#[trigger] config.listener_liveness_allowlist_cidrs@[k])@,
                )
            &&& p.use_auxilary_tcp_listener == (config.auxilary_tcp_listener_address is Some)
            &&& p.add_dht_rpc_server == (config.node_identity.features is CommunicationNode)
            &&& p.dht_protocol_version == (if config.network is Weatherwax {
                DhtProtocolVersion::V1
            } else {
                config.dht.protocol_version
            })
            &&& p.outbound_buffer_size == config.outbound_buffer_size
            &&& p.max_concurrent_inbound_tasks == config.max_concurrent_inbound_tasks
            &&& p.max_concurrent_outbound_tasks == config.max_concurrent_outbound_tasks
        },
        r matches Err(e) ==> (e matches CommsInitializationError::InvalidLivenessCidrs(bad)
            && exists|k: int|
            0 <= k < config.listener_liveness_allowlist_cidrs@.len() && !valid_cidr(
                (#[trigger] config.listener_liveness_allowlist_cidrs@[k])@,
            ) && bad@ == config.listener_liveness_allowlist_cidrs@[k]@),
{
    let liveness_allowlist = match parse_cidrs(&config.listener_liveness_allowlist_cidrs) {
        Ok(v) => v,
        Err(bad) => {
            return Err(CommsInitializationError::InvalidLivenessCidrs(bad));
        },
    };
    let use_auxilary_tcp_listener = match config.auxilary_tcp_listener_address {
        Some(_) => true,
        None => false,
    };
    let add_dht_rpc_server = match config.node_identity.features {
        crate::peer::PeerFeatures::CommunicationNode => true,
        crate::peer::PeerFeatures::CommunicationClient => false,
    };
    let dht_protocol_version = dht_protocol_version_for(
        config.network,
        config.dht.protocol_version,
    );
    Ok(
        CommsAndDhtPlan {
            dial_backoff_ms: 500,
            max_databases: 1,
            liveness_max_sessions: config.listener_liveness_max_sessions,
            liveness_allowlist,
            use_auxilary_tcp_listener,
            add_dht_rpc_server,
            dht_protocol_version,
            outbound_buffer_size: config.outbound_buffer_size,
            max_concurrent_inbound_tasks: config.max_concurrent_inbound_tasks,
            max_concurrent_outbound_tasks: config.max_concurrent_outbound_tasks,
        },
    )
}

/// The fixed settings of the in-memory comms stack used by local tests.
pub struct LocalTestCommsSettings {
    pub liveness_max_sessions: usize,
    pub user_agent: String,
    pub dial_backoff_ms: u64,
    pub min_connectivity: usize,
    pub outbound_buffer_size: usize,
    pub max_concurrent_inbound_tasks: usize,
    pub event_channel_capacity: usize,
    pub max_databases: usize,
}

/// The local test stack: one liveness session, the test user agent, a
/// half-second constant dial backoff, a minimum connectivity of one, small
/// bounded queues and one peer table.
pub fn local_test_comms_settings() -> (r: LocalTestCommsSettings)
    ensures
        r.liveness_max_sessions == 1,
        r.user_agent@ == "/test/1.0"@,
        r.dial_backoff_ms == 500,
        r.min_connectivity == 1,
        r.outbound_buffer_size == 10,
        r.max_concurrent_inbound_tasks == 10,
        r.event_channel_capacity == 100,
        r.max_databases == 1,
{
    LocalTestCommsSettings {
        liveness_max_sessions: 1,
        user_agent: String::from_str("/test/1.0"),
        dial_backoff_ms: 500,
        min_connectivity: 1,
        outbound_buffer_size: 10,
        max_concurrent_inbound_tasks: 10,
        event_channel_capacity: 100,
        max_databases: 1,
    }
}

/// Running the initializer a second time.
#[derive(Debug, PartialEq, Eq)]
pub enum ServiceInitializationError {
    /// The one-shot connector was already consumed.
    InitializerAlreadyRun,
}

/// The p2p service initializer: configuration plus the application's
/// inbound connector, which initialization consumes exactly once.
pub struct P2pInitializer<C> {
    pub config: P2pConfig,
    pub connector: Option<C>,
}

impl<C> P2pInitializer<C> {
    /// A fresh initializer holding its connector.
    pub fn new(config: P2pConfig, connector: C) -> (r: P2pInitializer<C>)
        ensures
            r.config == config,
            r.connector == Some(connector),
    {
        P2pInitializer { config, connector: Some(connector) }
    }

    /// Takes the connector out. The first call yields it; any further call
    /// is the typed reuse error — initialization is one-shot by
    /// construction, not by crashing.
    pub fn take_connector(&mut self) -> (r: Result<C, ServiceInitializationError>)
        ensures
            final(self).config == old(self).config,
            final(self).connector is None,
            old(self).connector matches Some(c) ==> r == Ok::<C, ServiceInitializationError>(c),
            old(self).connector is None ==> r == Err::<C, ServiceInitializationError>(
                ServiceInitializationError::InitializerAlreadyRun,
            ),
    {
        match self.connector.take() {
            Some(c) => Ok(c),
            None => Err(ServiceInitializationError::InitializerAlreadyRun),
        }
    }
}

} // verus!
