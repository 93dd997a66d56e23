//! Transport selection: the tagged transport variants and the dispatch
//! that turns a selection into a listener/dialer plan.
//!
//! The Tor variant needs a hidden-service controller first: the controller
//! publishes an onion address mapped to a local proxied address, and that
//! proxied address becomes the listener's bind address. The controller's
//! session runs outside this library; the dispatch here consumes what it
//! yielded and fails with the typed controller error — never a silent
//! fallback — when the controller could not be reached.

use vstd::prelude::*;
use crate::init::{CommsInitializationError, HiddenServiceControllerError};

verus! {

/// How a SOCKS proxy authenticates a client.
#[derive(Debug)]
pub enum SocksAuthentication {
    Anonymous,
    UsernamePassword { username: String, password: String },
}

/// Connection details of a SOCKS5 proxy.
#[derive(Debug)]
pub struct SocksConfig {
    pub proxy_address: String,
    pub authentication: SocksAuthentication,
}

/// How a Tor control server authenticates a client.
#[derive(Debug)]
pub enum TorControlAuthentication {
    Anonymous,
    Password(String),
}

/// One onion-port-to-local-address mapping of a hidden service.
#[derive(Debug)]
pub struct TorPortMapping {
    pub onion_port: u16,
    pub proxied_address: String,
}

/// Everything the hidden-service controller needs.
#[derive(Debug)]
pub struct TorConfig {
    pub control_server_addr: String,
    pub control_server_auth: TorControlAuthentication,
    pub port_mapping: TorPortMapping,
    pub socks_address_override: Option<String>,
    pub socks_auth: SocksAuthentication,
    pub tor_proxy_bypass_addresses: Vec<String>,
    pub tor_proxy_bypass_for_outbound_tcp: bool,
    pub identity: Option<Vec<u8>>,
}

/// The transport selection: one variant per transport, each carrying its
/// own configuration.
#[derive(Debug)]
pub enum TransportType {
    /// In-process loopback.
    Memory { listener_address: String },
    /// Plain TCP, optionally dialling through a Tor SOCKS proxy.
    Tcp { listener_address: String, tor_socks_config: Option<SocksConfig> },
    /// A Tor hidden service.
    Tor(TorConfig),
    /// A plain SOCKS5 proxy.
    Socks { socks_config: SocksConfig, listener_address: String },
}

/// The request handed to the hidden-service controller.
#[derive(Debug)]
pub struct HiddenServiceRequest {
    /// The service stays registered when the controller's session ends.
    pub detach: bool,
    pub port_mapping: TorPortMapping,
    pub socks_address_override: Option<String>,
    pub socks_auth: SocksAuthentication,
    pub control_server_auth: TorControlAuthentication,
    pub control_server_addr: String,
    pub bypass_proxy_addresses: Vec<String>,
    pub bypass_tor_for_tcp_addresses: bool,
    pub identity: Option<Vec<u8>>,
}

/// Assembles the hidden-service controller request from the Tor
/// configuration: every field carries over, and the service is always
/// requested detached.
pub fn hidden_service_request(config: TorConfig) -> (r: HiddenServiceRequest)
    ensures
        r.detach,
        r.port_mapping == config.port_mapping,
        r.socks_address_override == config.socks_address_override,
        r.socks_auth == config.socks_auth,
        r.control_server_auth == config.control_server_auth,
        r.control_server_addr == config.control_server_addr,
        r.bypass_proxy_addresses == config.tor_proxy_bypass_addresses,
        r.bypass_tor_for_tcp_addresses == config.tor_proxy_bypass_for_outbound_tcp,
        r.identity == config.identity,
{
    HiddenServiceRequest {
        detach: true,
        port_mapping: config.port_mapping,
        socks_address_override: config.socks_address_override,
        socks_auth: config.socks_auth,
        control_server_auth: config.control_server_auth,
        control_server_addr: config.control_server_addr,
        bypass_proxy_addresses: config.tor_proxy_bypass_addresses,
        bypass_tor_for_tcp_addresses: config.tor_proxy_bypass_for_outbound_tcp,
        identity: config.identity,
    }
}

/// Which concrete transport the node runs.
#[derive(Debug)]
pub enum TransportKind {
    Memory,
    Tcp { tor_socks_config: Option<SocksConfig> },
    Tor,
    Socks { socks_config: SocksConfig },
}

/// What spawning with a transport selection comes to: the transport kind,
/// the address the listener binds, and whether a hidden-service controller
/// must be retained for the listener's lifetime.
#[derive(Debug)]
pub struct TransportPlan {
    pub kind: TransportKind,
    pub listener_address: String,
    pub retain_hidden_service_controller: bool,
}

/// Dispatches a transport selection into a concrete plan. For the Tor
/// variant the listener binds the proxied address the hidden-service
/// controller yielded; when the controller yielded none — its control port
/// was unreachable — the dispatch fails with the typed controller error
/// and never falls back to another transport.
pub fn transport_plan(transport: TransportType, tor_proxied_address: Option<String>) -> (r: Result<
    TransportPlan,
    CommsInitializationError,
>)
    ensures
        transport matches TransportType::Memory { listener_address } ==> (r matches Ok(p)
            && p.kind is Memory && p.listener_address == listener_address
            && !p.retain_hidden_service_controller),
        transport matches TransportType::Tcp { listener_address, tor_socks_config } ==> (r matches
            Ok(p) && p.kind == (TransportKind::Tcp { tor_socks_config }) && p.listener_address
            == listener_address && !p.retain_hidden_service_controller),
        transport is Tor ==> (tor_proxied_address matches Some(addr) ==> (r matches Ok(p)
            && p.kind is Tor && p.listener_address == addr
            && p.retain_hidden_service_controller)),
        (transport is Tor && tor_proxied_address is None) ==> (r matches Err(e) && e matches
            CommsInitializationError::HiddenServiceControllerError(h) && h
            is TorControlPortOffline),
        transport matches TransportType::Socks { socks_config, listener_address } ==> (r matches
            Ok(p) && p.kind == (TransportKind::Socks { socks_config }) && p.listener_address
            == listener_address && !p.retain_hidden_service_controller),
{
    match transport {
        TransportType::Memory { listener_address } => Ok(
            TransportPlan {
                kind: TransportKind::Memory,
                listener_address,
                retain_hidden_service_controller: false,
            },
        ),
        TransportType::Tcp { listener_address, tor_socks_config } => Ok(
            TransportPlan {
                kind: TransportKind::Tcp { tor_socks_config },
                listener_address,
                retain_hidden_service_controller: false,
            },
        ),
        TransportType::Tor(_config) => match tor_proxied_address {
            Some(addr) => Ok(
                TransportPlan {
                    kind: TransportKind::Tor,
                    listener_address: addr,
                    retain_hidden_service_controller: true,
                },
            ),
            None => Err(
                CommsInitializationError::HiddenServiceControllerError(
                    HiddenServiceControllerError::TorControlPortOffline,
                ),
            ),
        },
        TransportType::Socks { socks_config, listener_address } => Ok(
            TransportPlan {
                kind: TransportKind::Socks { socks_config },
                listener_address,
                retain_hidden_service_controller: false,
            },
        ),
    }
}

} // verus!
