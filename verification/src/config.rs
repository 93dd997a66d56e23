//! Configuration of the p2p stack: network selection, DHT parameters, the
//! main configuration record, and the address grammars it uses (IPv4,
//! CIDR allow-list entries, socket addresses).

use vstd::prelude::*;
use vstd::string::StrSliceExecFns;
use crate::peer::NodeIdentity;
use crate::text::{char_index, dec_value, is_dec_seq, parse_dec};
use crate::transport::TransportType;

verus! {

/// The networks a node can join, each with its wire identifier byte.
#[derive(Clone, Copy, Debug, PartialEq, Eq, Structural)]
pub enum Network {
    MainNet,
    Weatherwax,
    Igor,
    LocalNet,
}

/// The wire identifier byte of a network.
pub open spec fn network_byte(n: Network) -> u8 {
    match n {
        Network::MainNet => 0x00,
        Network::Weatherwax => 0xa3,
        Network::Igor => 0x24,
        Network::LocalNet => 0x10,
    }
}

impl Network {
    /// The byte that identifies this network on the wire.
    pub fn as_byte(&self) -> (b: u8)
        ensures
            b == network_byte(*self),
    {
        match self {
            Network::MainNet => 0x00,
            Network::Weatherwax => 0xa3,
            Network::Igor => 0x24,
            Network::LocalNet => 0x10,
        }
    }
}

/// The overlay protocol generations.
#[derive(Clone, Copy, Debug, PartialEq, Eq, Structural)]
pub enum DhtProtocolVersion {
    V1,
    V2,
}

/// Parameters of the overlay router.
#[derive(Clone, Copy, Debug)]
pub struct DhtConfig {
    /// Whether peers may hand out loopback, memory and local-link addresses.
    pub allow_test_addresses: bool,
    /// Which protocol generation to speak.
    pub protocol_version: DhtProtocolVersion,
    /// Size bound of the neighbour subset of the connection pool.
    pub num_neighbouring_nodes: usize,
    /// Size bound of the random subset of the connection pool.
    pub num_random_nodes: usize,
    /// How many peers one node forwards a broadcast to, at most.
    pub propagation_factor: usize,
}

impl Default for DhtConfig {
    /// The stock overlay parameters: current protocol, eight neighbours,
    /// four random members, fan-out of four, test addresses refused.
    fn default() -> (r: DhtConfig)
        ensures
            !r.allow_test_addresses,
            r.protocol_version is V2,
            r.num_neighbouring_nodes == 8,
            r.num_random_nodes == 4,
            r.propagation_factor == crate::propagation::PROPAGATION_FACTOR,
    {
        DhtConfig {
            allow_test_addresses: false,
            protocol_version: DhtProtocolVersion::V2,
            num_neighbouring_nodes: 8,
            num_random_nodes: 4,
            propagation_factor: crate::propagation::PROPAGATION_FACTOR,
        }
    }
}

/// Configuration of one comms node.
pub struct P2pConfig {
    /// Directory that holds the peer store.
    pub datastore_path: String,
    /// Name of the peer table in the store.
    pub peer_database_name: String,
    /// Bound on concurrent inbound pipeline tasks before backpressure.
    pub max_concurrent_inbound_tasks: usize,
    /// Bound on concurrent outbound pipeline tasks before backpressure.
    pub max_concurrent_outbound_tasks: usize,
    /// Capacity of the queue of pending outbound messages.
    pub outbound_buffer_size: usize,
    /// Overlay parameters.
    pub dht: DhtConfig,
    /// Which network this node joins.
    pub network: Network,
    /// The local node's identity.
    pub node_identity: NodeIdentity,
    /// Which transport carries connections.
    pub transport_type: TransportType,
    /// Whether peers may hand out test addresses.
    pub allow_test_addresses: bool,
    /// Bound on liveness sessions on the listener; zero refuses them all.
    pub listener_liveness_max_sessions: usize,
    /// CIDR entries allowed into liveness mode, unparsed.
    pub listener_liveness_allowlist_cidrs: Vec<String>,
    /// The user agent string this node announces.
    pub user_agent: String,
    /// Inline seed strings, unparsed.
    pub peer_seeds: Vec<String>,
    /// Hosts whose DNS records list seed peers.
    pub dns_seeds: Vec<String>,
    /// The name server that resolves the DNS seeds.
    pub dns_seeds_name_server: String,
    /// Whether DNS seed records must pass DNSSEC validation.
    pub dns_seeds_use_dnssec: bool,
    /// An extra plain TCP listener, when set.
    pub auxilary_tcp_listener_address: Option<String>,
}

/// An IPv4 address in dotted-decimal form: four runs of at most three
/// digits, each at most 255, separated by dots.
pub open spec fn valid_ipv4(t: Seq<char>) -> bool {
    let d1 = char_index(t, '.');
    if d1 < 0 {
        false
    } else {
        let r1 = t.skip(d1 + 1);
        let d2 = char_index(r1, '.');
        if d2 < 0 {
            false
        } else {
            let r2 = r1.skip(d2 + 1);
            let d3 = char_index(r2, '.');
            if d3 < 0 {
                false
            } else {
                let r3 = r2.skip(d3 + 1);
                &&& is_dec_seq(t.take(d1), 3) && dec_value(t.take(d1)) <= 255
                &&& is_dec_seq(r1.take(d2), 3) && dec_value(r1.take(d2)) <= 255
                &&& is_dec_seq(r2.take(d3), 3) && dec_value(r2.take(d3)) <= 255
                &&& char_index(r3, '.') < 0 && is_dec_seq(r3, 3) && dec_value(r3) <= 255
            }
        }
    }
}

/// The four octets of a well-formed dotted-decimal address.
pub open spec fn ipv4_octets(t: Seq<char>) -> (int, int, int, int) {
    let d1 = char_index(t, '.');
    let r1 = t.skip(d1 + 1);
    let d2 = char_index(r1, '.');
    let r2 = r1.skip(d2 + 1);
    let d3 = char_index(r2, '.');
    let r3 = r2.skip(d3 + 1);
    (dec_value(t.take(d1)), dec_value(r1.take(d2)), dec_value(r2.take(d3)), dec_value(r3))
}

/// Parses a dotted-decimal IPv4 address.
pub fn parse_ipv4(s: &str) -> (r: Option<(u8, u8, u8, u8)>)
    ensures
        r is Some <==> valid_ipv4(s@),
        r matches Some(o) ==> (o.0, o.1, o.2, o.3) == ({
            let (a, b, c, d) = ipv4_octets(s@);
            (a as u8, b as u8, c as u8, d as u8)
        }),
{
    let n = s.unicode_len();
    let d1 = match crate::text::find_char(s, '.') {
        Some(i) => i,
        None => {
            return None;
        },
    };
    proof {
        crate::text::lemma_char_index(s@, '.');
    }
    let seg1 = s.substring_char(0, d1);
    proof {
        assert(seg1@ =~= s@.take(d1 as int));
    }
    let v1 = match parse_dec(seg1, 3) {
        Some(v) => v,
        None => {
            return None;
        },
    };
    if v1 > 255 {
        return None;
    }
    let r1 = s.substring_char(d1 + 1, n);
    proof {
        assert(r1@ =~= s@.skip(d1 as int + 1));
    }
    let n1 = r1.unicode_len();
    let d2 = match crate::text::find_char(r1, '.') {
        Some(i) => i,
        None => {
            return None;
        },
    };
    proof {
        crate::text::lemma_char_index(r1@, '.');
    }
    let seg2 = r1.substring_char(0, d2);
    proof {
        assert(seg2@ =~= r1@.take(d2 as int));
    }
    let v2 = match parse_dec(seg2, 3) {
        Some(v) => v,
        None => {
            return None;
        },
    };
    if v2 > 255 {
        return None;
    }
    let r2 = r1.substring_char(d2 + 1, n1);
    proof {
        assert(r2@ =~= r1@.skip(d2 as int + 1));
    }
    let n2 = r2.unicode_len();
    let d3 = match crate::text::find_char(r2, '.') {
        Some(i) => i,
        None => {
            return None;
        },
    };
    proof {
        crate::text::lemma_char_index(r2@, '.');
    }
    let seg3 = r2.substring_char(0, d3);
    proof {
        assert(seg3@ =~= r2@.take(d3 as int));
    }
    let v3 = match parse_dec(seg3, 3) {
        Some(v) => v,
        None => {
            return None;
        },
    };
    if v3 > 255 {
        return None;
    }
    let r3 = r2.substring_char(d3 + 1, n2);
    proof {
        assert(r3@ =~= r2@.skip(d3 as int + 1));
    }
    match crate::text::find_char(r3, '.') {
        Some(_) => {
            return None;
        },
        None => {},
    }
    let v4 = match parse_dec(r3, 3) {
        Some(v) => v,
        None => {
            return None;
        },
    };
    if v4 > 255 {
        return None;
    }
    Some((v1 as u8, v2 as u8, v3 as u8, v4 as u8))
}

/// One allow-list entry: an IPv4 network in CIDR notation.
#[derive(Clone, Copy, Debug, PartialEq, Eq, Structural)]
pub struct Cidr {
    pub a: u8,
    pub b: u8,
    pub c: u8,
    pub d: u8,
    /// How many leading bits of the address select the network.
    pub prefix: u8,
}

/// A well-formed CIDR entry: a dotted-decimal address, a slash, and a
/// prefix length of at most 32.
pub open spec fn valid_cidr(s: Seq<char>) -> bool {
    let sl = char_index(s, '/');
    &&& sl >= 0
    &&& valid_ipv4(s.take(sl))
    &&& is_dec_seq(s.skip(sl + 1), 2)
    &&& dec_value(s.skip(sl + 1)) <= 32
}

/// The parsed form of a well-formed CIDR entry.
pub open spec fn spec_cidr_of(s: Seq<char>) -> Cidr {
    let sl = char_index(s, '/');
    let (a, b, c, d) = ipv4_octets(s.take(sl));
    Cidr {
        a: a as u8,
        b: b as u8,
        c: c as u8,
        d: d as u8,
        prefix: dec_value(s.skip(sl + 1)) as u8,
    }
}

/// Parses one CIDR entry.
pub fn parse_cidr(s: &str) -> (r: Option<Cidr>)
    ensures
        r is Some <==> valid_cidr(s@),
        r matches Some(c) ==> c == spec_cidr_of(s@) && c.prefix <= 32,
{
    let n = s.unicode_len();
    let sl = match crate::text::find_char(s, '/') {
        Some(i) => i,
        None => {
            return None;
        },
    };
    proof {
        crate::text::lemma_char_index(s@, '/');
    }
    let ip_part = s.substring_char(0, sl);
    proof {
        assert(ip_part@ =~= s@.take(sl as int));
    }
    let (a, b, c, d) = match parse_ipv4(ip_part) {
        Some(o) => o,
        None => {
            return None;
        },
    };
    let prefix_part = s.substring_char(sl + 1, n);
    proof {
        assert(prefix_part@ =~= s@.skip(sl as int + 1));
    }
    let p = match parse_dec(prefix_part, 2) {
        Some(v) => v,
        None => {
            return None;
        },
    };
    if p > 32 {
        return None;
    }
    Some(Cidr { a, b, c, d, prefix: p as u8 })
}

/// Parses the liveness allow-list. Either every entry is well formed and
/// the parsed networks come back in order, or the first malformed entry
/// comes back as the error — an invalid allow-list is a fatal
/// configuration error, never partially applied.
pub fn parse_cidrs(entries: &Vec<String>) -> (r: Result<Vec<Cidr>, String>)
    ensures
        r is Ok <==> (forall|k: int|
            0 <= k < entries@.len() ==> valid_cidr((#[trigger] entries@[k])@)),
        r matches Ok(v) ==> v@.len() == entries@.len() && forall|k: int|
            0 <= k < entries@.len() ==> v@[k] == spec_cidr_of((#[trigger] entries@[k])@),
        r matches Err(bad) ==> exists|k: int|
            0 <= k < entries@.len() && !valid_cidr((#[trigger] entries@[k])@) && bad@ == entries@[k]@,
{
    let mut out: Vec<Cidr> = Vec::new();
    let mut i: usize = 0;
    while i < entries.len()
        invariant
            i <= entries@.len(),
            out@.len() == i,
            forall|k: int| 0 <= k < i ==> valid_cidr((#[trigger] entries@[k])@),
            forall|k: int| 0 <= k < i ==> out@[k] == spec_cidr_of((#[trigger] entries@[k])@),
        decreases entries@.len() - i,
    {
        match parse_cidr(entries[i].as_str()) {
            Some(c) => {
                out.push(c);
            },
            None => {
                return Err(entries[i].as_str().to_owned());
            },
        }
        i = i + 1;
    }
    Ok(out)
}

/// A plain socket address: an IPv4 host and a port.
#[derive(Clone, Copy, Debug, PartialEq, Eq, Structural)]
pub struct SocketAddress {
    pub a: u8,
    pub b: u8,
    pub c: u8,
    pub d: u8,
    pub port: u16,
}

/// A well-formed socket address string: a dotted-decimal host, a colon,
/// and a port of at most 65535.
pub open spec fn valid_socket_addr(s: Seq<char>) -> bool {
    let co = char_index(s, ':');
    &&& co >= 0
    &&& valid_ipv4(s.take(co))
    &&& is_dec_seq(s.skip(co + 1), 5)
    &&& dec_value(s.skip(co + 1)) <= 65535
}

/// The parsed form of a well-formed socket address string.
pub open spec fn spec_socket_addr_of(s: Seq<char>) -> SocketAddress {
    let co = char_index(s, ':');
    let (a, b, c, d) = ipv4_octets(s.take(co));
    SocketAddress {
        a: a as u8,
        b: b as u8,
        c: c as u8,
        d: d as u8,
        port: dec_value(s.skip(co + 1)) as u16,
    }
}

/// Parses a socket address string.
pub fn parse_socket_addr(s: &str) -> (r: Option<SocketAddress>)
    ensures
        r is Some <==> valid_socket_addr(s@),
        r matches Some(sa) ==> sa == spec_socket_addr_of(s@),
{
    let n = s.unicode_len();
    let co = match crate::text::find_char(s, ':') {
        Some(i) => i,
        None => {
            return None;
        },
    };
    proof {
        crate::text::lemma_char_index(s@, ':');
    }
    let host_part = s.substring_char(0, co);
    proof {
        assert(host_part@ =~= s@.take(co as int));
    }
    let (a, b, c, d) = match parse_ipv4(host_part) {
        Some(o) => o,
        None => {
            return None;
        },
    };
    let port_part = s.substring_char(co + 1, n);
    proof {
        assert(port_part@ =~= s@.skip(co as int + 1));
    }
    let p = match parse_dec(port_part, 5) {
        Some(v) => v,
        None => {
            return None;
        },
    };
    if p > 65535 {
        return None;
    }
    Some(SocketAddress { a, b, c, d, port: p as u16 })
}

/// Addresses of the auxiliary services a collectibles front end talks to.
#[derive(Clone, Copy, Debug, PartialEq, Eq, Structural)]
pub struct CollectiblesConfig {
    pub validator_node_grpc_address: SocketAddress,
    pub base_node_grpc_address: SocketAddress,
    pub wallet_grpc_address: SocketAddress,
}

impl Default for CollectiblesConfig {
    /// The stock loopback endpoints of the three services.
    fn default() -> (r: CollectiblesConfig)
        ensures
            r.validator_node_grpc_address == (SocketAddress {
                a: 127,
                b: 0,
                c: 0,
                d: 1,
                port: 18144,
            }),
            r.base_node_grpc_address == (SocketAddress { a: 127, b: 0, c: 0, d: 1, port: 18142 }),
            r.wallet_grpc_address == (SocketAddress { a: 127, b: 0, c: 0, d: 1, port: 18143 }),
    {
        CollectiblesConfig {
            validator_node_grpc_address: SocketAddress { a: 127, b: 0, c: 0, d: 1, port: 18144 },
            base_node_grpc_address: SocketAddress { a: 127, b: 0, c: 0, d: 1, port: 18142 },
            wallet_grpc_address: SocketAddress { a: 127, b: 0, c: 0, d: 1, port: 18143 },
        }
    }
}

impl CollectiblesConfig {
    /// Builds the section from the raw address strings a configuration file
    /// supplies; a missing string falls back to the stock endpoint, a
    /// present but malformed one is refused.
    pub fn convert_if_present(
        validator: Option<&str>,
        base_node: Option<&str>,
        wallet: Option<&str>,
    ) -> (r: Option<CollectiblesConfig>)
        ensures
            ({
                let stock = CollectiblesConfig {
                    validator_node_grpc_address: SocketAddress {
                        a: 127,
                        b: 0,
                        c: 0,
                        d: 1,
                        port: 18144,
                    },
                    base_node_grpc_address: SocketAddress {
                        a: 127,
                        b: 0,
                        c: 0,
                        d: 1,
                        port: 18142,
                    },
                    wallet_grpc_address: SocketAddress { a: 127, b: 0, c: 0, d: 1, port: 18143 },
                };
                &&& (r is Some <==> {
                    &&& (validator matches Some(s) ==> valid_socket_addr(s@))
                    &&& (base_node matches Some(s) ==> valid_socket_addr(s@))
                    &&& (wallet matches Some(s) ==> valid_socket_addr(s@))
                })
                &&& r matches Some(cfg) ==> {
                    &&& cfg.validator_node_grpc_address == (match validator {
                        Some(s) => spec_socket_addr_of(s@),
                        None => stock.validator_node_grpc_address,
                    })
                    &&& cfg.base_node_grpc_address == (match base_node {
                        Some(s) => spec_socket_addr_of(s@),
                        None => stock.base_node_grpc_address,
                    })
                    &&& cfg.wallet_grpc_address == (match wallet {
                        Some(s) => spec_socket_addr_of(s@),
                        None => stock.wallet_grpc_address,
                    })
                }
            }),
    {
        let stock = CollectiblesConfig::default();
        let validator_node_grpc_address = match validator {
            Some(s) => match parse_socket_addr(s) {
                Some(sa) => sa,
                None => {
                    return None;
                },
            },
            None => stock.validator_node_grpc_address,
        };
        let base_node_grpc_address = match base_node {
            Some(s) => match parse_socket_addr(s) {
                Some(sa) => sa,
                None => {
                    return None;
                },
            },
            None => stock.base_node_grpc_address,
        };
        let wallet_grpc_address = match wallet {
            Some(s) => match parse_socket_addr(s) {
                Some(sa) => sa,
                None => {
                    return None;
                },
            },
            None => stock.wallet_grpc_address,
        };
        Some(
            CollectiblesConfig {
                validator_node_grpc_address,
                base_node_grpc_address,
                wallet_grpc_address,
            },
        )
    }
}

} // verus!
