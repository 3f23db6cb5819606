//! The configuration types of the consensus engine.

use crate::consensus::address::{is_multiaddr, keep_multiaddrs, parses_as_multiaddr, valid_addresses};
use crate::height::Height;
use crate::text::{decimal, texts, u16_to_decimal};
use std::path::PathBuf;
use vstd::prelude::*;

verus! {

#[verifier::external_type_specification]
#[verifier::external_body]
pub struct ExPathBuf(PathBuf);

/// The path as text: what a path that was made from a text holds.
pub uninterp spec fn path_text(path: PathBuf) -> Seq<char>;

/// Calls `PathBuf::from` on `text`. Trusted: the path that it makes holds
/// `text`, unchanged.
#[verifier::external_body]
pub(crate) fn path_from_text(text: &str) -> (path: PathBuf)
    ensures
        path_text(path) == text@,
{
    PathBuf::from(text)
}

/// A copy of a path is the same path, as `Clone` promises.
pub assume_specification[ <PathBuf as Clone>::clone ](path: &PathBuf) -> (copy: PathBuf)
    ensures
        copy == *path,
;

/// Where the write-ahead log lives and how its files are rolled over.
#[derive(Clone, Debug)]
pub struct WalConfig {
    /// Directory that holds the log files.
    pub path: PathBuf,
    /// Size in bytes at which a log file is rolled over.
    pub max_file_size: u64,
    /// Whether rolled-over files are all kept.
    pub retain_all: bool,
}

/// The directory of the write-ahead log, unless another is set.
pub const DEFAULT_WAL_DIR: &'static str = "./wal";

/// The size of a write-ahead log file, unless another is set: 100 MiB.
pub const DEFAULT_WAL_FILE_SIZE: u64 = 104857600;

impl Default for WalConfig {
    fn default() -> (wal: WalConfig)
        ensures
            path_text(wal.path) == DEFAULT_WAL_DIR@,
            wal.max_file_size == DEFAULT_WAL_FILE_SIZE,
            !wal.retain_all,
    {
        WalConfig {
            path: path_from_text(DEFAULT_WAL_DIR),
            max_file_size: DEFAULT_WAL_FILE_SIZE,
            retain_all: false,
        }
    }
}

/// The address of a socket: a host, written as an IP address, and a port.
#[derive(Clone, Debug, PartialEq, Eq)]
pub struct SocketAddress {
    /// The IP address, in text.
    pub host: String,
    /// The port.
    pub port: u16,
}

/// The host of this machine as seen from itself.
pub const LOCALHOST: &'static str = "127.0.0.1";

/// The port of the metrics endpoint, unless another is set.
pub const DEFAULT_METRICS_PORT: u16 = 9000;

/// The multiaddress that a node listens on when it is given none that is
/// well-formed.
pub const DEFAULT_LISTEN_ADDR: &'static str = "/ip4/127.0.0.1/tcp/26656";

/// What a proposer sends for a value.
#[derive(Clone, Copy, Debug, PartialEq, Eq, Structural)]
pub enum ValuePayload {
    /// The parts of the value only.
    PartsOnly,
    /// The proposal only.
    ProposalOnly,
    /// The proposal and the parts of the value.
    ProposalAndParts,
}

/// Peer discovery.
#[derive(Clone, Debug)]
pub struct DiscoveryConfig {
    /// Whether the node looks for peers beyond the persistent ones.
    pub enabled: bool,
}

/// Peer-to-peer networking of the consensus engine.
#[derive(Clone, Debug)]
pub struct P2pConfig {
    /// The multiaddress to listen on.
    pub listen_addr: String,
    /// The multiaddresses of the peers to stay connected to.
    pub persistent_peers: Vec<String>,
    /// Peer discovery.
    pub discovery: DiscoveryConfig,
}

/// The consensus engine's own settings.
#[derive(Clone, Debug)]
pub struct ConsensusConfig {
    /// What a proposer sends for a value.
    pub value_payload: ValuePayload,
    /// Peer-to-peer networking.
    pub p2p: P2pConfig,
}

/// The metrics endpoint.
#[derive(Clone, Debug)]
pub struct MetricsConfig {
    /// Whether metrics are served.
    pub enabled: bool,
    /// Where they are served.
    pub listen_addr: SocketAddress,
}

/// The configuration of a consensus node.
#[derive(Clone, Debug)]
pub struct NodeConfig {
    /// The node's name for people.
    pub moniker: String,
    /// The consensus engine's own settings.
    pub consensus: ConsensusConfig,
    /// The metrics endpoint.
    pub metrics: MetricsConfig,
}

/// The listen address that a node gets for `text`: `text` itself where it is
/// a multiaddress, the default where it is not.
pub open spec fn listen_addr_or_default(text: Seq<char>) -> Seq<char> {
    if is_multiaddr(text) {
        text
    } else {
        DEFAULT_LISTEN_ADDR@
    }
}

impl NodeConfig {
    /// Whether the settings that no constructor takes have their defaults:
    /// proposals travel with their parts, discovery is off, and metrics are
    /// served.
    pub open spec fn has_default_settings(&self) -> bool {
        &&& self.consensus.value_payload == ValuePayload::ProposalAndParts
        &&& !self.consensus.p2p.discovery.enabled
        &&& self.metrics.enabled
    }

    /// Whether metrics are served on the local host at the default port.
    pub open spec fn has_default_metrics_addr(&self) -> bool {
        &&& self.metrics.listen_addr.host@ == LOCALHOST@
        &&& self.metrics.listen_addr.port == DEFAULT_METRICS_PORT
    }

    /// A node configuration with default settings around addresses that are
    /// already checked: it listens on `listen_addr`, or on the default
    /// address where there is none.
    pub fn with_addresses(
        moniker: String,
        listen_addr: Option<String>,
        persistent_peers: Vec<String>,
    ) -> (config: NodeConfig)
        ensures
            config.moniker == moniker,
            config.consensus.p2p.listen_addr@ == match listen_addr {
                Some(addr) => addr@,
                None => DEFAULT_LISTEN_ADDR@,
            },
            config.consensus.p2p.persistent_peers == persistent_peers,
            config.has_default_settings(),
            config.has_default_metrics_addr(),
    {
        let listen_addr = match listen_addr {
            Some(addr) => addr,
            None => String::from_str(DEFAULT_LISTEN_ADDR),
        };
        NodeConfig {
            moniker,
            consensus: ConsensusConfig {
                value_payload: ValuePayload::ProposalAndParts,
                p2p: P2pConfig {
                    listen_addr,
                    persistent_peers,
                    discovery: DiscoveryConfig { enabled: false },
                },
            },
            metrics: MetricsConfig {
                enabled: true,
                listen_addr: SocketAddress {
                    host: String::from_str(LOCALHOST),
                    port: DEFAULT_METRICS_PORT,
                },
            },
        }
    }

    /// A node configuration with default settings. A `listen_addr` that is
    /// no multiaddress is replaced by the default address, and the members
    /// of `peers` that are no multiaddresses are left out.
    pub fn new(moniker: String, listen_addr: String, peers: Vec<String>) -> (config: NodeConfig)
        ensures
            config.moniker == moniker,
            config.consensus.p2p.listen_addr@ == listen_addr_or_default(listen_addr@),
            texts(config.consensus.p2p.persistent_peers@) == valid_addresses(texts(peers@)),
            config.has_default_settings(),
            config.has_default_metrics_addr(),
    {
        let checked = if parses_as_multiaddr(listen_addr.as_str()) {
            Some(listen_addr)
        } else {
            None
        };
        let persistent_peers = keep_multiaddrs(&peers);
        NodeConfig::with_addresses(moniker, checked, persistent_peers)
    }
}

/// The network as the node sees it.
#[derive(Clone, Debug)]
pub struct NetworkConfig {
    /// The chain that the network runs.
    pub chain_id: String,
    /// The socket that the node listens on.
    pub listen_addr: SocketAddress,
    /// The peers, as they were given.
    pub peers: Vec<String>,
    /// Whether the node looks for peers beyond these.
    pub discovery_enabled: bool,
}

impl NetworkConfig {
    /// The network of `chain_id` seen from `listen_addr`, without peers and
    /// without discovery.
    pub fn new(chain_id: String, listen_addr: SocketAddress) -> (network: NetworkConfig)
        ensures
            network.chain_id == chain_id,
            network.listen_addr == listen_addr,
            network.peers@ == Seq::<String>::empty(),
            !network.discovery_enabled,
    {
        NetworkConfig { chain_id, listen_addr, peers: Vec::new(), discovery_enabled: false }
    }

    /// The same network with `peers` for its peers.
    pub fn with_peers(self, peers: Vec<String>) -> (network: NetworkConfig)
        ensures
            network == (NetworkConfig { peers, ..self }),
    {
        let mut network = self;
        network.peers = peers;
        network
    }

    /// The same network with discovery on or off.
    pub fn with_discovery(self, enabled: bool) -> (network: NetworkConfig)
        ensures
            network == (NetworkConfig { discovery_enabled: enabled, ..self }),
    {
        let mut network = self;
        network.discovery_enabled = enabled;
        network
    }
}

/// Everything that the engine is started with.
#[derive(Clone, Debug)]
pub struct EngineConfig {
    /// The node.
    pub node: NodeConfig,
    /// The write-ahead log.
    pub wal: WalConfig,
    /// The network.
    pub network: NetworkConfig,
    /// The height to resume from, if the node resumes.
    pub start_height: Option<Height>,
}

/// The multiaddress of TCP port `port` on the IPv4 host `host`.
pub open spec fn tcp_multiaddr(host: Seq<char>, port: u16) -> Seq<char> {
    "/ip4/"@ + host + "/tcp/"@ + decimal(port as nat)
}

/// Writes the multiaddress of TCP port `port` on the IPv4 host `host`.
pub fn tcp_multiaddr_text(host: &str, port: u16) -> (text: String)
    ensures
        text@ == tcp_multiaddr(host@, port),
{
    let mut text = String::from_str("/ip4/");
    text.append(host);
    text.append("/tcp/");
    let number = u16_to_decimal(port);
    text.append(number.as_str());
    text
}

impl EngineConfig {
    /// Whether the peers to connect to are the well-formed ones among the
    /// peers as given: the two lists say the same.
    pub open spec fn peers_consistent(&self) -> bool {
        texts(self.node.consensus.p2p.persistent_peers@) == valid_addresses(
            texts(self.network.peers@),
        )
    }

    /// The configuration of a node named `moniker` on chain `chain_id` that
    /// listens on `listen_addr`: no peers, the default write-ahead log, no
    /// height to resume from.
    pub fn new(chain_id: String, moniker: String, listen_addr: SocketAddress) -> (config:
        EngineConfig)
        ensures
            config.node.moniker == moniker,
            config.node.consensus.p2p.listen_addr@ == listen_addr_or_default(
                tcp_multiaddr(listen_addr.host@, listen_addr.port),
            ),
            config.node.consensus.p2p.persistent_peers@ == Seq::<String>::empty(),
            config.node.has_default_settings(),
            config.node.has_default_metrics_addr(),
            path_text(config.wal.path) == DEFAULT_WAL_DIR@,
            config.wal.max_file_size == DEFAULT_WAL_FILE_SIZE,
            !config.wal.retain_all,
            config.network.chain_id == chain_id,
            config.network.listen_addr == listen_addr,
            config.network.peers@ == Seq::<String>::empty(),
            !config.network.discovery_enabled,
            config.start_height is None,
            config.peers_consistent(),
    {
        let listen_text = tcp_multiaddr_text(listen_addr.host.as_str(), listen_addr.port);
        let network = NetworkConfig::new(chain_id, listen_addr);
        let node = NodeConfig::new(moniker, listen_text, Vec::new());
        proof {
            let none = Seq::<Seq<char>>::empty();
            assert(texts(Seq::<String>::empty()) == none);
            none.lemma_filter_len(|text: Seq<char>| is_multiaddr(text));
            assert(valid_addresses(none) == none);
            assert(node.consensus.p2p.persistent_peers@ == Seq::<String>::empty());
        }
        EngineConfig { node, wal: WalConfig::default(), network, start_height: None }
    }

    /// The same configuration with the write-ahead log under `path`.
    pub fn with_wal_dir(self, path: PathBuf) -> (config: EngineConfig)
        ensures
            config == (EngineConfig { wal: WalConfig { path, ..self.wal }, ..self }),
            config.peers_consistent() == self.peers_consistent(),
    {
        let mut config = self;
        config.wal.path = path;
        config
    }

    /// The same configuration, resuming from `height`.
    pub fn with_start_height(self, height: Height) -> (config: EngineConfig)
        ensures
            config == (EngineConfig { start_height: Some(height), ..self }),
            config.peers_consistent() == self.peers_consistent(),
    {
        let mut config = self;
        config.start_height = Some(height);
        config
    }

    /// The same configuration with `peers` for its peers: the network keeps
    /// them all as given, and the node connects to those among them that are
    /// multiaddresses.
    pub fn with_peers(self, peers: Vec<String>) -> (config: EngineConfig)
        ensures
            config.network == (NetworkConfig { peers, ..self.network }),
            texts(config.node.consensus.p2p.persistent_peers@) == valid_addresses(texts(peers@)),
            config.node == (NodeConfig {
                consensus: ConsensusConfig {
                    p2p: P2pConfig {
                        persistent_peers: config.node.consensus.p2p.persistent_peers,
                        ..self.node.consensus.p2p
                    },
                    ..self.node.consensus
                },
                ..self.node
            }),
            config.wal == self.wal,
            config.start_height == self.start_height,
            config.peers_consistent(),
    {
        let mut config = self;
        config.node.consensus.p2p.persistent_peers = keep_multiaddrs(&peers);
        config.network.peers = peers;
        config
    }
}

} // verus!
