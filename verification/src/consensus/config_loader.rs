//! Reading the engine configuration from a configuration document.
//!
//! The document is TOML. It holds:
//! - `consensus.p2p.listen_addr`: the multiaddress to listen on for peers;
//! - `consensus.p2p.persistent_peers`: the peers, separated by commas;
//! - `metrics.listen_addr`: where metrics are served, as `host:port`.
//!
//! Only the first is required. What a document leaves out has a default;
//! what it gets wrong is an error.

use crate::consensus::address::{
    is_multiaddr, keep_multiaddrs, parses_as_multiaddr, valid_addresses,
};
use crate::consensus::config::{
    path_text, tcp_multiaddr, EngineConfig, NetworkConfig, NodeConfig, SocketAddress, WalConfig,
    DEFAULT_METRICS_PORT, DEFAULT_WAL_DIR, DEFAULT_WAL_FILE_SIZE, LOCALHOST,
};
use crate::consensus::document::{entry, message, node_of, parse, parse_outcome, text_entry, Node};
use crate::text::{
    after_last, decimal, is_digit, last_segment, lemma_decimal_digits, lemma_decimal_round_trip,
    lemma_last_segment_from, parse_u16, split, split_and_trim, texts, trim_all, u16_of,
};
use vstd::prelude::*;

verus! {

/// The host that stands for every address of this machine.
pub const ANY_HOST: &'static str = "0.0.0.0";

/// The port that the network is taken to listen on when the listen address
/// ends in none.
pub const DEFAULT_CONSENSUS_PORT: u16 = 26656;

/// Why a configuration document gives no configuration.
#[derive(Clone, Debug, PartialEq, Eq)]
pub enum ConfigError {
    /// The document is not well-formed TOML; the parser's message says why.
    Syntax(String),
    /// The document has no `consensus` entry.
    MissingConsensus,
    /// The `consensus` entry has no `p2p` entry.
    MissingP2p,
    /// The `consensus.p2p` entry has no `listen_addr` that is a string.
    MissingListenAddr,
    /// `consensus.p2p.listen_addr` is no multiaddress.
    InvalidListenAddr,
    /// `metrics.listen_addr` does not end in a port number.
    InvalidMetricsAddr,
}

/// A `ConfigError` with its message as a sequence of characters.
pub enum ConfigFailure {
    /// No well-formed TOML, with the parser's message.
    Syntax(Seq<char>),
    /// No `consensus` entry.
    MissingConsensus,
    /// No `p2p` entry in `consensus`.
    MissingP2p,
    /// No `listen_addr` string in `consensus.p2p`.
    MissingListenAddr,
    /// A `consensus.p2p.listen_addr` that is no multiaddress.
    InvalidListenAddr,
    /// A `metrics.listen_addr` that does not end in a port number.
    InvalidMetricsAddr,
}

impl View for ConfigError {
    type V = ConfigFailure;

    open spec fn view(&self) -> ConfigFailure {
        match self {
            ConfigError::Syntax(message) => ConfigFailure::Syntax(message@),
            ConfigError::MissingConsensus => ConfigFailure::MissingConsensus,
            ConfigError::MissingP2p => ConfigFailure::MissingP2p,
            ConfigError::MissingListenAddr => ConfigFailure::MissingListenAddr,
            ConfigError::InvalidListenAddr => ConfigFailure::InvalidListenAddr,
            ConfigError::InvalidMetricsAddr => ConfigFailure::InvalidMetricsAddr,
        }
    }
}

impl ConfigFailure {
    /// What the error says to the operator.
    pub open spec fn message(self) -> Seq<char> {
        match self {
            ConfigFailure::Syntax(message) => message,
            ConfigFailure::MissingConsensus => "Missing 'consensus' section in config"@,
            ConfigFailure::MissingP2p => "Missing 'consensus.p2p' section in config"@,
            ConfigFailure::MissingListenAddr => "Missing 'consensus.p2p.listen_addr'"@,
            ConfigFailure::InvalidListenAddr => "Invalid 'consensus.p2p.listen_addr': not a multiaddress"@,
            ConfigFailure::InvalidMetricsAddr => "Invalid 'metrics.listen_addr': no port number at its end"@,
        }
    }
}

impl ConfigError {
    /// What the error says to the operator.
    pub fn message(&self) -> (text: String)
        ensures
            text@ == self@.message(),
    {
        match self {
            ConfigError::Syntax(message) => message.clone(),
            ConfigError::MissingConsensus => String::from_str(
                "Missing 'consensus' section in config",
            ),
            ConfigError::MissingP2p => String::from_str(
                "Missing 'consensus.p2p' section in config",
            ),
            ConfigError::MissingListenAddr => String::from_str(
                "Missing 'consensus.p2p.listen_addr'",
            ),
            ConfigError::InvalidListenAddr => String::from_str(
                "Invalid 'consensus.p2p.listen_addr': not a multiaddress",
            ),
            ConfigError::InvalidMetricsAddr => String::from_str(
                "Invalid 'metrics.listen_addr': no port number at its end",
            ),
        }
    }
}

/// The settings that a configuration document holds, as they are written.
#[derive(Clone, Debug, PartialEq, Eq)]
pub struct Settings {
    /// `consensus.p2p.listen_addr`.
    pub listen_addr: String,
    /// `consensus.p2p.persistent_peers`; empty where the document has none.
    pub persistent_peers: String,
    /// `metrics.listen_addr`, where the document has one.
    pub metrics_listen_addr: Option<String>,
}

/// What a text holds, where there is one.
pub open spec fn option_text(text: Option<String>) -> Option<Seq<char>> {
    match text {
        Some(text) => Some(text@),
        None => None,
    }
}

/// `Settings` with each text as a sequence of characters.
pub struct SettingsText {
    pub listen_addr: Seq<char>,
    pub persistent_peers: Seq<char>,
    pub metrics_listen_addr: Option<Seq<char>>,
}

impl View for Settings {
    type V = SettingsText;

    open spec fn view(&self) -> SettingsText {
        SettingsText {
            listen_addr: self.listen_addr@,
            persistent_peers: self.persistent_peers@,
            metrics_listen_addr: option_text(self.metrics_listen_addr),
        }
    }
}

/// The settings that the document `doc` holds, or what it lacks. An entry
/// that should be a string and is something else counts as absent.
pub open spec fn settings_of(doc: Node) -> Result<SettingsText, ConfigFailure> {
    match doc.entry("consensus"@) {
        None => Err(ConfigFailure::MissingConsensus),
        Some(consensus) => match consensus.entry("p2p"@) {
            None => Err(ConfigFailure::MissingP2p),
            Some(p2p) => match p2p.text_entry("listen_addr"@) {
                None => Err(ConfigFailure::MissingListenAddr),
                Some(listen_addr) => Ok(
                    SettingsText {
                        listen_addr,
                        persistent_peers: match p2p.text_entry("persistent_peers"@) {
                            Some(peers) => peers,
                            None => Seq::empty(),
                        },
                        metrics_listen_addr: match doc.entry("metrics"@) {
                            Some(metrics) => metrics.text_entry("listen_addr"@),
                            None => None,
                        },
                    },
                ),
            },
        },
    }
}

/// The peers that `list` names: its pieces between commas, each trimmed. An
/// empty list names no peer.
pub open spec fn peer_list(list: Seq<char>) -> Seq<Seq<char>> {
    if list.len() == 0 {
        Seq::empty()
    } else {
        trim_all(split(list, ','))
    }
}

/// The port that `addr` ends in, after its last `sep`; `fallback` where
/// what stands there is no port number.
pub open spec fn port_after(addr: Seq<char>, sep: char, fallback: u16) -> u16 {
    match u16_of(last_segment(addr, sep)) {
        Some(port) => port,
        None => fallback,
    }
}

/// The port of the metrics endpoint: the default where no address is
/// given, the port that the address ends in after its last colon where
/// one is given, and none where a given address ends in no port number.
pub open spec fn metrics_port(addr: Option<Seq<char>>) -> Option<u16> {
    match addr {
        Some(addr) => u16_of(last_segment(addr, ':')),
        None => Some(DEFAULT_METRICS_PORT),
    }
}

/// What is wrong with the addresses of a document, if anything is:
/// `listen_ok` says whether the listen address is a multiaddress, and
/// `metrics_addr` is the metrics address where the document gives one. The
/// listen address is looked at first.
pub open spec fn address_failure(listen_ok: bool, metrics_addr: Option<Seq<char>>) -> Option<
    ConfigFailure,
> {
    if !listen_ok {
        Some(ConfigFailure::InvalidListenAddr)
    } else if metrics_port(metrics_addr) is None {
        Some(ConfigFailure::InvalidMetricsAddr)
    } else {
        None
    }
}

/// Whether `config` is the configuration of the node `node_id` on the
/// chain `chain_id` that listens for peers on `listen_addr`, serves metrics
/// on every address of the machine at `metrics_port`, knows the peers
/// `peers` and stays connected to `persistent_peers`.
pub open spec fn describes(
    listen_addr: Seq<char>,
    metrics_port: u16,
    peers: Seq<Seq<char>>,
    persistent_peers: Seq<Seq<char>>,
    chain_id: String,
    node_id: String,
    config: EngineConfig,
) -> bool {
    &&& config.node.moniker == node_id
    &&& config.node.consensus.p2p.listen_addr@ == listen_addr
    &&& texts(config.node.consensus.p2p.persistent_peers@) == persistent_peers
    &&& config.node.has_default_settings()
    &&& config.node.metrics.listen_addr.host@ == ANY_HOST@
    &&& config.node.metrics.listen_addr.port == metrics_port
    &&& path_text(config.wal.path) == DEFAULT_WAL_DIR@
    &&& config.wal.max_file_size == DEFAULT_WAL_FILE_SIZE
    &&& !config.wal.retain_all
    &&& config.network.chain_id == chain_id
    &&& config.network.listen_addr.host@ == LOCALHOST@
    &&& config.network.listen_addr.port == port_after(listen_addr, '/', DEFAULT_CONSENSUS_PORT)
    &&& texts(config.network.peers@) == peers
    &&& !config.network.discovery_enabled
    &&& config.start_height is None
}

/// Whether `config` is the configuration that the settings `settings`
/// give to the node `node_id` on the chain `chain_id`: it listens on the
/// listen address as it is written, knows every peer of the list, and
/// stays connected to those that are multiaddresses.
pub open spec fn loads(
    settings: SettingsText,
    chain_id: String,
    node_id: String,
    config: EngineConfig,
) -> bool {
    describes(
        settings.listen_addr,
        metrics_port(settings.metrics_listen_addr).unwrap(),
        peer_list(settings.persistent_peers),
        valid_addresses(peer_list(settings.persistent_peers)),
        chain_id,
        node_id,
        config,
    )
}

/// What the settings `settings` give: themselves, where the listen address
/// is a multiaddress and the metrics address, if there is one, ends in a
/// port number, and else the error that names the address at fault.
pub open spec fn checked(settings: SettingsText) -> Result<SettingsText, ConfigFailure> {
    match address_failure(is_multiaddr(settings.listen_addr), settings.metrics_listen_addr) {
        Some(failure) => Err(failure),
        None => Ok(settings),
    }
}

/// What loading the document with the parse outcome `outcome` gives: the
/// settings that the configuration is built from, or the reason why there
/// is none.
pub open spec fn load_outcome(outcome: Result<Node, Seq<char>>) -> Result<
    SettingsText,
    ConfigFailure,
> {
    match outcome {
        Ok(doc) => match settings_of(doc) {
            Ok(settings) => checked(settings),
            Err(failure) => Err(failure),
        },
        Err(message) => Err(ConfigFailure::Syntax(message)),
    }
}

/// The port that `addr` ends in, after its last `sep`; `fallback` where
/// what stands there is no port number.
pub fn port_after_last(addr: &str, sep: char, fallback: u16) -> (port: u16)
    ensures
        port == port_after(addr@, sep, fallback),
{
    match parse_u16(after_last(addr, sep)) {
        Some(port) => port,
        None => fallback,
    }
}

/// The peers that `list` names.
pub fn parse_peer_list(list: &str) -> (peers: Vec<String>)
    ensures
        texts(peers@) == peer_list(list@),
{
    if list.is_empty() {
        Vec::new()
    } else {
        split_and_trim(list, ',')
    }
}

/// Takes the settings out of a parsed document.
pub fn read_settings(doc: &toml::Value) -> (r: Result<Settings, ConfigError>)
    ensures
        match settings_of(node_of(*doc)) {
            Ok(settings) => r matches Ok(found) && found@ == settings,
            Err(failure) => r matches Err(error) && error@ == failure,
        },
{
    let consensus = match entry(doc, "consensus") {
        Some(consensus) => consensus,
        None => { return Err(ConfigError::MissingConsensus); },
    };
    let p2p = match entry(consensus, "p2p") {
        Some(p2p) => p2p,
        None => { return Err(ConfigError::MissingP2p); },
    };
    let listen_addr = match text_entry(p2p, "listen_addr") {
        Some(listen_addr) => String::from_str(listen_addr),
        None => { return Err(ConfigError::MissingListenAddr); },
    };
    let persistent_peers = match text_entry(p2p, "persistent_peers") {
        Some(peers) => String::from_str(peers),
        None => String::new(),
    };
    let metrics_listen_addr = match entry(doc, "metrics") {
        Some(metrics) => match text_entry(metrics, "listen_addr") {
            Some(addr) => Some(String::from_str(addr)),
            None => None,
        },
        None => None,
    };
    Ok(Settings { listen_addr, persistent_peers, metrics_listen_addr })
}

/// Builds the configuration of the node `node_id` on the chain `chain_id`
/// from addresses that were looked at already: `listen_ok` says whether
/// `listen_addr` is a multiaddress, and `persistent_peers` are the members
/// of `peers` that are. Fails where the listen address is none, or where
/// there is a metrics address and it ends in no port number.
pub fn build_engine_config(
    listen_addr: String,
    listen_ok: bool,
    metrics_listen_addr: Option<String>,
    peers: Vec<String>,
    persistent_peers: Vec<String>,
    chain_id: String,
    node_id: String,
) -> (r: Result<EngineConfig, ConfigError>)
    ensures
        match address_failure(listen_ok, option_text(metrics_listen_addr)) {
            Some(failure) => r matches Err(error) && error@ == failure,
            None => r matches Ok(config) && describes(
                listen_addr@,
                metrics_port(option_text(metrics_listen_addr)).unwrap(),
                texts(peers@),
                texts(persistent_peers@),
                chain_id,
                node_id,
                config,
            ),
        },
{
    if !listen_ok {
        return Err(ConfigError::InvalidListenAddr);
    }
    let found = match &metrics_listen_addr {
        Some(addr) => parse_u16(after_last(addr.as_str(), ':')),
        None => Some(DEFAULT_METRICS_PORT),
    };
    let metrics_port = match found {
        Some(port) => port,
        None => { return Err(ConfigError::InvalidMetricsAddr); },
    };
    let consensus_port = port_after_last(listen_addr.as_str(), '/', DEFAULT_CONSENSUS_PORT);
    let socket = SocketAddress { host: String::from_str(LOCALHOST), port: consensus_port };
    let mut node = NodeConfig::with_addresses(node_id, Some(listen_addr), persistent_peers);
    node.metrics.listen_addr = SocketAddress {
        host: String::from_str(ANY_HOST),
        port: metrics_port,
    };
    let network = NetworkConfig::new(chain_id, socket).with_peers(peers);
    Ok(EngineConfig { node, wal: WalConfig::default(), network, start_height: None })
}

/// Builds the engine configuration that `settings` give to the node
/// `node_id` on the chain `chain_id`, or says which address of the
/// settings is at fault.
pub fn engine_config_from(settings: Settings, chain_id: String, node_id: String) -> (r: Result<
    EngineConfig,
    ConfigError,
>)
    ensures
        match checked(settings@) {
            Ok(_) => r matches Ok(config) && loads(settings@, chain_id, node_id, config)
                && config.peers_consistent(),
            Err(failure) => r matches Err(error) && error@ == failure,
        },
{
    let listen_ok = parses_as_multiaddr(settings.listen_addr.as_str());
    let peers = parse_peer_list(settings.persistent_peers.as_str());
    let persistent_peers = keep_multiaddrs(&peers);
    build_engine_config(
        settings.listen_addr,
        listen_ok,
        settings.metrics_listen_addr,
        peers,
        persistent_peers,
        chain_id,
        node_id,
    )
}

/// Reads the engine configuration of the node `node_id` on the chain
/// `chain_id` from the text of a configuration document.
///
/// Nothing that the document gets wrong is passed over: a text that is no
/// TOML, a missing listen address or table above it, a listen address that
/// is no multiaddress and a metrics address without a port number each
/// give the error that says so. Only what the document leaves out has a
/// default.
pub fn load_engine_config(config_text: &str, chain_id: String, node_id: String) -> (r: Result<
    EngineConfig,
    ConfigError,
>)
    ensures
        match load_outcome(parse_outcome(config_text@)) {
            Ok(settings) => r matches Ok(config) && loads(settings, chain_id, node_id, config)
                && config.peers_consistent(),
            Err(failure) => r matches Err(error) && error@ == failure,
        },
{
    let doc = match parse(config_text) {
        Ok(doc) => doc,
        Err(error) => { return Err(ConfigError::Syntax(message(&error))); },
    };
    match read_settings(&doc) {
        Ok(settings) => engine_config_from(settings, chain_id, node_id),
        Err(error) => Err(error),
    }
}

/// Whether the document with the parse outcome `outcome` is well-formed
/// TOML, has a string for the listen address that is a multiaddress, and
/// has no metrics address or one that ends in a port number.
pub open spec fn loadable(outcome: Result<Node, Seq<char>>) -> bool {
    match outcome {
        Ok(doc) => match settings_of(doc) {
            Ok(settings) => is_multiaddr(settings.listen_addr) && match settings.metrics_listen_addr {
                Some(addr) => u16_of(last_segment(addr, ':')) is Some,
                None => true,
            },
            Err(_) => false,
        },
        Err(_) => false,
    }
}

/// Loading gives a configuration exactly for a loadable document, and it
/// is built from the settings as they are written: an address that is at
/// fault is an error and is never replaced by a default.
pub proof fn lemma_load_succeeds(outcome: Result<Node, Seq<char>>)
    ensures
        load_outcome(outcome) is Ok <==> loadable(outcome),
        match load_outcome(outcome) {
            Ok(settings) => outcome is Ok && settings_of(outcome->Ok_0) == Ok::<
                SettingsText,
                ConfigFailure,
            >(settings),
            Err(_) => true,
        },
        match outcome {
            Ok(doc) => match settings_of(doc) {
                Ok(settings) => !is_multiaddr(settings.listen_addr) ==> load_outcome(outcome)
                    == Err::<SettingsText, ConfigFailure>(ConfigFailure::InvalidListenAddr),
                Err(_) => true,
            },
            Err(_) => true,
        },
{
}

/// The port that is read off the multiaddress written for a socket is the
/// socket's port, whatever the host.
pub proof fn lemma_port_of_tcp_multiaddr(host: Seq<char>, port: u16, fallback: u16)
    ensures
        port_after(tcp_multiaddr(host, port), '/', fallback) == port,
{
    let number = decimal(port as nat);
    let front = "/ip4/"@ + host + "/tcp/"@;
    let text = tcp_multiaddr(host, port);
    reveal_strlit("/tcp/");
    lemma_decimal_digits(port as nat);
    lemma_decimal_round_trip(port);
    assert(text == front + number);
    assert(front[front.len() - 1] == '/');
    assert forall|k: int| front.len() <= k < text.len() implies text[k] != '/' by {
        assert(text[k] == number[k - front.len()]);
        assert(is_digit(number[k - front.len()]));
    }
    lemma_last_segment_from(text, '/', front.len() as int);
    assert(text.skip(front.len() as int) == number);
}

} // verus!
