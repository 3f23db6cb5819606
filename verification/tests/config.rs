use reth_malachite::consensus::config::{
    EngineConfig, NetworkConfig, NodeConfig, SocketAddress, ValuePayload, WalConfig,
    DEFAULT_LISTEN_ADDR,
};
use reth_malachite::consensus::config::tcp_multiaddr_text;
use reth_malachite::Height;
use std::path::PathBuf;

fn local(port: u16) -> SocketAddress {
    SocketAddress { host: "127.0.0.1".to_string(), port }
}

#[test]
fn node_config_keeps_a_well_formed_listen_address() {
    let config = NodeConfig::new(
        "node-0".to_string(),
        "/ip4/10.0.0.7/tcp/30000".to_string(),
        Vec::new(),
    );
    assert_eq!(config.moniker, "node-0");
    assert_eq!(config.consensus.p2p.listen_addr, "/ip4/10.0.0.7/tcp/30000");
    assert!(config.consensus.p2p.persistent_peers.is_empty());
}

#[test]
fn node_config_falls_back_to_the_default_listen_address() {
    for unparsable in ["not an address", "127.0.0.1:26656", "/ip4/300.0.0.1/tcp/1", "/tcp", " "] {
        let config = NodeConfig::new("node".to_string(), unparsable.to_string(), Vec::new());
        assert_eq!(config.consensus.p2p.listen_addr, "/ip4/127.0.0.1/tcp/26656");
        assert_eq!(config.consensus.p2p.listen_addr, DEFAULT_LISTEN_ADDR);
    }
}

#[test]
fn node_config_has_the_default_settings() {
    let config = NodeConfig::new("node".to_string(), "/ip4/127.0.0.1/tcp/1".to_string(), vec![]);
    assert_eq!(config.consensus.value_payload, ValuePayload::ProposalAndParts);
    assert!(!config.consensus.p2p.discovery.enabled);
    assert!(config.metrics.enabled);
    assert_eq!(config.metrics.listen_addr, local(9000));
}

#[test]
fn node_config_drops_peers_that_are_no_multiaddresses() {
    let peers = vec![
        "/ip4/10.0.0.1/tcp/1".to_string(),
        "nonsense".to_string(),
        "".to_string(),
        "/dns/example.com/tcp/443".to_string(),
        "/ip4/10.0.0.1".to_string(),
        "/ip4/10.0.0.1/tcp/70000".to_string(),
    ];
    let config = NodeConfig::new("node".to_string(), "/ip4/127.0.0.1/tcp/1".to_string(), peers);
    assert_eq!(
        config.consensus.p2p.persistent_peers,
        vec![
            "/ip4/10.0.0.1/tcp/1".to_string(),
            "".to_string(),
            "/dns/example.com/tcp/443".to_string(),
            "/ip4/10.0.0.1".to_string(),
        ]
    );
}

#[test]
fn node_config_takes_the_empty_multiaddress() {
    let config = NodeConfig::new("node".to_string(), "".to_string(), Vec::new());
    assert_eq!(config.consensus.p2p.listen_addr, "");
}

#[test]
fn node_config_with_addresses_takes_them_as_they_are() {
    let config = NodeConfig::with_addresses(
        "node".to_string(),
        Some("anything".to_string()),
        vec!["whatever".to_string()],
    );
    assert_eq!(config.consensus.p2p.listen_addr, "anything");
    assert_eq!(config.consensus.p2p.persistent_peers, vec!["whatever".to_string()]);
    let config = NodeConfig::with_addresses("node".to_string(), None, Vec::new());
    assert_eq!(config.consensus.p2p.listen_addr, "/ip4/127.0.0.1/tcp/26656");
    assert_eq!(config.metrics.listen_addr, local(9000));
}

#[test]
fn wal_config_default_values() {
    let wal = WalConfig::default();
    assert_eq!(wal.path, PathBuf::from("./wal"));
    assert_eq!(wal.max_file_size, 100 * 1024 * 1024);
    assert!(!wal.retain_all);
}

#[test]
fn network_config_builders() {
    let network = NetworkConfig::new("chain-1".to_string(), local(26657));
    assert_eq!(network.chain_id, "chain-1");
    assert_eq!(network.listen_addr, local(26657));
    assert!(network.peers.is_empty());
    assert!(!network.discovery_enabled);
    let network = network.with_peers(vec!["a".to_string()]).with_discovery(true);
    assert_eq!(network.chain_id, "chain-1");
    assert_eq!(network.listen_addr, local(26657));
    assert_eq!(network.peers, vec!["a".to_string()]);
    assert!(network.discovery_enabled);
}

#[test]
fn tcp_multiaddr_text_is_written_out() {
    assert_eq!(tcp_multiaddr_text("10.1.2.3", 4000), "/ip4/10.1.2.3/tcp/4000");
    assert_eq!(tcp_multiaddr_text("::1", 0), "/ip4/::1/tcp/0");
}

#[test]
fn engine_config_new_listens_where_it_is_told() {
    let listen = SocketAddress { host: "10.1.2.3".to_string(), port: 4000 };
    let config = EngineConfig::new("chain-1".to_string(), "node-0".to_string(), listen.clone());
    assert_eq!(config.node.moniker, "node-0");
    assert_eq!(config.node.consensus.p2p.listen_addr, "/ip4/10.1.2.3/tcp/4000");
    assert!(config.node.consensus.p2p.persistent_peers.is_empty());
    assert_eq!(config.node.metrics.listen_addr, local(9000));
    assert_eq!(config.wal.path, PathBuf::from("./wal"));
    assert_eq!(config.wal.max_file_size, 104857600);
    assert!(!config.wal.retain_all);
    assert_eq!(config.network.chain_id, "chain-1");
    assert_eq!(config.network.listen_addr, listen);
    assert!(config.network.peers.is_empty());
    assert!(!config.network.discovery_enabled);
    assert_eq!(config.start_height, None);
}

#[test]
fn engine_config_new_with_a_host_that_is_no_ipv4_address() {
    let listen = SocketAddress { host: "::1".to_string(), port: 4000 };
    let config = EngineConfig::new("chain".to_string(), "node".to_string(), listen.clone());
    assert_eq!(config.node.consensus.p2p.listen_addr, "/ip4/127.0.0.1/tcp/26656");
    assert_eq!(config.network.listen_addr, listen);
}

#[test]
fn engine_config_builders() {
    let config = EngineConfig::new("chain".to_string(), "node".to_string(), local(1))
        .with_wal_dir(PathBuf::from("/var/lib/wal"))
        .with_start_height(Height(42));
    assert_eq!(config.wal.path, PathBuf::from("/var/lib/wal"));
    assert_eq!(config.wal.max_file_size, 104857600);
    assert_eq!(config.start_height, Some(Height(42)));
    assert_eq!(config.node.moniker, "node");
    assert_eq!(config.network.chain_id, "chain");
}

#[test]
fn engine_config_with_peers_keeps_both_lists_consistent() {
    let peers = vec![
        "/ip4/10.0.0.1/tcp/1".to_string(),
        "b".to_string(),
        "/ip4/10.0.0.2/tcp/2".to_string(),
    ];
    let config = EngineConfig::new("chain".to_string(), "node".to_string(), local(1))
        .with_start_height(Height(7))
        .with_peers(peers.clone());
    assert_eq!(config.network.peers, peers);
    assert_eq!(
        config.node.consensus.p2p.persistent_peers,
        vec!["/ip4/10.0.0.1/tcp/1".to_string(), "/ip4/10.0.0.2/tcp/2".to_string()]
    );
    assert_eq!(config.node.consensus.p2p.listen_addr, "/ip4/127.0.0.1/tcp/1");
    assert_eq!(config.start_height, Some(Height(7)));
    let config = config.with_peers(Vec::new());
    assert!(config.network.peers.is_empty());
    assert!(config.node.consensus.p2p.persistent_peers.is_empty());
}
