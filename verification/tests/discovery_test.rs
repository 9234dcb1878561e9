// Tests for the discovery orchestrator and strategies.

use hatch_chat::address::{Component, Multiaddr};
use hatch_chat::discovery::{
    merge_outcomes, record_for_node, BootstrapConfig, BootstrapStrategy, DiscoveryError,
    DiscoveryOrchestrator, DiscoveryStrategy, PeerCacheStrategy,
};
use hatch_chat::peer_cache::{current_timestamp, PeerCache, PeerRecord};
use hatch_chat::peer_table::{PeerSnapshot, PeerTable};

/// Any strategy.
struct AnyStrategy {
    inner: Box<dyn DiscoveryStrategy>,
}

impl DiscoveryStrategy for AnyStrategy {
    fn execute(&self) -> Result<Vec<PeerRecord>, DiscoveryError> {
        self.inner.execute()
    }

    fn name(&self) -> &'static str {
        self.inner.name()
    }
}

fn any(strategy: impl DiscoveryStrategy + 'static) -> AnyStrategy {
    AnyStrategy { inner: Box::new(strategy) }
}

/// A mock strategy that returns a fixed set of peers.
struct MockStrategy {
    name: &'static str,
    peers: Vec<PeerRecord>,
}

impl DiscoveryStrategy for MockStrategy {
    fn execute(&self) -> Result<Vec<PeerRecord>, DiscoveryError> {
        Ok(self.peers.clone())
    }

    fn name(&self) -> &'static str {
        self.name
    }
}

/// A mock strategy that always fails.
struct FailingStrategy;

impl DiscoveryStrategy for FailingStrategy {
    fn execute(&self) -> Result<Vec<PeerRecord>, DiscoveryError> {
        Err(DiscoveryError { message: "mock failure".to_string() })
    }

    fn name(&self) -> &'static str {
        "failing"
    }
}

fn make_record(peer_id: &str) -> PeerRecord {
    PeerRecord {
        peer_id: peer_id.to_string(),
        multiaddrs: vec!["/ip4/1.2.3.4/tcp/4001".to_string()],
        i2p_destination: None,
        last_seen: current_timestamp(),
        connection_count: 1,
        rtt_ms: None,
        is_relay: false,
        is_public: true,
    }
}

/// Only the peer id of a record is kept.
fn encode(record: &PeerRecord) -> Result<Vec<u8>, String> {
    Ok(record.peer_id.clone().into_bytes())
}

fn decode(bytes: &[u8]) -> Result<PeerRecord, String> {
    let id = String::from_utf8(bytes.to_vec()).map_err(|e| e.to_string())?;
    Ok(make_record(&id))
}

/// A strategy on a cache in memory that holds these peers.
fn cache_with(ids: &[&str]) -> AnyStrategy {
    let backend = redb::backends::InMemoryBackend::new();
    let db = redb::Database::builder().create_with_backend(backend).expect("open");
    for id in ids {
        let txn = db.begin_write().expect("begin");
        {
            let mut table = PeerTable::open(&txn).expect("table");
            let cache = PeerCache::new(encode, decode);
            cache.save_peer(&mut table, &make_record(id)).expect("save");
        }
        txn.commit().expect("commit");
    }
    any(PeerCacheStrategy::new(move || {
        let failed = |message: String| DiscoveryError { message };
        let txn = db.begin_read().map_err(|e| failed(e.to_string()))?;
        let snapshot = PeerSnapshot::open(&txn).map_err(|e| failed(format!("{e:?}")))?;
        let cache = PeerCache::new(encode, decode);
        cache.all_peers(&snapshot).map_err(|e| failed(format!("{e:?}")))
    }))
}

#[test]
fn test_orchestrator_empty() {
    let orchestrator: DiscoveryOrchestrator<AnyStrategy> = DiscoveryOrchestrator::new();
    let result = orchestrator.discover();
    assert!(result.is_empty(), "empty orchestrator should return no peers");
}

#[test]
fn test_orchestrator_single_strategy() {
    let mut orchestrator = DiscoveryOrchestrator::new();
    orchestrator.add_strategy(any(MockStrategy {
        name: "mock-a",
        peers: vec![make_record("peerA"), make_record("peerB")],
    }));

    let result = orchestrator.discover();
    assert_eq!(result.len(), 2, "should return 2 peers from one strategy");
}

#[test]
fn test_orchestrator_dedup() {
    let mut orchestrator = DiscoveryOrchestrator::new();
    orchestrator.add_strategy(any(MockStrategy {
        name: "mock-a",
        peers: vec![make_record("peerA"), make_record("peerB")],
    }));
    orchestrator.add_strategy(any(MockStrategy {
        name: "mock-b",
        peers: vec![make_record("peerB"), make_record("peerC")],
    }));

    let result = orchestrator.discover();
    // peerB is returned by both strategies; should be deduplicated.
    assert_eq!(result.len(), 3, "should have 3 unique peers after dedup");
    let ids: Vec<&str> = result.iter().map(|r| r.peer_id.as_str()).collect();
    assert!(ids.contains(&"peerA"));
    assert!(ids.contains(&"peerB"));
    assert!(ids.contains(&"peerC"));
}

#[test]
fn test_orchestrator_strategy_failure_doesnt_block() {
    let mut orchestrator = DiscoveryOrchestrator::new();
    orchestrator.add_strategy(any(FailingStrategy));
    orchestrator.add_strategy(any(MockStrategy {
        name: "mock-success",
        peers: vec![make_record("peerA")],
    }));

    let result = orchestrator.discover();
    // The failing strategy should not block the successful one.
    assert_eq!(result.len(), 1, "should still get results from the working strategy");
    assert_eq!(result[0].peer_id, "peerA");
}

#[test]
fn test_peer_cache_strategy() {
    let strategy = cache_with(&["cached1", "cached2"]);
    assert_eq!(strategy.name(), "peer-cache");
    let result = strategy.execute().expect("execute");
    assert_eq!(result.len(), 2, "should load 2 cached peers");
}

#[test]
fn test_bootstrap_strategy() {
    // Generate a real PeerId for the multiaddr.
    let keypair = libp2p::identity::Keypair::generate_ed25519();
    let peer_id = keypair.public().to_peer_id();
    let addr = format!("/ip4/1.2.3.4/tcp/4001/p2p/{peer_id}");

    let config = BootstrapConfig {
        nodes: vec![addr.clone()],
        parallel_dials: 3,
        timeout_secs: 30,
        stop_after_first: true,
    };
    let strategy = BootstrapStrategy::new(config);
    let result = strategy.execute().expect("execute");
    assert_eq!(result.len(), 1, "should parse 1 bootstrap node");
    assert_eq!(result[0].peer_id, peer_id.to_string());
    assert_eq!(result[0].multiaddrs, vec![addr]);
}

#[test]
fn test_bootstrap_strategy_invalid_addr() {
    let config = BootstrapConfig {
        nodes: vec!["not-a-multiaddr".to_string()],
        ..Default::default()
    };
    let strategy = BootstrapStrategy::new(config);
    let result = strategy.execute().expect("execute");
    assert!(result.is_empty(), "invalid multiaddr should yield no peers");
}

#[test]
fn test_orchestrator_with_cache_and_bootstrap() {
    let keypair = libp2p::identity::Keypair::generate_ed25519();
    let bootstrap_peer_id = keypair.public().to_peer_id();
    let bootstrap_addr = format!("/ip4/10.0.0.1/tcp/4001/p2p/{bootstrap_peer_id}");

    let mut orchestrator = DiscoveryOrchestrator::new();
    orchestrator.add_strategy(cache_with(&["cached_peer"]));
    orchestrator.add_strategy(any(BootstrapStrategy::new(BootstrapConfig {
        nodes: vec![bootstrap_addr],
        ..Default::default()
    })));

    let result = orchestrator.discover();
    assert_eq!(result.len(), 2, "should have cached + bootstrap peers");
    let ids: Vec<&str> = result.iter().map(|r| r.peer_id.as_str()).collect();
    assert!(ids.contains(&"cached_peer"));
    assert!(ids.contains(&bootstrap_peer_id.to_string().as_str()));
}

#[test]
fn bootstrap_defaults() {
    let config = BootstrapConfig::default();
    assert!(config.nodes.is_empty());
    assert_eq!(config.parallel_dials, 3);
    assert_eq!(config.timeout_secs, 30);
    assert!(config.stop_after_first);
    assert_eq!(BootstrapStrategy::new(config).name(), "bootstrap");
    let orchestrator: DiscoveryOrchestrator<AnyStrategy> = DiscoveryOrchestrator::default();
    assert!(orchestrator.strategies().is_empty());
}

#[test]
fn only_the_first_nodes_are_considered() {
    let id = |_: usize| libp2p::identity::Keypair::generate_ed25519().public().to_peer_id();
    let mut nodes: Vec<String> =
        (0..4).map(|i| format!("/ip4/1.2.3.4/tcp/1/p2p/{}", id(i))).collect();
    nodes.insert(1, "/ip4/1.2.3.4/tcp/1".to_string());
    let config = BootstrapConfig { nodes: nodes.clone(), ..Default::default() };
    let records = BootstrapStrategy::new(config).records(99);
    assert_eq!(records.len(), 2);
    assert_eq!(records[0].multiaddrs, vec![nodes[0].clone()]);
    assert_eq!(records[1].multiaddrs, vec![nodes[2].clone()]);
    assert_eq!(records[1].last_seen, 99);
    assert_eq!(records[1].connection_count, 0);
    assert!(records[1].is_public);
}

#[test]
fn records_follow_what_was_read() {
    let node = "the node".to_string();
    let read = Multiaddr::from_parts(
        "/x".to_string(),
        vec![Component::Ip4(1), Component::P2p("peer".to_string())],
    );
    let record = record_for_node(&node, &Some(read), 7).expect("record");
    assert_eq!(record.peer_id, "peer");
    assert_eq!(record.multiaddrs, vec!["the node".to_string()]);
    assert_eq!(record.last_seen, 7);
    let nameless = Multiaddr::from_parts("/x".to_string(), vec![Component::Ip4(1)]);
    assert!(record_for_node(&node, &Some(nameless), 7).is_none());
    assert!(record_for_node(&node, &None, 7).is_none());
}

#[test]
fn the_first_record_of_a_peer_stays() {
    let mut first = make_record("b");
    first.connection_count = 10;
    let mut second = make_record("b");
    second.connection_count = 20;
    let merged = merge_outcomes(vec![
        Ok(vec![make_record("c"), first]),
        Err(DiscoveryError { message: "down".to_string() }),
        Ok(vec![second, make_record("a")]),
    ]);
    let ids: Vec<&str> = merged.iter().map(|r| r.peer_id.as_str()).collect();
    assert_eq!(ids, vec!["a", "b", "c"]);
    assert_eq!(merged[1].connection_count, 10);
}
