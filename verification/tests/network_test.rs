// Tests for addresses and the direct-messaging network.

use hatch_chat::address::{extract_peer_id_from_multiaddr, Component};
use hatch_chat::network::{
    filter_addresses, is_direct_address, is_internet_address, relay_reservations, Multiaddr,
    NatStatus, RelayedConnections, GOSSIPSUB_TOPIC, KADEMLIA_BOOTSTRAP_INTERVAL_SECS,
};
use libp2p::identity::Keypair;

fn addr(text: &str) -> Multiaddr {
    Multiaddr::parse(text).unwrap()
}

#[test]
fn test_keypair_and_peer_id() {
    let keypair = Keypair::generate_ed25519();
    let peer_id = keypair.public().to_peer_id();
    // A PeerId should always be derivable from a valid keypair.
    let s = peer_id.to_string();
    assert!(s.starts_with("12D3KooW") || s.len() > 10);
}

#[test]
fn test_is_internet_address_loopback() {
    let addr: Multiaddr = addr("/ip4/127.0.0.1/tcp/4001");
    assert!(!is_internet_address(&addr));
}

#[test]
fn test_is_internet_address_private() {
    assert!(!is_internet_address(&addr("/ip4/192.168.1.5/tcp/4001")));
    assert!(!is_internet_address(&addr("/ip4/10.0.0.1/tcp/4001")));
    assert!(!is_internet_address(&addr("/ip4/172.16.0.1/tcp/4001")));
}

#[test]
fn test_is_internet_address_public() {
    assert!(is_internet_address(&addr("/ip4/1.2.3.4/tcp/4001")));
}

#[test]
fn test_is_internet_address_ipv6_loopback() {
    assert!(!is_internet_address(&addr("/ip6/::1/tcp/4001")));
}

#[test]
fn test_filter_addresses_no_local() {
    let addrs: Vec<Multiaddr> = vec![
        addr("/ip4/127.0.0.1/tcp/4001"),
        addr("/ip4/1.2.3.4/tcp/4001"),
        addr("/ip4/192.168.1.1/tcp/4001"),
    ];
    let filtered = filter_addresses(addrs, true);
    assert_eq!(filtered.len(), 1);
    assert_eq!(filtered[0].to_string(), "/ip4/1.2.3.4/tcp/4001");
}

#[test]
fn test_filter_addresses_all_local() {
    let addrs: Vec<Multiaddr> = vec![
        addr("/ip4/127.0.0.1/tcp/4001"),
        addr("/ip4/192.168.1.1/tcp/4001"),
    ];
    let filtered = filter_addresses(addrs, true);
    assert!(filtered.is_empty());
}

#[test]
fn test_filter_addresses_disabled() {
    let addrs: Vec<Multiaddr> = vec![
        addr("/ip4/127.0.0.1/tcp/4001"),
        addr("/ip4/1.2.3.4/tcp/4001"),
    ];
    // When no_local is false, nothing should be filtered.
    let filtered = filter_addresses(addrs, false);
    assert_eq!(filtered.len(), 2);
}

#[test]
fn edges_of_the_local_ranges() {
    for local in [
        "/ip4/0.0.0.0/tcp/1",
        "/ip4/10.255.255.255/tcp/1",
        "/ip4/127.255.255.255/udp/1",
        "/ip4/169.254.0.0/tcp/1",
        "/ip4/172.31.255.255/tcp/1",
        "/ip4/192.168.255.255/tcp/1",
        "/ip6/::/tcp/1",
        "/ip6/fc00::1/tcp/1",
        "/ip6/fdff::1/tcp/1",
        "/ip6/fe80::1/tcp/1",
        "/ip6/febf::1/tcp/1",
        "/ip4/1.2.3.4/tcp/1/ip4/127.0.0.1/tcp/2",
    ] {
        assert!(!is_internet_address(&addr(local)), "{local}");
    }
    for public in [
        "/ip4/0.0.0.1/tcp/1",
        "/ip4/9.255.255.255/tcp/1",
        "/ip4/11.0.0.0/tcp/1",
        "/ip4/126.255.255.255/tcp/1",
        "/ip4/128.0.0.0/tcp/1",
        "/ip4/169.253.255.255/tcp/1",
        "/ip4/172.15.255.255/tcp/1",
        "/ip4/172.32.0.0/tcp/1",
        "/ip4/192.167.255.255/tcp/1",
        "/ip4/192.169.0.0/tcp/1",
        "/ip6/::2/tcp/1",
        "/ip6/fbff::1/tcp/1",
        "/ip6/fe00::1/tcp/1",
        "/ip6/fec0::1/tcp/1",
        "/ip6/2001:db8::1/tcp/1",
        "/dns4/example.com/tcp/1",
    ] {
        assert!(is_internet_address(&addr(public)), "{public}");
    }
}

#[test]
fn filtering_twice_changes_nothing() {
    let texts = ["/ip4/1.2.3.4/tcp/1", "/ip4/10.0.0.1/tcp/1", "/ip4/5.6.7.8/tcp/1"];
    let once = filter_addresses(texts.iter().map(|t| addr(t)).collect(), true);
    let twice = filter_addresses(once, true);
    let kept: Vec<String> = twice.iter().map(|a| a.to_string()).collect();
    assert_eq!(kept, vec!["/ip4/1.2.3.4/tcp/1", "/ip4/5.6.7.8/tcp/1"]);
}

#[test]
fn texts_that_are_no_addresses() {
    assert!(Multiaddr::parse("not-a-multiaddr").is_none());
    assert!(Multiaddr::parse("/ip4/1.2.3/tcp/1").is_none());
    assert!(Multiaddr::parse("/ip4/1.2.3.4/tcp/x").is_none());
}

#[test]
fn relayed_addresses_name_the_peer_they_end_in() {
    let relay = Keypair::generate_ed25519().public().to_peer_id().to_string();
    let peer = Keypair::generate_ed25519().public().to_peer_id().to_string();
    let direct = addr(&format!("/ip4/1.2.3.4/tcp/4001/p2p/{peer}"));
    assert!(is_direct_address(&direct));
    assert_eq!(extract_peer_id_from_multiaddr(&direct), Some(peer.clone()));
    let relayed = addr(&format!("/ip4/1.2.3.4/tcp/4001/p2p/{relay}/p2p-circuit/p2p/{peer}"));
    assert!(!is_direct_address(&relayed));
    assert_eq!(extract_peer_id_from_multiaddr(&relayed), Some(peer));
    let listening = addr(&format!("/ip4/1.2.3.4/tcp/4001/p2p/{relay}/p2p-circuit"));
    assert_eq!(extract_peer_id_from_multiaddr(&listening), Some(relay));
    assert_eq!(extract_peer_id_from_multiaddr(&addr("/ip4/1.2.3.4/tcp/4001")), None);
}

#[test]
fn addresses_from_parts() {
    let parts = vec![Component::Ip4(0x0102_0304), Component::Tcp(80), Component::Other];
    let made = Multiaddr::from_parts("text".to_string(), parts);
    assert_eq!(made.to_string(), "text");
    assert!(is_internet_address(&made));
    assert!(is_direct_address(&made));
    assert_eq!(extract_peer_id_from_multiaddr(&made), None);
    let local = Multiaddr::from_parts(String::new(), vec![Component::Ip6(1)]);
    assert!(!is_internet_address(&local));
}

#[test]
fn reachability() {
    assert!(NatStatus::Public("/ip4/1.2.3.4/tcp/1".to_string()).is_public());
    assert!(!NatStatus::Private.is_public());
    assert!(!NatStatus::Unknown.is_public());
    assert_eq!(relay_reservations(true, 128), 128);
    assert_eq!(relay_reservations(false, 128), 0);
    assert_eq!(GOSSIPSUB_TOPIC, "hearty-p2p/discovery/v1");
    assert_eq!(KADEMLIA_BOOTSTRAP_INTERVAL_SECS, 600);
}

#[test]
fn relayed_connections_are_closed_once() {
    let mut table: RelayedConnections<u32> = RelayedConnections::new();
    table.record("a".to_string(), 1);
    table.record("b".to_string(), 2);
    table.record("a".to_string(), 3);
    assert_eq!(table.close_relayed_connections("a"), vec![1, 3]);
    assert!(table.close_relayed_connections("a").is_empty());
    assert!(table.close_relayed_connections("c").is_empty());
    assert_eq!(table.close_relayed_connections("b"), vec![2]);
}
