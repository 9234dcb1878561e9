// Tests for the chat node.

use hatch_chat::iroh_net::{
    cache_opened, joining_notice, short_id, ChatMessage, Node, NodeEffect, NodeEvent, APP_LABEL,
};
use hatch_chat::tui::{UiEvent, UserAction};

fn shown(effects: &[NodeEffect]) -> Vec<String> {
    effects.iter().map(|effect| format!("{effect:?}")).collect()
}

fn ui(event: UiEvent) -> NodeEffect {
    NodeEffect::Ui(event)
}

fn info(text: &str) -> NodeEffect {
    ui(UiEvent::Info(text.to_string()))
}

fn warn(text: &str) -> NodeEffect {
    ui(UiEvent::Warn(text.to_string()))
}

fn message(from: &str, name: &str, text: &str) -> ChatMessage {
    ChatMessage {
        from: from.to_string(),
        name: name.to_string(),
        text: text.to_string(),
        timestamp: 5,
    }
}

fn received(from: &str, message: Option<ChatMessage>) -> NodeEvent {
    NodeEvent::Received { delivered_from: from.to_string(), message }
}

fn gossip_peer(peer_id: &str) -> NodeEffect {
    ui(UiEvent::PeerConnected {
        peer_id: peer_id.to_string(),
        addr: "gossip".to_string(),
        direct: true,
    })
}

#[test]
fn notices_of_startup() {
    assert_eq!(APP_LABEL, "hatch-chat/v0.7");
    match joining_notice() {
        UiEvent::Info(text) => {
            assert_eq!(text, "Joining rendezvous with passphrase (app=hatch-chat/v0.7)…")
        }
        other => panic!("unexpected {other:?}"),
    }
    let expected = vec![
        ui(UiEvent::CacheCount(42)),
        info("Peer cache initialized with 42 peers"),
        info("Chat ready — waiting for peers…"),
    ];
    assert_eq!(shown(&cache_opened(42)), shown(&expected));
}

#[test]
fn joining_announces_the_name() {
    let named = Node::new("id1".to_string(), Some("alice".to_string()));
    let effects = named.joined(9);
    assert_eq!(effects.len(), 4);
    let first = vec![
        info("Local EndpointId: id1"),
        ui(UiEvent::LocalPeerId("id1".to_string())),
        info("Rendezvous joined — listening for peers via DHT"),
    ];
    assert_eq!(shown(&effects[..3]), shown(&first));
    match &effects[3] {
        NodeEffect::Announce(message) => {
            assert_eq!(message.from, "id1");
            assert_eq!(message.name, "alice");
            assert_eq!(message.text, "");
            assert_eq!(message.timestamp, 9);
        }
        other => panic!("unexpected {other:?}"),
    }
    assert_eq!(Node::new("id1".to_string(), None).joined(9).len(), 3);
}

#[test]
fn user_messages_are_broadcast_and_echoed() {
    let mut node = Node::new("id1".to_string(), None);
    let action = UserAction::Broadcast { text: "hello".to_string() };
    let effects = node.step(NodeEvent::Action(Some(action)), 77);
    assert_eq!(effects.len(), 1);
    match &effects[0] {
        NodeEffect::Broadcast(message) => {
            assert_eq!(message.from, "id1");
            assert_eq!(message.name, "anonymous");
            assert_eq!(message.text, "hello");
            assert_eq!(message.timestamp, 77);
        }
        other => panic!("unexpected {other:?}"),
    }
    let ended = NodeEvent::BroadcastEnded { text: "hello".to_string(), error: None };
    let echo = ui(UiEvent::ChatMessage { from: "me".to_string(), text: "hello".to_string() });
    assert_eq!(shown(&node.step(ended, 78)), shown(&[echo]));
    let failed = NodeEvent::BroadcastEnded {
        text: "hello".to_string(),
        error: Some("no neighbors".to_string()),
    };
    assert_eq!(shown(&node.step(failed, 79)), shown(&[warn("Broadcast failed: no neighbors")]));
}

#[test]
fn announced_names_are_used() {
    let mut node = Node::new("me".to_string(), Some("alice".to_string()));
    let long = "12D3KooWabcdefghijklmnop";
    let text = received("n", Some(message(long, "", "hi")));
    let unnamed = ui(UiEvent::ChatMessage {
        from: "12D3KooWabcdefghi...".to_string(),
        text: "hi".to_string(),
    });
    assert_eq!(shown(&node.step(text, 1)), shown(&[unnamed]));

    let effects = node.step(received("n", Some(message(long, "bob", ""))), 50);
    assert_eq!(effects.len(), 3);
    let first = vec![info("12D3KooWabcdefghi... is now known as bob"), gossip_peer(long)];
    assert_eq!(shown(&effects[..2]), shown(&first));
    match &effects[2] {
        NodeEffect::SavePeer(record) => {
            assert_eq!(record.peer_id, long);
            assert_eq!(record.multiaddrs, vec!["gossip".to_string()]);
            assert_eq!(record.last_seen, 50);
            assert_eq!(record.connection_count, 1);
            assert_eq!(record.rtt_ms, None);
            assert_eq!(record.i2p_destination, None);
            assert!(!record.is_relay);
            assert!(!record.is_public);
        }
        other => panic!("unexpected {other:?}"),
    }
    assert_eq!(node.display_name(long), "bob");
    let named = ui(UiEvent::ChatMessage { from: "bob".to_string(), text: "yo".to_string() });
    let effects = node.step(received("n", Some(message(long, "ignored", "yo"))), 51);
    assert_eq!(shown(&effects), shown(&[named]));

    // A later announcement replaces the name; a message without name and text is shown as it is.
    node.step(received("n", Some(message(long, "rob", ""))), 52);
    assert_eq!(node.display_name(long), "rob");
    let empty = ui(UiEvent::ChatMessage { from: "rob".to_string(), text: String::new() });
    assert_eq!(shown(&node.step(received("n", Some(message(long, "", ""))), 53)), shown(&[empty]));
}

#[test]
fn own_and_undecodable_messages_are_ignored() {
    let mut node = Node::new("me".to_string(), None);
    assert!(node.step(received("me", Some(message("x", "bob", ""))), 1).is_empty());
    assert!(node.step(received("n", None), 1).is_empty());
    assert!(node.step(NodeEvent::NeighborUp { peer_id: "me".to_string() }, 1).is_empty());
    assert!(node.step(NodeEvent::NeighborDown { peer_id: "me".to_string() }, 1).is_empty());
    assert_eq!(node.display_name("x"), "x");
}

#[test]
fn neighbors_come_and_go() {
    let mut node = Node::new("me".to_string(), None);
    let up = node.step(NodeEvent::NeighborUp { peer_id: "p1".to_string() }, 1);
    assert_eq!(shown(&up), shown(&[gossip_peer("p1"), info("Peer joined: p1")]));
    let down = node.step(NodeEvent::NeighborDown { peer_id: "p1".to_string() }, 1);
    let gone = ui(UiEvent::PeerDisconnected { peer_id: "p1".to_string() });
    assert_eq!(shown(&down), shown(&[gone, info("Peer left: p1")]));
}

#[test]
fn lag_is_reported() {
    let mut node = Node::new("me".to_string(), None);
    assert_eq!(
        shown(&node.step(NodeEvent::Lagged, 1)),
        shown(&[warn("Event stream lagged — some events were missed")])
    );
    assert_eq!(
        shown(&node.step(NodeEvent::ReceiverLagged { missed: 305 }, 1)),
        shown(&[warn("Receiver lagged — missed 305 messages")])
    );
}

#[test]
fn the_node_stops_when_told() {
    let mut node = Node::new("me".to_string(), None);
    let quit = node.step(NodeEvent::Action(Some(UserAction::Quit)), 1);
    assert_eq!(shown(&quit), shown(&[info("Shutting down…"), NodeEffect::Stop]));
    let gone = node.step(NodeEvent::Action(None), 1);
    assert_eq!(shown(&gone), shown(&[NodeEffect::Stop]));
    let closed = node.step(NodeEvent::ReceiverClosed, 1);
    assert_eq!(shown(&closed), shown(&[warn("Gossip event stream closed"), NodeEffect::Stop]));
}

#[test]
fn long_ids_are_shortened() {
    assert_eq!(short_id("12D3KooWabcdefghijklmnop"), "12D3KooWabcdefghi...");
    assert_eq!(short_id("short"), "short");
}
