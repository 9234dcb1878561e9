//! The chat node: what it tells the front-end, broadcasts and records in response to user actions
//! and gossip events.
//!
//! The node itself performs nothing. [`Node::step`] takes an event and returns the effects to
//! carry out in order; the caller owns the gossip connection, the cache and the channels.
use vstd::hash_map::StringHashMap;
use vstd::prelude::*;

use crate::peer_cache::PeerRecord;
use crate::text::{decimal_text, join2, join3, shorten};
use crate::tui::{UiEvent, UserAction};

verus! {

/// Application label for the rendezvous namespace.
pub const APP_LABEL: &'static str = "hatch-chat/v0.7";

/// A chat message broadcast over the gossip topic.
#[derive(Debug, Clone)]
pub struct ChatMessage {
    /// EndpointId of the sender (as a string).
    pub from: String,
    /// Human-readable sender name.
    pub name: String,
    /// Message body.
    pub text: String,
    /// Unix timestamp in seconds.
    pub timestamp: u64,
}

/// The content of a [`ChatMessage`].
#[verifier::ext_equal]
pub struct ChatMessageView {
    pub from: Seq<char>,
    pub name: Seq<char>,
    pub text: Seq<char>,
    pub timestamp: u64,
}

impl View for ChatMessage {
    type V = ChatMessageView;

    open spec fn view(&self) -> ChatMessageView {
        ChatMessageView {
            from: self.from@,
            name: self.name@,
            text: self.text@,
            timestamp: self.timestamp,
        }
    }
}

/// What happened.
#[derive(Debug)]
pub enum NodeEvent {
    /// The front-end asked for something; `None` when it is gone.
    Action(Option<UserAction>),
    /// The broadcast of a user's message ended, with an error if it failed.
    BroadcastEnded { text: String, error: Option<String> },
    /// A gossip message came in through a neighbor; `None` when it could not be decoded.
    Received { delivered_from: String, message: Option<ChatMessage> },
    /// A neighbor appeared.
    NeighborUp { peer_id: String },
    /// A neighbor left.
    NeighborDown { peer_id: String },
    /// The gossip topic dropped events.
    Lagged,
    /// The event stream dropped this many messages.
    ReceiverLagged { missed: u64 },
    /// The event stream ended.
    ReceiverClosed,
}

/// Something to carry out.
#[derive(Debug)]
pub enum NodeEffect {
    /// Tell the front-end.
    Ui(UiEvent),
    /// Broadcast a message that announces our name.
    Announce(ChatMessage),
    /// Broadcast a user's message, and report how that ended.
    Broadcast(ChatMessage),
    /// Save a record in the peer cache.
    SavePeer(PeerRecord),
    /// Shut down.
    Stop,
}

/// The content of a [`NodeEffect`].
#[verifier::ext_equal]
pub enum NodeEffectView {
    Ui(crate::tui::UiEventView),
    Announce(ChatMessageView),
    Broadcast(ChatMessageView),
    SavePeer(crate::peer_cache::PeerRecordView),
    Stop,
}

impl View for NodeEffect {
    type V = NodeEffectView;

    open spec fn view(&self) -> NodeEffectView {
        match *self {
            NodeEffect::Ui(event) => NodeEffectView::Ui(event@),
            NodeEffect::Announce(message) => NodeEffectView::Announce(message@),
            NodeEffect::Broadcast(message) => NodeEffectView::Broadcast(message@),
            NodeEffect::SavePeer(record) => NodeEffectView::SavePeer(record@),
            NodeEffect::Stop => NodeEffectView::Stop,
        }
    }
}

/// The contents of a list of effects.
pub open spec fn effect_views(effects: Seq<NodeEffect>) -> Seq<NodeEffectView> {
    Seq::new(effects.len(), |i: int| effects[i]@)
}

/// A node that has joined the rendezvous.
pub struct Node {
    our_id: String,
    name: Option<String>,
    peer_names: StringHashMap<String>,
}

/// What a node knows: its own id and name, and the names that peers have announced.
#[verifier::ext_equal]
pub struct NodeView {
    pub our_id: Seq<char>,
    pub name: Option<Seq<char>>,
    pub peer_names: Map<Seq<char>, Seq<char>>,
}

impl View for Node {
    type V = NodeView;

    closed spec fn view(&self) -> NodeView {
        NodeView {
            our_id: self.our_id@,
            name: match self.name {
                Some(name) => Some(name@),
                None => None,
            },
            peer_names: self.peer_names@.map_values(|name: String| name@),
        }
    }
}

/// The front-end is told an info line.
pub open spec fn info(text: Seq<char>) -> NodeEffectView {
    NodeEffectView::Ui(crate::tui::UiEventView::Info(text))
}

/// The front-end is told a warning.
pub open spec fn warning(text: Seq<char>) -> NodeEffectView {
    NodeEffectView::Ui(crate::tui::UiEventView::Warn(text))
}

/// The front-end is told that a peer is connected.
pub open spec fn peer_connected(peer_id: Seq<char>) -> NodeEffectView {
    NodeEffectView::Ui(
        crate::tui::UiEventView::PeerConnected { peer_id, addr: "gossip"@, direct: true },
    )
}

/// The front-end is shown a chat message.
pub open spec fn chat_shown(from: Seq<char>, text: Seq<char>) -> NodeEffectView {
    NodeEffectView::Ui(crate::tui::UiEventView::ChatMessage { from, text })
}

/// The record of a peer that has announced its name.
pub open spec fn gossip_record(peer_id: Seq<char>, now: u64) -> crate::peer_cache::PeerRecordView {
    crate::peer_cache::PeerRecordView {
        peer_id,
        multiaddrs: seq!["gossip"@],
        i2p_destination: None,
        last_seen: now,
        connection_count: 1,
        rtt_ms: None,
        is_relay: false,
        is_public: false,
    }
}

/// Whether a message only announces its sender's name: it has a name and no text.
pub open spec fn announces_name(message: ChatMessageView) -> bool {
    message.text.len() == 0 && message.name.len() > 0
}

impl NodeView {
    /// The message for a text that the user broadcasts.
    pub open spec fn outgoing(self, text: Seq<char>, now: u64) -> ChatMessageView {
        ChatMessageView {
            from: self.our_id,
            name: match self.name {
                Some(name) => name,
                None => "anonymous"@,
            },
            text,
            timestamp: now,
        }
    }

    /// The name under which a peer's messages are shown: the one it announced last, or else its
    /// shortened id.
    pub open spec fn shown_name(self, peer_id: Seq<char>) -> Seq<char> {
        if self.peer_names.contains_key(peer_id) {
            self.peer_names[peer_id]
        } else {
            crate::text::shortened(peer_id)
        }
    }

    /// The node after it heard a message of another peer, and the effects of that.
    pub open spec fn heard(self, message: ChatMessageView, now: u64) -> (
        NodeView,
        Seq<NodeEffectView>,
    ) {
        if announces_name(message) {
            (
                NodeView {
                    peer_names: self.peer_names.insert(message.from, message.name),
                    ..self
                },
                seq![
                    info(
                        crate::text::shortened(message.from) + " is now known as "@ + message.name,
                    ),
                    peer_connected(message.from),
                    NodeEffectView::SavePeer(gossip_record(message.from, now)),
                ],
            )
        } else {
            (self, seq![chat_shown(self.shown_name(message.from), message.text)])
        }
    }

    /// The node after an event, and the effects of the event in order.
    pub open spec fn stepped(self, event: NodeEvent, now: u64) -> (NodeView, Seq<NodeEffectView>) {
        match event {
            NodeEvent::Action(Some(UserAction::Quit)) => (
                self,
                seq![info("Shutting down…"@), NodeEffectView::Stop],
            ),
            NodeEvent::Action(Some(UserAction::Broadcast { text })) => (
                self,
                seq![NodeEffectView::Broadcast(self.outgoing(text@, now))],
            ),
            NodeEvent::Action(None) => (self, seq![NodeEffectView::Stop]),
            NodeEvent::BroadcastEnded { text, error: None } => (
                self,
                seq![chat_shown("me"@, text@)],
            ),
            NodeEvent::BroadcastEnded { text, error: Some(reason) } => (
                self,
                seq![warning("Broadcast failed: "@ + reason@)],
            ),
            NodeEvent::Received { delivered_from, message } => match message {
                Some(message) if delivered_from@ != self.our_id => self.heard(message@, now),
                _ => (self, seq![]),
            },
            NodeEvent::NeighborUp { peer_id } => if peer_id@ == self.our_id {
                (self, seq![])
            } else {
                (
                    self,
                    seq![
                        peer_connected(peer_id@),
                        info("Peer joined: "@ + crate::text::shortened(peer_id@)),
                    ],
                )
            },
            NodeEvent::NeighborDown { peer_id } => if peer_id@ == self.our_id {
                (self, seq![])
            } else {
                (
                    self,
                    seq![
                        NodeEffectView::Ui(
                            crate::tui::UiEventView::PeerDisconnected { peer_id: peer_id@ },
                        ),
                        info("Peer left: "@ + crate::text::shortened(peer_id@)),
                    ],
                )
            },
            NodeEvent::Lagged => (
                self,
                seq![warning("Event stream lagged — some events were missed"@)],
            ),
            NodeEvent::ReceiverLagged { missed } => (
                self,
                seq![
                    warning(
                        "Receiver lagged — missed "@ + crate::text::decimal(missed as nat)
                            + " messages"@,
                    ),
                ],
            ),
            NodeEvent::ReceiverClosed => (
                self,
                seq![warning("Gossip event stream closed"@), NodeEffectView::Stop],
            ),
        }
    }
}

/// A list of no effects.
fn no_effects() -> (effects: Vec<NodeEffect>)
    ensures
        effect_views(effects@) == Seq::<NodeEffectView>::empty(),
{
    let effects: Vec<NodeEffect> = Vec::new();
    assert(effect_views(effects@) =~= Seq::empty());
    effects
}

/// Adds an effect behind the others.
fn add_effect(effects: &mut Vec<NodeEffect>, effect: NodeEffect)
    ensures
        effect_views(final(effects)@) == effect_views(old(effects)@).push(effect@),
{
    effects.push(effect);
    assert(effect_views(effects@) =~= effect_views(old(effects)@).push(effect@));
}

/// What the front-end is told before the node joins the rendezvous.
pub fn joining_notice() -> (event: UiEvent)
    ensures
        event@ == crate::tui::UiEventView::Info(
            "Joining rendezvous with passphrase (app="@ + APP_LABEL@ + ")…"@,
        ),
{
    UiEvent::Info(join3("Joining rendezvous with passphrase (app=", APP_LABEL, ")…"))
}

/// What the front-end is told once the peer cache is open, with the number of peers in it.
pub fn cache_opened(cached: usize) -> (effects: Vec<NodeEffect>)
    ensures
        effect_views(effects@) == seq![
            NodeEffectView::Ui(crate::tui::UiEventView::CacheCount(cached)),
            info(
                "Peer cache initialized with "@ + crate::text::decimal(cached as nat)
                    + " peers"@,
            ),
            info("Chat ready — waiting for peers…"@),
        ],
{
    let mut effects = no_effects();
    add_effect(&mut effects, NodeEffect::Ui(UiEvent::CacheCount(cached)));
    let line = join3(
        "Peer cache initialized with ",
        decimal_text(cached as u64).as_str(),
        " peers",
    );
    add_effect(&mut effects, NodeEffect::Ui(UiEvent::Info(line)));
    add_effect(
        &mut effects,
        NodeEffect::Ui(UiEvent::Info("Chat ready — waiting for peers…".to_owned())),
    );
    effects
}

/// The record of a peer that has announced its name.
fn make_gossip_record(peer_id: String, now: u64) -> (record: PeerRecord)
    ensures
        record@ == gossip_record(peer_id@, now),
{
    let mut multiaddrs: Vec<String> = Vec::new();
    multiaddrs.push("gossip".to_owned());
    let record = PeerRecord {
        peer_id,
        multiaddrs,
        i2p_destination: None,
        last_seen: now,
        connection_count: 1,
        rtt_ms: None,
        is_relay: false,
        is_public: false,
    };
    assert(record@.multiaddrs =~= seq!["gossip"@]);
    record
}

impl Node {
    /// The node with this id and display name, before it has heard of any peer.
    pub fn new(our_id: String, name: Option<String>) -> (node: Node)
        ensures
            node@.our_id == our_id@,
            node@.name == match name {
                Some(name) => Some(name@),
                None => None,
            },
            node@.peer_names == Map::<Seq<char>, Seq<char>>::empty(),
    {
        let node = Node { our_id, name, peer_names: StringHashMap::new() };
        assert(node@.peer_names =~= Map::empty());
        node
    }

    /// What follows once the rendezvous is joined: the front-end learns the local id, and the
    /// display name, if there is one, is announced.
    pub fn joined(&self, now: u64) -> (effects: Vec<NodeEffect>)
        ensures
            effect_views(effects@) == seq![
                info("Local EndpointId: "@ + self@.our_id),
                NodeEffectView::Ui(crate::tui::UiEventView::LocalPeerId(self@.our_id)),
                info("Rendezvous joined — listening for peers via DHT"@),
            ] + match self@.name {
                Some(name) => seq![
                    NodeEffectView::Announce(
                        ChatMessageView {
                            from: self@.our_id,
                            name,
                            text: Seq::empty(),
                            timestamp: now,
                        },
                    ),
                ],
                None => seq![],
            },
    {
        let mut effects = no_effects();
        let line = join2("Local EndpointId: ", self.our_id.as_str());
        add_effect(&mut effects, NodeEffect::Ui(UiEvent::Info(line)));
        add_effect(&mut effects, NodeEffect::Ui(UiEvent::LocalPeerId(self.our_id.clone())));
        add_effect(
            &mut effects,
            NodeEffect::Ui(
                UiEvent::Info("Rendezvous joined — listening for peers via DHT".to_owned()),
            ),
        );
        if let Some(name) = &self.name {
            let message = ChatMessage {
                from: self.our_id.clone(),
                name: name.clone(),
                text: String::new(),
                timestamp: now,
            };
            add_effect(&mut effects, NodeEffect::Announce(message));
        }
        effects
    }

    /// The name under which a peer's messages are shown.
    pub fn display_name(&self, peer_id: &str) -> (name: String)
        ensures
            name@ == self@.shown_name(peer_id@),
    {
        match self.peer_names.get(peer_id) {
            Some(name) => name.clone(),
            None => shorten(peer_id),
        }
    }

    /// Takes in a message of another peer.
    fn hear(&mut self, message: ChatMessage, now: u64) -> (effects: Vec<NodeEffect>)
        ensures
            (final(self)@, effect_views(effects@)) == old(self)@.heard(message@, now),
    {
        let mut effects = no_effects();
        if message.text.as_str().is_empty() && !message.name.as_str().is_empty() {
            self.peer_names.insert(message.from.clone(), message.name.clone());
            assert(self@.peer_names =~= old(self)@.peer_names.insert(
                message@.from,
                message@.name,
            ));
            let line = join3(
                shorten(message.from.as_str()).as_str(),
                " is now known as ",
                message.name.as_str(),
            );
            add_effect(&mut effects, NodeEffect::Ui(UiEvent::Info(line)));
            add_effect(
                &mut effects,
                NodeEffect::Ui(
                    UiEvent::PeerConnected {
                        peer_id: message.from.clone(),
                        addr: "gossip".to_owned(),
                        direct: true,
                    },
                ),
            );
            add_effect(&mut effects, NodeEffect::SavePeer(make_gossip_record(message.from, now)));
        } else {
            let from = self.display_name(message.from.as_str());
            add_effect(
                &mut effects,
                NodeEffect::Ui(UiEvent::ChatMessage { from, text: message.text }),
            );
        }
        effects
    }

    /// Takes in an event that happens at `now` and returns the effects to carry out, in order.
    pub fn step(&mut self, event: NodeEvent, now: u64) -> (effects: Vec<NodeEffect>)
        ensures
            (final(self)@, effect_views(effects@)) == old(self)@.stepped(event, now),
    {
        let mut effects = no_effects();
        match event {
            NodeEvent::Action(Some(UserAction::Quit)) => {
                add_effect(
                    &mut effects,
                    NodeEffect::Ui(UiEvent::Info("Shutting down…".to_owned())),
                );
                add_effect(&mut effects, NodeEffect::Stop);
            },
            NodeEvent::Action(Some(UserAction::Broadcast { text })) => {
                let name = match &self.name {
                    Some(name) => name.clone(),
                    None => "anonymous".to_owned(),
                };
                let from = self.our_id.clone();
                add_effect(
                    &mut effects,
                    NodeEffect::Broadcast(ChatMessage { from, name, text, timestamp: now }),
                );
            },
            NodeEvent::Action(None) => {
                add_effect(&mut effects, NodeEffect::Stop);
            },
            NodeEvent::BroadcastEnded { text, error } => {
                match error {
                    None => {
                        add_effect(
                            &mut effects,
                            NodeEffect::Ui(UiEvent::ChatMessage { from: "me".to_owned(), text }),
                        );
                    },
                    Some(reason) => {
                        let line = join2("Broadcast failed: ", reason.as_str());
                        add_effect(&mut effects, NodeEffect::Ui(UiEvent::Warn(line)));
                    },
                }
            },
            NodeEvent::Received { delivered_from, message } => {
                if delivered_from != self.our_id {
                    if let Some(message) = message {
                        return self.hear(message, now);
                    }
                }
            },
            NodeEvent::NeighborUp { peer_id } => {
                if peer_id != self.our_id {
                    let line = join2("Peer joined: ", shorten(peer_id.as_str()).as_str());
                    add_effect(
                        &mut effects,
                        NodeEffect::Ui(
                            UiEvent::PeerConnected {
                                peer_id,
                                addr: "gossip".to_owned(),
                                direct: true,
                            },
                        ),
                    );
                    add_effect(&mut effects, NodeEffect::Ui(UiEvent::Info(line)));
                }
            },
            NodeEvent::NeighborDown { peer_id } => {
                if peer_id != self.our_id {
                    let line = join2("Peer left: ", shorten(peer_id.as_str()).as_str());
                    add_effect(&mut effects, NodeEffect::Ui(UiEvent::PeerDisconnected { peer_id }));
                    add_effect(&mut effects, NodeEffect::Ui(UiEvent::Info(line)));
                }
            },
            NodeEvent::Lagged => {
                add_effect(
                    &mut effects,
                    NodeEffect::Ui(
                        UiEvent::Warn("Event stream lagged — some events were missed".to_owned()),
                    ),
                );
            },
            NodeEvent::ReceiverLagged { missed } => {
                let line = join3(
                    "Receiver lagged — missed ",
                    decimal_text(missed).as_str(),
                    " messages",
                );
                add_effect(&mut effects, NodeEffect::Ui(UiEvent::Warn(line)));
            },
            NodeEvent::ReceiverClosed => {
                add_effect(
                    &mut effects,
                    NodeEffect::Ui(UiEvent::Warn("Gossip event stream closed".to_owned())),
                );
                add_effect(&mut effects, NodeEffect::Stop);
            },
        }
        effects
    }
}

/// An identifier shortened for display.
pub fn short_id(id: &str) -> (shown: String)
    ensures
        shown@ == crate::text::shortened(id@),
{
    shorten(id)
}

/// Whether the effects tell the caller to shut down.
pub open spec fn stops(effects: Seq<NodeEffectView>) -> bool {
    exists|i: int| 0 <= i < effects.len() && (#[trigger] effects[i]) is Stop
}

/// The node stops exactly when the user quits, the front-end is gone or the gossip stream has
/// ended, and stopping is then the last thing to do.
pub proof fn node_stops_only_when_told(node: NodeView, event: NodeEvent, now: u64)
    ensures
        stops(node.stepped(event, now).1) <==> (event is ReceiverClosed || event == NodeEvent::Action(
            None,
        ) || event == NodeEvent::Action(Some(UserAction::Quit))),
        stops(node.stepped(event, now).1) ==> node.stepped(event, now).1.last() is Stop,
{
    let effects = node.stepped(event, now).1;
    if event is ReceiverClosed || event == NodeEvent::Action(Some(UserAction::Quit)) {
        assert(effects[1] is Stop);
    }
    if event == NodeEvent::Action(None) {
        assert(effects[0] is Stop);
    }
}

/// A node never changes its own id or name, and learns a peer's name only from an announcement.
pub proof fn node_identity_is_fixed(node: NodeView, event: NodeEvent, now: u64)
    ensures
        node.stepped(event, now).0.our_id == node.our_id,
        node.stepped(event, now).0.name == node.name,
        node.stepped(event, now).0.peer_names != node.peer_names ==> match event {
            NodeEvent::Received { delivered_from, message: Some(message) } => announces_name(
                message@,
            ),
            _ => false,
        },
{
}

/// What comes back from the node itself is ignored: its own messages and its own appearance among
/// the neighbors have no effect.
pub proof fn own_events_are_ignored(node: NodeView, event: NodeEvent, now: u64)
    requires
        match event {
            NodeEvent::Received { delivered_from, .. } => delivered_from@ == node.our_id,
            NodeEvent::NeighborUp { peer_id } => peer_id@ == node.our_id,
            NodeEvent::NeighborDown { peer_id } => peer_id@ == node.our_id,
            _ => false,
        },
    ensures
        node.stepped(event, now) == (node, Seq::<NodeEffectView>::empty()),
{
}

/// A text that one node broadcasts under a name which another node has heard announced is shown
/// there under that name, whatever else the other node had heard before.
pub proof fn announced_name_is_shown(
    sender: NodeView,
    receiver: NodeView,
    text: Seq<char>,
    announced_at: u64,
    sent_at: u64,
)
    requires
        sender.name is Some,
        sender.name->0.len() > 0,
        text.len() > 0,
    ensures
        ({
            let announcement = ChatMessageView {
                from: sender.our_id,
                name: sender.name->0,
                text: Seq::empty(),
                timestamp: announced_at,
            };
            let introduced = receiver.heard(announcement, announced_at).0;
            introduced.heard(sender.outgoing(text, sent_at), sent_at) == (
                introduced,
                seq![chat_shown(sender.name->0, text)],
            )
        }),
{
}

/// A text from a peer that has announced no name is shown under its shortened id, and hearing it
/// leaves the node unchanged.
pub proof fn unnamed_peer_is_shown_by_id(node: NodeView, message: ChatMessageView, now: u64)
    requires
        message.text.len() > 0,
        !node.peer_names.contains_key(message.from),
    ensures
        node.heard(message, now) == (
            node,
            seq![chat_shown(crate::text::shortened(message.from), message.text)],
        ),
{
}

} // verus!
