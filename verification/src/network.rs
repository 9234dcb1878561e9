//! The direct-messaging network: its message types, the bookkeeping of relayed connections, and
//! what follows from the node's reachability.
use vstd::hash_map::StringHashMap;
use vstd::prelude::*;

pub use crate::address::{filter_addresses, is_direct_address, is_internet_address, Multiaddr};

verus! {

/// A direct chat message sent via the request-response protocol.
#[derive(Debug, Clone)]
pub struct ChatMessage {
    pub from: String,
    pub text: String,
    pub timestamp: u64,
}

/// Acknowledgement returned by the recipient of a [`ChatMessage`].
#[derive(Debug, Clone)]
pub struct ChatResponse {
    pub received: bool,
}

/// GossipSub topic used for presence / discovery announcements.
pub const GOSSIPSUB_TOPIC: &'static str = "hearty-p2p/discovery/v1";

/// The Kademlia bootstrap interval in seconds (10 minutes).
pub const KADEMLIA_BOOTSTRAP_INTERVAL_SECS: u64 = 600;

/// Whether the node can be reached from the internet.
#[derive(Debug)]
pub enum NatStatus {
    /// Reachable at this address.
    Public(String),
    /// Behind NAT.
    Private,
    /// Not known yet.
    Unknown,
}

impl NatStatus {
    /// Returns `true` if the node is publicly reachable.
    pub fn is_public(&self) -> (public: bool)
        ensures
            public == (self is Public),
    {
        match self {
            NatStatus::Public(_) => true,
            NatStatus::Private | NatStatus::Unknown => false,
        }
    }
}

/// How many reservations the relay server accepts: the default number on a public node, and none
/// behind NAT.
pub fn relay_reservations(is_public: bool, default_reservations: usize) -> (reservations: usize)
    ensures
        reservations == if is_public {
            default_reservations
        } else {
            0
        },
{
    if is_public {
        default_reservations
    } else {
        0
    }
}

/// The relayed connections of each peer, in the order in which they were established.
#[verifier::reject_recursive_types(C)]
pub struct RelayedConnections<C> {
    by_peer: StringHashMap<Vec<C>>,
}

impl<C> View for RelayedConnections<C> {
    type V = Map<Seq<char>, Seq<C>>;

    closed spec fn view(&self) -> Map<Seq<char>, Seq<C>> {
        self.by_peer@.map_values(|connections: Vec<C>| connections@)
    }
}

/// The connections that a peer has.
pub open spec fn connections_of<C>(table: Map<Seq<char>, Seq<C>>, peer_id: Seq<char>) -> Seq<C> {
    if table.contains_key(peer_id) {
        table[peer_id]
    } else {
        Seq::empty()
    }
}

impl<C: Copy> RelayedConnections<C> {
    /// No relayed connections.
    pub fn new() -> (table: Self)
        ensures
            table@ == Map::<Seq<char>, Seq<C>>::empty(),
    {
        let table = RelayedConnections { by_peer: StringHashMap::new() };
        assert(table@ =~= Map::empty());
        table
    }

    /// The connections of a peer, copied.
    fn connections(&self, peer_id: &str) -> (connections: Vec<C>)
        ensures
            connections@ == connections_of(self@, peer_id@),
    {
        let mut connections: Vec<C> = Vec::new();
        if let Some(known) = self.by_peer.get(peer_id) {
            let mut i: usize = 0;
            while i < known.len()
                invariant
                    i <= known@.len(),
                    connections@ == known@.take(i as int),
                decreases known@.len() - i,
            {
                connections.push(known[i]);
                assert(known@.take(i + 1) =~= known@.take(i as int).push(known@[i as int]));
                i = i + 1;
            }
            assert(known@.take(i as int) =~= known@);
        }
        connections
    }

    /// Records a relayed connection to a peer.
    pub fn record(&mut self, peer_id: String, connection: C)
        ensures
            final(self)@ == old(self)@.insert(
                peer_id@,
                connections_of(old(self)@, peer_id@).push(connection),
            ),
    {
        let mut connections = self.connections(peer_id.as_str());
        connections.push(connection);
        self.by_peer.insert(peer_id, connections);
        assert(self@ =~= old(self)@.insert(
            peer_id@,
            connections_of(old(self)@, peer_id@).push(connection),
        ));
    }

    /// Forgets the relayed connections to a peer and returns them, in order, to be closed. This
    /// is called when a direct connection to the peer is established, so that it replaces the
    /// relayed ones. The connections of other peers are left untouched.
    pub fn close_relayed_connections(&mut self, peer_id: &str) -> (to_close: Vec<C>)
        ensures
            to_close@ == connections_of(old(self)@, peer_id@),
            final(self)@ == old(self)@.remove(peer_id@),
    {
        let to_close = self.connections(peer_id);
        self.by_peer.remove(peer_id);
        assert(self@ =~= old(self)@.remove(peer_id@));
        to_close
    }
}

/// A relayed connection that was recorded is closed, last, when its peer's relayed connections
/// are closed, a second closing finds none, and the connections of other peers stay.
pub proof fn recorded_connections_are_closed_once<C>(
    table: Map<Seq<char>, Seq<C>>,
    peer_id: Seq<char>,
    connection: C,
    other: Seq<char>,
)
    ensures
        ({
            let recorded = table.insert(peer_id, connections_of(table, peer_id).push(connection));
            let closed = recorded.remove(peer_id);
            &&& connections_of(recorded, peer_id).last() == connection
            &&& connections_of(closed, peer_id) == Seq::<C>::empty()
            &&& other != peer_id ==> connections_of(closed, other) == connections_of(table, other)
        }),
{
}

} // verus!
