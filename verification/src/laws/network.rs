//! Laws of relayed connections.
use vstd::prelude::*;

verus! {

/// The connections of a peer are those that the table has for it, and none where it has none.
pub proof fn connections_are_those_recorded<C>(
    table: Map<Seq<char>, Seq<C>>,
    peer_id: Seq<char>,
)
    ensures
        table.contains_key(peer_id) ==> crate::network::connections_of(table, peer_id)
            == table[peer_id],
        !table.contains_key(peer_id) ==> crate::network::connections_of(table, peer_id).len() == 0,
{
}

} // verus!
