//! Laws of discovery: which nodes are considered, what is recorded of them, and how the findings
//! of several strategies are merged.
use vstd::prelude::*;

use crate::discovery::{BootstrapStrategy, DiscoveryError, DiscoveryStrategy};
use crate::peer_cache::PeerRecord;

verus! {

/// The nodes considered are the configured ones from the front: as many as `parallel_dials` says,
/// or all of them where there are fewer. The other settings do not matter.
pub proof fn as_many_nodes_as_dials_are_considered(strategy: BootstrapStrategy, i: int)
    ensures
        ({
            let config = strategy.configuration();
            let considered = strategy.considered();
            &&& considered.len() <= config.parallel_dials
            &&& considered.len() <= config.nodes@.len()
            &&& considered.len() == config.parallel_dials || considered.len()
                == config.nodes@.len()
            &&& 0 <= i < considered.len() ==> considered[i] == config.nodes@[i]
        }),
{
}

/// The peer that a node's text names, as far as it reads as an address that names one.
pub open spec fn peer_of(node: String) -> Option<Seq<char>> {
    match crate::address::parsed_multiaddr(node@) {
        Some(addr) => crate::address::named_peer(addr.components),
        None => None,
    }
}

/// Whether a record is that of a bootstrap node: the peer that its text names, reached by that
/// text, public, never connected to, and last seen now.
pub open spec fn records_node(
    record: crate::peer_cache::PeerRecordView,
    node: String,
    now: u64,
) -> bool {
    &&& peer_of(node) == Some(record.peer_id)
    &&& record.multiaddrs.len() == 1
    &&& record.multiaddrs[0] == node@
    &&& record.last_seen == now
    &&& record.connection_count == 0
    &&& record.i2p_destination is None
    &&& record.rtt_ms is None
    &&& !record.is_relay
    &&& record.is_public
}

/// Whether the records are those of the nodes at these places, in order, and every node that names
/// a peer is at one of the places.
pub open spec fn records_nodes(
    records: Seq<crate::peer_cache::PeerRecordView>,
    nodes: Seq<String>,
    now: u64,
    places: Seq<int>,
) -> bool {
    &&& places.len() == records.len()
    &&& forall|j: int|
        0 <= j < records.len() ==> 0 <= #[trigger] places[j] < nodes.len() && records_node(
            records[j],
            nodes[places[j]],
            now,
        )
    &&& forall|j: int, k: int| 0 <= j < k < records.len() ==> places[j] < places[k]
    &&& forall|i: int|
        0 <= i < nodes.len() && peer_of(#[trigger] nodes[i]) is Some ==> exists|j: int|
            0 <= j < records.len() && #[trigger] places[j] == i
}

proof fn lemma_records_nodes(nodes: Seq<String>, now: u64) -> (places: Seq<int>)
    ensures
        records_nodes(crate::discovery::node_records(nodes, now), nodes, now, places),
    decreases nodes.len(),
{
    let records = crate::discovery::node_records(nodes, now);
    if nodes.len() == 0 {
        Seq::empty()
    } else {
        let front = nodes.drop_last();
        let last = nodes.last();
        let earlier = lemma_records_nodes(front, now);
        let before = crate::discovery::node_records(front, now);
        let places = if peer_of(last) is Some {
            earlier.push(nodes.len() - 1)
        } else {
            earlier
        };
        assert forall|j: int| 0 <= j < records.len() implies 0 <= #[trigger] places[j] < nodes.len()
            && records_node(records[j], nodes[places[j]], now) by {
            if j < before.len() {
                assert(places[j] == earlier[j]);
                assert(records[j] == before[j]);
                assert(front[earlier[j]] == nodes[earlier[j]]);
            }
        }
        assert forall|j: int, k: int| 0 <= j < k < records.len() implies places[j] < places[k] by {
            if k < before.len() {
                assert(earlier[j] < earlier[k]);
            } else {
                assert(earlier[j] < front.len());
            }
        }
        assert forall|i: int|
            0 <= i < nodes.len() && peer_of(#[trigger] nodes[i]) is Some implies exists|j: int|
            0 <= j < records.len() && #[trigger] places[j] == i by {
            if i < front.len() {
                assert(peer_of(front[i]) is Some);
                let j = choose|j: int| 0 <= j < before.len() && #[trigger] earlier[j] == i;
                assert(places[j] == i);
            } else {
                assert(places[before.len() as int] == i);
            }
        }
        places
    }
}

/// The records of a strategy are those of the first `parallel_dials` configured nodes, in order:
/// one for each whose text reads as an address that names a peer, with that peer id and that text,
/// and none for any node behind them.
pub proof fn first_nodes_are_recorded(
    strategy: BootstrapStrategy,
    now: u64,
    records: Seq<crate::peer_cache::PeerRecordView>,
)
    requires
        records == crate::discovery::node_records(strategy.considered(), now),
    ensures
        ({
            let config = strategy.configuration();
            exists|places: Seq<int>|
                {
                    &&& places.len() == records.len()
                    &&& forall|j: int|
                        0 <= j < records.len() ==> {
                            &&& 0 <= #[trigger] places[j] < config.nodes@.len()
                            &&& places[j] < config.parallel_dials
                            &&& records_node(records[j], config.nodes@[places[j]], now)
                        }
                    &&& forall|j: int, k: int|
                        0 <= j < k < records.len() ==> places[j] < places[k]
                    &&& forall|i: int|
                        0 <= i < config.nodes@.len() && i < config.parallel_dials && peer_of(
                            #[trigger] config.nodes@[i],
                        ) is Some ==> exists|j: int|
                            0 <= j < records.len() && #[trigger] places[j] == i
                }
        }),
{
    let config = strategy.configuration();
    let considered = strategy.considered();
    let places = lemma_records_nodes(considered, now);
    assert forall|j: int| 0 <= j < records.len() implies 0 <= #[trigger] places[j]
        < config.nodes@.len() && places[j] < config.parallel_dials && records_node(
        records[j],
        config.nodes@[places[j]],
        now,
    ) by {
        as_many_nodes_as_dials_are_considered(strategy, places[j]);
    }
    assert forall|i: int|
        0 <= i < config.nodes@.len() && i < config.parallel_dials && peer_of(
            #[trigger] config.nodes@[i],
        ) is Some implies exists|j: int| 0 <= j < records.len() && #[trigger] places[j] == i by {
        as_many_nodes_as_dials_are_considered(strategy, i);
        assert(peer_of(considered[i]) is Some);
    }
}

/// A node gives a record just if its text was read as an address that names a peer.
pub proof fn nodes_that_name_a_peer_are_recorded(
    node: Seq<char>,
    parsed: Option<crate::address::MultiaddrView>,
    now: u64,
)
    ensures
        ({
            let record = crate::discovery::node_record(node, parsed, now);
            &&& parsed is None ==> record is None
            &&& parsed is Some ==> match crate::address::named_peer(parsed->0.components) {
                Some(peer_id) => {
                    &&& record is Some
                    &&& record->0.peer_id == peer_id
                    &&& record->0.multiaddrs.len() == 1
                    &&& record->0.multiaddrs[0] == node
                    &&& record->0.last_seen == now
                    &&& record->0.connection_count == 0
                    &&& record->0.i2p_destination is None
                    &&& record->0.rtt_ms is None
                    &&& !record->0.is_relay
                    &&& record->0.is_public
                },
                None => record is None,
            }
        }),
{
}

/// What strategies found is gathered in the order of their outcomes: a strategy that succeeded adds
/// all its records behind those before, and one that failed adds none and takes none away.
pub proof fn findings_are_gathered_in_order(
    earlier: Seq<Result<Vec<PeerRecord>, DiscoveryError>>,
    later: Seq<Result<Vec<PeerRecord>, DiscoveryError>>,
    found: Vec<PeerRecord>,
    error: DiscoveryError,
)
    ensures
        crate::discovery::gathered(seq![Ok::<Vec<PeerRecord>, DiscoveryError>(found)]) == found@,
        crate::discovery::gathered(
            seq![Err::<Vec<PeerRecord>, DiscoveryError>(error)],
        ).len() == 0,
        crate::discovery::gathered(earlier + later) == crate::discovery::gathered(earlier)
            + crate::discovery::gathered(later),
    decreases later.len(),
{
    reveal_with_fuel(crate::discovery::gathered, 2);
    let one = seq![Ok::<Vec<PeerRecord>, DiscoveryError>(found)];
    let none = seq![Err::<Vec<PeerRecord>, DiscoveryError>(error)];
    assert(one.drop_last() =~= Seq::empty());
    assert(none.drop_last() =~= Seq::empty());
    assert(crate::discovery::gathered(one) =~= found@);
    if later.len() == 0 {
        assert(earlier + later =~= earlier);
        assert(crate::discovery::gathered(earlier) + crate::discovery::gathered(later)
            =~= crate::discovery::gathered(earlier));
    } else {
        let front = later.drop_last();
        findings_are_gathered_in_order(earlier, front, found, error);
        assert((earlier + later).drop_last() =~= earlier + front);
        assert((earlier + later).last() == later.last());
        assert(crate::discovery::gathered(earlier + later) =~= crate::discovery::gathered(earlier)
            + crate::discovery::gathered(later));
    }
}

/// Merged records stand in strictly ascending order of the UTF-8 bytes of their peer ids.
pub proof fn merged_records_ascend(
    merged: Seq<PeerRecord>,
    all: Seq<PeerRecord>,
    i: int,
    j: int,
)
    requires
        crate::discovery::merges(merged, all),
        0 <= i < j < merged.len(),
    ensures
        crate::laws::text::precedes(merged[i].peer_id@, merged[j].peer_id@),
{
    crate::laws::text::strings_are_ordered_by_their_bytes(
        merged[i].peer_id@,
        merged[j].peer_id@,
    );
    assert(crate::text::text_before(merged[i].peer_id@, merged[j].peer_id@));
}

/// Of every peer that was found, the record that was found first is merged, unaltered, and once.
pub proof fn first_findings_are_merged(merged: Seq<PeerRecord>, all: Seq<PeerRecord>, k: int)
    requires
        crate::discovery::merges(merged, all),
        0 <= k < all.len(),
        forall|e: int| 0 <= e < k ==> (#[trigger] all[e]).peer_id@ != all[k].peer_id@,
    ensures
        exists|i: int| 0 <= i < merged.len() && #[trigger] merged[i] == all[k],
        forall|i: int, j: int|
            0 <= i < j < merged.len() ==> (#[trigger] merged[i]).peer_id@ != (
            #[trigger] merged[j]).peer_id@,
{
    assert(crate::discovery::has_record(merged, all[k].peer_id@));
    let i = choose|i: int|
        0 <= i < merged.len() && (#[trigger] merged[i]).peer_id@ == all[k].peer_id@;
    let from = choose|f: int|
        0 <= f < all.len() && all[f] == merged[i] && #[trigger] crate::discovery::first_of_peer(
            all,
            f,
        );
    if from < k {
        assert(all[from].peer_id@ != all[k].peer_id@);
    } else if k < from {
        assert(all[k].peer_id@ != all[from].peer_id@);
    }
    assert(merged[i] == all[k]);
    assert forall|i: int, j: int| 0 <= i < j < merged.len() implies (#[trigger] merged[i]).peer_id@
        != (#[trigger] merged[j]).peer_id@ by {
        crate::discovery::merged_peers_are_distinct(merged, all, i, i);
        if merged[i].peer_id@ == merged[j].peer_id@ {
            crate::discovery::merged_peers_are_distinct(merged, all, i, j);
        }
    }
}

/// Nothing is merged that was not found.
pub proof fn merged_records_were_found(merged: Seq<PeerRecord>, all: Seq<PeerRecord>, i: int)
    requires
        crate::discovery::merges(merged, all),
        0 <= i < merged.len(),
    ensures
        exists|k: int| 0 <= k < all.len() && #[trigger] all[k] == merged[i],
{
    let k = choose|k: int|
        0 <= k < all.len() && all[k] == merged[i] && #[trigger] crate::discovery::first_of_peer(
            all,
            k,
        );
    assert(all[k] == merged[i]);
}

/// From the strategies to the list: a record of a strategy that succeeded, the first one of its
/// peer in that strategy and of a peer that no strategy before it found, is in the merged list.
pub proof fn findings_reach_the_list(
    merged: Seq<PeerRecord>,
    outcomes: Seq<Result<Vec<PeerRecord>, DiscoveryError>>,
    s: int,
    r: int,
)
    requires
        crate::discovery::merges(merged, crate::discovery::gathered(outcomes)),
        0 <= s < outcomes.len(),
        outcomes[s] is Ok,
        0 <= r < outcomes[s]->Ok_0@.len(),
        forall|e: int|
            0 <= e < r ==> (#[trigger] outcomes[s]->Ok_0@[e]).peer_id@
                != outcomes[s]->Ok_0@[r].peer_id@,
        forall|t: int, e: int|
            0 <= t < s && outcomes[t] is Ok && 0 <= e < outcomes[t]->Ok_0@.len() ==> (
            #[trigger] outcomes[t]->Ok_0@[e]).peer_id@ != outcomes[s]->Ok_0@[r].peer_id@,
    ensures
        exists|i: int| 0 <= i < merged.len() && #[trigger] merged[i] == outcomes[s]->Ok_0@[r],
{
    let front = outcomes.take(s);
    let back = outcomes.skip(s + 1);
    let found = outcomes[s]->Ok_0;
    let one = seq![outcomes[s]];
    let record = found@[r];
    let before = crate::discovery::gathered(front);
    let all = crate::discovery::gathered(outcomes);
    let nothing = DiscoveryError { message: arbitrary() };
    findings_are_gathered_in_order(front, one, found, nothing);
    findings_are_gathered_in_order(front + one, back, found, nothing);
    assert(outcomes =~= (front + one) + back);
    assert(one =~= seq![Ok::<Vec<PeerRecord>, DiscoveryError>(found)]);
    let k = before.len() + r;
    assert(all[k] == record);
    lemma_gathered_from(front, record.peer_id@);
    assert forall|e: int| 0 <= e < k implies (#[trigger] all[e]).peer_id@ != all[k].peer_id@ by {
        if e < before.len() {
            assert(all[e] == before[e]);
        } else {
            assert(all[e] == found@[e - before.len()]);
        }
    }
    first_findings_are_merged(merged, all, k);
}

proof fn lemma_gathered_from(
    outcomes: Seq<Result<Vec<PeerRecord>, DiscoveryError>>,
    peer_id: Seq<char>,
)
    requires
        forall|t: int, e: int|
            0 <= t < outcomes.len() && outcomes[t] is Ok && 0 <= e < outcomes[t]->Ok_0@.len() ==> (
            #[trigger] outcomes[t]->Ok_0@[e]).peer_id@ != peer_id,
    ensures
        forall|e: int|
            0 <= e < crate::discovery::gathered(outcomes).len() ==> (
            #[trigger] crate::discovery::gathered(outcomes)[e]).peer_id@ != peer_id,
    decreases outcomes.len(),
{
    if outcomes.len() > 0 {
        let front = outcomes.drop_last();
        assert forall|t: int, e: int|
            0 <= t < front.len() && front[t] is Ok && 0 <= e < front[t]->Ok_0@.len() implies (
        #[trigger] front[t]->Ok_0@[e]).peer_id@ != peer_id by {
            assert(outcomes[t]->Ok_0@[e].peer_id@ != peer_id);
        }
        lemma_gathered_from(front, peer_id);
        let last = outcomes.len() - 1;
        assert forall|e: int| 0 <= e < crate::discovery::gathered(outcomes).len() implies (
        #[trigger] crate::discovery::gathered(outcomes)[e]).peer_id@ != peer_id by {
            let n = crate::discovery::gathered(front).len();
            if e < n {
                assert(crate::discovery::gathered(outcomes)[e] == crate::discovery::gathered(
                    front,
                )[e]);
            } else {
                assert(outcomes[last]->Ok_0@[e - n].peer_id@ != peer_id);
            }
        }
    }
}

/// What is said of a list of records is said of each of them.
pub proof fn records_are_seen_whole(records: Seq<PeerRecord>, i: int)
    ensures
        crate::discovery::record_views(records).len() == records.len(),
        0 <= i < records.len() ==> crate::discovery::record_views(records)[i] == records[i]@,
{
}

/// Every registered strategy is run, once and in its place, whatever the others do.
pub proof fn every_strategy_is_run<S: DiscoveryStrategy>(
    outcomes: Seq<Result<Vec<PeerRecord>, DiscoveryError>>,
    strategies: Seq<S>,
    i: int,
)
    requires
        crate::discovery::outcomes_of(outcomes, strategies),
        0 <= i < strategies.len(),
    ensures
        outcomes.len() == strategies.len(),
        call_ensures(S::execute, (&strategies[i],), outcomes[i]),
{
}

} // verus!
