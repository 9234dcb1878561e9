//! Peer discovery: the strategies, and how their results are merged into one list of peers.
use vstd::prelude::*;

use crate::address::{extract_peer_id_from_multiaddr, Multiaddr};
use crate::peer_cache::{current_timestamp, PeerRecord};
use crate::text::sorts_before;

verus! {

/// Configuration for the bootstrap-node fallback strategy.
#[derive(Debug, Clone)]
pub struct BootstrapConfig {
    /// Seed node multiaddresses.
    pub nodes: Vec<String>,
    /// How many bootstrap nodes to dial in parallel.
    pub parallel_dials: usize,
    /// Timeout for bootstrap dial attempts (seconds).
    pub timeout_secs: u64,
    /// Stop bootstrapping after the first successful connection.
    pub stop_after_first: bool,
}

impl Default for BootstrapConfig {
    fn default() -> (config: Self)
        ensures
            config.nodes@ == Seq::<String>::empty(),
            config.parallel_dials == 3,
            config.timeout_secs == 30,
            config.stop_after_first,
    {
        BootstrapConfig {
            nodes: Vec::new(),
            parallel_dials: 3,
            timeout_secs: 30,
            stop_after_first: true,
        }
    }
}

/// Why a strategy found no peers.
#[derive(Debug)]
pub struct DiscoveryError {
    pub message: String,
}

/// A single discovery strategy.
pub trait DiscoveryStrategy: Send + Sync {
    /// Executes the strategy, returning a list of discovered peer records.
    fn execute(&self) -> (found: Result<Vec<PeerRecord>, DiscoveryError>);

    /// Human-readable name for logging.
    fn name(&self) -> (name: &'static str);
}

/// All records that the strategies found, in the order of the outcomes; a failed strategy found
/// none.
pub open spec fn gathered(outcomes: Seq<Result<Vec<PeerRecord>, DiscoveryError>>) -> Seq<
    PeerRecord,
>
    decreases outcomes.len(),
{
    if outcomes.len() == 0 {
        seq![]
    } else {
        gathered(outcomes.drop_last()) + match outcomes.last() {
            Ok(found) => found@,
            Err(_) => seq![],
        }
    }
}

/// Whether the record at `index` is the first one of its peer.
pub open spec fn first_of_peer(all: Seq<PeerRecord>, index: int) -> bool {
    forall|earlier: int|
        0 <= earlier < index ==> (#[trigger] all[earlier]).peer_id@ != all[index].peer_id@
}

/// Whether a record with this peer id is in the list.
pub open spec fn has_record(all: Seq<PeerRecord>, peer_id: Seq<char>) -> bool {
    exists|i: int| 0 <= i < all.len() && (#[trigger] all[i]).peer_id@ == peer_id
}

/// Whether the records are in strictly ascending order of their peer ids.
pub open spec fn ascending(records: Seq<PeerRecord>) -> bool {
    forall|i: int, j: int|
        0 <= i < j < records.len() ==> crate::text::text_before(
            (#[trigger] records[i]).peer_id@,
            (#[trigger] records[j]).peer_id@,
        )
}

/// Whether `merged` holds, in ascending order of the peer ids, the first record of every peer in
/// `all`, and nothing else.
pub open spec fn merges(merged: Seq<PeerRecord>, all: Seq<PeerRecord>) -> bool {
    &&& ascending(merged)
    &&& forall|i: int|
        0 <= i < merged.len() ==> exists|k: int|
            0 <= k < all.len() && all[k] == #[trigger] merged[i] && #[trigger] first_of_peer(all, k)
    &&& forall|k: int|
        0 <= k < all.len() ==> has_record(merged, (#[trigger] all[k]).peer_id@)
}

/// Adds a record to a merged list, unless the list already has one of that peer.
fn merge_record(merged: &mut Vec<PeerRecord>, record: PeerRecord, Ghost(all): Ghost<Seq<PeerRecord>>)
    requires
        merges(old(merged)@, all),
    ensures
        merges(final(merged)@, all.push(record)),
{
    let ghost before = merged@;
    let ghost id = record.peer_id@;
    let ghost longer = all.push(record);
    let mut at: usize = 0;
    while at < merged.len() && sorts_before(merged[at].peer_id.as_str(), record.peer_id.as_str())
        invariant
            merged@ == before,
            at <= before.len(),
            id == record.peer_id@,
            forall|j: int|
                0 <= j < at ==> crate::text::text_before((#[trigger] before[j]).peer_id@, id),
        decreases before.len() - at,
    {
        at = at + 1;
    }
    proof {
        assert(forall|k: int| 0 <= k < all.len() ==> all[k] == #[trigger] longer[k]);
        assert forall|k: int| 0 <= k < all.len() && #[trigger] first_of_peer(
            all,
            k,
        ) implies first_of_peer(longer, k) by {
            assert(forall|e: int| 0 <= e < k ==> all[e] == #[trigger] longer[e]);
        }
    }
    let known = at < merged.len() && merged[at].peer_id == record.peer_id;
    if known {
        proof {
            assert(before[at as int].peer_id@ == id);
            assert(has_record(before, id));
            assert forall|i: int| 0 <= i < before.len() implies exists|k: int|
                0 <= k < longer.len() && longer[k] == #[trigger] before[i]
                    && #[trigger] first_of_peer(longer, k) by {
                let k = choose|k: int|
                    0 <= k < all.len() && all[k] == before[i] && #[trigger] first_of_peer(all, k);
                assert(longer[k] == before[i] && first_of_peer(longer, k));
            }
        }
    } else {
        proof {
            // No listed peer has this id: those in front sort before it, those behind after it.
            assert forall|j: int| at <= j < before.len() implies crate::text::text_before(
                id,
                (#[trigger] before[j]).peer_id@,
            ) by {
                let pivot = before[at as int].peer_id@;
                crate::text::text_order_is_strict_total(pivot, id, id);
                if j > at {
                    crate::text::text_order_is_strict_total(id, pivot, before[j].peer_id@);
                    assert(crate::text::text_before(
                        before[at as int].peer_id@,
                        before[j].peer_id@,
                    ));
                }
            }
            assert forall|k: int| 0 <= k < all.len() implies (#[trigger] all[k]).peer_id@
                != id by {
                if all[k].peer_id@ == id {
                    assert(has_record(before, id));
                    let i = choose|i: int|
                        0 <= i < before.len() && (#[trigger] before[i]).peer_id@ == id;
                    crate::text::text_order_is_strict_total(id, id, id);
                }
            }
        }
        merged.insert(at, record);
        proof {
            let after = merged@;
            assert(after == before.insert(at as int, record));
            assert(after[at as int] == record);
            assert forall|i: int, j: int| 0 <= i < j < after.len() implies crate::text::text_before(
                (#[trigger] after[i]).peer_id@,
                (#[trigger] after[j]).peer_id@,
            ) by {
                let old_i = if i > at { i - 1 } else { i };
                let old_j = if j > at { j - 1 } else { j };
                if i != at {
                    assert(after[i] == before[old_i]);
                }
                if j != at {
                    assert(after[j] == before[old_j]);
                }
            }
            assert forall|i: int| 0 <= i < after.len() implies exists|k: int|
                0 <= k < longer.len() && longer[k] == #[trigger] after[i]
                    && #[trigger] first_of_peer(longer, k) by {
                if i == at {
                    assert(longer[all.len() as int] == record);
                    assert(first_of_peer(longer, all.len() as int)) by {
                        assert(forall|e: int| 0 <= e < all.len() ==> all[e] == #[trigger] longer[e]);
                    }
                } else {
                    let old_i = if i > at { i - 1 } else { i };
                    assert(after[i] == before[old_i]);
                    let k = choose|k: int|
                        0 <= k < all.len() && all[k] == before[old_i] && #[trigger] first_of_peer(
                            all,
                            k,
                        );
                    assert(longer[k] == after[i] && first_of_peer(longer, k));
                }
            }
            assert forall|k: int| 0 <= k < longer.len() implies has_record(
                after,
                (#[trigger] longer[k]).peer_id@,
            ) by {
                if k == all.len() {
                    assert(after[at as int].peer_id@ == longer[k].peer_id@);
                } else {
                    assert(has_record(before, all[k].peer_id@));
                    let i = choose|i: int|
                        0 <= i < before.len() && (#[trigger] before[i]).peer_id@ == all[k].peer_id@;
                    let new_i = if i >= at { i + 1 } else { i };
                    assert(after[new_i] == before[i]);
                }
            }
        }
    }
    proof {
        if known {
            assert forall|k: int| 0 <= k < longer.len() implies has_record(
                merged@,
                (#[trigger] longer[k]).peer_id@,
            ) by {
                if k < all.len() {
                    assert(has_record(before, all[k].peer_id@));
                }
            }
        }
    }
}

/// Merges the outcomes of the strategies: the records of all that succeeded, in ascending order
/// of the peer ids, with one record for each peer. Where several records have the same peer id,
/// the first one in the order of the outcomes stays.
pub fn merge_outcomes(outcomes: Vec<Result<Vec<PeerRecord>, DiscoveryError>>) -> (merged: Vec<
    PeerRecord,
>)
    ensures
        merges(merged@, gathered(outcomes@)),
{
    let ghost every = outcomes@;
    let mut merged: Vec<PeerRecord> = Vec::new();
    for outcome in it: outcomes
        invariant
            it.seq() == every,
            merges(merged@, gathered(every.take(it.index() as int))),
    {
        let ghost at = it.index() as int;
        let ghost before = gathered(every.take(at));
        proof {
            assert(every.take(at + 1).drop_last() =~= every.take(at));
            assert(every.take(at + 1).last() == outcome);
        }
        match outcome {
            Ok(found) => {
                let ghost list = found@;
                assert(before + list.take(0) =~= before);
                for record in inner: found
                    invariant
                        inner.seq() == list,
                        merges(merged@, before + list.take(inner.index() as int)),
                {
                    proof {
                        assert((before + list.take(inner.index() as int)).push(record)
                            =~= before + list.take(inner.index() + 1));
                    }
                    merge_record(
                        &mut merged,
                        record,
                        Ghost(before + list.take(inner.index() as int)),
                    );
                }
                assert(list.take(list.len() as int) =~= list);
            },
            Err(_) => {
                assert(before + Seq::<PeerRecord>::empty() =~= before);
            },
        }
    }
    assert(every.take(every.len() as int) =~= every);
    merged
}

/// Runs all registered discovery strategies and merges the results, deduplicating by peer id.
pub struct DiscoveryOrchestrator<S> {
    strategies: Vec<S>,
}

/// Whether each outcome is one that the strategy at its place can have.
pub open spec fn outcomes_of<S: DiscoveryStrategy>(
    outcomes: Seq<Result<Vec<PeerRecord>, DiscoveryError>>,
    strategies: Seq<S>,
) -> bool {
    &&& outcomes.len() == strategies.len()
    &&& forall|i: int|
        0 <= i < strategies.len() ==> call_ensures(
            S::execute,
            (&#[trigger] strategies[i],),
            outcomes[i],
        )
}

impl<S> DiscoveryOrchestrator<S> {
    /// The registered strategies, in the order of their registration.
    pub closed spec fn registered(&self) -> Seq<S> {
        self.strategies@
    }

    /// Creates an empty orchestrator.
    pub fn new() -> (orchestrator: Self)
        ensures
            orchestrator.registered() == Seq::<S>::empty(),
    {
        DiscoveryOrchestrator { strategies: Vec::new() }
    }

    /// Registers a discovery strategy, behind those that are already registered.
    pub fn add_strategy(&mut self, strategy: S)
        ensures
            final(self).registered() == old(self).registered().push(strategy),
    {
        self.strategies.push(strategy);
    }

    /// The registered strategies, in the order of their registration.
    pub fn strategies(&self) -> (strategies: &Vec<S>)
        ensures
            strategies@ == self.registered(),
    {
        &self.strategies
    }
}

impl<S: DiscoveryStrategy> DiscoveryOrchestrator<S> {
    /// Runs all strategies, one after the other, and merges what they found. A strategy that
    /// fails contributes nothing and does not keep the others from contributing.
    pub fn discover(&self) -> (merged: Vec<PeerRecord>)
        ensures
            exists|outcomes: Seq<Result<Vec<PeerRecord>, DiscoveryError>>|
                outcomes_of(outcomes, self.registered()) && #[trigger] merges(
                    merged@,
                    gathered(outcomes),
                ),
    {
        let mut outcomes: Vec<Result<Vec<PeerRecord>, DiscoveryError>> = Vec::new();
        let mut i: usize = 0;
        while i < self.strategies.len()
            invariant
                i <= self.strategies@.len(),
                outcomes@.len() == i,
                forall|j: int|
                    0 <= j < i ==> call_ensures(
                        S::execute,
                        (&#[trigger] self.strategies@[j],),
                        outcomes@[j],
                    ),
            decreases self.strategies@.len() - i,
        {
            outcomes.push(self.strategies[i].execute());
            i = i + 1;
        }
        let ghost all = outcomes@;
        let merged = merge_outcomes(outcomes);
        assert(outcomes_of(all, self.registered()) && merges(merged@, gathered(all)));
        merged
    }
}

impl<S> Default for DiscoveryOrchestrator<S> {
    fn default() -> (orchestrator: Self)
        ensures
            orchestrator.registered() == Seq::<S>::empty(),
    {
        DiscoveryOrchestrator::new()
    }
}

/// The record for a bootstrap node, from its configured text and what that text was read as: a
/// public peer that was never connected to, or nothing where the text is no multiaddress or names
/// no peer.
pub open spec fn node_record(
    node: Seq<char>,
    parsed: Option<crate::address::MultiaddrView>,
    now: u64,
) -> Option<crate::peer_cache::PeerRecordView> {
    match parsed {
        None => None,
        Some(addr) => match crate::address::named_peer(addr.components) {
            None => None,
            Some(peer_id) => Some(
                crate::peer_cache::PeerRecordView {
                    peer_id,
                    multiaddrs: seq![node],
                    i2p_destination: None,
                    last_seen: now,
                    connection_count: 0,
                    rtt_ms: None,
                    is_relay: false,
                    is_public: true,
                },
            ),
        },
    }
}

/// The records for a list of bootstrap nodes, in order.
pub open spec fn node_records(nodes: Seq<String>, now: u64) -> Seq<
    crate::peer_cache::PeerRecordView,
>
    decreases nodes.len(),
{
    if nodes.len() == 0 {
        seq![]
    } else {
        let before = node_records(nodes.drop_last(), now);
        let node = nodes.last()@;
        match node_record(node, crate::address::parsed_multiaddr(node), now) {
            Some(record) => before.push(record),
            None => before,
        }
    }
}

/// The contents of a list of records.
pub open spec fn record_views(records: Seq<PeerRecord>) -> Seq<crate::peer_cache::PeerRecordView> {
    Seq::new(records.len(), |i: int| records[i]@)
}

/// Makes the record for a bootstrap node, from its configured text and what that text was read
/// as.
pub fn record_for_node(node: &String, parsed: &Option<Multiaddr>, now: u64) -> (record: Option<
    PeerRecord,
>)
    ensures
        match record {
            Some(made) => node_record(
                node@,
                match *parsed {
                    Some(addr) => Some(addr@),
                    None => None,
                },
                now,
            ) == Some(made@),
            None => node_record(
                node@,
                match *parsed {
                    Some(addr) => Some(addr@),
                    None => None,
                },
                now,
            ) is None,
        },
{
    let addr = match parsed {
        Some(addr) => addr,
        None => {
            return None;
        },
    };
    match extract_peer_id_from_multiaddr(addr) {
        None => None,
        Some(peer_id) => {
            let mut multiaddrs: Vec<String> = Vec::new();
            multiaddrs.push(node.clone());
            let made = PeerRecord {
                peer_id,
                multiaddrs,
                i2p_destination: None,
                last_seen: now,
                connection_count: 0,
                rtt_ms: None,
                is_relay: false,
                is_public: true,
            };
            assert(made@.multiaddrs =~= seq![node@]);
            Some(made)
        },
    }
}

/// Strategy that parses configured bootstrap node multiaddresses and returns them as
/// [`PeerRecord`]s. The actual dialing is up to the caller.
pub struct BootstrapStrategy {
    config: BootstrapConfig,
}

impl BootstrapStrategy {
    /// The configuration.
    pub closed spec fn configuration(&self) -> BootstrapConfig {
        self.config
    }

    /// The nodes that are considered: the first `parallel_dials` of those configured.
    pub open spec fn considered(&self) -> Seq<String> {
        let config = self.configuration();
        if config.parallel_dials < config.nodes@.len() {
            config.nodes@.take(config.parallel_dials as int)
        } else {
            config.nodes@
        }
    }

    pub fn new(config: BootstrapConfig) -> (strategy: Self)
        ensures
            strategy.configuration() == config,
    {
        BootstrapStrategy { config }
    }

    /// The records of the configured nodes, as seen at `now`.
    pub fn records(&self, now: u64) -> (records: Vec<PeerRecord>)
        ensures
            record_views(records@) == node_records(self.considered(), now),
    {
        let ghost nodes = self.considered();
        let mut records: Vec<PeerRecord> = Vec::new();
        let mut i: usize = 0;
        assert(record_views(records@) =~= seq![]);
        assert(nodes.take(0) =~= seq![]);
        while i < self.config.nodes.len() && i < self.config.parallel_dials
            invariant
                nodes == self.considered(),
                i <= nodes.len(),
                record_views(records@) == node_records(nodes.take(i as int), now),
            decreases self.config.nodes@.len() - i,
        {
            let node = &self.config.nodes[i];
            proof {
                assert(nodes[i as int] == node);
                assert(nodes.take(i + 1).drop_last() =~= nodes.take(i as int));
            }
            let parsed = Multiaddr::parse(node.as_str());
            let ghost before = record_views(records@);
            if let Some(record) = record_for_node(node, &parsed, now) {
                records.push(record);
                assert(record_views(records@) =~= before.push(record@));
            }
            i = i + 1;
        }
        assert(nodes.take(i as int) =~= nodes);
        records
    }
}

impl DiscoveryStrategy for BootstrapStrategy {
    fn execute(&self) -> (found: Result<Vec<PeerRecord>, DiscoveryError>)
        ensures
            found is Ok,
            exists|now: u64|
                crate::peer_cache::clock_shows(now) && record_views(found->Ok_0@)
                    == #[trigger] node_records(self.considered(), now),
    {
        Ok(self.records(current_timestamp()))
    }

    fn name(&self) -> (name: &'static str)
        ensures
            name@ == "bootstrap"@,
    {
        "bootstrap"
    }
}

/// Strategy that loads peers from the persistent peer cache; `list` lists all cached peers.
pub struct PeerCacheStrategy<L: Fn() -> Result<Vec<PeerRecord>, DiscoveryError>> {
    list: L,
}

impl<L: Fn() -> Result<Vec<PeerRecord>, DiscoveryError>> PeerCacheStrategy<L> {
    #[verifier::type_invariant]
    spec fn listable(self) -> bool {
        self.list.requires(())
    }

    /// What lists the cached peers.
    pub closed spec fn lister(&self) -> L {
        self.list
    }

    pub fn new(list: L) -> (strategy: Self)
        requires
            list.requires(()),
        ensures
            strategy.lister() == list,
    {
        PeerCacheStrategy { list }
    }
}

impl<L: Fn() -> Result<Vec<PeerRecord>, DiscoveryError> + Send + Sync> DiscoveryStrategy
    for PeerCacheStrategy<L> {
    fn execute(&self) -> (found: Result<Vec<PeerRecord>, DiscoveryError>)
        ensures
            self.lister().ensures((), found),
    {
        proof {
            use_type_invariant(self);
        }
        (self.list)()
    }

    fn name(&self) -> (name: &'static str)
        ensures
            name@ == "peer-cache"@,
    {
        "peer-cache"
    }
}

/// The merged list is determined by the gathered records: there is only one.
pub proof fn merged_list_is_unique(a: Seq<PeerRecord>, b: Seq<PeerRecord>, all: Seq<PeerRecord>)
    requires
        merges(a, all),
        merges(b, all),
    ensures
        a == b,
{
    assert forall|id: Seq<char>| has_record(a, id) == has_record(b, id) by {
        lemma_merged_ids(a, all, id);
        lemma_merged_ids(b, all, id);
    }
    lemma_same_ids(a, b);
    assert forall|i: int| 0 <= i < a.len() implies a[i] == b[i] by {
        let j = choose|k: int|
            0 <= k < all.len() && all[k] == a[i] && #[trigger] first_of_peer(all, k);
        let k = choose|k: int|
            0 <= k < all.len() && all[k] == b[i] && #[trigger] first_of_peer(all, k);
        assert(a[i].peer_id@ == b[i].peer_id@);
        if j < k {
            assert(all[j].peer_id@ != all[k].peer_id@);
        } else if k < j {
            assert(all[k].peer_id@ != all[j].peer_id@);
        }
    }
    assert(a =~= b);
}

proof fn lemma_merged_ids(merged: Seq<PeerRecord>, all: Seq<PeerRecord>, id: Seq<char>)
    requires
        merges(merged, all),
    ensures
        has_record(merged, id) == has_record(all, id),
{
    if has_record(merged, id) {
        let i = choose|i: int| 0 <= i < merged.len() && (#[trigger] merged[i]).peer_id@ == id;
        let k = choose|k: int|
            0 <= k < all.len() && all[k] == merged[i] && #[trigger] first_of_peer(all, k);
        assert(all[k].peer_id@ == id);
    }
    if has_record(all, id) {
        let k = choose|k: int| 0 <= k < all.len() && (#[trigger] all[k]).peer_id@ == id;
        assert(has_record(merged, all[k].peer_id@));
    }
}

proof fn lemma_same_ids(a: Seq<PeerRecord>, b: Seq<PeerRecord>)
    requires
        ascending(a),
        ascending(b),
        forall|id: Seq<char>| has_record(a, id) == has_record(b, id),
    ensures
        a.len() == b.len(),
        forall|i: int| 0 <= i < a.len() ==> (#[trigger] a[i]).peer_id@ == b[i].peer_id@,
    decreases a.len(),
{
    if a.len() == 0 {
        if b.len() > 0 {
            assert(b[0].peer_id@ == b[0].peer_id@);
            assert(has_record(b, b[0].peer_id@));
            assert(has_record(a, b[0].peer_id@));
        }
    } else {
        assert(a[0].peer_id@ == a[0].peer_id@);
        assert(has_record(a, a[0].peer_id@));
        assert(has_record(b, a[0].peer_id@));
        let j = choose|j: int| 0 <= j < b.len() && (#[trigger] b[j]).peer_id@ == a[0].peer_id@;
        assert(has_record(b, b[0].peer_id@));
        assert(has_record(a, b[0].peer_id@));
        let i = choose|i: int| 0 <= i < a.len() && (#[trigger] a[i]).peer_id@ == b[0].peer_id@;
        crate::text::text_order_is_strict_total(a[0].peer_id@, b[0].peer_id@, a[0].peer_id@);
        assert(a[0].peer_id@ == b[0].peer_id@);
        let rest_a = a.drop_first();
        let rest_b = b.drop_first();
        assert(ascending(rest_a)) by {
            assert forall|x: int, y: int| 0 <= x < y < rest_a.len() implies
                crate::text::text_before(
                (#[trigger] rest_a[x]).peer_id@,
                (#[trigger] rest_a[y]).peer_id@,
            ) by {
                assert(crate::text::text_before(a[x + 1].peer_id@, a[y + 1].peer_id@));
            }
        }
        assert(ascending(rest_b)) by {
            assert forall|x: int, y: int| 0 <= x < y < rest_b.len() implies
                crate::text::text_before(
                (#[trigger] rest_b[x]).peer_id@,
                (#[trigger] rest_b[y]).peer_id@,
            ) by {
                assert(crate::text::text_before(b[x + 1].peer_id@, b[y + 1].peer_id@));
            }
        }
        assert forall|id: Seq<char>| has_record(rest_a, id) == has_record(rest_b, id) by {
            lemma_has_record_rest(a, id);
            lemma_has_record_rest(b, id);
        }
        lemma_same_ids(rest_a, rest_b);
        assert forall|x: int| 0 <= x < a.len() implies (#[trigger] a[x]).peer_id@
            == b[x].peer_id@ by {
            if x > 0 {
                assert(rest_a[x - 1].peer_id@ == rest_b[x - 1].peer_id@);
            }
        }
    }
}

proof fn lemma_has_record_rest(list: Seq<PeerRecord>, id: Seq<char>)
    requires
        list.len() > 0,
        ascending(list),
    ensures
        has_record(list.drop_first(), id) == (has_record(list, id) && id != list[0].peer_id@),
{
    let rest = list.drop_first();
    if has_record(rest, id) {
        let i = choose|i: int| 0 <= i < rest.len() && (#[trigger] rest[i]).peer_id@ == id;
        assert(list[i + 1].peer_id@ == id);
        crate::text::text_order_is_strict_total(list[0].peer_id@, list[i + 1].peer_id@, id);
    }
    if has_record(list, id) && id != list[0].peer_id@ {
        let i = choose|i: int| 0 <= i < list.len() && (#[trigger] list[i]).peer_id@ == id;
        assert(rest[i - 1].peer_id@ == id);
    }
}

/// A peer is in the merged list exactly if some strategy that succeeded found it, so a strategy
/// that fails does not keep the peers of another one out.
pub proof fn merged_peers_are_those_found(
    merged: Seq<PeerRecord>,
    outcomes: Seq<Result<Vec<PeerRecord>, DiscoveryError>>,
    id: Seq<char>,
)
    requires
        merges(merged, gathered(outcomes)),
    ensures
        has_record(merged, id) <==> exists|i: int|
            0 <= i < outcomes.len() && (#[trigger] outcomes[i]) is Ok && has_record(
                outcomes[i]->Ok_0@,
                id,
            ),
{
    lemma_merged_ids(merged, gathered(outcomes), id);
    lemma_gathered_ids(outcomes, id);
}

proof fn lemma_gathered_ids(outcomes: Seq<Result<Vec<PeerRecord>, DiscoveryError>>, id: Seq<char>)
    ensures
        has_record(gathered(outcomes), id) <==> exists|i: int|
            0 <= i < outcomes.len() && (#[trigger] outcomes[i]) is Ok && has_record(
                outcomes[i]->Ok_0@,
                id,
            ),
    decreases outcomes.len(),
{
    if outcomes.len() > 0 {
        let front = outcomes.drop_last();
        let last = outcomes.last();
        let found: Seq<PeerRecord> = match last {
            Ok(found) => found@,
            Err(_) => seq![],
        };
        lemma_gathered_ids(front, id);
        lemma_has_record_concat(gathered(front), found, id);
        assert(outcomes[outcomes.len() - 1] == last);
        if has_record(gathered(front), id) {
            let i = choose|i: int|
                0 <= i < front.len() && (#[trigger] front[i]) is Ok && has_record(
                    front[i]->Ok_0@,
                    id,
                );
            assert(outcomes[i] == front[i]);
        }
        if exists|i: int|
            0 <= i < outcomes.len() && (#[trigger] outcomes[i]) is Ok && has_record(
                outcomes[i]->Ok_0@,
                id,
            ) {
            let i = choose|i: int|
                0 <= i < outcomes.len() && (#[trigger] outcomes[i]) is Ok && has_record(
                    outcomes[i]->Ok_0@,
                    id,
                );
            if i < front.len() {
                assert(front[i] == outcomes[i]);
            }
        }
    }
}

proof fn lemma_has_record_concat(a: Seq<PeerRecord>, b: Seq<PeerRecord>, id: Seq<char>)
    ensures
        has_record(a + b, id) == (has_record(a, id) || has_record(b, id)),
{
    let both = a + b;
    if has_record(a, id) {
        let i = choose|i: int| 0 <= i < a.len() && (#[trigger] a[i]).peer_id@ == id;
        assert(both[i].peer_id@ == id);
    }
    if has_record(b, id) {
        let i = choose|i: int| 0 <= i < b.len() && (#[trigger] b[i]).peer_id@ == id;
        assert(both[a.len() + i].peer_id@ == id);
    }
    if has_record(both, id) {
        let i = choose|i: int| 0 <= i < both.len() && (#[trigger] both[i]).peer_id@ == id;
        if i < a.len() {
            assert(a[i].peer_id@ == id);
        } else {
            assert(b[i - a.len()].peer_id@ == id);
        }
    }
}

/// No peer is in a merged list twice.
pub proof fn merged_peers_are_distinct(merged: Seq<PeerRecord>, all: Seq<PeerRecord>, i: int, j: int)
    requires
        merges(merged, all),
        0 <= i < merged.len(),
        0 <= j < merged.len(),
        merged[i].peer_id@ == merged[j].peer_id@,
    ensures
        i == j,
{
    crate::text::text_order_is_strict_total(
        merged[i].peer_id@,
        merged[j].peer_id@,
        merged[i].peer_id@,
    );
}

} // verus!
