//! Laws of what single calls return.
use vstd::prelude::*;

use crate::address::{filter_addresses, Multiaddr};
use crate::iroh_net::{cache_opened, Node, NodeEffect};
use crate::network::relay_reservations;
use crate::screen::{status_lines, ChatScreen};
use crate::tui::{first_visible, input_line};

verus! {

/// The status panel tells the shown local id, and the numbers of connected and cached peers.
pub proof fn the_status_panel_tells_id_and_numbers(screen: ChatScreen, lines: [String; 3])
    requires
        call_ensures(status_lines, (&screen,), lines),
    ensures
        exists|shown: Seq<char>| #[trigger]
            crate::laws::text::shows(screen.our_peer_id@, shown) && lines[0]@ == "ID: "@ + shown,
        exists|numeral: Seq<char>| #[trigger]
            crate::laws::text::value(numeral) == screen.connected_peers@.len() && lines[1]@
                == "Peers: "@ + numeral + " connected"@,
        exists|numeral: Seq<char>| #[trigger]
            crate::laws::text::value(numeral) == screen.cache_count && lines[2]@ == "Cache: "@
                + numeral + " peers"@,
{
    crate::laws::text::identifiers_are_cut_behind_17_characters(screen.our_peer_id@);
    crate::laws::text::numerals_stand_for_their_numbers(screen.connected_peers@.len());
    crate::laws::text::numerals_stand_for_their_numbers(screen.cache_count as nat);
    let connected = crate::text::decimal(screen.connected_peers@.len());
    let cached = crate::text::decimal(screen.cache_count as nat);
    assert(crate::laws::text::value(connected) == screen.connected_peers@.len());
    assert(crate::laws::text::value(cached) == screen.cache_count);
}

/// Once the cache is open the front-end is told the number of cached peers, as a number and in a
/// line, and that the chat is ready.
pub proof fn the_cache_count_is_told(cached: usize, effects: Vec<NodeEffect>)
    requires
        call_ensures(cache_opened, (cached,), effects),
    ensures
        effects@.len() == 3,
        effects@[0]@ == crate::iroh_net::NodeEffectView::Ui(
            crate::tui::UiEventView::CacheCount(cached),
        ),
        exists|numeral: Seq<char>| #[trigger]
            crate::laws::text::value(numeral) == cached && effects@[1]@
                == crate::iroh_net::NodeEffectView::Ui(
                crate::tui::UiEventView::Info(
                    "Peer cache initialized with "@ + numeral + " peers"@,
                ),
            ),
        effects@[2]@ == crate::iroh_net::NodeEffectView::Ui(
            crate::tui::UiEventView::Info("Chat ready — waiting for peers…"@),
        ),
{
    let views = crate::iroh_net::effect_views(effects@);
    assert(views.len() == 3);
    assert(views[0] == effects@[0]@ && views[1] == effects@[1]@ && views[2] == effects@[2]@);
    crate::laws::text::numerals_stand_for_their_numbers(cached as nat);
    assert(crate::laws::text::value(crate::text::decimal(cached as nat)) == cached);
}

/// Once the rendezvous is joined the front-end is told the local id, whole, and a display name, if
/// there is one, is announced, whole and without a text, so that others take it for a name.
pub proof fn joining_announces_id_and_name(node: Node, now: u64, effects: Vec<NodeEffect>)
    requires
        call_ensures(Node::joined, (&node, now), effects),
    ensures
        effects@.len() == if node@.name is Some {
            4nat
        } else {
            3
        },
        effects@[0]@ == crate::iroh_net::NodeEffectView::Ui(
            crate::tui::UiEventView::Info("Local EndpointId: "@ + node@.our_id),
        ),
        effects@[1]@ == crate::iroh_net::NodeEffectView::Ui(
            crate::tui::UiEventView::LocalPeerId(node@.our_id),
        ),
        effects@[2]@ == crate::iroh_net::NodeEffectView::Ui(
            crate::tui::UiEventView::Info("Rendezvous joined — listening for peers via DHT"@),
        ),
        node@.name is Some ==> {
            &&& effects@[3]@ is Announce
            &&& effects@[3]@->Announce_0.from == node@.our_id
            &&& effects@[3]@->Announce_0.name == node@.name->0
            &&& effects@[3]@->Announce_0.text.len() == 0
            &&& effects@[3]@->Announce_0.timestamp == now
        },
{
    let views = crate::iroh_net::effect_views(effects@);
    assert(views.len() == effects@.len());
    assert(forall|i: int| 0 <= i < views.len() ==> #[trigger] views[i] == effects@[i]@);
    assert(views[0] == effects@[0]@ && views[1] == effects@[1]@ && views[2] == effects@[2]@);
    if node@.name is Some {
        assert(views[3] == effects@[3]@);
    }
}

/// With `no_local`, an address is kept just if it was given and none of its parts is local, and as
/// many addresses are kept at most as were given; without it all are kept, in order.
pub proof fn filtered_addresses_are_those_without_local_parts(
    addrs: Vec<Multiaddr>,
    no_local: bool,
    kept: Vec<Multiaddr>,
    addr: Multiaddr,
)
    requires
        call_ensures(filter_addresses, (addrs, no_local), kept),
    ensures
        !no_local ==> kept@ == addrs@,
        no_local ==> (kept@.contains(addr) <==> addrs@.contains(addr) && forall|i: int|
            0 <= i < addr@.components.len() ==> !crate::address::local_component(
                #[trigger] addr@.components[i],
            )),
{
    crate::address::filtering_keeps_exactly_the_internet_addresses(addrs@, addr);
}

/// The newest lines are the visible ones: as many as the panel has rows, or all of them.
pub proof fn the_newest_lines_are_visible(total: usize, height: usize, first: usize)
    requires
        call_ensures(first_visible, (total, height), first),
    ensures
        first <= total,
        total - first <= height,
        total - first == height || first == 0,
{
}

/// The terminal's input line shows the whole input behind the prompt.
pub proof fn the_input_line_shows_the_input(screen: ChatScreen, line: String)
    requires
        call_ensures(input_line, (&screen,), line),
    ensures
        line@.len() == screen.input@.len() + 2,
        line@[0] == '>' && line@[1] == ' ',
        forall|i: int| 0 <= i < screen.input@.len() ==> line@[i + 2] == #[trigger] screen.input@[i],
{
    reveal_strlit("> ");
}

/// The relay server of a public node accepts the default number of reservations, and that of any
/// other node none.
pub proof fn only_public_nodes_relay(public: bool, default: usize, reservations: usize)
    requires
        call_ensures(relay_reservations, (public, default), reservations),
    ensures
        public ==> reservations == default,
        !public ==> reservations == 0,
{
}

} // verus!
