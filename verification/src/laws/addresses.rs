//! Laws of multiaddresses.
use vstd::prelude::*;

use crate::address::{Component, Multiaddr};

verus! {

/// Whether an IPv4 address is one of 127.x.x.x, 10.x.x.x, 172.16.x.x to 172.31.x.x, 192.168.x.x,
/// 169.254.x.x or 0.0.0.0.
pub open spec fn local_octets(a: int, b: int, c: int, d: int) -> bool {
    ||| a == 127
    ||| a == 10
    ||| a == 172 && 16 <= b <= 31
    ||| a == 192 && b == 168
    ||| a == 169 && b == 254
    ||| a == 0 && b == 0 && c == 0 && d == 0
}

/// Which IPv4 addresses are local is a matter of their octets.
pub proof fn octets_decide_what_is_local(ip: u32, a: u8, b: u8, c: u8, d: u8)
    requires
        ip == a * 0x100_0000 + b * 0x1_0000 + c * 0x100 + d,
    ensures
        crate::address::local_component(crate::address::ComponentView::Ip4(ip)) <==> local_octets(
            a as int,
            b as int,
            c as int,
            d as int,
        ),
{
}

/// Which IPv6 addresses are local is a matter of their first segment: fc00 to fdff and fe80 to
/// febf, and the addresses zero and one.
pub proof fn segments_decide_what_is_local(ip: u128, first: u16, rest: u128)
    requires
        rest < 0x1_0000_0000_0000_0000_0000_0000_0000u128,
        ip == first * 0x1_0000_0000_0000_0000_0000_0000_0000u128 + rest,
    ensures
        crate::address::local_component(crate::address::ComponentView::Ip6(ip)) <==> {
            ||| 0xfc00 <= first <= 0xfdff
            ||| 0xfe80 <= first <= 0xfebf
            ||| first == 0 && rest <= 1
        },
{
    assert(crate::address::first_segment(ip) == first) by (nonlinear_arith)
        requires
            rest < 0x1_0000_0000_0000_0000_0000_0000_0000u128,
            ip == first * 0x1_0000_0000_0000_0000_0000_0000_0000u128 + rest,
            crate::address::first_segment(ip) == ip / 0x1_0000_0000_0000_0000_0000_0000_0000u128,
    ;
}

/// Only an IP address can be local.
pub proof fn other_components_are_never_local(component: crate::address::ComponentView)
    requires
        !(component is Ip4),
        !(component is Ip6),
    ensures
        !crate::address::local_component(component),
{
}

/// An address is an internet address just if none of its components is local, and it is direct
/// just if none of its components marks it as relayed.
pub proof fn every_component_counts(components: Seq<crate::address::ComponentView>)
    ensures
        crate::address::internet_address(components) <==> forall|i: int|
            0 <= i < components.len() ==> !crate::address::local_component(
                #[trigger] components[i],
            ),
        crate::address::direct_address(components) <==> forall|i: int|
            0 <= i < components.len() ==> !((#[trigger] components[i]) is P2pCircuit),
{
    if !crate::address::direct_address(components) {
        let i = choose|i: int|
            0 <= i < components.len() && components[i]
                == crate::address::ComponentView::P2pCircuit;
        assert(components[i] is P2pCircuit);
    }
}

/// An address that ends in a peer id names that peer. One that ends otherwise names the peer of
/// the first peer id in it, and no peer where it has none.
pub proof fn addresses_name_their_last_or_first_peer(
    components: Seq<crate::address::ComponentView>,
    k: int,
)
    requires
        0 <= k < components.len(),
        components[k] is P2p,
        k == components.len() - 1 || (!(components[components.len() - 1] is P2p) && forall|i: int|
            0 <= i < k ==> !((#[trigger] components[i]) is P2p)),
    ensures
        crate::address::named_peer(components) == Some(components[k]->P2p_0),
{
    if k < components.len() - 1 {
        lemma_first_peer(components, k);
    }
}

/// An address without a peer id names no peer.
pub proof fn addresses_without_peer_id_name_nobody(
    components: Seq<crate::address::ComponentView>,
)
    requires
        forall|i: int| 0 <= i < components.len() ==> !((#[trigger] components[i]) is P2p),
    ensures
        crate::address::named_peer(components) is None,
    decreases components.len(),
{
    if components.len() > 0 {
        let rest = components.drop_first();
        assert forall|i: int| 0 <= i < rest.len() implies !((#[trigger] rest[i]) is P2p) by {
            assert(rest[i] == components[i + 1]);
        }
        addresses_without_peer_id_name_nobody(rest);
        if rest.len() > 0 {
            assert(rest.last() == components.last());
        }
    }
}

proof fn lemma_first_peer(components: Seq<crate::address::ComponentView>, k: int)
    requires
        0 <= k < components.len(),
        components[k] is P2p,
        forall|i: int| 0 <= i < k ==> !((#[trigger] components[i]) is P2p),
    ensures
        crate::address::first_peer(components) == Some(components[k]->P2p_0),
    decreases components.len(),
{
    if k > 0 {
        assert(!(components[0] is P2p));
        let rest = components.drop_first();
        assert forall|i: int| 0 <= i < k - 1 implies !((#[trigger] rest[i]) is P2p) by {
            assert(rest[i] == components[i + 1]);
        }
        lemma_first_peer(rest, k - 1);
    }
}

/// What is said of a component is said of all of it.
pub proof fn components_are_seen_whole(component: Component, components: Seq<Component>, i: int)
    ensures
        match component {
            Component::Ip4(ip) => component@ == crate::address::ComponentView::Ip4(ip),
            Component::Ip6(ip) => component@ == crate::address::ComponentView::Ip6(ip),
            Component::Tcp(port) => component@ == crate::address::ComponentView::Tcp(port),
            Component::Udp(port) => component@ == crate::address::ComponentView::Udp(port),
            Component::P2p(id) => component@ == crate::address::ComponentView::P2p(id@),
            Component::P2pCircuit => component@ == crate::address::ComponentView::P2pCircuit,
            Component::Other => component@ == crate::address::ComponentView::Other,
        },
        crate::address::component_views(components).len() == components.len(),
        0 <= i < components.len() ==> crate::address::component_views(components)[i]
            == components[i]@,
{
}

/// The addresses that are kept keep their order, each internet address is kept as often as it
/// occurs, and no local one is.
pub proof fn filtering_may_be_split(front: Seq<Multiaddr>, addr: Multiaddr)
    ensures
        ({
            let public = |a: Multiaddr| crate::address::internet_address(a@.components);
            let before = front.filter(public);
            let kept = front.push(addr).filter(public);
            kept == if forall|i: int|
                0 <= i < addr@.components.len() ==> !crate::address::local_component(
                    #[trigger] addr@.components[i],
                ) {
                before.push(addr)
            } else {
                before
            }
        }),
{
    reveal(Seq::filter);
    assert(front.push(addr).drop_last() =~= front);
}

} // verus!
