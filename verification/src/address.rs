//! Multiaddresses: their components, which of them are reachable over the internet, which are
//! relayed, and which peer they name.
use vstd::prelude::*;

verus! {

/// One component of a multiaddress, as far as the node tells components apart.
#[derive(Debug)]
pub enum Component {
    /// An IPv4 address as a number, first octet in front.
    Ip4(u32),
    /// An IPv6 address as a number, first segment in front.
    Ip6(u128),
    Tcp(u16),
    Udp(u16),
    /// A peer id in base58.
    P2p(String),
    /// The mark of a relayed address.
    P2pCircuit,
    /// Any other protocol.
    Other,
}

/// A multiaddress: its canonical text and its components in order.
#[derive(Debug)]
pub struct Multiaddr {
    text: String,
    components: Vec<Component>,
}

/// The content of a [`Component`].
#[verifier::ext_equal]
pub enum ComponentView {
    Ip4(u32),
    Ip6(u128),
    Tcp(u16),
    Udp(u16),
    P2p(Seq<char>),
    P2pCircuit,
    Other,
}

impl View for Component {
    type V = ComponentView;

    open spec fn view(&self) -> ComponentView {
        match *self {
            Component::Ip4(ip) => ComponentView::Ip4(ip),
            Component::Ip6(ip) => ComponentView::Ip6(ip),
            Component::Tcp(port) => ComponentView::Tcp(port),
            Component::Udp(port) => ComponentView::Udp(port),
            Component::P2p(peer_id) => ComponentView::P2p(peer_id@),
            Component::P2pCircuit => ComponentView::P2pCircuit,
            Component::Other => ComponentView::Other,
        }
    }
}

/// The content of a [`Multiaddr`].
#[verifier::ext_equal]
pub struct MultiaddrView {
    pub text: Seq<char>,
    pub components: Seq<ComponentView>,
}

/// The contents of a list of components.
pub open spec fn component_views(components: Seq<Component>) -> Seq<ComponentView> {
    Seq::new(components.len(), |i: int| components[i]@)
}

impl View for Multiaddr {
    type V = MultiaddrView;

    closed spec fn view(&self) -> MultiaddrView {
        MultiaddrView { text: self.text@, components: component_views(self.components@) }
    }
}

/// What `libp2p::Multiaddr` reads from a text: `None` where it rejects the text, and otherwise
/// the canonical text and the components of the address.
pub uninterp spec fn parsed_multiaddr(text: Seq<char>) -> Option<MultiaddrView>;

/// `<libp2p::Multiaddr as FromStr>::from_str`, then `iter` and `to_string` on the address it
/// gives. What they return is a function of the text alone and is named [`parsed_multiaddr`]; a
/// text that is rejected gives `None`.
#[verifier::external_body]
fn read_multiaddr(text: &str) -> (parsed: Option<Multiaddr>)
    ensures
        match parsed {
            Some(addr) => parsed_multiaddr(text@) == Some(addr@),
            None => parsed_multiaddr(text@) is None,
        },
{
    let addr = text.parse::<libp2p::Multiaddr>().ok()?;
    let components = addr.iter().map(|protocol| match protocol {
        libp2p::multiaddr::Protocol::Ip4(ip) => Component::Ip4(ip.into()),
        libp2p::multiaddr::Protocol::Ip6(ip) => Component::Ip6(ip.into()),
        libp2p::multiaddr::Protocol::Tcp(port) => Component::Tcp(port),
        libp2p::multiaddr::Protocol::Udp(port) => Component::Udp(port),
        libp2p::multiaddr::Protocol::P2p(peer_id) => Component::P2p(peer_id.to_string()),
        libp2p::multiaddr::Protocol::P2pCircuit => Component::P2pCircuit,
        _ => Component::Other,
    }).collect();
    Some(Multiaddr { text: addr.to_string(), components })
}

/// Whether an IPv4 address is loopback (127/8), private (10/8, 172.16/12, 192.168/16), link-local
/// (169.254/16) or unspecified (0.0.0.0).
pub open spec fn local_ip4(ip: u32) -> bool {
    ||| 0x7f00_0000 <= ip <= 0x7fff_ffff
    ||| 0x0a00_0000 <= ip <= 0x0aff_ffff
    ||| 0xac10_0000 <= ip <= 0xac1f_ffff
    ||| 0xc0a8_0000 <= ip <= 0xc0a8_ffff
    ||| 0xa9fe_0000 <= ip <= 0xa9fe_ffff
    ||| ip == 0
}

/// The first sixteen bits of an IPv6 address.
pub open spec fn first_segment(ip: u128) -> u128 {
    ip / 0x1_0000_0000_0000_0000_0000_0000_0000
}

/// Whether an IPv6 address is loopback (::1), unspecified (::), unique local (fc00::/7) or
/// link-local (fe80::/10).
pub open spec fn local_ip6(ip: u128) -> bool {
    ||| ip == 1
    ||| ip == 0
    ||| 0xfc00 <= first_segment(ip) <= 0xfdff
    ||| 0xfe80 <= first_segment(ip) <= 0xfebf
}

/// Whether a component is an IP address of the local machine or network.
pub open spec fn local_component(component: ComponentView) -> bool {
    match component {
        ComponentView::Ip4(ip) => local_ip4(ip),
        ComponentView::Ip6(ip) => local_ip6(ip),
        _ => false,
    }
}

/// Whether every IP address among the components is reachable over the internet.
pub open spec fn internet_address(components: Seq<ComponentView>) -> bool {
    forall|i: int| 0 <= i < components.len() ==> !local_component(#[trigger] components[i])
}

/// Whether no component marks the address as relayed.
pub open spec fn direct_address(components: Seq<ComponentView>) -> bool {
    !components.contains(ComponentView::P2pCircuit)
}

/// The peer that an address names: the peer id that the address ends in; where it does not end
/// in one, the first peer id in it.
pub open spec fn named_peer(components: Seq<ComponentView>) -> Option<Seq<char>> {
    if components.len() > 0 && components.last() is P2p {
        Some(components.last()->P2p_0)
    } else {
        first_peer(components)
    }
}

/// The first peer id among the components.
pub open spec fn first_peer(components: Seq<ComponentView>) -> Option<Seq<char>>
    decreases components.len(),
{
    if components.len() == 0 {
        None
    } else if components[0] is P2p {
        Some(components[0]->P2p_0)
    } else {
        first_peer(components.drop_first())
    }
}

fn is_local_ip4(ip: u32) -> (local: bool)
    ensures
        local == local_ip4(ip),
{
    let first: u32 = ip >> 24;
    let first_two: u32 = ip >> 16;
    let loopback = first == 127;
    let private = first == 10 || (ip >> 20) == 0xac1 || first_two == 0xc0a8;
    let link_local = first_two == 0xa9fe;
    proof {
        assert((ip >> 24 == 127) == (0x7f00_0000 <= ip <= 0x7fff_ffff)) by (bit_vector);
        assert((ip >> 24 == 10) == (0x0a00_0000 <= ip <= 0x0aff_ffff)) by (bit_vector);
        assert((ip >> 20 == 0xac1) == (0xac10_0000 <= ip <= 0xac1f_ffff)) by (bit_vector);
        assert((ip >> 16 == 0xc0a8) == (0xc0a8_0000 <= ip <= 0xc0a8_ffff)) by (bit_vector);
        assert((ip >> 16 == 0xa9fe) == (0xa9fe_0000 <= ip <= 0xa9fe_ffff)) by (bit_vector);
    }
    loopback || private || link_local || ip == 0
}

fn is_local_ip6(ip: u128) -> (local: bool)
    ensures
        local == local_ip6(ip),
{
    let segment: u128 = ip / 0x1_0000_0000_0000_0000_0000_0000_0000;
    let unique_local = segment & 0xfe00 == 0xfc00;
    let link_local = segment & 0xffc0 == 0xfe80;
    proof {
        assert(segment <= 0xffff);
        assert((segment & 0xfe00 == 0xfc00) == (0xfc00 <= segment <= 0xfdff)) by (bit_vector)
            requires
                segment <= 0xffff,
        ;
        assert((segment & 0xffc0 == 0xfe80) == (0xfe80 <= segment <= 0xfebf)) by (bit_vector)
            requires
                segment <= 0xffff,
        ;
    }
    ip == 1 || ip == 0 || unique_local || link_local
}

impl Multiaddr {
    /// Reads a multiaddress from its text.
    pub fn parse(text: &str) -> (parsed: Option<Multiaddr>)
        ensures
            match parsed {
                Some(addr) => parsed_multiaddr(text@) == Some(addr@),
                None => parsed_multiaddr(text@) is None,
            },
    {
        read_multiaddr(text)
    }

    /// An address of the given text and components.
    pub fn from_parts(text: String, components: Vec<Component>) -> (addr: Multiaddr)
        ensures
            addr@ == (MultiaddrView {
                text: text@,
                components: component_views(components@),
            }),
    {
        Multiaddr { text, components }
    }

    /// The canonical text of the address.
    pub fn to_string(&self) -> (text: String)
        ensures
            text@ == self@.text,
    {
        self.text.clone()
    }
}

/// Returns `true` if every IP address in `addr` is reachable over the internet. Loopback,
/// private, link-local and unspecified addresses are rejected.
pub fn is_internet_address(addr: &Multiaddr) -> (internet: bool)
    ensures
        internet == internet_address(addr@.components),
{
    let mut i: usize = 0;
    while i < addr.components.len()
        invariant
            i <= addr.components@.len(),
            forall|j: int|
                0 <= j < i ==> !local_component(#[trigger] component_views(addr.components@)[j]),
        decreases addr.components@.len() - i,
    {
        let local = match &addr.components[i] {
            Component::Ip4(ip) => is_local_ip4(*ip),
            Component::Ip6(ip) => is_local_ip6(*ip),
            _ => false,
        };
        if local {
            assert(local_component(addr@.components[i as int]));
            return false;
        }
        i = i + 1;
    }
    true
}

/// Filters out local addresses when `no_local` is `true`.
pub fn filter_addresses(addrs: Vec<Multiaddr>, no_local: bool) -> (kept: Vec<Multiaddr>)
    ensures
        kept@ == if no_local {
            addrs@.filter(|addr: Multiaddr| internet_address(addr@.components))
        } else {
            addrs@
        },
{
    if !no_local {
        return addrs;
    }
    let ghost all = addrs@;
    let ghost public = |addr: Multiaddr| internet_address(addr@.components);
    let mut kept: Vec<Multiaddr> = Vec::new();
    proof {
        reveal(Seq::filter);
        assert(all.take(0).filter(public) =~= Seq::empty());
    }
    for addr in it: addrs
        invariant
            it.seq() == all,
            public == (|addr: Multiaddr| internet_address(addr@.components)),
            kept@ == all.take(it.index() as int).filter(public),
    {
        proof {
            reveal(Seq::filter);
            assert(all.take(it.index() + 1).drop_last() =~= all.take(it.index() as int));
        }
        if is_internet_address(&addr) {
            kept.push(addr);
        }
    }
    assert(all.take(all.len() as int) =~= all);
    kept
}

/// Returns `true` if `addr` is a direct (non-relayed) address.
///
/// A relayed address contains the `/p2p-circuit` component; an address without it is direct.
pub fn is_direct_address(addr: &Multiaddr) -> (direct: bool)
    ensures
        direct == direct_address(addr@.components),
{
    let mut i: usize = 0;
    while i < addr.components.len()
        invariant
            i <= addr.components@.len(),
            forall|j: int|
                0 <= j < i ==> !((#[trigger] component_views(addr.components@)[j]) is P2pCircuit),
        decreases addr.components@.len() - i,
    {
        if let Component::P2pCircuit = &addr.components[i] {
            assert(addr@.components[i as int] == ComponentView::P2pCircuit);
            return false;
        }
        i = i + 1;
    }
    true
}

/// Extracts the peer id from an address ending in `/p2p/<PeerId>`. Where the address ends
/// otherwise, the first peer id in it is taken.
pub fn extract_peer_id_from_multiaddr(addr: &Multiaddr) -> (peer_id: Option<String>)
    ensures
        match peer_id {
            Some(id) => named_peer(addr@.components) == Some(id@),
            None => named_peer(addr@.components) is None,
        },
{
    let len = addr.components.len();
    if len > 0 {
        if let Component::P2p(id) = &addr.components[len - 1] {
            return Some(id.clone());
        }
    }
    let ghost parts = addr@.components;
    let mut i: usize = 0;
    assert(parts.skip(0) =~= parts);
    while i < len
        invariant
            len == addr.components@.len(),
            parts == component_views(addr.components@),
            i <= len,
            first_peer(parts) == first_peer(parts.skip(i as int)),
            named_peer(parts) == first_peer(parts),
            addr@.components == parts,
        decreases len - i,
    {
        assert(parts.skip(i as int)[0] == parts[i as int]);
        assert(parts.skip(i as int).drop_first() =~= parts.skip(i + 1));
        if let Component::P2p(id) = &addr.components[i] {
            return Some(id.clone());
        }
        i = i + 1;
    }
    None
}

/// Filtering keeps exactly the internet addresses, and filtering what was kept changes nothing.
pub proof fn filtering_keeps_exactly_the_internet_addresses(addrs: Seq<Multiaddr>, addr: Multiaddr)
    ensures
        ({
            let kept = addrs.filter(|a: Multiaddr| internet_address(a@.components));
            &&& kept.contains(addr) <==> addrs.contains(addr) && internet_address(addr@.components)
            &&& kept.filter(|a: Multiaddr| internet_address(a@.components)) == kept
        }),
{
    let public = |a: Multiaddr| internet_address(a@.components);
    let kept = addrs.filter(public);
    lemma_filter_contains(addrs, public, addr);
    assert forall|i: int| 0 <= i < kept.len() implies public(kept[i]) by {
        lemma_filter_contains(addrs, public, kept[i]);
        assert(kept.contains(kept[i]));
    }
    lemma_filter_all(kept, public);
}

proof fn lemma_filter_contains(
    list: Seq<Multiaddr>,
    pred: spec_fn(Multiaddr) -> bool,
    addr: Multiaddr,
)
    ensures
        list.filter(pred).contains(addr) <==> list.contains(addr) && pred(addr),
    decreases list.len(),
{
    reveal(Seq::filter);
    if list.len() > 0 {
        let front = list.drop_last();
        let last = list.last();
        lemma_filter_contains(front, pred, addr);
        lemma_push_contains(front, last, addr);
        lemma_push_contains(front.filter(pred), last, addr);
        assert(list =~= front.push(last));
    }
}

proof fn lemma_push_contains(list: Seq<Multiaddr>, last: Multiaddr, addr: Multiaddr)
    ensures
        list.push(last).contains(addr) <==> list.contains(addr) || last == addr,
{
    let longer = list.push(last);
    if list.contains(addr) {
        let i = choose|i: int| 0 <= i < list.len() && list[i] == addr;
        assert(longer[i] == addr);
    }
    assert(longer[list.len() as int] == last);
    if longer.contains(addr) {
        let i = choose|i: int| 0 <= i < longer.len() && longer[i] == addr;
        if i < list.len() {
            assert(list[i] == addr);
        }
    }
}

proof fn lemma_filter_all(list: Seq<Multiaddr>, pred: spec_fn(Multiaddr) -> bool)
    requires
        forall|i: int| 0 <= i < list.len() ==> pred(list[i]),
    ensures
        list.filter(pred) == list,
    decreases list.len(),
{
    reveal(Seq::filter);
    if list.len() > 0 {
        lemma_filter_all(list.drop_last(), pred);
        assert(list.drop_last().push(list.last()) =~= list);
    } else {
        assert(list.filter(pred) =~= list);
    }
}

/// An address that ends in a peer id names that peer, whatever stands in front of it.
pub proof fn address_names_the_peer_it_ends_in(front: Seq<ComponentView>, peer_id: Seq<char>)
    ensures
        named_peer(front.push(ComponentView::P2p(peer_id))) == Some(peer_id),
{
}

/// Routing an address through a relay makes it relayed, however it was before, and an address is
/// local as soon as one of its parts is.
pub proof fn parts_decide_the_whole(front: Seq<ComponentView>, back: Seq<ComponentView>)
    ensures
        direct_address(front + back) <==> direct_address(front) && direct_address(back),
        internet_address(front + back) <==> internet_address(front) && internet_address(back),
        !direct_address(front.push(ComponentView::P2pCircuit) + back),
{
    let whole = front + back;
    assert(forall|i: int| 0 <= i < front.len() ==> front[i] == #[trigger] whole[i]);
    assert(forall|i: int| 0 <= i < front.len() ==> #[trigger] front[i] == whole[i]);
    assert(forall|i: int| 0 <= i < back.len() ==> #[trigger] back[i] == whole[front.len() + i]);
    assert forall|i: int| front.len() <= i < whole.len() implies #[trigger] whole[i] == back[i
        - front.len()] by {}
    let relayed = front.push(ComponentView::P2pCircuit) + back;
    assert(relayed[front.len() as int] == ComponentView::P2pCircuit);
    if direct_address(whole) {
        if front.contains(ComponentView::P2pCircuit) {
            let i = choose|i: int|
                0 <= i < front.len() && front[i] == ComponentView::P2pCircuit;
            assert(whole[i] == ComponentView::P2pCircuit);
        }
        if back.contains(ComponentView::P2pCircuit) {
            let i = choose|i: int| 0 <= i < back.len() && back[i] == ComponentView::P2pCircuit;
            assert(whole[front.len() + i] == ComponentView::P2pCircuit);
        }
    }
}

} // verus!
