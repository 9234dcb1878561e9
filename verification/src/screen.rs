//! The state that both front-ends show: the chat log, the event log, the connected peers, the
//! input line and the selection, and how node events change it.
use vstd::prelude::*;

use crate::text::{decimal_text, join2, join3, shorten};
use crate::tui::UiEvent;

verus! {

/// How many chat lines are kept.
pub const CHAT_CAP: usize = 1000;

/// How many event lines are kept.
pub const EVENT_CAP: usize = 500;

/// The kind of a log line.
#[derive(Debug, Clone, Copy, PartialEq, Eq, Structural)]
pub enum EventKind {
    System,
    Chat,
    Warn,
    Info,
}

/// One line of a log.
#[derive(Debug, Clone)]
pub struct LogEntry {
    pub text: String,
    pub kind: EventKind,
}

/// A peer that is connected.
#[derive(Debug)]
pub struct ConnPeer {
    pub peer_id: String,
    pub addr: String,
    pub direct: bool,
}

/// Everything a front-end shows.
#[derive(Debug)]
pub struct ChatScreen {
    pub chat: Vec<LogEntry>,
    pub events: Vec<LogEntry>,
    pub connected_peers: Vec<ConnPeer>,
    pub our_peer_id: String,
    pub cache_count: usize,
    pub input: String,
    pub selected_peer: usize,
}

/// The content of a [`LogEntry`].
#[verifier::ext_equal]
pub struct LogEntryView {
    pub text: Seq<char>,
    pub kind: EventKind,
}

impl View for LogEntry {
    type V = LogEntryView;

    open spec fn view(&self) -> LogEntryView {
        LogEntryView { text: self.text@, kind: self.kind }
    }
}

/// The content of a [`ConnPeer`].
#[verifier::ext_equal]
pub struct ConnPeerView {
    pub peer_id: Seq<char>,
    pub addr: Seq<char>,
    pub direct: bool,
}

impl View for ConnPeer {
    type V = ConnPeerView;

    open spec fn view(&self) -> ConnPeerView {
        ConnPeerView { peer_id: self.peer_id@, addr: self.addr@, direct: self.direct }
    }
}

/// The content of a [`ChatScreen`].
#[verifier::ext_equal]
pub struct ScreenView {
    pub chat: Seq<LogEntryView>,
    pub events: Seq<LogEntryView>,
    pub peers: Seq<ConnPeerView>,
    pub our_peer_id: Seq<char>,
    pub cache_count: usize,
    pub input: Seq<char>,
    pub selected: usize,
}

/// The contents of log lines.
pub open spec fn entries(log: Seq<LogEntry>) -> Seq<LogEntryView> {
    Seq::new(log.len(), |i: int| log[i]@)
}

/// The contents of a peer list.
pub open spec fn peers(list: Seq<ConnPeer>) -> Seq<ConnPeerView> {
    Seq::new(list.len(), |i: int| list[i]@)
}

impl View for ChatScreen {
    type V = ScreenView;

    open spec fn view(&self) -> ScreenView {
        ScreenView {
            chat: entries(self.chat@),
            events: entries(self.events@),
            peers: peers(self.connected_peers@),
            our_peer_id: self.our_peer_id@,
            cache_count: self.cache_count,
            input: self.input@,
            selected: self.selected_peer,
        }
    }
}

/// A log after one more line: the oldest line leaves once the log holds more than `cap`.
pub open spec fn pushed<T>(log: Seq<T>, line: T, cap: nat) -> Seq<T> {
    if log.len() + 1 > cap {
        log.push(line).skip(1)
    } else {
        log.push(line)
    }
}

/// Whether a peer with this id is in the list.
pub open spec fn has_peer(list: Seq<ConnPeerView>, peer_id: Seq<char>) -> bool {
    exists|i: int| 0 <= i < list.len() && (#[trigger] list[i]).peer_id == peer_id
}

/// The list without the peers of this id, in the same order.
pub open spec fn without_peer(list: Seq<ConnPeerView>, peer_id: Seq<char>) -> Seq<ConnPeerView> {
    list.filter(|p: ConnPeerView| p.peer_id != peer_id)
}

/// A selection moved back onto a list of `len` peers: past its end it becomes the last peer, or
/// zero when there is none.
pub open spec fn clamped(selected: usize, len: nat) -> usize {
    if selected < len {
        selected
    } else if len == 0 {
        0
    } else {
        (len - 1) as usize
    }
}

/// The line logged when a peer connects.
pub open spec fn connected_line(peer_id: Seq<char>, direct: bool) -> Seq<char> {
    "Connected to "@ + crate::text::shortened(peer_id) + if direct {
        " (direct)"@
    } else {
        " (relayed)"@
    }
}

/// The line logged when a peer disconnects.
pub open spec fn disconnected_line(peer_id: Seq<char>) -> Seq<char> {
    "Disconnected from "@ + crate::text::shortened(peer_id)
}

/// The line logged for a chat message.
pub open spec fn chat_line(from: Seq<char>, text: Seq<char>) -> Seq<char> {
    "["@ + from + "] "@ + text
}

impl ScreenView {
    /// The screen after a line of the given kind was logged: chat lines go to the chat log, all
    /// others to the event log.
    pub open spec fn logged(self, text: Seq<char>, kind: EventKind) -> ScreenView {
        let line = LogEntryView { text, kind };
        if kind == EventKind::Chat {
            ScreenView { chat: pushed(self.chat, line, CHAT_CAP as nat), ..self }
        } else {
            ScreenView { events: pushed(self.events, line, EVENT_CAP as nat), ..self }
        }
    }

    /// The screen after a node event.
    pub open spec fn after(self, event: crate::tui::UiEventView) -> ScreenView {
        match event {
            crate::tui::UiEventView::Info(message) => self.logged(message, EventKind::Info),
            crate::tui::UiEventView::Warn(message) => self.logged(message, EventKind::Warn),
            crate::tui::UiEventView::PeerConnected { peer_id, addr, direct } => {
                let list = if has_peer(self.peers, peer_id) {
                    self.peers
                } else {
                    self.peers.push(ConnPeerView { peer_id, addr, direct })
                };
                (ScreenView { peers: list, ..self }).logged(
                    connected_line(peer_id, direct),
                    EventKind::System,
                )
            },
            crate::tui::UiEventView::PeerDisconnected { peer_id } => {
                let list = without_peer(self.peers, peer_id);
                (ScreenView {
                    peers: list,
                    selected: clamped(self.selected, list.len()),
                    ..self
                }).logged(disconnected_line(peer_id), EventKind::System)
            },
            crate::tui::UiEventView::ChatMessage { from, text } => self.logged(
                chat_line(from, text),
                EventKind::Chat,
            ),
            crate::tui::UiEventView::CacheCount(count) => ScreenView {
                cache_count: count,
                ..self
            },
            crate::tui::UiEventView::LocalPeerId(id) => ScreenView { our_peer_id: id, ..self },
        }
    }

    /// No two connected peers share an id, the selection is on the list (or zero when it is
    /// empty), neither log is over its cap, and the chat log holds chat lines only, the event log
    /// none.
    pub open spec fn well_formed(self) -> bool {
        &&& distinct_peers(self.peers)
        &&& self.selected < self.peers.len() || self.selected == 0
        &&& self.chat.len() <= CHAT_CAP
        &&& self.events.len() <= EVENT_CAP
        &&& forall|i: int|
            0 <= i < self.chat.len() ==> (#[trigger] self.chat[i]).kind == EventKind::Chat
        &&& forall|i: int|
            0 <= i < self.events.len() ==> (#[trigger] self.events[i]).kind != EventKind::Chat
    }
}

/// Appends a line to a log and drops the oldest one when the log is over its cap.
fn push_capped(log: &mut Vec<LogEntry>, line: LogEntry, cap: usize)
    requires
        cap > 0,
    ensures
        entries(final(log)@) == pushed(entries(old(log)@), line@, cap as nat),
{
    log.push(line);
    assert(entries(log@) =~= entries(old(log)@).push(line@));
    if log.len() > cap {
        let ghost full = log@;
        log.remove(0);
        assert(entries(log@) =~= entries(full).skip(1));
    }
}

impl ChatScreen {
    /// An empty screen for the node with the given id.
    pub fn new(our_peer_id: String) -> (screen: ChatScreen)
        ensures
            screen@ == (ScreenView {
                chat: Seq::empty(),
                events: Seq::empty(),
                peers: Seq::empty(),
                our_peer_id: our_peer_id@,
                cache_count: 0,
                input: Seq::empty(),
                selected: 0,
            }),
            screen@.well_formed(),
    {
        let screen = ChatScreen {
            chat: Vec::new(),
            events: Vec::new(),
            connected_peers: Vec::new(),
            our_peer_id,
            cache_count: 0,
            input: String::new(),
            selected_peer: 0,
        };
        assert(screen@.chat =~= Seq::empty());
        assert(screen@.events =~= Seq::empty());
        assert(screen@.peers =~= Seq::empty());
        screen
    }

    /// Logs a line.
    pub fn push(&mut self, text: String, kind: EventKind)
        ensures
            final(self)@ == old(self)@.logged(text@, kind),
    {
        let line = LogEntry { text, kind };
        match kind {
            EventKind::Chat => push_capped(&mut self.chat, line, CHAT_CAP),
            _ => push_capped(&mut self.events, line, EVENT_CAP),
        }
    }

    /// Whether a peer with this id is connected.
    fn knows_peer(&self, peer_id: &String) -> (known: bool)
        ensures
            known == has_peer(self@.peers, peer_id@),
    {
        let mut i: usize = 0;
        while i < self.connected_peers.len()
            invariant
                i <= self.connected_peers@.len(),
                forall|j: int|
                    0 <= j < i ==> (#[trigger] peers(self.connected_peers@)[j]).peer_id != peer_id@,
            decreases self.connected_peers@.len() - i,
        {
            if self.connected_peers[i].peer_id == *peer_id {
                assert(self@.peers[i as int].peer_id == peer_id@);
                return true;
            }
            i = i + 1;
        }
        false
    }

    /// Removes the peers of this id.
    fn drop_peer(&mut self, peer_id: &String)
        ensures
            final(self)@ == (ScreenView {
                peers: without_peer(old(self)@.peers, peer_id@),
                ..old(self)@
            }),
    {
        let ghost before = peers(self.connected_peers@);
        let ghost keep = |p: ConnPeerView| p.peer_id != peer_id@;
        let ghost mut seen: int = 0;
        let mut i: usize = 0;
        proof {
            assert(before.take(0).filter(keep) =~= Seq::empty()) by {
                reveal_with_fuel(Seq::filter, 2);
            }
            assert(before.skip(0) =~= before);
        }
        while i < self.connected_peers.len()
            invariant
                keep == (|p: ConnPeerView| p.peer_id != peer_id@),
                0 <= seen <= before.len(),
                i == before.take(seen).filter(keep).len(),
                peers(self.connected_peers@) == before.take(seen).filter(keep) + before.skip(seen),
                self@ == (ScreenView { peers: peers(self.connected_peers@), ..old(self)@ }),
            decreases self.connected_peers@.len() - i,
        {
            let ghost now = self.connected_peers@;
            let ghost kept = before.take(seen).filter(keep);
            proof {
                assert(peers(now)[i as int] == before.skip(seen)[0]);
                assert(before.take(seen + 1).drop_last() =~= before.take(seen));
                assert(before.take(seen + 1).last() == before[seen]);
                reveal(Seq::filter);
            }
            if self.connected_peers[i].peer_id == *peer_id {
                self.connected_peers.remove(i);
                assert(peers(self.connected_peers@) =~= peers(now).remove(i as int));
                assert(peers(self.connected_peers@) =~= kept + before.skip(seen + 1));
            } else {
                assert(kept.push(before[seen]) + before.skip(seen + 1) =~= kept + before.skip(
                    seen,
                ));
                i = i + 1;
            }
            proof {
                seen = seen + 1;
            }
        }
        proof {
            assert(seen == before.len());
            assert(before.take(seen) =~= before);
            assert(before.skip(seen) =~= Seq::empty());
            assert(peers(self.connected_peers@) =~= before.filter(keep));
        }
    }
}

/// Applies a node event to the screen.
pub fn apply_ui_event(state: &mut ChatScreen, event: UiEvent)
    ensures
        final(state)@ == old(state)@.after(event@),
{
    match event {
        UiEvent::Info(message) => state.push(message, EventKind::Info),
        UiEvent::Warn(message) => state.push(message, EventKind::Warn),
        UiEvent::CacheCount(count) => {
            state.cache_count = count;
        },
        UiEvent::LocalPeerId(id) => {
            state.our_peer_id = id;
        },
        UiEvent::ChatMessage { from, text } => {
            let line = join2(join3("[", from.as_str(), "] ").as_str(), text.as_str());
            state.push(line, EventKind::Chat);
        },
        UiEvent::PeerConnected { peer_id, addr, direct } => {
            let line = join3(
                "Connected to ",
                shorten(peer_id.as_str()).as_str(),
                if direct {
                    " (direct)"
                } else {
                    " (relayed)"
                },
            );
            if !state.knows_peer(&peer_id) {
                let ghost before = state.connected_peers@;
                let peer = ConnPeer { peer_id, addr, direct };
                state.connected_peers.push(peer);
                assert(peers(state.connected_peers@) =~= peers(before).push(peer@));
            }
            state.push(line, EventKind::System);
        },
        UiEvent::PeerDisconnected { peer_id } => {
            state.drop_peer(&peer_id);
            if state.selected_peer >= state.connected_peers.len() {
                state.selected_peer = if state.connected_peers.len() == 0 {
                    0
                } else {
                    state.connected_peers.len() - 1
                };
            }
            let line = join2("Disconnected from ", shorten(peer_id.as_str()).as_str());
            state.push(line, EventKind::System);
        },
    }
}

/// The label of a peer in the peer list: `D` for a direct and `R` for a relayed connection, then
/// the shortened id.
pub open spec fn peer_label_text(peer: ConnPeerView) -> Seq<char> {
    if peer.direct {
        "D "@ + crate::text::shortened(peer.peer_id)
    } else {
        "R "@ + crate::text::shortened(peer.peer_id)
    }
}

/// The label of a peer in the peer list.
pub fn peer_label(peer: &ConnPeer) -> (label: String)
    ensures
        label@ == peer_label_text(peer@),
{
    let shown = shorten(peer.peer_id.as_str());
    if peer.direct {
        join2("D ", shown.as_str())
    } else {
        join2("R ", shown.as_str())
    }
}

/// The three lines of the status panel: the local id, the number of connected peers and the
/// number of cached peers.
pub fn status_lines(screen: &ChatScreen) -> (lines: [String; 3])
    ensures
        lines[0]@ == "ID: "@ + crate::text::shortened(screen@.our_peer_id),
        lines[1]@ == "Peers: "@ + crate::text::decimal(screen@.peers.len()) + " connected"@,
        lines[2]@ == "Cache: "@ + crate::text::decimal(screen@.cache_count as nat) + " peers"@,
{
    let id = join2("ID: ", shorten(screen.our_peer_id.as_str()).as_str());
    let connected = join3(
        "Peers: ",
        decimal_text(screen.connected_peers.len() as u64).as_str(),
        " connected",
    );
    let cached = join3("Cache: ", decimal_text(screen.cache_count as u64).as_str(), " peers");
    [id, connected, cached]
}

proof fn lemma_without_peer(list: Seq<ConnPeerView>, peer_id: Seq<char>)
    ensures
        !has_peer(without_peer(list, peer_id), peer_id),
        without_peer(list, peer_id).len() <= list.len(),
        forall|other: Seq<char>|
            other != peer_id ==> has_peer(without_peer(list, peer_id), other) == has_peer(
                list,
                other,
            ),
        !has_peer(list, peer_id) ==> without_peer(list, peer_id) == list,
    decreases list.len(),
{
    reveal(Seq::filter);
    let kept = without_peer(list, peer_id);
    if list.len() > 0 {
        let front = list.drop_last();
        let last = list.last();
        lemma_without_peer(front, peer_id);
        let kept_front = without_peer(front, peer_id);
        assert(list =~= front.push(last));
        assert(list[list.len() - 1] == last);
        assert forall|other: Seq<char>| other != peer_id implies has_peer(kept, other) == has_peer(
            list,
            other,
        ) by {
            lemma_has_peer_push(front, last, other);
            lemma_has_peer_push(kept_front, last, other);
        }
        lemma_has_peer_push(front, last, peer_id);
        lemma_has_peer_push(kept_front, last, peer_id);
    }
}

proof fn lemma_has_peer_push(list: Seq<ConnPeerView>, last: ConnPeerView, peer_id: Seq<char>)
    ensures
        has_peer(list.push(last), peer_id) == (has_peer(list, peer_id) || last.peer_id == peer_id),
{
    let longer = list.push(last);
    if has_peer(list, peer_id) {
        let i = choose|i: int| 0 <= i < list.len() && (#[trigger] list[i]).peer_id == peer_id;
        assert(longer[i].peer_id == peer_id);
    }
    if last.peer_id == peer_id {
        assert(longer[list.len() as int].peer_id == peer_id);
    }
    if has_peer(longer, peer_id) {
        let i = choose|i: int| 0 <= i < longer.len() && (#[trigger] longer[i]).peer_id == peer_id;
        if i < list.len() {
            assert(list[i].peer_id == peer_id);
        }
    }
}

/// No two peers of the list share an id.
pub open spec fn distinct_peers(list: Seq<ConnPeerView>) -> bool {
    forall|i: int, j: int|
        0 <= i < j < list.len() ==> (#[trigger] list[i]).peer_id != (#[trigger] list[j]).peer_id
}

proof fn lemma_without_peer_distinct(list: Seq<ConnPeerView>, peer_id: Seq<char>)
    requires
        distinct_peers(list),
    ensures
        distinct_peers(without_peer(list, peer_id)),
    decreases list.len(),
{
    reveal(Seq::filter);
    if list.len() > 0 {
        let front = list.drop_last();
        let last = list.last();
        assert(distinct_peers(front)) by {
            assert forall|i: int, j: int| 0 <= i < j < front.len() implies (
            #[trigger] front[i]).peer_id != (#[trigger] front[j]).peer_id by {
                assert(list[i].peer_id != list[j].peer_id);
            }
        }
        lemma_without_peer_distinct(front, peer_id);
        if last.peer_id != peer_id {
            let kept_front = without_peer(front, peer_id);
            lemma_without_peer(front, last.peer_id);
            lemma_without_peer(front, peer_id);
            assert(!has_peer(front, last.peer_id)) by {
                if has_peer(front, last.peer_id) {
                    let i = choose|i: int|
                        0 <= i < front.len() && (#[trigger] front[i]).peer_id == last.peer_id;
                    assert(list[i].peer_id != list[list.len() - 1].peer_id);
                }
            }
            assert(!has_peer(kept_front, last.peer_id));
            assert(without_peer(list, peer_id) =~= kept_front.push(last));
            assert forall|i: int, j: int| 0 <= i < j < kept_front.push(last).len() implies (
            #[trigger] kept_front.push(last)[i]).peer_id != (#[trigger] kept_front.push(
                last,
            )[j]).peer_id by {
                assert(kept_front[i].peer_id == kept_front.push(last)[i].peer_id);
            }
        }
    }
}

/// Every node event keeps the screen well formed: no peer is listed twice, the selection stays on
/// the list, the logs stay within their caps, and each line is in the log of its kind.
pub proof fn events_keep_screens_well_formed(
    screen: ScreenView,
    event: crate::tui::UiEventView,
)
    requires
        screen.well_formed(),
    ensures
        screen.after(event).well_formed(),
{
    match event {
        crate::tui::UiEventView::PeerConnected { peer_id, addr, direct } => {
            if !has_peer(screen.peers, peer_id) {
                let list = screen.peers.push(ConnPeerView { peer_id, addr, direct });
                assert(screen.after(event).peers == list);
                assert forall|i: int, j: int| 0 <= i < j < list.len() implies (
                #[trigger] list[i]).peer_id != (#[trigger] list[j]).peer_id by {
                    if j == screen.peers.len() {
                        assert(screen.peers[i].peer_id != peer_id);
                    }
                }
            }
        },
        crate::tui::UiEventView::PeerDisconnected { peer_id } => {
            lemma_without_peer_distinct(screen.peers, peer_id);
            lemma_without_peer(screen.peers, peer_id);
        },
        _ => {},
    }
}

/// Node events leave the input line alone, chat messages change only the chat log, and no other
/// event touches the chat log.
pub proof fn chat_and_events_are_kept_apart(screen: ScreenView, event: crate::tui::UiEventView)
    ensures
        screen.after(event).input == screen.input,
        event is ChatMessage ==> screen.after(event) == (ScreenView {
            chat: screen.after(event).chat,
            ..screen
        }),
        !(event is ChatMessage) ==> screen.after(event).chat == screen.chat,
{
}

/// Connecting a peer that is already listed leaves the list as it is.
pub proof fn connecting_twice_lists_once(
    screen: ScreenView,
    peer_id: Seq<char>,
    addr: Seq<char>,
    direct: bool,
    again_addr: Seq<char>,
    again_direct: bool,
)
    ensures
        ({
            let first = crate::tui::UiEventView::PeerConnected { peer_id, addr, direct };
            let second = crate::tui::UiEventView::PeerConnected {
                peer_id,
                addr: again_addr,
                direct: again_direct,
            };
            &&& has_peer(screen.after(first).peers, peer_id)
            &&& screen.after(first).after(second).peers == screen.after(first).peers
        }),
{
    if !has_peer(screen.peers, peer_id) {
        lemma_has_peer_push(screen.peers, ConnPeerView { peer_id, addr, direct }, peer_id);
    }
}

/// A disconnected peer is off the list, every other peer stays, and disconnecting a peer that had
/// just been added gives the list back as it was.
pub proof fn disconnecting_undoes_connecting(
    screen: ScreenView,
    peer_id: Seq<char>,
    addr: Seq<char>,
    direct: bool,
    other: Seq<char>,
)
    ensures
        ({
            let up = crate::tui::UiEventView::PeerConnected { peer_id, addr, direct };
            let down = crate::tui::UiEventView::PeerDisconnected { peer_id };
            &&& !has_peer(screen.after(down).peers, peer_id)
            &&& other != peer_id ==> has_peer(screen.after(down).peers, other) == has_peer(
                screen.peers,
                other,
            )
            &&& !has_peer(screen.peers, peer_id) ==> screen.after(up).after(down).peers
                == screen.peers
        }),
{
    lemma_without_peer(screen.peers, peer_id);
    if !has_peer(screen.peers, peer_id) {
        let added = ConnPeerView { peer_id, addr, direct };
        let list = screen.peers.push(added);
        reveal(Seq::filter);
        assert(list.drop_last() =~= screen.peers);
    }
}

/// Logging a line of any kind keeps the screen well formed.
pub proof fn logging_keeps_screens_well_formed(
    screen: ScreenView,
    text: Seq<char>,
    kind: EventKind,
)
    requires
        screen.well_formed(),
    ensures
        screen.logged(text, kind).well_formed(),
{
}

/// A log line is always the newest line of its log, and the lines before it keep their order.
pub proof fn newest_line_is_last<T>(log: Seq<T>, line: T, cap: nat)
    requires
        cap > 0,
    ensures
        pushed(log, line, cap).last() == line,
        pushed(log, line, cap).len() == if log.len() + 1 > cap {
            log.len()
        } else {
            log.len() + 1
        },
        log.len() <= cap ==> pushed(log, line, cap).len() <= cap,
        pushed(log, line, cap).drop_last() == if log.len() + 1 > cap {
            log.skip(1)
        } else {
            log
        },
{
    if log.len() + 1 > cap && log.len() > 0 {
        assert(log.push(line).skip(1).drop_last() =~= log.skip(1));
    } else if log.len() + 1 <= cap {
        assert(log.push(line).drop_last() =~= log);
    }
}

/// A chat message becomes the newest line of the chat log.
pub proof fn chat_message_is_newest_line(screen: ScreenView, from: Seq<char>, text: Seq<char>)
    ensures
        screen.after(crate::tui::UiEventView::ChatMessage { from, text }).chat.last() == (
        LogEntryView { text: chat_line(from, text), kind: EventKind::Chat }),
{
    newest_line_is_last(
        screen.chat,
        LogEntryView { text: chat_line(from, text), kind: EventKind::Chat },
        CHAT_CAP as nat,
    );
}

} // verus!
