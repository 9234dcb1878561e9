//! Laws of the screen: what each node event leaves on it.
use vstd::prelude::*;

use crate::screen::{ChatScreen, ConnPeer, EventKind, LogEntry};
use crate::tui::{UiEvent, UserAction};

verus! {

/// What is said of a screen is said of all that stands on it: every line with its text and kind,
/// every peer with its id, address and kind of connection, and the other fields as they are.
pub proof fn screens_are_seen_whole(screen: ChatScreen, i: int)
    ensures
        screen@.chat.len() == screen.chat@.len(),
        screen@.events.len() == screen.events@.len(),
        screen@.peers.len() == screen.connected_peers@.len(),
        0 <= i < screen.chat@.len() ==> screen@.chat[i].text == screen.chat@[i].text@
            && screen@.chat[i].kind == screen.chat@[i].kind,
        0 <= i < screen.events@.len() ==> screen@.events[i].text == screen.events@[i].text@
            && screen@.events[i].kind == screen.events@[i].kind,
        0 <= i < screen.connected_peers@.len() ==> {
            &&& screen@.peers[i].peer_id == screen.connected_peers@[i].peer_id@
            &&& screen@.peers[i].addr == screen.connected_peers@[i].addr@
            &&& screen@.peers[i].direct == screen.connected_peers@[i].direct
        },
        screen@.our_peer_id == screen.our_peer_id@,
        screen@.cache_count == screen.cache_count,
        screen@.input == screen.input@,
        screen@.selected == screen.selected_peer,
{
}

/// What is said of an event or an action is said of all that it carries.
pub proof fn messages_are_seen_whole(event: UiEvent, action: UserAction)
    ensures
        match event {
            UiEvent::Info(text) => event@ == crate::tui::UiEventView::Info(text@),
            UiEvent::Warn(text) => event@ == crate::tui::UiEventView::Warn(text@),
            UiEvent::PeerConnected { peer_id, addr, direct } => event@
                == (crate::tui::UiEventView::PeerConnected {
                peer_id: peer_id@,
                addr: addr@,
                direct,
            }),
            UiEvent::PeerDisconnected { peer_id } => event@
                == (crate::tui::UiEventView::PeerDisconnected { peer_id: peer_id@ }),
            UiEvent::ChatMessage { from, text } => event@ == (crate::tui::UiEventView::ChatMessage {
                from: from@,
                text: text@,
            }),
            UiEvent::CacheCount(count) => event@ == crate::tui::UiEventView::CacheCount(count),
            UiEvent::LocalPeerId(id) => event@ == crate::tui::UiEventView::LocalPeerId(id@),
        },
        match action {
            UserAction::Broadcast { text } => action@ == (crate::tui::UserActionView::Broadcast {
                text: text@,
            }),
            UserAction::Quit => action@ == crate::tui::UserActionView::Quit,
        },
{
}

/// Whether `log` is `before` with one more line of this text and kind at its end, and without its
/// oldest line where that made more than `cap` lines.
pub open spec fn one_more(
    before: Seq<crate::screen::LogEntryView>,
    log: Seq<crate::screen::LogEntryView>,
    text: Seq<char>,
    kind: EventKind,
    cap: int,
) -> bool {
    let dropped: int = if before.len() >= cap {
        1
    } else {
        0
    };
    &&& log.len() == before.len() + 1 - dropped
    &&& log[log.len() - 1].text == text
    &&& log[log.len() - 1].kind == kind
    &&& forall|i: int| 0 <= i < before.len() - dropped ==> #[trigger] log[i] == before[i + dropped]
}

/// A logged line is added whole at the end of its log, of which at most 1000 chat lines and 500
/// event lines are kept, the newest; nothing else changes.
pub proof fn lines_are_logged_whole(
    screen: crate::screen::ScreenView,
    text: Seq<char>,
    kind: EventKind,
)
    ensures
        ({
            let next = screen.logged(text, kind);
            &&& kind == EventKind::Chat ==> one_more(screen.chat, next.chat, text, kind, 1000)
                && next.events == screen.events
            &&& kind != EventKind::Chat ==> one_more(screen.events, next.events, text, kind, 500)
                && next.chat == screen.chat
            &&& next.peers == screen.peers
            &&& next.our_peer_id == screen.our_peer_id
            &&& next.cache_count == screen.cache_count
            &&& next.input == screen.input
            &&& next.selected == screen.selected
        }),
{
}

/// A chat message adds one line to the chat log: an opening bracket, the sender, a closing
/// bracket and a space, and then the whole text, character by character. Nothing else changes.
pub proof fn chat_lines_hold_sender_and_text(
    screen: crate::screen::ScreenView,
    from: Seq<char>,
    text: Seq<char>,
)
    ensures
        ({
            let next = screen.after(crate::tui::UiEventView::ChatMessage { from, text });
            let line = next.chat[next.chat.len() - 1].text;
            let n = from.len() as int;
            &&& line.len() == from.len() + text.len() + 3
            &&& line[0] == '['
            &&& forall|i: int| 0 <= i < n ==> line[i + 1] == #[trigger] from[i]
            &&& line[n + 1] == ']'
            &&& line[n + 2] == ' '
            &&& forall|i: int| 0 <= i < text.len() ==> line[n + 3 + i] == #[trigger] text[i]
            &&& one_more(screen.chat, next.chat, line, EventKind::Chat, 1000)
            &&& next.events == screen.events
            &&& next.peers == screen.peers
            &&& next.our_peer_id == screen.our_peer_id
            &&& next.cache_count == screen.cache_count
            &&& next.input == screen.input
            &&& next.selected == screen.selected
        }),
{
    reveal_strlit("[");
    reveal_strlit("] ");
}

/// Two messages of one sender with different texts give different lines.
pub proof fn different_texts_give_different_lines(
    screen: crate::screen::ScreenView,
    other: crate::screen::ScreenView,
    from: Seq<char>,
    text: Seq<char>,
    another: Seq<char>,
)
    requires
        text != another,
    ensures
        screen.after(crate::tui::UiEventView::ChatMessage { from, text }).chat.last().text
            != other.after(
            crate::tui::UiEventView::ChatMessage { from, text: another },
        ).chat.last().text,
{
    let next = screen.after(crate::tui::UiEventView::ChatMessage { from, text });
    let then = other.after(crate::tui::UiEventView::ChatMessage { from, text: another });
    chat_lines_hold_sender_and_text(screen, from, text);
    chat_lines_hold_sender_and_text(other, from, another);
    let line = next.chat.last().text;
    if line == then.chat.last().text {
        assert forall|i: int| 0 <= i < text.len() implies text[i] == another[i] by {
            assert(line[from.len() + 3 + i] == text[i]);
            assert(line[from.len() + 3 + i] == another[i]);
        }
        assert(text =~= another);
    }
}

/// An info or warning adds one event line with the whole message, and nothing else changes.
pub proof fn notices_are_logged_whole(
    screen: crate::screen::ScreenView,
    message: Seq<char>,
    warning: bool,
)
    ensures
        ({
            let event = if warning {
                crate::tui::UiEventView::Warn(message)
            } else {
                crate::tui::UiEventView::Info(message)
            };
            let kind = if warning {
                EventKind::Warn
            } else {
                EventKind::Info
            };
            let next = screen.after(event);
            &&& one_more(screen.events, next.events, message, kind, 500)
            &&& next.chat == screen.chat
            &&& next.peers == screen.peers
            &&& next.our_peer_id == screen.our_peer_id
            &&& next.cache_count == screen.cache_count
            &&& next.input == screen.input
            &&& next.selected == screen.selected
        }),
{
}

/// The count of cached peers and the local id are taken over as they are, and change nothing else.
pub proof fn counts_and_ids_are_taken_over(
    screen: crate::screen::ScreenView,
    count: usize,
    id: Seq<char>,
)
    ensures
        ({
            let counted = screen.after(crate::tui::UiEventView::CacheCount(count));
            let named = screen.after(crate::tui::UiEventView::LocalPeerId(id));
            &&& counted.cache_count == count
            &&& counted.our_peer_id == screen.our_peer_id
            &&& named.our_peer_id == id
            &&& named.cache_count == screen.cache_count
            &&& counted.chat == screen.chat && named.chat == screen.chat
            &&& counted.events == screen.events && named.events == screen.events
            &&& counted.peers == screen.peers && named.peers == screen.peers
            &&& counted.input == screen.input && named.input == screen.input
            &&& counted.selected == screen.selected && named.selected == screen.selected
        }),
{
}

/// A peer that connects is listed last with its id, address and kind of connection, unless a peer
/// of that id is listed already, and then the list stays. The event log tells of it by the shown
/// id and the kind of connection; nothing else changes.
pub proof fn connecting_lists_the_peer(
    screen: crate::screen::ScreenView,
    peer_id: Seq<char>,
    addr: Seq<char>,
    direct: bool,
)
    ensures
        ({
            let next = screen.after(
                crate::tui::UiEventView::PeerConnected { peer_id, addr, direct },
            );
            let n = screen.peers.len() as int;
            let known = exists|i: int| 0 <= i < n && (#[trigger] screen.peers[i]).peer_id == peer_id;
            let line = next.events[next.events.len() - 1].text;
            let tail = if direct {
                " (direct)"@
            } else {
                " (relayed)"@
            };
            &&& known ==> next.peers == screen.peers
            &&& !known ==> {
                &&& next.peers.len() == n + 1
                &&& forall|i: int| 0 <= i < n ==> #[trigger] next.peers[i] == screen.peers[i]
                &&& next.peers[n].peer_id == peer_id
                &&& next.peers[n].addr == addr
                &&& next.peers[n].direct == direct
            }
            &&& one_more(screen.events, next.events, line, EventKind::System, 500)
            &&& line.len() >= 13 + tail.len()
            &&& line.take(13) == "Connected to "@
            &&& crate::laws::text::shows(peer_id, line.subrange(13, line.len() - tail.len()))
            &&& line.skip(line.len() - tail.len()) == tail
            &&& next.chat == screen.chat
            &&& next.our_peer_id == screen.our_peer_id
            &&& next.cache_count == screen.cache_count
            &&& next.input == screen.input
            &&& next.selected == screen.selected
        }),
{
    reveal_strlit("Connected to ");
    reveal_strlit(" (direct)");
    reveal_strlit(" (relayed)");
    let next = screen.after(crate::tui::UiEventView::PeerConnected { peer_id, addr, direct });
    let line = next.events[next.events.len() - 1].text;
    let shown = crate::text::shortened(peer_id);
    let tail = if direct {
        " (direct)"@
    } else {
        " (relayed)"@
    };
    crate::laws::text::identifiers_are_cut_behind_17_characters(peer_id);
    assert(line.take(13) =~= "Connected to "@);
    assert(line.subrange(13, line.len() - tail.len()) =~= shown);
    assert(line.skip(line.len() - tail.len()) =~= tail);
}

/// Whether `list` is `before` without the peers of this id: what is left keeps its order and
/// nothing else is gone.
pub open spec fn left_over(
    before: Seq<crate::screen::ConnPeerView>,
    list: Seq<crate::screen::ConnPeerView>,
    places: Seq<int>,
    peer_id: Seq<char>,
) -> bool {
    &&& places.len() == list.len()
    &&& forall|i: int|
        0 <= i < list.len() ==> 0 <= #[trigger] places[i] < before.len() && list[i]
            == before[places[i]] && list[i].peer_id != peer_id
    &&& forall|i: int, j: int| 0 <= i < j < list.len() ==> places[i] < places[j]
    &&& forall|k: int|
        0 <= k < before.len() && (#[trigger] before[k]).peer_id != peer_id ==> exists|i: int|
            0 <= i < list.len() && #[trigger] places[i] == k
}

proof fn lemma_left_over(before: Seq<crate::screen::ConnPeerView>, peer_id: Seq<char>) -> (places:
    Seq<int>)
    ensures
        left_over(before, crate::screen::without_peer(before, peer_id), places, peer_id),
    decreases before.len(),
{
    reveal(Seq::filter);
    let list = crate::screen::without_peer(before, peer_id);
    if before.len() == 0 {
        Seq::empty()
    } else {
        let front = before.drop_last();
        let last = before.last();
        let shorter = crate::screen::without_peer(front, peer_id);
        let earlier = lemma_left_over(front, peer_id);
        let places = if last.peer_id != peer_id {
            earlier.push(before.len() - 1)
        } else {
            earlier
        };
        assert forall|i: int| 0 <= i < list.len() implies 0 <= #[trigger] places[i] < before.len()
            && list[i] == before[places[i]] && list[i].peer_id != peer_id by {
            if i < shorter.len() {
                assert(places[i] == earlier[i]);
                assert(list[i] == shorter[i]);
                assert(front[earlier[i]] == before[earlier[i]]);
            }
        }
        assert forall|i: int, j: int| 0 <= i < j < list.len() implies places[i] < places[j] by {
            if j < shorter.len() {
                assert(earlier[i] < earlier[j]);
            } else {
                assert(earlier[i] < front.len());
            }
        }
        assert forall|k: int|
            0 <= k < before.len() && (#[trigger] before[k]).peer_id != peer_id implies exists|i: int|
            0 <= i < list.len() && #[trigger] places[i] == k by {
            if k < front.len() {
                assert(front[k].peer_id != peer_id);
                let i = choose|i: int| 0 <= i < shorter.len() && #[trigger] earlier[i] == k;
                assert(places[i] == k);
            } else {
                assert(places[shorter.len() as int] == k);
            }
        }
        places
    }
}

/// A peer that disconnects leaves the list, and every other peer stays, in the same order. The
/// selection stays where it is on the shorter list, or goes to its last peer, or to zero where
/// none is left. The event log tells of it by the shown id; nothing else changes.
pub proof fn disconnecting_takes_the_peer_off_the_list(
    screen: crate::screen::ScreenView,
    peer_id: Seq<char>,
)
    requires
        screen.peers.len() <= usize::MAX,
    ensures
        ({
            let next = screen.after(crate::tui::UiEventView::PeerDisconnected { peer_id });
            let line = next.events[next.events.len() - 1].text;
            &&& exists|places: Seq<int>| left_over(screen.peers, next.peers, places, peer_id)
            &&& next.selected < next.peers.len() || next.selected == 0
            &&& screen.selected < next.peers.len() ==> next.selected == screen.selected
            &&& screen.selected >= next.peers.len() > 0 ==> next.selected == next.peers.len() - 1
            &&& one_more(screen.events, next.events, line, EventKind::System, 500)
            &&& line.len() >= 18
            &&& line.take(18) == "Disconnected from "@
            &&& crate::laws::text::shows(peer_id, line.skip(18))
            &&& next.chat == screen.chat
            &&& next.our_peer_id == screen.our_peer_id
            &&& next.cache_count == screen.cache_count
            &&& next.input == screen.input
        }),
{
    reveal_strlit("Disconnected from ");
    let next = screen.after(crate::tui::UiEventView::PeerDisconnected { peer_id });
    let line = next.events[next.events.len() - 1].text;
    let places = lemma_left_over(screen.peers, peer_id);
    assert(left_over(screen.peers, next.peers, places, peer_id));
    lemma_not_longer(screen.peers, peer_id);
    crate::laws::text::identifiers_are_cut_behind_17_characters(peer_id);
    assert(line.take(18) =~= "Disconnected from "@);
    assert(line.skip(18) =~= crate::text::shortened(peer_id));
}

proof fn lemma_not_longer(before: Seq<crate::screen::ConnPeerView>, peer_id: Seq<char>)
    ensures
        crate::screen::without_peer(before, peer_id).len() <= before.len(),
    decreases before.len(),
{
    reveal(Seq::filter);
    if before.len() > 0 {
        lemma_not_longer(before.drop_last(), peer_id);
    }
}

/// The label of a peer is a letter for the kind of its connection, a space, and its shown id.
pub proof fn labels_tell_kind_and_id(peer: crate::screen::ConnPeerView)
    ensures
        ({
            let label = crate::screen::peer_label_text(peer);
            &&& label.len() >= 2
            &&& label[0] == if peer.direct {
                'D'
            } else {
                'R'
            }
            &&& label[1] == ' '
            &&& crate::laws::text::shows(peer.peer_id, label.skip(2))
        }),
{
    reveal_strlit("D ");
    reveal_strlit("R ");
    crate::laws::text::identifiers_are_cut_behind_17_characters(peer.peer_id);
    assert(crate::screen::peer_label_text(peer).skip(2) =~= crate::text::shortened(peer.peer_id));
}

/// What is said of a line or a peer is said of all of it.
pub proof fn lines_and_peers_are_seen_whole(line: LogEntry, peer: ConnPeer)
    ensures
        line@.text == line.text@ && line@.kind == line.kind,
        peer@.peer_id == peer.peer_id@ && peer@.addr == peer.addr@ && peer@.direct == peer.direct,
{
}

} // verus!
