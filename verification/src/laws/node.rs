//! Laws of the chat node: what a step on each event tells the front-end, sends and records.
use vstd::prelude::*;

use crate::iroh_net::{ChatMessage, NodeEffect, NodeEvent};
use crate::peer_cache::PeerRecord;
use crate::tui::UserAction;

verus! {

/// What is said of a message, a record or an effect is said of all that it carries.
pub proof fn effects_are_seen_whole(
    message: ChatMessage,
    record: PeerRecord,
    effect: NodeEffect,
    effects: Seq<NodeEffect>,
    i: int,
)
    ensures
        message@.from == message.from@,
        message@.name == message.name@,
        message@.text == message.text@,
        message@.timestamp == message.timestamp,
        record@.peer_id == record.peer_id@,
        record@.multiaddrs.len() == record.multiaddrs@.len(),
        0 <= i < record.multiaddrs@.len() ==> record@.multiaddrs[i] == record.multiaddrs@[i]@,
        record.i2p_destination is None <==> record@.i2p_destination is None,
        record.i2p_destination is Some ==> record@.i2p_destination == Some(
            record.i2p_destination->0@,
        ),
        record@.last_seen == record.last_seen,
        record@.connection_count == record.connection_count,
        record@.rtt_ms == record.rtt_ms,
        record@.is_relay == record.is_relay,
        record@.is_public == record.is_public,
        match effect {
            NodeEffect::Ui(event) => effect@ == crate::iroh_net::NodeEffectView::Ui(event@),
            NodeEffect::Announce(sent) => effect@ == crate::iroh_net::NodeEffectView::Announce(
                sent@,
            ),
            NodeEffect::Broadcast(sent) => effect@ == crate::iroh_net::NodeEffectView::Broadcast(
                sent@,
            ),
            NodeEffect::SavePeer(kept) => effect@ == crate::iroh_net::NodeEffectView::SavePeer(
                kept@,
            ),
            NodeEffect::Stop => effect@ == crate::iroh_net::NodeEffectView::Stop,
        },
        crate::iroh_net::effect_views(effects).len() == effects.len(),
        0 <= i < effects.len() ==> crate::iroh_net::effect_views(effects)[i] == effects[i]@,
{
}

/// Whether an effect shows a chat line of this text.
pub open spec fn shows_text(effect: crate::iroh_net::NodeEffectView, text: Seq<char>) -> bool {
    match effect {
        crate::iroh_net::NodeEffectView::Ui(
            crate::tui::UiEventView::ChatMessage { from: _, text: shown },
        ) => shown == text,
        _ => false,
    }
}

/// Whether an effect shows a chat line of this sender.
pub open spec fn shows_sender(effect: crate::iroh_net::NodeEffectView, sender: Seq<char>) -> bool {
    match effect {
        crate::iroh_net::NodeEffectView::Ui(
            crate::tui::UiEventView::ChatMessage { from, text: _ },
        ) => from == sender,
        _ => false,
    }
}

/// Receiving a message with a text, from any neighbor but the node itself, has one effect: a chat
/// line with that text, whole, under the name that its author announced or else under the
/// author's shown id. The node stays as it was. The same holds of a message with neither text nor
/// name.
pub proof fn received_texts_are_shown(
    node: crate::iroh_net::NodeView,
    delivered_from: String,
    message: ChatMessage,
    now: u64,
)
    requires
        delivered_from@ != node.our_id,
        message.text@.len() > 0 || message.name@.len() == 0,
    ensures
        ({
            let event = NodeEvent::Received { delivered_from, message: Some(message) };
            let (after, effects) = node.stepped(event, now);
            &&& after == node
            &&& effects.len() == 1
            &&& shows_text(effects[0], message.text@)
            &&& node.peer_names.contains_key(message.from@) ==> shows_sender(
                effects[0],
                node.peer_names[message.from@],
            )
            &&& !node.peer_names.contains_key(message.from@) ==> exists|sender: Seq<char>|
                crate::laws::text::shows(message.from@, sender) && #[trigger] shows_sender(
                    effects[0],
                    sender,
                )
        }),
{
    let event = NodeEvent::Received { delivered_from, message: Some(message) };
    let effects = node.stepped(event, now).1;
    crate::laws::text::identifiers_are_cut_behind_17_characters(message.from@);
    if !node.peer_names.contains_key(message.from@) {
        assert(shows_sender(effects[0], crate::text::shortened(message.from@)));
    }
}

/// It does not matter which neighbor delivers a message, the author included, as long as it is not
/// the node itself.
pub proof fn deliverers_do_not_matter(
    node: crate::iroh_net::NodeView,
    one: String,
    other: String,
    message: Option<ChatMessage>,
    now: u64,
)
    requires
        one@ != node.our_id,
        other@ != node.our_id,
    ensures
        node.stepped(NodeEvent::Received { delivered_from: one, message }, now) == node.stepped(
            NodeEvent::Received { delivered_from: other, message },
            now,
        ),
{
}

/// What could not be decoded, and whatever the node itself delivered, has no effect at all.
pub proof fn undecodable_and_own_messages_have_no_effect(
    node: crate::iroh_net::NodeView,
    delivered_from: String,
    message: Option<ChatMessage>,
    now: u64,
)
    requires
        message is None || delivered_from@ == node.our_id,
    ensures
        ({
            let (after, effects) = node.stepped(
                NodeEvent::Received { delivered_from, message },
                now,
            );
            after == node && effects.len() == 0
        }),
{
}

/// A message with a name and no text, from any neighbor but the node itself, teaches the node that
/// name for its author and no other. The front-end is told the new name behind the author's shown
/// id, and that the author is connected; and a record of the author, seen now, is saved.
pub proof fn announced_names_are_learned(
    node: crate::iroh_net::NodeView,
    delivered_from: String,
    message: ChatMessage,
    now: u64,
    other: Seq<char>,
)
    requires
        delivered_from@ != node.our_id,
        message.text@.len() == 0,
        message.name@.len() > 0,
    ensures
        ({
            let event = NodeEvent::Received { delivered_from, message: Some(message) };
            let (after, effects) = node.stepped(event, now);
            let from = message.from@;
            &&& after.our_id == node.our_id
            &&& after.name == node.name
            &&& after.peer_names.contains_key(from)
            &&& after.peer_names[from] == message.name@
            &&& other != from ==> {
                &&& after.peer_names.contains_key(other) == node.peer_names.contains_key(other)
                &&& node.peer_names.contains_key(other) ==> after.peer_names[other]
                    == node.peer_names[other]
            }
            &&& effects.len() == 3
            &&& exists|shown: Seq<char>|
                #[trigger] crate::laws::text::shows(from, shown) && effects[0]
                    == crate::iroh_net::NodeEffectView::Ui(
                    crate::tui::UiEventView::Info(shown + " is now known as "@ + message.name@),
                )
            &&& effects[1] == crate::iroh_net::NodeEffectView::Ui(
                crate::tui::UiEventView::PeerConnected {
                    peer_id: from,
                    addr: "gossip"@,
                    direct: true,
                },
            )
            &&& effects[2] is SavePeer
            &&& effects[2]->SavePeer_0.peer_id == from
            &&& effects[2]->SavePeer_0.last_seen == now
            &&& effects[2]->SavePeer_0.connection_count == 1
            &&& effects[2]->SavePeer_0.multiaddrs.len() == 1
            &&& effects[2]->SavePeer_0.multiaddrs[0] == "gossip"@
            &&& effects[2]->SavePeer_0.i2p_destination is None
            &&& effects[2]->SavePeer_0.rtt_ms is None
            &&& !effects[2]->SavePeer_0.is_relay
            &&& !effects[2]->SavePeer_0.is_public
        }),
{
    let event = NodeEvent::Received { delivered_from, message: Some(message) };
    let effects = node.stepped(event, now).1;
    crate::laws::text::identifiers_are_cut_behind_17_characters(message.from@);
    let shown = crate::text::shortened(message.from@);
    assert(effects[0] == crate::iroh_net::NodeEffectView::Ui(
        crate::tui::UiEventView::Info(shown + " is now known as "@ + message.name@),
    ));
}

/// A text that the user broadcasts is sent once, whole, under the node's own id and name, with the
/// time of the step; the node stays as it was.
pub proof fn user_texts_are_broadcast_whole(
    node: crate::iroh_net::NodeView,
    text: String,
    now: u64,
)
    ensures
        ({
            let event = NodeEvent::Action(Some(UserAction::Broadcast { text }));
            let (after, effects) = node.stepped(event, now);
            &&& after == node
            &&& effects.len() == 1
            &&& effects[0] is Broadcast
            &&& effects[0]->Broadcast_0.text == text@
            &&& effects[0]->Broadcast_0.from == node.our_id
            &&& effects[0]->Broadcast_0.timestamp == now
            &&& node.name is Some ==> effects[0]->Broadcast_0.name == node.name->0
            &&& node.name is None ==> effects[0]->Broadcast_0.name == "anonymous"@
        }),
{
}

/// From the user to the others: a text that is not empty and that the user of one node broadcasts
/// is shown, whole and once, by every other node that receives the message, whoever delivers it;
/// and it is shown under the name that the receiver knows for the sender's id.
pub proof fn user_texts_are_shown_by_others(
    sender: crate::iroh_net::NodeView,
    receiver: crate::iroh_net::NodeView,
    text: String,
    sent_at: u64,
    message: ChatMessage,
    delivered_from: String,
    received_at: u64,
)
    requires
        text@.len() > 0,
        delivered_from@ != receiver.our_id,
        sender.stepped(
            NodeEvent::Action(Some(UserAction::Broadcast { text })),
            sent_at,
        ).1 == seq![crate::iroh_net::NodeEffectView::Broadcast(message@)],
    ensures
        ({
            let (after, effects) = receiver.stepped(
                NodeEvent::Received { delivered_from, message: Some(message) },
                received_at,
            );
            &&& after == receiver
            &&& effects.len() == 1
            &&& shows_text(effects[0], text@)
            &&& receiver.peer_names.contains_key(sender.our_id) ==> shows_sender(
                effects[0],
                receiver.peer_names[sender.our_id],
            )
        }),
{
    user_texts_are_broadcast_whole(sender, text, sent_at);
    let sent = sender.stepped(NodeEvent::Action(Some(UserAction::Broadcast { text })), sent_at).1;
    assert(sent[0] == crate::iroh_net::NodeEffectView::Broadcast(message@));
    assert(message.text@ == text@);
    assert(message.from@ == sender.our_id);
    received_texts_are_shown(receiver, delivered_from, message, received_at);
}

/// Once a broadcast succeeded, the front-end shows the text, whole, as the user's own; once it
/// failed, the front-end is warned with the reason and shown no text.
pub proof fn ended_broadcasts_are_reported(
    node: crate::iroh_net::NodeView,
    text: String,
    reason: String,
    now: u64,
)
    ensures
        ({
            let (after, effects) = node.stepped(
                NodeEvent::BroadcastEnded { text, error: None },
                now,
            );
            after == node && effects.len() == 1 && shows_text(effects[0], text@) && shows_sender(
                effects[0],
                "me"@,
            )
        }),
        ({
            let (after, effects) = node.stepped(
                NodeEvent::BroadcastEnded { text, error: Some(reason) },
                now,
            );
            &&& after == node
            &&& effects.len() == 1
            &&& effects[0] is Ui
            &&& effects[0]->Ui_0 is Warn
            &&& effects[0]->Ui_0->Warn_0.len() == 18 + reason@.len()
            &&& effects[0]->Ui_0->Warn_0.take(18) == "Broadcast failed: "@
            &&& effects[0]->Ui_0->Warn_0.skip(18) == reason@
        }),
{
    reveal_strlit("Broadcast failed: ");
    let warned = node.stepped(
        NodeEvent::BroadcastEnded { text, error: Some(reason) },
        now,
    ).1[0]->Ui_0->Warn_0;
    assert(warned.take(18) =~= "Broadcast failed: "@);
    assert(warned.skip(18) =~= reason@);
}

/// Another neighbor that appears or leaves is told to the front-end, first as a connection and
/// then in a line with its shown id; the node stays as it was.
pub proof fn neighbors_are_reported(
    node: crate::iroh_net::NodeView,
    peer_id: String,
    now: u64,
)
    requires
        peer_id@ != node.our_id,
    ensures
        ({
            let (after, effects) = node.stepped(NodeEvent::NeighborUp { peer_id }, now);
            &&& after == node
            &&& effects.len() == 2
            &&& effects[0] == crate::iroh_net::NodeEffectView::Ui(
                crate::tui::UiEventView::PeerConnected {
                    peer_id: peer_id@,
                    addr: "gossip"@,
                    direct: true,
                },
            )
            &&& effects[1] is Ui
            &&& effects[1]->Ui_0 is Info
            &&& effects[1]->Ui_0->Info_0.len() >= 13
            &&& effects[1]->Ui_0->Info_0.take(13) == "Peer joined: "@
            &&& crate::laws::text::shows(peer_id@, effects[1]->Ui_0->Info_0.skip(13))
        }),
        ({
            let (after, effects) = node.stepped(NodeEvent::NeighborDown { peer_id }, now);
            &&& after == node
            &&& effects.len() == 2
            &&& effects[0] == crate::iroh_net::NodeEffectView::Ui(
                crate::tui::UiEventView::PeerDisconnected { peer_id: peer_id@ },
            )
            &&& effects[1] is Ui
            &&& effects[1]->Ui_0 is Info
            &&& effects[1]->Ui_0->Info_0.len() >= 11
            &&& effects[1]->Ui_0->Info_0.take(11) == "Peer left: "@
            &&& crate::laws::text::shows(peer_id@, effects[1]->Ui_0->Info_0.skip(11))
        }),
{
    reveal_strlit("Peer joined: ");
    reveal_strlit("Peer left: ");
    crate::laws::text::identifiers_are_cut_behind_17_characters(peer_id@);
    let shown = crate::text::shortened(peer_id@);
    let up = node.stepped(NodeEvent::NeighborUp { peer_id }, now).1[1]->Ui_0->Info_0;
    let down = node.stepped(NodeEvent::NeighborDown { peer_id }, now).1[1]->Ui_0->Info_0;
    assert(up.take(13) =~= "Peer joined: "@);
    assert(up.skip(13) =~= shown);
    assert(down.take(11) =~= "Peer left: "@);
    assert(down.skip(11) =~= shown);
}

/// The node's own appearance among the neighbors has no effect.
pub proof fn own_appearance_has_no_effect(
    node: crate::iroh_net::NodeView,
    peer_id: String,
    now: u64,
)
    requires
        peer_id@ == node.our_id,
    ensures
        node.stepped(NodeEvent::NeighborUp { peer_id }, now).0 == node,
        node.stepped(NodeEvent::NeighborUp { peer_id }, now).1.len() == 0,
        node.stepped(NodeEvent::NeighborDown { peer_id }, now).0 == node,
        node.stepped(NodeEvent::NeighborDown { peer_id }, now).1.len() == 0,
{
}

/// Lost events are warned about, with their number where it is known.
pub proof fn losses_are_warned_about(node: crate::iroh_net::NodeView, missed: u64, now: u64)
    ensures
        ({
            let (after, effects) = node.stepped(NodeEvent::Lagged, now);
            after == node && effects == seq![
                crate::iroh_net::NodeEffectView::Ui(
                    crate::tui::UiEventView::Warn(
                        "Event stream lagged — some events were missed"@,
                    ),
                ),
            ]
        }),
        ({
            let (after, effects) = node.stepped(NodeEvent::ReceiverLagged { missed }, now);
            &&& after == node
            &&& effects.len() == 1
            &&& exists|numeral: Seq<char>|
                #[trigger] crate::laws::text::value(numeral) == missed && numeral.len() > 0 && (
                forall|i: int| 0 <= i < numeral.len() ==> '0' <= #[trigger] numeral[i] <= '9') && (
                numeral[0] == '0' ==> missed == 0) && effects[0]
                    == crate::iroh_net::NodeEffectView::Ui(
                    crate::tui::UiEventView::Warn(
                        "Receiver lagged — missed "@ + numeral + " messages"@,
                    ),
                )
        }),
{
    let numeral = crate::text::decimal(missed as nat);
    crate::laws::text::numerals_stand_for_their_numbers(missed as nat);
    let effects = node.stepped(NodeEvent::ReceiverLagged { missed }, now).1;
    assert(effects[0] == crate::iroh_net::NodeEffectView::Ui(
        crate::tui::UiEventView::Warn("Receiver lagged — missed "@ + numeral + " messages"@),
    ));
}

/// Quitting, the loss of the front-end and the end of the gossip stream stop the node, with a last
/// word to the front-end where there is something to say; the node stays as it was.
pub proof fn stopping_comes_with_its_reason(node: crate::iroh_net::NodeView, now: u64)
    ensures
        node.stepped(NodeEvent::Action(Some(UserAction::Quit)), now) == (
            node,
            seq![
                crate::iroh_net::NodeEffectView::Ui(
                    crate::tui::UiEventView::Info("Shutting down…"@),
                ),
                crate::iroh_net::NodeEffectView::Stop,
            ],
        ),
        node.stepped(NodeEvent::Action(None), now) == (
            node,
            seq![crate::iroh_net::NodeEffectView::Stop],
        ),
        node.stepped(NodeEvent::ReceiverClosed, now) == (
            node,
            seq![
                crate::iroh_net::NodeEffectView::Ui(
                    crate::tui::UiEventView::Warn("Gossip event stream closed"@),
                ),
                crate::iroh_net::NodeEffectView::Stop,
            ],
        ),
{
}

/// A peer is shown by the name that it announced last, whole, and by its shown id where it has
/// announced none.
pub proof fn peers_are_shown_by_their_names(
    node: crate::iroh_net::NodeView,
    peer_id: Seq<char>,
)
    ensures
        node.peer_names.contains_key(peer_id) ==> node.shown_name(peer_id)
            == node.peer_names[peer_id],
        !node.peer_names.contains_key(peer_id) ==> crate::laws::text::shows(
            peer_id,
            node.shown_name(peer_id),
        ),
{
    crate::laws::text::identifiers_are_cut_behind_17_characters(peer_id);
}

/// Through both steps: after a receiver heard a sender announce its name, a text of that sender is
/// shown under that name, whichever neighbors deliver the two messages.
pub proof fn announced_names_appear_with_texts(
    receiver: crate::iroh_net::NodeView,
    announcement: ChatMessage,
    message: ChatMessage,
    announced_by: String,
    delivered_from: String,
    announced_at: u64,
    received_at: u64,
)
    requires
        announced_by@ != receiver.our_id,
        delivered_from@ != receiver.our_id,
        announcement.text@.len() == 0,
        announcement.name@.len() > 0,
        message.text@.len() > 0,
        message.from@ == announcement.from@,
    ensures
        ({
            let introduced = receiver.stepped(
                NodeEvent::Received {
                    delivered_from: announced_by,
                    message: Some(announcement),
                },
                announced_at,
            ).0;
            let effects = introduced.stepped(
                NodeEvent::Received { delivered_from, message: Some(message) },
                received_at,
            ).1;
            &&& effects.len() == 1
            &&& shows_text(effects[0], message.text@)
            &&& shows_sender(effects[0], announcement.name@)
        }),
{
    announced_names_are_learned(
        receiver,
        announced_by,
        announcement,
        announced_at,
        message.from@,
    );
    let introduced = receiver.stepped(
        NodeEvent::Received { delivered_from: announced_by, message: Some(announcement) },
        announced_at,
    ).0;
    received_texts_are_shown(introduced, delivered_from, message, received_at);
}

/// What the front-end is told in notices is the notice itself.
pub proof fn notices_carry_their_text(text: Seq<char>, from: Seq<char>, peer_id: Seq<char>)
    ensures
        crate::iroh_net::info(text) == crate::iroh_net::NodeEffectView::Ui(
            crate::tui::UiEventView::Info(text),
        ),
        crate::iroh_net::warning(text) == crate::iroh_net::NodeEffectView::Ui(
            crate::tui::UiEventView::Warn(text),
        ),
        crate::iroh_net::chat_shown(from, text) == crate::iroh_net::NodeEffectView::Ui(
            crate::tui::UiEventView::ChatMessage { from, text },
        ),
        crate::iroh_net::peer_connected(peer_id) == crate::iroh_net::NodeEffectView::Ui(
            crate::tui::UiEventView::PeerConnected { peer_id, addr: "gossip"@, direct: true },
        ),
{
}

} // verus!
