//! What holds of the router and of its handlers whatever they are asked to
//! do, stated over their mathematical states.

use crate::connection::ConnectionView;
use crate::handler::{ConnectionEvent, HandlerView};
use crate::model::{
    closed_failure, closed_failures, connection_index, dial_failure_report, dial_failure_reports,
    message_ids, next_message_id, BehaviourView,
};
use crate::peer::{ConnectionId, MessageId, OutboundMessageView};
use crate::swarm::ToSwarmView;
use libp2p::Multiaddr;
use vstd::prelude::*;

verus! {

/// The identifier of the message that is accepted `count` messages after the
/// one that got `start`.
pub open spec fn message_id_after(start: MessageId, count: nat) -> MessageId
    decreases count,
{
    if count == 0 {
        start
    } else {
        next_message_id(message_id_after(start, (count - 1) as nat))
    }
}

/// Identifiers count up from the first that was handed out and start over at
/// zero after the largest.
pub proof fn lemma_message_id_after(start: MessageId, count: nat)
    ensures
        message_id_after(start, count) == (start + count) % 0x1_0000_0000_0000_0000,
    decreases count,
{
    if count > 0 {
        lemma_message_id_after(start, (count - 1) as nat);
    }
}

/// A router hands out no identifier twice before it has handed out all of
/// them: two messages with fewer than 2^64 messages between them get
/// different identifiers.
pub proof fn lemma_message_ids_differ(start: MessageId, earlier: nat, later: nat)
    requires
        earlier < later,
        later - earlier < 0x1_0000_0000_0000_0000,
    ensures
        message_id_after(start, earlier) != message_id_after(start, later),
{
    lemma_message_id_after(start, earlier);
    lemma_message_id_after(start, later);
}

/// The messages as they wait for the peer, where the first of them got the
/// identifier `start`.
pub open spec fn numbered<M>(peer: Seq<u8>, start: MessageId, messages: Seq<M>) -> Seq<
    OutboundMessageView<M>,
> {
    Seq::new(
        messages.len(),
        |i: int|
            OutboundMessageView {
                peer_id: peer,
                message_id: message_id_after(start, i as nat),
                message: messages[i],
            },
    )
}

/// Whether the request reports the loss, with its connection, of one of the
/// messages in `pending`, which were for the peer.
pub open spec fn reports_loss_of<M>(
    report: ToSwarmView<M>,
    peer: Seq<u8>,
    pending: Set<MessageId>,
) -> bool {
    exists|m: MessageId| pending.contains(m) && report == #[trigger] closed_failure::<M>(peer, m)
}

impl<M> BehaviourView<M> {
    /// The state after the messages were accepted for the peer, one after the
    /// other.
    pub open spec fn send_all(self, peer: Seq<u8>, messages: Seq<M>) -> Self
        decreases messages.len(),
    {
        if messages.len() == 0 {
            self
        } else {
            self.send_all(peer, messages.drop_last()).send_message(peer, messages.last())
        }
    }
}

/// Messages that are sent to a peer without a connection wait for it in the
/// order in which they were sent, under consecutive identifiers, and the peer
/// stays without a connection.
pub proof fn lemma_sends_without_connection_queue_in_order<M>(
    state: BehaviourView<M>,
    peer: Seq<u8>,
    messages: Seq<M>,
)
    requires
        state.wf(),
        !state.connected.contains_key(peer),
    ensures
        state.send_all(peer, messages).wf(),
        state.send_all(peer, messages).connected == state.connected,
        state.send_all(peer, messages).next_outbound_message_id == message_id_after(
            state.next_outbound_message_id,
            messages.len(),
        ),
        state.send_all(peer, messages).queued(peer) == state.queued(peer) + numbered(
            peer,
            state.next_outbound_message_id,
            messages,
        ),
    decreases messages.len(),
{
    let start = state.next_outbound_message_id;
    if messages.len() == 0 {
        assert(state.queued(peer) + numbered(peer, start, messages) =~= state.queued(peer));
    } else {
        let earlier = messages.drop_last();
        let before = state.send_all(peer, earlier);
        lemma_sends_without_connection_queue_in_order(state, peer, earlier);
        before.lemma_send_message_wf(peer, messages.last());
        let after = before.send_message(peer, messages.last());
        assert(after.queued(peer) == before.queued(peer).push(
            OutboundMessageView {
                peer_id: peer,
                message_id: before.next_outbound_message_id,
                message: messages.last(),
            },
        ));
        assert(numbered(peer, start, messages) =~= numbered(peer, start, earlier).push(
            OutboundMessageView {
                peer_id: peer,
                message_id: message_id_after(start, earlier.len()),
                message: messages.last(),
            },
        ));
        assert(after.queued(peer) =~= state.queued(peer) + numbered(peer, start, messages));
    }
}

/// A connection that is established takes every message that waited for its
/// peer, all at once: the messages stand in its handler in the order in which
/// they were sent, each of them is pending on the connection, and none of them
/// waits any more.
pub proof fn lemma_new_connection_takes_the_queue<M>(
    state: BehaviourView<M>,
    handler: HandlerView<M>,
    peer: Seq<u8>,
    id: ConnectionId,
    remote_address: Option<Multiaddr>,
)
    requires
        state.wf(),
    ensures
        state.flush_into(handler, peer).pending_outbound == handler.pending_outbound
            + state.queued(peer),
        state.connection_established(peer, id, remote_address).queued(peer)
            == Seq::<OutboundMessageView<M>>::empty(),
        state.connection_established(peer, id, remote_address).connections(peer).last() == (
        ConnectionView {
            id,
            remote_address,
            pending_messages: message_ids(state.queued(peer)).to_set(),
        }),
        forall|i: int|
            0 <= i < state.queued(peer).len() ==> state.connection_established(
                peer,
                id,
                remote_address,
            ).connections(peer).last().pending_messages.contains(
                #[trigger] state.queued(peer)[i].message_id,
            ),
{
    let ids = message_ids(state.queued(peer));
    assert forall|i: int| 0 <= i < state.queued(peer).len() implies ids.to_set().contains(
        #[trigger] state.queued(peer)[i].message_id,
    ) by {
        assert(ids[i] == state.queued(peer)[i].message_id);
    }
}

/// Sends to a peer without a connection, followed by a connection: the
/// handler of the connection gets the messages that waited before and then
/// the messages that were sent, each group in the order in which it was sent.
pub proof fn lemma_queue_then_flush<M>(
    state: BehaviourView<M>,
    handler: HandlerView<M>,
    peer: Seq<u8>,
    messages: Seq<M>,
)
    requires
        state.wf(),
        !state.connected.contains_key(peer),
    ensures
        state.send_all(peer, messages).flush_into(handler, peer).pending_outbound
            == handler.pending_outbound + state.queued(peer) + numbered(
            peer,
            state.next_outbound_message_id,
            messages,
        ),
{
    lemma_sends_without_connection_queue_in_order(state, peer, messages);
    let sent = numbered(peer, state.next_outbound_message_id, messages);
    assert(handler.pending_outbound + (state.queued(peer) + sent) =~= handler.pending_outbound
        + state.queued(peer) + sent);
}

/// A message for a connected peer goes to the connection whose place in the
/// peer's list is the remainder of the message's identifier by the number of
/// the peer's connections. It is pending there and nowhere else, and the list
/// keeps its connections and their order.
pub proof fn lemma_route_by_remainder<M>(state: BehaviourView<M>, peer: Seq<u8>, message: M)
    requires
        state.wf(),
        state.connected.contains_key(peer),
    ensures
        ({
            let id = state.next_outbound_message_id;
            let list = state.connected[peer];
            let ix = (id as int) % (list.len() as int);
            let after = state.send_message(peer, message);
            &&& 0 <= ix < list.len()
            &&& after.pending_events == state.pending_events.push(
                ToSwarmView::NotifyHandler {
                    peer_id: peer,
                    connection_id: list[ix].id,
                    event: OutboundMessageView { peer_id: peer, message_id: id, message },
                },
            )
            &&& after.connections(peer).len() == list.len()
            &&& after.connections(peer)[ix].pending_messages == list[ix].pending_messages.insert(
                id,
            )
            &&& forall|j: int|
                0 <= j < list.len() ==> (#[trigger] after.connections(peer)[j]).id == list[j].id
            &&& forall|j: int|
                0 <= j < list.len() && j != ix ==> #[trigger] after.connections(peer)[j] == list[j]
            &&& after.pending_outbound_messages == state.pending_outbound_messages
        }),
{
    let list = state.connected[peer];
    assert(list.len() > 0);
}

/// Every message for a peer with exactly one connection goes to that
/// connection, whatever its identifier, and the peer still has exactly that
/// one connection afterwards.
pub proof fn lemma_single_connection_takes_every_message<M>(
    state: BehaviourView<M>,
    peer: Seq<u8>,
    message: M,
)
    requires
        state.wf(),
        state.connections(peer).len() == 1,
    ensures
        ({
            let id = state.next_outbound_message_id;
            let only = state.connected[peer][0];
            let after = state.send_message(peer, message);
            &&& after.pending_events == state.pending_events.push(
                ToSwarmView::NotifyHandler {
                    peer_id: peer,
                    connection_id: only.id,
                    event: OutboundMessageView { peer_id: peer, message_id: id, message },
                },
            )
            &&& after.connections(peer).len() == 1
            &&& after.connections(peer)[0] == (ConnectionView {
                pending_messages: only.pending_messages.insert(id),
                ..only
            })
        }),
{
    lemma_route_by_remainder(state, peer, message);
}

/// Closing a connection reports one failure for each message that was pending
/// on it: as many reports as pending messages, each pending message in exactly
/// one of them, and nothing else reported.
pub proof fn lemma_close_reports_each_pending_once<M>(
    state: BehaviourView<M>,
    after: BehaviourView<M>,
    peer: Seq<u8>,
    id: ConnectionId,
)
    requires
        state.wf(),
        state.tracks(peer, id),
        state.connection_closed(after, peer, id),
    ensures
        ({
            let pending = state.connected[peer][connection_index(
                state.connected[peer],
                id,
            )].pending_messages;
            let reports = after.pending_events.skip(state.pending_events.len() as int);
            &&& pending.finite()
            &&& after.pending_events.take(state.pending_events.len() as int)
                == state.pending_events
            &&& reports.len() == pending.len()
            &&& forall|i: int|
                0 <= i < reports.len() ==> reports_loss_of(#[trigger] reports[i], peer, pending)
            &&& forall|m: MessageId|
                pending.contains(m) ==> reports.contains(#[trigger] closed_failure::<M>(peer, m))
            &&& reports.no_duplicates()
        }),
{
    BehaviourView::<M>::lemma_first_connection_exists(state.connected[peer], id);
    let pending = state.connected[peer][connection_index(
        state.connected[peer],
        id,
    )].pending_messages;
    let reports = after.pending_events.skip(state.pending_events.len() as int);
    let ids = choose|ids: Seq<MessageId>|
        {
            &&& ids.no_duplicates()
            &&& ids.to_set() == pending
            &&& #[trigger] after.pending_events_after_close(state, peer, ids)
        };
    assert(reports =~= closed_failures::<M>(peer, ids));
    assert(after.pending_events.take(state.pending_events.len() as int) =~= state.pending_events);
    vstd::seq_lib::seq_to_set_is_finite(ids);
    ids.unique_seq_to_set();
    assert(pending.finite());
    assert(reports.len() == pending.len());
    assert forall|i: int| 0 <= i < reports.len() implies reports_loss_of(
        #[trigger] reports[i],
        peer,
        pending,
    ) by {
        assert(ids.contains(ids[i]));
        assert(pending.contains(ids[i]) && reports[i] == closed_failure::<M>(peer, ids[i]));
    }
    assert forall|m: MessageId| pending.contains(m) implies reports.contains(
        #[trigger] closed_failure::<M>(peer, m),
    ) by {
        assert(ids.contains(m));
        let i = choose|i: int| 0 <= i < ids.len() && ids[i] == m;
        assert(0 <= i < reports.len() && reports[i] == closed_failure::<M>(peer, m));
    }
    assert forall|i: int, j: int|
        0 <= i < reports.len() && 0 <= j < reports.len() && i != j implies reports[i]
        != reports[j] by {
        assert(ids[i] != ids[j]);
        assert(reports[i] == closed_failure::<M>(peer, ids[i]));
        assert(reports[j] == closed_failure::<M>(peer, ids[j]));
    }
}

/// A failed attempt to connect to a peer reports one failure for each message
/// that waited for the peer, in the order in which they were sent, and leaves
/// none waiting. The connections, and what is pending on them, stay as they
/// are, as do the messages that wait for other peers.
pub proof fn lemma_dial_failure_reports_each_queued<M>(state: BehaviourView<M>, peer: Seq<u8>)
    requires
        state.wf(),
    ensures
        ({
            let after = state.dial_failure(Some(peer));
            let waiting = state.queued(peer);
            let reports = after.pending_events.skip(state.pending_events.len() as int);
            &&& after.pending_events.take(state.pending_events.len() as int)
                == state.pending_events
            &&& reports.len() == waiting.len()
            &&& forall|i: int|
                0 <= i < waiting.len() ==> #[trigger] reports[i] == dial_failure_report::<M>(
                    peer,
                    waiting[i].message_id,
                )
            &&& after.queued(peer) == Seq::<OutboundMessageView<M>>::empty()
            &&& after.connected == state.connected
            &&& forall|other: Seq<u8>| other != peer ==> #[trigger] after.queued(other) == state.queued(other)
        }),
{
    let after = state.dial_failure(Some(peer));
    let waiting = state.queued(peer);
    assert(after.pending_events.skip(state.pending_events.len() as int) =~= dial_failure_reports(
        peer,
        waiting,
    ));
    assert(after.pending_events.take(state.pending_events.len() as int) =~= state.pending_events);
}

impl<M> HandlerView<M> {
    /// The state after `count` polls during which no task finished.
    pub open spec fn poll_idle(self, count: nat) -> Self
        decreases count,
    {
        if count == 0 {
            self
        } else {
            self.poll_idle((count - 1) as nat).poll(false)
        }
    }
}

/// A handler with no event to hand out asks for one substream for each waiting
/// message, in the order in which the messages were accepted: after `count`
/// polls the oldest `count` waiting messages stand behind the requests that
/// were open before, in that order, and the others still wait.
pub proof fn lemma_requests_follow_acceptance_order<M>(handler: HandlerView<M>, count: nat)
    requires
        handler.pending_events.len() == 0,
        count <= handler.pending_outbound.len(),
    ensures
        handler.poll_idle(count).requested_outbound == handler.requested_outbound
            + handler.pending_outbound.take(count as int),
        handler.poll_idle(count).pending_outbound == handler.pending_outbound.skip(count as int),
        handler.poll_idle(count).pending_events == handler.pending_events,
    decreases count,
{
    if count == 0 {
        assert(handler.requested_outbound + handler.pending_outbound.take(0)
            =~= handler.requested_outbound);
        assert(handler.pending_outbound.skip(0) =~= handler.pending_outbound);
    } else {
        let earlier = (count - 1) as nat;
        lemma_requests_follow_acceptance_order(handler, earlier);
        let before = handler.poll_idle(earlier);
        let after = before.poll(false);
        assert(before.pending_outbound[0] == handler.pending_outbound[earlier as int]);
        assert(after.requested_outbound =~= handler.requested_outbound
            + handler.pending_outbound.take(count as int));
        assert(after.pending_outbound =~= handler.pending_outbound.skip(count as int));
    }
}

/// Every answer to a substream request, a negotiated stream or a failure of
/// whatever kind, settles the oldest open request and no other: the requests
/// behind it stay, in their order.
pub proof fn lemma_answer_settles_oldest_request<M>(handler: HandlerView<M>, event: ConnectionEvent)
    requires
        handler.requested_outbound.len() > 0,
        event is FullyNegotiatedOutbound || event is DialUpgradeError,
    ensures
        handler.connection_event(event).requested_outbound
            == handler.requested_outbound.drop_first(),
{
}

} // verus!
