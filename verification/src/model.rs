//! The router as a mathematical state, and each of its steps as a function on
//! that state.

use crate::config::Config;
use crate::connection::ConnectionView;
use crate::error::Error;
use crate::event::EventView;
use crate::handler::HandlerView;
use crate::peer::{ConnectionId, MessageId, OutboundMessageView};
use crate::swarm::ToSwarmView;
use libp2p::{Multiaddr, StreamProtocol};
use vstd::prelude::*;

verus! {

/// The identifier handed out after `id`: the next number, and zero after the
/// largest.
pub open spec fn next_message_id(id: MessageId) -> MessageId {
    if id == u64::MAX {
        0
    } else {
        (id + 1) as u64
    }
}

/// The place, in a list of `connections` connections, of the one that carries
/// the message `id`.
pub open spec fn route_index(id: MessageId, connections: nat) -> int
    recommends
        connections > 0,
{
    (id as int) % (connections as int)
}

/// Whether the list holds a connection with the identifier.
pub open spec fn has_connection(list: Seq<ConnectionView>, id: ConnectionId) -> bool {
    exists|i: int| 0 <= i < list.len() && list[i].id == id
}

/// Whether `i` is the place of the first connection with the identifier.
pub open spec fn is_first_connection(list: Seq<ConnectionView>, id: ConnectionId, i: int) -> bool {
    &&& 0 <= i < list.len()
    &&& list[i].id == id
    &&& forall|j: int| 0 <= j < i ==> list[j].id != id
}

/// The place of the first connection with the identifier.
pub open spec fn connection_index(list: Seq<ConnectionView>, id: ConnectionId) -> int
    recommends
        has_connection(list, id),
{
    choose|i: int| is_first_connection(list, id, i)
}

/// The identifiers of the messages in a queue, in order.
pub open spec fn message_ids<M>(queue: Seq<OutboundMessageView<M>>) -> Seq<MessageId> {
    queue.map_values(|m: OutboundMessageView<M>| m.message_id)
}

/// The report that a message was lost with its connection.
pub open spec fn closed_failure<M>(peer: Seq<u8>, id: MessageId) -> ToSwarmView<M> {
    ToSwarmView::GenerateEvent(
        EventView::InboundFailure { peer_id: peer, message_id: id, error: Error::ConnectionClosed },
    )
}

/// The report that a message was not sent because no connection came about.
pub open spec fn dial_failure_report<M>(peer: Seq<u8>, id: MessageId) -> ToSwarmView<M> {
    ToSwarmView::GenerateEvent(
        EventView::OutboundFailure { peer_id: peer, message_id: id, error: Error::DialFailure },
    )
}

/// One report of loss for each of the identifiers, in their order.
pub open spec fn closed_failures<M>(peer: Seq<u8>, ids: Seq<MessageId>) -> Seq<ToSwarmView<M>> {
    ids.map_values(|id: MessageId| closed_failure::<M>(peer, id))
}

/// One report of a failed attempt for each of the messages, in their order.
pub open spec fn dial_failure_reports<M>(
    peer: Seq<u8>,
    queue: Seq<OutboundMessageView<M>>,
) -> Seq<ToSwarmView<M>> {
    queue.map_values(|m: OutboundMessageView<M>| dial_failure_report::<M>(peer, m.message_id))
}

/// The state of a router.
pub ghost struct BehaviourView<M> {
    /// The protocol that handlers negotiate substreams for.
    pub protocol: StreamProtocol,
    /// The limits that handlers work under.
    pub config: Config,
    /// The identifier that the next message gets.
    pub next_outbound_message_id: MessageId,
    /// The connections of each connected peer, first established first.
    pub connected: Map<Seq<u8>, Seq<ConnectionView>>,
    /// The messages that wait for a connection to their peer, oldest first.
    pub pending_outbound_messages: Map<Seq<u8>, Seq<OutboundMessageView<M>>>,
    /// The requests not yet handed to the network, oldest first.
    pub pending_events: Seq<ToSwarmView<M>>,
}

impl<M> BehaviourView<M> {
    /// A connected peer has a connection. Messages wait only for peers without
    /// one, each under the peer that it is for, and no queue is kept empty.
    pub open spec fn wf(self) -> bool {
        &&& forall|p: Seq<u8>| #[trigger]
            self.connected.contains_key(p) ==> self.connected[p].len() > 0
        &&& forall|p: Seq<u8>| #[trigger]
            self.pending_outbound_messages.contains_key(p) ==> {
                &&& !self.connected.contains_key(p)
                &&& self.pending_outbound_messages[p].len() > 0
            }
        &&& forall|p: Seq<u8>, i: int|
            self.pending_outbound_messages.contains_key(p) && 0 <= i
                < self.pending_outbound_messages[p].len()
                ==> (#[trigger] self.pending_outbound_messages[p][i]).peer_id == p
    }

    /// The connections of a peer; none for a peer that is not connected.
    pub open spec fn connections(self, peer: Seq<u8>) -> Seq<ConnectionView> {
        if self.connected.contains_key(peer) {
            self.connected[peer]
        } else {
            Seq::empty()
        }
    }

    /// The messages that wait for a connection to the peer.
    pub open spec fn queued(self, peer: Seq<u8>) -> Seq<OutboundMessageView<M>> {
        if self.pending_outbound_messages.contains_key(peer) {
            self.pending_outbound_messages[peer]
        } else {
            Seq::empty()
        }
    }

    /// Whether the connection of the peer is tracked.
    pub open spec fn tracks(self, peer: Seq<u8>, id: ConnectionId) -> bool {
        self.connected.contains_key(peer) && has_connection(self.connected[peer], id)
    }

    /// A router that has seen nothing yet.
    pub open spec fn init(protocol: StreamProtocol, config: Config) -> Self {
        BehaviourView {
            protocol,
            config,
            next_outbound_message_id: 0,
            connected: Map::empty(),
            pending_outbound_messages: Map::empty(),
            pending_events: Seq::empty(),
        }
    }

    /// The state after a message was handed to a connection of its peer, which
    /// is connected: the message is pending on the connection at
    /// [`route_index`], and that connection's handler is to get it.
    pub open spec fn dispatch(self, outbound: OutboundMessageView<M>) -> Self
        recommends
            self.connected.contains_key(outbound.peer_id),
    {
        let peer = outbound.peer_id;
        let list = self.connected[peer];
        let ix = route_index(outbound.message_id, list.len());
        let connection = list[ix];
        BehaviourView {
            connected: self.connected.insert(
                peer,
                list.update(
                    ix,
                    ConnectionView {
                        pending_messages: connection.pending_messages.insert(outbound.message_id),
                        ..connection
                    },
                ),
            ),
            pending_events: self.pending_events.push(
                ToSwarmView::NotifyHandler {
                    peer_id: peer,
                    connection_id: connection.id,
                    event: outbound,
                },
            ),
            ..self
        }
    }

    /// The state after a message was put in wait for a connection to its
    /// peer: it stands behind those that wait already, and the network is
    /// asked to connect.
    pub open spec fn enqueue(self, outbound: OutboundMessageView<M>) -> Self {
        let peer = outbound.peer_id;
        BehaviourView {
            pending_outbound_messages: self.pending_outbound_messages.insert(
                peer,
                self.queued(peer).push(outbound),
            ),
            pending_events: self.pending_events.push(ToSwarmView::Dial { peer_id: peer }),
            ..self
        }
    }

    /// The state after a message for the peer was accepted.
    ///
    /// The message gets the next identifier. Where the peer is connected, the
    /// message is dispatched; where it is not, the message waits.
    pub open spec fn send_message(self, peer: Seq<u8>, message: M) -> Self {
        let id = self.next_outbound_message_id;
        let outbound = OutboundMessageView { peer_id: peer, message_id: id, message };
        let allocated = BehaviourView { next_outbound_message_id: next_message_id(id), ..self };
        if self.connected.contains_key(peer) {
            allocated.dispatch(outbound)
        } else {
            allocated.enqueue(outbound)
        }
    }

    /// The state after a connection to the peer was established.
    ///
    /// The connection stands behind the peer's other connections. Every
    /// message that waited for the peer is pending on it, and none waits any
    /// more.
    pub open spec fn connection_established(
        self,
        peer: Seq<u8>,
        id: ConnectionId,
        remote_address: Option<Multiaddr>,
    ) -> Self {
        let connection = ConnectionView {
            id,
            remote_address,
            pending_messages: message_ids(self.queued(peer)).to_set(),
        };
        BehaviourView {
            connected: self.connected.insert(peer, self.connections(peer).push(connection)),
            pending_outbound_messages: self.pending_outbound_messages.remove(peer),
            ..self
        }
    }

    /// The handler of a connection that was just established: the messages
    /// that waited for the peer stand in it behind those it held, in the order
    /// in which they were sent.
    pub open spec fn flush_into(self, handler: HandlerView<M>, peer: Seq<u8>) -> HandlerView<M> {
        HandlerView { pending_outbound: handler.pending_outbound + self.queued(peer), ..handler }
    }

    /// The handler that is made for a new connection to the peer: it works
    /// under the router's protocol and limits, and holds the messages that
    /// waited for the peer, in the order in which they were sent.
    pub open spec fn new_handler(self, peer: Seq<u8>) -> HandlerView<M> {
        HandlerView {
            peer_id: peer,
            protocol: self.protocol,
            requested_outbound: Seq::empty(),
            pending_outbound: self.queued(peer),
            pending_events: Seq::empty(),
            max_concurrent_streams: self.config.max_concurrent_streams,
            send_recv_timeout: self.config.send_recv_timeout,
        }
    }

    /// Whether `after` is a state that follows when a tracked connection is
    /// closed.
    ///
    /// The connection, the first of the peer with that identifier, leaves the
    /// peer's list, and the peer leaves with its last connection. For every
    /// message pending on the connection one failure is reported, and no
    /// other; in which order is left open.
    pub open spec fn connection_closed(self, after: Self, peer: Seq<u8>, id: ConnectionId) -> bool
        recommends
            self.tracks(peer, id),
    {
        let list = self.connected[peer];
        let ix = connection_index(list, id);
        let rest = list.remove(ix);
        &&& after.protocol == self.protocol
        &&& after.config == self.config
        &&& after.next_outbound_message_id == self.next_outbound_message_id
        &&& after.pending_outbound_messages == self.pending_outbound_messages
        &&& after.connected == if rest.len() == 0 {
            self.connected.remove(peer)
        } else {
            self.connected.insert(peer, rest)
        }
        &&& exists|ids: Seq<MessageId>|
            {
                &&& ids.no_duplicates()
                &&& ids.to_set() == list[ix].pending_messages
                &&& #[trigger] after.pending_events_after_close(self, peer, ids)
            }
    }

    /// Whether the requests are those of `before`, followed by one failure
    /// report for each of `ids`, in that order.
    pub open spec fn pending_events_after_close(
        self,
        before: Self,
        peer: Seq<u8>,
        ids: Seq<MessageId>,
    ) -> bool {
        self.pending_events == before.pending_events + closed_failures::<M>(peer, ids)
    }

    /// The state after the remote end of a connection changed its address.
    /// An untracked peer or connection changes nothing.
    pub open spec fn address_change(self, peer: Seq<u8>, id: ConnectionId, new: Multiaddr) -> Self {
        if self.tracks(peer, id) {
            let list = self.connected[peer];
            let ix = connection_index(list, id);
            BehaviourView {
                connected: self.connected.insert(
                    peer,
                    list.update(ix, ConnectionView { remote_address: Some(new), ..list[ix] }),
                ),
                ..self
            }
        } else {
            self
        }
    }

    /// The state after an attempt to connect failed.
    ///
    /// Every message that waited for the peer is reported as failed, in the
    /// order in which they were sent, and none waits any more. Connections and
    /// what is pending on them stay as they are.
    pub open spec fn dial_failure(self, peer: Option<Seq<u8>>) -> Self {
        match peer {
            Some(p) => BehaviourView {
                pending_outbound_messages: self.pending_outbound_messages.remove(p),
                pending_events: self.pending_events + dial_failure_reports(p, self.queued(p)),
                ..self
            },
            None => self,
        }
    }

    /// The state after a handler reported an event.
    ///
    /// The event is passed on to the application. Where it settles a message,
    /// the message is no longer pending on the handler's connection.
    pub open spec fn connection_handler_event(
        self,
        peer: Seq<u8>,
        id: ConnectionId,
        event: EventView<M>,
    ) -> Self {
        let pending_events = self.pending_events.push(ToSwarmView::GenerateEvent(event));
        match event.resolved_message() {
            Some(message_id) if self.tracks(peer, id) => {
                let list = self.connected[peer];
                let ix = connection_index(list, id);
                BehaviourView {
                    connected: self.connected.insert(
                        peer,
                        list.update(
                            ix,
                            ConnectionView {
                                pending_messages: list[ix].pending_messages.remove(message_id),
                                ..list[ix]
                            },
                        ),
                    ),
                    pending_events,
                    ..self
                }
            },
            _ => BehaviourView { pending_events, ..self },
        }
    }

    /// The state after a poll: the oldest request has left.
    pub open spec fn poll(self) -> Self {
        if self.pending_events.len() > 0 {
            BehaviourView { pending_events: self.pending_events.drop_first(), ..self }
        } else {
            self
        }
    }
}

impl<M> BehaviourView<M> {
    /// A state stays well formed under a step after which every connected
    /// peer has a connection, and every queue is a queue from before the step,
    /// for a peer that is not connected.
    proof fn lemma_wf_kept(before: Self, after: Self)
        requires
            before.wf(),
            forall|p: Seq<u8>| #[trigger]
                after.connected.contains_key(p) ==> after.connected[p].len() > 0,
            forall|p: Seq<u8>| #[trigger]
                after.pending_outbound_messages.contains_key(p) ==> {
                    &&& before.pending_outbound_messages.contains_key(p)
                    &&& after.pending_outbound_messages[p] == before.pending_outbound_messages[p]
                    &&& !after.connected.contains_key(p)
                },
        ensures
            after.wf(),
    {
        assert forall|p: Seq<u8>, i: int|
            after.pending_outbound_messages.contains_key(p)
                && 0 <= i < after.pending_outbound_messages[p].len() implies
            (#[trigger] after.pending_outbound_messages[p][i]).peer_id == p by {
            assert(after.pending_outbound_messages[p][i] == before.pending_outbound_messages[p][i]);
        }
    }

    /// Dispatching a message keeps the state well formed.
    pub proof fn lemma_dispatch_wf(self, outbound: OutboundMessageView<M>)
        requires
            self.wf(),
            self.connected.contains_key(outbound.peer_id),
        ensures
            self.dispatch(outbound).wf(),
    {
        Self::lemma_wf_kept(self, self.dispatch(outbound));
    }

    /// Putting a message in wait for a peer without a connection keeps the
    /// state well formed.
    pub proof fn lemma_enqueue_wf(self, outbound: OutboundMessageView<M>)
        requires
            self.wf(),
            !self.connected.contains_key(outbound.peer_id),
        ensures
            self.enqueue(outbound).wf(),
    {
        let after = self.enqueue(outbound);
        let peer = outbound.peer_id;
        assert forall|p: Seq<u8>, i: int|
            after.pending_outbound_messages.contains_key(p)
                && 0 <= i < after.pending_outbound_messages[p].len() implies
            (#[trigger] after.pending_outbound_messages[p][i]).peer_id == p by {
            if p != peer || i < self.queued(peer).len() {
                assert(after.pending_outbound_messages[p][i]
                    == self.pending_outbound_messages[p][i]);
            }
        }
    }

    /// Accepting a message keeps the state well formed.
    pub proof fn lemma_send_message_wf(self, peer: Seq<u8>, message: M)
        requires
            self.wf(),
        ensures
            self.send_message(peer, message).wf(),
    {
        let id = self.next_outbound_message_id;
        let outbound = OutboundMessageView { peer_id: peer, message_id: id, message };
        let allocated = BehaviourView { next_outbound_message_id: next_message_id(id), ..self };
        if self.connected.contains_key(peer) {
            allocated.lemma_dispatch_wf(outbound);
        } else {
            allocated.lemma_enqueue_wf(outbound);
        }
    }

    /// Taking note of a new connection keeps the state well formed.
    pub proof fn lemma_connection_established_wf(
        self,
        peer: Seq<u8>,
        id: ConnectionId,
        remote_address: Option<Multiaddr>,
    )
        requires
            self.wf(),
        ensures
            self.connection_established(peer, id, remote_address).wf(),
    {
        Self::lemma_wf_kept(self, self.connection_established(peer, id, remote_address));
    }

    proof fn lemma_first_connection_below(list: Seq<ConnectionView>, id: ConnectionId, i: int)
        requires
            0 <= i < list.len(),
            list[i].id == id,
        ensures
            exists|f: int| is_first_connection(list, id, f),
        decreases i,
    {
        if exists|j: int| 0 <= j < i && list[j].id == id {
            let j = choose|j: int| 0 <= j < i && list[j].id == id;
            Self::lemma_first_connection_below(list, id, j);
        } else {
            assert(is_first_connection(list, id, i));
        }
    }

    /// Among the connections with an identifier, one comes first.
    pub proof fn lemma_first_connection_exists(list: Seq<ConnectionView>, id: ConnectionId)
        requires
            has_connection(list, id),
        ensures
            is_first_connection(list, id, connection_index(list, id)),
    {
        let i = choose|i: int| 0 <= i < list.len() && list[i].id == id;
        Self::lemma_first_connection_below(list, id, i);
    }

    /// The first connection with an identifier stands at one place only.
    pub proof fn lemma_first_connection_unique(list: Seq<ConnectionView>, id: ConnectionId, i: int)
        requires
            is_first_connection(list, id, i),
        ensures
            has_connection(list, id),
            connection_index(list, id) == i,
    {
        let c = connection_index(list, id);
        assert(is_first_connection(list, id, c));
        if c < i {
            assert(list[c].id != id);
        } else if i < c {
            assert(list[i].id != id);
        }
    }

    /// Closing a tracked connection keeps the state well formed.
    pub proof fn lemma_connection_closed_wf(self, after: Self, peer: Seq<u8>, id: ConnectionId)
        requires
            self.wf(),
            self.tracks(peer, id),
            self.connection_closed(after, peer, id),
        ensures
            after.wf(),
    {
        Self::lemma_wf_kept(self, after);
    }

    /// A change of address keeps the state well formed.
    pub proof fn lemma_address_change_wf(self, peer: Seq<u8>, id: ConnectionId, new: Multiaddr)
        requires
            self.wf(),
        ensures
            self.address_change(peer, id, new).wf(),
    {
        if self.tracks(peer, id) {
            Self::lemma_first_connection_exists(self.connected[peer], id);
            Self::lemma_wf_kept(self, self.address_change(peer, id, new));
        }
    }

    /// A failed attempt to connect keeps the state well formed.
    pub proof fn lemma_dial_failure_wf(self, peer: Option<Seq<u8>>)
        requires
            self.wf(),
        ensures
            self.dial_failure(peer).wf(),
    {
        Self::lemma_wf_kept(self, self.dial_failure(peer));
    }

    /// An event of a handler keeps the state well formed.
    pub proof fn lemma_connection_handler_event_wf(
        self,
        peer: Seq<u8>,
        id: ConnectionId,
        event: EventView<M>,
    )
        requires
            self.wf(),
        ensures
            self.connection_handler_event(peer, id, event).wf(),
    {
        if self.tracks(peer, id) {
            Self::lemma_first_connection_exists(self.connected[peer], id);
        }
        Self::lemma_wf_kept(self, self.connection_handler_event(peer, id, event));
    }

    /// Handing out a request keeps the state well formed.
    pub proof fn lemma_poll_wf(self)
        requires
            self.wf(),
        ensures
            self.poll().wf(),
    {
    }
}

} // verus!
