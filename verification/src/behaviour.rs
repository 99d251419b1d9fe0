//! The router: which connections each peer has, which messages wait for a
//! connection, and where each message goes.

use crate::config::Config;
use crate::connection::{
    clone_address, list_get, list_get_mut, list_len, list_new, list_position, list_push,
    list_remove, Connection, ConnectionList, ConnectionView,
};
use crate::error::Error;
use crate::event::Event;
use crate::handler::{clone_protocol, message_views, Handler, HandlerView};
use crate::model::{
    closed_failures, connection_index, dial_failure_reports, has_connection, message_ids,
    next_message_id, BehaviourView,
};
use crate::peer::{ConnectionId, MessageId, OutboundMessage, OutboundMessageView, PeerId};
use crate::peer_map::PeerMap;
use crate::queue::{queue_capacity, shrink_if_oversized};
use crate::swarm::{
    peer_view, request_views, AddressChange, ConnectionClosed, DialFailure, FromSwarm, ToSwarm,
};
use vstd::std_specs::hash::spec_hash_keys_iter;
use vstd::std_specs::iter::IteratorSpec;
use libp2p::swarm::ConnectionDenied;
use libp2p::{Multiaddr, StreamProtocol};
use std::collections::VecDeque;
use vstd::prelude::*;

verus! {

broadcast use vstd::std_specs::hash::group_hash_axioms;

/// The connections of each peer, as the contracts see them.
pub open spec fn connected_views(map: Map<Seq<u8>, ConnectionList>) -> Map<
    Seq<u8>,
    Seq<ConnectionView>,
> {
    Map::new(|p: Seq<u8>| map.contains_key(p), |p: Seq<u8>| map[p]@)
}

/// The waiting messages of each peer, as the contracts see them.
pub open spec fn queue_views<M>(map: Map<Seq<u8>, Vec<OutboundMessage<M>>>) -> Map<
    Seq<u8>,
    Seq<OutboundMessageView<M>>,
> {
    Map::new(|p: Seq<u8>| map.contains_key(p), |p: Seq<u8>| message_views(map[p]@))
}

/// The router.
pub struct Behaviour<M> {
    protocol: StreamProtocol,
    config: Config,
    pending_events: VecDeque<ToSwarm<M>>,
    pending_outbound_messages: PeerMap<Vec<OutboundMessage<M>>>,
    connected: PeerMap<ConnectionList>,
    next_outbound_message_id: MessageId,
}

impl<M> View for Behaviour<M> {
    type V = BehaviourView<M>;

    closed spec fn view(&self) -> BehaviourView<M> {
        BehaviourView {
            protocol: self.protocol,
            config: self.config,
            next_outbound_message_id: self.next_outbound_message_id,
            connected: connected_views(self.connected@),
            pending_outbound_messages: queue_views(self.pending_outbound_messages@),
            pending_events: request_views(self.pending_events@),
        }
    }
}

impl<M> Behaviour<M> {
    /// What holds of every router between two calls: its state is well formed,
    /// and so are the maps that hold it.
    pub closed spec fn wf(&self) -> bool {
        &&& self.connected.wf()
        &&& self.pending_outbound_messages.wf()
        &&& self@.wf()
    }

    /// The state of a well-formed router is well formed.
    pub proof fn lemma_wf_view(&self)
        requires
            self.wf(),
        ensures
            self@.wf(),
    {
    }

    /// A router for the protocol, with no peer connected and nothing queued.
    pub fn new(protocol: StreamProtocol, config: Config) -> (behaviour: Self)
        ensures
            behaviour.wf(),
            behaviour@ == BehaviourView::<M>::init(protocol, config),
    {
        let behaviour = Behaviour {
            protocol,
            config,
            pending_events: VecDeque::new(),
            pending_outbound_messages: PeerMap::new(),
            connected: PeerMap::new(),
            next_outbound_message_id: 0,
        };
        proof {
            assert(behaviour@.connected =~= Map::empty());
            assert(behaviour@.pending_outbound_messages =~= Map::empty());
            assert(behaviour@.pending_events =~= Seq::empty());
        }
        behaviour
    }

    /// Hands out the next message identifier.
    fn next_outbound_message_id(&mut self) -> (id: MessageId)
        requires
            old(self).wf(),
        ensures
            final(self).wf(),
            id == old(self)@.next_outbound_message_id,
            final(self)@ == (BehaviourView {
                next_outbound_message_id: next_message_id(id),
                ..old(self)@
            }),
    {
        let request_id = self.next_outbound_message_id;
        self.next_outbound_message_id = self.next_outbound_message_id.wrapping_add(1);
        proof {
            assert(self@.connected == old(self)@.connected);
            assert(self@.pending_outbound_messages == old(self)@.pending_outbound_messages);
            assert(self@.wf());
        }
        request_id
    }

    /// Hands the message to a connection of its peer, if the peer has one.
    /// Otherwise the message comes back.
    fn try_send_request(&mut self, message: OutboundMessage<M>) -> (back: Option<
        OutboundMessage<M>,
    >)
        requires
            old(self).wf(),
        ensures
            match back {
                Some(returned) => {
                    &&& returned == message
                    &&& !old(self)@.connected.contains_key(message.peer_id@)
                    &&& *final(self) == *old(self)
                },
                None => {
                    &&& old(self)@.connected.contains_key(message.peer_id@)
                    &&& final(self)@ == old(self)@.dispatch(message@)
                    &&& final(self).connected.wf()
                    &&& final(self).pending_outbound_messages.wf()
                },
            },
    {
        if self.connected.contains_key(&message.peer_id) {
            let ghost peer = message.peer_id@;
            let ghost before = self.connected@;
            assert(self@.connected.contains_key(peer));
            assert(before[peer]@.len() > 0);
            let connections = self.connected.get_mut(&message.peer_id);
            let ghost list_before = *connections;
            let len: usize = list_len(connections);
            let ix: usize = (message.message_id % (len as u64)) as usize;
            let connection = list_get_mut(connections, ix);
            let ghost connection_before = *connection;
            connection.pending_messages.insert(message.message_id);
            let connection_id = connection.id;
            proof {
                let list_after = self.connected@[peer];
                assert(self.connected@ == before.insert(peer, list_after));
                assert(list_after@ =~= list_before@.update(
                    ix as int,
                    ConnectionView {
                        pending_messages: connection_before@.pending_messages.insert(
                            message.message_id,
                        ),
                        ..connection_before@
                    },
                ));
                assert(connected_views(self.connected@) =~= connected_views(before).insert(
                    peer,
                    list_after@,
                ));
            }
            let peer_id = message.peer_id.clone();
            let request = ToSwarm::NotifyHandler { peer_id, connection_id, event: message };
            self.pending_events.push_back(request);
            proof {
                assert(request_views(self.pending_events@) =~= request_views(
                    old(self).pending_events@,
                ).push(request@));
            }
            None
        } else {
            Some(message)
        }
    }

    /// Accepts a message for the peer and returns the identifier under which
    /// its outcome will be reported.
    ///
    /// Where the peer is connected, the message goes to one of its
    /// connections at once. Where it is not, the message waits and the
    /// network is asked to connect.
    pub fn send_message(&mut self, peer_id: PeerId, message: M) -> (id: MessageId)
        requires
            old(self).wf(),
        ensures
            final(self).wf(),
            id == old(self)@.next_outbound_message_id,
            final(self)@ == old(self)@.send_message(peer_id@, message),
    {
        let message_id = self.next_outbound_message_id();
        let ghost allocated = self@;
        let ghost outbound = OutboundMessageView { peer_id: peer_id@, message_id, message };
        let dial_peer = peer_id.clone();
        let message = OutboundMessage { peer_id, message_id, message };

        if let Some(message) = self.try_send_request(message) {
            let request = ToSwarm::Dial { peer_id: dial_peer };
            self.pending_events.push_back(request);
            proof {
                assert(request_views(self.pending_events@) =~= allocated.pending_events.push(
                    request@,
                ));
            }
            let ghost queues = self.pending_outbound_messages@;
            if self.pending_outbound_messages.contains_key(&message.peer_id) {
                assert(allocated.pending_outbound_messages.contains_key(outbound.peer_id));
                let queue = self.pending_outbound_messages.get_mut(&message.peer_id);
                let ghost queue_before = queue@;
                queue.push(message);
                proof {
                    let queue_after = self.pending_outbound_messages@[outbound.peer_id];
                    assert(message_views(queue_after@) =~= message_views(queue_before).push(
                        outbound,
                    ));
                    assert(queue_views(self.pending_outbound_messages@) =~= queue_views(
                        queues,
                    ).insert(outbound.peer_id, message_views(queue_after@)));
                }
            } else {
                assert(!allocated.pending_outbound_messages.contains_key(outbound.peer_id));
                let key = message.peer_id.clone();
                let mut queue: Vec<OutboundMessage<M>> = Vec::new();
                queue.push(message);
                proof {
                    assert(message_views(queue@) =~= Seq::empty().push(outbound));
                }
                self.pending_outbound_messages.insert(key, queue);
                proof {
                    assert(queue_views(self.pending_outbound_messages@) =~= queue_views(
                        queues,
                    ).insert(outbound.peer_id, message_views(queue@)));
                }
            }
            proof {
                assert(self@ == allocated.enqueue(outbound));
            }
        }
        proof {
            old(self)@.lemma_send_message_wf(peer_id@, outbound.message);
        }
        message_id
    }

    /// Takes note of a connection that was just established, and gives its
    /// handler every message that waited for the peer, in the order in which
    /// they were sent. Each of them is pending on the connection from then on.
    pub fn on_connection_established(
        &mut self,
        handler: &mut Handler<M>,
        peer_id: PeerId,
        connection_id: ConnectionId,
        remote_address: Option<Multiaddr>,
    )
        requires
            old(self).wf(),
        ensures
            final(self).wf(),
            final(self)@ == old(self)@.connection_established(
                peer_id@,
                connection_id,
                remote_address,
            ),
            final(handler)@ == old(self)@.flush_into(old(handler)@, peer_id@),
    {
        let ghost before = self@;
        let ghost peer = peer_id@;
        let ghost queues = self.pending_outbound_messages@;
        let ghost lists = self.connected@;
        let ghost held = handler@.pending_outbound;
        let mut connection = Connection::new(connection_id, remote_address);

        let removed = self.pending_outbound_messages.remove(&peer_id);
        proof {
            assert(queue_views(self.pending_outbound_messages@) =~= queue_views(queues).remove(peer));
        }
        match removed {
            Some(pending_messages) => {
                let ghost queue = pending_messages@;
                assert(before.queued(peer) == message_views(queue));
                proof {
                    assert(message_ids(message_views(queue.take(0))).to_set() =~= Set::empty());
                    assert(held + message_views(queue.take(0)) =~= held);
                }
                for message in iter: pending_messages.into_iter()
                    invariant
                        iter.seq() == queue,
                        connection@ == (ConnectionView {
                            id: connection_id,
                            remote_address,
                            pending_messages: message_ids(
                                message_views(queue.take(iter.index() as int)),
                            ).to_set(),
                        }),
                        handler@ == (HandlerView {
                            pending_outbound: held + message_views(queue.take(iter.index() as int)),
                            ..old(handler)@
                        }),
                {
                    let ghost done = queue.take(iter.index() as int);
                    let ghost next = queue.take(iter.index() + 1);
                    proof {
                        assert(next =~= done.push(message));
                        assert(message_views(next) =~= message_views(done).push(message@));
                        assert(message_ids(message_views(next)) =~= message_ids(
                            message_views(done),
                        ).push(message.message_id));
                        message_ids(message_views(done)).lemma_push_to_set_commute(
                            message.message_id,
                        );
                        assert(held + message_views(next) =~= (held + message_views(done)).push(
                            message@,
                        ));
                    }
                    connection.pending_messages.insert(message.message_id);
                    handler.on_behaviour_event(message);
                }
                proof {
                    assert(queue.take(queue.len() as int) =~= queue);
                }
            },
            None => {
                proof {
                    assert(message_ids(before.queued(peer)).to_set() =~= Set::empty());
                    assert(held + before.queued(peer) =~= held);
                }
            },
        }

        if self.connected.contains_key(&peer_id) {
            let list = self.connected.get_mut(&peer_id);
            let ghost list_before = list@;
            list_push(list, connection);
            proof {
                let list_after = self.connected@[peer];
                assert(list_after@ =~= list_before.push(connection@));
                assert(connected_views(self.connected@) =~= connected_views(lists).insert(
                    peer,
                    list_after@,
                ));
            }
        } else {
            let mut list = list_new();
            list_push(&mut list, connection);
            proof {
                assert(list@ =~= Seq::empty().push(connection@));
            }
            self.connected.insert(peer_id, list);
            proof {
                assert(connected_views(self.connected@) =~= connected_views(lists).insert(
                    peer,
                    list@,
                ));
            }
        }
        proof {
            assert(self@ == before.connection_established(peer, connection_id, remote_address));
            before.lemma_connection_established_wf(peer, connection_id, remote_address);
        }
    }

    /// Takes note that a tracked connection went away, and reports as failed
    /// every message that was pending on it.
    pub fn on_connection_closed(&mut self, closed: ConnectionClosed)
        requires
            old(self).wf(),
            old(self)@.tracks(closed.peer_id@, closed.connection_id),
        ensures
            final(self).wf(),
            old(self)@.connection_closed(final(self)@, closed.peer_id@, closed.connection_id),
    {
        let ConnectionClosed { peer_id, connection_id, remaining_established: _ } = closed;
        let ghost before = self@;
        let ghost peer = peer_id@;
        let ghost lists = self.connected@;
        let ghost list_before = lists[peer]@;
        proof {
            BehaviourView::<M>::lemma_first_connection_exists(list_before, connection_id);
        }

        let connections = self.connected.get_mut(&peer_id);
        let position = list_position(connections, connection_id);
        let ix: usize = position.unwrap();
        proof {
            BehaviourView::<M>::lemma_first_connection_unique(
                list_before,
                connection_id,
                ix as int,
            );
        }
        let connection = list_remove(connections, ix);
        let now_empty = list_len(connections) == 0;
        proof {
            let list_after = self.connected@[peer];
            assert(list_after@ =~= list_before.remove(ix as int));
            assert(connected_views(self.connected@) =~= connected_views(lists).insert(
                peer,
                list_after@,
            ));
        }
        if now_empty {
            let ghost with_empty = self.connected@;
            let _ = self.connected.remove(&peer_id);
            proof {
                assert(connected_views(self.connected@) =~= connected_views(with_empty).remove(
                    peer,
                ));
                assert(connected_views(self.connected@) =~= before.connected.remove(peer));
            }
        }
        let ghost ids: Seq<MessageId> = spec_hash_keys_iter(
            &connection.pending_messages,
        ).remaining().unref();
        proof {
            assert(before.pending_events + closed_failures::<M>(peer, ids.take(0))
                =~= before.pending_events);
        }
        for message_id in iter: connection.pending_messages.iter()
            invariant
                ids == iter.seq().unref(),
                peer == peer_id@,
                request_views(self.pending_events@) == before.pending_events + closed_failures::<M>(
                    peer,
                    ids.take(iter.index() as int),
                ),
                connected_views(self.connected@) == if now_empty {
                    before.connected.remove(peer)
                } else {
                    before.connected.insert(peer, list_before.remove(ix as int))
                },
                self.connected.wf(),
                self.pending_outbound_messages == old(self).pending_outbound_messages,
                self.protocol == old(self).protocol,
                self.config == old(self).config,
                self.next_outbound_message_id == old(self).next_outbound_message_id,
        {
            let ghost queue_before = self.pending_events@;
            let request = ToSwarm::GenerateEvent(
                Event::InboundFailure {
                    peer_id: peer_id.clone(),
                    message_id: *message_id,
                    error: Error::ConnectionClosed,
                },
            );
            self.pending_events.push_back(request);
            proof {
                assert(request_views(self.pending_events@) =~= request_views(queue_before).push(
                    request@,
                ));
                let done = ids.take(iter.index() as int);
                let next = ids.take(iter.index() + 1);
                assert(next =~= done.push(*message_id));
                assert(closed_failures::<M>(peer, next) =~= closed_failures::<M>(peer, done).push(
                    request@,
                ));
                assert(before.pending_events + closed_failures::<M>(peer, next) =~= (
                before.pending_events + closed_failures::<M>(peer, done)).push(request@));
            }
        }
        proof {
            assert(ids.take(ids.len() as int) =~= ids);
            assert(self@.pending_events_after_close(before, peer, ids));
            assert(before.connection_closed(self@, peer, connection_id));
            before.lemma_connection_closed_wf(self@, peer, connection_id);
        }
    }

    /// Takes note of the new address of a connection's remote end. A peer or
    /// connection that is not tracked is passed over.
    pub fn on_address_change(&mut self, address_change: AddressChange)
        requires
            old(self).wf(),
        ensures
            final(self).wf(),
            final(self)@ == old(self)@.address_change(
                address_change.peer_id@,
                address_change.connection_id,
                address_change.new,
            ),
    {
        let AddressChange { peer_id, connection_id, new } = address_change;
        let ghost before = self@;
        let ghost peer = peer_id@;
        let ghost lists = self.connected@;
        if self.connected.contains_key(&peer_id) {
            let ghost list_before = lists[peer]@;
            let connections = self.connected.get_mut(&peer_id);
            match list_position(connections, connection_id) {
                Some(ix) => {
                    proof {
                        BehaviourView::<M>::lemma_first_connection_unique(
                            list_before,
                            connection_id,
                            ix as int,
                        );
                    }
                    let connection = list_get_mut(connections, ix);
                    connection.remote_address = Some(new);
                    proof {
                        let list_after = self.connected@[peer];
                        assert(list_after@ =~= list_before.update(
                            ix as int,
                            ConnectionView {
                                remote_address: Some(new),
                                ..list_before[ix as int]
                            },
                        ));
                        assert(connected_views(self.connected@) =~= connected_views(
                            lists,
                        ).insert(peer, list_after@));
                    }
                },
                None => {
                    proof {
                        assert(!has_connection(list_before, connection_id));
                        assert(connected_views(self.connected@) =~= before.connected);
                    }
                },
            }
        }
        proof {
            before.lemma_address_change_wf(peer, connection_id, new);
        }
    }

    /// Takes note that an attempt to connect failed, and reports as failed
    /// every message that waited for the peer.
    pub fn on_dial_failure(&mut self, dial_failure: DialFailure)
        requires
            old(self).wf(),
        ensures
            final(self).wf(),
            final(self)@ == old(self)@.dial_failure(peer_view(dial_failure.peer_id)),
    {
        let DialFailure { peer_id } = dial_failure;
        let ghost before = self@;
        if let Some(peer) = peer_id {
            let ghost p = peer@;
            let ghost queues = self.pending_outbound_messages@;
            let removed = self.pending_outbound_messages.remove(&peer);
            proof {
                assert(queue_views(self.pending_outbound_messages@) =~= queue_views(queues).remove(
                    p,
                ));
            }
            match removed {
                Some(pending) => {
                    let ghost queue = pending@;
                    proof {
                        assert(before.queued(p) == message_views(queue));
                        assert(before.pending_events + dial_failure_reports(
                            p,
                            message_views(queue.take(0)),
                        ) =~= before.pending_events);
                    }
                    for request in iter: pending.into_iter()
                        invariant
                            iter.seq() == queue,
                            p == peer@,
                            request_views(self.pending_events@) == before.pending_events
                                + dial_failure_reports(
                                p,
                                message_views(queue.take(iter.index() as int)),
                            ),
                            self.connected == old(self).connected,
                            queue_views(self.pending_outbound_messages@)
                                == before.pending_outbound_messages.remove(p),
                            self.pending_outbound_messages.wf(),
                            self.protocol == old(self).protocol,
                            self.config == old(self).config,
                            self.next_outbound_message_id == old(self).next_outbound_message_id,
                    {
                        let ghost queue_before = self.pending_events@;
                        let ghost done = queue.take(iter.index() as int);
                        let ghost next = queue.take(iter.index() + 1);
                        let report = ToSwarm::GenerateEvent(
                            Event::OutboundFailure {
                                peer_id: peer.clone(),
                                message_id: request.message_id,
                                error: Error::DialFailure,
                            },
                        );
                        self.pending_events.push_back(report);
                        proof {
                            assert(request_views(self.pending_events@) =~= request_views(
                                queue_before,
                            ).push(report@));
                            let made = dial_failure_reports(p, message_views(done));
                            assert(next =~= done.push(request));
                            assert(dial_failure_reports(p, message_views(next)) =~= made.push(
                                report@,
                            ));
                            assert(before.pending_events + dial_failure_reports(
                                p,
                                message_views(next),
                            ) =~= (before.pending_events + made).push(report@));
                        }
                    }
                    proof {
                        assert(queue.take(queue.len() as int) =~= queue);
                    }
                },
                None => {
                    proof {
                        assert(before.pending_events + dial_failure_reports(p, before.queued(p))
                            =~= before.pending_events);
                    }
                },
            }
            proof {
                assert(self@ == before.dial_failure(Some(p)));
            }
        }
        proof {
            before.lemma_dial_failure_wf(peer_view(peer_id));
        }
    }

    /// Passes an event of a connection's handler on to the application. A
    /// message that the event settles is no longer pending on the connection.
    pub fn on_connection_handler_event(
        &mut self,
        peer_id: PeerId,
        connection_id: ConnectionId,
        event: Event<M>,
    )
        requires
            old(self).wf(),
        ensures
            final(self).wf(),
            final(self)@ == old(self)@.connection_handler_event(peer_id@, connection_id, event@),
    {
        let ghost before = self@;
        let ghost peer = peer_id@;
        let ghost lists = self.connected@;
        if let Some(message_id) = event.resolved_message() {
            if self.connected.contains_key(&peer_id) {
                let ghost list_before = lists[peer]@;
                let connections = self.connected.get_mut(&peer_id);
                match list_position(connections, connection_id) {
                    Some(ix) => {
                        proof {
                            BehaviourView::<M>::lemma_first_connection_unique(
                                list_before,
                                connection_id,
                                ix as int,
                            );
                        }
                        let connection = list_get_mut(connections, ix);
                        let _ = connection.pending_messages.remove(&message_id);
                        proof {
                            let list_after = self.connected@[peer];
                            assert(list_after@ =~= list_before.update(
                                ix as int,
                                ConnectionView {
                                    pending_messages: list_before[ix as int].pending_messages.remove(
                                        message_id,
                                    ),
                                    ..list_before[ix as int]
                                },
                            ));
                            assert(connected_views(self.connected@) =~= connected_views(
                                lists,
                            ).insert(peer, list_after@));
                        }
                    },
                    None => {
                        proof {
                            assert(!has_connection(list_before, connection_id));
                            assert(connected_views(self.connected@) =~= before.connected);
                        }
                    },
                }
            }
        }
        let request = ToSwarm::GenerateEvent(event);
        self.pending_events.push_back(request);
        proof {
            assert(request_views(self.pending_events@) =~= before.pending_events.push(request@));
            before.lemma_connection_handler_event_wf(peer, connection_id, event@);
        }
    }

    /// Hands out the oldest request for the network, if there is one.
    pub fn poll(&mut self) -> (request: Option<ToSwarm<M>>)
        requires
            old(self).wf(),
        ensures
            final(self).wf(),
            final(self)@ == old(self)@.poll(),
            match request {
                Some(r) => old(self)@.pending_events.len() > 0 && r@ == old(self)@.pending_events[0],
                None => old(self)@.pending_events.len() == 0,
            },
    {
        let popped = self.pending_events.pop_front();
        match popped {
            Some(request) => {
                proof {
                    assert(request_views(self.pending_events@) =~= request_views(
                        old(self).pending_events@,
                    ).drop_first());
                    assert(self@.connected == old(self)@.connected);
                    assert(self@.pending_outbound_messages == old(self)@.pending_outbound_messages);
                }
                Some(request)
            },
            None => {
                shrink_if_oversized(&mut self.pending_events);
                proof {
                    assert(self@.connected == old(self)@.connected);
                    assert(self@.pending_outbound_messages == old(self)@.pending_outbound_messages);
                }
                None
            },
        }
    }

    /// Takes a report of the network.
    pub fn on_swarm_event(&mut self, event: FromSwarm)
        requires
            old(self).wf(),
            event matches FromSwarm::ConnectionClosed(closed) ==> old(self)@.tracks(
                closed.peer_id@,
                closed.connection_id,
            ),
        ensures
            final(self).wf(),
            match event {
                FromSwarm::ConnectionClosed(closed) => old(self)@.connection_closed(
                    final(self)@,
                    closed.peer_id@,
                    closed.connection_id,
                ),
                FromSwarm::AddressChange(change) => final(self)@ == old(self)@.address_change(
                    change.peer_id@,
                    change.connection_id,
                    change.new,
                ),
                FromSwarm::DialFailure(failure) => final(self)@ == old(self)@.dial_failure(
                    peer_view(failure.peer_id),
                ),
                _ => final(self)@ == old(self)@,
            },
    {
        match event {
            FromSwarm::ConnectionEstablished => {},
            FromSwarm::ConnectionClosed(connection_closed) => {
                self.on_connection_closed(connection_closed)
            },
            FromSwarm::AddressChange(address_change) => self.on_address_change(address_change),
            FromSwarm::DialFailure(dial_failure) => self.on_dial_failure(dial_failure),
            FromSwarm::Other => {},
        }
    }

    /// Makes the handler of a connection that the remote opened, and takes
    /// note of the connection. No connection is turned down.
    pub fn handle_established_inbound_connection(
        &mut self,
        connection_id: ConnectionId,
        peer: PeerId,
        _local_addr: &Multiaddr,
        remote_addr: &Multiaddr,
    ) -> (made: Result<Handler<M>, ConnectionDenied>)
        requires
            old(self).wf(),
        ensures
            final(self).wf(),
            final(self)@ == old(self)@.connection_established(
                peer@,
                connection_id,
                Some(*remote_addr),
            ),
            made matches Ok(handler) && handler@ == old(self)@.new_handler(peer@),
    {
        let mut handler = Handler::new(peer.clone(), clone_protocol(&self.protocol), &self.config);
        self.on_connection_established(
            &mut handler,
            peer,
            connection_id,
            Some(clone_address(remote_addr)),
        );
        proof {
            assert(handler@.pending_outbound =~= old(self)@.queued(peer@));
        }
        Ok(handler)
    }

    /// Makes the handler of a connection that this side opened, and takes
    /// note of the connection. No connection is turned down.
    pub fn handle_established_outbound_connection(
        &mut self,
        connection_id: ConnectionId,
        peer: PeerId,
        remote_addr: &Multiaddr,
        _role_override: libp2p::core::Endpoint,
    ) -> (made: Result<Handler<M>, ConnectionDenied>)
        requires
            old(self).wf(),
        ensures
            final(self).wf(),
            final(self)@ == old(self)@.connection_established(
                peer@,
                connection_id,
                Some(*remote_addr),
            ),
            made matches Ok(handler) && handler@ == old(self)@.new_handler(peer@),
    {
        let mut handler = Handler::new(peer.clone(), clone_protocol(&self.protocol), &self.config);
        self.on_connection_established(
            &mut handler,
            peer,
            connection_id,
            Some(clone_address(remote_addr)),
        );
        proof {
            assert(handler@.pending_outbound =~= old(self)@.queued(peer@));
        }
        Ok(handler)
    }

    /// The protocol that handlers negotiate substreams for.
    pub fn protocol(&self) -> (protocol: &StreamProtocol)
        ensures
            *protocol == self@.protocol,
    {
        &self.protocol
    }

    /// The limits that handlers work under.
    pub fn config(&self) -> (config: &Config)
        ensures
            *config == self@.config,
    {
        &self.config
    }

    /// The identifier that the next message gets.
    pub fn next_message_id(&self) -> (id: MessageId)
        ensures
            id == self@.next_outbound_message_id,
    {
        self.next_outbound_message_id
    }

    /// How many requests wait to be handed to the network.
    pub fn pending_events_len(&self) -> (n: usize)
        ensures
            n == self@.pending_events.len(),
    {
        self.pending_events.len()
    }

    /// How many requests the queue has room for at present: at least as many
    /// as wait in it.
    pub fn pending_events_capacity(&self) -> (capacity: usize)
        ensures
            capacity >= self@.pending_events.len(),
    {
        queue_capacity(&self.pending_events)
    }

    /// Whether the peer has a connection.
    pub fn is_connected(&self, peer_id: &PeerId) -> (b: bool)
        requires
            self.wf(),
        ensures
            b == self@.connected.contains_key(peer_id@),
    {
        self.connected.contains_key(peer_id)
    }

    /// How many connections the peer has.
    pub fn connection_count(&self, peer_id: &PeerId) -> (n: usize)
        requires
            self.wf(),
        ensures
            n == self@.connections(peer_id@).len(),
    {
        match self.connected.get(peer_id) {
            Some(list) => list_len(list),
            None => 0,
        }
    }

    /// The identifier of the peer's connection at a place in its list, if the
    /// list is that long.
    pub fn connection_id_at(&self, peer_id: &PeerId, index: usize) -> (id: Option<ConnectionId>)
        requires
            self.wf(),
        ensures
            id == if index < self@.connections(peer_id@).len() {
                Some(self@.connections(peer_id@)[index as int].id)
            } else {
                None
            },
    {
        match self.connected.get(peer_id) {
            Some(list) => {
                if index < list_len(list) {
                    Some(list_get(list, index).id)
                } else {
                    None
                }
            },
            None => None,
        }
    }

    /// Whether the connection of the peer is tracked.
    pub fn tracks(&self, peer_id: &PeerId, connection_id: ConnectionId) -> (b: bool)
        requires
            self.wf(),
        ensures
            b == self@.tracks(peer_id@, connection_id),
    {
        match self.connected.get(peer_id) {
            Some(list) => {
                let position = list_position(list, connection_id);
                proof {
                    if let Some(ix) = position {
                        BehaviourView::<M>::lemma_first_connection_unique(
                            list@,
                            connection_id,
                            ix as int,
                        );
                    }
                }
                position.is_some()
            },
            None => false,
        }
    }

    /// Whether the message is pending on the connection of the peer. Nothing
    /// is pending on a connection that is not tracked.
    pub fn is_pending(
        &self,
        peer_id: &PeerId,
        connection_id: ConnectionId,
        message_id: MessageId,
    ) -> (b: bool)
        requires
            self.wf(),
        ensures
            b == (self@.tracks(peer_id@, connection_id) && self@.connected[peer_id@][connection_index(
                self@.connected[peer_id@],
                connection_id,
            )].pending_messages.contains(message_id)),
    {
        match self.connected.get(peer_id) {
            Some(list) => match list_position(list, connection_id) {
                Some(ix) => {
                    proof {
                        BehaviourView::<M>::lemma_first_connection_unique(
                            list@,
                            connection_id,
                            ix as int,
                        );
                    }
                    list_get(list, ix).pending_messages.contains(&message_id)
                },
                None => false,
            },
            None => false,
        }
    }

    /// How many messages are pending on the connection of the peer. Nothing is
    /// pending on a connection that is not tracked.
    pub fn pending_count(&self, peer_id: &PeerId, connection_id: ConnectionId) -> (n: usize)
        requires
            self.wf(),
        ensures
            n == if self@.tracks(peer_id@, connection_id) {
                self@.connected[peer_id@][connection_index(
                    self@.connected[peer_id@],
                    connection_id,
                )].pending_messages.len()
            } else {
                0
            },
    {
        match self.connected.get(peer_id) {
            Some(list) => match list_position(list, connection_id) {
                Some(ix) => {
                    proof {
                        BehaviourView::<M>::lemma_first_connection_unique(
                            list@,
                            connection_id,
                            ix as int,
                        );
                    }
                    list_get(list, ix).pending_messages.len()
                },
                None => 0,
            },
            None => 0,
        }
    }

    /// The last address known of the remote end of the peer's connection.
    pub fn remote_address(&self, peer_id: &PeerId, connection_id: ConnectionId) -> (address: Option<
        Multiaddr,
    >)
        requires
            self.wf(),
        ensures
            address == if self@.tracks(peer_id@, connection_id) {
                self@.connected[peer_id@][connection_index(
                    self@.connected[peer_id@],
                    connection_id,
                )].remote_address
            } else {
                None
            },
    {
        match self.connected.get(peer_id) {
            Some(list) => match list_position(list, connection_id) {
                Some(ix) => {
                    proof {
                        BehaviourView::<M>::lemma_first_connection_unique(
                            list@,
                            connection_id,
                            ix as int,
                        );
                    }
                    match &list_get(list, ix).remote_address {
                        Some(address) => Some(clone_address(address)),
                        None => None,
                    }
                },
                None => None,
            },
            None => None,
        }
    }

    /// The identifiers of the messages that wait for a connection to the
    /// peer, oldest first.
    pub fn queued_message_ids(&self, peer_id: &PeerId) -> (ids: Vec<MessageId>)
        requires
            self.wf(),
        ensures
            ids@ == message_ids(self@.queued(peer_id@)),
    {
        let mut ids: Vec<MessageId> = Vec::new();
        match self.pending_outbound_messages.get(peer_id) {
            Some(queue) => {
                let mut i: usize = 0;
                while i < queue.len()
                    invariant
                        i <= queue.len(),
                        ids@ == message_ids(message_views(queue@)).take(i as int),
                    decreases queue.len() - i,
                {
                    ids.push(queue[i].message_id);
                    proof {
                        assert(message_ids(message_views(queue@)).take(i + 1) =~= message_ids(
                            message_views(queue@),
                        ).take(i as int).push(queue@[i as int].message_id));
                    }
                    i = i + 1;
                }
                proof {
                    assert(ids@ =~= message_ids(message_views(queue@)));
                }
            },
            None => {
                proof {
                    assert(ids@ =~= message_ids(self@.queued(peer_id@)));
                }
            },
        }
        ids
    }
}

} // verus!
