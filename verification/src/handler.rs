//! The state machine of one connection: which queued message each substream
//! request stands for, and what each answer of the network means for it.

use crate::config::Config;
use crate::error::{CodecError, Error};
use crate::event::{Event, EventView};
use crate::peer::{MessageId, OutboundMessage, OutboundMessageView, PeerId};
use crate::queue::{queue_capacity, shrink_if_oversized};
use libp2p::StreamProtocol;
use std::collections::VecDeque;
use std::time::Duration;
use vstd::prelude::*;

verus! {

/// `libp2p::StreamProtocol`, the name under which substreams are negotiated.
/// The library stores and copies the name; it never looks inside one.
#[verifier::external_type_specification]
#[verifier::external_body]
pub struct ExStreamProtocol(StreamProtocol);

/// `Clone::clone` of a `StreamProtocol`: the copy is the same name.
#[verifier::external_body]
pub(crate) fn clone_protocol(protocol: &StreamProtocol) -> (copy: StreamProtocol)
    ensures
        copy == *protocol,
{
    protocol.clone()
}

/// The protocol to negotiate on a substream.
#[derive(Debug, PartialEq, Eq)]
pub struct Protocol<P> {
    pub protocol: P,
}

impl<P> Protocol<P> {
    /// The name to offer to the remote.
    pub fn protocol_info(&self) -> (name: &P)
        ensures
            *name == self.protocol,
    {
        &self.protocol
    }

    /// Gives up the descriptor for the name in it.
    pub fn into_protocol(self) -> (name: P)
        ensures
            name == self.protocol,
    {
        self.protocol
    }
}

/// Why an outbound substream was not negotiated.
#[derive(Debug, Clone, Copy, PartialEq, Eq, Structural)]
pub enum StreamUpgradeError {
    /// The remote did not answer in time.
    Timeout,
    /// The remote does not speak the protocol.
    NegotiationFailed,
    /// The upgrade itself failed after the protocol was agreed on.
    Apply,
    /// The connection failed while negotiating.
    Io,
}

/// What the network reports to a handler about its connection.
#[derive(Debug, Clone, Copy, PartialEq, Eq, Structural)]
pub enum ConnectionEvent {
    /// The remote opened a substream; a message can be read from it.
    FullyNegotiatedInbound,
    /// The substream asked for first is open; its message can be written.
    FullyNegotiatedOutbound,
    /// The substream asked for first could not be opened.
    DialUpgradeError(StreamUpgradeError),
    /// A substream that the remote opened could not be negotiated.
    ListenUpgradeError,
    /// Anything else. It does not concern the handler.
    Other,
}

/// Work on a freshly negotiated substream, to run under the handler's limits.
#[derive(Debug, PartialEq, Eq)]
pub enum Task<M> {
    /// Write the message to the outbound substream.
    Encode { message: OutboundMessage<M> },
    /// Read one message of the peer from the inbound substream.
    Decode { peer_id: PeerId },
}

/// What the pool of running tasks reports when it is polled.
#[derive(Debug, PartialEq, Eq)]
pub enum TaskPoll<M> {
    /// A task finished with this event.
    Ready(Event<M>),
    /// A task ran past its deadline and was dropped.
    TimedOut,
    /// No task has finished.
    Pending,
}

/// What a handler asks for when it is polled.
#[derive(Debug, PartialEq, Eq)]
pub enum ConnectionHandlerEvent<M> {
    /// Pass the event on to the router.
    NotifyBehaviour(Event<M>),
    /// Open an outbound substream for the protocol.
    OutboundSubstreamRequest { protocol: Protocol<StreamProtocol> },
}

/// The views of the messages in a queue, in order.
pub open spec fn message_views<M>(queue: Seq<OutboundMessage<M>>) -> Seq<OutboundMessageView<M>> {
    queue.map_values(|m: OutboundMessage<M>| m@)
}

/// The views of the events in a queue, in order.
pub open spec fn event_views<M>(queue: Seq<Event<M>>) -> Seq<EventView<M>> {
    queue.map_values(|e: Event<M>| e@)
}

/// The handler of one connection.
pub struct Handler<M> {
    peer_id: PeerId,
    protocol: StreamProtocol,
    requested_outbound: VecDeque<OutboundMessage<M>>,
    pending_outbound: VecDeque<OutboundMessage<M>>,
    pending_events: VecDeque<Event<M>>,
    max_concurrent_streams: usize,
    send_recv_timeout: Duration,
}

/// What a [`Handler`] is to the contracts.
pub ghost struct HandlerView<M> {
    /// The peer at the other end of the connection.
    pub peer_id: Seq<u8>,
    /// The protocol that substreams are negotiated for.
    pub protocol: StreamProtocol,
    /// The messages for which a substream was asked and no answer came yet,
    /// oldest request first.
    pub requested_outbound: Seq<OutboundMessageView<M>>,
    /// The messages for which no substream was asked yet, oldest first.
    pub pending_outbound: Seq<OutboundMessageView<M>>,
    /// The events not yet handed to the router, oldest first.
    pub pending_events: Seq<EventView<M>>,
    /// How many tasks may run at once.
    pub max_concurrent_streams: usize,
    /// How long a task may run.
    pub send_recv_timeout: Duration,
}

impl<M> HandlerView<M> {
    /// The state after a message was accepted from the router.
    pub open spec fn behaviour_event(self, message: OutboundMessageView<M>) -> Self {
        HandlerView { pending_outbound: self.pending_outbound.push(message), ..self }
    }

    /// The state after the substream asked for first was negotiated.
    pub open spec fn fully_negotiated_outbound(self) -> Self
        recommends
            self.requested_outbound.len() > 0,
    {
        HandlerView { requested_outbound: self.requested_outbound.drop_first(), ..self }
    }

    /// The state after the substream asked for first failed to open.
    ///
    /// The message of that request leaves the requests. A timeout and a
    /// refusal of the protocol are reported, each with its own error. After
    /// a failure of the connection the message waits for a new request,
    /// behind the messages that wait already. A failed upgrade drops it.
    pub open spec fn dial_upgrade_error(self, error: StreamUpgradeError) -> Self
        recommends
            self.requested_outbound.len() > 0,
    {
        let message = self.requested_outbound[0];
        let rest = self.requested_outbound.drop_first();
        match error {
            StreamUpgradeError::Timeout => HandlerView {
                requested_outbound: rest,
                pending_events: self.pending_events.push(
                    EventView::OutboundFailure {
                        peer_id: self.peer_id,
                        message_id: message.message_id,
                        error: Error::DialUpgradeError,
                    },
                ),
                ..self
            },
            StreamUpgradeError::NegotiationFailed => HandlerView {
                requested_outbound: rest,
                pending_events: self.pending_events.push(
                    EventView::OutboundFailure {
                        peer_id: self.peer_id,
                        message_id: message.message_id,
                        error: Error::ProtocolNotSupported,
                    },
                ),
                ..self
            },
            StreamUpgradeError::Apply => HandlerView { requested_outbound: rest, ..self },
            StreamUpgradeError::Io => HandlerView {
                requested_outbound: rest,
                pending_outbound: self.pending_outbound.push(message),
                ..self
            },
        }
    }

    /// The state after a report of the network.
    pub open spec fn connection_event(self, event: ConnectionEvent) -> Self {
        match event {
            ConnectionEvent::FullyNegotiatedOutbound => self.fully_negotiated_outbound(),
            ConnectionEvent::DialUpgradeError(error) => self.dial_upgrade_error(error),
            _ => self,
        }
    }

    /// The state after a poll, given what the pool of tasks reported.
    ///
    /// A finished or timed-out task is reported and nothing else happens.
    /// Otherwise the oldest pending event leaves; if there is none, the oldest
    /// waiting message moves behind the requests.
    pub open spec fn poll(self, tasks_ready: bool) -> Self {
        if tasks_ready {
            self
        } else if self.pending_events.len() > 0 {
            HandlerView { pending_events: self.pending_events.drop_first(), ..self }
        } else if self.pending_outbound.len() > 0 {
            HandlerView {
                pending_outbound: self.pending_outbound.drop_first(),
                requested_outbound: self.requested_outbound.push(self.pending_outbound[0]),
                ..self
            }
        } else {
            self
        }
    }
}

impl<M> HandlerView<M> {
    /// Whether `task` is the work that a report of the network asks for.
    pub open spec fn connection_event_yields(
        self,
        event: ConnectionEvent,
        task: Option<Task<M>>,
    ) -> bool
        recommends
            event is FullyNegotiatedOutbound ==> self.requested_outbound.len() > 0,
    {
        match event {
            ConnectionEvent::FullyNegotiatedInbound => task matches Some(
                Task::Decode { peer_id },
            ) && peer_id@ == self.peer_id,
            ConnectionEvent::FullyNegotiatedOutbound => task matches Some(
                Task::Encode { message },
            ) && message@ == self.requested_outbound[0],
            _ => task is None,
        }
    }

    /// Whether `out` is what a poll hands out, given what the pool of tasks
    /// reported.
    pub open spec fn poll_yields(
        self,
        tasks: TaskPoll<M>,
        out: Option<ConnectionHandlerEvent<M>>,
    ) -> bool {
        match tasks {
            TaskPoll::Ready(event) => out matches Some(
                ConnectionHandlerEvent::NotifyBehaviour(e),
            ) && e == event,
            TaskPoll::TimedOut => out matches Some(ConnectionHandlerEvent::NotifyBehaviour(e))
                && e@ == EventView::<M>::Error(Error::Timeout),
            TaskPoll::Pending => if self.pending_events.len() > 0 {
                out matches Some(ConnectionHandlerEvent::NotifyBehaviour(e)) && e@
                    == self.pending_events[0]
            } else if self.pending_outbound.len() > 0 {
                out matches Some(ConnectionHandlerEvent::OutboundSubstreamRequest { protocol })
                    && protocol.protocol == self.protocol
            } else {
                out is None
            },
        }
    }
}

/// The event with which an encode task ends: a confirmation for the message
/// that was written, the codec's error where writing failed.
pub fn sent_event<M>(message_id: MessageId, outcome: Result<(), CodecError>) -> (event: Event<M>)
    ensures
        event@ == match outcome {
            Ok(_) => EventView::<M>::MessageSent { message_id },
            Err(error) => EventView::<M>::Error(Error::CodecError(error)),
        },
{
    match outcome {
        Ok(_) => Event::MessageSent { message_id },
        Err(error) => Event::Error(Error::CodecError(error)),
    }
}

/// The event with which a decode task ends: the message that was read, under
/// the peer that sent it, or the codec's error where reading failed.
pub fn received_event<M>(peer_id: PeerId, outcome: Result<M, CodecError>) -> (event: Event<M>)
    ensures
        event@ == match outcome {
            Ok(message) => EventView::ReceivedMessage { peer_id: peer_id@, message },
            Err(error) => EventView::Error(Error::CodecError(error)),
        },
{
    match outcome {
        Ok(message) => Event::ReceivedMessage { peer_id, message },
        Err(error) => Event::Error(Error::CodecError(error)),
    }
}

impl<M> View for Handler<M> {
    type V = HandlerView<M>;

    closed spec fn view(&self) -> HandlerView<M> {
        HandlerView {
            peer_id: self.peer_id@,
            protocol: self.protocol,
            requested_outbound: message_views(self.requested_outbound@),
            pending_outbound: message_views(self.pending_outbound@),
            pending_events: event_views(self.pending_events@),
            max_concurrent_streams: self.max_concurrent_streams,
            send_recv_timeout: self.send_recv_timeout,
        }
    }
}

impl<M> Handler<M> {
    /// A handler for a connection to `peer_id`, with nothing queued.
    pub fn new(peer_id: PeerId, protocol: StreamProtocol, config: &Config) -> (handler: Self)
        ensures
            handler@ == (HandlerView::<M> {
                peer_id: peer_id@,
                protocol,
                requested_outbound: Seq::empty(),
                pending_outbound: Seq::empty(),
                pending_events: Seq::empty(),
                max_concurrent_streams: config.max_concurrent_streams,
                send_recv_timeout: config.send_recv_timeout,
            }),
    {
        let handler = Handler {
            peer_id,
            protocol,
            requested_outbound: VecDeque::new(),
            pending_outbound: VecDeque::new(),
            pending_events: VecDeque::new(),
            max_concurrent_streams: config.max_concurrent_streams,
            send_recv_timeout: config.send_recv_timeout,
        };
        proof {
            assert(handler@.requested_outbound =~= Seq::empty());
            assert(handler@.pending_outbound =~= Seq::empty());
            assert(handler@.pending_events =~= Seq::empty());
        }
        handler
    }

    /// How many tasks may run at once on this connection.
    pub fn max_concurrent_streams(&self) -> (n: usize)
        ensures
            n == self@.max_concurrent_streams,
    {
        self.max_concurrent_streams
    }

    /// How long a task on this connection may run.
    pub fn send_recv_timeout(&self) -> (d: Duration)
        ensures
            d == self@.send_recv_timeout,
    {
        self.send_recv_timeout
    }

    /// The peer at the other end of the connection.
    pub fn peer_id(&self) -> (peer_id: &PeerId)
        ensures
            peer_id@ == self@.peer_id,
    {
        &self.peer_id
    }

    /// The protocol that substreams are negotiated for.
    pub fn protocol(&self) -> (protocol: &StreamProtocol)
        ensures
            *protocol == self@.protocol,
    {
        &self.protocol
    }

    /// How many events wait to be handed to the router.
    pub fn pending_events_len(&self) -> (n: usize)
        ensures
            n == self@.pending_events.len(),
    {
        self.pending_events.len()
    }

    /// How many events the queue has room for at present: at least as many as
    /// wait in it.
    pub fn pending_events_capacity(&self) -> (capacity: usize)
        ensures
            capacity >= self@.pending_events.len(),
    {
        queue_capacity(&self.pending_events)
    }

    /// How many waiting messages the queue has room for at present: at least
    /// as many as wait in it.
    pub fn pending_outbound_capacity(&self) -> (capacity: usize)
        ensures
            capacity >= self@.pending_outbound.len(),
    {
        queue_capacity(&self.pending_outbound)
    }

    /// How many substream requests wait for their answer.
    pub fn requested_outbound_len(&self) -> (n: usize)
        ensures
            n == self@.requested_outbound.len(),
    {
        self.requested_outbound.len()
    }

    /// How many messages wait for a substream request.
    pub fn pending_outbound_len(&self) -> (n: usize)
        ensures
            n == self@.pending_outbound.len(),
    {
        self.pending_outbound.len()
    }

    /// The protocol to offer for substreams that the remote opens.
    pub fn listen_protocol(&self) -> (offer: Protocol<StreamProtocol>)
        ensures
            offer.protocol == self@.protocol,
    {
        Protocol { protocol: clone_protocol(&self.protocol) }
    }

    /// Accepts a message from the router. It waits behind those accepted before.
    pub fn on_behaviour_event(&mut self, msg: OutboundMessage<M>)
        ensures
            final(self)@ == old(self)@.behaviour_event(msg@),
    {
        self.pending_outbound.push_back(msg);
        proof {
            assert(message_views(self.pending_outbound@) =~= message_views(
                old(self).pending_outbound@,
            ).push(msg@));
        }
    }

    /// The substream asked for first is open: its message leaves the requests
    /// and is handed out to be written.
    pub fn on_fully_negotiated_outbound(&mut self) -> (message: OutboundMessage<M>)
        requires
            old(self)@.requested_outbound.len() > 0,
        ensures
            message@ == old(self)@.requested_outbound[0],
            final(self)@ == old(self)@.fully_negotiated_outbound(),
    {
        let popped = self.requested_outbound.pop_front();
        proof {
            assert(message_views(self.requested_outbound@) =~= message_views(
                old(self).requested_outbound@,
            ).drop_first());
        }
        popped.unwrap()
    }

    /// The remote opened a substream: the peer to read a message of.
    pub fn on_fully_negotiated_inbound(&self) -> (peer_id: PeerId)
        ensures
            peer_id@ == self@.peer_id,
    {
        self.peer_id.clone()
    }

    /// The substream asked for first could not be opened.
    pub fn on_dial_upgrade_error(&mut self, error: StreamUpgradeError)
        requires
            old(self)@.requested_outbound.len() > 0,
        ensures
            final(self)@ == old(self)@.dial_upgrade_error(error),
    {
        let popped = self.requested_outbound.pop_front();
        proof {
            assert(message_views(self.requested_outbound@) =~= message_views(
                old(self).requested_outbound@,
            ).drop_first());
        }
        let message = popped.unwrap();
        match error {
            StreamUpgradeError::Timeout => {
                let event = Event::OutboundFailure {
                    peer_id: self.peer_id.clone(),
                    message_id: message.message_id,
                    error: Error::DialUpgradeError,
                };
                self.pending_events.push_back(event);
                proof {
                    assert(event_views(self.pending_events@) =~= event_views(
                        old(self).pending_events@,
                    ).push(event@));
                }
            },
            StreamUpgradeError::NegotiationFailed => {
                let event = Event::OutboundFailure {
                    peer_id: self.peer_id.clone(),
                    message_id: message.message_id,
                    error: Error::ProtocolNotSupported,
                };
                self.pending_events.push_back(event);
                proof {
                    assert(event_views(self.pending_events@) =~= event_views(
                        old(self).pending_events@,
                    ).push(event@));
                }
            },
            StreamUpgradeError::Apply => {},
            StreamUpgradeError::Io => {
                self.pending_outbound.push_back(message);
                proof {
                    assert(message_views(self.pending_outbound@) =~= message_views(
                        old(self).pending_outbound@,
                    ).push(message@));
                }
            },
        }
    }

    /// Takes a report of the network and hands out the work that it asks for.
    pub fn on_connection_event(&mut self, event: ConnectionEvent) -> (task: Option<Task<M>>)
        requires
            event is FullyNegotiatedOutbound || event is DialUpgradeError ==> old(
                self,
            )@.requested_outbound.len() > 0,
        ensures
            final(self)@ == old(self)@.connection_event(event),
            old(self)@.connection_event_yields(event, task),
    {
        match event {
            ConnectionEvent::FullyNegotiatedInbound => {
                Some(Task::Decode { peer_id: self.on_fully_negotiated_inbound() })
            },
            ConnectionEvent::FullyNegotiatedOutbound => {
                Some(Task::Encode { message: self.on_fully_negotiated_outbound() })
            },
            ConnectionEvent::DialUpgradeError(error) => {
                self.on_dial_upgrade_error(error);
                None
            },
            ConnectionEvent::ListenUpgradeError => None,
            ConnectionEvent::Other => None,
        }
    }

    /// Hands out the next thing for the network to do, if there is one.
    ///
    /// `tasks` is what the pool of running tasks reported just before.
    pub fn poll(&mut self, tasks: TaskPoll<M>) -> (out: Option<ConnectionHandlerEvent<M>>)
        ensures
            final(self)@ == old(self)@.poll(!(tasks is Pending)),
            old(self)@.poll_yields(tasks, out),
    {
        match tasks {
            TaskPoll::Ready(event) => {
                return Some(ConnectionHandlerEvent::NotifyBehaviour(event));
            },
            TaskPoll::TimedOut => {
                return Some(ConnectionHandlerEvent::NotifyBehaviour(Event::Error(Error::Timeout)));
            },
            TaskPoll::Pending => {},
        }
        if let Some(event) = self.pending_events.pop_front() {
            proof {
                assert(event_views(self.pending_events@) =~= event_views(
                    old(self).pending_events@,
                ).drop_first());
            }
            return Some(ConnectionHandlerEvent::NotifyBehaviour(event));
        } else {
            shrink_if_oversized(&mut self.pending_events);
        }
        if let Some(message) = self.pending_outbound.pop_front() {
            let protocol = clone_protocol(&self.protocol);
            self.requested_outbound.push_back(message);
            proof {
                assert(message_views(self.pending_outbound@) =~= message_views(
                    old(self).pending_outbound@,
                ).drop_first());
                assert(message_views(self.requested_outbound@) =~= message_views(
                    old(self).requested_outbound@,
                ).push(message@));
            }
            return Some(
                ConnectionHandlerEvent::OutboundSubstreamRequest { protocol: Protocol { protocol } },
            );
        }
        shrink_if_oversized(&mut self.pending_outbound);
        None
    }
}

} // verus!
