//! What the network tells the router, and what the router asks of the network.

use crate::event::{Event, EventView};
use crate::peer::{ConnectionId, OutboundMessage, OutboundMessageView, PeerId};
use libp2p::Multiaddr;
use vstd::prelude::*;

verus! {

/// `libp2p::swarm::ConnectionDenied`, the reason for which a behaviour may turn
/// an established connection down. The router turns none down.
#[verifier::external_type_specification]
#[verifier::external_body]
pub struct ExConnectionDenied(libp2p::swarm::ConnectionDenied);

/// `libp2p::core::Endpoint`, the side from which a connection was opened.
#[verifier::external_type_specification]
#[verifier::external_body]
pub struct ExEndpoint(libp2p::core::Endpoint);

/// A connection went away.
#[derive(Debug, PartialEq, Eq)]
pub struct ConnectionClosed {
    pub peer_id: PeerId,
    pub connection_id: ConnectionId,
    /// How many connections to the peer are left, as the network counts them.
    pub remaining_established: usize,
}

/// The remote end of a connection has a new address.
#[derive(Debug, PartialEq, Eq)]
pub struct AddressChange {
    pub peer_id: PeerId,
    pub connection_id: ConnectionId,
    pub new: Multiaddr,
}

/// An attempt to connect failed. The peer is known unless the attempt went to
/// an address alone.
#[derive(Debug, PartialEq, Eq)]
pub struct DialFailure {
    pub peer_id: Option<PeerId>,
}

/// What the network reports to the router.
#[derive(Debug, PartialEq, Eq)]
pub enum FromSwarm {
    /// A connection was established. The router learns of it together with
    /// its handler, so this report changes nothing.
    ConnectionEstablished,
    ConnectionClosed(ConnectionClosed),
    AddressChange(AddressChange),
    DialFailure(DialFailure),
    /// Anything else. It does not concern the router.
    Other,
}

/// The peer of a failed attempt, by its bytes.
pub open spec fn peer_view(peer: Option<PeerId>) -> Option<Seq<u8>> {
    match peer {
        Some(p) => Some(p@),
        None => None,
    }
}

/// What the router asks of the network.
#[derive(Debug, PartialEq, Eq)]
pub enum ToSwarm<M> {
    /// Report the event to the application.
    GenerateEvent(Event<M>),
    /// Connect to the peer.
    Dial { peer_id: PeerId },
    /// Hand the message to the handler of the peer's connection.
    NotifyHandler { peer_id: PeerId, connection_id: ConnectionId, event: OutboundMessage<M> },
}

/// What a [`ToSwarm`] is to the contracts: each peer by its bytes.
pub ghost enum ToSwarmView<M> {
    GenerateEvent(EventView<M>),
    Dial { peer_id: Seq<u8> },
    NotifyHandler { peer_id: Seq<u8>, connection_id: ConnectionId, event: OutboundMessageView<M> },
}

impl<M> View for ToSwarm<M> {
    type V = ToSwarmView<M>;

    open spec fn view(&self) -> ToSwarmView<M> {
        match *self {
            ToSwarm::GenerateEvent(event) => ToSwarmView::GenerateEvent(event@),
            ToSwarm::Dial { peer_id } => ToSwarmView::Dial { peer_id: peer_id@ },
            ToSwarm::NotifyHandler { peer_id, connection_id, event } => ToSwarmView::NotifyHandler {
                peer_id: peer_id@,
                connection_id,
                event: event@,
            },
        }
    }
}

/// The views of the requests in a queue, in order.
pub open spec fn request_views<M>(queue: Seq<ToSwarm<M>>) -> Seq<ToSwarmView<M>> {
    queue.map_values(|r: ToSwarm<M>| r@)
}

} // verus!
