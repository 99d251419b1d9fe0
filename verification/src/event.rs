//! What the application is told.

use crate::error::Error;
use crate::peer::{MessageId, PeerId};
use vstd::prelude::*;

verus! {

/// An outcome reported to the application.
#[derive(Debug, PartialEq, Eq)]
pub enum Event<M> {
    /// A peer sent a message.
    ReceivedMessage { peer_id: PeerId, message: M },
    /// The message with this identifier was written to its stream.
    MessageSent { message_id: MessageId },
    /// A message was lost together with its connection.
    InboundFailure { peer_id: PeerId, message_id: MessageId, error: Error },
    /// A message could not be sent.
    OutboundFailure { peer_id: PeerId, message_id: MessageId, error: Error },
    /// A failure that cannot be tied to a message.
    Error(Error),
}

/// What an [`Event`] is to the contracts: each peer by its bytes.
pub ghost enum EventView<M> {
    ReceivedMessage { peer_id: Seq<u8>, message: M },
    MessageSent { message_id: MessageId },
    InboundFailure { peer_id: Seq<u8>, message_id: MessageId, error: Error },
    OutboundFailure { peer_id: Seq<u8>, message_id: MessageId, error: Error },
    Error(Error),
}

impl<M> View for Event<M> {
    type V = EventView<M>;

    open spec fn view(&self) -> EventView<M> {
        match *self {
            Event::ReceivedMessage { peer_id, message } => EventView::ReceivedMessage {
                peer_id: peer_id@,
                message,
            },
            Event::MessageSent { message_id } => EventView::MessageSent { message_id },
            Event::InboundFailure { peer_id, message_id, error } => EventView::InboundFailure {
                peer_id: peer_id@,
                message_id,
                error,
            },
            Event::OutboundFailure { peer_id, message_id, error } => EventView::OutboundFailure {
                peer_id: peer_id@,
                message_id,
                error,
            },
            Event::Error(error) => EventView::Error(error),
        }
    }
}

impl<M> Event<M> {
    /// The message that this event settles, if it settles one.
    pub fn resolved_message(&self) -> (id: Option<MessageId>)
        ensures
            id == self@.resolved_message(),
    {
        match self {
            Event::MessageSent { message_id } => Some(*message_id),
            Event::InboundFailure { message_id, .. } => Some(*message_id),
            Event::OutboundFailure { message_id, .. } => Some(*message_id),
            _ => None,
        }
    }
}

impl<M> EventView<M> {
    /// The message that this event settles, if it settles one: the message
    /// that was sent, or the message that failed.
    pub open spec fn resolved_message(self) -> Option<MessageId> {
        match self {
            EventView::MessageSent { message_id } => Some(message_id),
            EventView::InboundFailure { message_id, .. } => Some(message_id),
            EventView::OutboundFailure { message_id, .. } => Some(message_id),
            _ => None,
        }
    }
}

} // verus!
