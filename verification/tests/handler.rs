use libp2p::StreamProtocol;
use peer_messaging::handler::{
    received_event, sent_event, ConnectionEvent, ConnectionHandlerEvent, StreamUpgradeError, Task,
    TaskPoll,
};
use peer_messaging::{
    CodecError, Config, Error, Event, Handler, OutboundMessage, PeerId, Protocol,
    EMPTY_QUEUE_SHRINK_THRESHOLD,
};
use std::time::Duration;

fn remote() -> PeerId {
    PeerId::from_bytes(vec![0, 1, 42])
}

fn handler() -> Handler<String> {
    Handler::new(remote(), StreamProtocol::new("/messages/1"), &Config::default())
}

fn message(id: u64, text: &str) -> OutboundMessage<String> {
    OutboundMessage { peer_id: remote(), message_id: id, message: text.to_string() }
}

fn request(h: &mut Handler<String>) {
    match h.poll(TaskPoll::Pending) {
        Some(ConnectionHandlerEvent::OutboundSubstreamRequest { protocol }) => {
            assert_eq!(protocol, Protocol { protocol: StreamProtocol::new("/messages/1") });
        }
        other => panic!("expected a substream request, got {:?}", other),
    }
}

fn next_event(h: &mut Handler<String>) -> Event<String> {
    match h.poll(TaskPoll::Pending) {
        Some(ConnectionHandlerEvent::NotifyBehaviour(event)) => event,
        other => panic!("expected an event, got {:?}", other),
    }
}

#[test]
fn default_config_allows_three_tasks_of_ten_seconds() {
    let config = Config::default();
    assert_eq!(config.max_concurrent_streams, 3);
    assert_eq!(config.send_recv_timeout, Duration::from_secs(10));
}

#[test]
fn new_handler_is_idle_and_keeps_its_limits() {
    let config = Config { max_concurrent_streams: 5, send_recv_timeout: Duration::from_secs(2) };
    let mut h: Handler<String> = Handler::new(remote(), StreamProtocol::new("/x"), &config);
    assert_eq!(*h.peer_id(), remote());
    assert_eq!(*h.protocol(), StreamProtocol::new("/x"));
    assert_eq!(h.max_concurrent_streams(), 5);
    assert_eq!(h.send_recv_timeout(), Duration::from_secs(2));
    assert_eq!(h.pending_outbound_len(), 0);
    assert_eq!(h.requested_outbound_len(), 0);
    assert_eq!(h.pending_events_len(), 0);
    assert_eq!(h.poll(TaskPoll::Pending), None);
}

#[test]
fn listen_protocol_offers_the_handlers_protocol() {
    let h = handler();
    let offer = h.listen_protocol();
    assert_eq!(*offer.protocol_info(), StreamProtocol::new("/messages/1"));
    assert_eq!(offer.into_protocol(), StreamProtocol::new("/messages/1"));
}

#[test]
fn one_request_per_message_in_order() {
    let mut h = handler();
    h.on_behaviour_event(message(0, "a"));
    h.on_behaviour_event(message(1, "b"));
    assert_eq!(h.pending_outbound_len(), 2);
    request(&mut h);
    assert_eq!((h.pending_outbound_len(), h.requested_outbound_len()), (1, 1));
    request(&mut h);
    assert_eq!((h.pending_outbound_len(), h.requested_outbound_len()), (0, 2));
    assert_eq!(h.poll(TaskPoll::Pending), None);

    let first = h.on_connection_event(ConnectionEvent::FullyNegotiatedOutbound);
    assert_eq!(first, Some(Task::Encode { message: message(0, "a") }));
    let second = h.on_fully_negotiated_outbound();
    assert_eq!(second, message(1, "b"));
    assert_eq!(h.requested_outbound_len(), 0);
}

#[test]
fn inbound_substream_asks_for_a_decode_task() {
    let mut h = handler();
    h.on_behaviour_event(message(0, "a"));
    let task = h.on_connection_event(ConnectionEvent::FullyNegotiatedInbound);
    assert_eq!(task, Some(Task::Decode { peer_id: remote() }));
    assert_eq!(h.on_fully_negotiated_inbound(), remote());
    assert_eq!((h.pending_outbound_len(), h.requested_outbound_len()), (1, 0));
}

#[test]
fn negotiation_timeout_is_reported_as_dial_upgrade_error() {
    let mut h = handler();
    h.on_behaviour_event(message(7, "a"));
    request(&mut h);
    let task = h.on_connection_event(ConnectionEvent::DialUpgradeError(StreamUpgradeError::Timeout));
    assert_eq!(task, None);
    assert_eq!(h.requested_outbound_len(), 0);
    assert_eq!(
        next_event(&mut h),
        Event::OutboundFailure { peer_id: remote(), message_id: 7, error: Error::DialUpgradeError }
    );
    assert_eq!(h.poll(TaskPoll::Pending), None);
}

#[test]
fn refused_protocol_is_reported_and_the_handler_goes_on() {
    let mut h = handler();
    h.on_behaviour_event(message(3, "a"));
    h.on_behaviour_event(message(4, "b"));
    request(&mut h);
    h.on_dial_upgrade_error(StreamUpgradeError::NegotiationFailed);
    assert_eq!(
        next_event(&mut h),
        Event::OutboundFailure {
            peer_id: remote(),
            message_id: 3,
            error: Error::ProtocolNotSupported,
        }
    );
    request(&mut h);
    assert_eq!(h.on_fully_negotiated_outbound(), message(4, "b"));
}

#[test]
fn failed_upgrade_drops_the_message_without_event() {
    let mut h = handler();
    h.on_behaviour_event(message(3, "a"));
    request(&mut h);
    h.on_dial_upgrade_error(StreamUpgradeError::Apply);
    assert_eq!(h.requested_outbound_len(), 0);
    assert_eq!(h.pending_outbound_len(), 0);
    assert_eq!(h.pending_events_len(), 0);
    assert_eq!(h.poll(TaskPoll::Pending), None);
}

#[test]
fn connection_failure_puts_the_message_back_in_wait() {
    let mut h = handler();
    h.on_behaviour_event(message(0, "a"));
    h.on_behaviour_event(message(1, "b"));
    request(&mut h);
    h.on_dial_upgrade_error(StreamUpgradeError::Io);
    assert_eq!(h.pending_events_len(), 0);
    assert_eq!((h.pending_outbound_len(), h.requested_outbound_len()), (2, 0));
    request(&mut h);
    request(&mut h);
    assert_eq!(h.on_fully_negotiated_outbound(), message(1, "b"));
    assert_eq!(h.on_fully_negotiated_outbound(), message(0, "a"));
}

#[test]
fn listen_errors_and_other_reports_change_nothing() {
    let mut h = handler();
    h.on_behaviour_event(message(0, "a"));
    request(&mut h);
    assert_eq!(h.on_connection_event(ConnectionEvent::ListenUpgradeError), None);
    assert_eq!(h.on_connection_event(ConnectionEvent::Other), None);
    assert_eq!((h.pending_outbound_len(), h.requested_outbound_len()), (0, 1));
    assert_eq!(h.pending_events_len(), 0);
}

#[test]
fn finished_tasks_come_before_everything_else() {
    let mut h = handler();
    h.on_behaviour_event(message(0, "a"));
    h.on_behaviour_event(message(1, "b"));
    request(&mut h);
    h.on_dial_upgrade_error(StreamUpgradeError::Timeout);

    let out = h.poll(TaskPoll::Ready(Event::MessageSent { message_id: 9 }));
    assert_eq!(out, Some(ConnectionHandlerEvent::NotifyBehaviour(Event::MessageSent {
        message_id: 9
    })));
    let out = h.poll(TaskPoll::TimedOut);
    assert_eq!(out, Some(ConnectionHandlerEvent::NotifyBehaviour(Event::Error(Error::Timeout))));
    assert_eq!(h.pending_events_len(), 1);
    assert_eq!(h.pending_outbound_len(), 1);

    assert_eq!(
        next_event(&mut h),
        Event::OutboundFailure { peer_id: remote(), message_id: 0, error: Error::DialUpgradeError }
    );
    request(&mut h);
    assert_eq!(h.poll(TaskPoll::Pending), None);
}

#[test]
fn task_outcomes_become_events() {
    let sent: Event<String> = sent_event(4, Ok(()));
    assert_eq!(sent, Event::MessageSent { message_id: 4 });
    let failed: Event<String> = sent_event(4, Err(CodecError::Io));
    assert_eq!(failed, Event::Error(Error::CodecError(CodecError::Io)));
    let got = received_event(remote(), Ok("hi".to_string()));
    assert_eq!(got, Event::ReceivedMessage { peer_id: remote(), message: "hi".to_string() });
    let bad: Event<String> = received_event(remote(), Err(CodecError::BytesRemaining));
    assert_eq!(bad, Event::Error(Error::CodecError(CodecError::BytesRemaining)));
}

#[test]
fn events_name_the_message_they_settle() {
    let sent: Event<String> = Event::MessageSent { message_id: 4 };
    assert_eq!(sent.resolved_message(), Some(4));
    let out: Event<String> =
        Event::OutboundFailure { peer_id: remote(), message_id: 5, error: Error::DialFailure };
    assert_eq!(out.resolved_message(), Some(5));
    let lost: Event<String> =
        Event::InboundFailure { peer_id: remote(), message_id: 6, error: Error::ConnectionClosed };
    assert_eq!(lost.resolved_message(), Some(6));
    let got = Event::ReceivedMessage { peer_id: remote(), message: "hi".to_string() };
    assert_eq!(got.resolved_message(), None);
    let err: Event<String> = Event::Error(Error::Timeout);
    assert_eq!(err.resolved_message(), None);
}

#[test]
fn drained_handler_queues_release_their_room() {
    let mut h = handler();
    for i in 0..300u64 {
        h.on_behaviour_event(message(i, "m"));
    }
    assert!(h.pending_outbound_capacity() >= 300);
    for _ in 0..300 {
        request(&mut h);
    }
    assert!(h.pending_outbound_capacity() > EMPTY_QUEUE_SHRINK_THRESHOLD);
    for _ in 0..300 {
        h.on_dial_upgrade_error(StreamUpgradeError::Timeout);
    }
    assert!(h.pending_events_capacity() >= 300);
    for i in 0..300u64 {
        let event = next_event(&mut h);
        assert_eq!(event.resolved_message(), Some(i));
    }
    assert!(h.pending_events_capacity() > EMPTY_QUEUE_SHRINK_THRESHOLD);
    assert_eq!(h.poll(TaskPoll::Pending), None);
    assert!(h.pending_events_capacity() <= EMPTY_QUEUE_SHRINK_THRESHOLD);
    assert!(h.pending_outbound_capacity() <= EMPTY_QUEUE_SHRINK_THRESHOLD);
}

#[test]
fn shrink_threshold_is_one_hundred() {
    assert_eq!(EMPTY_QUEUE_SHRINK_THRESHOLD, 100);
    assert!(!peer_messaging::queue::exceeds_shrink_threshold(0));
    assert!(!peer_messaging::queue::exceeds_shrink_threshold(100));
    assert!(peer_messaging::queue::exceeds_shrink_threshold(101));
}

#[test]
fn errors_describe_themselves() {
    assert_eq!(Error::ConnectionClosed.message(), "Connection closed");
    assert_eq!(Error::Timeout.message(), "Timeout");
    assert_eq!(Error::DialFailure.message(), "Dial failure");
    assert_eq!(Error::DialUpgradeError.message(), "Dial upgrade error");
    assert_eq!(Error::ProtocolNotSupported.message(), "Protocol not supported");
    assert_eq!(Error::ChannelClosed.message(), "Channel closed");
    assert_eq!(
        Error::CodecError(CodecError::MessageTooLarge).message(),
        "Codec error: message too large"
    );
    assert_eq!(
        Error::CodecError(CodecError::BytesRemaining).message(),
        "Codec error: bytes remaining in buffer"
    );
    assert_eq!(CodecError::Io.message(), "stream failed");
    assert_eq!(CodecError::InvalidPayload.message(), "invalid payload");
    assert_eq!(CodecError::Unencodable.message(), "message cannot be encoded");
}
