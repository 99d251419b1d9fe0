use libp2p::{Multiaddr, StreamProtocol};
use peer_messaging::handler::{ConnectionEvent, ConnectionHandlerEvent, Task, TaskPoll};
use peer_messaging::swarm::{AddressChange, ConnectionClosed, DialFailure, FromSwarm, ToSwarm};
use peer_messaging::{
    Behaviour, Config, ConnectionId, Error, Event, OutboundMessage, PeerId,
    EMPTY_QUEUE_SHRINK_THRESHOLD,
};
use std::time::Duration;

fn peer(tag: u8) -> PeerId {
    PeerId::from_bytes(vec![0, 2, tag, tag])
}

fn address(port: u16) -> Multiaddr {
    format!("/ip4/127.0.0.1/tcp/{}", port).parse().unwrap()
}

fn router() -> Behaviour<String> {
    let config = Config { max_concurrent_streams: 3, send_recv_timeout: Duration::from_secs(10) };
    Behaviour::new(StreamProtocol::new("/messages/1"), config)
}

fn connect(router: &mut Behaviour<String>, who: &PeerId, id: usize) {
    router
        .handle_established_outbound_connection(
            ConnectionId::new_unchecked(id),
            who.clone(),
            &address(4000),
            libp2p::core::Endpoint::Dialer,
        )
        .unwrap();
}

fn drain(router: &mut Behaviour<String>) -> Vec<ToSwarm<String>> {
    let mut out = Vec::new();
    while let Some(request) = router.poll() {
        out.push(request);
    }
    out
}

fn notify(who: &PeerId, connection: usize, id: u64, text: &str) -> ToSwarm<String> {
    ToSwarm::NotifyHandler {
        peer_id: who.clone(),
        connection_id: ConnectionId::new_unchecked(connection),
        event: OutboundMessage { peer_id: who.clone(), message_id: id, message: text.to_string() },
    }
}

#[test]
fn new_router_is_idle() {
    let mut r = router();
    assert_eq!(r.next_message_id(), 0);
    assert_eq!(r.pending_events_len(), 0);
    assert!(!r.is_connected(&peer(1)));
    assert_eq!(r.connection_count(&peer(1)), 0);
    assert!(r.queued_message_ids(&peer(1)).is_empty());
    assert_eq!(r.config().max_concurrent_streams, 3);
    assert_eq!(*r.protocol(), StreamProtocol::new("/messages/1"));
    assert_eq!(r.poll(), None);
}

#[test]
fn send_before_connection_dials_then_delivers() {
    let a = peer(1);
    let mut r = router();
    assert_eq!(r.send_message(a.clone(), "hello".to_string()), 0);
    assert_eq!(r.poll(), Some(ToSwarm::Dial { peer_id: a.clone() }));
    assert_eq!(r.poll(), None);
    assert_eq!(r.queued_message_ids(&a), vec![0]);

    let c1 = ConnectionId::new_unchecked(1);
    let mut handler = r
        .handle_established_outbound_connection(c1, a.clone(), &address(4001), libp2p::core::Endpoint::Dialer)
        .unwrap();
    assert!(r.queued_message_ids(&a).is_empty());
    assert!(r.is_pending(&a, c1, 0));
    assert_eq!(handler.pending_outbound_len(), 1);
    assert_eq!(handler.max_concurrent_streams(), 3);
    assert_eq!(handler.send_recv_timeout(), Duration::from_secs(10));

    let asked = handler.poll(TaskPoll::Pending);
    assert!(matches!(asked, Some(ConnectionHandlerEvent::OutboundSubstreamRequest { .. })));
    assert_eq!(handler.requested_outbound_len(), 1);

    let task = handler.on_connection_event(ConnectionEvent::FullyNegotiatedOutbound);
    let message = match task {
        Some(Task::Encode { message }) => message,
        other => panic!("expected an encode task, got {:?}", other),
    };
    assert_eq!(message.message_id, 0);
    assert_eq!(message.message, "hello");
    assert_eq!(message.peer_id, a);

    let done: Event<String> = peer_messaging::handler::sent_event(message.message_id, Ok(()));
    let out = handler.poll(TaskPoll::Ready(done));
    let event = match out {
        Some(ConnectionHandlerEvent::NotifyBehaviour(event)) => event,
        other => panic!("expected an event, got {:?}", other),
    };
    assert_eq!(event, Event::MessageSent { message_id: 0 });

    r.on_connection_handler_event(a.clone(), c1, event);
    assert_eq!(r.poll(), Some(ToSwarm::GenerateEvent(Event::MessageSent { message_id: 0 })));
    assert!(!r.is_pending(&a, c1, 0));
    assert_eq!(r.pending_count(&a, c1), 0);
}

#[test]
fn two_connections_alternate_by_identifier() {
    let b = peer(2);
    let mut r = router();
    connect(&mut r, &b, 11);
    connect(&mut r, &b, 12);
    assert_eq!(r.connection_count(&b), 2);
    assert_eq!(r.connection_id_at(&b, 0), Some(ConnectionId::new_unchecked(11)));
    assert_eq!(r.connection_id_at(&b, 1), Some(ConnectionId::new_unchecked(12)));
    assert_eq!(r.connection_id_at(&b, 2), None);

    for (i, text) in ["m0", "m1", "m2", "m3"].iter().enumerate() {
        assert_eq!(r.send_message(b.clone(), text.to_string()), i as u64);
    }
    assert_eq!(
        drain(&mut r),
        vec![
            notify(&b, 11, 0, "m0"),
            notify(&b, 12, 1, "m1"),
            notify(&b, 11, 2, "m2"),
            notify(&b, 12, 3, "m3"),
        ]
    );
    let c1 = ConnectionId::new_unchecked(11);
    let c2 = ConnectionId::new_unchecked(12);
    assert!(r.is_pending(&b, c1, 0) && r.is_pending(&b, c1, 2));
    assert!(r.is_pending(&b, c2, 1) && r.is_pending(&b, c2, 3));
    assert!(!r.is_pending(&b, c1, 1) && !r.is_pending(&b, c2, 0));
    assert_eq!(r.pending_count(&b, c1), 2);
    assert_eq!(r.pending_count(&b, c2), 2);
}

#[test]
fn three_connections_route_by_remainder() {
    let b = peer(3);
    let mut r = router();
    connect(&mut r, &b, 5);
    connect(&mut r, &b, 6);
    connect(&mut r, &b, 7);
    for i in 0..7u64 {
        assert_eq!(r.send_message(b.clone(), format!("m{}", i)), i);
    }
    let sent = drain(&mut r);
    let expected: Vec<ToSwarm<String>> =
        (0..7u64).map(|i| notify(&b, 5 + (i % 3) as usize, i, &format!("m{}", i))).collect();
    assert_eq!(sent, expected);
}

#[test]
fn single_connection_takes_every_message() {
    let b = peer(4);
    let mut r = router();
    connect(&mut r, &b, 9);
    for i in 0..5u64 {
        r.send_message(b.clone(), format!("m{}", i));
    }
    let sent = drain(&mut r);
    let expected: Vec<ToSwarm<String>> =
        (0..5u64).map(|i| notify(&b, 9, i, &format!("m{}", i))).collect();
    assert_eq!(sent, expected);
    assert_eq!(r.pending_count(&b, ConnectionId::new_unchecked(9)), 5);
    assert!(r.queued_message_ids(&b).is_empty());
}

#[test]
fn identifiers_count_up_across_peers() {
    let mut r = router();
    assert_eq!(r.send_message(peer(1), "a".to_string()), 0);
    assert_eq!(r.send_message(peer(2), "b".to_string()), 1);
    assert_eq!(r.send_message(peer(1), "c".to_string()), 2);
    assert_eq!(r.next_message_id(), 3);
    assert_eq!(r.queued_message_ids(&peer(1)), vec![0, 2]);
    assert_eq!(r.queued_message_ids(&peer(2)), vec![1]);
}

#[test]
fn queued_messages_flush_in_send_order() {
    let a = peer(1);
    let other = peer(2);
    let mut r = router();
    r.send_message(a.clone(), "first".to_string());
    r.send_message(other.clone(), "elsewhere".to_string());
    r.send_message(a.clone(), "second".to_string());
    r.send_message(a.clone(), "third".to_string());
    assert_eq!(
        drain(&mut r),
        vec![
            ToSwarm::Dial { peer_id: a.clone() },
            ToSwarm::Dial { peer_id: other.clone() },
            ToSwarm::Dial { peer_id: a.clone() },
            ToSwarm::Dial { peer_id: a.clone() },
        ]
    );

    let c = ConnectionId::new_unchecked(1);
    let mut handler = r
        .handle_established_inbound_connection(c, a.clone(), &address(1), &address(2))
        .unwrap();
    assert!(r.is_connected(&a));
    assert!(r.queued_message_ids(&a).is_empty());
    assert_eq!(r.queued_message_ids(&other), vec![1]);
    assert_eq!(r.pending_count(&a, c), 3);
    assert!(r.is_pending(&a, c, 0) && r.is_pending(&a, c, 2) && r.is_pending(&a, c, 3));
    assert_eq!(r.remote_address(&a, c), Some(address(2)));
    assert_eq!(r.pending_events_len(), 0);

    let mut order = Vec::new();
    for _ in 0..3 {
        assert!(matches!(
            handler.poll(TaskPoll::Pending),
            Some(ConnectionHandlerEvent::OutboundSubstreamRequest { .. })
        ));
    }
    assert_eq!(handler.poll(TaskPoll::Pending), None);
    for _ in 0..3 {
        match handler.on_connection_event(ConnectionEvent::FullyNegotiatedOutbound) {
            Some(Task::Encode { message }) => order.push((message.message_id, message.message)),
            other => panic!("expected an encode task, got {:?}", other),
        }
    }
    assert_eq!(
        order,
        vec![(0, "first".to_string()), (2, "second".to_string()), (3, "third".to_string())]
    );
}

#[test]
fn send_after_flush_goes_straight_to_the_connection() {
    let a = peer(1);
    let mut r = router();
    r.send_message(a.clone(), "queued".to_string());
    connect(&mut r, &a, 3);
    drain(&mut r);
    assert_eq!(r.send_message(a.clone(), "direct".to_string()), 1);
    assert_eq!(drain(&mut r), vec![notify(&a, 3, 1, "direct")]);
    assert!(r.queued_message_ids(&a).is_empty());
}

#[test]
fn closing_reports_every_pending_message_once() {
    let b = peer(2);
    let mut r = router();
    connect(&mut r, &b, 1);
    for i in 0..4u64 {
        r.send_message(b.clone(), format!("m{}", i));
    }
    drain(&mut r);
    let c1 = ConnectionId::new_unchecked(1);
    assert!(r.tracks(&b, c1));
    r.on_connection_closed(ConnectionClosed {
        peer_id: b.clone(),
        connection_id: c1,
        remaining_established: 0,
    });
    assert!(!r.is_connected(&b));
    assert!(!r.tracks(&b, c1));

    let reports = drain(&mut r);
    assert_eq!(reports.len(), 4);
    let mut ids = Vec::new();
    for report in reports {
        match report {
            ToSwarm::GenerateEvent(Event::InboundFailure { peer_id, message_id, error }) => {
                assert_eq!(peer_id, b);
                assert_eq!(error, Error::ConnectionClosed);
                ids.push(message_id);
            }
            other => panic!("expected a failure, got {:?}", other),
        }
    }
    ids.sort();
    assert_eq!(ids, vec![0, 1, 2, 3]);
}

#[test]
fn closing_one_of_two_keeps_the_other() {
    let b = peer(2);
    let mut r = router();
    connect(&mut r, &b, 1);
    connect(&mut r, &b, 2);
    for i in 0..4u64 {
        r.send_message(b.clone(), format!("m{}", i));
    }
    drain(&mut r);
    r.on_swarm_event(FromSwarm::ConnectionClosed(ConnectionClosed {
        peer_id: b.clone(),
        connection_id: ConnectionId::new_unchecked(1),
        remaining_established: 1,
    }));
    assert!(r.is_connected(&b));
    assert_eq!(r.connection_count(&b), 1);
    assert_eq!(r.connection_id_at(&b, 0), Some(ConnectionId::new_unchecked(2)));
    assert_eq!(r.pending_count(&b, ConnectionId::new_unchecked(2)), 2);

    let mut ids: Vec<u64> = drain(&mut r)
        .into_iter()
        .map(|report| match report {
            ToSwarm::GenerateEvent(Event::InboundFailure { message_id, .. }) => message_id,
            other => panic!("expected a failure, got {:?}", other),
        })
        .collect();
    ids.sort();
    assert_eq!(ids, vec![0, 2]);

    assert_eq!(r.send_message(b.clone(), "later".to_string()), 4);
    assert_eq!(drain(&mut r), vec![notify(&b, 2, 4, "later")]);
}

#[test]
fn closing_a_connection_with_nothing_pending_reports_nothing() {
    let b = peer(2);
    let mut r = router();
    connect(&mut r, &b, 1);
    r.on_connection_closed(ConnectionClosed {
        peer_id: b.clone(),
        connection_id: ConnectionId::new_unchecked(1),
        remaining_established: 0,
    });
    assert_eq!(r.poll(), None);
    assert!(!r.is_connected(&b));
    assert_eq!(r.send_message(b.clone(), "again".to_string()), 0);
    assert_eq!(r.poll(), Some(ToSwarm::Dial { peer_id: b.clone() }));
}

#[test]
fn dial_failure_fails_the_queue_and_nothing_else() {
    let a = peer(1);
    let b = peer(2);
    let mut r = router();
    connect(&mut r, &b, 7);
    r.send_message(b.clone(), "to b".to_string());
    r.send_message(a.clone(), "one".to_string());
    r.send_message(a.clone(), "two".to_string());
    drain(&mut r);

    r.on_dial_failure(DialFailure { peer_id: Some(a.clone()) });
    assert_eq!(
        drain(&mut r),
        vec![
            ToSwarm::GenerateEvent(Event::OutboundFailure {
                peer_id: a.clone(),
                message_id: 1,
                error: Error::DialFailure,
            }),
            ToSwarm::GenerateEvent(Event::OutboundFailure {
                peer_id: a.clone(),
                message_id: 2,
                error: Error::DialFailure,
            }),
        ]
    );
    assert!(r.queued_message_ids(&a).is_empty());
    assert!(r.is_pending(&b, ConnectionId::new_unchecked(7), 0));
    assert_eq!(r.pending_count(&b, ConnectionId::new_unchecked(7)), 1);
}

#[test]
fn dial_failure_without_queue_or_peer_changes_nothing() {
    let b = peer(2);
    let mut r = router();
    connect(&mut r, &b, 7);
    r.send_message(b.clone(), "to b".to_string());
    drain(&mut r);
    r.on_dial_failure(DialFailure { peer_id: Some(b.clone()) });
    r.on_swarm_event(FromSwarm::DialFailure(DialFailure { peer_id: None }));
    r.on_dial_failure(DialFailure { peer_id: Some(peer(9)) });
    assert_eq!(r.poll(), None);
    assert_eq!(r.pending_count(&b, ConnectionId::new_unchecked(7)), 1);
}

#[test]
fn address_change_updates_only_the_tracked_connection() {
    let b = peer(2);
    let mut r = router();
    connect(&mut r, &b, 1);
    connect(&mut r, &b, 2);
    let c1 = ConnectionId::new_unchecked(1);
    let c2 = ConnectionId::new_unchecked(2);
    assert_eq!(r.remote_address(&b, c1), Some(address(4000)));

    r.on_address_change(AddressChange { peer_id: b.clone(), connection_id: c2, new: address(9) });
    assert_eq!(r.remote_address(&b, c1), Some(address(4000)));
    assert_eq!(r.remote_address(&b, c2), Some(address(9)));

    r.on_swarm_event(FromSwarm::AddressChange(AddressChange {
        peer_id: b.clone(),
        connection_id: ConnectionId::new_unchecked(3),
        new: address(10),
    }));
    r.on_address_change(AddressChange { peer_id: peer(8), connection_id: c1, new: address(11) });
    assert_eq!(r.remote_address(&b, c1), Some(address(4000)));
    assert_eq!(r.remote_address(&b, c2), Some(address(9)));
    assert_eq!(r.remote_address(&peer(8), c1), None);
    assert_eq!(r.connection_count(&b), 2);
    assert_eq!(r.poll(), None);
}

#[test]
fn other_reports_change_nothing() {
    let b = peer(2);
    let mut r = router();
    connect(&mut r, &b, 1);
    r.on_swarm_event(FromSwarm::ConnectionEstablished);
    r.on_swarm_event(FromSwarm::Other);
    assert_eq!(r.connection_count(&b), 1);
    assert_eq!(r.poll(), None);
}

#[test]
fn handler_events_are_passed_on_and_settle_messages() {
    let b = peer(2);
    let mut r = router();
    connect(&mut r, &b, 1);
    let c1 = ConnectionId::new_unchecked(1);
    r.send_message(b.clone(), "m0".to_string());
    r.send_message(b.clone(), "m1".to_string());
    r.send_message(b.clone(), "m2".to_string());
    drain(&mut r);

    let failure =
        Event::OutboundFailure { peer_id: b.clone(), message_id: 1, error: Error::DialUpgradeError };
    r.on_connection_handler_event(b.clone(), c1, failure);
    let received = Event::ReceivedMessage { peer_id: b.clone(), message: "hi".to_string() };
    r.on_connection_handler_event(b.clone(), c1, received);
    r.on_connection_handler_event(b.clone(), c1, Event::Error(Error::Timeout));
    r.on_connection_handler_event(peer(9), c1, Event::MessageSent { message_id: 0 });
    r.on_connection_handler_event(
        b.clone(),
        ConnectionId::new_unchecked(5),
        Event::MessageSent { message_id: 2 },
    );

    assert_eq!(
        drain(&mut r),
        vec![
            ToSwarm::GenerateEvent(Event::OutboundFailure {
                peer_id: b.clone(),
                message_id: 1,
                error: Error::DialUpgradeError,
            }),
            ToSwarm::GenerateEvent(Event::ReceivedMessage {
                peer_id: b.clone(),
                message: "hi".to_string(),
            }),
            ToSwarm::GenerateEvent(Event::Error(Error::Timeout)),
            ToSwarm::GenerateEvent(Event::MessageSent { message_id: 0 }),
            ToSwarm::GenerateEvent(Event::MessageSent { message_id: 2 }),
        ]
    );
    assert!(r.is_pending(&b, c1, 0));
    assert!(!r.is_pending(&b, c1, 1));
    assert!(r.is_pending(&b, c1, 2));
    assert_eq!(r.pending_count(&b, c1), 2);
}

#[test]
fn drained_queue_releases_its_room() {
    let b = peer(2);
    let mut r = router();
    for i in 0..300u64 {
        r.on_connection_handler_event(
            b.clone(),
            ConnectionId::new_unchecked(1),
            Event::MessageSent { message_id: i },
        );
    }
    assert!(r.pending_events_capacity() >= 300);
    for i in 0..300u64 {
        assert_eq!(r.poll(), Some(ToSwarm::GenerateEvent(Event::MessageSent { message_id: i })));
    }
    assert!(r.pending_events_capacity() > EMPTY_QUEUE_SHRINK_THRESHOLD);
    assert_eq!(r.poll(), None);
    assert!(r.pending_events_capacity() <= EMPTY_QUEUE_SHRINK_THRESHOLD);
    assert_eq!(r.pending_events_len(), 0);
}

#[test]
fn peers_are_told_apart_by_their_bytes() {
    let a = PeerId::from_bytes(vec![1, 2, 3]);
    let same = PeerId::from_bytes(vec![1, 2, 3]);
    let longer = PeerId::from_bytes(vec![1, 2, 3, 0]);
    let other = PeerId::from_bytes(vec![1, 2, 4]);
    assert!(a.same(&same));
    assert!(!a.same(&longer));
    assert!(!a.same(&other));
    assert!(PeerId::from_bytes(vec![]).same(&PeerId::from_bytes(vec![])));
    assert_eq!(a.to_bytes(), vec![1, 2, 3]);
    assert_eq!(a.clone(), a);

    let mut r = router();
    connect(&mut r, &a, 1);
    assert!(r.is_connected(&same));
    assert!(!r.is_connected(&longer));
    assert!(!r.is_connected(&other));
}
