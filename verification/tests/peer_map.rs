use peer_messaging::connection::Connection;
use peer_messaging::peer_map::PeerMap;
use peer_messaging::{ConnectionId, PeerId};

fn key(tag: u8) -> PeerId {
    PeerId::from_bytes(vec![tag, 1])
}

#[test]
fn empty_map_holds_nothing() {
    let mut map: PeerMap<u32> = PeerMap::new();
    assert!(!map.contains_key(&key(1)));
    assert_eq!(map.get(&key(1)), None);
    assert_eq!(map.remove(&key(1)), None);
}

#[test]
fn values_are_found_under_their_peer() {
    let mut map: PeerMap<u32> = PeerMap::new();
    map.insert(key(1), 10);
    map.insert(key(2), 20);
    map.insert(PeerId::from_bytes(vec![1]), 30);
    assert!(map.contains_key(&key(1)));
    assert_eq!(map.get(&key(1)), Some(&10));
    assert_eq!(map.get(&key(2)), Some(&20));
    assert_eq!(map.get(&PeerId::from_bytes(vec![1])), Some(&30));
    assert_eq!(map.get(&key(3)), None);
}

#[test]
fn values_change_in_place() {
    let mut map: PeerMap<Vec<u8>> = PeerMap::new();
    map.insert(key(1), vec![1]);
    map.insert(key(2), vec![2]);
    map.get_mut(&key(1)).push(9);
    assert_eq!(map.get(&key(1)), Some(&vec![1, 9]));
    assert_eq!(map.get(&key(2)), Some(&vec![2]));
}

#[test]
fn removal_takes_one_peer_out() {
    let mut map: PeerMap<u32> = PeerMap::new();
    map.insert(key(1), 10);
    map.insert(key(2), 20);
    map.insert(key(3), 30);
    assert_eq!(map.remove(&key(2)), Some(20));
    assert_eq!(map.remove(&key(2)), None);
    assert!(!map.contains_key(&key(2)));
    assert_eq!(map.get(&key(1)), Some(&10));
    assert_eq!(map.get(&key(3)), Some(&30));
    map.insert(key(2), 21);
    assert_eq!(map.get(&key(2)), Some(&21));
}

#[test]
fn new_connection_has_nothing_pending() {
    let c = Connection::new(ConnectionId::new_unchecked(4), None);
    assert_eq!(c.id, ConnectionId(4));
    assert_eq!(c.remote_address, None);
    assert!(c.pending_messages.is_empty());
}
