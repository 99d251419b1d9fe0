//! The record kept for an established connection, and the short list of a
//! peer's connections.

use crate::peer::{ConnectionId, MessageId};
use smallvec::SmallVec;
use std::collections::HashSet;
use vstd::prelude::*;

verus! {

broadcast use vstd::std_specs::hash::group_hash_axioms;

/// `libp2p::Multiaddr`, the network address of an endpoint. The library stores
/// addresses and hands them back; it never looks inside one.
#[verifier::external_type_specification]
#[verifier::external_body]
pub struct ExMultiaddr(libp2p::Multiaddr);

/// `Clone::clone` of a `Multiaddr`: the copy is the same address.
#[verifier::external_body]
pub(crate) fn clone_address(address: &libp2p::Multiaddr) -> (copy: libp2p::Multiaddr)
    ensures
        copy == *address,
{
    address.clone()
}

/// What is tracked for an established connection.
#[derive(Debug)]
pub struct Connection {
    pub id: ConnectionId,
    pub remote_address: Option<libp2p::Multiaddr>,
    pub pending_messages: HashSet<MessageId>,
}

/// What a [`Connection`] is to the contracts: the pending identifiers as a set.
pub ghost struct ConnectionView {
    pub id: ConnectionId,
    pub remote_address: Option<libp2p::Multiaddr>,
    pub pending_messages: Set<MessageId>,
}

impl View for Connection {
    type V = ConnectionView;

    open spec fn view(&self) -> ConnectionView {
        ConnectionView {
            id: self.id,
            remote_address: self.remote_address,
            pending_messages: self.pending_messages@,
        }
    }
}

impl Connection {
    /// A connection with nothing pending on it.
    pub fn new(id: ConnectionId, remote_address: Option<libp2p::Multiaddr>) -> (c: Self)
        ensures
            c@ == (ConnectionView { id, remote_address, pending_messages: Set::empty() }),
    {
        Connection { id, remote_address, pending_messages: HashSet::new() }
    }
}

/// The connections of one peer, in the order in which they were established.
///
/// Holds a `smallvec::SmallVec` with room for two connections before it
/// allocates: most peers have one connection or two. `SmallVec` is bounded by
/// its own `Array` trait, which cannot be named in a contract, so the list
/// is kept behind this type and nothing is proved of what is inside: what the
/// list holds is [`list_items`], and only the functions below touch it.
#[verifier::external_body]
pub struct ConnectionList {
    inner: SmallVec<[Connection; 2]>,
}

/// The connections that a list holds, first established first.
pub uninterp spec fn list_items(list: ConnectionList) -> Seq<Connection>;

impl View for ConnectionList {
    type V = Seq<ConnectionView>;

    open spec fn view(&self) -> Seq<ConnectionView> {
        list_items(*self).map_values(|c: Connection| c@)
    }
}

/// `SmallVec::new`: a list that holds nothing.
#[verifier::external_body]
pub(crate) fn list_new() -> (list: ConnectionList)
    ensures
        list_items(list) == Seq::<Connection>::empty(),
{
    ConnectionList { inner: SmallVec::new() }
}

/// `SmallVec::len`: the number of connections in the list.
#[verifier::external_body]
pub(crate) fn list_len(list: &ConnectionList) -> (n: usize)
    ensures
        n == list_items(*list).len(),
{
    list.inner.len()
}

/// `SmallVec::push`: the connection is added behind all others. Like
/// `Vec::push` it fails only where memory runs out.
#[verifier::external_body]
pub(crate) fn list_push(list: &mut ConnectionList, connection: Connection)
    ensures
        list_items(*final(list)) == list_items(*old(list)).push(connection),
{
    list.inner.push(connection)
}

/// `SmallVec::remove`: takes out and returns the connection at `index`; those
/// behind it move up and keep their order. `index` must be in bounds.
#[verifier::external_body]
pub(crate) fn list_remove(list: &mut ConnectionList, index: usize) -> (removed: Connection)
    requires
        index < list_items(*old(list)).len(),
    ensures
        removed == list_items(*old(list))[index as int],
        list_items(*final(list)) == list_items(*old(list)).remove(index as int),
{
    list.inner.remove(index)
}

/// Indexing a `SmallVec` (`Index::index`): the connection at `index`, which
/// must be in bounds.
#[verifier::external_body]
pub(crate) fn list_get(list: &ConnectionList, index: usize) -> (connection: &Connection)
    requires
        index < list_items(*list).len(),
    ensures
        *connection == list_items(*list)[index as int],
{
    &list.inner[index]
}

/// Indexing a `SmallVec` for writing (`IndexMut::index_mut`): the connection at
/// `index`, which must be in bounds. Whatever is written through the reference
/// takes that place in the list; the other places keep what they hold.
#[verifier::external_body]
pub(crate) fn list_get_mut(list: &mut ConnectionList, index: usize) -> (connection: &mut Connection)
    requires
        index < list_items(*old(list)).len(),
    ensures
        *connection == list_items(*old(list))[index as int],
        list_items(*final(list)) == list_items(*old(list)).update(index as int, *final(connection)),
{
    &mut list.inner[index]
}

/// The place of the first connection with the given identifier.
pub(crate) fn list_position(list: &ConnectionList, id: ConnectionId) -> (r: Option<usize>)
    ensures
        match r {
            Some(i) => {
                &&& i < list@.len()
                &&& list@[i as int].id == id
                &&& forall|j: int| 0 <= j < i ==> list@[j].id != id
            },
            None => forall|j: int| 0 <= j < list@.len() ==> list@[j].id != id,
        },
{
    let n: usize = list_len(list);
    let mut i: usize = 0;
    while i < n
        invariant
            i <= n,
            n == list@.len(),
            forall|j: int| 0 <= j < i ==> list@[j].id != id,
        decreases n - i,
    {
        if list_get(list, i).id == id {
            return Some(i);
        }
        i = i + 1;
    }
    None
}

} // verus!
