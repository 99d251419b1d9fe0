//! Identifiers of peers, connections and messages.

use vstd::prelude::*;

verus! {

/// Correlates a send with the event that later reports its outcome.
pub type MessageId = u64;

/// The stable identity of a remote endpoint, held as its byte encoding.
///
/// Two identifiers name the same peer exactly when their bytes are equal.
#[derive(Debug, PartialEq, Eq, Hash)]
pub struct PeerId {
    pub bytes: Vec<u8>,
}

impl View for PeerId {
    type V = Seq<u8>;

    open spec fn view(&self) -> Seq<u8> {
        self.bytes@
    }
}

impl PeerId {
    /// The identifier with the given byte encoding.
    pub fn from_bytes(bytes: Vec<u8>) -> (r: Self)
        ensures
            r@ == bytes@,
    {
        PeerId { bytes }
    }

    /// A copy of the byte encoding.
    pub fn to_bytes(&self) -> (r: Vec<u8>)
        ensures
            r@ == self@,
    {
        let mut out: Vec<u8> = Vec::new();
        let mut i: usize = 0;
        while i < self.bytes.len()
            invariant
                i <= self.bytes.len(),
                out@ == self.bytes@.take(i as int),
            decreases self.bytes.len() - i,
        {
            out.push(self.bytes[i]);
            proof {
                assert(self.bytes@.take(i + 1) =~= self.bytes@.take(i as int).push(
                    self.bytes@[i as int],
                ));
            }
            i = i + 1;
        }
        proof {
            assert(self.bytes@.take(self.bytes.len() as int) =~= self.bytes@);
        }
        out
    }

    /// Whether both identifiers name the same peer.
    pub fn same(&self, other: &PeerId) -> (b: bool)
        ensures
            b == (self@ == other@),
    {
        if self.bytes.len() != other.bytes.len() {
            return false;
        }
        let mut i: usize = 0;
        while i < self.bytes.len()
            invariant
                i <= self.bytes.len(),
                self.bytes.len() == other.bytes.len(),
                forall|j: int| 0 <= j < i ==> self.bytes@[j] == other.bytes@[j],
            decreases self.bytes.len() - i,
        {
            if self.bytes[i] != other.bytes[i] {
                return false;
            }
            i = i + 1;
        }
        proof {
            assert(self.bytes@ =~= other.bytes@);
        }
        true
    }
}

impl Clone for PeerId {
    fn clone(&self) -> (r: Self)
        ensures
            r@ == self@,
    {
        PeerId { bytes: self.to_bytes() }
    }
}

/// Identifies one established connection.
#[derive(Debug, Clone, Copy, PartialEq, Eq, Hash, Structural)]
pub struct ConnectionId(pub usize);

impl ConnectionId {
    /// The identifier with the given number. Nothing checks that the number is
    /// unused: whoever hands out connections keeps their numbers apart.
    pub fn new_unchecked(id: usize) -> (r: Self)
        ensures
            r == ConnectionId(id),
    {
        ConnectionId(id)
    }
}

/// A message on its way to a peer.
#[derive(Debug, PartialEq, Eq)]
pub struct OutboundMessage<M> {
    pub peer_id: PeerId,
    pub message_id: MessageId,
    pub message: M,
}

/// What an [`OutboundMessage`] is to the contracts: the peer by its bytes.
pub ghost struct OutboundMessageView<M> {
    pub peer_id: Seq<u8>,
    pub message_id: MessageId,
    pub message: M,
}

impl<M> View for OutboundMessage<M> {
    type V = OutboundMessageView<M>;

    open spec fn view(&self) -> OutboundMessageView<M> {
        OutboundMessageView {
            peer_id: self.peer_id@,
            message_id: self.message_id,
            message: self.message,
        }
    }
}

} // verus!
