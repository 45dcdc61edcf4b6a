//! What both sides of a connection share: the table of open conversations,
//! the directive that answers an inbound packet, and what is handed to the
//! application.

pub mod client;
pub mod server;

use crate::packet::{Kind, Packet, PacketView};
use std::collections::HashMap;
use vstd::prelude::*;

verus! {

broadcast use vstd::std_specs::hash::group_hash_axioms;

/// What the handler does on the connection after it has looked at an
/// inbound packet. Every inbound packet gets exactly one directive.
#[derive(Debug, Clone, PartialEq, Eq)]
pub enum SendBack<P> {
    /// Nothing.
    Nothing,
    /// Send this packet.
    Packet(P),
    /// End the connection once everything is written.
    Close,
    /// Send a last packet, the one that `Packet::close` makes, and end the
    /// connection.
    CloseWithPacket,
}

/// An open conversation, by what is still expected in it.
#[derive(Debug, Clone, Copy, PartialEq, Eq, Structural)]
pub enum Conversation {
    /// A request that waits for its single reply.
    AwaitingReply,
    /// A stream from the server to the client.
    ServerStream,
    /// A stream from the client to the server.
    ClientStream,
}

/// Where a handler stands.
#[derive(Debug, Clone, Copy, PartialEq, Eq, Structural)]
pub enum State {
    /// Conversations are opened and served.
    Running,
    /// A close was asked for on this side and announced to the peer.
    Closing,
    /// The connection has ended.
    Terminated,
}

/// An inbound packet that does not fit the conversations that are open.
#[derive(Debug, Clone, Copy, PartialEq, Eq, Structural)]
pub enum ProtocolError {
    /// No open conversation has the id of the packet: the conversation
    /// never existed, or it has ended, as with a second reply.
    UnexpectedId,
    /// The packet is of a kind that its conversation does not expect, or
    /// that this side does not take.
    UnexpectedKind,
}

/// A conversation that the peer has opened.
#[derive(Debug, Clone, PartialEq, Eq)]
pub enum Message<P> {
    /// A request that expects a single reply.
    Request(P),
    /// A request that expects a stream of replies.
    RequestReceiver(P),
    /// A request that is followed by a stream from the peer.
    RequestSender(P),
}

/// What an inbound packet means to the application.
#[derive(Debug, Clone, PartialEq, Eq)]
pub enum Delivery<P> {
    /// Nothing.
    Nothing,
    /// The peer has opened a conversation.
    Message(Message<P>),
    /// The single reply of the conversation with the id of the packet,
    /// which thereby ends.
    Reply(P),
    /// The conversation with this id ends without a reply.
    NoReply(u32),
    /// The next item of the stream with the id of the packet.
    Item(P),
    /// The stream with this id ends: no more items will arrive.
    End(u32),
    /// The packet was refused.
    Rejected(ProtocolError),
}

/// The answer to one inbound packet.
#[derive(Debug, Clone, PartialEq, Eq)]
pub struct Reaction<P> {
    pub send_back: SendBack<P>,
    pub delivery: Delivery<P>,
}

/// An operation on a conversation could not be carried out.
#[derive(Debug, Clone, Copy, PartialEq, Eq, Structural)]
pub enum StreamError {
    /// The conversation is not open, or not of the kind that the operation
    /// needs: it has ended, or it never existed.
    StreamAlreadyClosed,
    /// The connection does not open conversations any more.
    ConnectionClosed,
    /// Every id is taken by an open conversation.
    NoFreeId,
    /// The body is too large for a packet.
    BodyTooLarge,
}

/// A directive as a mathematical value.
pub open spec fn send_back_view(s: SendBack<Packet>) -> SendBack<PacketView> {
    match s {
        SendBack::Nothing => SendBack::Nothing,
        SendBack::Packet(p) => SendBack::Packet(p@),
        SendBack::Close => SendBack::Close,
        SendBack::CloseWithPacket => SendBack::CloseWithPacket,
    }
}

/// An opening as a mathematical value.
pub open spec fn message_view(m: Message<Packet>) -> Message<PacketView> {
    match m {
        Message::Request(p) => Message::Request(p@),
        Message::RequestReceiver(p) => Message::RequestReceiver(p@),
        Message::RequestSender(p) => Message::RequestSender(p@),
    }
}

/// A delivery as a mathematical value.
pub open spec fn delivery_view(d: Delivery<Packet>) -> Delivery<PacketView> {
    match d {
        Delivery::Nothing => Delivery::Nothing,
        Delivery::Message(m) => Delivery::Message(message_view(m)),
        Delivery::Reply(p) => Delivery::Reply(p@),
        Delivery::NoReply(id) => Delivery::NoReply(id),
        Delivery::Item(p) => Delivery::Item(p@),
        Delivery::End(id) => Delivery::End(id),
        Delivery::Rejected(e) => Delivery::Rejected(e),
    }
}

/// An answer as a mathematical value.
pub open spec fn reaction_view(r: Reaction<Packet>) -> Reaction<PacketView> {
    Reaction { send_back: send_back_view(r.send_back), delivery: delivery_view(r.delivery) }
}

impl<P> Reaction<P> {
    /// The answer to a packet that changes nothing.
    pub open spec fn nothing() -> Reaction<P> {
        Reaction { send_back: SendBack::Nothing, delivery: Delivery::Nothing }
    }

    /// The answer to a packet that is refused.
    pub open spec fn rejected(e: ProtocolError) -> Reaction<P> {
        Reaction { send_back: SendBack::Nothing, delivery: Delivery::Rejected(e) }
    }

    /// The answer that only hands something to the application.
    pub open spec fn deliver(delivery: Delivery<P>) -> Reaction<P> {
        Reaction { send_back: SendBack::Nothing, delivery }
    }
}

impl PacketView {
    /// The packet that ends the connection.
    pub open spec fn close() -> PacketView {
        PacketView { kind: Kind::Close, id: 0, body: Seq::empty() }
    }

    /// A packet without a body.
    pub open spec fn bare(kind: Kind, id: u32) -> PacketView {
        PacketView { kind, id, body: Seq::empty() }
    }
}

impl Packet {
    /// The packet that ends the connection.
    pub fn close() -> (packet: Packet)
        ensures
            packet@ == PacketView::close(),
    {
        Packet { kind: Kind::Close, id: 0, body: Vec::new() }
    }

    /// A packet without a body.
    pub fn bare(kind: Kind, id: u32) -> (packet: Packet)
        ensures
            packet@ == PacketView::bare(kind, id),
    {
        Packet { kind, id, body: Vec::new() }
    }
}

/// The conversation that `table` holds under `id`.
pub open spec fn lookup(table: Map<u32, Conversation>, id: u32) -> Option<Conversation> {
    if table.contains_key(id) {
        Some(table[id])
    } else {
        None
    }
}

/// Why a packet does not fit `table`: its id is unknown, or its
/// conversation expects something else.
pub open spec fn misfit(table: Map<u32, Conversation>, id: u32) -> ProtocolError {
    if table.contains_key(id) {
        ProtocolError::UnexpectedKind
    } else {
        ProtocolError::UnexpectedId
    }
}

/// `id` is the first id from `start` upwards that `table` does not hold.
pub open spec fn first_free_from(table: Map<u32, Conversation>, start: u32, id: u32) -> bool {
    &&& start <= id
    &&& !table.contains_key(id)
    &&& forall|k: u32| start <= k < id ==> table.contains_key(k)
}

/// The id for the next conversation: the first free id from `start`
/// upwards, or else the first free id from zero upwards; `None` where every
/// id is taken.
pub open spec fn free_id(table: Map<u32, Conversation>, start: u32, id: Option<u32>) -> bool {
    match id {
        Some(id) => first_free_from(table, start, id) || ((forall|k: u32|
            start <= k ==> table.contains_key(k)) && first_free_from(table, 0, id)),
        None => forall|k: u32| table.contains_key(k),
    }
}

/// The open conversations of one connection, by id. An id has at most one
/// conversation.
pub struct Conversations {
    table: HashMap<u32, Conversation>,
}

impl View for Conversations {
    type V = Map<u32, Conversation>;

    closed spec fn view(&self) -> Map<u32, Conversation> {
        self.table@
    }
}

impl Conversations {
    /// A table without conversations.
    pub fn new() -> (table: Conversations)
        ensures
            table@ == Map::<u32, Conversation>::empty(),
    {
        Conversations { table: HashMap::new() }
    }

    /// The conversation that is open under `id`.
    pub fn get(&self, id: u32) -> (found: Option<Conversation>)
        ensures
            found == lookup(self@, id),
    {
        match self.table.get(&id) {
            Some(c) => Some(*c),
            None => None,
        }
    }

    /// Opens the conversation `id`, in place of the one that had the id.
    pub fn insert(&mut self, id: u32, conversation: Conversation)
        ensures
            final(self)@ == old(self)@.insert(id, conversation),
    {
        self.table.insert(id, conversation);
    }

    /// Ends the conversation `id` and returns what it was.
    pub fn remove(&mut self, id: u32) -> (found: Option<Conversation>)
        ensures
            found == lookup(old(self)@, id),
            final(self)@ == old(self)@.remove(id),
    {
        self.table.remove(&id)
    }

    /// Ends every conversation.
    pub fn clear(&mut self)
        ensures
            final(self)@ == Map::<u32, Conversation>::empty(),
    {
        self.table.clear();
    }

    /// The number of open conversations.
    pub fn len(&self) -> (n: usize)
        ensures
            n == self@.len(),
            self@.dom().finite(),
    {
        self.table.len()
    }

    /// An id for a new conversation.
    pub fn free_id(&self, start: u32) -> (id: Option<u32>)
        ensures
            free_id(self@, start, id),
    {
        let mut k: u32 = start;
        loop
            invariant_except_break
                start <= k,
                forall|j: u32| start <= j < k ==> self@.contains_key(j),
            ensures
                forall|j: u32| start <= j ==> self@.contains_key(j),
            decreases u32::MAX - k,
        {
            if self.get(k).is_none() {
                return Some(k);
            }
            if k == u32::MAX {
                break ;
            }
            k += 1;
        }
        let mut k: u32 = 0;
        while k < start
            invariant
                k <= start,
                forall|j: u32| start <= j ==> self@.contains_key(j),
                forall|j: u32| j < k ==> self@.contains_key(j),
            decreases start - k,
        {
            if self.get(k).is_none() {
                return Some(k);
            }
            k += 1;
        }
        None
    }
}

} // verus!
