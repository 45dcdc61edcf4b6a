//! The client side of a connection: it opens the conversations, gives each
//! its id, and brings every inbound packet to the conversation it belongs
//! to.

use crate::handler::{
    Conversation, Conversations, Delivery, ProtocolError, Reaction, SendBack, State, StreamError,
};
use crate::handler::{free_id, lookup, misfit, reaction_view};
use crate::packet::{Kind, Packet, PacketView};
use vstd::prelude::*;

verus! {

/// The state of the client side.
pub struct Handler {
    state: State,
    conversations: Conversations,
    /// Where the search for the next id starts.
    next_id: u32,
}

/// The client side as a mathematical value.
pub struct HandlerView {
    pub state: State,
    pub conversations: Map<u32, Conversation>,
    pub next_id: u32,
}

/// The kind of the packet that opens a conversation.
pub open spec fn spec_opening_kind(conversation: Conversation) -> Kind {
    match conversation {
        Conversation::AwaitingReply => Kind::Request,
        Conversation::ServerStream => Kind::RequestReceiver,
        Conversation::ClientStream => Kind::RequestSender,
    }
}

/// The kind of the packet that opens a conversation.
#[verifier::when_used_as_spec(spec_opening_kind)]
pub fn opening_kind(conversation: Conversation) -> (kind: Kind)
    ensures
        kind == spec_opening_kind(conversation),
{
    match conversation {
        Conversation::AwaitingReply => Kind::Request,
        Conversation::ServerStream => Kind::RequestReceiver,
        Conversation::ClientStream => Kind::RequestSender,
    }
}

/// The id after `id`, starting over at zero.
pub open spec fn following(id: u32) -> u32 {
    if id == u32::MAX {
        0
    } else {
        (id + 1) as u32
    }
}

impl HandlerView {
    /// A client without conversations.
    pub open spec fn fresh() -> HandlerView {
        HandlerView { state: State::Running, conversations: Map::empty(), next_id: 0 }
    }

    /// The client after the conversation `id` has ended.
    pub open spec fn without(self, id: u32) -> HandlerView {
        HandlerView { conversations: self.conversations.remove(id), ..self }
    }

    /// The client after the connection has ended, and every conversation
    /// with it.
    pub open spec fn terminated(self) -> HandlerView {
        HandlerView { state: State::Terminated, conversations: Map::empty(), ..self }
    }

    /// The client after the inbound packet `p`, and its answer.
    ///
    /// A reply goes to the request that waits under its id, and ends it. An
    /// item goes to the stream from the server that is open under its id.
    /// The end of a stream ends the stream under its id, whichever way it
    /// runs. The close packet ends the connection: it is answered with a
    /// close packet, unless this side has asked for the close itself.
    /// Everything else is refused and changes nothing.
    pub open spec fn on_packet(self, p: PacketView) -> (HandlerView, Reaction<PacketView>) {
        let open = lookup(self.conversations, p.id);
        if self.state == State::Terminated {
            (self, Reaction::nothing())
        } else {
            match p.kind {
                Kind::Close => (
                    self.terminated(),
                    Reaction {
                        send_back: if self.state == State::Running {
                            SendBack::CloseWithPacket
                        } else {
                            SendBack::Close
                        },
                        delivery: Delivery::Nothing,
                    },
                ),
                Kind::Response => if open == Some(Conversation::AwaitingReply) {
                    (self.without(p.id), Reaction::deliver(Delivery::Reply(p)))
                } else {
                    (self, Reaction::rejected(misfit(self.conversations, p.id)))
                },
                Kind::NoResponse => if open == Some(Conversation::AwaitingReply) {
                    (self.without(p.id), Reaction::deliver(Delivery::NoReply(p.id)))
                } else {
                    (self, Reaction::rejected(misfit(self.conversations, p.id)))
                },
                Kind::Stream => if open == Some(Conversation::ServerStream) {
                    (self, Reaction::deliver(Delivery::Item(p)))
                } else {
                    (self, Reaction::rejected(misfit(self.conversations, p.id)))
                },
                Kind::StreamClosed => if open == Some(Conversation::ServerStream) || open == Some(
                    Conversation::ClientStream,
                ) {
                    (self.without(p.id), Reaction::deliver(Delivery::End(p.id)))
                } else {
                    (self, Reaction::rejected(misfit(self.conversations, p.id)))
                },
                _ => (self, Reaction::rejected(ProtocolError::UnexpectedKind)),
            }
        }
    }

    /// The client after the inbound packets, in their order.
    pub open spec fn after(self, inbound: Seq<PacketView>) -> HandlerView
        decreases inbound.len(),
    {
        if inbound.len() == 0 {
            self
        } else {
            self.after(inbound.drop_last()).on_packet(inbound.last()).0
        }
    }

    /// The answers to the inbound packets, one for each, in their order.
    pub open spec fn answers(self, inbound: Seq<PacketView>) -> Seq<Reaction<PacketView>>
        decreases inbound.len(),
    {
        if inbound.len() == 0 {
            Seq::empty()
        } else {
            self.answers(inbound.drop_last()).push(
                self.after(inbound.drop_last()).on_packet(inbound.last()).1,
            )
        }
    }

    /// What is handed to the application for `p` belongs to the
    /// conversation of `p`: a reply is the packet itself, for a request
    /// that waits under its id; an item is the packet itself, for a stream
    /// from the server that is open under its id; an end is that of the
    /// conversation under its id.
    pub open spec fn delivers_in_place(self, p: PacketView, d: Delivery<PacketView>) -> bool {
        match d {
            Delivery::Nothing => true,
            Delivery::Rejected(_) => true,
            Delivery::Message(_) => false,
            Delivery::Reply(q) => q == p && lookup(self.conversations, p.id) == Some(
                Conversation::AwaitingReply,
            ),
            Delivery::NoReply(id) => id == p.id && lookup(self.conversations, p.id) == Some(
                Conversation::AwaitingReply,
            ),
            Delivery::Item(q) => q == p && lookup(self.conversations, p.id) == Some(
                Conversation::ServerStream,
            ),
            Delivery::End(id) => id == p.id && self.conversations.contains_key(p.id),
        }
    }
}

impl View for Handler {
    type V = HandlerView;

    closed spec fn view(&self) -> HandlerView {
        HandlerView {
            state: self.state,
            conversations: self.conversations@,
            next_id: self.next_id,
        }
    }
}

impl Handler {
    /// A client without conversations.
    pub fn new() -> (handler: Handler)
        ensures
            handler@ == HandlerView::fresh(),
    {
        Handler { state: State::Running, conversations: Conversations::new(), next_id: 0 }
    }

    /// Where the connection stands.
    pub fn state(&self) -> (state: State)
        ensures
            state == self@.state,
    {
        self.state
    }

    /// The conversation that is open under `id`.
    pub fn conversation(&self, id: u32) -> (found: Option<Conversation>)
        ensures
            found == lookup(self@.conversations, id),
    {
        self.conversations.get(id)
    }

    /// The number of open conversations.
    pub fn pending(&self) -> (n: usize)
        ensures
            n == self@.conversations.len(),
    {
        self.conversations.len()
    }

    /// Opens a conversation and returns the packet to send, which carries
    /// the id of the conversation.
    ///
    /// The id is the first free one from where the last search ended, so
    /// that no id is given out twice while its conversation is open. This
    /// fails where the connection is closing or has ended, and where every
    /// id is taken.
    pub fn open(&mut self, conversation: Conversation, body: Vec<u8>) -> (r: Result<
        Packet,
        StreamError,
    >)
        ensures
            match r {
                Ok(packet) => {
                    &&& old(self)@.state == State::Running
                    &&& free_id(old(self)@.conversations, old(self)@.next_id, Some(packet.id))
                    &&& packet@ == (PacketView {
                        kind: spec_opening_kind(conversation),
                        id: packet.id,
                        body: body@,
                    })
                    &&& final(self)@ == (HandlerView {
                        state: State::Running,
                        conversations: old(self)@.conversations.insert(packet.id, conversation),
                        next_id: following(packet.id),
                    })
                },
                Err(e) => {
                    &&& final(self)@ == old(self)@
                    &&& e == if old(self)@.state != State::Running {
                        StreamError::ConnectionClosed
                    } else {
                        StreamError::NoFreeId
                    }
                    &&& old(self)@.state == State::Running ==> free_id(
                        old(self)@.conversations,
                        old(self)@.next_id,
                        None,
                    )
                },
            },
    {
        match self.state {
            State::Running => {},
            _ => {
                return Err(StreamError::ConnectionClosed);
            },
        }
        let id = match self.conversations.free_id(self.next_id) {
            Some(id) => id,
            None => {
                return Err(StreamError::NoFreeId);
            },
        };
        self.conversations.insert(id, conversation);
        self.next_id = if id == u32::MAX {
            0
        } else {
            id + 1
        };
        Ok(Packet { kind: opening_kind(conversation), id, body })
    }

    /// Opens a conversation that ends with a single reply.
    pub fn request(&mut self, body: Vec<u8>) -> (r: Result<Packet, StreamError>)
        ensures
            r is Ok <==> old(self)@.state == State::Running && !free_id(
                old(self)@.conversations,
                old(self)@.next_id,
                None,
            ),
            match r {
                Ok(packet) => {
                    &&& free_id(old(self)@.conversations, old(self)@.next_id, Some(packet.id))
                    &&& packet@ == (PacketView { kind: Kind::Request, id: packet.id, body: body@ })
                    &&& final(self)@ == (HandlerView {
                        state: State::Running,
                        conversations: old(self)@.conversations.insert(
                            packet.id,
                            Conversation::AwaitingReply,
                        ),
                        next_id: following(packet.id),
                    })
                },
                Err(_) => final(self)@ == old(self)@,
            },
    {
        self.open(Conversation::AwaitingReply, body)
    }

    /// Opens a conversation in which the server streams to this side.
    pub fn request_receiver(&mut self, body: Vec<u8>) -> (r: Result<Packet, StreamError>)
        ensures
            r is Ok <==> old(self)@.state == State::Running && !free_id(
                old(self)@.conversations,
                old(self)@.next_id,
                None,
            ),
            match r {
                Ok(packet) => {
                    &&& free_id(old(self)@.conversations, old(self)@.next_id, Some(packet.id))
                    &&& packet@ == (PacketView {
                        kind: Kind::RequestReceiver,
                        id: packet.id,
                        body: body@,
                    })
                    &&& final(self)@ == (HandlerView {
                        state: State::Running,
                        conversations: old(self)@.conversations.insert(
                            packet.id,
                            Conversation::ServerStream,
                        ),
                        next_id: following(packet.id),
                    })
                },
                Err(_) => final(self)@ == old(self)@,
            },
    {
        self.open(Conversation::ServerStream, body)
    }

    /// Opens a conversation in which this side streams to the server.
    pub fn request_sender(&mut self, body: Vec<u8>) -> (r: Result<Packet, StreamError>)
        ensures
            r is Ok <==> old(self)@.state == State::Running && !free_id(
                old(self)@.conversations,
                old(self)@.next_id,
                None,
            ),
            match r {
                Ok(packet) => {
                    &&& free_id(old(self)@.conversations, old(self)@.next_id, Some(packet.id))
                    &&& packet@ == (PacketView {
                        kind: Kind::RequestSender,
                        id: packet.id,
                        body: body@,
                    })
                    &&& final(self)@ == (HandlerView {
                        state: State::Running,
                        conversations: old(self)@.conversations.insert(
                            packet.id,
                            Conversation::ClientStream,
                        ),
                        next_id: following(packet.id),
                    })
                },
                Err(_) => final(self)@ == old(self)@,
            },
    {
        self.open(Conversation::ClientStream, body)
    }

    /// The packet that carries the next item of the stream `id` to the
    /// server. Fails where no stream to the server is open under `id`.
    pub fn stream_send(&self, id: u32, body: Vec<u8>) -> (r: Result<Packet, StreamError>)
        ensures
            r == if lookup(self@.conversations, id) == Some(Conversation::ClientStream) {
                Ok::<Packet, StreamError>(Packet { kind: Kind::Stream, id, body })
            } else {
                Err::<Packet, StreamError>(StreamError::StreamAlreadyClosed)
            },
    {
        match self.conversations.get(id) {
            Some(Conversation::ClientStream) => Ok(Packet { kind: Kind::Stream, id, body }),
            _ => Err(StreamError::StreamAlreadyClosed),
        }
    }

    /// Ends the conversation `id` from this side, as when the application
    /// lets go of its end of it, and returns the packet that tells the
    /// server so: a stream is closed, a request is given up in silence.
    pub fn end(&mut self, id: u32) -> (notice: Option<Packet>)
        ensures
            final(self)@ == old(self)@.without(id),
            match lookup(old(self)@.conversations, id) {
                Some(Conversation::ServerStream) | Some(Conversation::ClientStream) => {
                    &&& notice matches Some(p)
                    &&& p@ == PacketView::bare(Kind::StreamClosed, id)
                },
                _ => notice is None,
            },
    {
        match self.conversations.remove(id) {
            Some(Conversation::ServerStream) | Some(Conversation::ClientStream) => Some(
                Packet::bare(Kind::StreamClosed, id),
            ),
            _ => None,
        }
    }

    /// Asks for the end of the connection and returns the close packet to
    /// send. Where the close was asked for before, or the connection has
    /// ended, this changes nothing and returns nothing.
    pub fn close(&mut self) -> (notice: Option<Packet>)
        ensures
            old(self)@.state == State::Running ==> {
                &&& final(self)@ == (HandlerView { state: State::Closing, ..old(self)@ })
                &&& notice matches Some(p)
                &&& p@ == PacketView::close()
            },
            old(self)@.state != State::Running ==> final(self)@ == old(self)@ && notice is None,
    {
        match self.state {
            State::Running => {
                self.state = State::Closing;
                Some(Packet::close())
            },
            _ => None,
        }
    }

    /// Ends the connection and every conversation with it, as when the
    /// stream is lost for good.
    pub fn terminate(&mut self)
        ensures
            final(self)@ == old(self)@.terminated(),
    {
        self.state = State::Terminated;
        self.conversations.clear();
    }

    /// Takes an inbound packet and returns the directive for the connection
    /// and what to hand to the application.
    pub fn on_packet(&mut self, packet: Packet) -> (r: Reaction<Packet>)
        ensures
            (final(self)@, reaction_view(r)) == old(self)@.on_packet(packet@),
    {
        let nothing = Reaction { send_back: SendBack::Nothing, delivery: Delivery::Nothing };
        let closing = match self.state {
            State::Terminated => {
                return nothing;
            },
            State::Running => false,
            State::Closing => true,
        };
        let open = self.conversations.get(packet.id);
        let misfit = if open.is_some() {
            ProtocolError::UnexpectedKind
        } else {
            ProtocolError::UnexpectedId
        };
        let rejected = Reaction {
            send_back: SendBack::Nothing,
            delivery: Delivery::Rejected(misfit),
        };
        match packet.kind {
            Kind::Close => {
                self.terminate();
                Reaction {
                    send_back: if closing {
                        SendBack::Close
                    } else {
                        SendBack::CloseWithPacket
                    },
                    delivery: Delivery::Nothing,
                }
            },
            Kind::Response => match open {
                Some(Conversation::AwaitingReply) => {
                    self.conversations.remove(packet.id);
                    Reaction { send_back: SendBack::Nothing, delivery: Delivery::Reply(packet) }
                },
                _ => rejected,
            },
            Kind::NoResponse => match open {
                Some(Conversation::AwaitingReply) => {
                    self.conversations.remove(packet.id);
                    Reaction {
                        send_back: SendBack::Nothing,
                        delivery: Delivery::NoReply(packet.id),
                    }
                },
                _ => rejected,
            },
            Kind::Stream => match open {
                Some(Conversation::ServerStream) => Reaction {
                    send_back: SendBack::Nothing,
                    delivery: Delivery::Item(packet),
                },
                _ => rejected,
            },
            Kind::StreamClosed => match open {
                Some(Conversation::ServerStream) | Some(Conversation::ClientStream) => {
                    self.conversations.remove(packet.id);
                    Reaction { send_back: SendBack::Nothing, delivery: Delivery::End(packet.id) }
                },
                _ => rejected,
            },
            _ => Reaction {
                send_back: SendBack::Nothing,
                delivery: Delivery::Rejected(ProtocolError::UnexpectedKind),
            },
        }
    }
}

/// Every inbound packet has exactly one answer, and the answers come in the
/// order of the packets.
pub proof fn lemma_one_answer_each(v: HandlerView, inbound: Seq<PacketView>)
    ensures
        v.answers(inbound).len() == inbound.len(),
        forall|i: int|
            0 <= i < inbound.len() ==> #[trigger] v.answers(inbound)[i] == v.after(
                inbound.take(i),
            ).on_packet(inbound[i]).1,
    decreases inbound.len(),
{
    if inbound.len() > 0 {
        let front = inbound.drop_last();
        lemma_one_answer_each(v, front);
        assert forall|i: int| 0 <= i < inbound.len() implies #[trigger] v.answers(inbound)[i]
            == v.after(inbound.take(i)).on_packet(inbound[i]).1 by {
            if i < front.len() {
                assert(front.take(i) =~= inbound.take(i));
            } else {
                assert(inbound.take(i) =~= front);
            }
        }
    }
}

/// Whatever packets arrive, in whatever order the conversations take
/// turns: what is handed to the application for the packet at `i` is that
/// packet, unchanged, and goes to the conversation that is open under its
/// id at that moment, never to another. So the items of a conversation
/// reach it in the order in which they arrived.
pub proof fn lemma_deliveries_in_order(v: HandlerView, inbound: Seq<PacketView>, i: int)
    requires
        0 <= i < inbound.len(),
    ensures
        v.answers(inbound).len() == inbound.len(),
        v.after(inbound.take(i)).delivers_in_place(inbound[i], v.answers(inbound)[i].delivery),
{
    lemma_one_answer_each(v, inbound);
}

/// The answers to a sequence of packets, taken from the front: the answer
/// to the first, then the answers that the handler gives afterwards to the
/// others.
pub proof fn lemma_answers_unfold(v: HandlerView, first: PacketView, rest: Seq<PacketView>)
    ensures
        v.after(seq![first] + rest) == v.on_packet(first).0.after(rest),
        v.answers(seq![first] + rest) == seq![v.on_packet(first).1] + v.on_packet(first).0.answers(
            rest,
        ),
    decreases rest.len(),
{
    let all = seq![first] + rest;
    let next = v.on_packet(first).0;
    if rest.len() == 0 {
        assert(all.drop_last() =~= Seq::<PacketView>::empty());
        assert(all.last() == first);
        assert(v.after(all.drop_last()) == v);
        assert(v.answers(all.drop_last()) =~= Seq::<Reaction<PacketView>>::empty());
        assert(v.answers(all) =~= seq![v.on_packet(first).1] + next.answers(rest));
    } else {
        assert(all.drop_last() =~= seq![first] + rest.drop_last());
        assert(all.last() == rest.last());
        lemma_answers_unfold(v, first, rest.drop_last());
        assert(v.answers(all) =~= seq![v.on_packet(first).1] + next.answers(rest));
    }
}

} // verus!
