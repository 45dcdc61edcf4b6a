//! The server side of a connection: it takes the conversations that the
//! client opens, hands each to the application, and sends what the
//! application answers.

use crate::handler::{
    Conversation, Conversations, Delivery, Message, ProtocolError, Reaction, SendBack, State,
    StreamError,
};
use crate::handler::{lookup, misfit, reaction_view};
use crate::packet::{Kind, Packet, PacketView};
use vstd::prelude::*;

verus! {

/// The state of the server side.
pub struct Handler {
    state: State,
    conversations: Conversations,
}

/// The server side as a mathematical value.
pub struct HandlerView {
    pub state: State,
    pub conversations: Map<u32, Conversation>,
}

/// The conversation that a packet of this kind opens, if it opens one.
pub open spec fn spec_opened_by(kind: Kind) -> Option<Conversation> {
    match kind {
        Kind::Request => Some(Conversation::AwaitingReply),
        Kind::RequestReceiver => Some(Conversation::ServerStream),
        Kind::RequestSender => Some(Conversation::ClientStream),
        _ => None,
    }
}

/// The conversation that a packet of this kind opens, if it opens one.
#[verifier::when_used_as_spec(spec_opened_by)]
pub fn opened_by(kind: Kind) -> (conversation: Option<Conversation>)
    ensures
        conversation == spec_opened_by(kind),
{
    match kind {
        Kind::Request => Some(Conversation::AwaitingReply),
        Kind::RequestReceiver => Some(Conversation::ServerStream),
        Kind::RequestSender => Some(Conversation::ClientStream),
        _ => None,
    }
}

/// The kind of the packet that ends a conversation from this side: a
/// request ends without a reply, a stream is closed.
pub open spec fn spec_ending_kind(conversation: Conversation) -> Kind {
    match conversation {
        Conversation::AwaitingReply => Kind::NoResponse,
        _ => Kind::StreamClosed,
    }
}

/// The kind of the packet that ends a conversation from this side.
#[verifier::when_used_as_spec(spec_ending_kind)]
pub fn ending_kind(conversation: Conversation) -> (kind: Kind)
    ensures
        kind == spec_ending_kind(conversation),
{
    match conversation {
        Conversation::AwaitingReply => Kind::NoResponse,
        _ => Kind::StreamClosed,
    }
}

/// The opening packet `p` as the application gets it.
pub open spec fn opening<P>(conversation: Conversation, p: P) -> Message<P> {
    match conversation {
        Conversation::AwaitingReply => Message::Request(p),
        Conversation::ServerStream => Message::RequestReceiver(p),
        Conversation::ClientStream => Message::RequestSender(p),
    }
}

impl HandlerView {
    /// A server without conversations.
    pub open spec fn fresh() -> HandlerView {
        HandlerView { state: State::Running, conversations: Map::empty() }
    }

    /// The server after the conversation `id` has ended.
    pub open spec fn without(self, id: u32) -> HandlerView {
        HandlerView { conversations: self.conversations.remove(id), ..self }
    }

    /// The server after the connection has ended, and every conversation
    /// with it.
    pub open spec fn terminated(self) -> HandlerView {
        HandlerView { state: State::Terminated, conversations: Map::empty() }
    }

    /// The server after the inbound packet `p`, and its answer.
    ///
    /// A packet that opens a conversation under a free id is handed to the
    /// application, in the shape of its kind, and the conversation is open
    /// from then on; while this side is closing, the conversation is ended
    /// at once instead. An item goes to the stream from the client that is
    /// open under its id. The end of a stream ends the stream under its id,
    /// whichever way it runs. The close packet ends the connection: it is
    /// answered with a close packet, unless this side has asked for the
    /// close itself. Everything else is refused and changes nothing.
    pub open spec fn on_packet(self, p: PacketView) -> (HandlerView, Reaction<PacketView>) {
        let open = lookup(self.conversations, p.id);
        if self.state == State::Terminated {
            (self, Reaction::nothing())
        } else if p.kind == Kind::Close {
            (
                self.terminated(),
                Reaction {
                    send_back: if self.state == State::Running {
                        SendBack::CloseWithPacket
                    } else {
                        SendBack::Close
                    },
                    delivery: Delivery::Nothing,
                },
            )
        } else if let Some(conversation) = spec_opened_by(p.kind) {
            if open is Some {
                (self, Reaction::rejected(ProtocolError::UnexpectedKind))
            } else if self.state == State::Closing {
                (
                    self,
                    Reaction {
                        send_back: SendBack::Packet(
                            PacketView::bare(spec_ending_kind(conversation), p.id),
                        ),
                        delivery: Delivery::Nothing,
                    },
                )
            } else {
                (
                    HandlerView {
                        conversations: self.conversations.insert(p.id, conversation),
                        ..self
                    },
                    Reaction::deliver(Delivery::Message(opening(conversation, p))),
                )
            }
        } else if p.kind == Kind::Stream {
            if open == Some(Conversation::ClientStream) {
                (self, Reaction::deliver(Delivery::Item(p)))
            } else {
                (self, Reaction::rejected(misfit(self.conversations, p.id)))
            }
        } else if p.kind == Kind::StreamClosed {
            if open == Some(Conversation::ServerStream) || open == Some(
                Conversation::ClientStream,
            ) {
                (self.without(p.id), Reaction::deliver(Delivery::End(p.id)))
            } else {
                (self, Reaction::rejected(misfit(self.conversations, p.id)))
            }
        } else {
            (self, Reaction::rejected(ProtocolError::UnexpectedKind))
        }
    }

    /// The server after the inbound packets, in their order.
    pub open spec fn after(self, inbound: Seq<PacketView>) -> HandlerView
        decreases inbound.len(),
    {
        if inbound.len() == 0 {
            self
        } else {
            self.after(inbound.drop_last()).on_packet(inbound.last()).0
        }
    }

    /// The answers to the inbound packets, one for each, in their order.
    pub open spec fn answers(self, inbound: Seq<PacketView>) -> Seq<Reaction<PacketView>>
        decreases inbound.len(),
    {
        if inbound.len() == 0 {
            Seq::empty()
        } else {
            self.answers(inbound.drop_last()).push(
                self.after(inbound.drop_last()).on_packet(inbound.last()).1,
            )
        }
    }

    /// What is handed to the application for `p` belongs to the
    /// conversation of `p`: an opening is the packet itself, in the shape
    /// of its kind, under an id that was free; an item is the packet
    /// itself, for a stream from the client that is open under its id; an
    /// end is that of the conversation under its id.
    pub open spec fn delivers_in_place(self, p: PacketView, d: Delivery<PacketView>) -> bool {
        match d {
            Delivery::Nothing => true,
            Delivery::Rejected(_) => true,
            Delivery::Message(m) => {
                &&& spec_opened_by(p.kind) matches Some(conversation)
                &&& m == opening(conversation, p)
                &&& !self.conversations.contains_key(p.id)
            },
            Delivery::Reply(_) => false,
            Delivery::NoReply(_) => false,
            Delivery::Item(q) => q == p && lookup(self.conversations, p.id) == Some(
                Conversation::ClientStream,
            ),
            Delivery::End(id) => id == p.id && self.conversations.contains_key(p.id),
        }
    }
}

impl View for Handler {
    type V = HandlerView;

    closed spec fn view(&self) -> HandlerView {
        HandlerView { state: self.state, conversations: self.conversations@ }
    }
}

impl Handler {
    /// A server without conversations.
    pub fn new() -> (handler: Handler)
        ensures
            handler@ == HandlerView::fresh(),
    {
        Handler { state: State::Running, conversations: Conversations::new() }
    }

    /// Where the connection stands.
    pub fn state(&self) -> (state: State)
        ensures
            state == self@.state,
    {
        self.state
    }

    /// The conversation that is open under `id`.
    pub fn conversation(&self, id: u32) -> (found: Option<Conversation>)
        ensures
            found == lookup(self@.conversations, id),
    {
        self.conversations.get(id)
    }

    /// The number of open conversations.
    pub fn pending(&self) -> (n: usize)
        ensures
            n == self@.conversations.len(),
    {
        self.conversations.len()
    }

    /// The packet that carries the single reply to the request `id`, which
    /// thereby ends. Fails where no request waits under `id`.
    pub fn respond(&mut self, id: u32, body: Vec<u8>) -> (r: Result<Packet, StreamError>)
        ensures
            lookup(old(self)@.conversations, id) == Some(Conversation::AwaitingReply) ==> {
                &&& r == Ok::<Packet, StreamError>(Packet { kind: Kind::Response, id, body })
                &&& final(self)@ == old(self)@.without(id)
            },
            lookup(old(self)@.conversations, id) != Some(Conversation::AwaitingReply) ==> {
                &&& r == Err::<Packet, StreamError>(StreamError::StreamAlreadyClosed)
                &&& final(self)@ == old(self)@
            },
    {
        match self.conversations.get(id) {
            Some(Conversation::AwaitingReply) => {
                self.conversations.remove(id);
                Ok(Packet { kind: Kind::Response, id, body })
            },
            _ => Err(StreamError::StreamAlreadyClosed),
        }
    }

    /// The packet that carries the next item of the stream `id` to the
    /// client. Fails where no stream to the client is open under `id`.
    pub fn stream_send(&self, id: u32, body: Vec<u8>) -> (r: Result<Packet, StreamError>)
        ensures
            r == if lookup(self@.conversations, id) == Some(Conversation::ServerStream) {
                Ok::<Packet, StreamError>(Packet { kind: Kind::Stream, id, body })
            } else {
                Err::<Packet, StreamError>(StreamError::StreamAlreadyClosed)
            },
    {
        match self.conversations.get(id) {
            Some(Conversation::ServerStream) => Ok(Packet { kind: Kind::Stream, id, body }),
            _ => Err(StreamError::StreamAlreadyClosed),
        }
    }

    /// Ends the conversation `id` from this side, as when the application
    /// lets go of its end of it, and returns the packet that tells the
    /// client so: a request ends without a reply, a stream is closed.
    pub fn end(&mut self, id: u32) -> (notice: Option<Packet>)
        ensures
            final(self)@ == old(self)@.without(id),
            match lookup(old(self)@.conversations, id) {
                Some(conversation) => {
                    &&& notice matches Some(p)
                    &&& p@ == PacketView::bare(spec_ending_kind(conversation), id)
                },
                None => notice is None,
            },
    {
        match self.conversations.remove(id) {
            Some(conversation) => Some(Packet::bare(ending_kind(conversation), id)),
            None => None,
        }
    }

    /// Asks for the end of the connection and returns the close packet to
    /// send. Where the close was asked for before, or the connection has
    /// ended, this changes nothing and returns nothing.
    pub fn close(&mut self) -> (notice: Option<Packet>)
        ensures
            old(self)@.state == State::Running ==> {
                &&& final(self)@ == (HandlerView { state: State::Closing, ..old(self)@ })
                &&& notice matches Some(p)
                &&& p@ == PacketView::close()
            },
            old(self)@.state != State::Running ==> final(self)@ == old(self)@ && notice is None,
    {
        match self.state {
            State::Running => {
                self.state = State::Closing;
                Some(Packet::close())
            },
            _ => None,
        }
    }

    /// Ends the connection and every conversation with it, as on an error
    /// of the stream.
    pub fn terminate(&mut self)
        ensures
            final(self)@ == old(self)@.terminated(),
    {
        self.state = State::Terminated;
        self.conversations.clear();
    }

    /// Takes an inbound packet and returns the directive for the connection
    /// and what to hand to the application.
    pub fn on_packet(&mut self, packet: Packet) -> (r: Reaction<Packet>)
        ensures
            (final(self)@, reaction_view(r)) == old(self)@.on_packet(packet@),
    {
        let closing = match self.state {
            State::Terminated => {
                return Reaction { send_back: SendBack::Nothing, delivery: Delivery::Nothing };
            },
            State::Running => false,
            State::Closing => true,
        };
        let open = self.conversations.get(packet.id);
        let misfit = if open.is_some() {
            ProtocolError::UnexpectedKind
        } else {
            ProtocolError::UnexpectedId
        };
        let rejected = Reaction {
            send_back: SendBack::Nothing,
            delivery: Delivery::Rejected(misfit),
        };
        if let Some(conversation) = opened_by(packet.kind) {
            if open.is_some() {
                return rejected;
            }
            if closing {
                return Reaction {
                    send_back: SendBack::Packet(Packet::bare(ending_kind(conversation), packet.id)),
                    delivery: Delivery::Nothing,
                };
            }
            self.conversations.insert(packet.id, conversation);
            let message = match conversation {
                Conversation::AwaitingReply => Message::Request(packet),
                Conversation::ServerStream => Message::RequestReceiver(packet),
                Conversation::ClientStream => Message::RequestSender(packet),
            };
            return Reaction { send_back: SendBack::Nothing, delivery: Delivery::Message(message) };
        }
        match packet.kind {
            Kind::Close => {
                self.terminate();
                Reaction {
                    send_back: if closing {
                        SendBack::Close
                    } else {
                        SendBack::CloseWithPacket
                    },
                    delivery: Delivery::Nothing,
                }
            },
            Kind::Stream => match open {
                Some(Conversation::ClientStream) => Reaction {
                    send_back: SendBack::Nothing,
                    delivery: Delivery::Item(packet),
                },
                _ => rejected,
            },
            Kind::StreamClosed => match open {
                Some(Conversation::ServerStream) | Some(Conversation::ClientStream) => {
                    self.conversations.remove(packet.id);
                    Reaction { send_back: SendBack::Nothing, delivery: Delivery::End(packet.id) }
                },
                _ => rejected,
            },
            _ => Reaction {
                send_back: SendBack::Nothing,
                delivery: Delivery::Rejected(ProtocolError::UnexpectedKind),
            },
        }
    }
}

/// Every inbound packet has exactly one answer, and the answers come in the
/// order of the packets.
pub proof fn lemma_one_answer_each(v: HandlerView, inbound: Seq<PacketView>)
    ensures
        v.answers(inbound).len() == inbound.len(),
        forall|i: int|
            0 <= i < inbound.len() ==> #[trigger] v.answers(inbound)[i] == v.after(
                inbound.take(i),
            ).on_packet(inbound[i]).1,
    decreases inbound.len(),
{
    if inbound.len() > 0 {
        let front = inbound.drop_last();
        lemma_one_answer_each(v, front);
        assert forall|i: int| 0 <= i < inbound.len() implies #[trigger] v.answers(inbound)[i]
            == v.after(inbound.take(i)).on_packet(inbound[i]).1 by {
            if i < front.len() {
                assert(front.take(i) =~= inbound.take(i));
            } else {
                assert(inbound.take(i) =~= front);
            }
        }
    }
}

/// Whatever packets arrive, in whatever order the conversations take
/// turns: what is handed to the application for the packet at `i` is that
/// packet, unchanged, and goes to the conversation that is open under its
/// id at that moment, never to another. So the items of a conversation
/// reach it in the order in which they arrived.
pub proof fn lemma_deliveries_in_order(v: HandlerView, inbound: Seq<PacketView>, i: int)
    requires
        0 <= i < inbound.len(),
    ensures
        v.answers(inbound).len() == inbound.len(),
        v.after(inbound.take(i)).delivers_in_place(inbound[i], v.answers(inbound)[i].delivery),
{
    lemma_one_answer_each(v, inbound);
}

/// The answers to a sequence of packets, taken from the front: the answer
/// to the first, then the answers that the handler gives afterwards to the
/// others.
pub proof fn lemma_answers_unfold(v: HandlerView, first: PacketView, rest: Seq<PacketView>)
    ensures
        v.after(seq![first] + rest) == v.on_packet(first).0.after(rest),
        v.answers(seq![first] + rest) == seq![v.on_packet(first).1] + v.on_packet(first).0.answers(
            rest,
        ),
    decreases rest.len(),
{
    let all = seq![first] + rest;
    let next = v.on_packet(first).0;
    if rest.len() == 0 {
        assert(all.drop_last() =~= Seq::<PacketView>::empty());
        assert(all.last() == first);
        assert(v.after(all.drop_last()) == v);
        assert(v.answers(all.drop_last()) =~= Seq::<Reaction<PacketView>>::empty());
        assert(v.answers(all) =~= seq![v.on_packet(first).1] + next.answers(rest));
    } else {
        assert(all.drop_last() =~= seq![first] + rest.drop_last());
        assert(all.last() == rest.last());
        lemma_answers_unfold(v, first, rest.drop_last());
        assert(v.answers(all) =~= seq![v.on_packet(first).1] + next.answers(rest));
    }
}

} // verus!
