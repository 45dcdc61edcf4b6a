//! Connections over a plain byte stream, without any encryption.
//!
//! A `Client` or a `Server` is the state of the background task of one
//! connection. The task waits for whichever comes first: bytes from the
//! peer, a close request, something to send, or a new configuration. It
//! hands the event to the connection and gets a `Turn` back, which says
//! what to write, what to hand to the application, and how to go on.

use crate::config::Config;
use crate::framer::Step;
use crate::handler::client::following;
use crate::handler::{client, server};
use crate::handler::{
    delivery_view, free_id, lookup, Conversation, Delivery, SendBack, State, StreamError,
};
use crate::packet::{wire_of_all, Kind, Packet, PacketView};
use crate::reconnect::{Reconnect, ReconnectView, Recovery};
use crate::stream::{PacketStream, PacketStreamView, Read, ReadView, ReceiveError};
use crate::task::{CloseSignal, TaskError};
use vstd::prelude::*;

verus! {

/// How the background task goes on.
#[derive(Debug, Clone, Copy, PartialEq, Eq)]
pub enum Next {
    /// Wait for the next event.
    Continue,
    /// The stream is lost: ask the reconnection strategy for a new one,
    /// with this attempt count.
    Reconnect(usize),
    /// Write what is left, shut the stream down and end with this result.
    Stop(Result<(), TaskError>),
}

/// What the background task does about one event.
#[derive(Debug)]
pub struct Turn {
    /// How many bytes of the data that was read have been used.
    pub taken: usize,
    /// The bytes to write and flush; none where this is empty.
    pub write: Vec<u8>,
    /// What to hand to the application.
    pub delivery: Delivery<Packet>,
    pub next: Next,
}

/// A turn as a mathematical value.
pub struct TurnView {
    pub taken: nat,
    pub write: Seq<u8>,
    pub delivery: Delivery<PacketView>,
    pub next: Next,
}

impl View for Turn {
    type V = TurnView;

    open spec fn view(&self) -> TurnView {
        TurnView {
            taken: self.taken as nat,
            write: self.write@,
            delivery: delivery_view(self.delivery),
            next: self.next,
        }
    }
}

impl TurnView {
    /// The turn that only goes on.
    pub open spec fn idle(taken: nat) -> TurnView {
        TurnView { taken, write: Seq::empty(), delivery: Delivery::Nothing, next: Next::Continue }
    }

    /// The turn that ends the task.
    pub open spec fn stop(taken: nat, result: Result<(), TaskError>) -> TurnView {
        TurnView {
            taken,
            write: Seq::empty(),
            delivery: Delivery::Nothing,
            next: Next::Stop(result),
        }
    }

    /// The turn that writes `bytes` and goes on.
    pub open spec fn send(bytes: Seq<u8>) -> TurnView {
        TurnView { taken: 0, write: bytes, delivery: Delivery::Nothing, next: Next::Continue }
    }

    /// The turn that carries out an answer of the handler: a packet to send
    /// is written, a close stops the task, with the close packet written
    /// first where the directive says so.
    pub open spec fn answer(
        taken: nat,
        send_back: SendBack<PacketView>,
        delivery: Delivery<PacketView>,
    ) -> TurnView {
        TurnView {
            taken,
            write: match send_back {
                SendBack::Packet(p) => p.wire(),
                SendBack::CloseWithPacket => PacketView::close().wire(),
                _ => Seq::empty(),
            },
            delivery,
            next: match send_back {
                SendBack::Close => Next::Stop(Ok(())),
                SendBack::CloseWithPacket => Next::Stop(Ok(())),
                _ => Next::Continue,
            },
        }
    }
}

/// How a task ends when no packet can be received any more: in success
/// where the peer has shut the stream down between two packets, in failure
/// else.
pub open spec fn spec_end_of_stream(e: ReceiveError) -> Result<(), TaskError> {
    if e == ReceiveError::Closed {
        Ok(())
    } else {
        Err(TaskError::Receive(e))
    }
}

/// How a task ends when no packet can be received any more.
#[verifier::when_used_as_spec(spec_end_of_stream)]
pub fn end_of_stream(e: ReceiveError) -> (result: Result<(), TaskError>)
    ensures
        result == spec_end_of_stream(e),
{
    match e {
        ReceiveError::Closed => Ok(()),
        _ => Err(TaskError::Receive(e)),
    }
}

/// The bytes of a packet that has no body, or a body that was checked.
fn wire_of(packet: Packet) -> (bytes: Vec<u8>)
    requires
        packet@.valid(),
    ensures
        bytes@ == packet@.wire(),
{
    match packet.into_bytes() {
        Ok(bytes) => bytes,
        Err(_) => Vec::new(),
    }
}

/// Carries out an answer of the handler.
fn answer(taken: usize, send_back: SendBack<Packet>, delivery: Delivery<Packet>) -> (turn: Turn)
    requires
        send_back matches SendBack::Packet(p) ==> p@.valid(),
    ensures
        turn@ == TurnView::answer(
            taken as nat,
            crate::handler::send_back_view(send_back),
            delivery_view(delivery),
        ),
{
    match send_back {
        SendBack::Nothing => Turn { taken, write: Vec::new(), delivery, next: Next::Continue },
        SendBack::Packet(p) => Turn { taken, write: wire_of(p), delivery, next: Next::Continue },
        SendBack::Close => Turn { taken, write: Vec::new(), delivery, next: Next::Stop(Ok(())) },
        SendBack::CloseWithPacket => Turn {
            taken,
            write: wire_of(Packet::close()),
            delivery,
            next: Next::Stop(Ok(())),
        },
    }
}

/// The background task of the server side of a connection.
pub struct Server {
    stream: PacketStream,
    handler: server::Handler,
}

/// A server as a mathematical value.
pub struct ServerView {
    pub stream: PacketStreamView,
    pub handler: server::HandlerView,
}

impl ServerView {
    /// The server after a read, and its turn.
    ///
    /// A whole packet goes to the handler, whose answer is carried out.
    /// Any failure to receive ends the connection and every conversation:
    /// a server does not reconnect.
    pub open spec fn on_read(self, read: ReadView) -> (ServerView, TurnView) {
        let (stream, taken, r) = self.stream.receive(read);
        match r {
            Ok(Step::Pending) => (ServerView { stream, ..self }, TurnView::idle(taken)),
            Ok(Step::Ready(p)) => {
                let (handler, reaction) = self.handler.on_packet(p);
                (
                    ServerView { stream, handler },
                    TurnView::answer(taken, reaction.send_back, reaction.delivery),
                )
            },
            Err(e) => (
                ServerView { stream, handler: self.handler.terminated() },
                TurnView::stop(taken, spec_end_of_stream(e)),
            ),
        }
    }

    /// The server after a close request, and its turn: the first request
    /// announces the close to the client, and the server goes on until the
    /// client has answered; any later one changes nothing. It makes no
    /// difference whether the close was asked for or the handle went away.
    pub open spec fn on_close(self, signal: CloseSignal) -> (ServerView, TurnView) {
        if self.handler.state == State::Running {
            (
                ServerView {
                    handler: server::HandlerView { state: State::Closing, ..self.handler },
                    ..self
                },
                TurnView::send(PacketView::close().wire()),
            )
        } else {
            (self, TurnView::idle(0))
        }
    }
}

impl View for Server {
    type V = ServerView;

    closed spec fn view(&self) -> ServerView {
        ServerView { stream: self.stream@, handler: self.handler@ }
    }
}

/// Creates the server side of a connection, without using any encryption.
pub fn server(cfg: Config) -> (server: Server)
    ensures
        server@ == (ServerView {
            stream: PacketStreamView {
                timeout: cfg.timeout,
                framer: crate::framer::FramerView::fresh(cfg.body_limit),
            },
            handler: server::HandlerView::fresh(),
        }),
{
    Server {
        stream: PacketStream::new(cfg.timeout, cfg.body_limit),
        handler: server::Handler::new(),
    }
}

impl Server {
    /// The stream of the connection: how long a read may wait.
    pub fn stream(&self) -> (stream: &PacketStream)
        ensures
            stream@ == self@.stream,
    {
        &self.stream
    }

    /// The handler of the connection: which conversations are open.
    pub fn handler(&self) -> (handler: &server::Handler)
        ensures
            handler@ == self@.handler,
    {
        &self.handler
    }

    /// Takes over a new configuration, for what is read from now on.
    pub fn configure(&mut self, cfg: Config)
        ensures
            final(self)@ == (ServerView {
                stream: PacketStreamView {
                    timeout: cfg.timeout,
                    framer: crate::framer::FramerView {
                        body_limit: cfg.body_limit,
                        ..old(self)@.stream.framer
                    },
                },
                ..old(self)@
            }),
    {
        self.stream.configure(cfg);
    }

    /// A read on the stream has ended.
    pub fn on_read(&mut self, read: Read<'_>) -> (turn: Turn)
        ensures
            (final(self)@, turn@) == old(self)@.on_read(read@),
    {
        let (taken, r) = self.stream.receive(read);
        match r {
            Ok(Step::Pending) => Turn {
                taken,
                write: Vec::new(),
                delivery: Delivery::Nothing,
                next: Next::Continue,
            },
            Ok(Step::Ready(packet)) => {
                let reaction = self.handler.on_packet(packet);
                answer(taken, reaction.send_back, reaction.delivery)
            },
            Err(e) => {
                self.handler.terminate();
                Turn {
                    taken,
                    write: Vec::new(),
                    delivery: Delivery::Nothing,
                    next: Next::Stop(end_of_stream(e)),
                }
            },
        }
    }

    /// A close was asked for, or the handle went away.
    pub fn on_close(&mut self, signal: CloseSignal) -> (turn: Turn)
        ensures
            (final(self)@, turn@) == old(self)@.on_close(signal),
    {
        match self.handler.close() {
            Some(packet) => Turn {
                taken: 0,
                write: wire_of(packet),
                delivery: Delivery::Nothing,
                next: Next::Continue,
            },
            None => Turn {
                taken: 0,
                write: Vec::new(),
                delivery: Delivery::Nothing,
                next: Next::Continue,
            },
        }
    }

    /// A write on the stream has failed: the connection ends, and every
    /// conversation with it.
    pub fn on_write_failed(&mut self) -> (next: Next)
        ensures
            next == Next::Stop(Err(TaskError::Write)),
            final(self)@ == (ServerView {
                handler: old(self)@.handler.terminated(),
                ..old(self)@
            }),
    {
        self.handler.terminate();
        Next::Stop(Err(TaskError::Write))
    }

    /// The bytes that carry the single reply to the request `id`, which
    /// thereby ends. Fails, and changes nothing, where the body is too
    /// large for a packet and where no request waits under `id`.
    pub fn respond(&mut self, id: u32, body: Vec<u8>) -> (r: Result<Vec<u8>, StreamError>)
        ensures
            match r {
                Ok(bytes) => {
                    &&& body@.len() <= u32::MAX
                    &&& lookup(old(self)@.handler.conversations, id) == Some(
                        Conversation::AwaitingReply,
                    )
                    &&& bytes@ == (PacketView { kind: Kind::Response, id, body: body@ }).wire()
                    &&& final(self)@ == (ServerView {
                        handler: old(self)@.handler.without(id),
                        ..old(self)@
                    })
                },
                Err(e) => {
                    &&& final(self)@ == old(self)@
                    &&& e == if body@.len() > u32::MAX {
                        StreamError::BodyTooLarge
                    } else {
                        StreamError::StreamAlreadyClosed
                    }
                    &&& body@.len() <= u32::MAX ==> lookup(old(self)@.handler.conversations, id)
                        != Some(Conversation::AwaitingReply)
                },
            },
    {
        if body.len() > u32::MAX as usize {
            return Err(StreamError::BodyTooLarge);
        }
        match self.handler.respond(id, body) {
            Ok(packet) => Ok(wire_of(packet)),
            Err(e) => Err(e),
        }
    }

    /// The bytes that carry the next item of the stream `id` to the client.
    /// Fails where the body is too large for a packet and where no stream
    /// to the client is open under `id`.
    pub fn stream_send(&self, id: u32, body: Vec<u8>) -> (r: Result<Vec<u8>, StreamError>)
        ensures
            match r {
                Ok(bytes) => {
                    &&& body@.len() <= u32::MAX
                    &&& lookup(self@.handler.conversations, id) == Some(Conversation::ServerStream)
                    &&& bytes@ == (PacketView { kind: Kind::Stream, id, body: body@ }).wire()
                },
                Err(e) => {
                    &&& e == if body@.len() > u32::MAX {
                        StreamError::BodyTooLarge
                    } else {
                        StreamError::StreamAlreadyClosed
                    }
                    &&& body@.len() <= u32::MAX ==> lookup(self@.handler.conversations, id) != Some(
                        Conversation::ServerStream,
                    )
                },
            },
    {
        if body.len() > u32::MAX as usize {
            return Err(StreamError::BodyTooLarge);
        }
        match self.handler.stream_send(id, body) {
            Ok(packet) => Ok(wire_of(packet)),
            Err(e) => Err(e),
        }
    }

    /// Ends the conversation `id` from this side and returns the bytes that
    /// tell the client so; none where no such conversation is open.
    pub fn end(&mut self, id: u32) -> (bytes: Vec<u8>)
        ensures
            final(self)@ == (ServerView { handler: old(self)@.handler.without(id), ..old(self)@ }),
            bytes@ == match lookup(old(self)@.handler.conversations, id) {
                Some(conversation) => PacketView::bare(
                    server::spec_ending_kind(conversation),
                    id,
                ).wire(),
                None => Seq::empty(),
            },
    {
        match self.handler.end(id) {
            Some(packet) => wire_of(packet),
            None => Vec::new(),
        }
    }
}

/// The background task of the client side of a connection.
pub struct Client {
    stream: PacketStream,
    handler: client::Handler,
    reconnect: Reconnect,
}

/// A client as a mathematical value.
pub struct ClientView {
    pub stream: PacketStreamView,
    pub handler: client::HandlerView,
    pub reconnect: ReconnectView,
}

impl ClientView {
    /// The client after its stream was lost with `failure`, and how the
    /// task goes on.
    ///
    /// While the client runs and has a strategy, the strategy is asked for
    /// a new stream and every conversation stays open. Else the connection
    /// ends with the failure, and every conversation with it.
    pub open spec fn lost(self, failure: Result<(), TaskError>) -> (ClientView, Next) {
        if self.handler.state == State::Running && self.reconnect.enabled {
            (
                ClientView { reconnect: self.reconnect.after_loss(), ..self },
                Next::Reconnect(self.reconnect.lost as usize),
            )
        } else {
            (ClientView { handler: self.handler.terminated(), ..self }, Next::Stop(failure))
        }
    }

    /// The client after a read, and its turn.
    ///
    /// A whole packet shows that the stream works, and goes to the handler,
    /// whose answer is carried out. A failure to receive loses the stream.
    pub open spec fn on_read(self, read: ReadView) -> (ClientView, TurnView) {
        let (stream, taken, r) = self.stream.receive(read);
        match r {
            Ok(Step::Pending) => (ClientView { stream, ..self }, TurnView::idle(taken)),
            Ok(Step::Ready(p)) => {
                let (handler, reaction) = self.handler.on_packet(p);
                (
                    ClientView { stream, handler, reconnect: self.reconnect.after_progress() },
                    TurnView::answer(taken, reaction.send_back, reaction.delivery),
                )
            },
            Err(e) => {
                let (client, next) = (ClientView { stream, ..self }).lost(spec_end_of_stream(e));
                (
                    client,
                    TurnView {
                        taken,
                        write: Seq::empty(),
                        delivery: Delivery::Nothing,
                        next,
                    },
                )
            },
        }
    }

    /// The client after a close request, and its turn: the first request
    /// announces the close to the server, and the client goes on until the
    /// server has answered; any later one changes nothing. It makes no
    /// difference whether the close was asked for or the handle went away.
    pub open spec fn on_close(self, signal: CloseSignal) -> (ClientView, TurnView) {
        if self.handler.state == State::Running {
            (
                ClientView {
                    handler: client::HandlerView { state: State::Closing, ..self.handler },
                    ..self
                },
                TurnView::send(PacketView::close().wire()),
            )
        } else {
            (self, TurnView::idle(0))
        }
    }

    /// What opening a conversation with `body` leads to: the id of the
    /// conversation and the bytes to write, and the client afterwards.
    ///
    /// The conversation gets the first free id from where the last search
    /// ended. Opening fails, and changes nothing, where the body is too
    /// large for a packet, where the connection is closing or has ended,
    /// and where every id is taken.
    pub open spec fn opens(
        self,
        conversation: Conversation,
        body: Seq<u8>,
        opened: Result<(u32, Seq<u8>), StreamError>,
        next: ClientView,
    ) -> bool {
        match opened {
            Ok((id, bytes)) => {
                &&& body.len() <= u32::MAX
                &&& self.handler.state == State::Running
                &&& free_id(self.handler.conversations, self.handler.next_id, Some(id))
                &&& bytes == (PacketView {
                    kind: client::spec_opening_kind(conversation),
                    id,
                    body,
                }).wire()
                &&& next == (ClientView {
                    handler: client::HandlerView {
                        state: State::Running,
                        conversations: self.handler.conversations.insert(id, conversation),
                        next_id: following(id),
                    },
                    ..self
                })
            },
            Err(e) => {
                &&& next == self
                &&& e == if body.len() > u32::MAX {
                    StreamError::BodyTooLarge
                } else if self.handler.state != State::Running {
                    StreamError::ConnectionClosed
                } else {
                    StreamError::NoFreeId
                }
                &&& e == StreamError::NoFreeId ==> free_id(
                    self.handler.conversations,
                    self.handler.next_id,
                    None,
                )
            },
        }
    }
}

/// What an opening returned, as a mathematical value.
pub open spec fn opened_view(r: Result<(u32, Vec<u8>), StreamError>) -> Result<
    (u32, Seq<u8>),
    StreamError,
> {
    match r {
        Ok((id, bytes)) => Ok((id, bytes@)),
        Err(e) => Err(e),
    }
}

impl View for Client {
    type V = ClientView;

    closed spec fn view(&self) -> ClientView {
        ClientView { stream: self.stream@, handler: self.handler@, reconnect: self.reconnect@ }
    }
}

/// Creates the client side of a connection, without using any encryption.
/// With `reconnects`, a lost stream is replaced by what the reconnection
/// strategy supplies.
pub fn client(cfg: Config, reconnects: bool) -> (client: Client)
    ensures
        client@ == (ClientView {
            stream: PacketStreamView {
                timeout: cfg.timeout,
                framer: crate::framer::FramerView::fresh(cfg.body_limit),
            },
            handler: client::HandlerView::fresh(),
            reconnect: ReconnectView { enabled: reconnects, lost: 0 },
        }),
{
    Client {
        stream: PacketStream::new(cfg.timeout, cfg.body_limit),
        handler: client::Handler::new(),
        reconnect: Reconnect::new(reconnects),
    }
}

impl Client {
    /// The stream of the connection: how long a read may wait.
    pub fn stream(&self) -> (stream: &PacketStream)
        ensures
            stream@ == self@.stream,
    {
        &self.stream
    }

    /// The handler of the connection: which conversations are open.
    pub fn handler(&self) -> (handler: &client::Handler)
        ensures
            handler@ == self@.handler,
    {
        &self.handler
    }

    /// Takes over a new configuration, for what is read from now on.
    pub fn configure(&mut self, cfg: Config)
        ensures
            final(self)@ == (ClientView {
                stream: PacketStreamView {
                    timeout: cfg.timeout,
                    framer: crate::framer::FramerView {
                        body_limit: cfg.body_limit,
                        ..old(self)@.stream.framer
                    },
                },
                ..old(self)@
            }),
    {
        self.stream.configure(cfg);
    }

    /// The stream is lost.
    fn lost(&mut self, failure: Result<(), TaskError>) -> (next: Next)
        ensures
            (final(self)@, next) == old(self)@.lost(failure),
    {
        let running = match self.handler.state() {
            State::Running => true,
            _ => false,
        };
        if running && self.reconnect.enabled() {
            match self.reconnect.on_lost() {
                Recovery::Connect(attempt) => Next::Reconnect(attempt),
                Recovery::GiveUp => Next::Stop(failure),
            }
        } else {
            self.handler.terminate();
            Next::Stop(failure)
        }
    }

    /// A read on the stream has ended.
    pub fn on_read(&mut self, read: Read<'_>) -> (turn: Turn)
        ensures
            (final(self)@, turn@) == old(self)@.on_read(read@),
    {
        let (taken, r) = self.stream.receive(read);
        match r {
            Ok(Step::Pending) => Turn {
                taken,
                write: Vec::new(),
                delivery: Delivery::Nothing,
                next: Next::Continue,
            },
            Ok(Step::Ready(packet)) => {
                self.reconnect.on_progress();
                let reaction = self.handler.on_packet(packet);
                answer(taken, reaction.send_back, reaction.delivery)
            },
            Err(e) => {
                let next = self.lost(end_of_stream(e));
                Turn { taken, write: Vec::new(), delivery: Delivery::Nothing, next }
            },
        }
    }

    /// A write on the stream has failed: the stream is lost.
    pub fn on_write_failed(&mut self) -> (next: Next)
        ensures
            (final(self)@, next) == old(self)@.lost(Err(TaskError::Write)),
    {
        self.lost(Err(TaskError::Write))
    }

    /// The reconnection strategy has supplied a new stream: reading starts
    /// afresh on it, under the configuration in force, and every
    /// conversation is still open.
    pub fn on_reconnected(&mut self)
        ensures
            final(self)@ == (ClientView {
                stream: PacketStreamView {
                    timeout: old(self)@.stream.timeout,
                    framer: crate::framer::FramerView::fresh(old(self)@.stream.framer.body_limit),
                },
                ..old(self)@
            }),
    {
        self.stream = PacketStream::new(self.stream.timeout(), self.stream.body_limit());
    }

    /// The reconnection strategy has failed: the connection ends, and
    /// every conversation with it.
    pub fn on_reconnect_failed(&mut self) -> (next: Next)
        ensures
            next == Next::Stop(Err(TaskError::ConnectionLost)),
            final(self)@ == (ClientView {
                handler: old(self)@.handler.terminated(),
                ..old(self)@
            }),
    {
        self.handler.terminate();
        Next::Stop(Err(TaskError::ConnectionLost))
    }

    /// A close was asked for, or the handle went away.
    pub fn on_close(&mut self, signal: CloseSignal) -> (turn: Turn)
        ensures
            (final(self)@, turn@) == old(self)@.on_close(signal),
    {
        match self.handler.close() {
            Some(packet) => Turn {
                taken: 0,
                write: wire_of(packet),
                delivery: Delivery::Nothing,
                next: Next::Continue,
            },
            None => Turn {
                taken: 0,
                write: Vec::new(),
                delivery: Delivery::Nothing,
                next: Next::Continue,
            },
        }
    }

    /// Opens a conversation.
    fn open(&mut self, conversation: Conversation, body: Vec<u8>) -> (r: Result<
        (u32, Vec<u8>),
        StreamError,
    >)
        ensures
            old(self)@.opens(conversation, body@, opened_view(r), final(self)@),
    {
        if body.len() > u32::MAX as usize {
            return Err(StreamError::BodyTooLarge);
        }
        match self.handler.open(conversation, body) {
            Ok(packet) => {
                let id = packet.id;
                Ok((id, wire_of(packet)))
            },
            Err(e) => Err(e),
        }
    }

    /// Opens a conversation that ends with a single reply, and returns its
    /// id and the bytes to write.
    pub fn request(&mut self, body: Vec<u8>) -> (r: Result<(u32, Vec<u8>), StreamError>)
        ensures
            old(self)@.opens(Conversation::AwaitingReply, body@, opened_view(r), final(self)@),
    {
        self.open(Conversation::AwaitingReply, body)
    }

    /// Opens a conversation in which the server streams to this side, and
    /// returns its id and the bytes to write.
    pub fn request_receiver(&mut self, body: Vec<u8>) -> (r: Result<(u32, Vec<u8>), StreamError>)
        ensures
            old(self)@.opens(Conversation::ServerStream, body@, opened_view(r), final(self)@),
    {
        self.open(Conversation::ServerStream, body)
    }

    /// Opens a conversation in which this side streams to the server, and
    /// returns its id and the bytes to write.
    pub fn request_sender(&mut self, body: Vec<u8>) -> (r: Result<(u32, Vec<u8>), StreamError>)
        ensures
            old(self)@.opens(Conversation::ClientStream, body@, opened_view(r), final(self)@),
    {
        self.open(Conversation::ClientStream, body)
    }

    /// The bytes that carry the next item of the stream `id` to the server.
    /// Fails where the body is too large for a packet and where no stream
    /// to the server is open under `id`.
    pub fn stream_send(&self, id: u32, body: Vec<u8>) -> (r: Result<Vec<u8>, StreamError>)
        ensures
            match r {
                Ok(bytes) => {
                    &&& body@.len() <= u32::MAX
                    &&& lookup(self@.handler.conversations, id) == Some(Conversation::ClientStream)
                    &&& bytes@ == (PacketView { kind: Kind::Stream, id, body: body@ }).wire()
                },
                Err(e) => {
                    &&& e == if body@.len() > u32::MAX {
                        StreamError::BodyTooLarge
                    } else {
                        StreamError::StreamAlreadyClosed
                    }
                    &&& body@.len() <= u32::MAX ==> lookup(self@.handler.conversations, id) != Some(
                        Conversation::ClientStream,
                    )
                },
            },
    {
        if body.len() > u32::MAX as usize {
            return Err(StreamError::BodyTooLarge);
        }
        match self.handler.stream_send(id, body) {
            Ok(packet) => Ok(wire_of(packet)),
            Err(e) => Err(e),
        }
    }

    /// Ends the conversation `id` from this side and returns the bytes that
    /// tell the server so; none for a request, which is given up in
    /// silence, and none where no such conversation is open.
    pub fn end(&mut self, id: u32) -> (bytes: Vec<u8>)
        ensures
            final(self)@ == (ClientView { handler: old(self)@.handler.without(id), ..old(self)@ }),
            bytes@ == match lookup(old(self)@.handler.conversations, id) {
                Some(Conversation::ServerStream) | Some(Conversation::ClientStream) => {
                    PacketView::bare(Kind::StreamClosed, id).wire()
                },
                _ => Seq::empty(),
            },
    {
        match self.handler.end(id) {
            Some(packet) => wire_of(packet),
            None => Vec::new(),
        }
    }
}

/// A close that was asked for and a handle that went away are the same to
/// a connection.
pub proof fn lemma_dropped_handle_closes(client: ClientView, server: ServerView)
    ensures
        client.on_close(CloseSignal::HandleDropped) == client.on_close(CloseSignal::Requested),
        server.on_close(CloseSignal::HandleDropped) == server.on_close(CloseSignal::Requested),
{
}

/// A second close request changes nothing and writes nothing.
pub proof fn lemma_close_once(client: ClientView, server: ServerView, signal: CloseSignal)
    ensures
        client.on_close(signal).0.on_close(signal) == (
            client.on_close(signal).0,
            TurnView::idle(0),
        ),
        server.on_close(signal).0.on_close(signal) == (
            server.on_close(signal).0,
            TurnView::idle(0),
        ),
{
}

/// What a client sends to open a conversation, read by a server that runs
/// and has the id free, reaches the application as the packet that was
/// sent, in the shape of the conversation; and the conversation is then
/// open on both sides under the same id.
pub proof fn lemma_opening_arrives(
    server: ServerView,
    conversation: Conversation,
    id: u32,
    body: Seq<u8>,
    rest: Seq<u8>,
)
    requires
        server.handler.state == State::Running,
        server.stream.framer == crate::framer::FramerView::fresh(server.stream.framer.body_limit),
        !server.handler.conversations.contains_key(id),
        body.len() <= server.stream.framer.body_limit,
    ensures
        ({
            let packet = PacketView { kind: client::spec_opening_kind(conversation), id, body };
            let (after, turn) = server.on_read(ReadView::Data(packet.wire() + rest));
            &&& turn.taken == packet.wire().len()
            &&& turn.delivery == Delivery::Message(server::opening(conversation, packet))
            &&& turn.write.len() == 0
            &&& turn.next == Next::Continue
            &&& after.stream == server.stream
            &&& after.handler.conversations == server.handler.conversations.insert(
                id,
                conversation,
            )
        }),
{
    let packet = PacketView { kind: client::spec_opening_kind(conversation), id, body };
    crate::framer::lemma_receive_round_trip(server.stream.framer.body_limit, packet, rest);
}

impl ClientView {
    /// The turns of a client that reads `bytes`: one read on all of them,
    /// the next on what the first left, and so on to the end.
    pub open spec fn turns(self, bytes: Seq<u8>) -> Seq<TurnView>
        decreases bytes.len(),
    {
        if bytes.len() == 0 {
            Seq::empty()
        } else {
            let (next, turn) = self.on_read(ReadView::Data(bytes));
            if 0 < turn.taken <= bytes.len() {
                seq![turn] + next.turns(bytes.skip(turn.taken as int))
            } else {
                seq![turn]
            }
        }
    }
}

/// From the wire to the conversation: a client that stands between two
/// packets and reads what the server wrote, packets within the limit one
/// after the other, takes one turn for each packet, in their order. The
/// turn takes exactly the bytes of its packet and carries out the answer
/// that the handler gives to that packet after the packets before it. So
/// whatever is handed to the application is the packet that was sent,
/// handed to the conversation under its id, in the order of sending.
pub proof fn lemma_client_reads_in_order(client: ClientView, packets: Seq<PacketView>)
    requires
        client.stream.framer == crate::framer::FramerView::fresh(client.stream.framer.body_limit),
        forall|i: int|
            0 <= i < packets.len() ==> (#[trigger] packets[i]).body.len()
                <= client.stream.framer.body_limit,
    ensures
        client.turns(wire_of_all(packets)).len() == packets.len(),
        forall|i: int|
            0 <= i < packets.len() ==> #[trigger] client.turns(wire_of_all(packets))[i]
                == TurnView::answer(
                packets[i].wire().len(),
                client.handler.answers(packets)[i].send_back,
                client.handler.answers(packets)[i].delivery,
            ),
    decreases packets.len(),
{
    let bytes = wire_of_all(packets);
    if packets.len() == 0 {
        assert(bytes.len() == 0);
    } else {
        let limit = client.stream.framer.body_limit;
        let first = packets[0];
        let rest = packets.skip(1);
        let tail = wire_of_all(rest);
        crate::framer::lemma_receive_round_trip(limit, first, tail);
        crate::packet::lemma_header_round_trip(first.header(), first.body);
        let (next, turn) = client.on_read(ReadView::Data(bytes));
        let (handler, reaction) = client.handler.on_packet(first);
        assert(turn == TurnView::answer(first.wire().len(), reaction.send_back, reaction.delivery));
        assert(next.handler == handler);
        assert(next.stream == client.stream);
        assert(bytes.skip(turn.taken as int) =~= tail);
        assert forall|i: int| 0 <= i < rest.len() implies (#[trigger] rest[i]).body.len()
            <= limit by {
            assert(rest[i] == packets[i + 1]);
        }
        lemma_client_reads_in_order(next, rest);
        client::lemma_answers_unfold(client.handler, first, rest);
        client::lemma_one_answer_each(handler, rest);
        assert(seq![first] + rest =~= packets);
        let turns = client.turns(bytes);
        let answers = client.handler.answers(packets);
        assert(turns =~= seq![turn] + next.turns(tail));
        assert forall|i: int| 0 <= i < packets.len() implies #[trigger] turns[i]
            == TurnView::answer(
            packets[i].wire().len(),
            answers[i].send_back,
            answers[i].delivery,
        ) by {
            if i > 0 {
                assert(turns[i] == next.turns(tail)[i - 1]);
                assert(answers[i] == handler.answers(rest)[i - 1]);
                assert(packets[i] == rest[i - 1]);
            }
        }
    }
}

impl ServerView {
    /// The turns of a server that reads `bytes`: one read on all of them,
    /// the next on what the first left, and so on to the end.
    pub open spec fn turns(self, bytes: Seq<u8>) -> Seq<TurnView>
        decreases bytes.len(),
    {
        if bytes.len() == 0 {
            Seq::empty()
        } else {
            let (next, turn) = self.on_read(ReadView::Data(bytes));
            if 0 < turn.taken <= bytes.len() {
                seq![turn] + next.turns(bytes.skip(turn.taken as int))
            } else {
                seq![turn]
            }
        }
    }
}

/// From the wire to the conversation: a server that stands between two
/// packets and reads what the client wrote, packets within the limit one
/// after the other, takes one turn for each packet, in their order. The
/// turn takes exactly the bytes of its packet and carries out the answer
/// that the handler gives to that packet after the packets before it. So
/// whatever is handed to the application is the packet that was sent,
/// handed to the conversation under its id, in the order of sending.
pub proof fn lemma_server_reads_in_order(server: ServerView, packets: Seq<PacketView>)
    requires
        server.stream.framer == crate::framer::FramerView::fresh(server.stream.framer.body_limit),
        forall|i: int|
            0 <= i < packets.len() ==> (#[trigger] packets[i]).body.len()
                <= server.stream.framer.body_limit,
    ensures
        server.turns(wire_of_all(packets)).len() == packets.len(),
        forall|i: int|
            0 <= i < packets.len() ==> #[trigger] server.turns(wire_of_all(packets))[i]
                == TurnView::answer(
                packets[i].wire().len(),
                server.handler.answers(packets)[i].send_back,
                server.handler.answers(packets)[i].delivery,
            ),
    decreases packets.len(),
{
    let bytes = wire_of_all(packets);
    if packets.len() == 0 {
        assert(bytes.len() == 0);
    } else {
        let limit = server.stream.framer.body_limit;
        let first = packets[0];
        let rest = packets.skip(1);
        let tail = wire_of_all(rest);
        crate::framer::lemma_receive_round_trip(limit, first, tail);
        crate::packet::lemma_header_round_trip(first.header(), first.body);
        let (next, turn) = server.on_read(ReadView::Data(bytes));
        let (handler, reaction) = server.handler.on_packet(first);
        assert(turn == TurnView::answer(first.wire().len(), reaction.send_back, reaction.delivery));
        assert(next.handler == handler);
        assert(next.stream == server.stream);
        assert(bytes.skip(turn.taken as int) =~= tail);
        assert forall|i: int| 0 <= i < rest.len() implies (#[trigger] rest[i]).body.len()
            <= limit by {
            assert(rest[i] == packets[i + 1]);
        }
        lemma_server_reads_in_order(next, rest);
        server::lemma_answers_unfold(server.handler, first, rest);
        server::lemma_one_answer_each(handler, rest);
        assert(seq![first] + rest =~= packets);
        let turns = server.turns(bytes);
        let answers = server.handler.answers(packets);
        assert(turns =~= seq![turn] + next.turns(tail));
        assert forall|i: int| 0 <= i < packets.len() implies #[trigger] turns[i]
            == TurnView::answer(
            packets[i].wire().len(),
            answers[i].send_back,
            answers[i].delivery,
        ) by {
            if i > 0 {
                assert(turns[i] == next.turns(tail)[i - 1]);
                assert(answers[i] == handler.answers(rest)[i - 1]);
                assert(packets[i] == rest[i - 1]);
            }
        }
    }
}

} // verus!
