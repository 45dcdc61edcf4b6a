//! One side of a byte stream as a sequence of packets.
//!
//! The stream itself is read and written by the caller: a `PacketStream`
//! turns a packet into the bytes to write, and what a read gave into a
//! packet, and says how long a read may wait.

use crate::config::Config;
use crate::framer::{Framer, FramerView, FramingError, Step, received_view};
use crate::packet::{BodyTooLarge, Packet, PacketView};
use std::time::Duration;
use vstd::prelude::*;

verus! {

/// What one read on the byte stream gave.
#[derive(Clone, Copy, Debug)]
pub enum Read<'a> {
    /// These bytes arrived.
    Data(&'a [u8]),
    /// The peer has shut the stream down.
    Eof,
    /// Nothing arrived within the timeout.
    TimedOut,
    /// The read failed.
    Failed,
}

/// What one read gave, as a mathematical value.
pub enum ReadView {
    Data(Seq<u8>),
    Eof,
    TimedOut,
    Failed,
}

impl<'a> View for Read<'a> {
    type V = ReadView;

    open spec fn view(&self) -> ReadView {
        match *self {
            Read::Data(bytes) => ReadView::Data(bytes@),
            Read::Eof => ReadView::Eof,
            Read::TimedOut => ReadView::TimedOut,
            Read::Failed => ReadView::Failed,
        }
    }
}

/// Why no packet could be received.
#[derive(Clone, Copy, Debug, PartialEq, Eq, Structural)]
pub enum ReceiveError {
    /// Nothing arrived within the timeout. The stream is still open.
    Timeout,
    /// The read failed.
    Io,
    /// The peer shut the stream down between two packets.
    Closed,
    /// The peer shut the stream down in the middle of a packet.
    UnexpectedEof,
    /// The header of the packet was refused.
    Framing(FramingError),
}

/// The receiving and sending side of a byte stream.
pub struct PacketStream {
    timeout: Duration,
    builder: Framer,
}

/// A packet stream as a mathematical value.
pub struct PacketStreamView {
    pub timeout: Duration,
    pub framer: FramerView,
}

impl View for PacketStream {
    type V = PacketStreamView;

    closed spec fn view(&self) -> PacketStreamView {
        PacketStreamView { timeout: self.timeout, framer: self.builder@ }
    }
}

impl PacketStreamView {
    /// What a read leads to: the stream afterwards, the number of bytes
    /// taken from the front of the data, and the packet or the error.
    ///
    /// Data goes to the framer. The end of the stream is a clean shutdown
    /// where no byte of a packet has been read, and an error else. A
    /// timeout and a failed read leave everything read so far in place.
    pub open spec fn receive(self, read: ReadView) -> (
        PacketStreamView,
        nat,
        Result<Step<PacketView>, ReceiveError>,
    ) {
        match read {
            ReadView::Data(bytes) => {
                let (framer, n, r) = self.framer.receive(bytes);
                (
                    PacketStreamView { framer, ..self },
                    n,
                    match r {
                        Ok(step) => Ok(step),
                        Err(e) => Err(ReceiveError::Framing(e)),
                    },
                )
            },
            ReadView::Eof => (
                self,
                0,
                Err(
                    if self.framer.is_idle() {
                        ReceiveError::Closed
                    } else {
                        ReceiveError::UnexpectedEof
                    },
                ),
            ),
            ReadView::TimedOut => (self, 0, Err(ReceiveError::Timeout)),
            ReadView::Failed => (self, 0, Err(ReceiveError::Io)),
        }
    }
}

/// The result of a receive, as a mathematical value.
pub open spec fn receive_view(r: Result<Step<Packet>, ReceiveError>) -> Result<
    Step<PacketView>,
    ReceiveError,
> {
    match r {
        Ok(Step::Pending) => Ok(Step::Pending),
        Ok(Step::Ready(p)) => Ok(Step::Ready(p@)),
        Err(e) => Err(e),
    }
}

impl PacketStream {
    /// A stream on which nothing has been read.
    pub fn new(timeout: Duration, body_limit: u32) -> (stream: PacketStream)
        ensures
            stream@ == (PacketStreamView { timeout, framer: FramerView::fresh(body_limit) }),
    {
        PacketStream { timeout, builder: Framer::new(body_limit) }
    }

    /// How long a read may wait.
    pub fn timeout(&self) -> (timeout: Duration)
        ensures
            timeout == self@.timeout,
    {
        self.timeout
    }

    /// How large the body of an inbound packet may be.
    pub fn body_limit(&self) -> (limit: u32)
        ensures
            limit == self@.framer.body_limit,
    {
        self.builder.body_limit()
    }

    /// Takes over a new configuration: the timeout for the reads from now
    /// on, and the body limit for the headers read from now on.
    pub fn configure(&mut self, cfg: Config)
        ensures
            final(self)@ == (PacketStreamView {
                timeout: cfg.timeout,
                framer: FramerView { body_limit: cfg.body_limit, ..old(self)@.framer },
            }),
    {
        self.timeout = cfg.timeout;
        self.builder.set_body_limit(cfg.body_limit);
    }

    /// The bytes to write and flush in order to send `packet`.
    pub fn send(&self, packet: Packet) -> (bytes: Result<Vec<u8>, BodyTooLarge>)
        ensures
            match bytes {
                Ok(bytes) => packet@.valid() && bytes@ == packet@.wire(),
                Err(_) => !packet@.valid(),
            },
    {
        packet.into_bytes()
    }

    /// Receives the next packet from what a read gave, and returns how many
    /// bytes of the data it took. This can be called again at any time:
    /// what has been read of a packet stays read.
    pub fn receive(&mut self, read: Read<'_>) -> (r: (usize, Result<Step<Packet>, ReceiveError>))
        ensures
            (final(self)@, r.0 as nat, receive_view(r.1)) == old(self)@.receive(read@),
    {
        match read {
            Read::Data(bytes) => {
                let (n, r) = self.builder.receive(bytes);
                match r {
                    Ok(step) => (n, Ok(step)),
                    Err(e) => (n, Err(ReceiveError::Framing(e))),
                }
            },
            Read::Eof => {
                if self.builder.is_idle() {
                    (0, Err(ReceiveError::Closed))
                } else {
                    (0, Err(ReceiveError::UnexpectedEof))
                }
            },
            Read::TimedOut => (0, Err(ReceiveError::Timeout)),
            Read::Failed => (0, Err(ReceiveError::Io)),
        }
    }
}

} // verus!
