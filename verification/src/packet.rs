//! Packets and their wire form.
//!
//! A packet on the wire is a header of nine bytes followed by the body:
//! the length of the body (four bytes, big-endian), the kind (one byte) and
//! the conversation id (four bytes, big-endian).

use vstd::prelude::*;

verus! {

/// The number of bytes of a header on the wire.
pub const HEADER_LEN: usize = 9;

/// What a packet means within its conversation.
#[derive(Clone, Copy, Debug, PartialEq, Eq, Structural)]
pub enum Kind {
    /// Opens a conversation that ends with a single reply.
    Request,
    /// Opens a conversation in which the server streams to the client.
    RequestReceiver,
    /// Opens a conversation in which the client streams to the server.
    RequestSender,
    /// The single reply to a `Request`.
    Response,
    /// Ends a `Request` without a reply.
    NoResponse,
    /// One item of an open stream.
    Stream,
    /// Ends a stream.
    StreamClosed,
    /// Ends the connection.
    Close,
}

/// The fixed-size part of a packet.
#[derive(Clone, Copy, Debug, PartialEq, Eq, Structural)]
pub struct Header {
    pub body_len: u32,
    pub kind: Kind,
    pub id: u32,
}

/// A message with the conversation it belongs to.
#[derive(Clone, Debug, PartialEq, Eq)]
pub struct Packet {
    pub kind: Kind,
    pub id: u32,
    pub body: Vec<u8>,
}

/// A packet as a mathematical value.
pub struct PacketView {
    pub kind: Kind,
    pub id: u32,
    pub body: Seq<u8>,
}

/// The body of a packet does not fit the length field of a header.
#[derive(Clone, Copy, Debug, PartialEq, Eq, Structural)]
pub struct BodyTooLarge;

/// The four bytes of `x`, most significant first.
pub open spec fn be32(x: u32) -> Seq<u8> {
    seq![
        (x / 0x100_0000) as u8,
        ((x / 0x1_0000) % 0x100) as u8,
        ((x / 0x100) % 0x100) as u8,
        (x % 0x100) as u8,
    ]
}

/// The number whose four bytes, most significant first, start at `at`.
pub open spec fn from_be32(bytes: Seq<u8>, at: int) -> u32
    recommends
        0 <= at,
        at + 4 <= bytes.len(),
{
    (bytes[at] * 0x100_0000 + bytes[at + 1] * 0x1_0000 + bytes[at + 2] * 0x100 + bytes[at + 3]) as u32
}

/// Reading the four bytes of a number gives the number back.
pub proof fn lemma_be32_round_trip(x: u32)
    ensures
        be32(x).len() == 4,
        from_be32(be32(x), 0) == x,
{
}

impl Kind {
    /// The byte that stands for the kind on the wire.
    pub open spec fn spec_code(self) -> u8 {
        match self {
            Kind::Request => 1,
            Kind::RequestReceiver => 2,
            Kind::RequestSender => 3,
            Kind::Response => 4,
            Kind::NoResponse => 5,
            Kind::Stream => 6,
            Kind::StreamClosed => 7,
            Kind::Close => 8,
        }
    }

    /// The kind that a byte stands for, if any.
    pub open spec fn spec_from_code(code: u8) -> Option<Kind> {
        if code == 1 {
            Some(Kind::Request)
        } else if code == 2 {
            Some(Kind::RequestReceiver)
        } else if code == 3 {
            Some(Kind::RequestSender)
        } else if code == 4 {
            Some(Kind::Response)
        } else if code == 5 {
            Some(Kind::NoResponse)
        } else if code == 6 {
            Some(Kind::Stream)
        } else if code == 7 {
            Some(Kind::StreamClosed)
        } else if code == 8 {
            Some(Kind::Close)
        } else {
            None
        }
    }

    /// The byte that stands for the kind on the wire.
    #[verifier::when_used_as_spec(spec_code)]
    pub fn code(self) -> (code: u8)
        ensures
            code == self.spec_code(),
    {
        match self {
            Kind::Request => 1,
            Kind::RequestReceiver => 2,
            Kind::RequestSender => 3,
            Kind::Response => 4,
            Kind::NoResponse => 5,
            Kind::Stream => 6,
            Kind::StreamClosed => 7,
            Kind::Close => 8,
        }
    }

    /// The kind that a byte stands for, if any.
    pub fn from_code(code: u8) -> (kind: Option<Kind>)
        ensures
            kind == Kind::spec_from_code(code),
    {
        match code {
            1 => Some(Kind::Request),
            2 => Some(Kind::RequestReceiver),
            3 => Some(Kind::RequestSender),
            4 => Some(Kind::Response),
            5 => Some(Kind::NoResponse),
            6 => Some(Kind::Stream),
            7 => Some(Kind::StreamClosed),
            8 => Some(Kind::Close),
            _ => None,
        }
    }
}

/// Every kind is the kind that its byte stands for.
pub proof fn lemma_kind_round_trip(kind: Kind)
    ensures
        Kind::spec_from_code(kind.spec_code()) == Some(kind),
{
}

impl Header {
    /// The nine bytes of the header.
    pub open spec fn wire(self) -> Seq<u8> {
        be32(self.body_len) + seq![self.kind.spec_code()] + be32(self.id)
    }

    /// The header that the first nine bytes stand for; `None` where the
    /// kind byte stands for no kind.
    pub open spec fn parse(bytes: Seq<u8>) -> Option<Header>
        recommends
            bytes.len() >= HEADER_LEN,
    {
        match Kind::spec_from_code(bytes[4]) {
            Some(kind) => Some(
                Header { body_len: from_be32(bytes, 0), kind, id: from_be32(bytes, 5) },
            ),
            None => None,
        }
    }

    /// The nine bytes of the header.
    pub fn to_bytes(&self) -> (bytes: Vec<u8>)
        ensures
            bytes@ == self.wire(),
    {
        let mut bytes: Vec<u8> = Vec::with_capacity(HEADER_LEN);
        push_be32(&mut bytes, self.body_len);
        bytes.push(self.kind.code());
        push_be32(&mut bytes, self.id);
        bytes
    }

    /// Reads a header from exactly nine bytes.
    pub fn from_bytes(bytes: &[u8]) -> (header: Option<Header>)
        ensures
            header == if bytes@.len() == HEADER_LEN {
                Header::parse(bytes@)
            } else {
                None
            },
    {
        if bytes.len() != HEADER_LEN {
            return None;
        }
        match Kind::from_code(bytes[4]) {
            Some(kind) => Some(
                Header { body_len: read_be32(bytes, 0), kind, id: read_be32(bytes, 5) },
            ),
            None => None,
        }
    }
}

/// Parsing the bytes of a header, whatever follows them, gives the header
/// back.
pub proof fn lemma_header_round_trip(header: Header, rest: Seq<u8>)
    ensures
        header.wire().len() == HEADER_LEN,
        Header::parse(header.wire() + rest) == Some(header),
{
    let bytes = header.wire() + rest;
    lemma_be32_round_trip(header.body_len);
    lemma_be32_round_trip(header.id);
    lemma_kind_round_trip(header.kind);
    assert(bytes[4] == header.kind.spec_code());
    assert(from_be32(bytes, 0) == from_be32(be32(header.body_len), 0));
    assert(from_be32(bytes, 5) == from_be32(be32(header.id), 0));
}

fn push_be32(out: &mut Vec<u8>, x: u32)
    ensures
        final(out)@ == old(out)@ + be32(x),
{
    out.push((x / 0x100_0000) as u8);
    out.push(((x / 0x1_0000) % 0x100) as u8);
    out.push(((x / 0x100) % 0x100) as u8);
    out.push((x % 0x100) as u8);
    assert(out@ =~= old(out)@ + be32(x));
}

fn read_be32(bytes: &[u8], at: usize) -> (x: u32)
    requires
        at + 4 <= bytes@.len(),
    ensures
        x == from_be32(bytes@, at as int),
{
    let b0: u32 = bytes[at] as u32;
    let b1: u32 = bytes[at + 1] as u32;
    let b2: u32 = bytes[at + 2] as u32;
    let b3: u32 = bytes[at + 3] as u32;
    b0 * 0x100_0000 + b1 * 0x1_0000 + b2 * 0x100 + b3
}

/// Appends `src[from..to]` to `out`.
pub(crate) fn append_range(out: &mut Vec<u8>, src: &[u8], from: usize, to: usize)
    requires
        from <= to <= src@.len(),
    ensures
        final(out)@ == old(out)@ + src@.subrange(from as int, to as int),
{
    let mut i: usize = from;
    while i < to
        invariant
            from <= i <= to <= src@.len(),
            out@ == old(out)@ + src@.subrange(from as int, i as int),
        decreases to - i,
    {
        out.push(src[i]);
        i += 1;
        assert(out@ =~= old(out)@ + src@.subrange(from as int, i as int));
    }
    assert(out@ =~= old(out)@ + src@.subrange(from as int, to as int));
}

impl View for Packet {
    type V = PacketView;

    open spec fn view(&self) -> PacketView {
        PacketView { kind: self.kind, id: self.id, body: self.body@ }
    }
}

impl PacketView {
    /// The body fits the length field of a header.
    pub open spec fn valid(self) -> bool {
        self.body.len() <= u32::MAX
    }

    /// The header that precedes the packet on the wire.
    pub open spec fn header(self) -> Header
        recommends
            self.valid(),
    {
        Header { body_len: self.body.len() as u32, kind: self.kind, id: self.id }
    }

    /// The bytes of the packet on the wire: its header, then its body.
    pub open spec fn wire(self) -> Seq<u8>
        recommends
            self.valid(),
    {
        self.header().wire() + self.body
    }
}

impl Packet {
    /// A packet of conversation `id`.
    pub fn new(kind: Kind, id: u32, body: Vec<u8>) -> (packet: Packet)
        ensures
            packet@ == (PacketView { kind, id, body: body@ }),
    {
        Packet { kind, id, body }
    }

    /// The header that precedes this packet on the wire; `None` where the
    /// body is too large to have one.
    pub fn header(&self) -> (header: Option<Header>)
        ensures
            header == if self@.valid() {
                Some(self@.header())
            } else {
                None
            },
    {
        if self.body.len() > u32::MAX as usize {
            None
        } else {
            Some(Header { body_len: self.body.len() as u32, kind: self.kind, id: self.id })
        }
    }

    /// The packet as bytes for the wire. Fails exactly if the body is too
    /// large for the length field.
    pub fn into_bytes(self) -> (bytes: Result<Vec<u8>, BodyTooLarge>)
        ensures
            match bytes {
                Ok(bytes) => self@.valid() && bytes@ == self@.wire(),
                Err(_) => !self@.valid(),
            },
    {
        match self.header() {
            Some(header) => {
                let mut bytes = header.to_bytes();
                append_range(&mut bytes, self.body.as_slice(), 0, self.body.len());
                assert(self.body@.subrange(0, self.body@.len() as int) =~= self.body@);
                Ok(bytes)
            },
            None => Err(BodyTooLarge),
        }
    }
}

/// What a sequence of bytes from the wire starts with.
pub enum Framed {
    /// Not yet a whole packet.
    Incomplete,
    /// A header whose kind byte stands for no kind.
    Malformed,
    /// A header that announces a body over the limit.
    TooLarge,
    /// A whole packet, which takes up this many bytes.
    Packet(PacketView, nat),
}

/// What `bytes` start with, where a body may have at most `limit` bytes.
///
/// The header alone decides whether the packet is refused: no byte of a
/// body is looked at before its length is known to be within the limit.
pub open spec fn parse_packet(limit: u32, bytes: Seq<u8>) -> Framed {
    if bytes.len() < HEADER_LEN {
        Framed::Incomplete
    } else {
        match Header::parse(bytes) {
            None => Framed::Malformed,
            Some(h) => if h.body_len > limit {
                Framed::TooLarge
            } else if bytes.len() < HEADER_LEN + h.body_len {
                Framed::Incomplete
            } else {
                Framed::Packet(
                    PacketView {
                        kind: h.kind,
                        id: h.id,
                        body: bytes.subrange(HEADER_LEN as int, HEADER_LEN + h.body_len),
                    },
                    (HEADER_LEN + h.body_len) as nat,
                )
            },
        }
    }
}

/// The bytes of a packet whose body is within the limit, whatever follows
/// them, parse to that packet and to nothing more.
pub proof fn lemma_packet_round_trip(limit: u32, packet: PacketView, rest: Seq<u8>)
    requires
        packet.body.len() <= limit,
    ensures
        parse_packet(limit, packet.wire() + rest) == Framed::Packet(packet, packet.wire().len()),
{
    let bytes = packet.wire() + rest;
    let header = packet.header();
    lemma_header_round_trip(header, packet.body + rest);
    assert(bytes =~= header.wire() + (packet.body + rest));
    assert(bytes.subrange(HEADER_LEN as int, HEADER_LEN + header.body_len) =~= packet.body);
}

/// A header is accepted exactly if the body it announces is within the
/// limit: a length equal to the limit passes, one byte more does not, and
/// what follows the header plays no part in the refusal.
pub proof fn lemma_limit_is_exact(limit: u32, header: Header, rest: Seq<u8>)
    ensures
        header.body_len > limit <==> parse_packet(limit, header.wire() + rest) == Framed::TooLarge,
        header.body_len == limit ==> parse_packet(limit, header.wire() + rest) != Framed::TooLarge,
        header.body_len == limit + 1 ==> parse_packet(limit, header.wire() + rest)
            == Framed::TooLarge,
{
    lemma_header_round_trip(header, rest);
}

/// The bytes of packets sent one after the other.
pub open spec fn wire_of_all(packets: Seq<PacketView>) -> Seq<u8>
    decreases packets.len(),
{
    if packets.len() == 0 {
        Seq::empty()
    } else {
        packets[0].wire() + wire_of_all(packets.skip(1))
    }
}

/// The whole packets that `bytes` hold, in the order in which they stand,
/// up to the first that is not whole or is refused.
pub open spec fn packets_in(limit: u32, bytes: Seq<u8>) -> Seq<PacketView>
    decreases bytes.len(),
{
    match parse_packet(limit, bytes) {
        Framed::Packet(p, n) => if 0 < n <= bytes.len() {
            seq![p] + packets_in(limit, bytes.skip(n as int))
        } else {
            Seq::empty()
        },
        _ => Seq::empty(),
    }
}

/// What is written in some order is read in that order: the bytes of
/// packets whose bodies are within the limit, sent one after the other,
/// hold exactly these packets, each unchanged and none in another's place.
pub proof fn lemma_packets_keep_order(limit: u32, packets: Seq<PacketView>)
    requires
        forall|i: int| 0 <= i < packets.len() ==> (#[trigger] packets[i]).body.len() <= limit,
    ensures
        packets_in(limit, wire_of_all(packets)) == packets,
    decreases packets.len(),
{
    if packets.len() == 0 {
        assert(packets =~= Seq::<PacketView>::empty());
    } else {
        let first = packets[0];
        let rest = packets.skip(1);
        lemma_packet_round_trip(limit, first, wire_of_all(rest));
        lemma_header_round_trip(first.header(), first.body);
        assert forall|i: int| 0 <= i < rest.len() implies (#[trigger] rest[i]).body.len()
            <= limit by {
            assert(rest[i] == packets[i + 1]);
        }
        lemma_packets_keep_order(limit, rest);
        assert(wire_of_all(packets).skip(first.wire().len() as int) =~= wire_of_all(rest));
        assert(seq![first] + rest =~= packets);
    }
}

} // verus!
