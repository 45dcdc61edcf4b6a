//! The packet framer: a parser in two phases, header then body, that is fed
//! whatever bytes have arrived and keeps what it has read so far.
//!
//! A call that ends before its phase is complete loses nothing: the next
//! call goes on where the last one stopped. What the framer returns depends
//! only on the bytes it was given, not on how they were cut into calls.

use crate::packet::{append_range, Framed, Header, Packet, PacketView, parse_packet, HEADER_LEN};
use crate::packet::{lemma_header_round_trip, lemma_packet_round_trip};
use vstd::prelude::*;

verus! {

/// Why the framer refuses a header.
#[derive(Clone, Copy, Debug, PartialEq, Eq, Structural)]
pub enum FramingError {
    /// The kind byte of the header stands for no kind.
    MalformedHeader,
    /// The header announces a body that is larger than the limit.
    BodyLimitReached,
}

/// How far a phase has come.
#[derive(Clone, Copy, Debug, PartialEq, Eq)]
pub enum Step<T> {
    /// More bytes are needed.
    Pending,
    /// The phase is complete.
    Ready(T),
}

/// The framer of one stream.
pub struct Framer {
    body_limit: u32,
    /// The header of the packet whose body is being read.
    header: Option<Header>,
    /// The bytes read so far of the header or, once there is one, of the body.
    buf: Vec<u8>,
}

/// A framer as a mathematical value.
pub struct FramerView {
    pub body_limit: u32,
    pub header: Option<Header>,
    pub pending: Seq<u8>,
}

impl FramerView {
    /// The framer holds no more bytes than its phase needs.
    pub open spec fn wf(self) -> bool {
        match self.header {
            None => self.pending.len() <= HEADER_LEN,
            Some(h) => self.pending.len() <= h.body_len,
        }
    }

    /// A framer that has read nothing.
    pub open spec fn fresh(body_limit: u32) -> FramerView {
        FramerView { body_limit, header: None, pending: Seq::empty() }
    }

    /// No byte of a packet has been read.
    pub open spec fn is_idle(self) -> bool {
        self.header is None && self.pending.len() == 0
    }

    /// The number of bytes that the current phase still needs.
    pub open spec fn missing(self) -> nat {
        match self.header {
            None => (HEADER_LEN - self.pending.len()) as nat,
            Some(h) => (h.body_len - self.pending.len()) as nat,
        }
    }

    /// The number of bytes that the current phase takes from `input`: what
    /// it still needs, as far as there is that much.
    pub open spec fn takes(self, input: Seq<u8>) -> nat {
        if input.len() < self.missing() {
            input.len()
        } else {
            self.missing()
        }
    }

    /// The header phase on `input`: the framer afterwards, the number of
    /// bytes taken from the front of `input`, and the result.
    ///
    /// With the header already read, nothing is taken and the header is
    /// returned again. Otherwise the phase takes the bytes it needs; with
    /// all nine it parses them, refuses an unknown kind and a body over the
    /// limit, and else goes on to the body phase.
    pub open spec fn read_header(self, input: Seq<u8>) -> (
        FramerView,
        nat,
        Result<Step<Header>, FramingError>,
    ) {
        match self.header {
            Some(h) => (self, 0, Ok(Step::Ready(h))),
            None => {
                let n = self.takes(input);
                let bytes = self.pending + input.subrange(0, n as int);
                let kept = FramerView { pending: bytes, ..self };
                if bytes.len() < HEADER_LEN {
                    (kept, n, Ok(Step::Pending))
                } else {
                    match Header::parse(bytes) {
                        None => (kept, n, Err(FramingError::MalformedHeader)),
                        Some(h) => if h.body_len > self.body_limit {
                            (kept, n, Err(FramingError::BodyLimitReached))
                        } else {
                            (
                                FramerView { header: Some(h), pending: Seq::empty(), ..self },
                                n,
                                Ok(Step::Ready(h)),
                            )
                        },
                    }
                }
            },
        }
    }

    /// The body phase on `input`: the framer afterwards, the number of
    /// bytes taken from the front of `input`, and the result.
    ///
    /// The phase takes the bytes that the body still needs, and with all of
    /// them returns the packet and goes back to the header phase. Without a
    /// header read before, it takes nothing and stays pending.
    pub open spec fn read_body(self, input: Seq<u8>) -> (FramerView, nat, Step<PacketView>) {
        match self.header {
            None => (self, 0, Step::Pending),
            Some(h) => {
                let n = self.takes(input);
                let bytes = self.pending + input.subrange(0, n as int);
                if bytes.len() < h.body_len {
                    (FramerView { pending: bytes, ..self }, n, Step::Pending)
                } else {
                    (
                        FramerView { header: None, pending: Seq::empty(), ..self },
                        n,
                        Step::Ready(PacketView { kind: h.kind, id: h.id, body: bytes }),
                    )
                }
            },
        }
    }

    /// Both phases on `input`, the body phase on what the header phase left.
    pub open spec fn receive(self, input: Seq<u8>) -> (
        FramerView,
        nat,
        Result<Step<PacketView>, FramingError>,
    ) {
        let (after_header, n, header) = self.read_header(input);
        match header {
            Err(e) => (after_header, n, Err(e)),
            Ok(Step::Pending) => (after_header, n, Ok(Step::Pending)),
            Ok(Step::Ready(_)) => {
                let (after_body, m, body) = after_header.read_body(
                    input.subrange(n as int, input.len() as int),
                );
                (after_body, n + m, Ok(body))
            },
        }
    }
}

/// The result of a body phase, as a mathematical value.
pub open spec fn step_view(step: Step<Packet>) -> Step<PacketView> {
    match step {
        Step::Pending => Step::Pending,
        Step::Ready(p) => Step::Ready(p@),
    }
}

/// The result of both phases, as a mathematical value.
pub open spec fn received_view(r: Result<Step<Packet>, FramingError>) -> Result<
    Step<PacketView>,
    FramingError,
> {
    match r {
        Ok(step) => Ok(step_view(step)),
        Err(e) => Err(e),
    }
}

impl View for Framer {
    type V = FramerView;

    closed spec fn view(&self) -> FramerView {
        FramerView { body_limit: self.body_limit, header: self.header, pending: self.buf@ }
    }
}

impl Framer {
    #[verifier::type_invariant]
    closed spec fn inv(&self) -> bool {
        self@.wf()
    }

    /// A framer that has read nothing.
    pub fn new(body_limit: u32) -> (framer: Framer)
        ensures
            framer@ == FramerView::fresh(body_limit),
            framer@.wf(),
    {
        Framer { body_limit, header: None, buf: Vec::new() }
    }

    /// How large the body of a packet may be.
    pub fn body_limit(&self) -> (limit: u32)
        ensures
            limit == self@.body_limit,
    {
        self.body_limit
    }

    /// Sets the limit for the headers read from now on. A header that was
    /// already accepted stays accepted.
    pub fn set_body_limit(&mut self, body_limit: u32)
        ensures
            final(self)@ == (FramerView { body_limit, ..old(self)@ }),
            final(self)@.wf(),
    {
        proof {
            use_type_invariant(&*self);
        }
        self.body_limit = body_limit;
    }

    /// The header of the packet whose body is being read.
    pub fn header(&self) -> (header: Option<Header>)
        ensures
            header == self@.header,
    {
        self.header
    }

    /// Whether no byte of a packet has been read: the stream stands between
    /// two packets.
    pub fn is_idle(&self) -> (idle: bool)
        ensures
            idle == self@.is_idle(),
    {
        self.header.is_none() && self.buf.len() == 0
    }

    /// The number of bytes that the current phase still needs.
    pub fn missing(&self) -> (n: usize)
        ensures
            n == self@.missing(),
            self@.wf(),
    {
        proof {
            use_type_invariant(self);
        }
        match self.header {
            None => HEADER_LEN - self.buf.len(),
            Some(h) => h.body_len as usize - self.buf.len(),
        }
    }

    /// Reads the header of the next packet from the front of `input` and
    /// returns how many bytes it took.
    ///
    /// A header that announces a body over the limit is refused as soon as
    /// its nine bytes are there, before any byte of the body is taken.
    pub fn read_header(&mut self, input: &[u8]) -> (r: (usize, Result<Step<Header>, FramingError>))
        ensures
            (final(self)@, r.0 as nat, r.1) == old(self)@.read_header(input@),
            old(self)@.wf(),
            final(self)@.wf(),
    {
        proof {
            use_type_invariant(&*self);
        }
        if let Some(h) = self.header {
            return (0, Ok(Step::Ready(h)));
        }
        let missing = HEADER_LEN - self.buf.len();
        let n = if input.len() < missing {
            input.len()
        } else {
            missing
        };
        let mut buf: Vec<u8> = Vec::new();
        std::mem::swap(&mut buf, &mut self.buf);
        append_range(&mut buf, input, 0, n);
        self.buf = buf;
        if self.buf.len() < HEADER_LEN {
            return (n, Ok(Step::Pending));
        }
        match Header::from_bytes(self.buf.as_slice()) {
            None => (n, Err(FramingError::MalformedHeader)),
            Some(h) => {
                if h.body_len > self.body_limit {
                    (n, Err(FramingError::BodyLimitReached))
                } else {
                    self.buf = Vec::new();
                    self.header = Some(h);
                    assert(self.buf@ =~= Seq::<u8>::empty());
                    (n, Ok(Step::Ready(h)))
                }
            },
        }
    }

    /// Reads the body that belongs to the header read before from the front
    /// of `input` and returns how many bytes it took. Without a header read
    /// before, this takes nothing.
    pub fn read_body(&mut self, input: &[u8]) -> (r: (usize, Step<Packet>))
        ensures
            (final(self)@, r.0 as nat, step_view(r.1)) == old(self)@.read_body(input@),
            old(self)@.wf(),
            final(self)@.wf(),
    {
        proof {
            use_type_invariant(&*self);
        }
        let h = match self.header {
            Some(h) => h,
            None => { return (0, Step::Pending); },
        };
        let missing = h.body_len as usize - self.buf.len();
        let n = if input.len() < missing {
            input.len()
        } else {
            missing
        };
        let mut buf: Vec<u8> = Vec::new();
        std::mem::swap(&mut buf, &mut self.buf);
        append_range(&mut buf, input, 0, n);
        self.buf = buf;
        if self.buf.len() < h.body_len as usize {
            return (n, Step::Pending);
        }
        let mut body: Vec<u8> = Vec::new();
        std::mem::swap(&mut body, &mut self.buf);
        self.header = None;
        assert(self.buf@ =~= Seq::<u8>::empty());
        (n, Step::Ready(Packet { kind: h.kind, id: h.id, body }))
    }

    /// Reads the next packet from the front of `input`, header then body,
    /// and returns how many bytes it took.
    pub fn receive(&mut self, input: &[u8]) -> (r: (usize, Result<Step<Packet>, FramingError>))
        ensures
            (final(self)@, r.0 as nat, received_view(r.1)) == old(self)@.receive(input@),
            old(self)@.wf(),
            final(self)@.wf(),
    {
        let (n, header) = self.read_header(input);
        match header {
            Err(e) => (n, Err(e)),
            Ok(Step::Pending) => (n, Ok(Step::Pending)),
            Ok(Step::Ready(_)) => {
                proof {
                    use_type_invariant(&*self);
                }
                let rest = vstd::slice::slice_subrange(input, n, input.len());
                let (m, body) = self.read_body(rest);
                (n + m, Ok(body))
            },
        }
    }
}

/// The header phase can be resumed: where it stays pending on `a`, it has
/// taken all of `a`, and going on with `b` gives what one call on `a` and
/// `b` together gives. Where it ends on `a`, nothing after `a` is touched.
pub proof fn lemma_read_header_resumes(v: FramerView, a: Seq<u8>, b: Seq<u8>)
    requires
        v.wf(),
    ensures
        ({
            let (v1, n1, r1) = v.read_header(a);
            let whole = v.read_header(a + b);
            if r1 == Ok::<Step<Header>, FramingError>(Step::Pending) {
                let (v2, n2, r2) = v1.read_header(b);
                n1 == a.len() && v1.wf() && whole == (v2, n1 + n2, r2)
            } else {
                n1 <= a.len() && whole == (v1, n1, r1)
            }
        }),
{
    let (v1, n1, r1) = v.read_header(a);
    if v.header is None {
        let first = v.pending + a.subrange(0, n1 as int);
        if r1 == Ok::<Step<Header>, FramingError>(Step::Pending) {
            let n2 = v1.takes(b);
            assert((a + b).subrange(0, (n1 + n2) as int) =~= a + b.subrange(0, n2 as int));
            assert(a.subrange(0, n1 as int) =~= a);
            assert(v.pending + (a + b).subrange(0, (n1 + n2) as int) =~= first + b.subrange(
                0,
                n2 as int,
            ));
        } else {
            assert((a + b).subrange(0, n1 as int) =~= a.subrange(0, n1 as int));
        }
    }
}

/// The body phase can be resumed in the same way as the header phase.
pub proof fn lemma_read_body_resumes(v: FramerView, a: Seq<u8>, b: Seq<u8>)
    requires
        v.wf(),
        v.header is Some,
    ensures
        ({
            let (v1, n1, r1) = v.read_body(a);
            let whole = v.read_body(a + b);
            if r1 is Pending {
                let (v2, n2, r2) = v1.read_body(b);
                n1 == a.len() && v1.wf() && v1.header is Some && whole == (v2, n1 + n2, r2)
            } else {
                n1 <= a.len() && whole == (v1, n1, r1)
            }
        }),
{
    let (v1, n1, r1) = v.read_body(a);
    let first = v.pending + a.subrange(0, n1 as int);
    if r1 is Pending {
        let n2 = v1.takes(b);
        assert((a + b).subrange(0, (n1 + n2) as int) =~= a + b.subrange(0, n2 as int));
        assert(a.subrange(0, n1 as int) =~= a);
        assert(v.pending + (a + b).subrange(0, (n1 + n2) as int) =~= first + b.subrange(
            0,
            n2 as int,
        ));
    } else {
        assert((a + b).subrange(0, n1 as int) =~= a.subrange(0, n1 as int));
    }
}

/// Receiving can be resumed: however the bytes of the stream are cut into
/// calls, the framer takes the same bytes and returns the same packet.
///
/// Where a call on `a` stays pending, it has taken all of `a`, and a call
/// on `b` afterwards gives what one call on `a` and `b` together gives.
/// Where the call ends, with a packet or an error, nothing after what it
/// took is touched.
pub proof fn lemma_receive_resumes(v: FramerView, a: Seq<u8>, b: Seq<u8>)
    requires
        v.wf(),
    ensures
        ({
            let (v1, n1, r1) = v.receive(a);
            let whole = v.receive(a + b);
            if r1 == Ok::<Step<PacketView>, FramingError>(Step::Pending) {
                let (v2, n2, r2) = v1.receive(b);
                n1 == a.len() && v1.wf() && whole == (v2, n1 + n2, r2)
            } else {
                n1 <= a.len() && whole == (v1, n1, r1)
            }
        }),
{
    lemma_read_header_resumes(v, a, b);
    let rh = v.read_header(a).2;
    match rh {
        Err(_) => {},
        Ok(Step::Pending) => {
            lemma_receive_resumes_in_header(v, a, b);
        },
        Ok(Step::Ready(_)) => {
            lemma_receive_resumes_in_body(v, a, b);
        },
    }
}

/// Resuming where the first call stayed in the header phase.
proof fn lemma_receive_resumes_in_header(v: FramerView, a: Seq<u8>, b: Seq<u8>)
    requires
        v.wf(),
        v.read_header(a).2 == Ok::<Step<Header>, FramingError>(Step::Pending),
        v.read_header(a + b) == ({
            let (v1, n1, r1) = v.read_header(a);
            let (v2, n2, r2) = v1.read_header(b);
            (v2, n1 + n2, r2)
        }),
        v.read_header(a).1 == a.len(),
        v.read_header(a).0.wf(),
    ensures
        v.receive(a) == (v.read_header(a).0, a.len(), Ok::<Step<PacketView>, FramingError>(
            Step::Pending,
        )),
        v.receive(a + b) == ({
            let (v2, n2, r2) = v.read_header(a).0.receive(b);
            (v2, a.len() + n2, r2)
        }),
{
    let ab = a + b;
    let vh = v.read_header(a).0;
    let (vh2, nh2, rh2) = vh.read_header(b);
    assert(ab.subrange((a.len() + nh2) as int, ab.len() as int) =~= b.subrange(
        nh2 as int,
        b.len() as int,
    ));
}

/// Resuming where the first call came to the body phase.
proof fn lemma_receive_resumes_in_body(v: FramerView, a: Seq<u8>, b: Seq<u8>)
    requires
        v.wf(),
        v.read_header(a).2 is Ok,
        v.read_header(a).2->Ok_0 is Ready,
        v.read_header(a + b) == v.read_header(a),
        v.read_header(a).1 <= a.len(),
    ensures
        ({
            let (v1, n1, r1) = v.receive(a);
            let whole = v.receive(a + b);
            if r1 == Ok::<Step<PacketView>, FramingError>(Step::Pending) {
                let (v2, n2, r2) = v1.receive(b);
                n1 == a.len() && v1.wf() && whole == (v2, n1 + n2, r2)
            } else {
                n1 <= a.len() && whole == (v1, n1, r1)
            }
        }),
{
    let ab = a + b;
    let (vh, nh, rh) = v.read_header(a);
    let rest = a.subrange(nh as int, a.len() as int);
    assert(ab.subrange(nh as int, ab.len() as int) =~= rest + b);
    assert(vh.wf() && vh.header is Some);
    lemma_read_body_resumes(vh, rest, b);
    let (vb, nb, rb) = vh.read_body(rest);
    assert(v.receive(a) == (vb, nh + nb, Ok::<Step<PacketView>, FramingError>(rb)));
    if rb is Pending {
        lemma_receive_in_body(vb, b);
    }
}

/// With the header read, receiving is the body phase.
proof fn lemma_receive_in_body(v: FramerView, b: Seq<u8>)
    requires
        v.header is Some,
    ensures
        v.receive(b) == ({
            let (v2, n2, r2) = v.read_body(b);
            (v2, n2, Ok::<Step<PacketView>, FramingError>(r2))
        }),
{
    assert(b.subrange(0, b.len() as int) =~= b);
}

/// A framer that has read nothing, given bytes in one call, returns what
/// the bytes start with: the packet and its length, a pending step where
/// the packet is not whole yet, or the error of its header. A refused
/// header has cost its nine bytes and no byte of the body.
pub proof fn lemma_receive_parses(limit: u32, bytes: Seq<u8>)
    ensures
        ({
            let (after, n, r) = FramerView::fresh(limit).receive(bytes);
            match parse_packet(limit, bytes) {
                Framed::Incomplete => n == bytes.len() && r == Ok::<
                    Step<PacketView>,
                    FramingError,
                >(Step::Pending),
                Framed::Malformed => n == HEADER_LEN && r == Err::<Step<PacketView>, FramingError>(
                    FramingError::MalformedHeader,
                ),
                Framed::TooLarge => n == HEADER_LEN && r == Err::<Step<PacketView>, FramingError>(
                    FramingError::BodyLimitReached,
                ),
                Framed::Packet(p, len) => n == len && after == FramerView::fresh(limit) && r == Ok::<
                    Step<PacketView>,
                    FramingError,
                >(Step::Ready(p)),
            }
        }),
{
    let v = FramerView::fresh(limit);
    let (vh, nh, rh) = v.read_header(bytes);
    let head = v.pending + bytes.subrange(0, nh as int);
    assert(head =~= bytes.subrange(0, nh as int));
    if bytes.len() >= HEADER_LEN {
        assert(Header::parse(head) == Header::parse(bytes));
        if let Ok(Step::Ready(h)) = rh {
            let rest = bytes.subrange(nh as int, bytes.len() as int);
            let (vb, nb, rb) = vh.read_body(rest);
            let body = vh.pending + rest.subrange(0, nb as int);
            if rb is Ready {
                assert(body =~= bytes.subrange(HEADER_LEN as int, HEADER_LEN + h.body_len));
            }
        }
    }
}

/// Round trip: the bytes of a packet whose body is within the limit,
/// received by a framer that has read nothing, give the packet back, take
/// exactly its bytes and leave the framer ready for the next packet.
pub proof fn lemma_receive_round_trip(limit: u32, packet: PacketView, rest: Seq<u8>)
    requires
        packet.body.len() <= limit,
    ensures
        FramerView::fresh(limit).receive(packet.wire() + rest) == (
            FramerView::fresh(limit),
            packet.wire().len(),
            Ok::<Step<PacketView>, FramingError>(Step::Ready(packet)),
        ),
{
    lemma_packet_round_trip(limit, packet, rest);
    lemma_receive_parses(limit, packet.wire() + rest);
}

/// The limit is exact and is enforced on the header alone: a framer that
/// has read nothing accepts a header that announces a body of exactly the
/// limit and refuses one that announces one byte more; either way it has
/// taken the nine bytes of the header and none of what follows.
pub proof fn lemma_read_header_limit(limit: u32, header: Header, rest: Seq<u8>)
    ensures
        ({
            let (after, n, r) = FramerView::fresh(limit).read_header(header.wire() + rest);
            &&& n == HEADER_LEN
            &&& header.body_len <= limit ==> r == Ok::<Step<Header>, FramingError>(
                Step::Ready(header),
            ) && after.pending.len() == 0
            &&& header.body_len > limit ==> r == Err::<Step<Header>, FramingError>(
                FramingError::BodyLimitReached,
            ) && after.pending == header.wire()
        }),
{
    let bytes = header.wire() + rest;
    lemma_header_round_trip(header, rest);
    lemma_header_round_trip(header, Seq::empty());
    let v = FramerView::fresh(limit);
    let n = v.takes(bytes);
    assert(v.pending + bytes.subrange(0, n as int) =~= header.wire());
    assert(header.wire() + Seq::<u8>::empty() =~= header.wire());
}

} // verus!
