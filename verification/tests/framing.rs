use fire_stream::config::Config;
use fire_stream::framer::{Framer, FramingError, Step};
use fire_stream::packet::{BodyTooLarge, Header, Kind, Packet, HEADER_LEN};
use fire_stream::stream::{PacketStream, Read, ReceiveError};
use std::time::Duration;

fn packet(kind: Kind, id: u32, body: &[u8]) -> Packet {
    Packet::new(kind, id, body.to_vec())
}

fn header_bytes(body_len: u32, kind: Kind, id: u32) -> Vec<u8> {
    Header { body_len, kind, id }.to_bytes()
}

#[test]
fn kind_codes() {
    let kinds = [
        (Kind::Request, 1u8),
        (Kind::RequestReceiver, 2),
        (Kind::RequestSender, 3),
        (Kind::Response, 4),
        (Kind::NoResponse, 5),
        (Kind::Stream, 6),
        (Kind::StreamClosed, 7),
        (Kind::Close, 8),
    ];
    for (kind, code) in kinds {
        assert_eq!(kind.code(), code);
        assert_eq!(Kind::from_code(code), Some(kind));
    }
    assert_eq!(Kind::from_code(0), None);
    assert_eq!(Kind::from_code(9), None);
    assert_eq!(Kind::from_code(255), None);
}

#[test]
fn header_bytes_are_exact() {
    let header = Header { body_len: 0x0102_0304, kind: Kind::Stream, id: 0x0a0b_0c0d };
    assert_eq!(header.to_bytes(), vec![1, 2, 3, 4, 6, 0x0a, 0x0b, 0x0c, 0x0d]);
    assert_eq!(Header::from_bytes(&[1, 2, 3, 4, 6, 0x0a, 0x0b, 0x0c, 0x0d]), Some(header));
    let header = Header { body_len: u32::MAX, kind: Kind::Close, id: u32::MAX };
    assert_eq!(Header::from_bytes(&header.to_bytes()), Some(header));
    let header = Header { body_len: 0, kind: Kind::Request, id: 0 };
    assert_eq!(header.to_bytes(), vec![0, 0, 0, 0, 1, 0, 0, 0, 0]);
}

#[test]
fn header_needs_nine_bytes_and_a_kind() {
    assert_eq!(Header::from_bytes(&[0, 0, 0, 0, 1, 0, 0, 0]), None);
    assert_eq!(Header::from_bytes(&[0, 0, 0, 0, 1, 0, 0, 0, 0, 0]), None);
    assert_eq!(Header::from_bytes(&[]), None);
    assert_eq!(Header::from_bytes(&[0, 0, 0, 0, 0, 0, 0, 0, 0]), None);
    assert_eq!(Header::from_bytes(&[0, 0, 0, 0, 9, 0, 0, 0, 0]), None);
}

#[test]
fn packet_bytes_are_exact() {
    let p = packet(Kind::Request, 7, &[1, 2]);
    assert_eq!(p.header(), Some(Header { body_len: 2, kind: Kind::Request, id: 7 }));
    assert_eq!(p.into_bytes(), Ok(vec![0, 0, 0, 2, 1, 0, 0, 0, 7, 1, 2]));
    assert_eq!(Packet::close().into_bytes(), Ok(vec![0, 0, 0, 0, 8, 0, 0, 0, 0]));
    assert_eq!(
        Packet::bare(Kind::StreamClosed, 258).into_bytes(),
        Ok(vec![0, 0, 0, 0, 7, 0, 0, 1, 2])
    );
    // the only error there is
    assert_eq!(Err::<Vec<u8>, BodyTooLarge>(BodyTooLarge), Err(BodyTooLarge));
}

#[test]
fn round_trip_in_one_piece() {
    let sent = packet(Kind::Response, 42, b"some body");
    let mut bytes = sent.clone().into_bytes().unwrap();
    let len = bytes.len();
    bytes.extend_from_slice(&[0xaa, 0xbb]);
    let mut framer = Framer::new(200);
    assert_eq!(framer.receive(&bytes), (len, Ok(Step::Ready(sent))));
    assert!(framer.is_idle());
    assert_eq!(framer.missing(), HEADER_LEN);
}

#[test]
fn round_trip_byte_by_byte() {
    let sent = packet(Kind::Stream, 3, &[9, 8, 7, 6, 5]);
    let bytes = sent.clone().into_bytes().unwrap();
    let mut framer = Framer::new(5);
    for (i, byte) in bytes.iter().enumerate() {
        let (taken, r) = framer.receive(&[*byte]);
        assert_eq!(taken, 1);
        if i + 1 < bytes.len() {
            assert_eq!(r, Ok(Step::Pending));
            assert!(!framer.is_idle());
        } else {
            assert_eq!(r, Ok(Step::Ready(sent.clone())));
        }
    }
    assert!(framer.is_idle());
}

#[test]
fn round_trip_in_every_cut() {
    let sent = packet(Kind::RequestSender, 0x0102_0304, &[1, 2, 3, 4, 5, 6, 7]);
    let bytes = sent.clone().into_bytes().unwrap();
    for cut in 0..=bytes.len() {
        let mut framer = Framer::new(7);
        let (taken, first) = framer.receive(&bytes[..cut]);
        assert_eq!(taken, cut);
        if cut < bytes.len() {
            assert_eq!(first, Ok(Step::Pending));
            let (taken, second) = framer.receive(&bytes[cut..]);
            assert_eq!(taken, bytes.len() - cut);
            assert_eq!(second, Ok(Step::Ready(sent.clone())));
        } else {
            assert_eq!(first, Ok(Step::Ready(sent.clone())));
        }
    }
}

#[test]
fn empty_input_changes_nothing() {
    let mut framer = Framer::new(10);
    assert_eq!(framer.receive(&[]), (0, Ok(Step::Pending)));
    assert!(framer.is_idle());
    assert_eq!(framer.receive(&[0, 0]), (2, Ok(Step::Pending)));
    assert_eq!(framer.receive(&[]), (0, Ok(Step::Pending)));
    assert_eq!(framer.missing(), 7);
}

#[test]
fn packets_come_out_in_the_order_they_went_in() {
    let sent = vec![
        packet(Kind::Request, 1, &[1]),
        packet(Kind::Stream, 2, &[]),
        packet(Kind::Stream, 1, &[2, 3]),
        packet(Kind::StreamClosed, 2, &[]),
    ];
    let mut bytes = Vec::new();
    for p in &sent {
        bytes.extend(p.clone().into_bytes().unwrap());
    }
    let mut framer = Framer::new(2);
    let mut at = 0;
    let mut got = Vec::new();
    while at < bytes.len() {
        let (taken, r) = framer.receive(&bytes[at..]);
        at += taken;
        match r {
            Ok(Step::Ready(p)) => got.push(p),
            other => panic!("unexpected {:?}", other),
        }
    }
    assert_eq!(got, sent);
}

#[test]
fn body_of_exactly_the_limit_passes() {
    let body = vec![7u8; 200];
    let sent = packet(Kind::Request, 1, &body);
    let bytes = sent.clone().into_bytes().unwrap();
    let mut framer = Framer::new(200);
    assert_eq!(framer.receive(&bytes), (209, Ok(Step::Ready(sent))));
}

#[test]
fn body_of_one_over_the_limit_fails_on_the_header() {
    let body = vec![7u8; 201];
    let bytes = packet(Kind::Request, 1, &body).into_bytes().unwrap();
    let mut framer = Framer::new(200);
    // the nine bytes of the header are taken, and no byte of the body
    assert_eq!(framer.receive(&bytes), (HEADER_LEN, Err(FramingError::BodyLimitReached)));
    assert_eq!(framer.header(), None);
    // and it stays that way
    assert_eq!(framer.receive(&bytes[9..]), (0, Err(FramingError::BodyLimitReached)));
}

#[test]
fn limit_is_checked_with_the_last_byte_of_the_header() {
    let bytes = header_bytes(11, Kind::Request, 1);
    let mut framer = Framer::new(10);
    assert_eq!(framer.read_header(&bytes[..8]), (8, Ok(Step::Pending)));
    assert_eq!(framer.read_header(&bytes[8..]), (1, Err(FramingError::BodyLimitReached)));
    let mut framer = Framer::new(10);
    let bytes = header_bytes(10, Kind::Request, 1);
    assert_eq!(
        framer.read_header(&bytes),
        (9, Ok(Step::Ready(Header { body_len: 10, kind: Kind::Request, id: 1 })))
    );
    assert_eq!(framer.missing(), 10);
}

#[test]
fn limit_zero_and_limit_max() {
    let mut framer = Framer::new(0);
    let empty = packet(Kind::Stream, 5, &[]);
    assert_eq!(
        framer.receive(&empty.clone().into_bytes().unwrap()),
        (9, Ok(Step::Ready(empty)))
    );
    assert_eq!(
        framer.receive(&packet(Kind::Stream, 5, &[1]).into_bytes().unwrap()),
        (9, Err(FramingError::BodyLimitReached))
    );
    let mut framer = Framer::new(u32::MAX);
    assert_eq!(
        framer.read_header(&header_bytes(u32::MAX, Kind::Stream, 5)),
        (9, Ok(Step::Ready(Header { body_len: u32::MAX, kind: Kind::Stream, id: 5 })))
    );
}

#[test]
fn malformed_header() {
    let mut framer = Framer::new(200);
    let bytes = [0, 0, 0, 1, 0, 0, 0, 0, 1, 0xff];
    assert_eq!(framer.receive(&bytes), (9, Err(FramingError::MalformedHeader)));
    let mut framer = Framer::new(200);
    let bytes = [0xff, 0xff, 0xff, 0xff, 77, 0, 0, 0, 1];
    assert_eq!(framer.receive(&bytes), (9, Err(FramingError::MalformedHeader)));
}

#[test]
fn header_is_read_once() {
    let mut framer = Framer::new(200);
    let bytes = packet(Kind::Request, 1, &[1, 2, 3]).into_bytes().unwrap();
    let header = Header { body_len: 3, kind: Kind::Request, id: 1 };
    assert_eq!(framer.read_header(&bytes), (9, Ok(Step::Ready(header))));
    assert_eq!(framer.header(), Some(header));
    // asked again, it takes nothing and says the same
    assert_eq!(framer.read_header(&bytes[9..]), (0, Ok(Step::Ready(header))));
    assert_eq!(framer.read_body(&bytes[9..10]), (1, Step::Pending));
    assert_eq!(framer.read_header(&bytes[10..]), (0, Ok(Step::Ready(header))));
    assert_eq!(
        framer.read_body(&bytes[10..]),
        (2, Step::Ready(packet(Kind::Request, 1, &[1, 2, 3])))
    );
    assert_eq!(framer.header(), None);
}

#[test]
fn new_limit_holds_for_the_next_header() {
    let mut framer = Framer::new(10);
    assert_eq!(framer.body_limit(), 10);
    let bytes = packet(Kind::Request, 1, &[0; 10]).into_bytes().unwrap();
    assert_eq!(framer.read_header(&bytes[..9]).1.is_ok(), true);
    framer.set_body_limit(5);
    assert_eq!(framer.body_limit(), 5);
    // the header that was accepted stays accepted
    assert_eq!(
        framer.receive(&bytes[9..]),
        (10, Ok(Step::Ready(packet(Kind::Request, 1, &[0; 10]))))
    );
    assert_eq!(framer.receive(&bytes), (9, Err(FramingError::BodyLimitReached)));
}

#[test]
fn stream_receives_and_sends() {
    let mut stream = PacketStream::new(Duration::from_secs(1), 200);
    assert_eq!(stream.timeout(), Duration::from_secs(1));
    assert_eq!(stream.body_limit(), 200);
    let sent = packet(Kind::Request, 1, &[1, 2]);
    let bytes = stream.send(sent.clone()).unwrap();
    assert_eq!(bytes, vec![0, 0, 0, 2, 1, 0, 0, 0, 1, 1, 2]);
    assert_eq!(stream.receive(Read::Data(&bytes[..4])), (4, Ok(Step::Pending)));
    assert_eq!(stream.receive(Read::Data(&bytes[4..])), (7, Ok(Step::Ready(sent))));
}

#[test]
fn stream_errors() {
    let mut stream = PacketStream::new(Duration::from_millis(20), 2);
    // between two packets the end of the stream is a clean shutdown
    assert_eq!(stream.receive(Read::Eof), (0, Err(ReceiveError::Closed)));
    assert_eq!(stream.receive(Read::TimedOut), (0, Err(ReceiveError::Timeout)));
    assert_eq!(stream.receive(Read::Failed), (0, Err(ReceiveError::Io)));
    let bytes = packet(Kind::Request, 1, &[1, 2]).into_bytes().unwrap();
    assert_eq!(stream.receive(Read::Data(&bytes[..3])), (3, Ok(Step::Pending)));
    // a timeout loses nothing of what was read
    assert_eq!(stream.receive(Read::TimedOut), (0, Err(ReceiveError::Timeout)));
    assert_eq!(stream.receive(Read::Failed), (0, Err(ReceiveError::Io)));
    // in the middle of a packet the end of the stream is an error
    assert_eq!(stream.receive(Read::Eof), (0, Err(ReceiveError::UnexpectedEof)));
    assert_eq!(
        stream.receive(Read::Data(&bytes[3..])),
        (8, Ok(Step::Ready(packet(Kind::Request, 1, &[1, 2]))))
    );
    let bytes = packet(Kind::Request, 1, &[1, 2, 3]).into_bytes().unwrap();
    assert_eq!(
        stream.receive(Read::Data(&bytes)),
        (9, Err(ReceiveError::Framing(FramingError::BodyLimitReached)))
    );
    let mut stream = PacketStream::new(Duration::from_millis(20), 2);
    assert_eq!(
        stream.receive(Read::Data(&[0, 0, 0, 0, 0, 0, 0, 0, 0])),
        (9, Err(ReceiveError::Framing(FramingError::MalformedHeader)))
    );
}

#[test]
fn stream_takes_a_new_configuration() {
    let mut stream = PacketStream::new(Duration::from_secs(1), 2);
    let bytes = packet(Kind::Request, 1, &[1, 2, 3]).into_bytes().unwrap();
    stream.configure(Config { timeout: Duration::from_secs(5), body_limit: 3 });
    assert_eq!(stream.timeout(), Duration::from_secs(5));
    assert_eq!(stream.body_limit(), 3);
    assert_eq!(
        stream.receive(Read::Data(&bytes)),
        (12, Ok(Step::Ready(packet(Kind::Request, 1, &[1, 2, 3]))))
    );
}

#[test]
fn body_without_a_header_takes_nothing() {
    let mut framer = Framer::new(200);
    assert_eq!(framer.read_body(&[1, 2, 3]), (0, Step::Pending));
    assert!(framer.is_idle());
    assert_eq!(framer.read_header(&[0, 0]), (2, Ok(Step::Pending)));
    assert_eq!(framer.read_body(&[1, 2, 3]), (0, Step::Pending));
    assert_eq!(framer.missing(), 7);
}
