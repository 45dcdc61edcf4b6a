use fire_stream::handler::client::opening_kind;
use fire_stream::handler::server::{ending_kind, opened_by};
use fire_stream::handler::{client, server};
use fire_stream::handler::{
    Conversation, Conversations, Delivery, Message, ProtocolError, Reaction, SendBack, State,
    StreamError,
};
use fire_stream::packet::{Kind, Packet};

fn nothing() -> Reaction<Packet> {
    Reaction { send_back: SendBack::Nothing, delivery: Delivery::Nothing }
}

fn deliver(delivery: Delivery<Packet>) -> Reaction<Packet> {
    Reaction { send_back: SendBack::Nothing, delivery }
}

#[test]
fn table_of_conversations() {
    let mut table = Conversations::new();
    assert_eq!(table.len(), 0);
    assert_eq!(table.get(1), None);
    table.insert(1, Conversation::AwaitingReply);
    table.insert(2, Conversation::ServerStream);
    assert_eq!(table.len(), 2);
    assert_eq!(table.get(1), Some(Conversation::AwaitingReply));
    assert_eq!(table.get(2), Some(Conversation::ServerStream));
    // an id has one conversation
    table.insert(1, Conversation::ClientStream);
    assert_eq!(table.len(), 2);
    assert_eq!(table.get(1), Some(Conversation::ClientStream));
    assert_eq!(table.remove(1), Some(Conversation::ClientStream));
    assert_eq!(table.remove(1), None);
    assert_eq!(table.len(), 1);
    table.clear();
    assert_eq!(table.len(), 0);
    assert_eq!(table.get(2), None);
}

#[test]
fn free_ids() {
    let mut table = Conversations::new();
    assert_eq!(table.free_id(0), Some(0));
    assert_eq!(table.free_id(17), Some(17));
    assert_eq!(table.free_id(u32::MAX), Some(u32::MAX));
    table.insert(17, Conversation::AwaitingReply);
    table.insert(18, Conversation::AwaitingReply);
    table.insert(20, Conversation::AwaitingReply);
    assert_eq!(table.free_id(17), Some(19));
    assert_eq!(table.free_id(18), Some(19));
    assert_eq!(table.free_id(19), Some(19));
    assert_eq!(table.free_id(20), Some(21));
    // past the largest id the search starts over at zero
    table.insert(u32::MAX, Conversation::AwaitingReply);
    assert_eq!(table.free_id(u32::MAX), Some(0));
    table.insert(0, Conversation::AwaitingReply);
    table.insert(u32::MAX - 1, Conversation::AwaitingReply);
    assert_eq!(table.free_id(u32::MAX - 1), Some(1));
}

#[test]
fn kinds_of_conversations() {
    assert_eq!(opening_kind(Conversation::AwaitingReply), Kind::Request);
    assert_eq!(opening_kind(Conversation::ServerStream), Kind::RequestReceiver);
    assert_eq!(opening_kind(Conversation::ClientStream), Kind::RequestSender);
    assert_eq!(opened_by(Kind::Request), Some(Conversation::AwaitingReply));
    assert_eq!(opened_by(Kind::RequestReceiver), Some(Conversation::ServerStream));
    assert_eq!(opened_by(Kind::RequestSender), Some(Conversation::ClientStream));
    for kind in [Kind::Response, Kind::NoResponse, Kind::Stream, Kind::StreamClosed, Kind::Close] {
        assert_eq!(opened_by(kind), None);
    }
    assert_eq!(ending_kind(Conversation::AwaitingReply), Kind::NoResponse);
    assert_eq!(ending_kind(Conversation::ServerStream), Kind::StreamClosed);
    assert_eq!(ending_kind(Conversation::ClientStream), Kind::StreamClosed);
}

#[test]
fn client_opens_and_takes_the_reply() {
    let mut handler = client::Handler::new();
    assert_eq!(handler.state(), State::Running);
    let packet = handler.open(Conversation::AwaitingReply, vec![1, 2]).unwrap();
    assert_eq!(packet, Packet::new(Kind::Request, 0, vec![1, 2]));
    assert_eq!(handler.conversation(0), Some(Conversation::AwaitingReply));
    let reply = Packet::new(Kind::Response, 0, vec![3, 4]);
    assert_eq!(handler.on_packet(reply.clone()), deliver(Delivery::Reply(reply.clone())));
    assert_eq!(handler.pending(), 0);
    // the reply was taken once
    assert_eq!(
        handler.on_packet(reply),
        deliver(Delivery::Rejected(ProtocolError::UnexpectedId))
    );
    assert_eq!(handler.request(vec![]).unwrap(), Packet::new(Kind::Request, 1, vec![]));
    assert_eq!(
        handler.request_receiver(vec![5]).unwrap(),
        Packet::new(Kind::RequestReceiver, 2, vec![5])
    );
    assert_eq!(
        handler.request_sender(vec![6]).unwrap(),
        Packet::new(Kind::RequestSender, 3, vec![6])
    );
    assert_eq!(handler.stream_send(3, vec![7]), Ok(Packet::new(Kind::Stream, 3, vec![7])));
    assert_eq!(handler.stream_send(2, vec![7]), Err(StreamError::StreamAlreadyClosed));
    assert_eq!(handler.end(1), None);
    assert_eq!(handler.end(2), Some(Packet::bare(Kind::StreamClosed, 2)));
    assert_eq!(handler.end(3), Some(Packet::bare(Kind::StreamClosed, 3)));
    assert_eq!(handler.end(3), None);
}

#[test]
fn client_close_directives() {
    // the peer closes first: answer and end
    let mut handler = client::Handler::new();
    let _ = handler.request(vec![]).unwrap();
    assert_eq!(
        handler.on_packet(Packet::close()),
        Reaction { send_back: SendBack::CloseWithPacket, delivery: Delivery::Nothing }
    );
    assert_eq!(handler.state(), State::Terminated);
    assert_eq!(handler.pending(), 0);
    // after the end nothing is taken
    assert_eq!(handler.on_packet(Packet::close()), nothing());
    assert_eq!(handler.on_packet(Packet::new(Kind::Response, 0, vec![])), nothing());
    assert_eq!(handler.close(), None);
    assert_eq!(handler.request(vec![]), Err(StreamError::ConnectionClosed));

    // this side closes first: the answer of the peer ends
    let mut handler = client::Handler::new();
    assert_eq!(handler.close(), Some(Packet::close()));
    assert_eq!(handler.state(), State::Closing);
    assert_eq!(handler.close(), None);
    assert_eq!(handler.state(), State::Closing);
    assert_eq!(
        handler.on_packet(Packet::close()),
        Reaction { send_back: SendBack::Close, delivery: Delivery::Nothing }
    );
    assert_eq!(handler.state(), State::Terminated);

    let mut handler = client::Handler::new();
    let _ = handler.request(vec![]).unwrap();
    handler.terminate();
    assert_eq!(handler.state(), State::Terminated);
    assert_eq!(handler.pending(), 0);
}

#[test]
fn server_takes_openings_and_answers() {
    let mut handler = server::Handler::new();
    assert_eq!(handler.state(), State::Running);
    let request = Packet::new(Kind::Request, 7, vec![1]);
    assert_eq!(
        handler.on_packet(request.clone()),
        deliver(Delivery::Message(Message::Request(request.clone())))
    );
    assert_eq!(handler.conversation(7), Some(Conversation::AwaitingReply));
    assert_eq!(
        handler.on_packet(request),
        deliver(Delivery::Rejected(ProtocolError::UnexpectedKind))
    );
    let down = Packet::new(Kind::RequestReceiver, 8, vec![2]);
    assert_eq!(
        handler.on_packet(down.clone()),
        deliver(Delivery::Message(Message::RequestReceiver(down)))
    );
    let up = Packet::new(Kind::RequestSender, 9, vec![3]);
    assert_eq!(
        handler.on_packet(up.clone()),
        deliver(Delivery::Message(Message::RequestSender(up)))
    );
    assert_eq!(handler.pending(), 3);
    let item = Packet::new(Kind::Stream, 9, vec![4]);
    assert_eq!(handler.on_packet(item.clone()), deliver(Delivery::Item(item)));
    assert_eq!(
        handler.on_packet(Packet::new(Kind::Stream, 8, vec![4])),
        deliver(Delivery::Rejected(ProtocolError::UnexpectedKind))
    );
    assert_eq!(
        handler.on_packet(Packet::bare(Kind::StreamClosed, 9)),
        deliver(Delivery::End(9))
    );
    assert_eq!(
        handler.on_packet(Packet::bare(Kind::StreamClosed, 8)),
        deliver(Delivery::End(8))
    );
    assert_eq!(handler.respond(7, vec![5]), Ok(Packet::new(Kind::Response, 7, vec![5])));
    assert_eq!(handler.respond(7, vec![5]), Err(StreamError::StreamAlreadyClosed));
    assert_eq!(handler.pending(), 0);
}

#[test]
fn server_close_directives() {
    let mut handler = server::Handler::new();
    assert_eq!(
        handler.on_packet(Packet::close()),
        Reaction { send_back: SendBack::CloseWithPacket, delivery: Delivery::Nothing }
    );
    assert_eq!(handler.state(), State::Terminated);
    assert_eq!(handler.on_packet(Packet::new(Kind::Request, 1, vec![])), nothing());
    assert_eq!(handler.close(), None);

    let mut handler = server::Handler::new();
    assert_eq!(handler.close(), Some(Packet::close()));
    assert_eq!(handler.close(), None);
    assert_eq!(
        handler.on_packet(Packet::new(Kind::Request, 1, vec![1])),
        Reaction {
            send_back: SendBack::Packet(Packet::bare(Kind::NoResponse, 1)),
            delivery: Delivery::Nothing
        }
    );
    assert_eq!(
        handler.on_packet(Packet::new(Kind::RequestSender, 2, vec![1])),
        Reaction {
            send_back: SendBack::Packet(Packet::bare(Kind::StreamClosed, 2)),
            delivery: Delivery::Nothing
        }
    );
    assert_eq!(handler.pending(), 0);
    assert_eq!(
        handler.on_packet(Packet::close()),
        Reaction { send_back: SendBack::Close, delivery: Delivery::Nothing }
    );
    assert_eq!(handler.state(), State::Terminated);

    let mut handler = server::Handler::new();
    let _ = handler.on_packet(Packet::new(Kind::Request, 1, vec![1]));
    assert_eq!(handler.end(1), Some(Packet::bare(Kind::NoResponse, 1)));
    assert_eq!(handler.end(1), None);
    let _ = handler.on_packet(Packet::new(Kind::RequestReceiver, 2, vec![1]));
    assert_eq!(handler.stream_send(2, vec![3]), Ok(Packet::new(Kind::Stream, 2, vec![3])));
    handler.terminate();
    assert_eq!(handler.stream_send(2, vec![3]), Err(StreamError::StreamAlreadyClosed));
}
