use bishop::client::{check_reply, probe_message, ClientError};
use bishop::codec::{Codec, Error, Message};
use bishop::daemon::{Action, Dispatcher, Envelope};
use bytes::{BufMut, BytesMut};

fn ok(conn: u64, message: Message) -> Envelope {
    Envelope { conn, result: Ok(message) }
}

#[test]
fn probe_gets_acknowledgment_on_its_connection() {
    let mut d = Dispatcher::new();
    d.open(3);
    match d.process_message(ok(3, Message::Ping)) {
        Action::Reply { conn: 3, message: Message::Pong } => {}
        other => panic!("unexpected: {:?}", other),
    }
}

#[test]
fn acknowledgment_is_unexpected() {
    let mut d = Dispatcher::new();
    d.open(1);
    match d.process_message(ok(1, Message::Pong)) {
        Action::ReportUnexpected { conn: 1, message: Message::Pong } => {}
        other => panic!("unexpected: {:?}", other),
    }
}

#[test]
fn reply_to_closed_connection_is_reported() {
    let mut d = Dispatcher::new();
    d.open(4);
    d.close(4);
    assert!(!d.is_open(4));
    match d.process_message(ok(4, Message::Ping)) {
        Action::ReportClosed { conn: 4, message: Message::Pong } => {}
        other => panic!("unexpected: {:?}", other),
    }
}

#[test]
fn per_connection_order_is_kept() {
    let mut d = Dispatcher::new();
    d.open(1);
    d.open(2);
    let queue = vec![ok(1, Message::Ping), ok(2, Message::Pong), ok(1, Message::Pong)];
    let actions: Vec<Action> = queue.into_iter().map(|e| d.process_message(e)).collect();
    assert!(matches!(actions[0], Action::Reply { conn: 1, message: Message::Pong }));
    assert!(matches!(actions[1], Action::ReportUnexpected { conn: 2, .. }));
    assert!(matches!(actions[2], Action::ReportUnexpected { conn: 1, message: Message::Pong }));
}

#[test]
fn malformed_frame_on_one_connection_leaves_another_alone() {
    let mut d = Dispatcher::new();
    d.open(1);
    d.open(2);
    let mut bad = BytesMut::new();
    bad.put_slice(&[0, 0, 0, 4, 9, 0, 0, 0]);
    let mut good = BytesMut::new();
    Codec.encode(Message::Ping, &mut good).unwrap();
    let bad_result = Codec.decode(&mut bad).unwrap_err();
    let good_result = Codec.decode(&mut good).unwrap().unwrap();
    let a = d.process_message(Envelope { conn: 1, result: Err(bad_result) });
    assert!(matches!(a, Action::ReportFramingError { conn: 1, error: Error::UnknownVariant(9) }));
    let b = d.process_message(ok(2, good_result));
    assert!(matches!(b, Action::Reply { conn: 2, message: Message::Pong }));
}

#[test]
fn probe_exchange_succeeds_end_to_end() {
    let mut client_out = BytesMut::new();
    Codec.encode(probe_message(), &mut client_out).unwrap();
    let mut d = Dispatcher::new();
    d.open(8);
    let request = Codec.decode(&mut client_out).unwrap().unwrap();
    let reply = match d.process_message(ok(8, request)) {
        Action::Reply { conn: 8, message } => message,
        other => panic!("unexpected: {:?}", other),
    };
    let mut server_out = BytesMut::new();
    Codec.encode(reply, &mut server_out).unwrap();
    let got = Codec.decode(&mut server_out).transpose();
    assert!(check_reply(got).is_ok());
    assert_eq!(Codec.decode(&mut server_out).unwrap(), None);
}

#[test]
fn acknowledgment_first_is_reported_not_answered() {
    let mut client_out = BytesMut::new();
    Codec.encode(Message::Pong, &mut client_out).unwrap();
    let mut d = Dispatcher::new();
    d.open(5);
    let request = Codec.decode(&mut client_out).unwrap().unwrap();
    assert!(matches!(
        d.process_message(ok(5, request)),
        Action::ReportUnexpected { conn: 5, message: Message::Pong }
    ));
}

#[test]
fn silent_connection_yields_nothing() {
    let mut buf = BytesMut::new();
    assert!(matches!(Codec.decode(&mut buf), Ok(None)));
    assert!(matches!(check_reply(None), Err(ClientError::UnexpectedEof)));
}

#[test]
fn client_outcomes_are_told_apart() {
    assert!(check_reply(Some(Ok(Message::Pong))).is_ok());
    assert!(matches!(
        check_reply(Some(Ok(Message::Ping))),
        Err(ClientError::UnexpectedMessage(Message::Ping))
    ));
    assert!(matches!(
        check_reply(Some(Err(Error::UnknownVariant(3)))),
        Err(ClientError::Codec(Error::UnknownVariant(3)))
    ));
    assert!(matches!(check_reply(None), Err(ClientError::UnexpectedEof)));
}
