use orb_relay_client::actor::{
    incoming, on_handshake, Action, Handshake, Incoming, Msg, Reconnection, SessionEnd, State, Step,
};
use orb_relay_client::client::{outgoing_request, relay_payload};
use orb_relay_client::messages::{
    Ack, Any, ConnectResponse, Heartbeat, RelayConnectRequest, RelayConnectResponse, RelayPayload,
    RelayRequestMsg, RelayResponseMsg,
};
use orb_relay_client::{Amount, ClientOpts, Entity, EntityType, QoS, SendMessage};
use std::time::Duration;

fn opts(max_message_attempts: Amount) -> ClientOpts {
    ClientOpts {
        entity_type: EntityType::App,
        client_id: "foo".to_string(),
        namespace: "bar".to_string(),
        endpoint: "http://127.0.0.1:1".to_string(),
        connection_timeout: Duration::from_millis(10),
        connection_backoff: Duration::from_millis(50),
        max_connection_attempts: Amount::Val(3),
        ack_timeout: Duration::from_millis(10),
        reply_timeout: Duration::from_millis(20),
        heartbeat: Duration::from_millis(30),
        max_message_attempts,
    }
}

fn message(qos: QoS, payload: &[u8]) -> SendMessage {
    SendMessage::to(EntityType::Orb)
        .id("thomas".to_string())
        .namespace("anderson".to_string())
        .qos(qos)
        .payload(payload.to_vec())
}

fn expected_payload(seq: u64, payload: &[u8]) -> RelayPayload {
    RelayPayload {
        src: Some(Entity { id: "foo".to_string(), entity_type: 1, namespace: "bar".to_string() }),
        dst: Some(Entity {
            id: "thomas".to_string(),
            entity_type: 0,
            namespace: "anderson".to_string(),
        }),
        seq,
        payload: Some(Any { type_url: String::new(), value: payload.to_vec() }),
    }
}

fn actions(step: Step<u32, u32>) -> Vec<Action<u32, u32>> {
    match step {
        Step::Continue(v) => v,
        Step::Stop => panic!("unexpected stop"),
    }
}

fn payload_from(id: &str, seq: u64, data: &[u8]) -> RelayResponseMsg {
    RelayResponseMsg::Payload(RelayPayload {
        src: Some(Entity { id: id.to_string(), entity_type: 0, namespace: "yellow".to_string() }),
        dst: Some(Entity { id: "foo".to_string(), entity_type: 1, namespace: "bar".to_string() }),
        seq,
        payload: Some(Any { type_url: String::new(), value: data.to_vec() }),
    })
}

#[test]
fn relay_payload_carries_sender_target_and_seq() {
    let o = opts(Amount::Infinite);
    assert_eq!(relay_payload(&o, &message(QoS::AtMostOnce, b"woah"), 0), expected_payload(0, b"woah"));
    assert_eq!(
        relay_payload(&o, &message(QoS::AtMostOnce, b"i know kung-fu"), 1),
        expected_payload(1, b"i know kung-fu")
    );
    assert_eq!(
        outgoing_request(&o, &message(QoS::AtMostOnce, b"woah"), 0),
        RelayConnectRequest { msg: Some(RelayRequestMsg::Payload(expected_payload(0, b"woah"))) }
    );
}

#[test]
fn send_request_is_transmitted_unchanged() {
    let o = opts(Amount::Infinite);
    let mut s: State<u32, u32> = State::new();
    let req = outgoing_request(&o, &message(QoS::AtMostOnce, b"woah"), 4);
    let acts = actions(s.handle_msg(&o, Msg::Send(req.clone())));
    assert_eq!(acts.len(), 1);
    assert!(matches!(&acts[0], Action::Transmit(r) if *r == req));
}

#[test]
fn at_least_once_send_is_retried_until_ack() {
    let o = opts(Amount::Infinite);
    let mut s: State<u32, u32> = State::new();
    let msg = message(QoS::AtLeastOnce, b"woah");

    let acts = actions(s.handle_msg(&o, Msg::WaitForAck { original_msg: msg, ack_tx: 7, seq: 0 }));
    assert_eq!(acts.len(), 1);
    match &acts[0] {
        Action::Schedule { delay, msg: Msg::RetryAck { seq: 0, retries_left: Amount::Infinite } } => {
            assert_eq!(*delay, Duration::from_millis(10))
        }
        _ => panic!("expected a retry timer"),
    }

    // two overdue acks: the same payload goes out again each time
    for _ in 0..2 {
        let acts = actions(s.handle_msg(&o, Msg::RetryAck { seq: 0, retries_left: Amount::Infinite }));
        assert_eq!(acts.len(), 2);
        assert!(matches!(&acts[0], Action::Transmit(RelayConnectRequest { msg: Some(RelayRequestMsg::Payload(p)) }) if *p == expected_payload(0, b"woah")));
        assert!(matches!(&acts[1], Action::Schedule { msg: Msg::RetryAck { seq: 0, retries_left: Amount::Infinite }, .. }));
    }

    // the ack releases the sender
    let acts = actions(s.handle_msg(&o, Msg::RelayResponse(RelayResponseMsg::Ack(Ack { seq: 0 }))));
    assert_eq!(acts.len(), 1);
    assert!(matches!(acts[0], Action::Acknowledge(7)));

    // no resend after the ack, and a second ack finds nothing
    let acts = actions(s.handle_msg(&o, Msg::RetryAck { seq: 0, retries_left: Amount::Infinite }));
    assert!(acts.is_empty());
    let acts = actions(s.handle_msg(&o, Msg::RelayResponse(RelayResponseMsg::Ack(Ack { seq: 0 }))));
    assert!(acts.is_empty());
}

#[test]
fn retries_are_bounded_by_max_message_attempts() {
    let o = opts(Amount::Val(2));
    let mut s: State<u32, u32> = State::new();
    actions(s.handle_msg(&o, Msg::WaitForAck { original_msg: message(QoS::AtLeastOnce, b"x"), ack_tx: 1, seq: 5 }));

    let mut budget = Amount::Val(2);
    let mut resends = 0;
    loop {
        let acts = actions(s.handle_msg(&o, Msg::RetryAck { seq: 5, retries_left: budget }));
        match acts.as_slice() {
            [Action::Transmit(_), Action::Schedule { msg: Msg::RetryAck { seq: 5, retries_left }, .. }] => {
                resends += 1;
                budget = *retries_left;
            }
            [Action::GiveUp { seq: 5 }] => break,
            _ => panic!("unexpected actions"),
        }
    }
    assert_eq!(resends, 2);
}

#[test]
fn ask_reply_goes_to_the_asker_once() {
    let o = opts(Amount::Infinite);
    let mut s: State<u32, u32> = State::new();
    let msg = SendMessage::to(EntityType::Orb)
        .id("banana".to_string())
        .namespace("yellow".to_string())
        .payload(b"ping".to_vec());

    let acts = actions(s.handle_msg(&o, Msg::WaitForReply { original_msg: msg, recv_msg_tx: 9, seq: 0 }));
    assert_eq!(acts.len(), 1);
    match &acts[0] {
        Action::Schedule { delay, msg: Msg::RetryAsk { from_client, seq: 0, retries_left: Amount::Val(0) } } => {
            assert_eq!(from_client, "banana");
            assert_eq!(*delay, Duration::from_millis(20));
        }
        _ => panic!("expected a retry timer without budget"),
    }

    // a payload from someone else under the same number goes to the client
    let acts = actions(s.handle_msg(&o, Msg::RelayResponse(payload_from("cherry", 0, b"hi"))));
    assert!(matches!(&acts[0], Action::Deliver(m) if m.from.id == "cherry" && m.payload == b"hi".to_vec()));

    // the reply goes to the asker
    let acts = actions(s.handle_msg(&o, Msg::RelayResponse(payload_from("banana", 0, b"pong"))));
    assert_eq!(acts.len(), 1);
    match &acts[0] {
        Action::Reply { to: 9, msg } => {
            assert_eq!(msg.payload, b"pong".to_vec());
            assert_eq!(msg.seq, 0);
            assert_eq!(msg.from.id, "banana");
        }
        _ => panic!("expected the reply to reach the asker"),
    }

    // a second one is no longer awaited
    let acts = actions(s.handle_msg(&o, Msg::RelayResponse(payload_from("banana", 0, b"pong"))));
    assert!(matches!(&acts[0], Action::Deliver(_)));

    // and the retry timer finds nothing to do
    let acts = actions(s.handle_msg(&o, Msg::RetryAsk { from_client: "banana".to_string(), seq: 0, retries_left: Amount::Val(0) }));
    assert!(acts.is_empty());
}

#[test]
fn at_most_once_ask_is_not_repeated() {
    let o = opts(Amount::Infinite);
    let mut s: State<u32, u32> = State::new();
    let msg = SendMessage::to(EntityType::Orb)
        .id("banana".to_string())
        .namespace("yellow".to_string())
        .payload(b"ping".to_vec());
    actions(s.handle_msg(&o, Msg::WaitForReply { original_msg: msg, recv_msg_tx: 9, seq: 3 }));
    let acts = actions(s.handle_msg(&o, Msg::RetryAsk { from_client: "banana".to_string(), seq: 3, retries_left: Amount::Val(0) }));
    assert_eq!(acts.len(), 1);
    assert!(matches!(acts[0], Action::GiveUp { seq: 3 }));
}

#[test]
fn at_least_once_ask_is_repeated() {
    let o = opts(Amount::Infinite);
    let mut s: State<u32, u32> = State::new();
    let msg = SendMessage::to(EntityType::Orb)
        .id("blueberry".to_string())
        .namespace("purple".to_string())
        .qos(QoS::AtLeastOnce)
        .payload(b"ping".to_vec());
    let acts = actions(s.handle_msg(&o, Msg::WaitForReply { original_msg: msg, recv_msg_tx: 2, seq: 0 }));
    assert!(matches!(&acts[0], Action::Schedule { msg: Msg::RetryAsk { retries_left: Amount::Infinite, .. }, .. }));
    let acts = actions(s.handle_msg(&o, Msg::RetryAsk { from_client: "blueberry".to_string(), seq: 0, retries_left: Amount::Infinite }));
    assert_eq!(acts.len(), 2);
    match &acts[0] {
        Action::Transmit(RelayConnectRequest { msg: Some(RelayRequestMsg::Payload(p)) }) => {
            assert_eq!(p.seq, 0);
            assert_eq!(p.dst.as_ref().unwrap().id, "blueberry");
            assert_eq!(p.payload.as_ref().unwrap().value, b"ping".to_vec());
        }
        _ => panic!("expected a resend"),
    }
}

#[test]
fn repeated_wait_for_reply_replaces_the_waiter() {
    let o = opts(Amount::Infinite);
    let mut s: State<u32, u32> = State::new();
    let msg = SendMessage::to(EntityType::Orb).id("banana".to_string()).payload(b"ping".to_vec());
    actions(s.handle_msg(&o, Msg::WaitForReply { original_msg: msg.clone(), recv_msg_tx: 1, seq: 0 }));
    actions(s.handle_msg(&o, Msg::WaitForReply { original_msg: msg, recv_msg_tx: 2, seq: 0 }));
    let acts = actions(s.handle_msg(&o, Msg::RelayResponse(payload_from("banana", 0, b"pong"))));
    assert!(matches!(acts[0], Action::Reply { to: 2, .. }));
    let acts = actions(s.handle_msg(&o, Msg::RelayResponse(payload_from("banana", 0, b"pong"))));
    assert!(matches!(acts[0], Action::Deliver(_)));
}

#[test]
fn payload_without_sender_or_contents_is_ignored() {
    let o = opts(Amount::Infinite);
    let mut s: State<u32, u32> = State::new();
    let p = RelayPayload { src: None, dst: None, seq: 0, payload: Some(Any { type_url: String::new(), value: vec![1] }) };
    let acts = actions(s.handle_msg(&o, Msg::RelayResponse(RelayResponseMsg::Payload(p))));
    assert!(matches!(acts[0], Action::Ignore(_)));
    let c = ConnectResponse { client_id: "foo".to_string(), success: true, error: String::new() };
    let acts = actions(s.handle_msg(&o, Msg::RelayResponse(RelayResponseMsg::ConnectResponse(c))));
    assert!(matches!(acts[0], Action::Ignore(_)));
}

#[test]
fn heartbeat_is_sent_and_rearmed() {
    let o = opts(Amount::Infinite);
    let mut s: State<u32, u32> = State::new();
    let acts = actions(s.handle_msg(&o, Msg::Heartbeat));
    assert_eq!(acts.len(), 2);
    assert!(matches!(&acts[0], Action::Transmit(r) if *r == RelayConnectRequest { msg: Some(RelayRequestMsg::Heartbeat(Heartbeat { seq: 0 })) }));
    assert!(matches!(&acts[1], Action::Schedule { delay, msg: Msg::Heartbeat } if *delay == Duration::from_millis(30)));
}

#[test]
fn heartbeat_timer_starts_once() {
    let o = opts(Amount::Infinite);
    let mut s: State<u32, u32> = State::new();
    assert!(matches!(s.on_connected(&o), Some(Action::Schedule { msg: Msg::Heartbeat, .. })));
    assert!(s.on_connected(&o).is_none());
    assert!(s.on_connected(&o).is_none());
}

#[test]
fn stop_request_ends_the_actor() {
    let o = opts(Amount::Infinite);
    let mut s: State<u32, u32> = State::new();
    assert!(matches!(s.handle_msg(&o, Msg::Stop), Step::Stop));
}

#[test]
fn stream_items_are_classified() {
    assert!(matches!(incoming(None), Incoming::StreamEnded));
    assert!(matches!(incoming(Some(RelayConnectResponse { msg: None })), Incoming::Nothing));
    let r = RelayResponseMsg::Ack(Ack { seq: 3 });
    assert!(matches!(incoming(Some(RelayConnectResponse { msg: Some(r.clone()) })), Incoming::Message(m) if m == r));
}

#[test]
fn handshake_messages_are_classified() {
    let ok = ConnectResponse { client_id: "foo".to_string(), success: true, error: "nothing".to_string() };
    let bad = ConnectResponse { client_id: "foo".to_string(), success: false, error: "nothing".to_string() };
    assert!(matches!(on_handshake(Some(RelayResponseMsg::ConnectResponse(ok))), Handshake::Established));
    assert!(matches!(on_handshake(Some(RelayResponseMsg::ConnectResponse(bad))), Handshake::Rejected));
    assert!(matches!(on_handshake(Some(RelayResponseMsg::Ack(Ack { seq: 1 }))), Handshake::Forward(RelayResponseMsg::Ack(Ack { seq: 1 }))));
    assert!(matches!(on_handshake(None), Handshake::Nothing));
}

#[test]
fn connection_attempts_stop_at_the_limit() {
    let o = opts(Amount::Infinite); // max_connection_attempts is Val(3)
    let mut r = Reconnection::new();
    let mut tried = 0;
    loop {
        r.begin_attempt();
        tried += 1;
        match r.after_failure(&o, false) {
            SessionEnd::RetryAfter(d) => assert_eq!(d, Duration::from_millis(50)),
            SessionEnd::GiveUp => break,
            SessionEnd::Stop => panic!("no stop was asked"),
        }
    }
    assert_eq!(tried, 3);
}

#[test]
fn connection_attempts_without_limit_never_give_up() {
    let mut o = opts(Amount::Infinite);
    o.max_connection_attempts = Amount::Infinite;
    let mut r = Reconnection::new();
    for _ in 0..1000 {
        r.begin_attempt();
        assert!(matches!(r.after_failure(&o, false), SessionEnd::RetryAfter(_)));
    }
    assert!(matches!(r.after_failure(&o, true), SessionEnd::Stop));
}

#[test]
fn zero_connection_attempts_give_up_after_the_first() {
    let mut o = opts(Amount::Infinite);
    o.max_connection_attempts = Amount::Val(0);
    let mut r = Reconnection::new();
    r.begin_attempt();
    assert!(matches!(r.after_failure(&o, false), SessionEnd::GiveUp));
}
