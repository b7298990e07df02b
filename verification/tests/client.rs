use orb_relay_client::client::{
    awaits_ack, connect_request, reply_ack_message, reply_payload, uses_tls,
};
use orb_relay_client::messages::{
    Any, AuthMethod, ConnectRequest, Heartbeat, RelayConnectRequest, RelayPayload, RelayRequestMsg,
};
use orb_relay_client::{Amount, ClientOpts, Entity, EntityType, QoS, SendMessage};
use std::time::Duration;

fn opts(endpoint: &str) -> ClientOpts {
    ClientOpts {
        entity_type: EntityType::App,
        client_id: "boo".to_string(),
        namespace: "bar".to_string(),
        endpoint: endpoint.to_string(),
        connection_timeout: Duration::from_secs(20),
        connection_backoff: Duration::from_secs(20),
        max_connection_attempts: Amount::Infinite,
        ack_timeout: Duration::from_secs(20),
        reply_timeout: Duration::from_secs(20),
        heartbeat: Duration::from_secs(30),
        max_message_attempts: Amount::Infinite,
    }
}

#[test]
fn reply_goes_back_to_sender_under_its_seq() {
    let o = opts("https://relay");
    let from = Entity { id: "foo".to_string(), entity_type: 1, namespace: "bar".to_string() };
    let p = reply_payload(&o, &from, 42, &b"whats up??".to_vec());
    assert_eq!(
        p,
        RelayPayload {
            src: Some(Entity { id: "boo".to_string(), entity_type: 1, namespace: "bar".to_string() }),
            dst: Some(from.clone()),
            seq: 42,
            payload: Some(Any { type_url: String::new(), value: b"whats up??".to_vec() }),
        }
    );
}

#[test]
fn reply_ack_message_targets_the_sender() {
    let from = Entity { id: "foo".to_string(), entity_type: 2, namespace: "bar".to_string() };
    let m = reply_ack_message(&from, vec![1, 2, 3], QoS::AtLeastOnce).unwrap();
    assert_eq!(m.target_type, EntityType::Service);
    assert_eq!(m.target_id, "foo");
    assert_eq!(m.target_namespace, "bar");
    assert_eq!(m.data, vec![1, 2, 3]);
    assert_eq!(m.qos, QoS::AtLeastOnce);
}

#[test]
fn reply_ack_message_rejects_unknown_entity_type() {
    let from = Entity { id: "foo".to_string(), entity_type: 17, namespace: "bar".to_string() };
    assert!(reply_ack_message(&from, vec![], QoS::AtLeastOnce).is_none());
    let from = Entity { id: "foo".to_string(), entity_type: -1, namespace: "bar".to_string() };
    assert!(reply_ack_message(&from, vec![], QoS::AtLeastOnce).is_none());
}

#[test]
fn connect_request_names_the_client_and_its_token() {
    let o = opts("https://relay");
    assert_eq!(
        connect_request(&o, "token123".to_string()),
        RelayConnectRequest {
            msg: Some(RelayRequestMsg::ConnectRequest(ConnectRequest {
                client_id: Some(Entity { id: "boo".to_string(), entity_type: 1, namespace: "bar".to_string() }),
                auth_method: Some(AuthMethod::Token("token123".to_string())),
            })),
        }
    );
}

#[test]
fn tls_is_used_only_for_https_endpoints() {
    assert!(uses_tls(&"https://relay.example:443".to_string()));
    assert!(uses_tls(&"https://".to_string()));
    assert!(!uses_tls(&"http://127.0.0.1:1".to_string()));
    assert!(!uses_tls(&"https:/".to_string()));
    assert!(!uses_tls(&"HTTPS://relay".to_string()));
    assert!(!uses_tls(&"".to_string()));
    assert!(!uses_tls(&"ftp://https://".to_string()));
}

#[test]
fn only_at_least_once_awaits_ack() {
    assert!(awaits_ack(QoS::AtLeastOnce));
    assert!(!awaits_ack(QoS::AtMostOnce));
}

#[test]
fn message_builder_sets_every_part() {
    let m = SendMessage::to(EntityType::Orb)
        .id("device_123".to_string())
        .namespace("default".to_string())
        .qos(QoS::AtLeastOnce)
        .payload(b"hello".to_vec());
    assert_eq!(
        m,
        SendMessage::new(
            EntityType::Orb,
            "device_123".to_string(),
            "default".to_string(),
            QoS::AtLeastOnce,
            b"hello".to_vec()
        )
    );
    let d = SendMessage::to(EntityType::App).payload(vec![]);
    assert_eq!(d.qos, QoS::AtMostOnce);
}

#[test]
fn relay_connect_request_wraps_each_message_kind() {
    let h: RelayConnectRequest = Heartbeat { seq: 0 }.into();
    assert_eq!(h.msg, Some(RelayRequestMsg::Heartbeat(Heartbeat { seq: 0 })));
    let p = RelayPayload { src: None, dst: None, seq: 9, payload: None };
    let r: RelayConnectRequest = p.clone().into();
    assert_eq!(r.msg, Some(RelayRequestMsg::Payload(p)));
    let c = ConnectRequest { client_id: None, auth_method: None };
    let r: RelayConnectRequest = c.clone().into();
    assert_eq!(r.msg, Some(RelayRequestMsg::ConnectRequest(c)));
}

#[test]
fn entity_type_numbers_round_trip() {
    for t in [EntityType::Orb, EntityType::App, EntityType::Service] {
        assert_eq!(EntityType::try_from_i32(t.as_i32()), Some(t));
    }
    assert_eq!(EntityType::try_from_i32(3), None);
}
