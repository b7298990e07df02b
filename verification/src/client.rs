//! What a client sends: its options, its outgoing messages, and the relay
//! messages built from them.

use std::time::Duration;
use vstd::prelude::*;

use crate::amount::Amount;
use crate::messages::{
    entity_type_of, Any, AnyView, AuthMethod, AuthMethodView, ConnectRequest, ConnectRequestView,
    Entity, EntityType, EntityView, RelayConnectRequest, RelayConnectRequestView, RelayPayload,
    RelayPayloadView, RelayRequestMsgView,
};

verus! {

/// Delivery guarantee of a message.
///
/// - `AtMostOnce`: one attempt, without confirmation.
/// - `AtLeastOnce`: the relay's acknowledgement is awaited and the message is
///   sent again, within the client's `max_message_attempts`, until it comes.
#[derive(Debug, Copy, Clone, PartialEq, Eq, Structural)]
pub enum QoS {
    AtMostOnce,
    AtLeastOnce,
}

/// A message to another client through the relay.
#[derive(Debug, Clone, PartialEq, Eq)]
pub struct SendMessage {
    pub target_type: EntityType,
    pub data: Vec<u8>,
    pub target_id: String,
    pub target_namespace: String,
    pub qos: QoS,
}

pub struct SendMessageView {
    pub target_type: EntityType,
    pub data: Seq<u8>,
    pub target_id: Seq<char>,
    pub target_namespace: Seq<char>,
    pub qos: QoS,
}

impl View for SendMessage {
    type V = SendMessageView;

    open spec fn view(&self) -> SendMessageView {
        SendMessageView {
            target_type: self.target_type,
            data: self.data@,
            target_id: self.target_id@,
            target_namespace: self.target_namespace@,
            qos: self.qos,
        }
    }
}

impl SendMessage {
    /// A message with all its parts given.
    pub fn new(
        target_type: EntityType,
        target_id: String,
        target_namespace: String,
        qos: QoS,
        data: Vec<u8>,
    ) -> (r: SendMessage)
        ensures
            r@ == (SendMessageView {
                target_type,
                data: data@,
                target_id: target_id@,
                target_namespace: target_namespace@,
                qos,
            }),
    {
        SendMessage { target_type, data, target_id, target_namespace, qos }
    }

    /// A message to `target_type` that is sent at most once; see the setters.
    pub fn to(target_type: EntityType) -> (r: SendMessage)
        ensures
            r@ == (SendMessageView {
                target_type,
                data: Seq::empty(),
                target_id: Seq::empty(),
                target_namespace: Seq::empty(),
                qos: QoS::AtMostOnce,
            }),
    {
        SendMessage {
            target_type,
            data: Vec::new(),
            target_id: String::new(),
            target_namespace: String::new(),
            qos: QoS::AtMostOnce,
        }
    }

    /// The same message to the target with id `id`.
    pub fn id(self, id: String) -> (r: SendMessage)
        ensures
            r@ == (SendMessageView { target_id: id@, ..self@ }),
    {
        SendMessage { target_id: id, ..self }
    }

    /// The same message to a target in namespace `namespace`.
    pub fn namespace(self, namespace: String) -> (r: SendMessage)
        ensures
            r@ == (SendMessageView { target_namespace: namespace@, ..self@ }),
    {
        SendMessage { target_namespace: namespace, ..self }
    }

    /// The same message with delivery guarantee `qos`.
    pub fn qos(self, qos: QoS) -> (r: SendMessage)
        ensures
            r@ == (SendMessageView { qos, ..self@ }),
    {
        SendMessage { qos, ..self }
    }

    /// The same message carrying `data`.
    pub fn payload(self, data: Vec<u8>) -> (r: SendMessage)
        ensures
            r@ == (SendMessageView { data: data@, ..self@ }),
    {
        SendMessage { data, ..self }
    }
}

/// Options of a client: who it is, where the relay is, and its timing and
/// retry limits. The credentials are handed over when it connects.
#[derive(Debug)]
pub struct ClientOpts {
    pub entity_type: EntityType,
    pub client_id: String,
    pub namespace: String,
    pub endpoint: String,
    pub connection_timeout: Duration,
    pub connection_backoff: Duration,
    pub max_connection_attempts: Amount,
    pub ack_timeout: Duration,
    pub reply_timeout: Duration,
    pub heartbeat: Duration,
    pub max_message_attempts: Amount,
}

pub struct ClientOptsView {
    pub entity_type: EntityType,
    pub client_id: Seq<char>,
    pub namespace: Seq<char>,
    pub endpoint: Seq<char>,
    pub connection_timeout: Duration,
    pub connection_backoff: Duration,
    pub max_connection_attempts: Amount,
    pub ack_timeout: Duration,
    pub reply_timeout: Duration,
    pub heartbeat: Duration,
    pub max_message_attempts: Amount,
}

impl View for ClientOpts {
    type V = ClientOptsView;

    open spec fn view(&self) -> ClientOptsView {
        ClientOptsView {
            entity_type: self.entity_type,
            client_id: self.client_id@,
            namespace: self.namespace@,
            endpoint: self.endpoint@,
            connection_timeout: self.connection_timeout,
            connection_backoff: self.connection_backoff,
            max_connection_attempts: self.max_connection_attempts,
            ack_timeout: self.ack_timeout,
            reply_timeout: self.reply_timeout,
            heartbeat: self.heartbeat,
            max_message_attempts: self.max_message_attempts,
        }
    }
}

/// A payload that came in for this client: who sent it, the bytes, and the
/// sender's number for it.
#[derive(Debug, Clone, PartialEq, Eq)]
pub struct RecvdRelayPayload {
    pub from: Entity,
    pub payload: Vec<u8>,
    pub seq: u64,
}

pub struct RecvdRelayPayloadView {
    pub from: EntityView,
    pub payload: Seq<u8>,
    pub seq: u64,
}

impl View for RecvdRelayPayload {
    type V = RecvdRelayPayloadView;

    open spec fn view(&self) -> RecvdRelayPayloadView {
        RecvdRelayPayloadView { from: self.from@, payload: self.payload@, seq: self.seq }
    }
}

/// The client itself as a party on the relay.
pub open spec fn own_entity(o: ClientOptsView) -> EntityView {
    EntityView { id: o.client_id, entity_type: o.entity_type.code(), namespace: o.namespace }
}

/// An opaque payload with no type URL.
pub open spec fn untyped(data: Seq<u8>) -> AnyView {
    AnyView { type_url: Seq::empty(), value: data }
}

/// The relay payload that carries `m` from this client, numbered `seq`.
pub open spec fn spec_relay_payload(o: ClientOptsView, m: SendMessageView, seq: u64) -> RelayPayloadView {
    RelayPayloadView {
        src: Some(own_entity(o)),
        dst: Some(
            EntityView {
                id: m.target_id,
                entity_type: m.target_type.code(),
                namespace: m.target_namespace,
            },
        ),
        seq,
        payload: Some(untyped(m.data)),
    }
}

/// The relay payload that answers the message `seq` from `from` with `data`.
pub open spec fn spec_reply_payload(
    o: ClientOptsView,
    from: EntityView,
    seq: u64,
    data: Seq<u8>,
) -> RelayPayloadView {
    RelayPayloadView { src: Some(own_entity(o)), dst: Some(from), seq, payload: Some(untyped(data)) }
}

/// A request on the stream that carries payload `p`.
pub open spec fn payload_request(p: RelayPayloadView) -> RelayConnectRequestView {
    RelayConnectRequestView { msg: Some(RelayRequestMsgView::Payload(p)) }
}

/// The request that opens a connection for this client with `token`.
pub open spec fn spec_connect_request(o: ClientOptsView, token: Seq<char>) -> RelayConnectRequestView {
    RelayConnectRequestView {
        msg: Some(
            RelayRequestMsgView::ConnectRequest(
                ConnectRequestView {
                    client_id: Some(own_entity(o)),
                    auth_method: Some(AuthMethodView::Token(token)),
                },
            ),
        ),
    }
}

/// The scheme that makes a client use TLS.
pub open spec fn https_scheme() -> Seq<char> {
    seq!['h', 't', 't', 'p', 's', ':', '/', '/']
}

/// Whether `s` begins with `p`.
pub open spec fn starts_with(s: Seq<char>, p: Seq<char>) -> bool {
    p.len() <= s.len() && s.subrange(0, p.len() as int) == p
}

/// A byte buffer with the same contents.
pub fn copy_bytes(data: &Vec<u8>) -> (r: Vec<u8>)
    ensures
        r@ == data@,
{
    let mut out: Vec<u8> = Vec::new();
    let n = data.len();
    for i in 0..n
        invariant
            n == data@.len(),
            out@ == data@.subrange(0, i as int),
    {
        out.push(data[i]);
        assert(data@.subrange(0, (i + 1) as int) == data@.subrange(0, i as int).push(data@[i as int]));
    }
    assert(data@.subrange(0, n as int) == data@);
    out
}

/// This client as a party on the relay.
pub fn own_entity_of(opts: &ClientOpts) -> (r: Entity)
    ensures
        r@ == own_entity(opts@),
{
    Entity {
        id: opts.client_id.clone(),
        entity_type: opts.entity_type.as_i32(),
        namespace: opts.namespace.clone(),
    }
}

/// The relay payload that carries `msg` from this client, numbered `seq`.
pub fn relay_payload(opts: &ClientOpts, msg: &SendMessage, seq: u64) -> (r: RelayPayload)
    ensures
        r@ == spec_relay_payload(opts@, msg@, seq),
{
    RelayPayload {
        src: Some(own_entity_of(opts)),
        dst: Some(
            Entity {
                id: msg.target_id.clone(),
                entity_type: msg.target_type.as_i32(),
                namespace: msg.target_namespace.clone(),
            },
        ),
        seq,
        payload: Some(Any { type_url: String::new(), value: copy_bytes(&msg.data) }),
    }
}

/// The request on the stream that sends `msg` from this client as number
/// `seq`.
pub fn outgoing_request(opts: &ClientOpts, msg: &SendMessage, seq: u64) -> (r: RelayConnectRequest)
    ensures
        r@ == payload_request(spec_relay_payload(opts@, msg@, seq)),
{
    RelayConnectRequest::from(relay_payload(opts, msg, seq))
}

/// The relay payload that answers the message `seq` from `from` with `data`:
/// it goes back to the sender, under the sender's number.
pub fn reply_payload(opts: &ClientOpts, from: &Entity, seq: u64, data: &Vec<u8>) -> (r: RelayPayload)
    ensures
        r@ == spec_reply_payload(opts@, from@, seq, data@),
{
    RelayPayload {
        src: Some(own_entity_of(opts)),
        dst: Some(from.duplicate()),
        seq,
        payload: Some(Any { type_url: String::new(), value: copy_bytes(data) }),
    }
}

/// The message whose acknowledgement an at-least-once reply to `from`
/// awaits; `None` where the wire number of `from`'s kind names no kind.
pub fn reply_ack_message(from: &Entity, data: Vec<u8>, qos: QoS) -> (r: Option<SendMessage>)
    ensures
        match entity_type_of(from.entity_type) {
            Some(t) => r is Some && r->0@ == (SendMessageView {
                target_type: t,
                data: data@,
                target_id: from.id@,
                target_namespace: from.namespace@,
                qos,
            }),
            None => r is None,
        },
{
    match EntityType::try_from_i32(from.entity_type) {
        Some(t) => Some(
            SendMessage {
                target_type: t,
                data,
                target_id: from.id.clone(),
                target_namespace: from.namespace.clone(),
                qos,
            },
        ),
        None => None,
    }
}

/// The request that opens a connection for this client, authenticated by
/// `token`.
pub fn connect_request(opts: &ClientOpts, token: String) -> (r: RelayConnectRequest)
    ensures
        r@ == spec_connect_request(opts@, token@),
{
    RelayConnectRequest::from(
        ConnectRequest {
            client_id: Some(own_entity_of(opts)),
            auth_method: Some(AuthMethod::Token(token)),
        },
    )
}

/// Whether the client reaches the relay over TLS: exactly when the
/// endpoint's scheme is `https://`.
pub fn uses_tls(endpoint: &String) -> (r: bool)
    ensures
        r == starts_with(endpoint@, https_scheme()),
{
    let s = endpoint.as_str();
    let prefix = "https://";
    proof {
        reveal_strlit("https://");
    }
    assert(prefix@ == https_scheme());
    assert(https_scheme().len() == 8);
    assert(s@ == endpoint@);
    let n = s.unicode_len();
    if n < 8 {
        return false;
    }
    let mut i: usize = 0;
    while i < 8
        invariant
            n == s@.len(),
            s@ == endpoint@,
            8 <= n,
            i <= 8,
            prefix@ == https_scheme(),
            forall|j: int| 0 <= j < i ==> s@[j] == https_scheme()[j],
        decreases 8 - i,
    {
        if s.get_char(i) != prefix.get_char(i) {
            assert(s@.subrange(0, 8)[i as int] != https_scheme()[i as int]);
            assert(s@.subrange(0, 8) != https_scheme());
            return false;
        }
        i = i + 1;
    }
    assert(s@.subrange(0, 8) == https_scheme());
    true
}

/// Whether a message with this guarantee waits for the relay's
/// acknowledgement.
pub fn awaits_ack(qos: QoS) -> (r: bool)
    ensures
        r == (qos == QoS::AtLeastOnce),
{
    match qos {
        QoS::AtMostOnce => false,
        QoS::AtLeastOnce => true,
    }
}


/// The client announces itself as the same party that it sends payloads
/// from: the connect request's client entity carries the client's own id,
/// namespace and kind (whose wire number reads back as that kind), and
/// authenticates with the token given.
pub proof fn lemma_connect_request_names_client(o: ClientOptsView, token: Seq<char>, m: SendMessageView, seq: u64)
    ensures
        ({
            let r = spec_connect_request(o, token);
            &&& r.msg matches Some(RelayRequestMsgView::ConnectRequest(c))
            &&& c.client_id == spec_relay_payload(o, m, seq).src
            &&& c.client_id matches Some(e)
            &&& e.id == o.client_id
            &&& e.namespace == o.namespace
            &&& entity_type_of(e.entity_type) == Some(o.entity_type)
            &&& c.auth_method == Some(AuthMethodView::Token(token))
        }),
{
}

/// A reply comes from the replying client itself, as every payload it sends
/// does, and goes back to the sender under the sender's number: its source
/// carries the replier's own id, namespace and kind, whatever the sender's.
pub proof fn lemma_reply_comes_from_replier(
    o: ClientOptsView,
    from: EntityView,
    seq: u64,
    data: Seq<u8>,
    m: SendMessageView,
    other_seq: u64,
)
    ensures
        ({
            let p = spec_reply_payload(o, from, seq, data);
            &&& p.src == spec_relay_payload(o, m, other_seq).src
            &&& p.src matches Some(e)
            &&& e.id == o.client_id
            &&& e.namespace == o.namespace
            &&& entity_type_of(e.entity_type) == Some(o.entity_type)
            &&& p.dst == Some(from)
            &&& p.seq == seq
            &&& p.payload == Some(AnyView { type_url: Seq::empty(), value: data })
        }),
{
}

/// A payload goes from the client's own entity to the message's target,
/// under the number given, and carries the message's bytes untyped.
pub proof fn lemma_relay_payload_parts(o: ClientOptsView, m: SendMessageView, seq: u64)
    ensures
        ({
            let p = spec_relay_payload(o, m, seq);
            &&& p.src matches Some(e) && e.id == o.client_id && e.namespace == o.namespace
                && entity_type_of(e.entity_type) == Some(o.entity_type)
            &&& p.dst matches Some(d) && d.id == m.target_id && d.namespace == m.target_namespace
                && entity_type_of(d.entity_type) == Some(m.target_type)
            &&& p.seq == seq
            &&& p.payload == Some(AnyView { type_url: Seq::empty(), value: m.data })
        }),
{
}

} // verus!
