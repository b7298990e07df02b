//! The messages of the relay protocol, and their mathematical models.
//!
//! Every message type has a view in which strings are `Seq<char>` and byte
//! buffers are `Seq<u8>`; contracts speak of those views.

use vstd::prelude::*;

verus! {

/// The kind of a party on the relay.
#[derive(Debug, Copy, Clone, PartialEq, Eq, Structural)]
pub enum EntityType {
    Orb,
    App,
    Service,
}

impl EntityType {
    /// The wire number of this kind.
    pub open spec fn code(self) -> i32 {
        match self {
            EntityType::Orb => 0,
            EntityType::App => 1,
            EntityType::Service => 2,
        }
    }

    /// The wire number of this kind.
    pub fn as_i32(&self) -> (r: i32)
        ensures
            r == self.code(),
    {
        match self {
            EntityType::Orb => 0,
            EntityType::App => 1,
            EntityType::Service => 2,
        }
    }

    /// The kind that a wire number stands for, where it stands for one.
    pub fn try_from_i32(v: i32) -> (r: Option<EntityType>)
        ensures
            r == entity_type_of(v),
    {
        if v == 0 {
            Some(EntityType::Orb)
        } else if v == 1 {
            Some(EntityType::App)
        } else if v == 2 {
            Some(EntityType::Service)
        } else {
            None
        }
    }
}

/// The kind whose wire number is `v`.
pub open spec fn entity_type_of(v: i32) -> Option<EntityType> {
    if v == 0 {
        Some(EntityType::Orb)
    } else if v == 1 {
        Some(EntityType::App)
    } else if v == 2 {
        Some(EntityType::Service)
    } else {
        None
    }
}

/// Reading back the wire number of a kind gives that kind.
pub proof fn lemma_entity_type_code_round_trip(t: EntityType)
    ensures
        entity_type_of(t.code()) == Some(t),
{
}

/// A party on the relay: its id, its kind (by wire number) and its namespace.
#[derive(Debug, Clone, PartialEq, Eq)]
pub struct Entity {
    pub id: String,
    pub entity_type: i32,
    pub namespace: String,
}

pub struct EntityView {
    pub id: Seq<char>,
    pub entity_type: i32,
    pub namespace: Seq<char>,
}

impl View for Entity {
    type V = EntityView;

    open spec fn view(&self) -> EntityView {
        EntityView { id: self.id@, entity_type: self.entity_type, namespace: self.namespace@ }
    }
}

impl Entity {
    /// A copy with the same view.
    pub fn duplicate(&self) -> (r: Entity)
        ensures
            r@ == self@,
    {
        Entity { id: self.id.clone(), entity_type: self.entity_type, namespace: self.namespace.clone() }
    }
}

pub open spec fn opt_entity_view(e: Option<Entity>) -> Option<EntityView> {
    match e {
        Some(e) => Some(e@),
        None => None,
    }
}

/// An opaque payload: a type URL and the bytes.
#[derive(Debug, Clone, PartialEq, Eq)]
pub struct Any {
    pub type_url: String,
    pub value: Vec<u8>,
}

pub struct AnyView {
    pub type_url: Seq<char>,
    pub value: Seq<u8>,
}

impl View for Any {
    type V = AnyView;

    open spec fn view(&self) -> AnyView {
        AnyView { type_url: self.type_url@, value: self.value@ }
    }
}

pub open spec fn opt_any_view(a: Option<Any>) -> Option<AnyView> {
    match a {
        Some(a) => Some(a@),
        None => None,
    }
}

/// A payload from one party to another, numbered by the sender.
#[derive(Debug, Clone, PartialEq, Eq)]
pub struct RelayPayload {
    pub src: Option<Entity>,
    pub dst: Option<Entity>,
    pub seq: u64,
    pub payload: Option<Any>,
}

pub struct RelayPayloadView {
    pub src: Option<EntityView>,
    pub dst: Option<EntityView>,
    pub seq: u64,
    pub payload: Option<AnyView>,
}

impl View for RelayPayload {
    type V = RelayPayloadView;

    open spec fn view(&self) -> RelayPayloadView {
        RelayPayloadView {
            src: opt_entity_view(self.src),
            dst: opt_entity_view(self.dst),
            seq: self.seq,
            payload: opt_any_view(self.payload),
        }
    }
}

/// The relay's receipt for the payload numbered `seq`.
#[derive(Debug, Copy, Clone, PartialEq, Eq, Structural)]
pub struct Ack {
    pub seq: u64,
}

/// A message that keeps the connection alive.
#[derive(Debug, Copy, Clone, PartialEq, Eq, Structural)]
pub struct Heartbeat {
    pub seq: u64,
}

/// How a client proves who it is.
#[derive(Debug, Clone, PartialEq, Eq)]
pub enum AuthMethod {
    Token(String),
}

pub enum AuthMethodView {
    Token(Seq<char>),
}

impl View for AuthMethod {
    type V = AuthMethodView;

    open spec fn view(&self) -> AuthMethodView {
        match self {
            AuthMethod::Token(t) => AuthMethodView::Token(t@),
        }
    }
}

/// The first message of a connection: who connects, and how it authenticates.
#[derive(Debug, Clone, PartialEq, Eq)]
pub struct ConnectRequest {
    pub client_id: Option<Entity>,
    pub auth_method: Option<AuthMethod>,
}

pub struct ConnectRequestView {
    pub client_id: Option<EntityView>,
    pub auth_method: Option<AuthMethodView>,
}

impl View for ConnectRequest {
    type V = ConnectRequestView;

    open spec fn view(&self) -> ConnectRequestView {
        ConnectRequestView {
            client_id: opt_entity_view(self.client_id),
            auth_method: match self.auth_method {
                Some(a) => Some(a@),
                None => None,
            },
        }
    }
}

/// The relay's answer to a `ConnectRequest`.
#[derive(Debug, Clone, PartialEq, Eq)]
pub struct ConnectResponse {
    pub client_id: String,
    pub success: bool,
    pub error: String,
}

pub struct ConnectResponseView {
    pub client_id: Seq<char>,
    pub success: bool,
    pub error: Seq<char>,
}

impl View for ConnectResponse {
    type V = ConnectResponseView;

    open spec fn view(&self) -> ConnectResponseView {
        ConnectResponseView { client_id: self.client_id@, success: self.success, error: self.error@ }
    }
}

/// What a client sends on its stream.
#[derive(Debug, Clone, PartialEq, Eq)]
pub enum RelayRequestMsg {
    ConnectRequest(ConnectRequest),
    Payload(RelayPayload),
    Heartbeat(Heartbeat),
}

pub enum RelayRequestMsgView {
    ConnectRequest(ConnectRequestView),
    Payload(RelayPayloadView),
    Heartbeat(Heartbeat),
}

impl View for RelayRequestMsg {
    type V = RelayRequestMsgView;

    open spec fn view(&self) -> RelayRequestMsgView {
        match self {
            RelayRequestMsg::ConnectRequest(c) => RelayRequestMsgView::ConnectRequest(c@),
            RelayRequestMsg::Payload(p) => RelayRequestMsgView::Payload(p@),
            RelayRequestMsg::Heartbeat(h) => RelayRequestMsgView::Heartbeat(*h),
        }
    }
}

/// One message of the client's stream.
#[derive(Debug, Clone, PartialEq, Eq)]
pub struct RelayConnectRequest {
    pub msg: Option<RelayRequestMsg>,
}

pub struct RelayConnectRequestView {
    pub msg: Option<RelayRequestMsgView>,
}

impl View for RelayConnectRequest {
    type V = RelayConnectRequestView;

    open spec fn view(&self) -> RelayConnectRequestView {
        RelayConnectRequestView {
            msg: match self.msg {
                Some(m) => Some(m@),
                None => None,
            },
        }
    }
}

/// What the relay sends on a client's stream.
#[derive(Debug, Clone, PartialEq, Eq)]
pub enum RelayResponseMsg {
    ConnectResponse(ConnectResponse),
    Payload(RelayPayload),
    Ack(Ack),
}

pub enum RelayResponseMsgView {
    ConnectResponse(ConnectResponseView),
    Payload(RelayPayloadView),
    Ack(Ack),
}

impl View for RelayResponseMsg {
    type V = RelayResponseMsgView;

    open spec fn view(&self) -> RelayResponseMsgView {
        match self {
            RelayResponseMsg::ConnectResponse(c) => RelayResponseMsgView::ConnectResponse(c@),
            RelayResponseMsg::Payload(p) => RelayResponseMsgView::Payload(p@),
            RelayResponseMsg::Ack(a) => RelayResponseMsgView::Ack(*a),
        }
    }
}

/// One message of the relay's stream.
#[derive(Debug, Clone, PartialEq, Eq)]
pub struct RelayConnectResponse {
    pub msg: Option<RelayResponseMsg>,
}

pub struct RelayConnectResponseView {
    pub msg: Option<RelayResponseMsgView>,
}

impl View for RelayConnectResponse {
    type V = RelayConnectResponseView;

    open spec fn view(&self) -> RelayConnectResponseView {
        RelayConnectResponseView {
            msg: match self.msg {
                Some(m) => Some(m@),
                None => None,
            },
        }
    }
}

impl From<RelayPayload> for RelayConnectRequest {
    fn from(payload: RelayPayload) -> (r: RelayConnectRequest) {
        RelayConnectRequest { msg: Some(RelayRequestMsg::Payload(payload)) }
    }
}

impl vstd::std_specs::convert::FromSpecImpl<RelayPayload> for RelayConnectRequest {
    open spec fn obeys_from_spec() -> bool {
        true
    }

    open spec fn from_spec(payload: RelayPayload) -> RelayConnectRequest {
        RelayConnectRequest { msg: Some(RelayRequestMsg::Payload(payload)) }
    }
}

impl From<Heartbeat> for RelayConnectRequest {
    fn from(heartbeat: Heartbeat) -> (r: RelayConnectRequest) {
        RelayConnectRequest { msg: Some(RelayRequestMsg::Heartbeat(heartbeat)) }
    }
}

impl vstd::std_specs::convert::FromSpecImpl<Heartbeat> for RelayConnectRequest {
    open spec fn obeys_from_spec() -> bool {
        true
    }

    open spec fn from_spec(heartbeat: Heartbeat) -> RelayConnectRequest {
        RelayConnectRequest { msg: Some(RelayRequestMsg::Heartbeat(heartbeat)) }
    }
}

impl From<ConnectRequest> for RelayConnectRequest {
    fn from(connect_request: ConnectRequest) -> (r: RelayConnectRequest) {
        RelayConnectRequest { msg: Some(RelayRequestMsg::ConnectRequest(connect_request)) }
    }
}

impl vstd::std_specs::convert::FromSpecImpl<ConnectRequest> for RelayConnectRequest {
    open spec fn obeys_from_spec() -> bool {
        true
    }

    open spec fn from_spec(connect_request: ConnectRequest) -> RelayConnectRequest {
        RelayConnectRequest { msg: Some(RelayRequestMsg::ConnectRequest(connect_request)) }
    }
}

} // verus!
