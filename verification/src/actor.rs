//! The decisions of a client's actor.
//!
//! The actor owns the client's pending work: messages that wait for the
//! relay's acknowledgement and requests that wait for another client's
//! reply. Each message it receives is handed to `State::handle_msg`, which
//! updates that state and returns the actions to perform (send on the
//! stream, deliver to the client, wake a waiting sender, arm a timer). The
//! channels of the waiting senders are opaque here: `A` for acknowledgements
//! and `R` for replies.

use std::collections::HashMap;
use std::time::Duration;
use vstd::prelude::*;

use crate::amount::{amount_le, decremented, decremented_n, lemma_finite_budget_runs_out, Amount};
use crate::client::{
    outgoing_request, payload_request, spec_relay_payload, ClientOpts, ClientOptsView, QoS,
    RecvdRelayPayload, RecvdRelayPayloadView, SendMessage, SendMessageView,
};
use crate::messages::{
    Ack, Heartbeat, RelayConnectRequest, RelayConnectRequestView, RelayConnectResponse,
    RelayPayloadView, RelayRequestMsgView, RelayResponseMsg, RelayResponseMsgView,
};

verus! {

broadcast use vstd::std_specs::hash::group_hash_axioms;

/// A message to the actor.
#[derive(Debug)]
pub enum Msg<A, R> {
    /// Something the relay sent on the stream.
    RelayResponse(RelayResponseMsg),
    /// A request to put on the stream.
    Send(RelayConnectRequest),
    /// `original_msg`, sent as number `seq`, waits for the relay's
    /// acknowledgement; `ack_tx` is told when it comes.
    WaitForAck { original_msg: SendMessage, ack_tx: A, seq: u64 },
    /// `original_msg`, sent as number `seq`, waits for its target's reply;
    /// `recv_msg_tx` receives it.
    WaitForReply { original_msg: SendMessage, recv_msg_tx: R, seq: u64 },
    /// The acknowledgement of `seq` is overdue.
    RetryAck { seq: u64, retries_left: Amount },
    /// The reply of `from_client` to `seq` is overdue.
    RetryAsk { from_client: String, seq: u64, retries_left: Amount },
    /// The client asks to stop.
    Stop,
    /// Time to send a heartbeat.
    Heartbeat,
}

pub enum MsgView<A, R> {
    RelayResponse(RelayResponseMsgView),
    Send(RelayConnectRequestView),
    WaitForAck { original_msg: SendMessageView, ack_tx: A, seq: u64 },
    WaitForReply { original_msg: SendMessageView, recv_msg_tx: R, seq: u64 },
    RetryAck { seq: u64, retries_left: Amount },
    RetryAsk { from_client: Seq<char>, seq: u64, retries_left: Amount },
    Stop,
    Heartbeat,
}

impl<A, R> View for Msg<A, R> {
    type V = MsgView<A, R>;

    open spec fn view(&self) -> MsgView<A, R> {
        match self {
            Msg::RelayResponse(r) => MsgView::RelayResponse(r@),
            Msg::Send(r) => MsgView::Send(r@),
            Msg::WaitForAck { original_msg, ack_tx, seq } => MsgView::WaitForAck {
                original_msg: original_msg@,
                ack_tx: *ack_tx,
                seq: *seq,
            },
            Msg::WaitForReply { original_msg, recv_msg_tx, seq } => MsgView::WaitForReply {
                original_msg: original_msg@,
                recv_msg_tx: *recv_msg_tx,
                seq: *seq,
            },
            Msg::RetryAck { seq, retries_left } => MsgView::RetryAck {
                seq: *seq,
                retries_left: *retries_left,
            },
            Msg::RetryAsk { from_client, seq, retries_left } => MsgView::RetryAsk {
                from_client: from_client@,
                seq: *seq,
                retries_left: *retries_left,
            },
            Msg::Stop => MsgView::Stop,
            Msg::Heartbeat => MsgView::Heartbeat,
        }
    }
}

/// Something for the actor's runtime to do.
#[derive(Debug)]
pub enum Action<A, R> {
    /// Put a request on the stream to the relay; if that fails, the
    /// connection is over.
    Transmit(RelayConnectRequest),
    /// Hand an incoming payload to the client; if that fails, the connection
    /// is over.
    Deliver(RecvdRelayPayload),
    /// Hand a reply to the request that waits for it; a failure is only
    /// reported.
    Reply { to: R, msg: RecvdRelayPayload },
    /// Tell a waiting sender that the relay acknowledged its message.
    Acknowledge(A),
    /// Send `msg` to the actor after `delay`.
    Schedule { delay: Duration, msg: Msg<A, R> },
    /// The message `seq` ran out of retries.
    GiveUp { seq: u64 },
    /// A message from the relay that needs nothing done.
    Ignore(RelayResponseMsg),
}

pub enum ActionView<A, R> {
    Transmit(RelayConnectRequestView),
    Deliver(RecvdRelayPayloadView),
    Reply { to: R, msg: RecvdRelayPayloadView },
    Acknowledge(A),
    Schedule { delay: Duration, msg: MsgView<A, R> },
    GiveUp { seq: u64 },
    Ignore(RelayResponseMsgView),
}

impl<A, R> View for Action<A, R> {
    type V = ActionView<A, R>;

    open spec fn view(&self) -> ActionView<A, R> {
        match self {
            Action::Transmit(r) => ActionView::Transmit(r@),
            Action::Deliver(m) => ActionView::Deliver(m@),
            Action::Reply { to, msg } => ActionView::Reply { to: *to, msg: msg@ },
            Action::Acknowledge(a) => ActionView::Acknowledge(*a),
            Action::Schedule { delay, msg } => ActionView::Schedule { delay: *delay, msg: msg@ },
            Action::GiveUp { seq } => ActionView::GiveUp { seq: *seq },
            Action::Ignore(r) => ActionView::Ignore(r@),
        }
    }
}

/// What handling one message comes to: actions to perform, in order, or the
/// end of the actor on the client's request.
#[derive(Debug)]
pub enum Step<A, R> {
    Continue(Vec<Action<A, R>>),
    Stop,
}

pub enum StepView<A, R> {
    Continue(Seq<ActionView<A, R>>),
    Stop,
}

pub open spec fn actions_view<A, R>(v: Seq<Action<A, R>>) -> Seq<ActionView<A, R>> {
    v.map_values(|a: Action<A, R>| a@)
}

impl<A, R> View for Step<A, R> {
    type V = StepView<A, R>;

    open spec fn view(&self) -> StepView<A, R> {
        match self {
            Step::Continue(v) => StepView::Continue(actions_view(v@)),
            Step::Stop => StepView::Stop,
        }
    }
}

/// A request that waits for the reply of `client_id` to its message `seq`.
pub struct PendingReply<R> {
    pub client_id: String,
    pub seq: u64,
    pub msg: SendMessage,
    pub reply_tx: R,
}

/// The key under which a reply is awaited: who must answer, and the number
/// of the message.
pub open spec fn reply_key<R>(e: PendingReply<R>) -> (Seq<char>, u64) {
    (e.client_id@, e.seq)
}

pub open spec fn reply_entry<R>(e: PendingReply<R>) -> (SendMessageView, R) {
    (e.msg@, e.reply_tx)
}

/// No two pending replies share a key.
pub open spec fn distinct_keys<R>(v: Seq<PendingReply<R>>) -> bool {
    forall|i: int, j: int|
        0 <= i < v.len() && 0 <= j < v.len() && i != j ==> reply_key(#[trigger] v[i]) != reply_key(
            #[trigger] v[j],
        )
}

/// The pending replies as a map from key to message and channel.
pub open spec fn replies_map<R>(v: Seq<PendingReply<R>>) -> Map<(Seq<char>, u64), (SendMessageView, R)>
    decreases v.len(),
{
    if v.len() == 0 {
        Map::empty()
    } else {
        replies_map(v.drop_last()).insert(reply_key(v.last()), reply_entry(v.last()))
    }
}

/// The actor's pending work.
pub struct State<A, R> {
    pending_acks: HashMap<u64, (SendMessage, A)>,
    pending_replies: Vec<PendingReply<R>>,
    heartbeat_started: bool,
}

pub struct StateView<A, R> {
    /// Messages waiting for the relay's acknowledgement, by number.
    pub acks: Map<u64, (SendMessageView, A)>,
    /// Requests waiting for a reply, by answering client and number.
    pub replies: Map<(Seq<char>, u64), (SendMessageView, R)>,
    /// Whether the heartbeat timer runs.
    pub heartbeat_started: bool,
}

impl<A, R> View for State<A, R> {
    type V = StateView<A, R>;

    closed spec fn view(&self) -> StateView<A, R> {
        StateView {
            acks: Map::new(
                |k: u64| self.pending_acks@.contains_key(k),
                |k: u64| (self.pending_acks@[k].0@, self.pending_acks@[k].1),
            ),
            replies: replies_map(self.pending_replies@),
            heartbeat_started: self.heartbeat_started,
        }
    }
}

/// The request that keeps the connection alive.
pub open spec fn heartbeat_request() -> RelayConnectRequestView {
    RelayConnectRequestView { msg: Some(RelayRequestMsgView::Heartbeat(Heartbeat { seq: 0 })) }
}

/// How often a request is asked again: never for an at-most-once message,
/// up to the client's limit for an at-least-once one.
pub open spec fn ask_budget(o: ClientOptsView, qos: QoS) -> Amount {
    match qos {
        QoS::AtMostOnce => Amount::Val(0),
        QoS::AtLeastOnce => o.max_message_attempts,
    }
}

pub open spec fn continue_with<A, R>(actions: Seq<ActionView<A, R>>) -> StepView<A, R> {
    StepView::Continue(actions)
}

/// A payload that came in: the reply to a pending request goes to that
/// request, which stops waiting; anything else goes to the client.
pub open spec fn deliver_payload<A, R>(s: StateView<A, R>, recv: RecvdRelayPayloadView) -> (
    StateView<A, R>,
    StepView<A, R>,
) {
    let key = (recv.from.id, recv.seq);
    if s.replies.contains_key(key) {
        (
            StateView { replies: s.replies.remove(key), ..s },
            continue_with(seq![ActionView::Reply { to: s.replies[key].1, msg: recv }]),
        )
    } else {
        (s, continue_with(seq![ActionView::Deliver(recv)]))
    }
}

/// What the relay's messages do: payloads with a sender and contents are
/// delivered, an acknowledgement releases the message it names, anything
/// else is ignored.
pub open spec fn on_response<A, R>(s: StateView<A, R>, r: RelayResponseMsgView) -> (
    StateView<A, R>,
    StepView<A, R>,
) {
    match r {
        RelayResponseMsgView::Payload(p) => {
            if p.payload is Some && p.src is Some {
                deliver_payload(
                    s,
                    RecvdRelayPayloadView {
                        from: p.src->0,
                        payload: p.payload->0.value,
                        seq: p.seq,
                    },
                )
            } else {
                (s, continue_with(seq![ActionView::Ignore(r)]))
            }
        },
        RelayResponseMsgView::Ack(a) => {
            if s.acks.contains_key(a.seq) {
                (
                    StateView { acks: s.acks.remove(a.seq), ..s },
                    continue_with(seq![ActionView::Acknowledge(s.acks[a.seq].1)]),
                )
            } else {
                (s, continue_with(Seq::empty()))
            }
        },
        RelayResponseMsgView::ConnectResponse(_) => (s, continue_with(seq![ActionView::Ignore(r)])),
    }
}

/// A retry of `seq` that is still pending: give up when no retries are
/// left, else send `resend` again and check back after `delay` with one
/// retry less.
pub open spec fn retry<A, R>(
    s: StateView<A, R>,
    seq: u64,
    retries_left: Amount,
    resend: RelayConnectRequestView,
    delay: Duration,
    again: MsgView<A, R>,
) -> (StateView<A, R>, StepView<A, R>) {
    if retries_left == Amount::Val(0) {
        (s, continue_with(seq![ActionView::GiveUp { seq }]))
    } else {
        (
            s,
            continue_with(
                seq![ActionView::Transmit(resend), ActionView::Schedule { delay, msg: again }],
            ),
        )
    }
}

/// The actor's response to one message, over the models: the next state
/// and what to do.
pub open spec fn step<A, R>(s: StateView<A, R>, o: ClientOptsView, m: MsgView<A, R>) -> (
    StateView<A, R>,
    StepView<A, R>,
) {
    match m {
        MsgView::RelayResponse(r) => on_response(s, r),
        MsgView::Send(req) => (s, continue_with(seq![ActionView::Transmit(req)])),
        MsgView::WaitForAck { original_msg, ack_tx, seq } => (
            StateView { acks: s.acks.insert(seq, (original_msg, ack_tx)), ..s },
            continue_with(
                seq![
                    ActionView::Schedule {
                        delay: o.ack_timeout,
                        msg: MsgView::RetryAck { seq, retries_left: o.max_message_attempts },
                    },
                ],
            ),
        ),
        MsgView::WaitForReply { original_msg, recv_msg_tx, seq } => (
            StateView {
                replies: s.replies.insert(
                    (original_msg.target_id, seq),
                    (original_msg, recv_msg_tx),
                ),
                ..s
            },
            continue_with(
                seq![
                    ActionView::Schedule {
                        delay: o.reply_timeout,
                        msg: MsgView::RetryAsk {
                            from_client: original_msg.target_id,
                            seq,
                            retries_left: ask_budget(o, original_msg.qos),
                        },
                    },
                ],
            ),
        ),
        MsgView::RetryAck { seq, retries_left } => {
            if s.acks.contains_key(seq) {
                retry(
                    s,
                    seq,
                    retries_left,
                    payload_request(spec_relay_payload(o, s.acks[seq].0, seq)),
                    o.ack_timeout,
                    MsgView::RetryAck { seq, retries_left: decremented(retries_left) },
                )
            } else {
                (s, continue_with(Seq::empty()))
            }
        },
        MsgView::RetryAsk { from_client, seq, retries_left } => {
            if s.replies.contains_key((from_client, seq)) {
                retry(
                    s,
                    seq,
                    retries_left,
                    payload_request(spec_relay_payload(o, s.replies[(from_client, seq)].0, seq)),
                    o.reply_timeout,
                    MsgView::RetryAsk {
                        from_client,
                        seq,
                        retries_left: decremented(retries_left),
                    },
                )
            } else {
                (s, continue_with(Seq::empty()))
            }
        },
        MsgView::Stop => (s, StepView::Stop),
        MsgView::Heartbeat => (
            s,
            continue_with(
                seq![
                    ActionView::Transmit(heartbeat_request()),
                    ActionView::Schedule { delay: o.heartbeat, msg: MsgView::Heartbeat },
                ],
            ),
        ),
    }
}

/// Every key of the map comes from an entry, and every entry's key is in it.
proof fn lemma_replies_map_keys<R>(v: Seq<PendingReply<R>>, k: (Seq<char>, u64))
    ensures
        replies_map(v).contains_key(k) <==> exists|i: int| 0 <= i < v.len() && #[trigger] reply_key(v[i]) == k,
    decreases v.len(),
{
    if v.len() > 0 {
        let w = v.drop_last();
        lemma_replies_map_keys(w, k);
        if replies_map(v).contains_key(k) {
            if reply_key(v.last()) == k {
                assert(reply_key(v[v.len() - 1]) == k);
            } else {
                let i = choose|i: int| 0 <= i < w.len() && #[trigger] reply_key(w[i]) == k;
                assert(reply_key(v[i]) == k);
            }
        }
        if exists|i: int| 0 <= i < v.len() && #[trigger] reply_key(v[i]) == k {
            let i = choose|i: int| 0 <= i < v.len() && #[trigger] reply_key(v[i]) == k;
            if i < v.len() - 1 {
                assert(reply_key(w[i]) == k);
            }
        }
    }
}

/// Where keys are distinct, the map holds each entry under its key.
proof fn lemma_replies_map_value<R>(v: Seq<PendingReply<R>>, i: int)
    requires
        distinct_keys(v),
        0 <= i < v.len(),
    ensures
        replies_map(v).contains_key(reply_key(v[i])),
        replies_map(v)[reply_key(v[i])] == reply_entry(v[i]),
    decreases v.len(),
{
    let w = v.drop_last();
    if i < v.len() - 1 {
        assert(distinct_keys(w)) by {
            assert forall|a: int, b: int|
                0 <= a < w.len() && 0 <= b < w.len() && a != b implies reply_key(
                #[trigger] w[a],
            ) != reply_key(#[trigger] w[b]) by {
                assert(w[a] == v[a] && w[b] == v[b]);
            }
        }
        lemma_replies_map_value(w, i);
        assert(w[i] == v[i]);
        assert(reply_key(v[i]) != reply_key(v[v.len() - 1]));
    }
}

/// The map of the entries after removing entry `i` is the map without `i`'s
/// key.
proof fn lemma_replies_map_remove<R>(v: Seq<PendingReply<R>>, i: int)
    requires
        distinct_keys(v),
        0 <= i < v.len(),
    ensures
        distinct_keys(v.remove(i)),
        replies_map(v.remove(i)) == replies_map(v).remove(reply_key(v[i])),
{
    let u = v.remove(i);
    v.remove_ensures(i);
    assert(distinct_keys(u)) by {
        assert forall|a: int, b: int|
            0 <= a < u.len() && 0 <= b < u.len() && a != b implies reply_key(#[trigger] u[a])
            != reply_key(#[trigger] u[b]) by {
            let a1 = if a < i { a } else { a + 1 };
            let b1 = if b < i { b } else { b + 1 };
            assert(u[a] == v[a1] && u[b] == v[b1]);
        }
    }
    let m = replies_map(v).remove(reply_key(v[i]));
    assert forall|k: (Seq<char>, u64)| #[trigger] replies_map(u).contains_key(k) <==> m.contains_key(k) by {
        lemma_replies_map_keys(u, k);
        lemma_replies_map_keys(v, k);
        if replies_map(u).contains_key(k) {
            let a = choose|a: int| 0 <= a < u.len() && #[trigger] reply_key(u[a]) == k;
            let a1 = if a < i { a } else { a + 1 };
            assert(u[a] == v[a1]);
            assert(reply_key(v[a1]) == k);
        }
        if m.contains_key(k) {
            let a1 = choose|a: int| 0 <= a < v.len() && #[trigger] reply_key(v[a]) == k;
            assert(a1 != i);
            let a = if a1 < i { a1 } else { a1 - 1 };
            assert(u[a] == v[a1]);
            assert(reply_key(u[a]) == k);
        }
    }
    assert forall|k: (Seq<char>, u64)| #[trigger] replies_map(u).contains_key(k) implies replies_map(
        u,
    )[k] == m[k] by {
        lemma_replies_map_keys(u, k);
        let a = choose|a: int| 0 <= a < u.len() && #[trigger] reply_key(u[a]) == k;
        let a1 = if a < i { a } else { a + 1 };
        assert(u[a] == v[a1]);
        lemma_replies_map_value(u, a);
        lemma_replies_map_value(v, a1);
    }
    assert(replies_map(u) =~= m);
}

/// Replacing entry `i` by an entry with the same key maps that key to the new
/// entry.
proof fn lemma_replies_map_update<R>(v: Seq<PendingReply<R>>, i: int, e: PendingReply<R>)
    requires
        distinct_keys(v),
        0 <= i < v.len(),
        reply_key(e) == reply_key(v[i]),
    ensures
        distinct_keys(v.update(i, e)),
        replies_map(v.update(i, e)) == replies_map(v).insert(reply_key(e), reply_entry(e)),
{
    let u = v.update(i, e);
    assert(distinct_keys(u)) by {
        assert forall|a: int, b: int|
            0 <= a < u.len() && 0 <= b < u.len() && a != b implies reply_key(#[trigger] u[a])
            != reply_key(#[trigger] u[b]) by {
            assert(reply_key(u[a]) == reply_key(v[a]));
            assert(reply_key(u[b]) == reply_key(v[b]));
        }
    }
    let m = replies_map(v).insert(reply_key(e), reply_entry(e));
    assert forall|k: (Seq<char>, u64)| #[trigger] replies_map(u).contains_key(k) <==> m.contains_key(k) by {
        lemma_replies_map_keys(u, k);
        lemma_replies_map_keys(v, k);
        if replies_map(u).contains_key(k) {
            let a = choose|a: int| 0 <= a < u.len() && #[trigger] reply_key(u[a]) == k;
            assert(reply_key(v[a]) == k);
        }
        if m.contains_key(k) && k != reply_key(e) {
            let a = choose|a: int| 0 <= a < v.len() && #[trigger] reply_key(v[a]) == k;
            assert(reply_key(u[a]) == k);
        }
        if k == reply_key(e) {
            assert(reply_key(u[i]) == k);
        }
    }
    assert forall|k: (Seq<char>, u64)| #[trigger] replies_map(u).contains_key(k) implies replies_map(
        u,
    )[k] == m[k] by {
        lemma_replies_map_keys(u, k);
        let a = choose|a: int| 0 <= a < u.len() && #[trigger] reply_key(u[a]) == k;
        lemma_replies_map_value(u, a);
        if a != i {
            assert(u[a] == v[a]);
            lemma_replies_map_value(v, a);
        }
    }
    assert(replies_map(u) =~= m);
}

/// Adding an entry with a new key maps that key to it.
proof fn lemma_replies_map_push<R>(v: Seq<PendingReply<R>>, e: PendingReply<R>)
    requires
        distinct_keys(v),
        !replies_map(v).contains_key(reply_key(e)),
    ensures
        distinct_keys(v.push(e)),
        replies_map(v.push(e)) == replies_map(v).insert(reply_key(e), reply_entry(e)),
{
    let u = v.push(e);
    assert(u.drop_last() == v);
    assert forall|a: int, b: int|
        0 <= a < u.len() && 0 <= b < u.len() && a != b implies reply_key(#[trigger] u[a])
        != reply_key(#[trigger] u[b]) by {
        if a == v.len() {
            lemma_replies_map_keys(v, reply_key(e));
            assert(reply_key(v[b]) != reply_key(e));
        } else if b == v.len() {
            lemma_replies_map_keys(v, reply_key(e));
            assert(reply_key(v[a]) != reply_key(e));
        } else {
            assert(u[a] == v[a] && u[b] == v[b]);
        }
    }
}

impl<A, R> State<A, R> {
    /// Well-formed: no two pending replies share a key.
    pub closed spec fn wf(&self) -> bool {
        distinct_keys(self.pending_replies@)
    }

    /// A fresh actor: nothing pending, no heartbeat yet.
    pub fn new() -> (s: Self)
        ensures
            s.wf(),
            s@.acks == Map::<u64, (SendMessageView, A)>::empty(),
            s@.replies == Map::<(Seq<char>, u64), (SendMessageView, R)>::empty(),
            !s@.heartbeat_started,
    {
        let s = State { pending_acks: HashMap::new(), pending_replies: Vec::new(), heartbeat_started: false };
        assert(s@.acks =~= Map::<u64, (SendMessageView, A)>::empty());
        s
    }

    /// The index of the request that waits for the reply of `client_id` to
    /// `seq`, if one does.
    fn find_reply(&self, client_id: &String, seq: u64) -> (r: Option<usize>)
        requires
            self.wf(),
        ensures
            match r {
                Some(i) => i < self.pending_replies@.len() && reply_key(self.pending_replies@[i as int])
                    == (client_id@, seq),
                None => !self@.replies.contains_key((client_id@, seq)),
            },
    {
        let n = self.pending_replies.len();
        for i in 0..n
            invariant
                n == self.pending_replies@.len(),
                forall|j: int| 0 <= j < i ==> reply_key(#[trigger] self.pending_replies@[j]) != (client_id@, seq),
        {
            let e = &self.pending_replies[i];
            if e.seq == seq && e.client_id == *client_id {
                return Some(i);
            }
        }
        proof {
            lemma_replies_map_keys(self.pending_replies@, (client_id@, seq));
        }
        None
    }

    /// A payload from the relay: the reply to a pending request is handed to
    /// that request, which stops waiting; anything else goes to the client.
    fn handle_payload(&mut self, recv: RecvdRelayPayload) -> (r: Action<A, R>)
        requires
            old(self).wf(),
        ensures
            final(self).wf(),
            (final(self)@, continue_with(seq![r@])) == deliver_payload(old(self)@, recv@),
    {
        match self.find_reply(&recv.from.id, recv.seq) {
            Some(i) => {
                proof {
                    lemma_replies_map_value(self.pending_replies@, i as int);
                    lemma_replies_map_remove(self.pending_replies@, i as int);
                }
                let entry = self.pending_replies.remove(i);
                Action::Reply { to: entry.reply_tx, msg: recv }
            },
            None => Action::Deliver(recv),
        }
    }

    /// An acknowledgement from the relay: the message it names stops waiting
    /// and its sender is told.
    fn handle_ack(&mut self, seq: u64) -> (r: Option<Action<A, R>>)
        requires
            old(self).wf(),
        ensures
            final(self).wf(),
            final(self).pending_replies == old(self).pending_replies,
            final(self).heartbeat_started == old(self).heartbeat_started,
            old(self)@.acks.contains_key(seq) ==> final(self)@.acks == old(self)@.acks.remove(seq) && r
                is Some && r->0@ == ActionView::<A, R>::Acknowledge(old(self)@.acks[seq].1),
            !old(self)@.acks.contains_key(seq) ==> final(self)@.acks == old(self)@.acks && r is None,
    {
        let ghost before = self@.acks;
        match self.pending_acks.remove(&seq) {
            Some((_msg, ack_tx)) => {
                assert(self@.acks =~= before.remove(seq));
                Some(Action::Acknowledge(ack_tx))
            },
            None => {
                assert(self@.acks =~= before);
                None
            },
        }
    }

    /// A connection is up. The heartbeat timer is started with the first
    /// connection and keeps running across reconnections, so only the first
    /// call arms it.
    pub fn on_connected(&mut self, opts: &ClientOpts) -> (r: Option<Action<A, R>>)
        requires
            old(self).wf(),
        ensures
            final(self).wf(),
            final(self)@ == (StateView { heartbeat_started: true, ..old(self)@ }),
            old(self)@.heartbeat_started ==> r is None,
            !old(self)@.heartbeat_started ==> r is Some && r->0@ == (ActionView::<A, R>::Schedule {
                delay: opts.heartbeat,
                msg: MsgView::Heartbeat,
            }),
    {
        if self.heartbeat_started {
            None
        } else {
            self.heartbeat_started = true;
            Some(Action::Schedule { delay: opts.heartbeat, msg: Msg::Heartbeat })
        }
    }

    /// Handles one message: updates the pending work and returns what to do.
    pub fn handle_msg(&mut self, opts: &ClientOpts, msg: Msg<A, R>) -> (r: Step<A, R>)
        requires
            old(self).wf(),
        ensures
            final(self).wf(),
            final(self)@ == step(old(self)@, opts@, msg@).0,
            r@ == step(old(self)@, opts@, msg@).1,
    {
        let ghost s = self@;
        let ghost m = msg@;
        match msg {
            Msg::RelayResponse(resp) => {
                match resp {
                    RelayResponseMsg::Payload(p) => {
                        if p.payload.is_some() && p.src.is_some() {
                            let seq = p.seq;
                            let from = p.src.unwrap();
                            let value = p.payload.unwrap().value;
                            let recv = RecvdRelayPayload { from, payload: value, seq };
                            let a = self.handle_payload(recv);
                            let v = vec![a];
                            assert(actions_view(v@) =~= seq![a@]);
                            Step::Continue(v)
                        } else {
                            let v = vec![Action::Ignore(RelayResponseMsg::Payload(p))];
                            assert(actions_view(v@) =~= seq![v@[0]@]);
                            Step::Continue(v)
                        }
                    },
                    RelayResponseMsg::Ack(a) => {
                        let act = self.handle_ack(a.seq);
                        match act {
                            Some(act) => {
                                let v = vec![act];
                                assert(actions_view(v@) =~= seq![v@[0]@]);
                                Step::Continue(v)
                            },
                            None => {
                                let v: Vec<Action<A, R>> = Vec::new();
                                assert(actions_view(v@) =~= Seq::<ActionView<A, R>>::empty());
                                Step::Continue(v)
                            },
                        }
                    },
                    RelayResponseMsg::ConnectResponse(c) => {
                        let v = vec![Action::Ignore(RelayResponseMsg::ConnectResponse(c))];
                        assert(actions_view(v@) =~= seq![v@[0]@]);
                        Step::Continue(v)
                    },
                }
            },
            Msg::Send(req) => {
                let v = vec![Action::Transmit(req)];
                assert(actions_view(v@) =~= seq![v@[0]@]);
                Step::Continue(v)
            },
            Msg::WaitForAck { original_msg, ack_tx, seq } => {
                let ghost entry = (original_msg@, ack_tx);
                self.pending_acks.insert(seq, (original_msg, ack_tx));
                assert(self@.acks =~= s.acks.insert(seq, entry));
                let again = Msg::RetryAck { seq, retries_left: opts.max_message_attempts };
                let v = vec![Action::Schedule { delay: opts.ack_timeout, msg: again }];
                assert(actions_view(v@) =~= seq![v@[0]@]);
                Step::Continue(v)
            },
            Msg::WaitForReply { original_msg, recv_msg_tx, seq } => {
                let from_client = original_msg.target_id.clone();
                let retries_left = match original_msg.qos {
                    QoS::AtMostOnce => Amount::Val(0),
                    QoS::AtLeastOnce => opts.max_message_attempts,
                };
                let found = self.find_reply(&from_client, seq);
                let e = PendingReply {
                    client_id: original_msg.target_id.clone(),
                    seq,
                    msg: original_msg,
                    reply_tx: recv_msg_tx,
                };
                match found {
                    Some(i) => {
                        proof {
                            lemma_replies_map_update(self.pending_replies@, i as int, e);
                        }
                        self.pending_replies.set(i, e);
                    },
                    None => {
                        proof {
                            lemma_replies_map_push(self.pending_replies@, e);
                        }
                        self.pending_replies.push(e);
                    },
                }
                let again = Msg::RetryAsk { from_client, seq, retries_left };
                let v = vec![Action::Schedule { delay: opts.reply_timeout, msg: again }];
                assert(actions_view(v@) =~= seq![v@[0]@]);
                Step::Continue(v)
            },
            Msg::RetryAck { seq, retries_left } => {
                match self.pending_acks.get(&seq) {
                    Some(entry) => {
                        if retries_left.is_zero() {
                            let v = vec![Action::GiveUp { seq }];
                            assert(actions_view(v@) =~= seq![v@[0]@]);
                            Step::Continue(v)
                        } else {
                            let req = outgoing_request(opts, &entry.0, seq);
                            let again = Msg::RetryAck { seq, retries_left: retries_left.decrement() };
                            let v = vec![
                                Action::Transmit(req),
                                Action::Schedule { delay: opts.ack_timeout, msg: again },
                            ];
                            assert(actions_view(v@) =~= seq![v@[0]@, v@[1]@]);
                            Step::Continue(v)
                        }
                    },
                    None => {
                        let v: Vec<Action<A, R>> = Vec::new();
                        assert(actions_view(v@) =~= Seq::<ActionView<A, R>>::empty());
                        Step::Continue(v)
                    },
                }
            },
            Msg::RetryAsk { from_client, seq, retries_left } => {
                match self.find_reply(&from_client, seq) {
                    Some(i) => {
                        proof {
                            lemma_replies_map_value(self.pending_replies@, i as int);
                        }
                        if retries_left.is_zero() {
                            let v = vec![Action::GiveUp { seq }];
                            assert(actions_view(v@) =~= seq![v@[0]@]);
                            Step::Continue(v)
                        } else {
                            let req = outgoing_request(opts, &self.pending_replies[i].msg, seq);
                            let again = Msg::RetryAsk {
                                from_client,
                                seq,
                                retries_left: retries_left.decrement(),
                            };
                            let v = vec![
                                Action::Transmit(req),
                                Action::Schedule { delay: opts.reply_timeout, msg: again },
                            ];
                            assert(actions_view(v@) =~= seq![v@[0]@, v@[1]@]);
                            Step::Continue(v)
                        }
                    },
                    None => {
                        let v: Vec<Action<A, R>> = Vec::new();
                        assert(actions_view(v@) =~= Seq::<ActionView<A, R>>::empty());
                        Step::Continue(v)
                    },
                }
            },
            Msg::Stop => Step::Stop,
            Msg::Heartbeat => {
                let req = RelayConnectRequest::from(Heartbeat { seq: 0 });
                let v = vec![
                    Action::Transmit(req),
                    Action::Schedule { delay: opts.heartbeat, msg: Msg::Heartbeat },
                ];
                assert(actions_view(v@) =~= seq![v@[0]@, v@[1]@]);
                Step::Continue(v)
            },
        }
    }
}

/// What an item of the relay's stream means for the session.
#[derive(Debug)]
pub enum Incoming {
    /// The stream is over; the connection must be made again.
    StreamEnded,
    /// A response without a message: nothing to do.
    Nothing,
    /// A message for the actor.
    Message(RelayResponseMsg),
}

/// Reads an item of the relay's stream (`None` once the stream has ended).
pub fn incoming(item: Option<RelayConnectResponse>) -> (r: Incoming)
    ensures
        match item {
            None => r is StreamEnded,
            Some(resp) => match resp.msg {
                None => r is Nothing,
                Some(m) => r == Incoming::Message(m),
            },
        },
{
    match item {
        None => Incoming::StreamEnded,
        Some(resp) => match resp.msg {
            None => Incoming::Nothing,
            Some(m) => Incoming::Message(m),
        },
    }
}

/// What a message during the opening of a connection means.
#[derive(Debug)]
pub enum Handshake {
    /// The relay accepted the client: the connection is up.
    Established,
    /// The relay refused the client: the attempt failed.
    Rejected,
    /// A message that came before the answer: the actor handles it.
    Forward(RelayResponseMsg),
    /// A response without a message: keep waiting.
    Nothing,
}

/// Reads a message that arrives while the client waits for the relay's
/// answer to its `ConnectRequest`.
pub fn on_handshake(msg: Option<RelayResponseMsg>) -> (r: Handshake)
    ensures
        match msg {
            Some(RelayResponseMsg::ConnectResponse(c)) => if c.success {
                r is Established
            } else {
                r is Rejected
            },
            Some(m) => r == Handshake::Forward(m),
            None => r is Nothing,
        },
{
    match msg {
        Some(RelayResponseMsg::ConnectResponse(c)) => {
            if c.success {
                Handshake::Established
            } else {
                Handshake::Rejected
            }
        },
        Some(m) => Handshake::Forward(m),
        None => Handshake::Nothing,
    }
}

/// How a failed session ends.
#[derive(Debug)]
pub enum SessionEnd {
    /// The client asked to stop: the actor ends.
    Stop,
    /// The connection attempts are used up: the actor ends with the error.
    GiveUp,
    /// Connect again after this pause.
    RetryAfter(Duration),
}

/// The decision after a session that ended in an error, once `attempts`
/// connections were tried: stop on request, give up once the limit of
/// attempts is reached, else try again after the back-off.
pub open spec fn session_end(o: ClientOptsView, attempts: u64, stop_requested: bool) -> SessionEnd {
    if stop_requested {
        SessionEnd::Stop
    } else if amount_le(o.max_connection_attempts, attempts) {
        SessionEnd::GiveUp
    } else {
        SessionEnd::RetryAfter(o.connection_backoff)
    }
}

/// The count of connection attempts of an actor.
#[derive(Debug)]
pub struct Reconnection {
    pub attempts: u64,
}

impl Reconnection {
    /// No attempt yet.
    pub fn new() -> (r: Reconnection)
        ensures
            r.attempts == 0,
    {
        Reconnection { attempts: 0 }
    }

    /// Counts a new connection attempt.
    pub fn begin_attempt(&mut self)
        requires
            old(self).attempts < u64::MAX,
        ensures
            final(self).attempts == old(self).attempts + 1,
    {
        self.attempts = self.attempts + 1;
    }

    /// What to do after the current session ended in an error.
    pub fn after_failure(&self, opts: &ClientOpts, stop_requested: bool) -> (r: SessionEnd)
        ensures
            r == session_end(opts@, self.attempts, stop_requested),
    {
        if stop_requested {
            SessionEnd::Stop
        } else if opts.max_connection_attempts.at_most(self.attempts) {
            SessionEnd::GiveUp
        } else {
            SessionEnd::RetryAfter(opts.connection_backoff)
        }
    }
}

/// Waiting for an acknowledgement and then receiving it tells the waiting
/// sender, leaves the other pending messages as they were, and makes every
/// later retry timer of that message do nothing: an acknowledged message is
/// not sent again.
pub proof fn lemma_ack_releases_waiting_sender<A, R>(
    s: StateView<A, R>,
    o: ClientOptsView,
    m: SendMessageView,
    tx: A,
    seq: u64,
    budget: Amount,
)
    ensures
        ({
            let s1 = step(s, o, MsgView::WaitForAck { original_msg: m, ack_tx: tx, seq }).0;
            let (s2, r2) = step(s1, o, MsgView::RelayResponse(RelayResponseMsgView::Ack(Ack { seq })));
            &&& r2 == continue_with(seq![ActionView::<A, R>::Acknowledge(tx)])
            &&& s2.acks == s.acks.remove(seq)
            &&& s2.replies == s.replies
            &&& step(s2, o, MsgView::RetryAck { seq, retries_left: budget }) == (s2, continue_with(
                Seq::<ActionView<A, R>>::empty(),
            ))
        }),
{
    let s1 = step(s, o, MsgView::WaitForAck { original_msg: m, ack_tx: tx, seq }).0;
    assert(s1.acks.contains_key(seq));
    assert(s1.acks.remove(seq) =~= s.acks.remove(seq));
}

/// A message that stays unacknowledged is sent again exactly as often as its
/// budget allows: under a budget of `k`, the retry that has `j < k` retries
/// spent resends the same payload and arms the next retry with one retry
/// less, and the retry with all `k` spent gives up without sending.
pub proof fn lemma_retry_budget<A, R>(s: StateView<A, R>, o: ClientOptsView, seq: u64, k: u64, j: u64)
    requires
        s.acks.contains_key(seq),
        j <= k,
    ensures
        ({
            let here = step(s, o, MsgView::RetryAck { seq, retries_left: decremented_n(Amount::Val(k), j as nat) });
            &&& here.0 == s
            &&& j < k ==> here.1 == continue_with(
                seq![
                    ActionView::<A, R>::Transmit(payload_request(spec_relay_payload(o, s.acks[seq].0, seq))),
                    ActionView::Schedule {
                        delay: o.ack_timeout,
                        msg: MsgView::RetryAck { seq, retries_left: decremented_n(Amount::Val(k), (j + 1) as nat) },
                    },
                ],
            )
            &&& j == k ==> here.1 == continue_with(seq![ActionView::<A, R>::GiveUp { seq }])
        }),
{
    lemma_finite_budget_runs_out(k);
    assert(decremented_n(Amount::Val(k), (j + 1) as nat) == decremented(decremented_n(Amount::Val(k), j as nat)));
}

/// An at-most-once request is asked once: the retry that its wait arms has no
/// budget, so while the reply is missing it gives up without sending again.
pub proof fn lemma_at_most_once_ask_is_not_repeated<A, R>(
    s: StateView<A, R>,
    o: ClientOptsView,
    m: SendMessageView,
    tx: R,
    seq: u64,
)
    requires
        m.qos == QoS::AtMostOnce,
    ensures
        ({
            let (s1, r1) = step(s, o, MsgView::WaitForReply { original_msg: m, recv_msg_tx: tx, seq });
            let retry = MsgView::<A, R>::RetryAsk { from_client: m.target_id, seq, retries_left: Amount::Val(0) };
            &&& r1 == continue_with(seq![ActionView::Schedule { delay: o.reply_timeout, msg: retry }])
            &&& step(s1, o, retry) == (s1, continue_with(seq![ActionView::<A, R>::GiveUp { seq }]))
        }),
{
}

/// The reply to a request reaches the request that waits for it, and only
/// once: a payload from the asked client under the request's number goes to
/// the waiting channel instead of the client's inbox, and the request stops
/// waiting.
pub proof fn lemma_reply_reaches_asker<A, R>(
    s: StateView<A, R>,
    o: ClientOptsView,
    m: SendMessageView,
    tx: R,
    seq: u64,
    p: RelayPayloadView,
)
    requires
        p.src is Some,
        p.payload is Some,
        p.src->0.id == m.target_id,
        p.seq == seq,
    ensures
        ({
            let s1 = step(s, o, MsgView::WaitForReply { original_msg: m, recv_msg_tx: tx, seq }).0;
            let (s2, r2) = step(s1, o, MsgView::RelayResponse(RelayResponseMsgView::Payload(p)));
            let recv = RecvdRelayPayloadView { from: p.src->0, payload: p.payload->0.value, seq };
            &&& r2 == continue_with(seq![ActionView::<A, R>::Reply { to: tx, msg: recv }])
            &&& s2.replies == s.replies.remove((m.target_id, seq))
            &&& s2.acks == s.acks
        }),
{
    let s1 = step(s, o, MsgView::WaitForReply { original_msg: m, recv_msg_tx: tx, seq }).0;
    assert(s1.replies.remove((m.target_id, seq)) =~= s.replies.remove((m.target_id, seq)));
}

/// A payload that no request waits for goes to the client's inbox, and
/// nothing pending changes.
pub proof fn lemma_unsolicited_payload_reaches_client<A, R>(
    s: StateView<A, R>,
    o: ClientOptsView,
    p: RelayPayloadView,
)
    requires
        p.src is Some,
        p.payload is Some,
        !s.replies.contains_key((p.src->0.id, p.seq)),
    ensures
        step(s, o, MsgView::RelayResponse(RelayResponseMsgView::Payload(p))) == (
            s,
            continue_with(
                seq![
                    ActionView::<A, R>::Deliver(
                        RecvdRelayPayloadView { from: p.src->0, payload: p.payload->0.value, seq: p.seq },
                    ),
                ],
            ),
        ),
{
}

/// A stop request ends the actor and leaves its state as it was.
pub proof fn lemma_stop_ends_actor<A, R>(s: StateView<A, R>, o: ClientOptsView)
    ensures
        step(s, o, MsgView::<A, R>::Stop) == (s, StepView::<A, R>::Stop),
{
}

/// A client makes as many connection attempts as its limit allows: with a
/// limit of `k`, the sessions that end after attempts `1..k` are followed by
/// a new attempt after the back-off, and the one after attempt `k` (or after
/// the first, for a limit of zero) ends the actor. Without a limit it never
/// gives up. A stop request always ends it.
pub proof fn lemma_connection_attempts(o: ClientOptsView, n: u64)
    ensures
        o.max_connection_attempts == Amount::Infinite ==> session_end(o, n, false)
            == SessionEnd::RetryAfter(o.connection_backoff),
        o.max_connection_attempts matches Amount::Val(k) ==> (session_end(o, n, false)
            == SessionEnd::GiveUp <==> k <= n),
        o.max_connection_attempts matches Amount::Val(k) && n < k ==> session_end(o, n, false)
            == SessionEnd::RetryAfter(o.connection_backoff),
        session_end(o, n, true) == SessionEnd::Stop,
{
}


/// Waiting for an acknowledgement arms exactly one timer: after the ack
/// timeout, a retry of that very message whose budget is the client's
/// `max_message_attempts`. Nothing is sent yet.
pub proof fn lemma_wait_for_ack_arms_configured_retry<A, R>(
    s: StateView<A, R>,
    o: ClientOptsView,
    m: SendMessageView,
    tx: A,
    seq: u64,
)
    ensures
        ({
            let (s1, r1) = step(s, o, MsgView::WaitForAck { original_msg: m, ack_tx: tx, seq });
            &&& r1 matches StepView::Continue(acts)
            &&& acts.len() == 1
            &&& acts[0] matches ActionView::Schedule { delay, msg: MsgView::RetryAck { seq: q, retries_left } }
            &&& delay == o.ack_timeout
            &&& q == seq
            &&& retries_left == o.max_message_attempts
            &&& s1.acks.contains_key(seq)
            &&& s1.acks[seq] == (m, tx)
            &&& s1.replies == s.replies
        }),
{
}

/// Retries of a pending message count down: a retry with `b > 0` retries
/// left resends the message under its own number and arms the next retry
/// with `b - 1`; a retry with none left sends nothing and gives up. So a
/// message with a budget of `k` is resent exactly `k` times.
pub proof fn lemma_ack_retry_counts_down<A, R>(s: StateView<A, R>, o: ClientOptsView, seq: u64, b: u64)
    requires
        s.acks.contains_key(seq),
    ensures
        ({
            let (s1, r1) = step(s, o, MsgView::RetryAck { seq, retries_left: Amount::Val(b) });
            &&& s1 == s
            &&& b == 0 ==> r1 == continue_with(seq![ActionView::<A, R>::GiveUp { seq }])
            &&& b > 0 ==> {
                &&& r1 matches StepView::Continue(acts)
                &&& acts.len() == 2
                &&& acts[0] matches ActionView::Transmit(req)
                &&& req.msg matches Some(RelayRequestMsgView::Payload(p))
                &&& p.seq == seq
                &&& p.payload == Some(crate::messages::AnyView { type_url: Seq::empty(), value: s.acks[seq].0.data })
                &&& acts[1] matches ActionView::Schedule { delay, msg: MsgView::RetryAck { seq: q, retries_left } }
                &&& delay == o.ack_timeout
                &&& q == seq
                &&& retries_left == Amount::Val((b - 1) as u64)
            }
        }),
{
}

/// Waiting for a reply arms exactly one timer: after the reply timeout, a
/// retry of that ask from its target whose budget is the client's
/// `max_message_attempts` for an at-least-once message and zero for an
/// at-most-once one.
pub proof fn lemma_wait_for_reply_arms_configured_retry<A, R>(
    s: StateView<A, R>,
    o: ClientOptsView,
    m: SendMessageView,
    tx: R,
    seq: u64,
)
    ensures
        ({
            let (s1, r1) = step(s, o, MsgView::WaitForReply { original_msg: m, recv_msg_tx: tx, seq });
            &&& r1 matches StepView::Continue(acts)
            &&& acts.len() == 1
            &&& acts[0] matches ActionView::Schedule { delay, msg: MsgView::RetryAsk { from_client, seq: q, retries_left } }
            &&& delay == o.reply_timeout
            &&& from_client == m.target_id
            &&& q == seq
            &&& (m.qos == QoS::AtLeastOnce ==> retries_left == o.max_message_attempts)
            &&& (m.qos == QoS::AtMostOnce ==> retries_left == Amount::Val(0))
            &&& s1.replies.contains_key((m.target_id, seq))
            &&& s1.replies[(m.target_id, seq)] == (m, tx)
            &&& s1.acks == s.acks
        }),
{
}

/// Retries of a pending ask count down: a retry with `b > 0` retries left
/// resends the request under its own number and arms the next retry with
/// `b - 1`; a retry with none left sends nothing and gives up. So an ask
/// with a budget of `k` is resent exactly `k` times.
pub proof fn lemma_ask_retry_counts_down<A, R>(
    s: StateView<A, R>,
    o: ClientOptsView,
    from_client: Seq<char>,
    seq: u64,
    b: u64,
)
    requires
        s.replies.contains_key((from_client, seq)),
    ensures
        ({
            let (s1, r1) = step(s, o, MsgView::RetryAsk { from_client, seq, retries_left: Amount::Val(b) });
            &&& s1 == s
            &&& b == 0 ==> r1 == continue_with(seq![ActionView::<A, R>::GiveUp { seq }])
            &&& b > 0 ==> {
                &&& r1 matches StepView::Continue(acts)
                &&& acts.len() == 2
                &&& acts[0] matches ActionView::Transmit(req)
                &&& req.msg matches Some(RelayRequestMsgView::Payload(p))
                &&& p.seq == seq
                &&& p.payload == Some(crate::messages::AnyView { type_url: Seq::empty(), value: s.replies[(from_client, seq)].0.data })
                &&& acts[1] matches ActionView::Schedule { delay, msg: MsgView::RetryAsk { from_client: f, seq: q, retries_left } }
                &&& delay == o.reply_timeout
                &&& f == from_client
                &&& q == seq
                &&& retries_left == Amount::Val((b - 1) as u64)
            }
        }),
{
}


/// A heartbeat puts a heartbeat numbered 0 on the stream and re-arms itself
/// after the client's heartbeat period; nothing pending changes.
pub proof fn lemma_heartbeat_rearms<A, R>(s: StateView<A, R>, o: ClientOptsView)
    ensures
        ({
            let (s1, r1) = step(s, o, MsgView::<A, R>::Heartbeat);
            &&& s1 == s
            &&& r1 matches StepView::Continue(acts)
            &&& acts.len() == 2
            &&& acts[0] matches ActionView::Transmit(req)
            &&& req.msg == Some(RelayRequestMsgView::Heartbeat(Heartbeat { seq: 0 }))
            &&& acts[1] matches ActionView::Schedule { delay, msg: MsgView::Heartbeat }
            &&& delay == o.heartbeat
        }),
{
}

/// A request handed to the actor goes on the stream as it is, and nothing
/// pending changes.
pub proof fn lemma_send_transmits_request<A, R>(s: StateView<A, R>, o: ClientOptsView, req: RelayConnectRequestView)
    ensures
        ({
            let (s1, r1) = step(s, o, MsgView::<A, R>::Send(req));
            &&& s1 == s
            &&& r1 matches StepView::Continue(acts)
            &&& acts.len() == 1
            &&& acts[0] == ActionView::<A, R>::Transmit(req)
        }),
{
}

} // verus!
