use std::collections::HashMap;
use vstd::prelude::*;

use crate::body::{Body, Payload};
use crate::ids::{compose_id, id_base, lemma_compose_id_decodes, spec_compose_id};
use crate::message::Message;

verus! {

broadcast use vstd::std_specs::hash::group_hash_axioms;

/// The name and the number of the node this transport speaks for.
pub struct NodeInfo {
    pub node: String,
    pub node_id: u32,
}

/// A message to send once, with no reply awaited.
#[derive(Debug, Clone, PartialEq, Eq)]
pub struct SendData {
    pub payload: Payload,
    pub dest: String,
    pub in_reply_to: Option<u64>,
}

/// A request whose reply is awaited: `reply_tx` is where the reply goes when it comes.
pub struct RPCData<R> {
    pub payload: Payload,
    pub dest: String,
    pub reply_tx: R,
}

/// What the node hands to its transport.
pub enum TransportPayload<R> {
    Init(String, u32),
    Send(SendData),
    RPC(RPCData<R>),
}

/// A message to write out; one that carries a request is to be resent until its reply comes.
pub struct Outgoing {
    pub message: Message,
    pub retry: bool,
}

/// Where a message read from the input goes.
pub enum Incoming<R> {
    /// The reply to a pending request, with the handle that awaits it.
    Reply(R, Message),
    /// A request for the node.
    ToNode(Message),
    /// A reply to nothing that is still pending (a late duplicate).
    Dropped,
}

/// The transport's state: who the node is, the last message counter it used, and the requests
/// whose replies are still awaited (and which it resends until they come).
pub struct Transport<R> {
    node_info: Option<NodeInfo>,
    last_message_id: u32,
    pending: HashMap<u64, R>,
}

impl<R> Transport<R> {
    /// Every pending request carries a counter that was already used, so a new id never meets
    /// one that is pending.
    pub closed spec fn wf(self) -> bool {
        forall|k: u64| #[trigger] self.pending@.contains_key(k) ==> (k as int) % id_base() <= self.last_message_id
    }

    pub closed spec fn is_initialized(self) -> bool {
        self.node_info is Some
    }

    pub closed spec fn node_name(self) -> Seq<char> {
        self.node_info->0.node@
    }

    pub closed spec fn node_id(self) -> u32 {
        self.node_info->0.node_id
    }

    pub closed spec fn last_message_id(self) -> u32 {
        self.last_message_id
    }

    pub closed spec fn pending(self) -> Map<u64, R> {
        self.pending@
    }

    /// A transport that knows no node yet and awaits nothing.
    pub fn new() -> (t: Self)
        ensures
            t.wf(),
            !t.is_initialized(),
            t.last_message_id() == 0,
            t.pending() == Map::<u64, R>::empty(),
    {
        Transport { node_info: None, last_message_id: 0, pending: HashMap::new() }
    }

    pub fn initialized(&self) -> (b: bool)
        ensures
            b == self.is_initialized(),
    {
        self.node_info.is_some()
    }

    pub fn counter_exhausted(&self) -> (b: bool)
        ensures
            b == (self.last_message_id() == u32::MAX),
    {
        self.last_message_id == u32::MAX
    }

    /// Records the node's name and number.
    pub fn init(&mut self, node: String, node_id: u32)
        requires
            old(self).wf(),
        ensures
            final(self).wf(),
            final(self).is_initialized(),
            final(self).node_name() == node@,
            final(self).node_id() == node_id,
            final(self).last_message_id() == old(self).last_message_id(),
            final(self).pending() == old(self).pending(),
    {
        self.node_info = Some(NodeInfo { node, node_id });
    }

    /// A fresh message id: the node's number in the high half, the next counter in the low half.
    pub fn generate(&mut self) -> (id: u64)
        requires
            old(self).wf(),
            old(self).is_initialized(),
            old(self).last_message_id() < u32::MAX,
        ensures
            final(self).wf(),
            final(self).last_message_id() == old(self).last_message_id() + 1,
            id == spec_compose_id(old(self).node_id(), final(self).last_message_id()),
            !old(self).pending().contains_key(id),
            final(self).is_initialized(),
            final(self).node_name() == old(self).node_name(),
            final(self).node_id() == old(self).node_id(),
            final(self).pending() == old(self).pending(),
    {
        let node_id = match &self.node_info {
            Some(info) => info.node_id,
            None => 0,
        };
        self.last_message_id = self.last_message_id + 1;
        let id = compose_id(node_id, self.last_message_id);
        proof {
            lemma_compose_id_decodes(node_id, self.last_message_id);
        }
        id
    }

    /// A message from this node to `dest` with the given body.
    pub fn message(&self, body: Body, dest: &str) -> (m: Message)
        requires
            self.is_initialized(),
        ensures
            m.src@ == self.node_name(),
            m.dest@ == dest@,
            m.body == body,
    {
        let src = match &self.node_info {
            Some(info) => info.node.clone(),
            None => String::new(),
        };
        Message { src, dest: dest.to_owned(), body }
    }

    /// The message that carries `data`, under a fresh id.
    pub fn send(&mut self, data: SendData) -> (m: Message)
        requires
            old(self).wf(),
            old(self).is_initialized(),
            old(self).last_message_id() < u32::MAX,
        ensures
            final(self).wf(),
            final(self).last_message_id() == old(self).last_message_id() + 1,
            m.body.msg_id == Some(
                spec_compose_id(old(self).node_id(), final(self).last_message_id()) as u64,
            ),
            m.body.in_reply_to == data.in_reply_to,
            m.body.payload == data.payload,
            m.src@ == old(self).node_name(),
            m.dest@ == data.dest@,
            final(self).is_initialized(),
            final(self).node_name() == old(self).node_name(),
            final(self).node_id() == old(self).node_id(),
            final(self).pending() == old(self).pending(),
    {
        let id = self.generate();
        let body = Body { msg_id: Some(id), in_reply_to: data.in_reply_to, payload: data.payload };
        self.message(body, data.dest.as_str())
    }

    /// The message that carries the request `data`, under a fresh id; its reply handle waits
    /// under that id until the reply comes.
    pub fn rpc(&mut self, data: RPCData<R>) -> (m: Message)
        requires
            old(self).wf(),
            old(self).is_initialized(),
            old(self).last_message_id() < u32::MAX,
        ensures
            final(self).wf(),
            final(self).last_message_id() == old(self).last_message_id() + 1,
            m.body.msg_id == Some(
                spec_compose_id(old(self).node_id(), final(self).last_message_id()) as u64,
            ),
            !old(self).pending().contains_key(m.body.msg_id->0),
            final(self).pending() == old(self).pending().insert(m.body.msg_id->0, data.reply_tx),
            m.body.in_reply_to is None,
            m.body.payload == data.payload,
            m.src@ == old(self).node_name(),
            m.dest@ == data.dest@,
            final(self).is_initialized(),
            final(self).node_name() == old(self).node_name(),
            final(self).node_id() == old(self).node_id(),
    {
        let msg_id = self.generate();
        let body = Body { msg_id: Some(msg_id), in_reply_to: None, payload: data.payload };
        proof {
            lemma_compose_id_decodes(self.node_id(), self.last_message_id);
        }
        self.pending.insert(msg_id, data.reply_tx);
        self.message(body, data.dest.as_str())
    }

    /// Whether a retry of `message` is still due: its reply has not come yet.
    pub fn should_retry(&self, message: &Message) -> (b: bool)
        ensures
            b == spec_should_retry(self.pending(), *message),
    {
        match message.body.msg_id {
            Some(id) => self.pending.contains_key(&id),
            None => false,
        }
    }

    /// Routes a message read from the input: a reply goes to the request that awaits it (and
    /// that request stops being pending), a reply to nothing pending is dropped, anything else
    /// goes to the node.
    pub fn on_input(&mut self, message: Message) -> (res: Incoming<R>)
        requires
            old(self).wf(),
        ensures
            final(self).wf(),
            res == spec_route_input(old(self).pending(), message),
            final(self).pending() == spec_pending_after_input(old(self).pending(), message),
            final(self).is_initialized() == old(self).is_initialized(),
            final(self).node_name() == old(self).node_name(),
            final(self).node_id() == old(self).node_id(),
            final(self).last_message_id() == old(self).last_message_id(),
    {
        match message.body.in_reply_to {
            Some(id) => match self.pending.remove(&id) {
                Some(reply_tx) => Incoming::Reply(reply_tx, message),
                None => Incoming::Dropped,
            },
            None => Incoming::ToNode(message),
        }
    }

    /// Acts on what the node hands over: an `Init` records who the node is and sends nothing;
    /// a `Send` or an `RPC` gives the message to write out, and an `RPC`'s is to be resent.
    pub fn handle(&mut self, payload: TransportPayload<R>) -> (out: Option<Outgoing>)
        requires
            old(self).wf(),
            !(payload is Init) ==> old(self).is_initialized() && old(self).last_message_id()
                < u32::MAX,
        ensures
            final(self).wf(),
            match payload {
                TransportPayload::Init(node, node_id) => {
                    &&& out is None
                    &&& final(self).is_initialized()
                    &&& final(self).node_name() == node@
                    &&& final(self).node_id() == node_id
                    &&& final(self).last_message_id() == old(self).last_message_id()
                    &&& final(self).pending() == old(self).pending()
                },
                TransportPayload::Send(data) => {
                    &&& out matches Some(Outgoing { message: m, retry: false })
                    &&& final(self).last_message_id() == old(self).last_message_id() + 1
                    &&& m.body.msg_id == Some(
                        spec_compose_id(old(self).node_id(), final(self).last_message_id()) as u64,
                    )
                    &&& m.body.in_reply_to == data.in_reply_to
                    &&& m.body.payload == data.payload
                    &&& m.src@ == old(self).node_name()
                    &&& m.dest@ == data.dest@
                    &&& final(self).pending() == old(self).pending()
                    &&& final(self).node_name() == old(self).node_name()
                    &&& final(self).node_id() == old(self).node_id()
                },
                TransportPayload::RPC(data) => {
                    &&& out matches Some(Outgoing { message: m, retry: true })
                    &&& final(self).last_message_id() == old(self).last_message_id() + 1
                    &&& m.body.msg_id == Some(
                        spec_compose_id(old(self).node_id(), final(self).last_message_id()) as u64,
                    )
                    &&& !old(self).pending().contains_key(m.body.msg_id->0)
                    &&& final(self).pending() == old(self).pending().insert(
                        m.body.msg_id->0,
                        data.reply_tx,
                    )
                    &&& m.body.in_reply_to is None
                    &&& m.body.payload == data.payload
                    &&& m.src@ == old(self).node_name()
                    &&& m.dest@ == data.dest@
                    &&& final(self).node_name() == old(self).node_name()
                    &&& final(self).node_id() == old(self).node_id()
                },
            },
    {
        match payload {
            TransportPayload::Init(node, node_id) => {
                self.init(node, node_id);
                None
            },
            TransportPayload::Send(data) => Some(Outgoing { message: self.send(data), retry: false }),
            TransportPayload::RPC(data) => Some(Outgoing { message: self.rpc(data), retry: true }),
        }
    }
}

/// A request is resent while its id is pending.
pub open spec fn spec_should_retry<R>(pending: Map<u64, R>, message: Message) -> bool {
    match message.body.msg_id {
        Some(id) => pending.contains_key(id),
        None => false,
    }
}

/// Where an input message goes, given the pending requests.
pub open spec fn spec_route_input<R>(pending: Map<u64, R>, message: Message) -> Incoming<R> {
    match message.body.in_reply_to {
        Some(id) => if pending.contains_key(id) {
            Incoming::Reply(pending[id], message)
        } else {
            Incoming::Dropped
        },
        None => Incoming::ToNode(message),
    }
}

/// The pending requests after an input message: a reply ends the request it answers.
pub open spec fn spec_pending_after_input<R>(pending: Map<u64, R>, message: Message) -> Map<
    u64,
    R,
> {
    match message.body.in_reply_to {
        Some(id) => pending.remove(id),
        None => pending,
    }
}

/// A request sent with `rpc` is resent until its reply comes; the reply goes to the request's
/// handle exactly once (a second copy of it is dropped); after it the request is resent no more,
/// and the requests still pending are those that were pending before the request was made.
pub proof fn lemma_reply_ends_request<R>(
    pending: Map<u64, R>,
    request: Message,
    reply_tx: R,
    reply: Message,
)
    requires
        request.body.msg_id is Some,
        !pending.contains_key(request.body.msg_id->0),
        reply.body.in_reply_to == request.body.msg_id,
    ensures
        ({
            let waiting = pending.insert(request.body.msg_id->0, reply_tx);
            let after = spec_pending_after_input(waiting, reply);
            &&& spec_should_retry(waiting, request)
            &&& spec_route_input(waiting, reply) == Incoming::Reply(reply_tx, reply)
            &&& !spec_should_retry(after, request)
            &&& spec_route_input(after, reply) == Incoming::<R>::Dropped
            &&& after == pending
        }),
{
    let waiting = pending.insert(request.body.msg_id->0, reply_tx);
    assert(waiting.remove(request.body.msg_id->0) =~= pending);
}

/// A message that answers nothing goes to the node and leaves the pending requests as they were.
pub proof fn lemma_requests_go_to_node<R>(pending: Map<u64, R>, message: Message)
    requires
        message.body.in_reply_to is None,
    ensures
        spec_route_input(pending, message) == Incoming::<R>::ToNode(message),
        spec_pending_after_input(pending, message) == pending,
{
}

} // verus!
