//! Wire-level message envelopes and the node abstraction.
//!
//! A [`Message`] is one point-to-point envelope: a sender, a destination, and
//! a [`Body`] carrying an optional request identifier, an optional correlated
//! reply identifier, and a type-tagged payload. A [`Node`] consumes one
//! [`Event`] at a time — either an inbound message or an internally injected
//! payload such as a timer tick — and returns the envelopes to send.

use vstd::prelude::*;

verus! {

/// One wire envelope: sender id, destination id, and a body with payload `P`.
#[derive(Debug)]
pub struct Message<P> {
    pub src: String,
    pub dest: String,
    pub body: Body<P>,
}

/// The body of a [`Message`]: an optional request identifier (`msg_id`), the
/// identifier of the request this message replies to (`in_reply_to`), and the
/// type-tagged payload.
#[derive(Debug)]
pub struct Body<P> {
    pub msg_id: Option<usize>,
    pub in_reply_to: Option<usize>,
    pub payload: P,
}

/// One unit of work for a node: an inbound message carrying payload `P`, or a
/// payload `IP` injected by a local source (for example a periodic timer).
pub enum Event<P, IP> {
    Message(Message<P>),
    InjectedPayload(IP),
}

/// What a node learns from the one-time initialization handshake: its own
/// identifier and the identifiers of every cluster member.
#[derive(Debug)]
pub struct Init {
    pub id: String,
    pub node_ids: Vec<String>,
}

/// The payload of the one-time initialization handshake.
#[derive(Debug)]
pub enum InitPayload {
    Init { node_id: String, node_ids: Vec<String> },
    InitOk { msg_id: usize },
}

/// How a node classifies an event it cannot handle.
///
/// `Config` is fatal: the node's configuration is missing or inconsistent, so
/// further progress is meaningless. `Protocol` is recoverable: a peer sent a
/// message that violates the protocol's roles; the event is skipped and the
/// node continues.
#[derive(Debug, PartialEq, Eq, Structural, Clone, Copy)]
pub enum NodeError {
    Config,
    Protocol,
}

impl<P> Message<P> {
    /// Turns a request into its reply: source and destination are swapped,
    /// the reply is correlated to the request's `msg_id`, carries the given
    /// payload, and takes the next message identifier from `msg_id`.
    pub fn into_reply(self, payload: P, msg_id: &mut usize) -> (r: Message<P>)
        requires
            *old(msg_id) < usize::MAX,
        ensures
            r.src == self.dest,
            r.dest == self.src,
            r.body.msg_id == Some(*old(msg_id)),
            r.body.in_reply_to == self.body.msg_id,
            r.body.payload == payload,
            *final(msg_id) == *old(msg_id) + 1,
    {
        let old_mid: usize = *msg_id;
        *msg_id = old_mid + 1;
        Message {
            src: self.dest,
            dest: self.src,
            body: Body { msg_id: Some(old_mid), in_reply_to: self.body.msg_id, payload },
        }
    }
}

impl Init {
    /// Decides the initialization handshake: a well-formed request yields the
    /// node's identity plus the acknowledgment to send (stamped with message
    /// identifier `0`); anything else — a reply-role payload, or a request
    /// without a message identifier to acknowledge — is a protocol error.
    pub fn from_message(msg: Message<InitPayload>) -> (r: Result<
        (Init, Message<InitPayload>),
        NodeError,
    >)
        ensures
            match msg.body.payload {
                InitPayload::Init { node_id, node_ids } => if msg.body.msg_id is Some {
                    &&& r matches Ok(pair)
                    &&& pair.0.id == node_id
                    &&& pair.0.node_ids == node_ids
                    &&& pair.1.src == msg.dest
                    &&& pair.1.dest == msg.src
                    &&& pair.1.body.msg_id == Some(0usize)
                    &&& pair.1.body.in_reply_to == msg.body.msg_id
                    &&& pair.1.body.payload matches InitPayload::InitOk { msg_id } && Some(
                        msg_id,
                    ) == msg.body.msg_id
                } else {
                    r matches Err(e) && e == NodeError::Protocol
                },
                InitPayload::InitOk { .. } => r matches Err(e) && e == NodeError::Protocol,
            },
    {
        let Message { src, dest, body } = msg;
        let Body { msg_id: req_id, in_reply_to: _, payload } = body;
        match payload {
            InitPayload::Init { node_id, node_ids } => {
                let rid: usize = match req_id {
                    Some(x) => x,
                    None => {
                        return Err(NodeError::Protocol);
                    },
                };
                let init = Init { id: node_id, node_ids };
                let reply = Message {
                    src: dest,
                    dest: src,
                    body: Body {
                        msg_id: Some(0),
                        in_reply_to: Some(rid),
                        payload: InitPayload::InitOk { msg_id: rid },
                    },
                };
                Ok((init, reply))
            },
            InitPayload::InitOk { .. } => Err(NodeError::Protocol),
        }
    }
}

/// A state machine driven by a serialized stream of events. The runtime
/// constructs it from the initialization handshake, then hands it one event
/// at a time; each call returns the messages to send, and the implementation
/// classifies unusable events through [`NodeError`].
pub trait Node<P, IP>: Sized {
    /// The well-formedness condition that `from_init` establishes and
    /// `handle` preserves.
    spec fn inv(&self) -> bool;

    /// What a caller must additionally guarantee before handing over an
    /// event: headroom in the reply counter. Unlike [`Node::inv`] it is not
    /// preserved forever, so a driver tests it with [`Node::is_ready`]
    /// before each call.
    spec fn ready(&self) -> bool;

    /// Whether the node can take another event (see [`Node::ready`]).
    fn is_ready(&self) -> (r: bool)
        ensures
            r == self.ready(),
    ;

    /// Builds the node's initial state from the handshake result.
    fn from_init(init: Init) -> (r: Result<Self, NodeError>)
        ensures
            r matches Ok(node) ==> node.inv(),
    ;

    /// Processes one event and returns the messages to send in response.
    fn handle(&mut self, event: Event<P, IP>) -> (r: Result<Vec<Message<P>>, NodeError>)
        requires
            old(self).inv(),
            old(self).ready(),
        ensures
            final(self).inv(),
    ;
}

} // verus!
