//! The echo exercise: a stateless request/response node that returns each
//! request's text unchanged. It carries no state across calls beyond the
//! reply counter.

use crate::protocol::{Event, Init, Message, Node, NodeError};
use vstd::prelude::*;

verus! {

/// The payload of an echo-protocol wire message.
#[derive(Debug)]
pub enum EchoPayload {
    Echo { echo: String },
    EchoOk { echo: String },
}

/// The echo node: only the reply counter.
pub struct Echo {
    pub msg_id: usize,
}

impl Node<EchoPayload, ()> for Echo {
    open spec fn inv(&self) -> bool {
        true
    }

    open spec fn ready(&self) -> bool {
        self.msg_id < usize::MAX
    }

    fn is_ready(&self) -> (r: bool)
        ensures
            r == self.ready(),
    {
        self.msg_id < usize::MAX
    }

    fn from_init(init: Init) -> (r: Result<Self, NodeError>)
        ensures
            r matches Ok(node) && node.msg_id == 1,
    {
        let _ = init;
        Ok(Echo { msg_id: 1 })
    }

    fn handle(&mut self, event: Event<EchoPayload, ()>) -> (r: Result<
        Vec<Message<EchoPayload>>,
        NodeError,
    >)
        ensures
            match event {
                Event::Message(req) => match req.body.payload {
                    EchoPayload::Echo { echo } => {
                        &&& r matches Ok(out)
                        &&& out@.len() == 1
                        &&& out@[0].src == req.dest
                        &&& out@[0].dest == req.src
                        &&& out@[0].body.msg_id == Some(old(self).msg_id)
                        &&& out@[0].body.in_reply_to == req.body.msg_id
                        &&& out@[0].body.payload matches EchoPayload::EchoOk { echo: e }
                            && e == echo
                        &&& final(self).msg_id == old(self).msg_id + 1
                    },
                    EchoPayload::EchoOk { .. } => {
                        &&& r matches Err(e) && e == NodeError::Protocol
                        &&& *final(self) == *old(self)
                    },
                },
                Event::InjectedPayload(..) => {
                    &&& r matches Ok(out) && out@.len() == 0
                    &&& *final(self) == *old(self)
                },
            },
    {
        match event {
            Event::Message(input) => {
                let text: String = match &input.body.payload {
                    EchoPayload::Echo { echo } => echo.clone(),
                    EchoPayload::EchoOk { .. } => {
                        return Err(NodeError::Protocol);
                    },
                };
                let reply = input.into_reply(EchoPayload::EchoOk { echo: text }, &mut self.msg_id);
                let mut out: Vec<Message<EchoPayload>> = Vec::new();
                out.push(reply);
                Ok(out)
            },
            Event::InjectedPayload(..) => Ok(Vec::new()),
        }
    }
}

} // verus!
