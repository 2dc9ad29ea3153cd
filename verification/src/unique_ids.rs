//! The unique-id exercise: a node that mints cluster-wide unique identifiers
//! on request. An identifier is the pair of this node's id and a per-node
//! counter; node ids are unique within a run and the counter never repeats on
//! one node, so no two grants collide.

use crate::protocol::{Event, Init, Message, Node, NodeError};
use vstd::prelude::*;

verus! {

/// The payload of a unique-id wire message. A granted identifier is the pair
/// of the minting node (`node`) and that node's counter value (`seq`);
/// the wire encoding renders it as one string.
#[derive(Debug)]
pub enum UniqueIdsPayload {
    Generate,
    GenerateOk { node: String, seq: usize },
}

/// The unique-id node: its own identifier and the reply counter, which also
/// serves as the identifier counter.
pub struct UniqueIds {
    pub id: String,
    pub msg_id: usize,
}

impl Node<UniqueIdsPayload, ()> for UniqueIds {
    open spec fn inv(&self) -> bool {
        true
    }

    open spec fn ready(&self) -> bool {
        self.msg_id < usize::MAX
    }

    fn is_ready(&self) -> (r: bool)
        ensures
            r == self.ready(),
    {
        self.msg_id < usize::MAX
    }

    fn from_init(init: Init) -> (r: Result<Self, NodeError>)
        ensures
            r matches Ok(node) && node.id == init.id && node.msg_id == 1,
    {
        Ok(UniqueIds { id: init.id, msg_id: 1 })
    }

    fn handle(&mut self, event: Event<UniqueIdsPayload, ()>) -> (r: Result<
        Vec<Message<UniqueIdsPayload>>,
        NodeError,
    >)
        ensures
            final(self).id == old(self).id,
            match event {
                Event::Message(req) => match req.body.payload {
                    UniqueIdsPayload::Generate => {
                        &&& r matches Ok(out)
                        &&& out@.len() == 1
                        &&& out@[0].src == req.dest
                        &&& out@[0].dest == req.src
                        &&& out@[0].body.msg_id == Some(old(self).msg_id)
                        &&& out@[0].body.in_reply_to == req.body.msg_id
                        &&& out@[0].body.payload matches UniqueIdsPayload::GenerateOk {
                            node,
                            seq,
                        } && node == old(self).id && seq == old(self).msg_id
                        &&& final(self).msg_id == old(self).msg_id + 1
                    },
                    UniqueIdsPayload::GenerateOk { .. } => {
                        &&& r matches Err(e) && e == NodeError::Protocol
                        &&& *final(self) == *old(self)
                    },
                },
                Event::InjectedPayload(..) => {
                    &&& r matches Ok(out) && out@.len() == 0
                    &&& *final(self) == *old(self)
                },
            },
    {
        match event {
            Event::Message(input) => {
                match &input.body.payload {
                    UniqueIdsPayload::Generate => {
                    },
                    UniqueIdsPayload::GenerateOk { .. } => {
                        return Err(NodeError::Protocol);
                    },
                }
                let granted = UniqueIdsPayload::GenerateOk {
                    node: self.id.clone(),
                    seq: self.msg_id,
                };
                let reply = input.into_reply(granted, &mut self.msg_id);
                let mut out: Vec<Message<UniqueIdsPayload>> = Vec::new();
                out.push(reply);
                Ok(out)
            },
            Event::InjectedPayload(..) => Ok(Vec::new()),
        }
    }
}

} // verus!
