//! The broadcast / gossip engine.
//!
//! A [`Broadcast`] node owns the disseminated [`ValueSet`], the neighbor
//! topology, and a per-neighbor estimate of which values each neighbor
//! already holds. It answers client injections and snapshot reads, merges
//! inbound peer gossip (a union-semilattice operation), and on each timer
//! tick sends every neighbor exactly the values not yet believed known to
//! that neighbor.
//!
//! The knowledge estimate is a heuristic lower bound derived from gossip this
//! node *receives* (a sender evidently holds the values it sends); it is
//! never treated as an acknowledgment of this node's own sends, and it is
//! deliberately not updated at send time. It only suppresses redundant
//! retransmission and never decides correctness.

use crate::protocol::{Body, Event, Init, Message, Node, NodeError};
use crate::values::ValueSet;
use vstd::prelude::*;

verus! {

/// One entry of the cluster topology: a node and its ordered neighbor list.
#[derive(Debug)]
pub struct TopologyEntry {
    pub node: String,
    pub neighbors: Vec<String>,
}

/// What this node believes one neighbor already holds.
pub struct KnowledgeEntry {
    pub node: String,
    pub values: ValueSet,
}

/// The payload of a broadcast-protocol wire message.
#[derive(Debug)]
pub enum BroadcastPayload {
    Broadcast { message: usize },
    BroadcastOk,
    Read,
    ReadOk { messages: Vec<usize> },
    Topology { topology: Vec<TopologyEntry> },
    TopologyOk,
    Gossip { messages: Vec<usize> },
}

/// A payload injected locally rather than received from a peer: the periodic
/// anti-entropy timer tick.
pub enum InjectedBroadcastPayload {
    Gossip,
}

/// The neighbor list of `node` in `entries`, taking the first entry whose
/// key matches; `None` when no entry matches.
pub open spec fn lookup_spec(entries: Seq<TopologyEntry>, node: Seq<char>) -> Option<Seq<String>>
    decreases entries.len(),
{
    if entries.len() == 0 {
        None
    } else if entries.first().node@ == node {
        Some(entries.first().neighbors@)
    } else {
        lookup_spec(entries.drop_first(), node)
    }
}

/// Whether `node` occurs in the list `nodes`.
pub open spec fn contains_node(nodes: Seq<String>, node: Seq<char>) -> bool {
    exists|i: int| 0 <= i < nodes.len() && nodes[i]@ == node
}

/// A topology is usable by the node `id` when it has an entry for `id` and
/// every listed neighbor of `id` is itself a key of the mapping.
pub open spec fn topology_valid(entries: Seq<TopologyEntry>, id: Seq<char>) -> bool {
    match lookup_spec(entries, id) {
        Some(nbrs) => forall|j: int|
            0 <= j < nbrs.len() ==> lookup_spec(entries, nbrs[j]@) is Some,
        None => false,
    }
}

/// Whether the knowledge table has an entry for neighbor `n`.
pub open spec fn has_known(known: Seq<KnowledgeEntry>, n: Seq<char>) -> bool {
    exists|i: int| 0 <= i < known.len() && known[i].node@ == n
}

/// The index of neighbor `n`'s knowledge entry (unique under [`Broadcast::wf`]).
pub open spec fn known_index(known: Seq<KnowledgeEntry>, n: Seq<char>) -> int {
    choose|i: int| 0 <= i < known.len() && known[i].node@ == n
}

/// The knowledge table holds each neighbor at most once.
pub open spec fn known_keys_unique(known: Seq<KnowledgeEntry>) -> bool {
    forall|i: int, j: int|
        0 <= i < j < known.len() ==> known[i].node@ != known[j].node@
}

/// The values this node believes neighbor `n` already holds; empty when the
/// table has no entry for `n`.
pub open spec fn knows(known: Seq<KnowledgeEntry>, n: Seq<char>) -> Set<usize> {
    if has_known(known, n) {
        known[known_index(known, n)].values@
    } else {
        Set::empty()
    }
}

/// With unique keys, the entry found at index `i` is the entry [`knows`]
/// speaks of.
pub proof fn lemma_knows_at(known: Seq<KnowledgeEntry>, i: int)
    requires
        known_keys_unique(known),
        0 <= i < known.len(),
    ensures
        knows(known, known[i].node@) == known[i].values@,
{
    let n = known[i].node@;
    assert(has_known(known, n));
    let j = known_index(known, n);
    assert(0 <= j < known.len() && known[j].node@ == n);
    if i != j {
        assert(known[i].node@ != known[j].node@);
        assert(false);
    }
}

/// A first-match index search witnesses the value of [`lookup_spec`].
pub proof fn lemma_lookup_spec_at(entries: Seq<TopologyEntry>, n: Seq<char>, i: int)
    requires
        0 <= i < entries.len(),
        entries[i].node@ == n,
        forall|j: int| 0 <= j < i ==> entries[j].node@ != n,
    ensures
        lookup_spec(entries, n) == Some(entries[i].neighbors@),
    decreases i,
{
    if i == 0 {
    } else {
        assert(entries.first().node@ != n);
        let rest = entries.drop_first();
        assert forall|j: int| 0 <= j < i - 1 implies rest[j].node@ != n by {
            assert(rest[j] == entries[j + 1]);
        }
        assert(rest[i - 1] == entries[i]);
        lemma_lookup_spec_at(rest, n, i - 1);
    }
}

/// When no entry's key matches, [`lookup_spec`] finds nothing.
pub proof fn lemma_lookup_spec_none(entries: Seq<TopologyEntry>, n: Seq<char>)
    requires
        forall|j: int| 0 <= j < entries.len() ==> entries[j].node@ != n,
    ensures
        lookup_spec(entries, n) is None,
    decreases entries.len(),
{
    if entries.len() == 0 {
    } else {
        let rest = entries.drop_first();
        assert forall|j: int| 0 <= j < rest.len() implies rest[j].node@ != n by {
            assert(rest[j] == entries[j + 1]);
        }
        lemma_lookup_spec_none(rest, n);
    }
}

/// The index of the first topology entry whose key is `node`.
pub fn find_topology(entries: &Vec<TopologyEntry>, node: &String) -> (r: Option<usize>)
    ensures
        match r {
            Some(i) => 0 <= i < entries@.len() && entries@[i as int].node@ == node@
                && (forall|j: int| 0 <= j < i ==> entries@[j].node@ != node@),
            None => forall|j: int| 0 <= j < entries@.len() ==> entries@[j].node@ != node@,
        },
{
    let n: usize = entries.len();
    let mut i: usize = 0;
    while i < n
        invariant
            n == entries@.len(),
            0 <= i <= n,
            forall|j: int| 0 <= j < i ==> entries@[j].node@ != node@,
        decreases n - i,
    {
        let e = &entries[i];
        if e.node == *node {
            return Some(i);
        }
        i = i + 1;
    }
    None
}

/// The broadcast node: the value set, the topology supplied by the cluster,
/// and the per-neighbor knowledge estimate.
pub struct Broadcast {
    pub id: String,
    pub msg_id: usize,
    pub messages: ValueSet,
    pub topology: Vec<TopologyEntry>,
    pub known: Vec<KnowledgeEntry>,
}

impl Broadcast {
    /// This node's own neighbor list under the current topology.
    pub open spec fn neighbors(self) -> Option<Seq<String>> {
        lookup_spec(self.topology@, self.id@)
    }

    /// The node's well-formedness: the value set and every knowledge entry
    /// are duplicate-free, knowledge keys are unique, and knowledge entries
    /// exist exactly for the neighbors of the current topology (none at all
    /// while no usable topology has been supplied).
    pub open spec fn wf(self) -> bool {
        &&& self.messages.wf()
        &&& forall|i: int|
            0 <= i < self.known@.len() ==> (#[trigger] self.known@[i]).values.wf()
        &&& known_keys_unique(self.known@)
        &&& match self.neighbors() {
            Some(nbrs) => forall|k: Seq<char>|
                #[trigger] has_known(self.known@, k) <==> contains_node(nbrs, k),
            None => self.known@.len() == 0,
        }
    }
}

/// A client injected `value`: it joins the value set; topology and knowledge
/// are untouched; one reply is issued.
pub open spec fn inject_step(pre: Broadcast, post: Broadcast, value: usize) -> bool {
    &&& post.messages@ == pre.messages@.insert(value)
    &&& post.id == pre.id
    &&& post.topology@ == pre.topology@
    &&& post.known@ == pre.known@
    &&& post.msg_id == pre.msg_id + 1
}

/// A snapshot read returning `result`: pure but for the reply counter.
pub open spec fn read_step(pre: Broadcast, post: Broadcast, result: Set<usize>) -> bool {
    &&& result == pre.messages@
    &&& post.messages@ == pre.messages@
    &&& post.id == pre.id
    &&& post.topology@ == pre.topology@
    &&& post.known@ == pre.known@
    &&& post.msg_id == pre.msg_id + 1
}

/// Peer `sender` gossiped the set `incoming`: the values are merged into the
/// value set, and — since the sender evidently holds them — recorded into the
/// sender's knowledge entry, if it has one. No other entry changes.
pub open spec fn gossip_step(
    pre: Broadcast,
    post: Broadcast,
    sender: Seq<char>,
    incoming: Set<usize>,
) -> bool {
    &&& post.messages@ == pre.messages@.union(incoming)
    &&& post.id == pre.id
    &&& post.topology@ == pre.topology@
    &&& post.msg_id == pre.msg_id
    &&& post.known@.len() == pre.known@.len()
    &&& forall|i: int|
        0 <= i < pre.known@.len() ==> (#[trigger] post.known@[i]).node@ == pre.known@[i].node@
    &&& forall|i: int|
        0 <= i < pre.known@.len() && pre.known@[i].node@ != sender
            ==> (#[trigger] post.known@[i]).values@ == pre.known@[i].values@
    &&& forall|i: int|
        0 <= i < pre.known@.len() && pre.known@[i].node@ == sender
            ==> (#[trigger] post.known@[i]).values@ == pre.known@[i].values@.union(incoming)
}

/// A valid topology replaced the stored one in full, and the knowledge table
/// was re-initialized: one empty entry per distinct neighbor now listed for
/// this node, entries for all other nodes dropped.
pub open spec fn topology_step(pre: Broadcast, post: Broadcast, entries: Seq<TopologyEntry>) -> bool {
    &&& topology_valid(entries, pre.id@)
    &&& post.topology@ == entries
    &&& post.messages@ == pre.messages@
    &&& post.id == pre.id
    &&& post.msg_id == pre.msg_id + 1
    &&& forall|i: int|
        0 <= i < post.known@.len() ==> (#[trigger] post.known@[i]).values@ == Set::<usize>::empty()
    &&& match lookup_spec(entries, pre.id@) {
        Some(nbrs) => forall|k: Seq<char>|
            #[trigger] has_known(post.known@, k) <==> contains_node(nbrs, k),
        None => false,
    }
}

/// The delta this node would gossip to neighbor `n`: every value it holds
/// that it does not believe `n` to hold.
pub open spec fn delta_for(pre: Broadcast, n: Seq<char>) -> Set<usize> {
    pre.messages@.difference(knows(pre.known@, n))
}

/// The gossip fanout of one tick over the neighbor list `nbrs`, in order:
/// one `(destination, delta)` pair per neighbor whose delta is non-empty.
pub open spec fn fanout_plan(pre: Broadcast, nbrs: Seq<String>) -> Seq<(Seq<char>, Set<usize>)>
    decreases nbrs.len(),
{
    if nbrs.len() == 0 {
        Seq::empty()
    } else {
        let rest = fanout_plan(pre, nbrs.drop_last());
        let d = delta_for(pre, nbrs.last()@);
        if d.is_empty() {
            rest
        } else {
            rest.push((nbrs.last()@, d))
        }
    }
}

/// `m` is the gossip envelope planned as `plan`: sent by `src`, addressed to
/// `plan.0`, uncorrelated, carrying exactly the set `plan.1`.
pub open spec fn gossip_msg_ok(
    m: Message<BroadcastPayload>,
    src: Seq<char>,
    plan: (Seq<char>, Set<usize>),
) -> bool {
    &&& m.src@ == src
    &&& m.dest@ == plan.0
    &&& m.body.msg_id is None
    &&& m.body.in_reply_to is None
    &&& m.body.payload matches BroadcastPayload::Gossip { messages }
        && messages@.to_set() == plan.1 && messages@.no_duplicates()
}

/// `m` is a reply to `req`: directions swapped, correlated to the request's
/// identifier, stamped with the fresh identifier `mid`.
pub open spec fn reply_envelope<P>(m: Message<P>, req: Message<P>, mid: usize) -> bool {
    &&& m.src == req.dest
    &&& m.dest == req.src
    &&& m.body.msg_id == Some(mid)
    &&& m.body.in_reply_to == req.body.msg_id
}

/// The index of the first knowledge entry whose key is `node`.
pub fn find_known(known: &Vec<KnowledgeEntry>, node: &String) -> (r: Option<usize>)
    ensures
        match r {
            Some(i) => 0 <= i < known@.len() && known@[i as int].node@ == node@
                && (forall|j: int| 0 <= j < i ==> known@[j].node@ != node@),
            None => forall|j: int| 0 <= j < known@.len() ==> known@[j].node@ != node@,
        },
{
    let n: usize = known.len();
    let mut i: usize = 0;
    while i < n
        invariant
            n == known@.len(),
            0 <= i <= n,
            forall|j: int| 0 <= j < i ==> known@[j].node@ != node@,
        decreases n - i,
    {
        let e = &known[i];
        if e.node == *node {
            return Some(i);
        }
        i = i + 1;
    }
    None
}

impl Node<BroadcastPayload, InjectedBroadcastPayload> for Broadcast {
    open spec fn inv(&self) -> bool {
        self.wf()
    }

    open spec fn ready(&self) -> bool {
        self.msg_id < usize::MAX
    }

    fn is_ready(&self) -> (r: bool)
        ensures
            r == self.ready(),
    {
        self.msg_id < usize::MAX
    }

    fn from_init(init: Init) -> (r: Result<Self, NodeError>)
        ensures
            r matches Ok(node) && node.id == init.id && node.msg_id == 1
                && node.messages@ == Set::<usize>::empty()
                && node.topology@ == Seq::<TopologyEntry>::empty()
                && node.known@ == Seq::<KnowledgeEntry>::empty(),
    {
        let node = Broadcast {
            id: init.id,
            msg_id: 1,
            messages: ValueSet::new(),
            topology: Vec::new(),
            known: Vec::new(),
        };
        Ok(node)
    }

    #[verifier::loop_isolation(false)]
    fn handle(&mut self, event: Event<BroadcastPayload, InjectedBroadcastPayload>) -> (r: Result<
        Vec<Message<BroadcastPayload>>,
        NodeError,
    >)
        ensures
            old(self).messages@.subset_of(final(self).messages@),
            final(self).id == old(self).id,
            match event {
                Event::Message(req) => match req.body.payload {
                    BroadcastPayload::Broadcast { message } => {
                        &&& r matches Ok(out)
                        &&& inject_step(*old(self), *final(self), message)
                        &&& out@.len() == 1
                        &&& reply_envelope(out@[0], req, old(self).msg_id)
                        &&& out@[0].body.payload is BroadcastOk
                    },
                    BroadcastPayload::Read => {
                        &&& r matches Ok(out)
                        &&& out@.len() == 1
                        &&& reply_envelope(out@[0], req, old(self).msg_id)
                        &&& out@[0].body.payload matches BroadcastPayload::ReadOk { messages }
                            && read_step(*old(self), *final(self), messages@.to_set())
                            && messages@.no_duplicates()
                    },
                    BroadcastPayload::Topology { topology } => {
                        if topology_valid(topology@, old(self).id@) {
                            &&& r matches Ok(out)
                            &&& topology_step(*old(self), *final(self), topology@)
                            &&& out@.len() == 1
                            &&& reply_envelope(out@[0], req, old(self).msg_id)
                            &&& out@[0].body.payload is TopologyOk
                        } else {
                            &&& r matches Err(e) && e == NodeError::Config
                            &&& *final(self) == *old(self)
                        }
                    },
                    BroadcastPayload::Gossip { messages } => {
                        &&& r matches Ok(out) && out@.len() == 0
                        &&& gossip_step(*old(self), *final(self), req.src@, messages@.to_set())
                    },
                    BroadcastPayload::BroadcastOk => {
                        &&& r matches Err(e) && e == NodeError::Protocol
                        &&& *final(self) == *old(self)
                    },
                    BroadcastPayload::ReadOk { .. } => {
                        &&& r matches Err(e) && e == NodeError::Protocol
                        &&& *final(self) == *old(self)
                    },
                    BroadcastPayload::TopologyOk => {
                        &&& r matches Err(e) && e == NodeError::Protocol
                        &&& *final(self) == *old(self)
                    },
                },
                Event::InjectedPayload(InjectedBroadcastPayload::Gossip) => match old(self).neighbors() {
                    Some(nbrs) => {
                        &&& *final(self) == *old(self)
                        &&& r matches Ok(out)
                        &&& out@.len() == fanout_plan(*old(self), nbrs).len()
                        &&& forall|p: int|
                            0 <= p < out@.len() ==> gossip_msg_ok(
                                #[trigger] out@[p],
                                old(self).id@,
                                fanout_plan(*old(self), nbrs)[p],
                            )
                    },
                    None => {
                        &&& r matches Err(e) && e == NodeError::Config
                        &&& *final(self) == *old(self)
                    },
                },
            },
    {
        match event {
            Event::Message(input) => {
                let Message { src, dest, body } = input;
                let Body { msg_id: req_id, in_reply_to: _, payload } = body;
                match payload {
                    BroadcastPayload::Broadcast { message } => {
                        self.messages.insert(message);
                        let mid: usize = self.msg_id;
                        self.msg_id = mid + 1;
                        let reply = Message {
                            src: dest,
                            dest: src,
                            body: Body {
                                msg_id: Some(mid),
                                in_reply_to: req_id,
                                payload: BroadcastPayload::BroadcastOk,
                            },
                        };
                        let mut out: Vec<Message<BroadcastPayload>> = Vec::new();
                        out.push(reply);
                        Ok(out)
                    },
                    BroadcastPayload::Read => {
                        let vals = self.messages.to_vec();
                        let mid: usize = self.msg_id;
                        self.msg_id = mid + 1;
                        let reply = Message {
                            src: dest,
                            dest: src,
                            body: Body {
                                msg_id: Some(mid),
                                in_reply_to: req_id,
                                payload: BroadcastPayload::ReadOk { messages: vals },
                            },
                        };
                        let mut out: Vec<Message<BroadcastPayload>> = Vec::new();
                        out.push(reply);
                        Ok(out)
                    },
                    BroadcastPayload::Topology { topology: new_top } => {
                        self.accept_topology(new_top, src, dest, req_id)
                    },
                    BroadcastPayload::Gossip { messages: incoming } => {
                        self.merge_gossip(&src, &incoming);
                        Ok(Vec::new())
                    },
                    BroadcastPayload::BroadcastOk => Err(NodeError::Protocol),
                    BroadcastPayload::ReadOk { .. } => Err(NodeError::Protocol),
                    BroadcastPayload::TopologyOk => Err(NodeError::Protocol),
                }
            },
            Event::InjectedPayload(InjectedBroadcastPayload::Gossip) => self.gossip_tick(),
        }
    }
}

impl Broadcast {
    /// Merges gossip received from `sender` into the value set and, when the
    /// sender is a known neighbor, records the received values as known to it
    /// — the sender evidently holds what it sends, so those values need not
    /// be gossiped back on the next tick.
    pub fn merge_gossip(&mut self, sender: &String, incoming: &Vec<usize>)
        requires
            old(self).wf(),
        ensures
            final(self).wf(),
            gossip_step(*old(self), *final(self), sender@, incoming@.to_set()),
    {
        self.messages.insert_all(incoming);
        match find_known(&self.known, sender) {
            Some(i) => {
                let ghost pre_known = self.known@;
                let mut entry = self.known.remove(i);
                entry.values.insert_all(incoming);
                self.known.insert(i, entry);
                proof {
                    assert(self.known@ =~= pre_known.update(i as int, self.known@[i as int]));
                    assert forall|j: int|
                        0 <= j < pre_known.len() && pre_known[j].node@ == sender@
                        implies j == i by {
                        if j != i {
                            assert(pre_known[i as int].node@ == sender@);
                        }
                    }
                    assert forall|k: Seq<char>|
                        #[trigger] has_known(self.known@, k) == has_known(pre_known, k) by {
                        if has_known(self.known@, k) {
                            let q = choose|q: int|
                                0 <= q < self.known@.len() && #[trigger] self.known@[q].node@
                                    == k;
                            assert(pre_known[q].node@ == k);
                        }
                        if has_known(pre_known, k) {
                            let q = choose|q: int|
                                0 <= q < pre_known.len() && #[trigger] pre_known[q].node@ == k;
                            assert(self.known@[q].node@ == k);
                        }
                    }
                }
            },
            None => {
            },
        }
    }

    /// Computes this tick's anti-entropy fanout: for every neighbor in this
    /// node's topology entry, in order, a gossip message carrying exactly the
    /// values not yet believed known to that neighbor; neighbors with an
    /// empty delta get no message. Knowledge is deliberately not updated at
    /// send time. Fails with a configuration error when the topology has no
    /// entry for this node.
    #[verifier::loop_isolation(false)]
    pub fn gossip_tick(&self) -> (r: Result<Vec<Message<BroadcastPayload>>, NodeError>)
        requires
            self.wf(),
        ensures
            match self.neighbors() {
                Some(nbrs) => {
                    &&& r matches Ok(out)
                    &&& out@.len() == fanout_plan(*self, nbrs).len()
                    &&& forall|p: int|
                        0 <= p < out@.len() ==> gossip_msg_ok(
                            #[trigger] out@[p],
                            self.id@,
                            fanout_plan(*self, nbrs)[p],
                        )
                },
                None => r matches Err(e) && e == NodeError::Config,
            },
    {
        let own: usize = match find_topology(&self.topology, &self.id) {
            Some(ti) => ti,
            None => {
                proof {
                    lemma_lookup_spec_none(self.topology@, self.id@);
                }
                return Err(NodeError::Config);
            },
        };
        proof {
            lemma_lookup_spec_at(self.topology@, self.id@, own as int);
        }
        let entry = &self.topology[own];
        let n: usize = entry.neighbors.len();
        let mut out: Vec<Message<BroadcastPayload>> = Vec::new();
        let mut k: usize = 0;
        while k < n
            invariant
                0 <= k <= n,
                out@.len() == fanout_plan(*self, entry.neighbors@.take(k as int)).len(),
                forall|p: int|
                    0 <= p < out@.len() ==> gossip_msg_ok(
                        #[trigger] out@[p],
                        self.id@,
                        fanout_plan(*self, entry.neighbors@.take(k as int))[p],
                    ),
            decreases n - k,
        {
            let nbr: &String = &entry.neighbors[k];
            let delta: Vec<usize> = match find_known(&self.known, nbr) {
                Some(i) => {
                    proof {
                        lemma_knows_at(self.known@, i as int);
                    }
                    let ke = &self.known[i];
                    self.messages.difference(&ke.values)
                },
                None => {
                    proof {
                        assert(self.messages@.difference(knows(self.known@, nbr@))
                            =~= self.messages@);
                    }
                    self.messages.to_vec()
                },
            };
            proof {
                entry.neighbors@.lemma_take_succ_push(k as int);
                assert(entry.neighbors@.take(k + 1).drop_last() =~= entry.neighbors@.take(
                    k as int,
                ));
                assert(entry.neighbors@.take(k + 1).last() == entry.neighbors@[k as int]);
            }
            if delta.len() > 0 {
                proof {
                    assert(delta@.to_set().contains(delta@[0]));
                    assert(!delta_for(*self, nbr@).is_empty());
                }
                let msg = Message {
                    src: self.id.clone(),
                    dest: nbr.clone(),
                    body: Body {
                        msg_id: None,
                        in_reply_to: None,
                        payload: BroadcastPayload::Gossip { messages: delta },
                    },
                };
                out.push(msg);
                proof {
                    assert(fanout_plan(*self, entry.neighbors@.take(k + 1)) == fanout_plan(
                        *self,
                        entry.neighbors@.take(k as int),
                    ).push((nbr@, delta_for(*self, nbr@))));
                }
            } else {
                proof {
                    assert(delta_for(*self, nbr@) =~= Set::<usize>::empty());
                    assert(fanout_plan(*self, entry.neighbors@.take(k + 1)) == fanout_plan(
                        *self,
                        entry.neighbors@.take(k as int),
                    ));
                }
            }
            k = k + 1;
        }
        proof {
            assert(entry.neighbors@.take(n as int) =~= entry.neighbors@);
        }
        Ok(out)
    }

    /// Replaces the stored topology in full with `new_top` and re-initializes
    /// the knowledge table: one empty entry per distinct neighbor now listed
    /// for this node; entries for neighbors no longer listed are dropped.
    /// Fails with a configuration error — leaving the node unchanged — when
    /// the mapping has no entry for this node or lists a neighbor that is not
    /// itself a key.
    #[verifier::loop_isolation(false)]
    pub fn accept_topology(
        &mut self,
        new_top: Vec<TopologyEntry>,
        src: String,
        dest: String,
        req_id: Option<usize>,
    ) -> (r: Result<Vec<Message<BroadcastPayload>>, NodeError>)
        requires
            old(self).wf(),
            old(self).msg_id < usize::MAX,
        ensures
            final(self).wf(),
            final(self).id == old(self).id,
            final(self).messages@ == old(self).messages@,
            if topology_valid(new_top@, old(self).id@) {
                &&& r matches Ok(out)
                &&& topology_step(*old(self), *final(self), new_top@)
                &&& out@.len() == 1
                &&& out@[0].src == dest
                &&& out@[0].dest == src
                &&& out@[0].body.msg_id == Some(old(self).msg_id)
                &&& out@[0].body.in_reply_to == req_id
                &&& out@[0].body.payload is TopologyOk
            } else {
                &&& r matches Err(e) && e == NodeError::Config
                &&& *final(self) == *old(self)
            },
    {
        let own: usize = match find_topology(&new_top, &self.id) {
            Some(ti) => ti,
            None => {
                proof {
                    lemma_lookup_spec_none(new_top@, self.id@);
                }
                return Err(NodeError::Config);
            },
        };
        proof {
            lemma_lookup_spec_at(new_top@, self.id@, own as int);
        }
        let nbr_count: usize = new_top[own].neighbors.len();
        let mut j: usize = 0;
        while j < nbr_count
            invariant
                0 <= j <= nbr_count,
                forall|q: int|
                    0 <= q < j ==> lookup_spec(
                        new_top@,
                        #[trigger] new_top@[own as int].neighbors@[q]@,
                    ) is Some,
            decreases nbr_count - j,
        {
            let own_entry = &new_top[own];
            let nbr = &own_entry.neighbors[j];
            match find_topology(&new_top, nbr) {
                Some(w) => {
                    proof {
                        lemma_lookup_spec_at(new_top@, nbr@, w as int);
                    }
                },
                None => {
                    proof {
                        lemma_lookup_spec_none(new_top@, nbr@);
                        assert(!topology_valid(new_top@, self.id@));
                    }
                    return Err(NodeError::Config);
                },
            }
            j = j + 1;
        }
        let mut fresh: Vec<KnowledgeEntry> = Vec::new();
        let mut j: usize = 0;
        while j < nbr_count
            invariant
                0 <= j <= nbr_count,
                known_keys_unique(fresh@),
                forall|q: int|
                    0 <= q < fresh@.len() ==> (#[trigger] fresh@[q]).values@ == Set::<
                        usize,
                    >::empty() && fresh@[q].values.wf(),
                forall|kk: Seq<char>|
                    #[trigger] has_known(fresh@, kk) <==> contains_node(
                        new_top@[own as int].neighbors@.take(j as int),
                        kk,
                    ),
            decreases nbr_count - j,
        {
            let own_entry = &new_top[own];
            let nbr = &own_entry.neighbors[j];
            let ghost fresh_pre = fresh@;
            match find_known(&fresh, nbr) {
                Some(hit) => {
                    proof {
                        assert(fresh@[hit as int].node@ == nbr@);
                        assert(has_known(fresh@, nbr@));
                    }
                },
                None => {
                    fresh.push(KnowledgeEntry { node: nbr.clone(), values: ValueSet::new() });
                    proof {
                        assert(fresh@[fresh@.len() - 1].node@ == nbr@);
                        assert(has_known(fresh@, nbr@));
                        assert forall|a: int, b: int|
                            0 <= a < b < fresh@.len()
                            implies fresh@[a].node@ != fresh@[b].node@ by {
                            if b == fresh@.len() - 1 {
                                assert(fresh_pre[a].node@ != nbr@);
                            }
                        }
                    }
                },
            }
            proof {
                own_entry.neighbors@.lemma_take_succ_push(j as int);
                assert forall|kk: Seq<char>|
                    #[trigger] has_known(fresh@, kk) <==> contains_node(
                        own_entry.neighbors@.take(j + 1),
                        kk,
                    ) by {
                    if has_known(fresh@, kk) {
                        let q = choose|q: int|
                            0 <= q < fresh@.len() && #[trigger] fresh@[q].node@ == kk;
                        if q < fresh_pre.len() {
                            assert(fresh_pre[q].node@ == kk);
                            assert(has_known(fresh_pre, kk));
                            let w = choose|w: int|
                                0 <= w < j && #[trigger] own_entry.neighbors@.take(
                                    j as int,
                                )[w]@ == kk;
                            assert(own_entry.neighbors@.take(j + 1)[w]@ == kk);
                        } else {
                            assert(own_entry.neighbors@.take(j + 1)[j as int]@ == kk);
                        }
                    }
                    if contains_node(own_entry.neighbors@.take(j + 1), kk) {
                        let w = choose|w: int|
                            0 <= w < j + 1 && #[trigger] own_entry.neighbors@.take(j + 1)[w]@
                                == kk;
                        if w < j {
                            assert(own_entry.neighbors@.take(j as int)[w]@ == kk);
                            assert(contains_node(own_entry.neighbors@.take(j as int), kk));
                            assert(has_known(fresh_pre, kk));
                            let q = choose|q: int|
                                0 <= q < fresh_pre.len() && #[trigger] fresh_pre[q].node@ == kk;
                            assert(fresh@[q].node@ == kk);
                        } else {
                            assert(kk == nbr@);
                            assert(has_known(fresh@, kk));
                        }
                    }
                }
            }
            j = j + 1;
        }
        proof {
            assert(new_top@[own as int].neighbors@.take(nbr_count as int)
                =~= new_top@[own as int].neighbors@);
        }
        self.topology = new_top;
        self.known = fresh;
        let mid: usize = self.msg_id;
        self.msg_id = mid + 1;
        let reply = Message {
            src: dest,
            dest: src,
            body: Body {
                msg_id: Some(mid),
                in_reply_to: req_id,
                payload: BroadcastPayload::TopologyOk,
            },
        };
        let mut out: Vec<Message<BroadcastPayload>> = Vec::new();
        out.push(reply);
        Ok(out)
    }
}

} // verus!
