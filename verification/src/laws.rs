//! The protocol's general properties, stated over the step relations and the
//! fanout plan that the handlers' contracts use, and proved once and for all.
//!
//! Monotonicity of the value set is not restated here: it is an `ensures` of
//! [`crate::broadcast::Broadcast::handle`] itself (the value set before an
//! event is a subset of the value set after it, for every event).

use crate::broadcast::{
    delta_for, fanout_plan, gossip_step, has_known, inject_step, known_index, known_keys_unique,
    knows, read_step, Broadcast, KnowledgeEntry,
};
use vstd::prelude::*;

verus! {

/// Idempotence of injection: injecting a value already present leaves the
/// value set unchanged.
pub proof fn lemma_inject_idempotent(pre: Broadcast, post: Broadcast, value: usize)
    requires
        inject_step(pre, post, value),
        pre.messages@.contains(value),
    ensures
        post.messages@ == pre.messages@,
{
    assert(pre.messages@.insert(value) =~= pre.messages@);
}

/// Idempotence of gossip merge: merging values that are all already present
/// leaves the value set unchanged.
pub proof fn lemma_gossip_idempotent(
    pre: Broadcast,
    post: Broadcast,
    sender: Seq<char>,
    incoming: Set<usize>,
)
    requires
        gossip_step(pre, post, sender, incoming),
        incoming.subset_of(pre.messages@),
    ensures
        post.messages@ == pre.messages@,
{
    assert(pre.messages@.union(incoming) =~= pre.messages@);
}

/// Read purity: two reads with no mutation in between return identical
/// snapshots.
pub proof fn lemma_read_pure(
    s0: Broadcast,
    s1: Broadcast,
    s2: Broadcast,
    r1: Set<usize>,
    r2: Set<usize>,
)
    requires
        read_step(s0, s1, r1),
        read_step(s1, s2, r2),
    ensures
        r1 == r2,
{
}

/// Delta correctness: a gossip message planned for a neighbor on a tick
/// carries only values this node holds, and never a value already recorded
/// as known to that neighbor at the start of the tick.
pub proof fn lemma_delta_correct(pre: Broadcast, nbrs: Seq<String>, p: int, v: usize)
    requires
        0 <= p < fanout_plan(pre, nbrs).len(),
        fanout_plan(pre, nbrs)[p].1.contains(v),
    ensures
        pre.messages@.contains(v),
        !knows(pre.known@, fanout_plan(pre, nbrs)[p].0).contains(v),
    decreases nbrs.len(),
{
    if nbrs.len() == 0 {
    } else {
        let rest = fanout_plan(pre, nbrs.drop_last());
        let d = delta_for(pre, nbrs.last()@);
        if d.is_empty() || p < rest.len() {
            lemma_delta_correct(pre, nbrs.drop_last(), p, v);
        }
    }
}

/// One-hop propagation, the step behind convergence: a value this node holds
/// and does not believe neighbor `nbrs[j]` to hold is part of the gossip
/// planned for that neighbor on the next tick. The returned index locates
/// that gossip in the plan.
pub proof fn lemma_tick_propagates(pre: Broadcast, nbrs: Seq<String>, j: int, v: usize) -> (p: int)
    requires
        0 <= j < nbrs.len(),
        pre.messages@.contains(v),
        !knows(pre.known@, nbrs[j]@).contains(v),
    ensures
        0 <= p < fanout_plan(pre, nbrs).len(),
        fanout_plan(pre, nbrs)[p].0 == nbrs[j]@,
        fanout_plan(pre, nbrs)[p].1.contains(v),
    decreases nbrs.len(),
{
    let rest = fanout_plan(pre, nbrs.drop_last());
    let d = delta_for(pre, nbrs.last()@);
    if j == nbrs.len() - 1 {
        assert(d.contains(v));
        assert(!d.is_empty());
        rest.len() as int
    } else {
        assert(nbrs.drop_last()[j] == nbrs[j]);
        lemma_tick_propagates(pre, nbrs.drop_last(), j, v)
    }
}

/// The receiving half of one-hop propagation: a node that merges a gossip
/// message holds every received value afterwards, and loses none of its own.
pub proof fn lemma_gossip_delivers(
    pre: Broadcast,
    post: Broadcast,
    sender: Seq<char>,
    incoming: Set<usize>,
)
    requires
        gossip_step(pre, post, sender, incoming),
    ensures
        incoming.subset_of(post.messages@),
        pre.messages@.subset_of(post.messages@),
{
}

/// An edge converges in one exchange: when this node's estimate of neighbor
/// `n` is sound (every value believed known to `n` is indeed held by `n`) and
/// the delta this node computes for `n` is merged by `n`, the neighbor ends
/// up holding every value this node holds. Soundness is a premise, not an
/// invariant the protocol guarantees: the estimate is heuristic, and an
/// unsound entry only costs a further exchange, never a lost value.
pub proof fn lemma_edge_convergence(
    a: Broadcast,
    n: Seq<char>,
    b_pre: Broadcast,
    b_post: Broadcast,
)
    requires
        knows(a.known@, n).subset_of(b_pre.messages@),
        gossip_step(b_pre, b_post, a.id@, delta_for(a, n)),
    ensures
        a.messages@.subset_of(b_post.messages@),
{
    assert forall|v: usize| a.messages@.contains(v) implies b_post.messages@.contains(v) by {
        if knows(a.known@, n).contains(v) {
            assert(b_pre.messages@.contains(v));
        } else {
            assert(delta_for(a, n).contains(v));
        }
    }
}

/// What gossip from `sender` does to the knowledge table, seen through
/// [`knows`]: the sender's entry (if it has one) absorbs exactly the received
/// values, and no other neighbor's entry changes.
pub proof fn lemma_gossip_knowledge(
    pre: Broadcast,
    post: Broadcast,
    sender: Seq<char>,
    incoming: Set<usize>,
)
    requires
        gossip_step(pre, post, sender, incoming),
        known_keys_unique(pre.known@),
    ensures
        forall|n: Seq<char>|
            n != sender ==> #[trigger] knows(post.known@, n) == knows(pre.known@, n),
        has_known(pre.known@, sender) ==> knows(post.known@, sender) == knows(
            pre.known@,
            sender,
        ).union(incoming),
        !has_known(pre.known@, sender) ==> knows(post.known@, sender) == knows(
            pre.known@,
            sender,
        ),
{
    assert forall|n: Seq<char>| #[trigger]
        has_known(post.known@, n) == has_known(pre.known@, n) by {
        if has_known(post.known@, n) {
            let q = choose|q: int|
                0 <= q < post.known@.len() && #[trigger] post.known@[q].node@ == n;
            assert(pre.known@[q].node@ == n);
        }
        if has_known(pre.known@, n) {
            let q = choose|q: int|
                0 <= q < pre.known@.len() && #[trigger] pre.known@[q].node@ == n;
            assert(post.known@[q].node@ == n);
        }
    }
    assert forall|n: Seq<char>| has_known(pre.known@, n) implies knows(post.known@, n) == (
        if n == sender {
            knows(pre.known@, n).union(incoming)
        } else {
            knows(pre.known@, n)
        }
    ) by {
        let i = known_index(pre.known@, n);
        assert(0 <= i < pre.known@.len() && pre.known@[i].node@ == n);
        assert(has_known(post.known@, n));
        let ipost = known_index(post.known@, n);
        assert(0 <= ipost < post.known@.len() && post.known@[ipost].node@ == n);
        assert(pre.known@[ipost].node@ == n);
        if i != ipost {
            if i < ipost {
                assert(pre.known@[i].node@ != pre.known@[ipost].node@);
            } else {
                assert(pre.known@[ipost].node@ != pre.known@[i].node@);
            }
            assert(false);
        }
    }
}

} // verus!
