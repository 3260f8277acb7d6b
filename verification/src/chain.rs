//! The mathematical model of a chain: a sequence of node descriptions, head
//! first. Every contract of the arena is stated over these sequences.

use vstd::prelude::*;

verus! {

/// What one managed object shows to the collector and to callers: its mark
/// bit and its two payload scalars. The payloads are set at construction and
/// never change afterwards; the collection logic never reads them.
#[derive(Clone, Copy, Debug, PartialEq, Eq, Structural)]
pub struct NodeInfo {
    pub marked: bool,
    pub data1: i32,
    pub data2: i32,
}

/// The exclusive bound under which the payload provider draws both scalars.
pub const PAYLOAD_LIMIT: i32 = 100;

/// A freshly allocated single-node chain: unmarked, with provider-drawn
/// payload.
pub open spec fn fresh_chain(c: Seq<NodeInfo>) -> bool {
    &&& c.len() == 1
    &&& !c[0].marked
    &&& 0 <= c[0].data1 < PAYLOAD_LIMIT
    &&& 0 <= c[0].data2 < PAYLOAD_LIMIT
}

/// `n` with its mark bit set and its payload untouched.
pub open spec fn with_mark(n: NodeInfo) -> NodeInfo {
    NodeInfo { marked: true, data1: n.data1, data2: n.data2 }
}

/// The chain with the node at depth `d` marked and everything else untouched.
pub open spec fn mark_at(s: Seq<NodeInfo>, d: int) -> Seq<NodeInfo> {
    s.update(d, with_mark(s[d]))
}

/// The depth of the first marked node of a chain, or the chain's length when
/// no node is marked.
pub open spec fn first_marked(s: Seq<NodeInfo>) -> int
    decreases s.len(),
{
    if s.len() == 0 {
        0
    } else if s[0].marked {
        0
    } else {
        1 + first_marked(s.drop_first())
    }
}

/// What one sweep pass leaves of a chain: the prefix that stands before the
/// first marked node. A chain with a marked head becomes empty; a chain with
/// no marked node is left whole.
pub open spec fn sweep_chain(s: Seq<NodeInfo>) -> Seq<NodeInfo> {
    s.take(first_marked(s))
}

/// How many hops a walk of `depth` requested hops takes from the head of a
/// non-empty chain: the walk stops early at the tail.
pub open spec fn walk_hops(s: Seq<NodeInfo>, depth: int) -> int {
    if depth <= s.len() - 1 {
        depth
    } else {
        s.len() - 1
    }
}

/// Where the first mark sits: never beyond the length, nothing marked before
/// it, and a marked node at it whenever it lies inside the chain.
pub proof fn lemma_first_marked_bounds(s: Seq<NodeInfo>)
    ensures
        0 <= first_marked(s) <= s.len(),
        forall|i: int| 0 <= i < first_marked(s) ==> !s[i].marked,
        first_marked(s) < s.len() ==> s[first_marked(s)].marked,
    decreases s.len(),
{
    if s.len() == 0 {
    } else if s[0].marked {
    } else {
        lemma_first_marked_bounds(s.drop_first());
        assert forall|i: int| 0 <= i < first_marked(s) implies !s[i].marked by {
            if i > 0 {
                assert(s.drop_first()[i - 1] == s[i]);
            }
        }
        if first_marked(s) < s.len() {
            assert(s.drop_first()[first_marked(s) - 1] == s[first_marked(s)]);
        }
    }
}

/// Unfolding `first_marked` over an unmarked head.
pub proof fn lemma_first_marked_cons(head: NodeInfo, rest: Seq<NodeInfo>)
    requires
        !head.marked,
    ensures
        first_marked(seq![head] + rest) == 1 + first_marked(rest),
{
    let s = seq![head] + rest;
    assert(s.drop_first() =~= rest);
}

} // verus!
