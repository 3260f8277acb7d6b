//! The laws of the collector, stated once over the chain model and proved
//! for every chain. The operations' own contracts connect each arena to this
//! model: an arena's view is its sequence of chains, `sweep` rewrites every
//! chain `c` to `sweep_chain(c)`, `mark_unreachable` rewrites one chain to
//! `mark_at` of it, and `walk` returns `walk_hops`.

use vstd::prelude::*;

use crate::chain::{first_marked, lemma_first_marked_bounds, mark_at, sweep_chain, walk_hops,
    NodeInfo};

verus! {

/// Idempotence of marking: flagging the same position twice leaves the chain
/// exactly as flagging it once does.
pub proof fn lemma_marking_idempotent(s: Seq<NodeInfo>, d: int)
    requires
        0 <= d < s.len(),
    ensures
        mark_at(mark_at(s, d), d) == mark_at(s, d),
{
    assert(mark_at(mark_at(s, d), d) =~= mark_at(s, d));
}

/// Acyclic chains: walking any non-empty chain terminates, within a number
/// of hops bounded by the position of the tail. A chain grows only through
/// appends, each of which extends the tail (`add_root` makes a chain of
/// length one and every append lengthens it by the appended chain), so a
/// chain built by `k` single-object appends has length `k + 1` and a walk of
/// any requested depth takes at most `k` hops.
pub proof fn lemma_walk_terminates(s: Seq<NodeInfo>, depth: int)
    requires
        s.len() >= 1,
        depth >= 0,
    ensures
        0 <= walk_hops(s, depth) <= s.len() - 1,
        walk_hops(s, depth) <= depth,
{
}

/// Exclusive ownership across a sweep: what survives in a chain is exactly
/// the prefix that stood before the first marked node, each survivor
/// unchanged and unmarked; every node from the first marked one on is
/// reclaimed with the suffix and remains in no chain. Chains hang off
/// distinct roots and never share a node, so a node reclaimed from one chain
/// is unreachable from every remaining root.
pub proof fn lemma_sweep_reclaims_suffix_only(s: Seq<NodeInfo>)
    ensures
        sweep_chain(s).len() == first_marked(s) <= s.len(),
        forall|i: int| 0 <= i < first_marked(s) ==> sweep_chain(s)[i] == s[i] && !s[i].marked,
{
    lemma_first_marked_bounds(s);
}

/// Idempotence of an empty sweep: a chain without a single marked node comes
/// out of the sweep exactly as it went in, length and content alike.
pub proof fn lemma_sweep_without_marks_is_identity(s: Seq<NodeInfo>)
    requires
        forall|i: int| 0 <= i < s.len() ==> !s[i].marked,
    ensures
        sweep_chain(s) == s,
{
    lemma_first_marked_bounds(s);
    assert(first_marked(s) == s.len());
    assert(sweep_chain(s) =~= s);
}

/// Suffix reclamation: in a chain of length `L` whose only marked node sits
/// at depth `d`, the sweep leaves exactly the `d` nodes above it — the chain
/// becomes empty when the head itself was marked, and otherwise the node
/// that stood at depth `d - 1` becomes the tail.
pub proof fn lemma_suffix_reclamation(s: Seq<NodeInfo>, d: int)
    requires
        0 <= d < s.len(),
        s[d].marked,
        forall|i: int| 0 <= i < s.len() && i != d ==> !s[i].marked,
    ensures
        sweep_chain(s) == s.take(d),
        sweep_chain(s).len() == d,
        d == 0 ==> sweep_chain(s) == Seq::<NodeInfo>::empty(),
        d > 0 ==> sweep_chain(s)[d - 1] == s[d - 1],
{
    lemma_first_marked_bounds(s);
    if first_marked(s) < d {
        assert(s[first_marked(s)].marked);
        assert(false);
    }
    if first_marked(s) > d {
        assert(!s[d].marked);
        assert(false);
    }
    if d == 0 {
        assert(sweep_chain(s) =~= Seq::<NodeInfo>::empty());
    }
}

} // verus!
