//! The arena: an ordered root set of chain heads, the marker, the sweeper,
//! and the teardown pass. Every mutation is stated against the arena's view,
//! a sequence of chains in root-index order; a swept root stays in place as
//! an empty chain, so indices never move.

use vstd::prelude::*;

use crate::chain::{fresh_chain, mark_at, sweep_chain, walk_hops, NodeInfo};
use crate::object::{
    append_into, chain_of, collect_chain, lemma_box_chain, lemma_chain_empty, sweep_into,
    try_mark_at, DummyObject,
};

verus! {

/// Why an arena operation refused to run. Every precondition violation is a
/// defect in the caller; the operation reports it without any partial
/// mutation.
#[derive(Clone, Copy, Debug, PartialEq, Eq, Structural)]
pub enum GcError {
    /// The root index lies at or beyond the current number of root slots.
    RootIndexOutOfRange,
    /// The addressed root slot holds no chain: it was swept or cleared away.
    EmptyRoot,
    /// The addressed depth lies at or beyond the chain's length.
    DepthOutOfRange,
}

/// A memory arena that keeps track of the chains of `DummyObject`s hanging
/// off its roots. Its view is the sequence of those chains, in root-index
/// order; an empty slot shows as an empty chain.
pub struct MarkandSweepGC {
    roots: Vec<Option<Box<DummyObject>>>,
    leak: bool,
}

impl View for MarkandSweepGC {
    type V = Seq<Seq<NodeInfo>>;

    closed spec fn view(&self) -> Seq<Seq<NodeInfo>> {
        self.roots@.map_values(|r: Option<Box<DummyObject>>| chain_of(r))
    }
}

impl Default for MarkandSweepGC {
    /// An arena with no roots, set to reclaim everything at teardown.
    fn default() -> (gc: Self)
        ensures
            gc@ == Seq::<Seq<NodeInfo>>::empty(),
            !gc.leaking(),
    {
        let gc = MarkandSweepGC { roots: Vec::new(), leak: false };
        proof {
            assert(gc@ =~= Seq::<Seq<NodeInfo>>::empty());
        }
        gc
    }
}

impl MarkandSweepGC {
    /// Whether teardown will abandon the remaining chains instead of
    /// reclaiming them.
    pub closed spec fn leaking(&self) -> bool {
        self.leak
    }

    /// An arena whose first `amount` roots each head a fresh single-node
    /// chain.
    pub fn new_with_test_dummy_roots(amount: usize) -> (gc: Self)
        ensures
            gc@.len() == amount,
            forall|i: int| 0 <= i < amount ==> fresh_chain(#[trigger] gc@[i]),
            !gc.leaking(),
    {
        let mut gc = MarkandSweepGC::default();
        gc.add_n_roots(amount);
        gc
    }

    /// How many root slots the arena holds, swept ones included.
    pub fn root_count(&self) -> (n: usize)
        ensures
            n == self@.len(),
    {
        self.roots.len()
    }

    /// Whether the addressed root slot holds no chain.
    pub fn is_root_empty(&self, root_idx: usize) -> (b: bool)
        requires
            root_idx < self@.len(),
        ensures
            b == (self@[root_idx as int].len() == 0),
    {
        proof {
            lemma_chain_empty(self.roots@[root_idx as int]);
        }
        self.roots[root_idx].is_none()
    }

    /// Switches reclamation off, once and for all: `teardown` will abandon
    /// every outstanding chain instead of reclaiming it.
    pub fn leak(&mut self)
        ensures
            final(self)@ == old(self)@,
            final(self).leaking(),
    {
        self.leak = true;
    }

    /// Hands an already-allocated head (and whatever hangs off it) to a new
    /// root slot and returns the slot's index.
    pub fn add_root_with(&mut self, root: Box<DummyObject>) -> (idx: usize)
        ensures
            idx == old(self)@.len(),
            final(self)@ == old(self)@.push(root@),
            final(self).leaking() == old(self).leaking(),
    {
        let idx = self.roots.len();
        let ghost root_chain = root@;
        proof {
            lemma_box_chain(root);
        }
        self.roots.push(Some(root));
        proof {
            assert(chain_of(self.roots@[idx as int]) == root_chain);
            assert(self@ =~= old(self)@.push(root_chain));
        }
        idx
    }

    /// Allocates a fresh single-node chain, appends a root pointing at it,
    /// and returns the root's index.
    pub fn add_root(&mut self) -> (idx: usize)
        ensures
            idx == old(self)@.len(),
            final(self)@.len() == old(self)@.len() + 1,
            forall|i: int| 0 <= i < old(self)@.len() ==> final(self)@[i] == old(self)@[i],
            fresh_chain(final(self)@[old(self)@.len() as int]),
            final(self).leaking() == old(self).leaking(),
    {
        let root = DummyObject::new_on_heap();
        self.add_root_with(root)
    }

    /// Repeats `add_root` `amount` times; the new indices follow insertion
    /// order.
    pub fn add_n_roots(&mut self, amount: usize)
        ensures
            final(self)@.len() == old(self)@.len() + amount,
            forall|i: int| 0 <= i < old(self)@.len() ==> final(self)@[i] == old(self)@[i],
            forall|i: int|
                old(self)@.len() <= i < old(self)@.len() + amount ==> fresh_chain(
                    #[trigger] final(self)@[i],
                ),
            final(self).leaking() == old(self).leaking(),
    {
        let mut added: usize = 0;
        while added < amount
            invariant
                added <= amount,
                self@.len() == old(self)@.len() + added,
                forall|i: int| 0 <= i < old(self)@.len() ==> self@[i] == old(self)@[i],
                forall|i: int|
                    old(self)@.len() <= i < old(self)@.len() + added ==> fresh_chain(
                        #[trigger] self@[i],
                    ),
                self.leaking() == old(self).leaking(),
            decreases amount - added,
        {
            self.add_root();
            added = added + 1;
        }
    }

    /// Walks from the head of the chain at root `at` to its current tail and
    /// hangs `dummy` (itself possibly heading a whole chain) off it.
    /// Appending to an out-of-range index or to an emptied root is a
    /// contract violation: the call fails loudly and nothing is changed.
    pub fn refernce_dummy_at_to(&mut self, at: usize, dummy: Box<DummyObject>) -> (r: Result<
        (),
        GcError,
    >)
        ensures
            at >= old(self)@.len() ==> r == Err::<(), GcError>(GcError::RootIndexOutOfRange)
                && final(self)@ == old(self)@,
            at < old(self)@.len() && old(self)@[at as int].len() == 0 ==> r == Err::<(), GcError>(
                GcError::EmptyRoot,
            ) && final(self)@ == old(self)@,
            at < old(self)@.len() && old(self)@[at as int].len() > 0 ==> r == Ok::<(), GcError>(())
                && final(self)@ == old(self)@.update(
                at as int,
                old(self)@[at as int] + dummy@,
            ),
            final(self).leaking() == old(self).leaking(),
    {
        if at >= self.roots.len() {
            return Err(GcError::RootIndexOutOfRange);
        }
        proof {
            lemma_chain_empty(self.roots@[at as int]);
        }
        if self.roots[at].is_none() {
            return Err(GcError::EmptyRoot);
        }
        append_into(&mut self.roots[at], dummy);
        proof {
            assert(self@ =~= old(self)@.update(at as int, old(self)@[at as int] + dummy@));
        }
        Ok(())
    }

    /// Walks from the head of the addressed root to the tail of the chain,
    /// stopping after `depth` hops, and copies out the node descriptions it
    /// visited along the whole chain, head first.
    pub fn chain_nodes(&self, root_idx: usize) -> (nodes: Vec<NodeInfo>)
        requires
            root_idx < self@.len(),
        ensures
            nodes@ == self@[root_idx as int],
    {
        let mut out: Vec<NodeInfo> = Vec::new();
        collect_chain(&self.roots[root_idx], &mut out);
        proof {
            assert(out@ =~= self@[root_idx as int]);
        }
        out
    }

    /// The length of the chain hanging off the addressed root; an empty slot
    /// has length zero.
    pub fn chain_len(&self, root_idx: usize) -> (n: usize)
        requires
            root_idx < self@.len(),
        ensures
            n == self@[root_idx as int].len(),
    {
        let nodes = self.chain_nodes(root_idx);
        nodes.len()
    }

    /// Starting at the addressed root's head, advances up to `depth` hops
    /// along successor links, stopping early at the tail, and reports how
    /// many hops were actually taken.
    pub fn walk(&self, root_idx: usize, depth: usize) -> (r: Result<usize, GcError>)
        ensures
            root_idx >= self@.len() ==> r == Err::<usize, GcError>(GcError::RootIndexOutOfRange),
            root_idx < self@.len() && self@[root_idx as int].len() == 0 ==> r == Err::<
                usize,
                GcError,
            >(GcError::EmptyRoot),
            root_idx < self@.len() && self@[root_idx as int].len() > 0 ==> r == Ok::<
                usize,
                GcError,
            >(walk_hops(self@[root_idx as int], depth as int) as usize),
    {
        if root_idx >= self.roots.len() {
            return Err(GcError::RootIndexOutOfRange);
        }
        proof {
            lemma_chain_empty(self.roots@[root_idx as int]);
        }
        match &self.roots[root_idx] {
            None => Err(GcError::EmptyRoot),
            Some(b) => {
                proof {
                    lemma_box_chain(*b);
                }
                Ok(b.hops_from(depth))
            },
        }
    }

    /// Walks `root_depth` hops from the addressed root's head and flags the
    /// node reached as unreachable. A position beyond the tail is a contract
    /// violation: the call fails loudly and no node is marked.
    pub fn mark_unreachable(&mut self, root_idx: usize, root_depth: usize) -> (r: Result<
        (),
        GcError,
    >)
        ensures
            root_idx >= old(self)@.len() ==> r == Err::<(), GcError>(
                GcError::RootIndexOutOfRange,
            ) && final(self)@ == old(self)@,
            root_idx < old(self)@.len() && old(self)@[root_idx as int].len() == 0 ==> r == Err::<
                (),
                GcError,
            >(GcError::EmptyRoot) && final(self)@ == old(self)@,
            root_idx < old(self)@.len() && 0 < old(self)@[root_idx as int].len() <= root_depth
                ==> r == Err::<(), GcError>(GcError::DepthOutOfRange)
                    && final(self)@ == old(self)@,
            root_idx < old(self)@.len() && root_depth < old(self)@[root_idx as int].len() ==> r
                == Ok::<(), GcError>(()) && final(self)@ == old(self)@.update(
                root_idx as int,
                mark_at(old(self)@[root_idx as int], root_depth as int),
            ),
            final(self).leaking() == old(self).leaking(),
    {
        if root_idx >= self.roots.len() {
            return Err(GcError::RootIndexOutOfRange);
        }
        proof {
            lemma_chain_empty(self.roots@[root_idx as int]);
        }
        if self.roots[root_idx].is_none() {
            return Err(GcError::EmptyRoot);
        }
        let ok = try_mark_at(&mut self.roots[root_idx], root_depth);
        if ok {
            proof {
                assert(self@ =~= old(self)@.update(
                    root_idx as int,
                    mark_at(old(self)@[root_idx as int], root_depth as int),
                ));
            }
            Ok(())
        } else {
            proof {
                assert(self@ =~= old(self)@);
            }
            Err(GcError::DepthOutOfRange)
        }
    }

    /// Lets the caller simulate the tracer's verdict that a whole chain is
    /// unreachable: marks the head of the chain at `root_idx`. An
    /// out-of-range index or an emptied root leaves the arena untouched.
    pub fn mark_root(&mut self, root_idx: usize)
        ensures
            root_idx < old(self)@.len() && old(self)@[root_idx as int].len() > 0 ==> final(self)@
                == old(self)@.update(
                root_idx as int,
                mark_at(old(self)@[root_idx as int], 0),
            ),
            root_idx >= old(self)@.len() || old(self)@[root_idx as int].len() == 0
                ==> final(self)@ == old(self)@,
            final(self).leaking() == old(self).leaking(),
    {
        let _ = self.mark_unreachable(root_idx, 0);
    }

    /// One sweep pass: in every chain, reclaims the suffix that starts at the
    /// first marked node. A chain with a marked head is reclaimed whole and
    /// its root left empty; a chain with no marked node is left untouched.
    pub fn sweep(&mut self)
        ensures
            final(self)@.len() == old(self)@.len(),
            forall|i: int|
                0 <= i < old(self)@.len() ==> final(self)@[i] == sweep_chain(old(self)@[i]),
            final(self).leaking() == old(self).leaking(),
    {
        let n = self.roots.len();
        let mut idx: usize = 0;
        while idx < n
            invariant
                idx <= n,
                n == self.roots@.len(),
                self.roots@.len() == old(self).roots@.len(),
                forall|i: int|
                    0 <= i < idx ==> chain_of(#[trigger] self.roots@[i]) == sweep_chain(
                        chain_of(old(self).roots@[i]),
                    ),
                forall|i: int| idx <= i < n ==> self.roots@[i] == old(self).roots@[i],
                self.leak == old(self).leak,
            decreases n - idx,
        {
            sweep_into(&mut self.roots[idx]);
            idx = idx + 1;
        }
        proof {
            assert forall|i: int| 0 <= i < old(self)@.len() implies final(self)@[i] == sweep_chain(
                old(self)@[i],
            ) by {
                assert(chain_of(self.roots@[i]) == sweep_chain(chain_of(old(self).roots@[i])));
            }
        }
    }

    /// The reclamation pass of teardown: reclaims every chain whole,
    /// unconditionally, and leaves every root empty.
    pub fn clear(&mut self)
        ensures
            final(self)@.len() == old(self)@.len(),
            forall|i: int| 0 <= i < old(self)@.len() ==> final(self)@[i].len() == 0,
            final(self).leaking() == old(self).leaking(),
    {
        let n = self.roots.len();
        let mut idx: usize = 0;
        while idx < n
            invariant
                idx <= n,
                n == self.roots@.len(),
                self.roots@.len() == old(self).roots@.len(),
                forall|i: int| 0 <= i < idx ==> chain_of(#[trigger] self.roots@[i]).len() == 0,
                self.leak == old(self).leak,
            decreases n - idx,
        {
            let slot = &mut self.roots[idx];
            // Overwriting the slot drops the head and, through it, every
            // node of the chain.
            *slot = None;
            idx = idx + 1;
        }
    }

    /// Terminal cleanup, to run once when the arena's life ends: reclaims
    /// every outstanding chain, unless `leak` switched reclamation off, in
    /// which case every chain is abandoned exactly as it stands.
    pub fn teardown(&mut self)
        ensures
            final(self)@.len() == old(self)@.len(),
            !old(self).leaking() ==> forall|i: int|
                0 <= i < old(self)@.len() ==> final(self)@[i].len() == 0,
            old(self).leaking() ==> final(self)@ == old(self)@,
            final(self).leaking() == old(self).leaking(),
    {
        if !self.leak {
            self.clear();
        }
    }
}

} // verus!
