//! The managed object: one mark bit, two payload scalars, and at most one
//! successor. Ownership of a successor lives in its predecessor, so the
//! structure reachable from any head is a simple path with no cycle and no
//! sharing, by construction.

use vstd::prelude::*;

use crate::chain::{fresh_chain, mark_at, sweep_chain, walk_hops, NodeInfo, PAYLOAD_LIMIT};
use crate::chain::{lemma_first_marked_bounds, lemma_first_marked_cons};

verus! {

/// One managed object. A `DummyObject` owns the whole chain hanging off it:
/// its view is the sequence of node descriptions from itself down to the
/// tail, head first.
#[derive(Debug)]
pub struct DummyObject {
    pub(crate) marked: bool,
    pub(crate) data1: i32,
    pub(crate) data2: i32,
    pub(crate) next: Option<Box<DummyObject>>,
}

/// The chain hanging off an optional head, as a sequence of node
/// descriptions; an absent head is the empty chain.
pub(crate) open spec fn chain_of(head: Option<Box<DummyObject>>) -> Seq<NodeInfo>
    decreases head,
{
    match head {
        Option::None => Seq::empty(),
        Option::Some(node) => seq![node.info()] + chain_of(node.next),
    }
}

/// A chain is empty exactly when it has no head.
pub(crate) proof fn lemma_chain_empty(head: Option<Box<DummyObject>>)
    ensures
        (chain_of(head).len() == 0) == head is None,
{
    match head {
        Option::None => {},
        Option::Some(node) => {
            assert(chain_of(head)[0] == node.info());
        },
    }
}

/// A heap handle's own view is the chain hanging off it.
pub(crate) proof fn lemma_box_chain(b: Box<DummyObject>)
    ensures
        chain_of(Option::Some(b)) == b@,
{
    assert(chain_of(Option::Some(b)) =~= b@);
}

impl DummyObject {
    /// The description of this node alone.
    pub(crate) open spec fn info(self) -> NodeInfo {
        NodeInfo { marked: self.marked, data1: self.data1, data2: self.data2 }
    }
}

impl View for DummyObject {
    type V = Seq<NodeInfo>;

    closed spec fn view(&self) -> Seq<NodeInfo> {
        seq![self.info()] + chain_of(self.next)
    }
}

/// Relies on `rand::thread_rng` and `rand::Rng::gen_range`: a uniformly drawn
/// value inside the given half-open range. `gen_range` panics only on an
/// empty range, which the precondition rules out; being a fresh draw, nothing
/// beyond the range bound holds of the result.
#[verifier::external_body]
fn random_in_range(low: i32, high: i32) -> (r: i32)
    requires
        low < high,
    ensures
        low <= r < high,
{
    let mut rng = rand::thread_rng();
    rand::Rng::gen_range(&mut rng, low..high)
}

impl DummyObject {
    /// A fresh, unmarked, unlinked object whose payload the injected value
    /// provider draws.
    fn new() -> (o: Self)
        ensures
            fresh_chain(o@),
    {
        let o = DummyObject {
            marked: false,
            data1: random_in_range(0, PAYLOAD_LIMIT),
            data2: random_in_range(0, PAYLOAD_LIMIT),
            next: None,
        };
        proof {
            assert(o@ =~= seq![o.info()]);
        }
        o
    }

    /// A fresh object as an owning heap handle, ready to stand as a chain
    /// head or to be appended onto a tail.
    pub fn new_on_heap() -> (o: Box<DummyObject>)
        ensures
            fresh_chain(o@),
    {
        Box::new(DummyObject::new())
    }

    /// Walks from this node to the current tail and hangs `dummy` (itself
    /// possibly heading a whole chain) off it.
    pub fn reference_to(&mut self, dummy: Box<DummyObject>)
        ensures
            final(self)@ == old(self)@ + dummy@,
    {
        let ghost head = *old(self);
        append_into(&mut self.next, dummy);
        proof {
            assert(self.info() == head.info());
            assert(self@ =~= (seq![head.info()] + chain_of(head.next)) + dummy@);
        }
    }

    /// How many hops a walk of `depth` requested hops actually takes from
    /// this node: it stops early at the tail.
    pub(crate) fn hops_from(&self, depth: usize) -> (h: usize)
        ensures
            h == walk_hops(self@, depth as int),
        decreases self,
    {
        if depth == 0 {
            return 0;
        }
        match &self.next {
            None => 0,
            Some(b) => {
                let h = b.hops_from(depth - 1);
                proof {
                    assert(self@.drop_first() =~= b@);
                }
                1 + h
            },
        }
    }
}

/// Appends `dummy` at the tail of the chain hanging off `head`.
pub(crate) fn append_into(head: &mut Option<Box<DummyObject>>, dummy: Box<DummyObject>)
    ensures
        chain_of(*final(head)) == chain_of(*old(head)) + dummy@,
    decreases *old(head),
{
    match head.take() {
        None => {
            *head = Some(dummy);
            proof {
                assert(chain_of(*head) =~= Seq::empty() + dummy@);
            }
        },
        Some(mut boxed) => {
            let ghost prev = *boxed;
            append_into(&mut boxed.next, dummy);
            proof {
                assert(boxed.info() == prev.info());
            }
            *head = Some(boxed);
            proof {
                assert(chain_of(*head) =~= (seq![prev.info()] + chain_of(prev.next)) + dummy@);
            }
        },
    }
}

/// Marks the node `depth` hops below `head` and reports success; when the
/// chain is shorter than that, nothing at all is changed and the call
/// reports failure.
pub(crate) fn try_mark_at(head: &mut Option<Box<DummyObject>>, depth: usize) -> (ok: bool)
    ensures
        ok == (depth < chain_of(*old(head)).len()),
        ok ==> chain_of(*final(head)) == mark_at(chain_of(*old(head)), depth as int),
        !ok ==> *final(head) == *old(head),
    decreases *old(head),
{
    match head.take() {
        None => false,
        Some(mut boxed) => {
            let ghost prev = *boxed;
            let ghost prev_chain = chain_of(Option::Some(Box::new(prev)));
            let ok: bool;
            if depth == 0 {
                boxed.marked = true;
                ok = true;
            } else {
                ok = try_mark_at(&mut boxed.next, depth - 1);
            }
            proof {
                assert(prev_chain =~= seq![prev.info()] + chain_of(prev.next));
            }
            *head = Some(boxed);
            proof {
                if depth == 0 {
                    assert(chain_of(*head) =~= mark_at(prev_chain, 0));
                } else if ok {
                    assert(chain_of(*head) =~= mark_at(prev_chain, depth as int));
                } else {
                    assert(*boxed == prev);
                }
            }
            ok
        },
    }
}

/// Reclaims, in the chain hanging off `head`, everything from the first
/// marked node on, leaving the unmarked prefix connected; a chain whose head
/// is marked is reclaimed whole and its slot left empty.
pub(crate) fn sweep_into(head: &mut Option<Box<DummyObject>>)
    ensures
        chain_of(*final(head)) == sweep_chain(chain_of(*old(head))),
    decreases *old(head),
{
    match head.take() {
        None => {},
        Some(mut boxed) => {
            let ghost prev = *boxed;
            let ghost prev_chain = chain_of(Option::Some(Box::new(prev)));
            proof {
                assert(prev_chain =~= seq![prev.info()] + chain_of(prev.next));
            }
            if boxed.marked {
                // Dropping `boxed` here releases the head and, through it,
                // every successor: the whole chain is reclaimed.
                proof {
                    assert(sweep_chain(prev_chain) =~= Seq::empty());
                }
            } else {
                sweep_into(&mut boxed.next);
                proof {
                    assert(boxed.info() == prev.info());
                }
                *head = Some(boxed);
                proof {
                    lemma_first_marked_cons(prev.info(), chain_of(prev.next));
                    lemma_first_marked_bounds(chain_of(prev.next));
                    assert(chain_of(*head) =~= sweep_chain(prev_chain));
                }
            }
        },
    }
}

/// Copies the chain's node descriptions onto the end of `out`, head first.
pub(crate) fn collect_chain(head: &Option<Box<DummyObject>>, out: &mut Vec<NodeInfo>)
    ensures
        final(out)@ == old(out)@ + chain_of(*head),
    decreases *head,
{
    match head {
        None => {
            proof {
                assert(out@ =~= out@ + chain_of(*head));
            }
        },
        Some(boxed) => {
            out.push(
                NodeInfo { marked: boxed.marked, data1: boxed.data1, data2: boxed.data2 },
            );
            collect_chain(&boxed.next, out);
            proof {
                assert(out@ =~= old(out)@ + chain_of(*head));
            }
        },
    }
}

} // verus!
