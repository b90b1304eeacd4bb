use vstd::prelude::*;
use crate::shape::Shape;
use crate::graph::Node;

verus! {

/// One gradient delivery as a mathematical value: the receiving node, and
/// where its gradient comes from: `None` for the seed, `Some((j, i))` for the
/// local gradient, for input `i`, of the operator of the node visited at
/// delivery `j`, taken from the gradient delivered there.
pub type Visit = (int, Option<(int, int)>);

/// Shapes of the parents of node `i`, in order.
pub open spec fn parent_shapes(nodes: Seq<Node>, i: int) -> Seq<Shape> {
    nodes[i].parents@.map_values(|p: usize| nodes[p as int].shape)
}

/// The arena invariant: every parent precedes its child (so the parent
/// graph is acyclic), and a node produced by an operator has that operator's
/// number of parents and the shape its forward rule gives.
pub open spec fn well_formed(nodes: Seq<Node>) -> bool {
    &&& forall|i: int, j: int|
        0 <= i < nodes.len() && 0 <= j < nodes[i].parents@.len() ==> nodes[i].parents@[j] < i
    &&& forall|i: int|
        0 <= i < nodes.len() && (#[trigger] nodes[i]).operation is Some ==> {
            let k = nodes[i].operation->Some_0;
            &&& nodes[i].parents@.len() == k.spec_arity()
            &&& k.spec_output_shape(parent_shapes(nodes, i)) == Some(nodes[i].shape)
        }
}

/// The deliveries made by a backward call on node `n` whose gradient comes
/// from `from`, numbered from `off`: nothing if `n` does not require a
/// gradient; otherwise `n` itself, then, if an operator produced `n`, the
/// deliveries of each parent in order, each fed by its local gradient.
pub open spec fn trace(nodes: Seq<Node>, n: int, from: Option<(int, int)>, off: int) -> Seq<Visit>
    decreases n, 1int, 0int,
{
    if 0 <= n < nodes.len() && nodes[n].requires_grad {
        seq![(n, from)] + if nodes[n].operation is Some {
            parents_trace(nodes, n, 0, off, off + 1)
        } else {
            Seq::empty()
        }
    } else {
        Seq::empty()
    }
}

/// The deliveries of the parents of `n` from the `i`-th on, where `n` was
/// visited at delivery `at` and the next delivery is numbered `off`.
pub open spec fn parents_trace(nodes: Seq<Node>, n: int, i: int, at: int, off: int) -> Seq<Visit>
    decreases n, 0int, nodes[n].parents@.len() - i,
{
    if 0 <= n < nodes.len() && 0 <= i < nodes[n].parents@.len() && 0 <= nodes[n].parents@[i] < n {
        let t = trace(nodes, nodes[n].parents@[i] as int, Some((at, i)), off);
        t + parents_trace(nodes, n, i + 1, at, off + t.len())
    } else {
        Seq::empty()
    }
}

/// How many deliveries of `t` go to node `m`.
pub open spec fn visits(t: Seq<Visit>, m: int) -> nat
    decreases t.len(),
{
    if t.len() == 0 {
        0
    } else {
        visits(t.drop_last(), m) + if t.last().0 == m { 1nat } else { 0nat }
    }
}

/// Accumulated-gradient state of each node: `None` while absent, `Some(c)`
/// while it holds the sum of `c` delivered gradients (`Some(0)`: all zeros).
/// This is that state after the deliveries of `t`: a node that receives
/// none keeps its state; one that receives some holds them on top of what
/// it held (a node without a gradient takes its first delivery as it is).
pub open spec fn grads_after(g: Seq<Option<nat>>, t: Seq<Visit>) -> Seq<Option<nat>> {
    Seq::new(
        g.len(),
        |m: int|
            if visits(t, m) == 0 {
                g[m]
            } else {
                Some(
                    match g[m] {
                        Some(c) => c,
                        None => 0nat,
                    } + visits(t, m),
                )
            },
    )
}

/// Whether delivery of a gradient to node `m` adds into a gradient already
/// present (rather than storing it as the first), given the state `g` at the
/// start of the backward call and the deliveries `t` made before it.
pub open spec fn adds_into(g: Seq<Option<nat>>, t: Seq<Visit>, m: int) -> bool {
    g[m] is Some || visits(t, m) > 0
}

/// The state after `zero_grad` on node `m`: present and all zeros.
pub open spec fn zeroed(g: Seq<Option<nat>>, m: int) -> Seq<Option<nat>> {
    g.update(m, Some(0nat))
}

pub proof fn lemma_visits_append(a: Seq<Visit>, b: Seq<Visit>, m: int)
    ensures
        visits(a + b, m) == visits(a, m) + visits(b, m),
    decreases b.len(),
{
    if b.len() == 0 {
        assert(a + b =~= a);
    } else {
        assert((a + b).drop_last() =~= a + b.drop_last());
        lemma_visits_append(a, b.drop_last(), m);
    }
}

} // verus!
