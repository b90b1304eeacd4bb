use vstd::prelude::*;
use crate::graph::Node;
use crate::shape::Shape;
use crate::op::lemma_grad_shape_is_input_shape;
use crate::trace::{Visit, well_formed, parent_shapes, trace, parents_trace, visits, grads_after, zeroed, lemma_visits_append};

verus! {

proof fn lemma_visits_single(v: Visit, m: int)
    ensures
        visits(seq![v], m) == if v.0 == m { 1nat } else { 0nat },
{
    assert(seq![v].drop_last() =~= Seq::<Visit>::empty());
    assert(visits(Seq::<Visit>::empty(), m) == 0);
    assert(seq![v].last() == v);
}

/// Which nodes a traversal delivers to, and how often, does not depend on
/// where its gradient comes from nor on how its deliveries are numbered.
proof fn lemma_trace_visits_free(
    nodes: Seq<Node>,
    n: int,
    f1: Option<(int, int)>,
    o1: int,
    f2: Option<(int, int)>,
    o2: int,
    m: int,
)
    ensures
        trace(nodes, n, f1, o1).len() == trace(nodes, n, f2, o2).len(),
        visits(trace(nodes, n, f1, o1), m) == visits(trace(nodes, n, f2, o2), m),
    decreases n, 1int, 0int,
{
    if 0 <= n < nodes.len() && nodes[n].requires_grad {
        let r1 = if nodes[n].operation is Some { parents_trace(nodes, n, 0, o1, o1 + 1) } else { Seq::empty() };
        let r2 = if nodes[n].operation is Some { parents_trace(nodes, n, 0, o2, o2 + 1) } else { Seq::empty() };
        if nodes[n].operation is Some {
            lemma_parents_visits_free(nodes, n, 0, o1, o1 + 1, o2, o2 + 1, m);
        }
        lemma_visits_append(seq![(n, f1)], r1, m);
        lemma_visits_append(seq![(n, f2)], r2, m);
        lemma_visits_single((n, f1), m);
        lemma_visits_single((n, f2), m);
    }
}

proof fn lemma_parents_visits_free(
    nodes: Seq<Node>,
    n: int,
    i: int,
    at1: int,
    off1: int,
    at2: int,
    off2: int,
    m: int,
)
    ensures
        parents_trace(nodes, n, i, at1, off1).len() == parents_trace(nodes, n, i, at2, off2).len(),
        visits(parents_trace(nodes, n, i, at1, off1), m) == visits(parents_trace(nodes, n, i, at2, off2), m),
    decreases n, 0int, nodes[n].parents@.len() - i,
{
    if 0 <= n < nodes.len() && 0 <= i < nodes[n].parents@.len() && 0 <= nodes[n].parents@[i] < n {
        let p = nodes[n].parents@[i] as int;
        let t1 = trace(nodes, p, Some((at1, i)), off1);
        let t2 = trace(nodes, p, Some((at2, i)), off2);
        lemma_trace_visits_free(nodes, p, Some((at1, i)), off1, Some((at2, i)), off2, m);
        lemma_parents_visits_free(nodes, n, i + 1, at1, off1 + t1.len(), at2, off2 + t2.len(), m);
        lemma_visits_append(t1, parents_trace(nodes, n, i + 1, at1, off1 + t1.len()), m);
        lemma_visits_append(t2, parents_trace(nodes, n, i + 1, at2, off2 + t2.len()), m);
    }
}

/// Accumulation under fan-out: when the gradient reaches a node `y` made by
/// a two-input operator, every other node `x` receives one delivery for each
/// one it receives through the first input plus one for each it receives
/// through the second, so its accumulated gradient is the sum of both
/// branches' gradients. With `y = f(x) + g(x)` this is the sum of the
/// gradient through `f` and the gradient through `g`; with `y = x + x` it
/// is two deliveries.
pub proof fn lemma_fan_out_adds(nodes: Seq<Node>, y: int, x: int, from: Option<(int, int)>, off: int)
    requires
        well_formed(nodes),
        0 <= y < nodes.len(),
        nodes[y].requires_grad,
        nodes[y].operation is Some,
        nodes[y].parents@.len() == 2,
        x != y,
    ensures
        visits(trace(nodes, y, from, off), x) == visits(trace(nodes, nodes[y].parents@[0] as int, None, 0), x)
            + visits(trace(nodes, nodes[y].parents@[1] as int, None, 0), x),
{
    let a = nodes[y].parents@[0] as int;
    let b = nodes[y].parents@[1] as int;
    let ta = trace(nodes, a, Some((off, 0)), off + 1);
    let tb = trace(nodes, b, Some((off, 1)), off + 1 + ta.len());
    let rest = parents_trace(nodes, y, 2, off, off + 1 + ta.len() + tb.len());
    assert(rest =~= Seq::<Visit>::empty());
    assert(parents_trace(nodes, y, 1, off, off + 1 + ta.len()) == tb + rest);
    assert(parents_trace(nodes, y, 0, off, off + 1) == ta + (tb + rest));
    assert(tb + rest =~= tb);
    lemma_visits_append(seq![(y, from)], ta + tb, x);
    lemma_visits_append(ta, tb, x);
    lemma_visits_single((y, from), x);
    lemma_trace_visits_free(nodes, a, Some((off, 0)), off + 1, None, 0, x);
    lemma_trace_visits_free(nodes, b, Some((off, 1)), off + 1 + ta.len(), None, 0, x);
}

/// A node that does not require a gradient stops the traversal: a backward
/// call on it delivers nothing, even where it has parents and an operator,
/// so no parent is visited and no gradient state changes.
pub proof fn lemma_frozen_stops(nodes: Seq<Node>, x: int, from: Option<(int, int)>, off: int, g: Seq<Option<nat>>)
    requires
        0 <= x < nodes.len(),
        !nodes[x].requires_grad,
    ensures
        trace(nodes, x, from, off).len() == 0,
        grads_after(g, trace(nodes, x, from, off)) == g,
{
    assert(grads_after(g, trace(nodes, x, from, off)) =~= g);
}

/// A node that does not require a gradient never receives one, from a
/// backward call on any node.
pub proof fn lemma_frozen_never_receives(nodes: Seq<Node>, r: int, from: Option<(int, int)>, off: int, x: int)
    requires
        0 <= x < nodes.len(),
        !nodes[x].requires_grad,
    ensures
        visits(trace(nodes, r, from, off), x) == 0,
    decreases r, 1int, 0int,
{
    if 0 <= r < nodes.len() && nodes[r].requires_grad {
        let rest = if nodes[r].operation is Some { parents_trace(nodes, r, 0, off, off + 1) } else { Seq::empty() };
        if nodes[r].operation is Some {
            lemma_frozen_parents(nodes, r, 0, off, off + 1, x);
        }
        lemma_visits_append(seq![(r, from)], rest, x);
        lemma_visits_single((r, from), x);
    }
}

proof fn lemma_frozen_parents(nodes: Seq<Node>, n: int, i: int, at: int, off: int, x: int)
    requires
        0 <= x < nodes.len(),
        !nodes[x].requires_grad,
    ensures
        visits(parents_trace(nodes, n, i, at, off), x) == 0,
    decreases n, 0int, nodes[n].parents@.len() - i,
{
    if 0 <= n < nodes.len() && 0 <= i < nodes[n].parents@.len() && 0 <= nodes[n].parents@[i] < n {
        let p = nodes[n].parents@[i] as int;
        let t = trace(nodes, p, Some((at, i)), off);
        lemma_frozen_never_receives(nodes, p, Some((at, i)), off, x);
        lemma_frozen_parents(nodes, n, i + 1, at, off + t.len(), x);
        lemma_visits_append(t, parents_trace(nodes, n, i + 1, at, off + t.len()), x);
    } else {
        assert(visits(Seq::<Visit>::empty(), x) == 0);
    }
}

/// The delivery at `j` (numbered from `off`) is made to a node produced by
/// an operator whose input `i` is node `m`.
pub open spec fn feeds(nodes: Seq<Node>, t: Seq<Visit>, off: int, j: int, i: int, m: int) -> bool {
    let c = t[j - off].0;
    &&& 0 <= c < nodes.len()
    &&& nodes[c].operation is Some
    &&& 0 <= i < nodes[c].parents@.len()
    &&& nodes[c].parents@[i] == m
}

/// How the deliveries of a backward call are wired: the first goes to the
/// start node with the incoming gradient, and every later one takes the
/// local gradient of an earlier delivery whose node was produced by an
/// operator that has the receiving node as input `slot`.
pub proof fn lemma_trace_wiring(nodes: Seq<Node>, n: int, from: Option<(int, int)>, off: int, k: int)
    requires
        0 <= k < trace(nodes, n, from, off).len(),
    ensures
        k == 0 ==> trace(nodes, n, from, off)[0] == (n, from),
        k > 0 ==> (trace(nodes, n, from, off)[k].1 matches Some((j, i)) && off <= j < off + k
            && feeds(nodes, trace(nodes, n, from, off), off, j, i, trace(nodes, n, from, off)[k].0)),
    decreases n, 1int, 0int,
{
    let t = trace(nodes, n, from, off);
    let pt = parents_trace(nodes, n, 0, off, off + 1);
    if k > 0 {
        assert(nodes[n].operation is Some);
        assert(t == seq![(n, from)] + pt);
        assert(t[k] == pt[k - 1]);
        lemma_parents_wiring(nodes, n, 0, off, off + 1, k - 1);
        let (j, i) = pt[k - 1].1->Some_0;
        if j == off {
            assert(t[j - off] == (n, from));
        } else {
            assert(t[j - off] == pt[j - off - 1]);
        }
    }
}

proof fn lemma_parents_wiring(nodes: Seq<Node>, n: int, i0: int, at: int, off: int, k: int)
    requires
        0 <= k < parents_trace(nodes, n, i0, at, off).len(),
    ensures
        parents_trace(nodes, n, i0, at, off)[k].1 matches Some((j, i)) && ({
            ||| (j == at && 0 <= n < nodes.len() && 0 <= i < nodes[n].parents@.len()
                && nodes[n].parents@[i] == parents_trace(nodes, n, i0, at, off)[k].0)
            ||| (off <= j < off + k && feeds(
                nodes,
                parents_trace(nodes, n, i0, at, off),
                off,
                j,
                i,
                parents_trace(nodes, n, i0, at, off)[k].0,
            ))
        }),
    decreases n, 0int, nodes[n].parents@.len() - i0,
{
    let pt = parents_trace(nodes, n, i0, at, off);
    let p = nodes[n].parents@[i0] as int;
    let tr = trace(nodes, p, Some((at, i0)), off);
    let rest = parents_trace(nodes, n, i0 + 1, at, off + tr.len());
    assert(pt == tr + rest);
    if k < tr.len() {
        assert(pt[k] == tr[k]);
        lemma_trace_wiring(nodes, p, Some((at, i0)), off, k);
        if k > 0 {
            let (j, i) = tr[k].1->Some_0;
            assert(pt[j - off] == tr[j - off]);
        }
    } else {
        let k2 = k - tr.len();
        assert(pt[k] == rest[k2]);
        lemma_parents_wiring(nodes, n, i0 + 1, at, off + tr.len(), k2);
        let (j, i) = rest[k2].1->Some_0;
        if j != at {
            assert(pt[j - off] == rest[j - off - tr.len()]);
        }
    }
}

/// Shape of the gradient of delivery `k` of `t` (numbered from `off`), as
/// the operators' gradient formulas compute it, the first one carrying a
/// seed of shape `seed`; `None` where a formula's operands would not fit.
pub open spec fn delivered_shape(nodes: Seq<Node>, t: Seq<Visit>, off: int, seed: Shape, k: int) -> Option<Shape>
    decreases k,
{
    if 0 <= k < t.len() {
        match t[k].1 {
            None => Some(seed),
            Some((j, i)) => {
                if off <= j < off + k {
                    let c = t[j - off].0;
                    match delivered_shape(nodes, t, off, seed, j - off) {
                        Some(g) => match nodes[c].operation {
                            Some(op) => op.spec_grad_shape(parent_shapes(nodes, c), g, i),
                            None => None,
                        },
                        None => None,
                    }
                } else {
                    None
                }
            },
        }
    } else {
        None
    }
}

/// Every gradient a backward call delivers, seeded with an array shaped like
/// the start node, has exactly the shape of the node that receives it; so an
/// accumulated gradient always has the shape of its node's value.
pub proof fn lemma_delivered_shapes(nodes: Seq<Node>, n: int, off: int, k: int)
    requires
        well_formed(nodes),
        0 <= n < nodes.len(),
        0 <= k < trace(nodes, n, None, off).len(),
    ensures
        delivered_shape(nodes, trace(nodes, n, None, off), off, nodes[n].shape, k)
            == Some(nodes[trace(nodes, n, None, off)[k].0].shape),
    decreases k,
{
    let t = trace(nodes, n, None, off);
    lemma_trace_wiring(nodes, n, None, off, k);
    if k > 0 {
        let (j, i) = t[k].1->Some_0;
        let c = t[j - off].0;
        lemma_delivered_shapes(nodes, n, off, j - off);
        let op = nodes[c].operation->Some_0;
        let ins = parent_shapes(nodes, c);
        assert(op.spec_output_shape(ins) == Some(nodes[c].shape));
        lemma_grad_shape_is_input_shape(op, ins, i);
        assert(ins[i] == nodes[t[k].0].shape);
    }
}

/// Zeroing a gradient twice leaves it exactly as zeroing it once: present
/// and all zeros.
pub proof fn lemma_zero_grad_idempotent(g: Seq<Option<nat>>, m: int)
    requires
        0 <= m < g.len(),
    ensures
        zeroed(zeroed(g, m), m) == zeroed(g, m),
        zeroed(g, m)[m] == Some(0nat),
{
    assert(zeroed(zeroed(g, m), m) =~= zeroed(g, m));
}

/// Zeroing after a backward call resets the gradient to zeros, not to what
/// it held before the call; the other nodes keep what the call left.
pub proof fn lemma_zero_grad_after_backward(nodes: Seq<Node>, g: Seq<Option<nat>>, r: int, m: int)
    requires
        0 <= m < g.len(),
    ensures
        zeroed(grads_after(g, trace(nodes, r, None, 0)), m)[m] == Some(0nat),
        forall|q: int|
            0 <= q < g.len() && q != m ==> zeroed(grads_after(g, trace(nodes, r, None, 0)), m)[q]
                == grads_after(g, trace(nodes, r, None, 0))[q],
{
}

} // verus!
