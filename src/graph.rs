use vstd::prelude::*;
use crate::shape::Shape;
use crate::op::OpKind;
use crate::names::{NameManager, spec_label};
use crate::trace::{Visit, well_formed, parent_shapes, trace, parents_trace, visits, grads_after, adds_into, zeroed, lemma_visits_append};

verus! {

/// Why a graph operation was refused.
#[derive(Clone, Copy, Debug, PartialEq, Eq, Structural)]
pub enum GraphError {
    /// Inputs of an elementwise operator differ in shape, the inner
    /// dimensions of a matrix product disagree, or a value or seed does not
    /// have the node's shape.
    ShapeMismatch,
    /// A node that must be 1×1 is not.
    ScalarExpectation,
    /// A node holds no accumulated gradient.
    MissingGradient,
    /// An index names no node of the graph.
    UnknownNode,
    /// An operator was given the wrong number of inputs.
    ArityMismatch,
}

/// A node of the computation graph: the shape of its value, the nodes it was
/// computed from (in order), whether it takes part in differentiation, the
/// operator that produced it, and a diagnostic label.
pub struct Node {
    pub shape: Shape,
    pub parents: Vec<usize>,
    pub requires_grad: bool,
    pub operation: Option<OpKind>,
    pub name: Option<String>,
}

/// The optional parts of a node built by hand: by default it has no name,
/// requires a gradient, has no parents and no producing operator.
pub struct NodeConfig {
    pub name: Option<String>,
    pub requires_grad: bool,
    pub parents: Vec<usize>,
    pub operation: Option<OpKind>,
}

impl NodeConfig {
    /// The default configuration.
    pub fn new() -> (r: NodeConfig)
        ensures
            r.name is None,
            r.requires_grad,
            r.parents@.len() == 0,
            r.operation is None,
    {
        NodeConfig { name: None, requires_grad: true, parents: Vec::new(), operation: None }
    }
}

/// Where the gradient of one delivery comes from.
#[derive(Clone, Copy, Debug, PartialEq, Eq, Structural)]
pub enum Source {
    /// The seed of the backward call (ones shaped like the start node when
    /// no seed is given).
    Seed,
    /// The local gradient, for input `slot`, of the operator of the node
    /// visited at delivery `step`, applied to the gradient delivered there,
    /// with that node's parents as the operator's inputs.
    Rule { step: usize, slot: usize },
}

impl Source {
    pub open spec fn view(self) -> Option<(int, int)> {
        match self {
            Source::Seed => None,
            Source::Rule { step, slot } => Some((step as int, slot as int)),
        }
    }
}

/// One gradient delivery of a backward call: the receiving node, where its
/// gradient comes from, and whether it is added into a gradient the node
/// already holds (`true`) or becomes the node's gradient (`false`).
#[derive(Clone, Copy, Debug, PartialEq, Eq, Structural)]
pub struct Step {
    pub node: usize,
    pub source: Source,
    pub accumulate: bool,
}

impl Step {
    pub open spec fn view(self) -> Visit {
        (self.node as int, self.source@)
    }
}

/// The deliveries of a list of steps, as mathematical values.
pub open spec fn step_views(s: Seq<Step>) -> Seq<Visit> {
    s.map_values(|st: Step| st@)
}

/// The flags of the steps from `base` on say, for each delivery, whether its
/// node already held a gradient, given the state `g0` at `base`.
pub open spec fn flags_ok(s: Seq<Step>, base: int, g0: Seq<Option<nat>>) -> bool {
    forall|k: int|
        base <= k < s.len() ==> (#[trigger] s[k]).accumulate == adds_into(
            g0,
            step_views(s).subrange(base, k),
            s[k].node as int,
        )
}

/// The computation graph: an arena of nodes addressed by index, the
/// accumulated-gradient state of each, and the label registry.
pub struct Graph {
    nodes: Vec<Node>,
    has_grad: Vec<bool>,
    terms: Ghost<Seq<nat>>,
    names: NameManager,
}

/// What `apply` returns on inputs of the given shapes and the graph it leaves.
pub open spec fn applied(
    before: &Graph,
    after: &Graph,
    op: OpKind,
    inputs: Seq<usize>,
    r: Result<usize, GraphError>,
) -> bool {
    if exists|j: int| 0 <= j < inputs.len() && inputs[j] >= before.nodes().len() {
        r == Err::<usize, GraphError>(GraphError::UnknownNode) && *after == *before
    } else if inputs.len() != op.spec_arity() {
        r == Err::<usize, GraphError>(GraphError::ArityMismatch) && *after == *before
    } else {
        let ins = inputs.map_values(|p: usize| before.nodes()[p as int].shape);
        match op.spec_output_shape(ins) {
            None => r == Err::<usize, GraphError>(GraphError::ShapeMismatch) && *after == *before,
            Some(s) => {
                &&& r == Ok::<usize, GraphError>(before.nodes().len() as usize)
                &&& after.wf()
                &&& after.nodes().len() == before.nodes().len() + 1
                &&& after.nodes().subrange(0, before.nodes().len() as int) == before.nodes()
                &&& after.nodes().last().shape == s
                &&& after.nodes().last().parents@ == inputs
                &&& after.nodes().last().requires_grad
                &&& after.nodes().last().operation == Some(op)
                &&& after.nodes().last().name matches Some(l)
                    && l@ == spec_label(op.spec_label(), before.issued(op.spec_label()))
                &&& after.grads() == before.grads().push(None)
                &&& after.issued(op.spec_label()) == before.issued(op.spec_label()) + 1
                &&& forall|b: Seq<char>| b != op.spec_label() ==> after.issued(b) == before.issued(b)
            },
        }
    }
}

impl Graph {
    /// The nodes, in the order they were created.
    pub closed spec fn nodes(&self) -> Seq<Node> {
        self.nodes@
    }

    /// Accumulated-gradient state of each node (see `grads_after`).
    pub closed spec fn grads(&self) -> Seq<Option<nat>> {
        Seq::new(
            self.has_grad@.len(),
            |m: int|
                if self.has_grad@[m] {
                    Some(self.terms@[m])
                } else {
                    None
                },
        )
    }

    /// Labels issued for each operator label since creation or the last
    /// reset of the registry.
    pub closed spec fn issued(&self, b: Seq<char>) -> nat {
        self.names.issued(b)
    }

    pub closed spec fn wf(&self) -> bool {
        &&& well_formed(self.nodes@)
        &&& self.has_grad@.len() == self.nodes@.len()
        &&& self.terms@.len() == self.nodes@.len()
        &&& self.names.wf()
        &&& forall|b: Seq<char>| self.names.issued(b) <= self.nodes@.len()
    }

    /// An empty graph.
    pub fn new() -> (r: Graph)
        ensures
            r.wf(),
            r.nodes().len() == 0,
            r.grads().len() == 0,
            forall|b: Seq<char>| r.issued(b) == 0,
    {
        Graph { nodes: Vec::new(), has_grad: Vec::new(), terms: Ghost(Seq::empty()), names: NameManager::new() }
    }

    /// Number of nodes.
    pub fn len(&self) -> (r: usize)
        requires
            self.wf(),
        ensures
            r == self.nodes().len(),
            r == self.grads().len(),
    {
        self.nodes.len()
    }

    /// The node at index `i`.
    pub fn node(&self, i: usize) -> (r: &Node)
        requires
            self.wf(),
            i < self.nodes().len(),
        ensures
            *r == self.nodes()[i as int],
    {
        &self.nodes[i]
    }

    /// Whether node `i` holds an accumulated gradient.
    pub fn has_grad(&self, i: usize) -> (r: bool)
        requires
            self.wf(),
            i < self.nodes().len(),
        ensures
            r == self.grads()[i as int] is Some,
    {
        self.has_grad[i]
    }

    fn push_node(&mut self, node: Node) -> (r: usize)
        requires
            well_formed(old(self).nodes().push(node)),
            old(self).has_grad@.len() == old(self).nodes@.len(),
            old(self).terms@.len() == old(self).nodes@.len(),
            old(self).names.wf(),
            forall|b: Seq<char>| old(self).names.issued(b) <= old(self).nodes@.len() + 1,
        ensures
            final(self).wf(),
            r == old(self).nodes().len(),
            final(self).nodes() == old(self).nodes().push(node),
            final(self).grads() == old(self).grads().push(None),
            forall|b: Seq<char>| final(self).issued(b) == old(self).issued(b),
    {
        let id = self.nodes.len();
        self.nodes.push(node);
        self.has_grad.push(false);
        self.terms = Ghost(self.terms@.push(0nat));
        assert(self.grads() =~= old(self).grads().push(None));
        id
    }

    /// Adds a node with the given shape and configuration.
    ///
    /// Fails with `UnknownNode` if a parent is not a node of the graph; then,
    /// when an operator is given, with `ArityMismatch` if it does not take
    /// that many inputs, and with `ShapeMismatch` if its forward rule does not
    /// give `shape` on the parents' shapes.
    pub fn build(&mut self, shape: Shape, config: NodeConfig) -> (r: Result<usize, GraphError>)
        requires
            old(self).wf(),
        ensures
            final(self).wf(),
            (exists|j: int| 0 <= j < config.parents@.len() && config.parents@[j] >= old(self).nodes().len())
                ==> r == Err::<usize, GraphError>(GraphError::UnknownNode),
            (forall|j: int| 0 <= j < config.parents@.len() ==> config.parents@[j] < old(self).nodes().len())
                ==> match config.operation {
                None => r is Ok,
                Some(k) => if config.parents@.len() != k.spec_arity() {
                    r == Err::<usize, GraphError>(GraphError::ArityMismatch)
                } else if k.spec_output_shape(
                    config.parents@.map_values(|p: usize| old(self).nodes()[p as int].shape),
                ) != Some(shape) {
                    r == Err::<usize, GraphError>(GraphError::ShapeMismatch)
                } else {
                    r is Ok
                },
            },
            r is Err ==> *final(self) == *old(self),
            r matches Ok(id) ==> {
                &&& id == old(self).nodes().len()
                &&& final(self).nodes() == old(self).nodes().push(
                    Node {
                        shape,
                        parents: config.parents,
                        requires_grad: config.requires_grad,
                        operation: config.operation,
                        name: config.name,
                    },
                )
                &&& final(self).grads() == old(self).grads().push(None)
                &&& forall|b: Seq<char>| final(self).issued(b) == old(self).issued(b)
            },
    {
        let n = self.nodes.len();
        let mut shapes: Vec<Shape> = Vec::new();
        let mut j: usize = 0;
        while j < config.parents.len()
            invariant
                self.wf(),
                n == self.nodes@.len(),
                j <= config.parents@.len(),
                forall|q: int| 0 <= q < j ==> config.parents@[q] < n,
                shapes@ =~= config.parents@.subrange(0, j as int).map_values(
                    |p: usize| self.nodes()[p as int].shape,
                ),
            decreases config.parents@.len() - j,
        {
            let p = config.parents[j];
            if p >= n {
                return Err(GraphError::UnknownNode);
            }
            shapes.push(self.nodes[p].shape);
            j = j + 1;
            assert(shapes@ =~= config.parents@.subrange(0, j as int).map_values(
                |p: usize| self.nodes()[p as int].shape,
            ));
        }
        assert(config.parents@.subrange(0, j as int) =~= config.parents@);
        if let Some(k) = config.operation {
            if config.parents.len() != k.arity() {
                return Err(GraphError::ArityMismatch);
            }
            match k.output_shape(&shapes) {
                Some(s) => {
                    if s != shape {
                        return Err(GraphError::ShapeMismatch);
                    }
                },
                None => {
                    return Err(GraphError::ShapeMismatch);
                },
            }
        }
        let node = Node {
            shape,
            parents: config.parents,
            requires_grad: config.requires_grad,
            operation: config.operation,
            name: config.name,
        };
        proof {
            let nodes2 = self.nodes@.push(node);
            assert forall|i: int| 0 <= i < nodes2.len() && (#[trigger] nodes2[i]).operation is Some
                implies {
                let k = nodes2[i].operation->Some_0;
                &&& nodes2[i].parents@.len() == k.spec_arity()
                &&& k.spec_output_shape(parent_shapes(nodes2, i)) == Some(nodes2[i].shape)
            } by {
                if i == n {
                    assert(parent_shapes(nodes2, i) =~= shapes@);
                } else {
                    assert(nodes2[i] == self.nodes@[i]);
                    assert(parent_shapes(nodes2, i) =~= parent_shapes(self.nodes@, i));
                }
            }
        }
        Ok(self.push_node(node))
    }

    /// Adds a leaf: a node of the given shape with no parents and no
    /// producing operator.
    pub fn leaf(&mut self, shape: Shape, requires_grad: bool) -> (r: usize)
        requires
            old(self).wf(),
        ensures
            final(self).wf(),
            r == old(self).nodes().len(),
            final(self).nodes().len() == old(self).nodes().len() + 1,
            final(self).nodes().subrange(0, r as int) == old(self).nodes(),
            final(self).nodes()[r as int].shape == shape,
            final(self).nodes()[r as int].parents@.len() == 0,
            final(self).nodes()[r as int].requires_grad == requires_grad,
            final(self).nodes()[r as int].operation is None,
            final(self).nodes()[r as int].name is None,
            final(self).grads() == old(self).grads().push(None),
            forall|b: Seq<char>| final(self).issued(b) == old(self).issued(b),
    {
        let node = Node { shape, parents: Vec::new(), requires_grad, operation: None, name: None };
        proof {
            let nodes2 = self.nodes@.push(node);
            assert forall|i: int| 0 <= i < nodes2.len() && (#[trigger] nodes2[i]).operation is Some
                implies {
                let k = nodes2[i].operation->Some_0;
                &&& nodes2[i].parents@.len() == k.spec_arity()
                &&& k.spec_output_shape(parent_shapes(nodes2, i)) == Some(nodes2[i].shape)
            } by {
                assert(nodes2[i] == self.nodes@[i]);
                assert(parent_shapes(nodes2, i) =~= parent_shapes(self.nodes@, i));
            }
        }
        let r = self.push_node(node);
        assert(self.nodes().subrange(0, r as int) =~= old(self).nodes());
        r
    }

    /// Applies operator `op` to the nodes `inputs` (in order): checks the
    /// inputs, then adds the result node, which records the inputs as its
    /// parents, `op` as its producing operator, the shape of the forward
    /// result and a fresh label `op:n`. It requires a gradient whatever its
    /// inputs' flags: whether a result is differentiated is decided by the
    /// caller (by freezing it with `build`), never inferred from its inputs.
    pub fn apply(&mut self, op: OpKind, inputs: &Vec<usize>) -> (r: Result<usize, GraphError>)
        requires
            old(self).wf(),
            old(self).nodes().len() < usize::MAX,
        ensures
            applied(old(self), final(self), op, inputs@, r),
    {
        let n = self.nodes.len();
        let mut shapes: Vec<Shape> = Vec::new();
        let mut j: usize = 0;
        while j < inputs.len()
            invariant
                self.wf(),
                *self == *old(self),
                n == self.nodes@.len(),
                j <= inputs@.len(),
                forall|q: int| 0 <= q < j ==> inputs@[q] < n,
                shapes@ =~= inputs@.subrange(0, j as int).map_values(
                    |p: usize| self.nodes()[p as int].shape,
                ),
            decreases inputs@.len() - j,
        {
            let p = inputs[j];
            if p >= n {
                return Err(GraphError::UnknownNode);
            }
            shapes.push(self.nodes[p].shape);
            j = j + 1;
            assert(shapes@ =~= inputs@.subrange(0, j as int).map_values(
                |p: usize| self.nodes()[p as int].shape,
            ));
        }
        assert(inputs@.subrange(0, j as int) =~= inputs@);
        if inputs.len() != op.arity() {
            return Err(GraphError::ArityMismatch);
        }
        let shape = match op.output_shape(&shapes) {
            Some(s) => s,
            None => {
                return Err(GraphError::ShapeMismatch);
            },
        };
        proof {
            assert(usize::MAX <= u64::MAX);
        }
        let label = self.names.new_name(op.label());
        let node = Node {
            shape,
            parents: inputs.clone(),
            requires_grad: true,
            operation: Some(op),
            name: Some(label),
        };
        proof {
            let nodes2 = self.nodes@.push(node);
            assert forall|i: int| 0 <= i < nodes2.len() && (#[trigger] nodes2[i]).operation is Some
                implies {
                let k = nodes2[i].operation->Some_0;
                &&& nodes2[i].parents@.len() == k.spec_arity()
                &&& k.spec_output_shape(parent_shapes(nodes2, i)) == Some(nodes2[i].shape)
            } by {
                if i == n {
                    assert(parent_shapes(nodes2, i) =~= shapes@);
                } else {
                    assert(nodes2[i] == self.nodes@[i]);
                    assert(parent_shapes(nodes2, i) =~= parent_shapes(self.nodes@, i));
                }
            }
        }
        let r = self.push_node(node);
        assert(self.nodes().subrange(0, n as int) =~= old(self).nodes());
        Ok(r)
    }

    /// Starts numbering labels afresh, for an independent graph build.
    pub fn reset_names(&mut self)
        requires
            old(self).wf(),
        ensures
            final(self).wf(),
            final(self).nodes() == old(self).nodes(),
            final(self).grads() == old(self).grads(),
            forall|b: Seq<char>| final(self).issued(b) == 0,
    {
        self.names.reset();
    }

    /// Resets the accumulated gradient of node `i` to zeros, creating it if
    /// absent. Returns whether a gradient was present (so that the holder of
    /// the arrays fills it with zeros in place rather than creating one).
    pub fn zero_grad(&mut self, i: usize) -> (r: bool)
        requires
            old(self).wf(),
            i < old(self).nodes().len(),
        ensures
            final(self).wf(),
            final(self).nodes() == old(self).nodes(),
            final(self).grads() == zeroed(old(self).grads(), i as int),
            r == old(self).grads()[i as int] is Some,
            forall|b: Seq<char>| final(self).issued(b) == old(self).issued(b),
    {
        let r = self.has_grad[i];
        self.has_grad.set(i, true);
        self.terms = Ghost(self.terms@.update(i as int, 0nat));
        assert(self.grads() =~= zeroed(old(self).grads(), i as int));
        r
    }

    /// Checks a replacement value of shape `shape` for node `i`: it must keep
    /// the node's shape, so that the gradient and every node computed from
    /// it stay consistent. The graph itself holds no values and is unchanged.
    pub fn set_values(&self, i: usize, shape: Shape) -> (r: Result<(), GraphError>)
        requires
            self.wf(),
            i < self.nodes().len(),
        ensures
            r is Ok <==> shape == self.nodes()[i as int].shape,
            r is Err ==> r == Err::<(), GraphError>(GraphError::ShapeMismatch),
    {
        if shape == self.nodes[i].shape {
            Ok(())
        } else {
            Err(GraphError::ShapeMismatch)
        }
    }

    /// Checks that node `i` is a 1×1 scalar, as a loss must be.
    pub fn expect_scalar(&self, i: usize) -> (r: Result<(), GraphError>)
        requires
            self.wf(),
            i < self.nodes().len(),
        ensures
            r is Ok <==> (self.nodes()[i as int].shape == Shape { rows: 1, cols: 1 }),
            r is Err ==> r == Err::<(), GraphError>(GraphError::ScalarExpectation),
    {
        if self.nodes[i].shape.is_scalar() {
            Ok(())
        } else {
            Err(GraphError::ScalarExpectation)
        }
    }

    /// Checks that node `i` holds an accumulated gradient, as an optimizer
    /// step needs before it updates the node.
    pub fn expect_grad(&self, i: usize) -> (r: Result<(), GraphError>)
        requires
            self.wf(),
            i < self.nodes().len(),
        ensures
            r is Ok <==> self.grads()[i as int] is Some,
            r is Err ==> r == Err::<(), GraphError>(GraphError::MissingGradient),
    {
        if self.has_grad[i] {
            Ok(())
        } else {
            Err(GraphError::MissingGradient)
        }
    }

    /// One visit of the traversal: delivers the gradient described by
    /// `from` to node `n` and recurses into its parents. `base` is where the
    /// current backward call started in `steps`, and `g0` the gradient state
    /// at that moment.
    fn visit(
        &mut self,
        n: usize,
        from: Source,
        steps: &mut Vec<Step>,
        Ghost(base): Ghost<int>,
        Ghost(g0): Ghost<Seq<Option<nat>>>,
    )
        requires
            old(self).wf(),
            n < old(self).nodes().len(),
            0 <= base <= old(steps)@.len(),
            g0.len() == old(self).nodes().len(),
            old(self).grads() == grads_after(g0, step_views(old(steps)@).subrange(base, old(steps)@.len() as int)),
            flags_ok(old(steps)@, base, g0),
        ensures
            final(self).wf(),
            final(self).nodes() == old(self).nodes(),
            forall|b: Seq<char>| final(self).issued(b) == old(self).issued(b),
            step_views(final(steps)@) == step_views(old(steps)@) + trace(
                old(self).nodes(),
                n as int,
                from@,
                old(steps)@.len() as int,
            ),
            final(self).grads() == grads_after(g0, step_views(final(steps)@).subrange(base, final(steps)@.len() as int)),
            flags_ok(final(steps)@, base, g0),
        decreases n,
    {
        let ghost nodes = self.nodes@;
        let ghost start = step_views(steps@);
        if !self.nodes[n].requires_grad {
            assert(trace(nodes, n as int, from@, steps@.len() as int) =~= Seq::<Visit>::empty());
            assert(step_views(steps@) =~= start + Seq::<Visit>::empty());
            return;
        }
        let at = steps.len();
        let acc = self.has_grad[n];
        let ghost before = step_views(steps@).subrange(base, at as int);
        steps.push(Step { node: n, source: from, accumulate: acc });
        let ghost c: nat = if acc { self.terms@[n as int] + 1 } else { 1nat };
        self.has_grad.set(n, true);
        self.terms = Ghost(self.terms@.update(n as int, c));
        proof {
            let after = step_views(steps@).subrange(base, steps@.len() as int);
            assert(step_views(steps@) =~= start.push((n as int, from@)));
            assert(after =~= before.push((n as int, from@)));
            assert(step_views(steps@).subrange(base, at as int) =~= before);
            assert forall|m: int| 0 <= m < nodes.len() implies visits(after, m) == visits(before, m) + if m == n { 1nat } else { 0nat } by {
                assert(after.drop_last() =~= before);
            }
            let old_g = grads_after(g0, before);
            assert(old_g[n as int] == old(self).grads()[n as int]);
            assert(old(self).grads()[n as int] == if acc { Some(old(self).terms@[n as int]) } else { None });
            assert forall|m: int| 0 <= m < nodes.len() implies self.grads()[m] == grads_after(g0, after)[m] by {
                if m == n {
                    assert(self.grads()[m] == Some(c));
                } else {
                    assert(self.grads()[m] == old(self).grads()[m]);
                }
            }
            assert(self.grads() =~= grads_after(g0, after));
            assert forall|k: int| base <= k < steps@.len() implies (#[trigger] steps@[k]).accumulate == adds_into(
                g0,
                step_views(steps@).subrange(base, k),
                steps@[k].node as int,
            ) by {
                if k < at {
                    assert(step_views(steps@).subrange(base, k) =~= step_views(old(steps)@).subrange(base, k));
                    assert(steps@[k] == old(steps)@[k]);
                } else {
                    assert(steps@[k].accumulate == acc);
                    assert(adds_into(g0, before, n as int) == (old_g[n as int] is Some));
                }
            }
        }
        if self.nodes[n].operation.is_some() {
            let count = self.nodes[n].parents.len();
            let mut i: usize = 0;
            while i < count
                invariant
                    self.wf(),
                    self.nodes() == nodes,
                    forall|b: Seq<char>| self.issued(b) == old(self).issued(b),
                    well_formed(nodes),
                    n < nodes.len(),
                    nodes[n as int].requires_grad,
                    nodes[n as int].operation is Some,
                    count == nodes[n as int].parents@.len(),
                    i <= count,
                    at == old(steps)@.len(),
                    at < steps@.len(),
                    0 <= base <= at,
                    g0.len() == nodes.len(),
                    step_views(steps@) + parents_trace(nodes, n as int, i as int, at as int, steps@.len() as int)
                        == start + trace(nodes, n as int, from@, at as int),
                    self.grads() == grads_after(g0, step_views(steps@).subrange(base, steps@.len() as int)),
                    flags_ok(steps@, base, g0),
                decreases count - i,
            {
                let p = self.nodes[n].parents[i];
                let ghost cur = step_views(steps@);
                proof {
                    assert(p < n);
                }
                self.visit(p, Source::Rule { step: at, slot: i }, steps, Ghost(base), Ghost(g0));
                proof {
                    let t = trace(nodes, p as int, Some((at as int, i as int)), cur.len() as int);
                    assert(parents_trace(nodes, n as int, i as int, at as int, cur.len() as int)
                        == t + parents_trace(nodes, n as int, i + 1, at as int, (cur.len() + t.len()) as int));
                    assert(cur + (t + parents_trace(nodes, n as int, i + 1, at as int, (cur.len() + t.len()) as int))
                        =~= (cur + t) + parents_trace(nodes, n as int, i + 1, at as int, (cur.len() + t.len()) as int));
                    assert(step_views(steps@).len() == steps@.len());
                }
                i = i + 1;
            }
            proof {
                assert(parents_trace(nodes, n as int, i as int, at as int, steps@.len() as int) =~= Seq::<Visit>::empty());
                assert(step_views(steps@) =~= step_views(steps@) + Seq::<Visit>::empty());
            }
        } else {
            assert(step_views(steps@) =~= start + trace(nodes, n as int, from@, at as int));
        }
    }

    /// Propagates gradients backward from node `start`.
    ///
    /// `seed` is the shape of the seed gradient when one is given; without
    /// one the seed is ones shaped like `start`. Fails with `ShapeMismatch`,
    /// changing nothing, if the seed is not shaped like `start`. Otherwise
    /// returns the deliveries in the order they are made: exactly
    /// `trace(nodes, start, None, 0)`, each flagged with whether it adds into
    /// a gradient its node already holds, and leaves each node's gradient
    /// state as `grads_after` gives.
    pub fn backward(&mut self, start: usize, seed: Option<Shape>) -> (r: Result<Vec<Step>, GraphError>)
        requires
            old(self).wf(),
            start < old(self).nodes().len(),
        ensures
            final(self).wf(),
            final(self).nodes() == old(self).nodes(),
            forall|b: Seq<char>| final(self).issued(b) == old(self).issued(b),
            match seed {
                Some(s) => s != old(self).nodes()[start as int].shape,
                None => false,
            } ==> r == Err::<Vec<Step>, GraphError>(GraphError::ShapeMismatch) && *final(self) == *old(self),
            match seed {
                Some(s) => s == old(self).nodes()[start as int].shape,
                None => true,
            } ==> (r matches Ok(steps) && {
                &&& step_views(steps@) == trace(old(self).nodes(), start as int, None, 0)
                &&& final(self).grads() == grads_after(old(self).grads(), step_views(steps@))
                &&& flags_ok(steps@, 0, old(self).grads())
            }),
    {
        if let Some(s) = seed {
            if s != self.nodes[start].shape {
                return Err(GraphError::ShapeMismatch);
            }
        }
        let mut steps: Vec<Step> = Vec::new();
        let ghost g0 = self.grads();
        proof {
            assert(step_views(steps@).subrange(0, 0) =~= Seq::<Visit>::empty());
            assert(grads_after(g0, Seq::<Visit>::empty()) =~= g0);
        }
        self.visit(start, Source::Seed, &mut steps, Ghost(0), Ghost(g0));
        assert(step_views(steps@).subrange(0, steps@.len() as int) =~= step_views(steps@));
        assert(step_views(steps@) =~= trace(old(self).nodes(), start as int, None, 0));
        Ok(steps)
    }
}

} // verus!
