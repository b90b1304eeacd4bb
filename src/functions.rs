use vstd::prelude::*;
use crate::op::OpKind;
use crate::graph::{Graph, GraphError, applied};

verus! {

/// Elementwise sum of two arrays of one shape.
#[derive(Clone, Copy, Debug)]
pub struct Add {}

impl Add {
    /// The operator.
    pub fn new() -> (r: Add)
        ensures
            r.spec_kind() == OpKind::Add,
    {
        Add {}
    }

    pub open spec fn spec_kind(&self) -> OpKind {
        OpKind::Add
    }

    /// Its kind, as recorded in the nodes it produces.
    pub fn kind(&self) -> (r: OpKind)
        ensures
            r == OpKind::Add,
    {
        OpKind::Add
    }

    /// Applies the operator to `inputs` in `graph` (see `Graph::apply`).
    pub fn apply(&self, graph: &mut Graph, inputs: &Vec<usize>) -> (r: Result<usize, GraphError>)
        requires
            old(graph).wf(),
            old(graph).nodes().len() < usize::MAX,
        ensures
            applied(old(graph), final(graph), OpKind::Add, inputs@, r),
    {
        graph.apply(OpKind::Add, inputs)
    }
}

/// Elementwise difference of two arrays of one shape.
#[derive(Clone, Copy, Debug)]
pub struct Sub {}

impl Sub {
    /// The operator.
    pub fn new() -> (r: Sub)
        ensures
            r.spec_kind() == OpKind::Sub,
    {
        Sub {}
    }

    pub open spec fn spec_kind(&self) -> OpKind {
        OpKind::Sub
    }

    /// Its kind, as recorded in the nodes it produces.
    pub fn kind(&self) -> (r: OpKind)
        ensures
            r == OpKind::Sub,
    {
        OpKind::Sub
    }

    /// Applies the operator to `inputs` in `graph` (see `Graph::apply`).
    pub fn apply(&self, graph: &mut Graph, inputs: &Vec<usize>) -> (r: Result<usize, GraphError>)
        requires
            old(graph).wf(),
            old(graph).nodes().len() < usize::MAX,
        ensures
            applied(old(graph), final(graph), OpKind::Sub, inputs@, r),
    {
        graph.apply(OpKind::Sub, inputs)
    }
}

/// Elementwise product of two arrays of one shape.
#[derive(Clone, Copy, Debug)]
pub struct Prod {}

impl Prod {
    /// The operator.
    pub fn new() -> (r: Prod)
        ensures
            r.spec_kind() == OpKind::Prod,
    {
        Prod {}
    }

    pub open spec fn spec_kind(&self) -> OpKind {
        OpKind::Prod
    }

    /// Its kind, as recorded in the nodes it produces.
    pub fn kind(&self) -> (r: OpKind)
        ensures
            r == OpKind::Prod,
    {
        OpKind::Prod
    }

    /// Applies the operator to `inputs` in `graph` (see `Graph::apply`).
    pub fn apply(&self, graph: &mut Graph, inputs: &Vec<usize>) -> (r: Result<usize, GraphError>)
        requires
            old(graph).wf(),
            old(graph).nodes().len() < usize::MAX,
        ensures
            applied(old(graph), final(graph), OpKind::Prod, inputs@, r),
    {
        graph.apply(OpKind::Prod, inputs)
    }
}

/// Matrix product; the inner dimensions must agree.
#[derive(Clone, Copy, Debug)]
pub struct MatMul {}

impl MatMul {
    /// The operator.
    pub fn new() -> (r: MatMul)
        ensures
            r.spec_kind() == OpKind::MatMul,
    {
        MatMul {}
    }

    pub open spec fn spec_kind(&self) -> OpKind {
        OpKind::MatMul
    }

    /// Its kind, as recorded in the nodes it produces.
    pub fn kind(&self) -> (r: OpKind)
        ensures
            r == OpKind::MatMul,
    {
        OpKind::MatMul
    }

    /// Applies the operator to `inputs` in `graph` (see `Graph::apply`).
    pub fn apply(&self, graph: &mut Graph, inputs: &Vec<usize>) -> (r: Result<usize, GraphError>)
        requires
            old(graph).wf(),
            old(graph).nodes().len() < usize::MAX,
        ensures
            applied(old(graph), final(graph), OpKind::MatMul, inputs@, r),
    {
        graph.apply(OpKind::MatMul, inputs)
    }
}

/// Elementwise square.
#[derive(Clone, Copy, Debug)]
pub struct Square {}

impl Square {
    /// The operator.
    pub fn new() -> (r: Square)
        ensures
            r.spec_kind() == OpKind::Square,
    {
        Square {}
    }

    pub open spec fn spec_kind(&self) -> OpKind {
        OpKind::Square
    }

    /// Its kind, as recorded in the nodes it produces.
    pub fn kind(&self) -> (r: OpKind)
        ensures
            r == OpKind::Square,
    {
        OpKind::Square
    }

    /// Applies the operator to `inputs` in `graph` (see `Graph::apply`).
    pub fn apply(&self, graph: &mut Graph, inputs: &Vec<usize>) -> (r: Result<usize, GraphError>)
        requires
            old(graph).wf(),
            old(graph).nodes().len() < usize::MAX,
        ensures
            applied(old(graph), final(graph), OpKind::Square, inputs@, r),
    {
        graph.apply(OpKind::Square, inputs)
    }
}

/// Elementwise natural logarithm.
#[derive(Clone, Copy, Debug)]
pub struct Ln {}

impl Ln {
    /// The operator.
    pub fn new() -> (r: Ln)
        ensures
            r.spec_kind() == OpKind::Ln,
    {
        Ln {}
    }

    pub open spec fn spec_kind(&self) -> OpKind {
        OpKind::Ln
    }

    /// Its kind, as recorded in the nodes it produces.
    pub fn kind(&self) -> (r: OpKind)
        ensures
            r == OpKind::Ln,
    {
        OpKind::Ln
    }

    /// Applies the operator to `inputs` in `graph` (see `Graph::apply`).
    pub fn apply(&self, graph: &mut Graph, inputs: &Vec<usize>) -> (r: Result<usize, GraphError>)
        requires
            old(graph).wf(),
            old(graph).nodes().len() < usize::MAX,
        ensures
            applied(old(graph), final(graph), OpKind::Ln, inputs@, r),
    {
        graph.apply(OpKind::Ln, inputs)
    }
}

/// Elementwise exponential.
#[derive(Clone, Copy, Debug)]
pub struct Exp {}

impl Exp {
    /// The operator.
    pub fn new() -> (r: Exp)
        ensures
            r.spec_kind() == OpKind::Exp,
    {
        Exp {}
    }

    pub open spec fn spec_kind(&self) -> OpKind {
        OpKind::Exp
    }

    /// Its kind, as recorded in the nodes it produces.
    pub fn kind(&self) -> (r: OpKind)
        ensures
            r == OpKind::Exp,
    {
        OpKind::Exp
    }

    /// Applies the operator to `inputs` in `graph` (see `Graph::apply`).
    pub fn apply(&self, graph: &mut Graph, inputs: &Vec<usize>) -> (r: Result<usize, GraphError>)
        requires
            old(graph).wf(),
            old(graph).nodes().len() < usize::MAX,
        ensures
            applied(old(graph), final(graph), OpKind::Exp, inputs@, r),
    {
        graph.apply(OpKind::Exp, inputs)
    }
}

/// Elementwise sine.
#[derive(Clone, Copy, Debug)]
pub struct Sin {}

impl Sin {
    /// The operator.
    pub fn new() -> (r: Sin)
        ensures
            r.spec_kind() == OpKind::Sin,
    {
        Sin {}
    }

    pub open spec fn spec_kind(&self) -> OpKind {
        OpKind::Sin
    }

    /// Its kind, as recorded in the nodes it produces.
    pub fn kind(&self) -> (r: OpKind)
        ensures
            r == OpKind::Sin,
    {
        OpKind::Sin
    }

    /// Applies the operator to `inputs` in `graph` (see `Graph::apply`).
    pub fn apply(&self, graph: &mut Graph, inputs: &Vec<usize>) -> (r: Result<usize, GraphError>)
        requires
            old(graph).wf(),
            old(graph).nodes().len() < usize::MAX,
        ensures
            applied(old(graph), final(graph), OpKind::Sin, inputs@, r),
    {
        graph.apply(OpKind::Sin, inputs)
    }
}

/// Elementwise cosine.
#[derive(Clone, Copy, Debug)]
pub struct Cos {}

impl Cos {
    /// The operator.
    pub fn new() -> (r: Cos)
        ensures
            r.spec_kind() == OpKind::Cos,
    {
        Cos {}
    }

    pub open spec fn spec_kind(&self) -> OpKind {
        OpKind::Cos
    }

    /// Its kind, as recorded in the nodes it produces.
    pub fn kind(&self) -> (r: OpKind)
        ensures
            r == OpKind::Cos,
    {
        OpKind::Cos
    }

    /// Applies the operator to `inputs` in `graph` (see `Graph::apply`).
    pub fn apply(&self, graph: &mut Graph, inputs: &Vec<usize>) -> (r: Result<usize, GraphError>)
        requires
            old(graph).wf(),
            old(graph).nodes().len() < usize::MAX,
        ensures
            applied(old(graph), final(graph), OpKind::Cos, inputs@, r),
    {
        graph.apply(OpKind::Cos, inputs)
    }
}

/// Sum of all cells, as a 1×1 array.
#[derive(Clone, Copy, Debug)]
pub struct Sum {}

impl Sum {
    /// The operator.
    pub fn new() -> (r: Sum)
        ensures
            r.spec_kind() == OpKind::Sum,
    {
        Sum {}
    }

    pub open spec fn spec_kind(&self) -> OpKind {
        OpKind::Sum
    }

    /// Its kind, as recorded in the nodes it produces.
    pub fn kind(&self) -> (r: OpKind)
        ensures
            r == OpKind::Sum,
    {
        OpKind::Sum
    }

    /// Applies the operator to `inputs` in `graph` (see `Graph::apply`).
    pub fn apply(&self, graph: &mut Graph, inputs: &Vec<usize>) -> (r: Result<usize, GraphError>)
        requires
            old(graph).wf(),
            old(graph).nodes().len() < usize::MAX,
        ensures
            applied(old(graph), final(graph), OpKind::Sum, inputs@, r),
    {
        graph.apply(OpKind::Sum, inputs)
    }
}

/// Elementwise `max(a, 0)`.
#[derive(Clone, Copy, Debug)]
pub struct ReLU {}

impl ReLU {
    /// The operator.
    pub fn new() -> (r: ReLU)
        ensures
            r.spec_kind() == OpKind::ReLU,
    {
        ReLU {}
    }

    pub open spec fn spec_kind(&self) -> OpKind {
        OpKind::ReLU
    }

    /// Its kind, as recorded in the nodes it produces.
    pub fn kind(&self) -> (r: OpKind)
        ensures
            r == OpKind::ReLU,
    {
        OpKind::ReLU
    }

    /// Applies the operator to `inputs` in `graph` (see `Graph::apply`).
    pub fn apply(&self, graph: &mut Graph, inputs: &Vec<usize>) -> (r: Result<usize, GraphError>)
        requires
            old(graph).wf(),
            old(graph).nodes().len() < usize::MAX,
        ensures
            applied(old(graph), final(graph), OpKind::ReLU, inputs@, r),
    {
        graph.apply(OpKind::ReLU, inputs)
    }
}

/// Elementwise logistic function.
#[derive(Clone, Copy, Debug)]
pub struct Sigmoid {}

impl Sigmoid {
    /// The operator.
    pub fn new() -> (r: Sigmoid)
        ensures
            r.spec_kind() == OpKind::Sigmoid,
    {
        Sigmoid {}
    }

    pub open spec fn spec_kind(&self) -> OpKind {
        OpKind::Sigmoid
    }

    /// Its kind, as recorded in the nodes it produces.
    pub fn kind(&self) -> (r: OpKind)
        ensures
            r == OpKind::Sigmoid,
    {
        OpKind::Sigmoid
    }

    /// Applies the operator to `inputs` in `graph` (see `Graph::apply`).
    pub fn apply(&self, graph: &mut Graph, inputs: &Vec<usize>) -> (r: Result<usize, GraphError>)
        requires
            old(graph).wf(),
            old(graph).nodes().len() < usize::MAX,
        ensures
            applied(old(graph), final(graph), OpKind::Sigmoid, inputs@, r),
    {
        graph.apply(OpKind::Sigmoid, inputs)
    }
}

/// Elementwise hyperbolic tangent.
#[derive(Clone, Copy, Debug)]
pub struct Tanh {}

impl Tanh {
    /// The operator.
    pub fn new() -> (r: Tanh)
        ensures
            r.spec_kind() == OpKind::Tanh,
    {
        Tanh {}
    }

    pub open spec fn spec_kind(&self) -> OpKind {
        OpKind::Tanh
    }

    /// Its kind, as recorded in the nodes it produces.
    pub fn kind(&self) -> (r: OpKind)
        ensures
            r == OpKind::Tanh,
    {
        OpKind::Tanh
    }

    /// Applies the operator to `inputs` in `graph` (see `Graph::apply`).
    pub fn apply(&self, graph: &mut Graph, inputs: &Vec<usize>) -> (r: Result<usize, GraphError>)
        requires
            old(graph).wf(),
            old(graph).nodes().len() < usize::MAX,
        ensures
            applied(old(graph), final(graph), OpKind::Tanh, inputs@, r),
    {
        graph.apply(OpKind::Tanh, inputs)
    }
}

/// Softmax over the whole array, flattened.
#[derive(Clone, Copy, Debug)]
pub struct Softmax {}

impl Softmax {
    /// The operator.
    pub fn new() -> (r: Softmax)
        ensures
            r.spec_kind() == OpKind::Softmax,
    {
        Softmax {}
    }

    pub open spec fn spec_kind(&self) -> OpKind {
        OpKind::Softmax
    }

    /// Its kind, as recorded in the nodes it produces.
    pub fn kind(&self) -> (r: OpKind)
        ensures
            r == OpKind::Softmax,
    {
        OpKind::Softmax
    }

    /// Applies the operator to `inputs` in `graph` (see `Graph::apply`).
    pub fn apply(&self, graph: &mut Graph, inputs: &Vec<usize>) -> (r: Result<usize, GraphError>)
        requires
            old(graph).wf(),
            old(graph).nodes().len() < usize::MAX,
        ensures
            applied(old(graph), final(graph), OpKind::Softmax, inputs@, r),
    {
        graph.apply(OpKind::Softmax, inputs)
    }
}

} // verus!
