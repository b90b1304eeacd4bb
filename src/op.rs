use vstd::prelude::*;
use crate::shape::Shape;

verus! {

/// The differentiable operators: each pairs a forward rule with the exact
/// local gradient rule for each of its inputs.
#[derive(Clone, Copy, Debug, PartialEq, Eq, Structural)]
pub enum OpKind {
    /// `a + b`; gradients `g`, `g`.
    Add,
    /// `a - b`; gradients `g`, `-g`.
    Sub,
    /// Elementwise `a ∘ b`; gradients `g ∘ b`, `g ∘ a`.
    Prod,
    /// Matrix product `a · b`; gradients `g · bᵗ`, `aᵗ · g`.
    MatMul,
    /// `a ∘ a`; gradient `g ∘ 2a`.
    Square,
    /// Natural logarithm; gradient `g ∘ (1 / a)`.
    Ln,
    /// `e^a`; gradient `g ∘ e^a`.
    Exp,
    /// `sin a`; gradient `g ∘ cos a`.
    Sin,
    /// `cos a`; gradient `g ∘ (-sin a)`.
    Cos,
    /// Sum of all cells, a 1×1 result; gradient: `g`'s scalar in every cell.
    Sum,
    /// `max(a, 0)`; gradient `g ∘ (a > 0 ? 1 : 0)`.
    ReLU,
    /// `1 / (1 + e^-a)`; gradient `g ∘ σ(a) ∘ (1 - σ(a))`.
    Sigmoid,
    /// `tanh a`; gradient `g ∘ (1 - tanh² a)`.
    Tanh,
    /// `e^a / Σ e^a` over the flattened array; gradient `Jᵗ · g` with the
    /// full Jacobian `J[i][k] = y_i (δ_ik - y_k)`, reshaped to `a`'s shape.
    Softmax,
}

impl OpKind {
    /// Number of inputs the operator takes.
    pub open spec fn spec_arity(self) -> nat {
        match self {
            OpKind::Add | OpKind::Sub | OpKind::Prod | OpKind::MatMul => 2,
            _ => 1,
        }
    }

    /// The diagnostic label of the operator kind.
    pub open spec fn spec_label(self) -> Seq<char> {
        match self {
            OpKind::Add => "add"@,
            OpKind::Sub => "sub"@,
            OpKind::Prod => "prod"@,
            OpKind::MatMul => "matmul"@,
            OpKind::Square => "square"@,
            OpKind::Ln => "ln"@,
            OpKind::Exp => "exp"@,
            OpKind::Sin => "sin"@,
            OpKind::Cos => "cos"@,
            OpKind::Sum => "sum"@,
            OpKind::ReLU => "relu"@,
            OpKind::Sigmoid => "sigmoid"@,
            OpKind::Tanh => "tanh"@,
            OpKind::Softmax => "softmax"@,
        }
    }

    /// Shape of the forward result on inputs of the given shapes; `None` when
    /// the count of inputs or their shapes do not fit the operator.
    pub open spec fn spec_output_shape(self, ins: Seq<Shape>) -> Option<Shape> {
        if ins.len() != self.spec_arity() {
            None
        } else {
            match self {
                OpKind::Add | OpKind::Sub | OpKind::Prod => {
                    if ins[0] == ins[1] {
                        Some(ins[0])
                    } else {
                        None
                    }
                },
                OpKind::MatMul => {
                    if ins[0].cols == ins[1].rows {
                        Some(Shape { rows: ins[0].rows, cols: ins[1].cols })
                    } else {
                        None
                    }
                },
                OpKind::Sum => Some(Shape { rows: 1, cols: 1 }),
                _ => Some(ins[0]),
            }
        }
    }

    /// Shape of the local gradient for input `i`, as the gradient formula
    /// computes it from the upstream gradient of shape `g`; `None` where the
    /// formula's operands do not fit together.
    pub open spec fn spec_grad_shape(self, ins: Seq<Shape>, g: Shape, i: int) -> Option<Shape> {
        match self {
            OpKind::Add | OpKind::Sub => Some(g),
            OpKind::Prod => {
                if g == ins[1 - i] {
                    Some(g)
                } else {
                    None
                }
            },
            OpKind::MatMul => {
                if i == 0 {
                    if g.cols == ins[1].cols {
                        Some(Shape { rows: g.rows, cols: ins[1].rows })
                    } else {
                        None
                    }
                } else {
                    if ins[0].rows == g.rows {
                        Some(Shape { rows: ins[0].cols, cols: g.cols })
                    } else {
                        None
                    }
                }
            },
            OpKind::Sum => {
                if g.rows == 1 && g.cols == 1 {
                    Some(ins[0])
                } else {
                    None
                }
            },
            OpKind::Softmax => {
                if g.cells() == ins[0].cells() {
                    Some(ins[0])
                } else {
                    None
                }
            },
            _ => {
                if g == ins[0] {
                    Some(g)
                } else {
                    None
                }
            },
        }
    }

    /// Number of inputs the operator takes.
    pub fn arity(&self) -> (r: usize)
        ensures
            r == self.spec_arity(),
    {
        match self {
            OpKind::Add | OpKind::Sub | OpKind::Prod | OpKind::MatMul => 2,
            _ => 1,
        }
    }

    /// The diagnostic label of the operator kind.
    pub fn label(&self) -> (r: &'static str)
        ensures
            r@ == self.spec_label(),
    {
        match self {
            OpKind::Add => "add",
            OpKind::Sub => "sub",
            OpKind::Prod => "prod",
            OpKind::MatMul => "matmul",
            OpKind::Square => "square",
            OpKind::Ln => "ln",
            OpKind::Exp => "exp",
            OpKind::Sin => "sin",
            OpKind::Cos => "cos",
            OpKind::Sum => "sum",
            OpKind::ReLU => "relu",
            OpKind::Sigmoid => "sigmoid",
            OpKind::Tanh => "tanh",
            OpKind::Softmax => "softmax",
        }
    }

    /// Shape of the forward result, or `None` where the inputs do not fit.
    pub fn output_shape(&self, ins: &Vec<Shape>) -> (r: Option<Shape>)
        ensures
            r == self.spec_output_shape(ins@),
    {
        if ins.len() != self.arity() {
            return None;
        }
        match self {
            OpKind::Add | OpKind::Sub | OpKind::Prod => {
                if ins[0] == ins[1] {
                    Some(ins[0])
                } else {
                    None
                }
            },
            OpKind::MatMul => {
                if ins[0].cols == ins[1].rows {
                    Some(Shape { rows: ins[0].rows, cols: ins[1].cols })
                } else {
                    None
                }
            },
            OpKind::Sum => Some(Shape::scalar()),
            _ => Some(ins[0]),
        }
    }

    /// Shape of the local gradient for input `i`, or `None` where the
    /// formula's operands do not fit together.
    pub fn grad_shape(&self, ins: &Vec<Shape>, g: Shape, i: usize) -> (r: Option<Shape>)
        requires
            ins.len() == self.spec_arity(),
            i < ins.len(),
        ensures
            r == self.spec_grad_shape(ins@, g, i as int),
    {
        match self {
            OpKind::Add | OpKind::Sub => Some(g),
            OpKind::Prod => {
                if g == ins[1 - i] {
                    Some(g)
                } else {
                    None
                }
            },
            OpKind::MatMul => {
                if i == 0 {
                    if g.cols == ins[1].cols {
                        Some(Shape { rows: g.rows, cols: ins[1].rows })
                    } else {
                        None
                    }
                } else {
                    if ins[0].rows == g.rows {
                        Some(Shape { rows: ins[0].cols, cols: g.cols })
                    } else {
                        None
                    }
                }
            },
            OpKind::Sum => {
                if g.is_scalar() {
                    Some(ins[0])
                } else {
                    None
                }
            },
            OpKind::Softmax => {
                if g.same_cells(&ins[0]) {
                    Some(ins[0])
                } else {
                    None
                }
            },
            _ => {
                if g == ins[0] {
                    Some(g)
                } else {
                    None
                }
            },
        }
    }
}

/// Every operator's local gradient for input `i`, taken from an upstream
/// gradient shaped like the forward result, is defined and has exactly the
/// shape of input `i`.
pub proof fn lemma_grad_shape_is_input_shape(k: OpKind, ins: Seq<Shape>, i: int)
    requires
        k.spec_output_shape(ins) is Some,
        0 <= i < ins.len(),
    ensures
        k.spec_grad_shape(ins, k.spec_output_shape(ins)->Some_0, i) == Some(ins[i]),
{
}

} // verus!
