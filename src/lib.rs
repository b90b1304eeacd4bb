//! Reverse-mode automatic differentiation over two-dimensional arrays.
//!
//! The library keeps the computation graph as an arena of nodes addressed by
//! index: each node records its shape, its parents, whether it takes part in
//! differentiation and which operator produced it. Construction checks the
//! operators' shape rules, and the backward traversal yields the exact list of
//! gradient deliveries (which node receives which operator's local gradient,
//! and whether it is stored or added to what the node already holds). The
//! numeric arrays themselves are held by the caller alongside the arena.

mod shape;
mod op;
mod names;
mod graph;
mod trace;
mod functions;
mod laws;

pub use shape::Shape;
pub use op::OpKind;
pub use names::NameManager;
pub use graph::{Graph, GraphError, Node, NodeConfig, Source, Step, applied, step_views, flags_ok};
pub use trace::{Visit, well_formed, parent_shapes, trace, parents_trace, visits, grads_after, adds_into, zeroed};
pub use names::{decimal, digit_char, spec_label};
pub use laws::{lemma_fan_out_adds, lemma_frozen_stops, lemma_frozen_never_receives, lemma_zero_grad_idempotent, lemma_zero_grad_after_backward, lemma_trace_wiring, feeds, lemma_delivered_shapes, delivered_shape};
pub use op::lemma_grad_shape_is_input_shape;
pub use functions::{Add, Cos, Exp, Ln, MatMul, Prod, ReLU, Sigmoid, Sin, Softmax, Square, Sub, Sum, Tanh};
