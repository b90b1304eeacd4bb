use autograd::{Graph, GraphError, NameManager, NodeConfig, OpKind, Shape, Source, Step};
use autograd::{Add, Cos, Exp, Ln, MatMul, Prod, ReLU, Sigmoid, Sin, Softmax, Square, Sub, Sum, Tanh};

fn step(node: usize, source: Source, accumulate: bool) -> Step {
    Step { node, source, accumulate }
}

#[test]
fn labels_count_per_base_name() {
    let mut names = NameManager::new();
    assert_eq!(names.new_name("add"), "add:0");
    assert_eq!(names.new_name("add"), "add:1");
    assert_eq!(names.new_name("sub"), "sub:0");
    assert_eq!(names.new_name("add"), "add:2");
    names.reset();
    assert_eq!(names.new_name("add"), "add:0");
}

#[test]
fn labels_use_all_decimal_digits() {
    let mut names = NameManager::new();
    for i in 0..12 {
        assert_eq!(names.new_name("relu"), format!("relu:{}", i));
    }
    assert_eq!(names.new_name("relu"), "relu:12");
}

#[test]
fn canonical_shapes() {
    assert_eq!(Shape::scalar(), Shape { rows: 1, cols: 1 });
    assert_eq!(Shape::column(4), Shape { rows: 4, cols: 1 });
    assert!(Shape::scalar().is_scalar());
    assert!(!Shape::column(2).is_scalar());
    assert!(Shape::matrix(2, 6).same_cells(&Shape::matrix(3, 4)));
    assert!(!Shape::matrix(2, 6).same_cells(&Shape::matrix(3, 3)));
}

#[test]
fn apply_records_node() {
    let mut g = Graph::new();
    let a = g.leaf(Shape::column(3), true);
    let b = g.leaf(Shape::column(3), false);
    let c = Add::new().apply(&mut g, &vec![a, b]).unwrap();
    assert_eq!(c, 2);
    let n = g.node(c);
    assert_eq!(n.parents, vec![a, b]);
    assert_eq!(n.operation, Some(OpKind::Add));
    assert!(n.requires_grad);
    assert_eq!(n.shape, Shape::column(3));
    assert_eq!(n.name.as_deref(), Some("add:0"));
    let d = Add::new().apply(&mut g, &vec![c, a]).unwrap();
    assert_eq!(g.node(d).name.as_deref(), Some("add:1"));
    let e = Sum::new().apply(&mut g, &vec![d]).unwrap();
    assert_eq!(g.node(e).name.as_deref(), Some("sum:0"));
    assert_eq!(g.node(e).shape, Shape::scalar());
    g.reset_names();
    let f = Add::new().apply(&mut g, &vec![a, a]).unwrap();
    assert_eq!(g.node(f).name.as_deref(), Some("add:0"));
    assert_eq!(g.len(), 6);
}

#[test]
fn apply_rejects_bad_inputs() {
    let mut g = Graph::new();
    let a = g.leaf(Shape::column(3), true);
    let b = g.leaf(Shape::column(2), true);
    let m = g.leaf(Shape::matrix(2, 3), true);
    assert_eq!(Sub::new().apply(&mut g, &vec![a, b]), Err(GraphError::ShapeMismatch));
    assert_eq!(Prod::new().apply(&mut g, &vec![a, b]), Err(GraphError::ShapeMismatch));
    assert_eq!(MatMul::new().apply(&mut g, &vec![m, b]), Err(GraphError::ShapeMismatch));
    assert_eq!(Add::new().apply(&mut g, &vec![a, 9]), Err(GraphError::UnknownNode));
    assert_eq!(Sin::new().apply(&mut g, &vec![a, a]), Err(GraphError::ArityMismatch));
    assert_eq!(g.len(), 3);
    let p = MatMul::new().apply(&mut g, &vec![m, a]).unwrap();
    assert_eq!(g.node(p).shape, Shape::matrix(2, 1));
}

#[test]
fn every_operator_applies() {
    let mut g = Graph::new();
    let a = g.leaf(Shape::matrix(2, 2), true);
    let b = g.leaf(Shape::matrix(2, 2), true);
    let two = vec![a, b];
    let one = vec![a];
    let ids = vec![
        Add::new().apply(&mut g, &two).unwrap(),
        Sub::new().apply(&mut g, &two).unwrap(),
        Prod::new().apply(&mut g, &two).unwrap(),
        MatMul::new().apply(&mut g, &two).unwrap(),
        Square::new().apply(&mut g, &one).unwrap(),
        Ln::new().apply(&mut g, &one).unwrap(),
        Exp::new().apply(&mut g, &one).unwrap(),
        Sin::new().apply(&mut g, &one).unwrap(),
        Cos::new().apply(&mut g, &one).unwrap(),
        Sum::new().apply(&mut g, &one).unwrap(),
        ReLU::new().apply(&mut g, &one).unwrap(),
        Sigmoid::new().apply(&mut g, &one).unwrap(),
        Tanh::new().apply(&mut g, &one).unwrap(),
    ];
    let kinds: Vec<OpKind> = ids.iter().map(|&i| g.node(i).operation.unwrap()).collect();
    assert_eq!(kinds, vec![
        OpKind::Add,
        OpKind::Sub,
        OpKind::Prod,
        OpKind::MatMul,
        OpKind::Square,
        OpKind::Ln,
        OpKind::Exp,
        OpKind::Sin,
        OpKind::Cos,
        OpKind::Sum,
        OpKind::ReLU,
        OpKind::Sigmoid,
        OpKind::Tanh,
    ]);
    let s = Softmax::new().apply(&mut g, &one).unwrap();
    assert_eq!(g.node(s).operation, Some(OpKind::Softmax));
    assert_eq!(g.node(s).name.as_deref(), Some("softmax:0"));
    assert_eq!(Tanh::new().kind().label(), "tanh");
}

#[test]
fn gradient_shapes_match_inputs() {
    let cases: Vec<(OpKind, Vec<Shape>)> = vec![
        (OpKind::Add, vec![Shape::matrix(2, 3), Shape::matrix(2, 3)]),
        (OpKind::Sub, vec![Shape::matrix(2, 3), Shape::matrix(2, 3)]),
        (OpKind::Prod, vec![Shape::matrix(2, 3), Shape::matrix(2, 3)]),
        (OpKind::MatMul, vec![Shape::matrix(2, 3), Shape::matrix(3, 5)]),
        (OpKind::Square, vec![Shape::matrix(4, 2)]),
        (OpKind::Ln, vec![Shape::matrix(4, 2)]),
        (OpKind::Exp, vec![Shape::matrix(4, 2)]),
        (OpKind::Sin, vec![Shape::matrix(4, 2)]),
        (OpKind::Cos, vec![Shape::matrix(4, 2)]),
        (OpKind::Sum, vec![Shape::matrix(4, 2)]),
        (OpKind::ReLU, vec![Shape::matrix(4, 2)]),
        (OpKind::Sigmoid, vec![Shape::matrix(4, 2)]),
        (OpKind::Tanh, vec![Shape::matrix(4, 2)]),
        (OpKind::Softmax, vec![Shape::matrix(4, 2)]),
    ];
    for (op, ins) in cases {
        let out = op.output_shape(&ins).unwrap();
        assert_eq!(op.arity(), ins.len());
        for i in 0..ins.len() {
            assert_eq!(op.grad_shape(&ins, out, i), Some(ins[i]));
        }
    }
    let ins = vec![Shape::matrix(2, 3), Shape::matrix(3, 5)];
    assert_eq!(OpKind::MatMul.output_shape(&ins), Some(Shape::matrix(2, 5)));
    assert_eq!(OpKind::MatMul.grad_shape(&ins, Shape::matrix(2, 4), 0), None);
    assert_eq!(OpKind::Sum.grad_shape(&vec![Shape::column(3)], Shape::column(2), 0), None);
}

#[test]
fn schedule_of_sum_of_sum() {
    let mut g = Graph::new();
    let x = g.leaf(Shape::column(3), true);
    let y = g.leaf(Shape::column(3), true);
    let s = g.apply(OpKind::Add, &vec![x, y]).unwrap();
    let z = g.apply(OpKind::Sum, &vec![s]).unwrap();
    let steps = g.backward(z, None).unwrap();
    assert_eq!(steps, vec![
        step(z, Source::Seed, false),
        step(s, Source::Rule { step: 0, slot: 0 }, false),
        step(x, Source::Rule { step: 1, slot: 0 }, false),
        step(y, Source::Rule { step: 1, slot: 1 }, false),
    ]);
    assert!(g.has_grad(x) && g.has_grad(y) && g.has_grad(s) && g.has_grad(z));
    let again = g.backward(z, Some(Shape::scalar())).unwrap();
    assert!(again.iter().all(|st| st.accumulate));
}

#[test]
fn fan_out_delivers_twice() {
    let mut g = Graph::new();
    let x = g.leaf(Shape::scalar(), true);
    let f = g.apply(OpKind::Sin, &vec![x]).unwrap();
    let h = g.apply(OpKind::Exp, &vec![x]).unwrap();
    let y = g.apply(OpKind::Add, &vec![f, h]).unwrap();
    let steps = g.backward(y, None).unwrap();
    assert_eq!(steps, vec![
        step(y, Source::Seed, false),
        step(f, Source::Rule { step: 0, slot: 0 }, false),
        step(x, Source::Rule { step: 1, slot: 0 }, false),
        step(h, Source::Rule { step: 0, slot: 1 }, false),
        step(x, Source::Rule { step: 3, slot: 0 }, true),
    ]);
}

#[test]
fn frozen_node_stops_traversal() {
    let mut g = Graph::new();
    let a = g.leaf(Shape::column(2), true);
    let b = g.leaf(Shape::column(2), true);
    let mut cfg = NodeConfig::new();
    cfg.requires_grad = false;
    cfg.parents = vec![a, b];
    cfg.operation = Some(OpKind::Add);
    let c = g.build(Shape::column(2), cfg).unwrap();
    let steps = g.backward(c, None).unwrap();
    assert!(steps.is_empty());
    assert!(!g.has_grad(a) && !g.has_grad(b) && !g.has_grad(c));
    let z = g.apply(OpKind::Sum, &vec![c]).unwrap();
    let steps = g.backward(z, None).unwrap();
    assert_eq!(steps, vec![step(z, Source::Seed, false)]);
    assert!(!g.has_grad(a) && !g.has_grad(c));
}

#[test]
fn build_checks_configuration() {
    let mut g = Graph::new();
    let a = g.leaf(Shape::column(2), true);
    let mut cfg = NodeConfig::new();
    cfg.parents = vec![a, 5];
    assert_eq!(g.build(Shape::column(2), cfg), Err(GraphError::UnknownNode));
    let mut cfg = NodeConfig::new();
    cfg.parents = vec![a];
    cfg.operation = Some(OpKind::Add);
    assert_eq!(g.build(Shape::column(2), cfg), Err(GraphError::ArityMismatch));
    let mut cfg = NodeConfig::new();
    cfg.parents = vec![a];
    cfg.operation = Some(OpKind::Sum);
    assert_eq!(g.build(Shape::column(2), cfg), Err(GraphError::ShapeMismatch));
    let mut cfg = NodeConfig::new();
    cfg.parents = vec![a];
    cfg.name = Some("loose".to_string());
    let b = g.build(Shape::matrix(7, 7), cfg).unwrap();
    assert_eq!(g.node(b).name.as_deref(), Some("loose"));
    assert_eq!(g.backward(b, None).unwrap(), vec![step(b, Source::Seed, false)]);
    assert!(!g.has_grad(a));
}

#[test]
fn seed_must_match_shape() {
    let mut g = Graph::new();
    let a = g.leaf(Shape::column(2), true);
    assert_eq!(g.backward(a, Some(Shape::column(3))), Err(GraphError::ShapeMismatch));
    assert!(!g.has_grad(a));
}

#[test]
fn zero_grad_reports_presence() {
    let mut g = Graph::new();
    let a = g.leaf(Shape::column(2), true);
    assert_eq!(g.expect_grad(a), Err(GraphError::MissingGradient));
    assert!(!g.zero_grad(a));
    assert!(g.zero_grad(a));
    assert_eq!(g.expect_grad(a), Ok(()));
    let s = g.apply(OpKind::Sum, &vec![a]).unwrap();
    let steps = g.backward(s, None).unwrap();
    assert_eq!(steps[1], step(a, Source::Rule { step: 0, slot: 0 }, true));
}

#[test]
fn value_and_loss_checks() {
    let mut g = Graph::new();
    let a = g.leaf(Shape::column(2), true);
    let l = g.leaf(Shape::scalar(), true);
    assert_eq!(g.set_values(a, Shape::column(2)), Ok(()));
    assert_eq!(g.set_values(a, Shape::column(3)), Err(GraphError::ShapeMismatch));
    assert_eq!(g.expect_scalar(l), Ok(()));
    assert_eq!(g.expect_scalar(a), Err(GraphError::ScalarExpectation));
}
