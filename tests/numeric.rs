use autograd::{Graph, GraphError, OpKind, Shape, Source};
use autograd::{Add, MatMul, Prod, Sin, Sum};
use ndarray::Array2;

fn shape_of(a: &Array2<f64>) -> Shape {
    Shape::matrix(a.nrows(), a.ncols())
}

fn col(v: &[f64]) -> Array2<f64> {
    Array2::from_shape_vec((v.len(), 1), v.to_vec()).unwrap()
}

fn scalar(x: f64) -> Array2<f64> {
    Array2::from_elem((1, 1), x)
}

fn mat(rows: usize, cols: usize, v: &[f64]) -> Array2<f64> {
    Array2::from_shape_vec((rows, cols), v.to_vec()).unwrap()
}

fn sigmoid(x: f64) -> f64 {
    1.0 / (1.0 + (-x).exp())
}

fn softmax(a: &Array2<f64>) -> Array2<f64> {
    let e = a.mapv(f64::exp);
    let s: f64 = e.iter().sum();
    e / s
}

fn forward(op: OpKind, ins: &[&Array2<f64>]) -> Array2<f64> {
    match op {
        OpKind::Add => ins[0] + ins[1],
        OpKind::Sub => ins[0] - ins[1],
        OpKind::Prod => ins[0] * ins[1],
        OpKind::MatMul => ins[0].dot(ins[1]),
        OpKind::Square => ins[0].mapv(|x| x * x),
        OpKind::Ln => ins[0].mapv(f64::ln),
        OpKind::Exp => ins[0].mapv(f64::exp),
        OpKind::Sin => ins[0].mapv(f64::sin),
        OpKind::Cos => ins[0].mapv(f64::cos),
        OpKind::Sum => scalar(ins[0].sum()),
        OpKind::ReLU => ins[0].mapv(|x| if x > 0.0 { x } else { 0.0 }),
        OpKind::Sigmoid => ins[0].mapv(sigmoid),
        OpKind::Tanh => ins[0].mapv(f64::tanh),
        OpKind::Softmax => softmax(ins[0]),
    }
}

fn local_grad(op: OpKind, g: &Array2<f64>, ins: &[&Array2<f64>], slot: usize) -> Array2<f64> {
    let a = ins[0];
    match op {
        OpKind::Add => g.clone(),
        OpKind::Sub => if slot == 0 { g.clone() } else { -g },
        OpKind::Prod => g * ins[1 - slot],
        OpKind::MatMul => if slot == 0 { g.dot(&ins[1].t()) } else { a.t().dot(g) },
        OpKind::Square => g * &(a * 2.0),
        OpKind::Ln => g * &a.mapv(|x| 1.0 / x),
        OpKind::Exp => g * &a.mapv(f64::exp),
        OpKind::Sin => g * &a.mapv(f64::cos),
        OpKind::Cos => g * &a.mapv(|x| -x.sin()),
        OpKind::Sum => Array2::from_elem(a.raw_dim(), g[[0, 0]]),
        OpKind::ReLU => g * &a.mapv(|x| if x > 0.0 { 1.0 } else { 0.0 }),
        OpKind::Sigmoid => g * &a.mapv(|x| sigmoid(x) * (1.0 - sigmoid(x))),
        OpKind::Tanh => g * &a.mapv(|x| 1.0 - x.tanh() * x.tanh()),
        OpKind::Softmax => {
            let y: Vec<f64> = softmax(a).iter().copied().collect();
            let gv: Vec<f64> = g.iter().copied().collect();
            let n = y.len();
            let mut out = vec![0.0; n];
            for k in 0..n {
                for i in 0..n {
                    let d = if i == k { 1.0 } else { 0.0 };
                    out[k] += y[i] * (d - y[k]) * gv[i];
                }
            }
            Array2::from_shape_vec(a.raw_dim(), out).unwrap()
        },
    }
}

struct Engine {
    graph: Graph,
    values: Vec<Array2<f64>>,
    grads: Vec<Option<Array2<f64>>>,
}

impl Engine {
    fn new() -> Self {
        Engine { graph: Graph::new(), values: Vec::new(), grads: Vec::new() }
    }

    fn leaf(&mut self, a: Array2<f64>) -> usize {
        let id = self.graph.leaf(shape_of(&a), true);
        self.values.push(a);
        self.grads.push(None);
        id
    }

    fn apply(&mut self, op: OpKind, ins: &[usize]) -> Result<usize, GraphError> {
        let id = self.graph.apply(op, &ins.to_vec())?;
        let args: Vec<&Array2<f64>> = ins.iter().map(|&i| &self.values[i]).collect();
        let v = forward(op, &args);
        self.values.push(v);
        self.grads.push(None);
        Ok(id)
    }

    fn backward(&mut self, start: usize, seed: Option<Array2<f64>>) -> Result<(), GraphError> {
        let steps = self.graph.backward(start, seed.as_ref().map(shape_of))?;
        let mut delivered: Vec<Array2<f64>> = Vec::new();
        for st in &steps {
            let g = match st.source {
                Source::Seed => seed.clone().unwrap_or_else(|| Array2::ones(self.values[start].raw_dim())),
                Source::Rule { step, slot } => {
                    let node = self.graph.node(steps[step].node);
                    let args: Vec<&Array2<f64>> = node.parents.iter().map(|&p| &self.values[p]).collect();
                    local_grad(node.operation.unwrap(), &delivered[step], &args, slot)
                },
            };
            if st.accumulate {
                *self.grads[st.node].as_mut().unwrap() += &g;
            } else {
                self.grads[st.node] = Some(g.clone());
            }
            delivered.push(g);
        }
        Ok(())
    }

    fn zero_grad(&mut self, i: usize) {
        if self.graph.zero_grad(i) {
            self.grads[i].as_mut().unwrap().fill(0.0);
        } else {
            self.grads[i] = Some(Array2::zeros(self.values[i].raw_dim()));
        }
    }

    fn grad(&self, i: usize) -> Vec<f64> {
        self.grads[i].as_ref().unwrap().iter().copied().collect()
    }
}

fn close(a: f64, b: f64, tol: f64) -> bool {
    (a - b).abs() <= tol
}

#[test]
fn sum_of_sum_gives_unit_gradients() {
    let mut e = Engine::new();
    let x = e.leaf(col(&[1.0, 2.0, 3.0]));
    let y = e.leaf(col(&[4.0, 5.0, 6.0]));
    let s = e.apply(Add::new().kind(), &[x, y]).unwrap();
    let z = e.apply(Sum::new().kind(), &[s]).unwrap();
    let v: Vec<f64> = e.values[s].iter().copied().collect();
    assert_eq!(v, vec![5.0, 7.0, 9.0]);
    assert_eq!(e.values[z][[0, 0]], 21.0);
    e.backward(z, None).unwrap();
    assert_eq!(e.grad(x), vec![1.0, 1.0, 1.0]);
    assert_eq!(e.grad(y), vec![1.0, 1.0, 1.0]);
}

#[test]
fn sine_of_affine_gradient() {
    let mut e = Engine::new();
    let x = e.leaf(scalar(3.5));
    let two = e.leaf(scalar(2.0));
    let half = e.leaf(scalar(0.5));
    let p = e.apply(Prod::new().kind(), &[two, x]).unwrap();
    let a = e.apply(OpKind::Add, &[p, half]).unwrap();
    let z = e.apply(Sin::new().kind(), &[a]).unwrap();
    e.backward(z, Some(scalar(1.0))).unwrap();
    let g = e.grad(x)[0];
    assert!(close(g, 2.0 * (7.5f64).cos(), 1e-12));
    assert!(close(g, 0.69327, 1e-4));
}

#[test]
fn weights_times_input_gradients() {
    let mut e = Engine::new();
    let a = e.leaf(col(&[1.5, -2.0, 4.0]));
    let x = e.leaf(scalar(3.0));
    let m = e.apply(MatMul::new().kind(), &[a, x]).unwrap();
    let z = e.apply(OpKind::Sum, &[m]).unwrap();
    assert_eq!(e.values[z][[0, 0]], 10.5);
    e.backward(z, None).unwrap();
    assert_eq!(e.grad(a), vec![3.0, 3.0, 3.0]);
    assert_eq!(e.grad(x), vec![3.5]);
}

#[test]
fn fan_out_sums_both_branches() {
    let mut e = Engine::new();
    let x = e.leaf(scalar(0.8));
    let f = e.apply(OpKind::Sin, &[x]).unwrap();
    let g = e.apply(OpKind::Exp, &[x]).unwrap();
    let y = e.apply(OpKind::Add, &[f, g]).unwrap();
    e.backward(y, None).unwrap();
    let expect = (0.8f64).cos() + (0.8f64).exp();
    assert!(close(e.grad(x)[0], expect, 1e-12));
}

#[test]
fn self_product_counts_both_inputs() {
    let mut e = Engine::new();
    let x = e.leaf(col(&[2.0, -3.0]));
    let y = e.apply(OpKind::Prod, &[x, x]).unwrap();
    let z = e.apply(OpKind::Sum, &[y]).unwrap();
    e.backward(z, None).unwrap();
    assert_eq!(e.grad(x), vec![4.0, -6.0]);
}

#[test]
fn zero_grad_resets_to_zeros() {
    let mut e = Engine::new();
    let x = e.leaf(col(&[1.0, 2.0]));
    e.zero_grad(x);
    e.zero_grad(x);
    assert_eq!(e.grad(x), vec![0.0, 0.0]);
    let s = e.apply(OpKind::Square, &[x]).unwrap();
    let z = e.apply(OpKind::Sum, &[s]).unwrap();
    e.backward(z, None).unwrap();
    assert_eq!(e.grad(x), vec![2.0, 4.0]);
    e.backward(z, None).unwrap();
    assert_eq!(e.grad(x), vec![4.0, 8.0]);
    e.zero_grad(x);
    assert_eq!(e.grad(x), vec![0.0, 0.0]);
}

fn lcg(state: &mut u64) -> f64 {
    *state = state.wrapping_mul(6364136223846793005).wrapping_add(1442695040888963407);
    ((*state >> 11) as f64) / ((1u64 << 53) as f64)
}

fn random(rows: usize, cols: usize, lo: f64, hi: f64, state: &mut u64) -> Array2<f64> {
    let v: Vec<f64> = (0..rows * cols).map(|_| lo + (hi - lo) * lcg(state)).collect();
    mat(rows, cols, &v)
}

fn loss_of(op: OpKind, ins: &[Array2<f64>], w: &Array2<f64>) -> f64 {
    let refs: Vec<&Array2<f64>> = ins.iter().collect();
    (forward(op, &refs) * w).sum()
}

fn check_against_differences(op: OpKind, shapes: &[(usize, usize)], lo: f64, hi: f64, seed: u64) {
    let mut state = seed;
    let ins: Vec<Array2<f64>> = shapes.iter().map(|&(r, c)| random(r, c, lo, hi, &mut state)).collect();
    let mut e = Engine::new();
    let ids: Vec<usize> = ins.iter().map(|a| e.leaf(a.clone())).collect();
    let y = e.apply(op, &ids).unwrap();
    let w = random(e.values[y].nrows(), e.values[y].ncols(), -1.0, 1.0, &mut state);
    e.backward(y, Some(w.clone())).unwrap();
    let h = 1e-5;
    for (k, a) in ins.iter().enumerate() {
        let analytic = e.grads[ids[k]].as_ref().unwrap().clone();
        assert_eq!(analytic.raw_dim(), a.raw_dim());
        for idx in 0..a.len() {
            let (r, c) = (idx / a.ncols(), idx % a.ncols());
            let mut up = ins.clone();
            up[k][[r, c]] += h;
            let mut down = ins.clone();
            down[k][[r, c]] -= h;
            let numeric = (loss_of(op, &up, &w) - loss_of(op, &down, &w)) / (2.0 * h);
            assert!(close(analytic[[r, c]], numeric, 1e-4), "{:?} input {} cell {}", op, k, idx);
        }
    }
}

#[test]
fn analytic_gradients_match_central_differences() {
    let binary = [OpKind::Add, OpKind::Sub, OpKind::Prod];
    for (i, op) in binary.iter().enumerate() {
        check_against_differences(*op, &[(2, 3), (2, 3)], -2.0, 2.0, 11 + i as u64);
    }
    check_against_differences(OpKind::MatMul, &[(2, 3), (3, 4)], -2.0, 2.0, 5);
    let unary = [OpKind::Square, OpKind::Exp, OpKind::Sin, OpKind::Cos, OpKind::Sum, OpKind::Sigmoid, OpKind::Tanh, OpKind::Softmax];
    for (i, op) in unary.iter().enumerate() {
        check_against_differences(*op, &[(3, 2)], -2.0, 2.0, 31 + i as u64);
    }
    check_against_differences(OpKind::Softmax, &[(4, 1)], -2.0, 2.0, 77);
    check_against_differences(OpKind::Ln, &[(3, 2)], 0.5, 3.0, 41);
    check_against_differences(OpKind::ReLU, &[(3, 2)], 0.1, 2.0, 43);
    check_against_differences(OpKind::ReLU, &[(3, 2)], -2.0, -0.1, 47);
}
