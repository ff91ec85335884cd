//! Sending tokens to experts: the batches, the additions, and whole runs on
//! values.

use std::cell::RefCell;

use larql::attention::block_program::{Kernel, Weight};
use larql::attention::dsv4_moe_dispatch::{
    bucket_routes, check_expert_shapes, combine_results, dsv4_moe_dispatch, expert_instrs,
    gather_rows, run_expert, scatter_plan, ExpertShapes, RoutingResult, Scatter,
};
use larql::attention::layer_program::Source;
use larql::tensor::Matrix;
use ndarray::{Array2, Array3, Axis};

fn approx_eq(a: f32, b: f32, tol: f32) -> bool {
    (a - b).abs() <= tol
}

fn matrix(a: &Array2<f32>) -> Matrix {
    let flat: Vec<u32> = a.iter().map(|v| v.to_bits()).collect();
    Matrix::from_flat(a.nrows(), a.ncols(), flat).unwrap()
}

fn array2(m: &Matrix) -> Array2<f32> {
    Array2::from_shape_fn((m.nrows(), m.ncols()), |(r, c)| f32::from_bits(m.at(r, c)))
}

struct Experts {
    gate: Array3<f32>,
    up: Array3<f32>,
    down: Array3<f32>,
}

impl Experts {
    fn shapes(&self) -> ExpertShapes {
        ExpertShapes {
            gate_exps: self.gate.dim(),
            up_exps: self.up.dim(),
            down_exps: self.down.dim(),
        }
    }
}

fn clamped_swiglu(gate: f32, up: f32, limit: f32) -> f32 {
    let (g, u) = if limit > 0.0 { (gate.min(limit), up.clamp(-limit, limit)) } else { (gate, up) };
    g / (1.0 + (-g).exp()) * u
}

/// Runs the experts on the batches that the library makes.
fn run(x: &Array2<f32>, routing: &RoutingResult, w: &Experts, limit: f32) -> Array2<f32> {
    let d = dsv4_moe_dispatch(&matrix(x), routing, &w.shapes());
    let kernels = |e: usize, kernel: Kernel, a: Vec<&Array2<f32>>| match kernel {
        Kernel::Project(Weight::ExpertGate, _) => a[0].dot(&w.gate.index_axis(Axis(0), e).t()),
        Kernel::Project(Weight::ExpertUp, _) => a[0].dot(&w.up.index_axis(Axis(0), e).t()),
        Kernel::Project(Weight::ExpertDown, _) => a[0].dot(&w.down.index_axis(Axis(0), e).t()),
        Kernel::ClampedSwiGlu(l) => Array2::from_shape_fn(a[0].dim(), |at| {
            clamped_swiglu(a[0][at], a[1][at], f32::from_bits(l))
        }),
        other => panic!("{other:?} is no part of an expert"),
    };
    let results: Vec<Matrix> = d
        .batches
        .iter()
        .map(|b| matrix(&run_expert(array2(&b.rows), b.expert, limit.to_bits(), &kernels)))
        .collect();
    let accumulate = |weight: u32, row: &Vec<u32>, acc: &Vec<u32>| -> Vec<u32> {
        let weight = f32::from_bits(weight);
        acc.iter()
            .zip(row)
            .map(|(&a, &r)| (f32::from_bits(a) + weight * f32::from_bits(r)).to_bits())
            .collect()
    };
    array2(&combine_results(&d, &results, x.nrows(), x.ncols(), &accumulate))
}

fn routing(used: usize, indices: Vec<usize>, weights: Vec<f32>) -> RoutingResult {
    RoutingResult {
        n_expert_used: used,
        indices,
        weights: weights.iter().map(|w| w.to_bits()).collect(),
    }
}

#[test]
fn single_expert_unit_weight_matches_direct_compute() {
    let n_expert = 3;
    let n_ff_exp = 4;
    let n_embd = 5;
    let n_tokens = 1;
    let n_expert_used = 1;
    let swiglu_limit = 7.0;
    let x = Array2::<f32>::from_shape_fn((n_tokens, n_embd), |(_, d)| (d as f32) * 0.1);
    let w = Experts {
        gate: Array3::from_shape_fn((n_expert, n_ff_exp, n_embd), |(e, i, j)| {
            ((e * 100 + i * 10 + j) as f32 * 0.01).sin()
        }),
        up: Array3::from_shape_fn((n_expert, n_ff_exp, n_embd), |(e, i, j)| {
            ((e * 100 + i * 10 + j) as f32 * 0.013).cos()
        }),
        down: Array3::from_shape_fn((n_expert, n_embd, n_ff_exp), |(e, d, i)| {
            ((e * 100 + d * 10 + i) as f32 * 0.011).sin()
        }),
    };
    let out = run(&x, &routing(n_expert_used, vec![2], vec![1.0]), &w, swiglu_limit);
    assert_eq!(out.shape(), &[n_tokens, n_embd]);
    let e = 2;
    let mut gate_out = vec![0.0_f32; n_ff_exp];
    let mut up_out = vec![0.0_f32; n_ff_exp];
    for i in 0..n_ff_exp {
        for j in 0..n_embd {
            gate_out[i] += w.gate[[e, i, j]] * x[[0, j]];
            up_out[i] += w.up[[e, i, j]] * x[[0, j]];
        }
    }
    for d in 0..n_embd {
        let mut acc = 0.0_f32;
        for i in 0..n_ff_exp {
            acc += w.down[[e, d, i]] * clamped_swiglu(gate_out[i], up_out[i], swiglu_limit);
        }
        assert!(
            approx_eq(out[[0, d]], acc, 1e-5),
            "d={d}: dispatch={} direct={acc}",
            out[[0, d]]
        );
    }
}

#[test]
fn weighted_sum_linearity() {
    let n_expert = 4;
    let n_ff_exp = 3;
    let n_embd = 4;
    let n_tokens = 1;
    let swiglu_limit = 7.0;
    let x = Array2::<f32>::from_elem((n_tokens, n_embd), 0.3);
    let w = Experts {
        gate: Array3::from_shape_fn((n_expert, n_ff_exp, n_embd), |(e, i, j)| {
            ((e + i + j) as f32 * 0.07).sin()
        }),
        up: Array3::from_shape_fn((n_expert, n_ff_exp, n_embd), |(e, i, j)| {
            ((e + i + j) as f32 * 0.05).cos()
        }),
        down: Array3::from_shape_fn((n_expert, n_embd, n_ff_exp), |(e, d, i)| {
            ((e + d + i) as f32 * 0.09).sin()
        }),
    };
    let solo1 = run(&x, &routing(1, vec![1], vec![1.0]), &w, swiglu_limit);
    let solo3 = run(&x, &routing(1, vec![3], vec![1.0]), &w, swiglu_limit);
    let combined = run(&x, &routing(2, vec![1, 3], vec![0.5, 0.5]), &w, swiglu_limit);
    for d in 0..n_embd {
        let want = 0.5 * solo1[[0, d]] + 0.5 * solo3[[0, d]];
        assert!(
            approx_eq(combined[[0, d]], want, 1e-5),
            "d={d}: combined={} want={want}",
            combined[[0, d]]
        );
    }
}

#[test]
fn zero_weights_produces_zero_output() {
    let n_expert = 3;
    let n_ff_exp = 2;
    let n_embd = 3;
    let n_tokens = 2;
    let n_expert_used = 2;
    let x = Array2::<f32>::from_elem((n_tokens, n_embd), 1.0);
    let w = Experts {
        gate: Array3::from_elem((n_expert, n_ff_exp, n_embd), 1.0),
        up: Array3::from_elem((n_expert, n_ff_exp, n_embd), 1.0),
        down: Array3::from_elem((n_expert, n_embd, n_ff_exp), 1.0),
    };
    let r = routing(n_expert_used, vec![0; 4], vec![0.0; 4]);
    let out = run(&x, &r, &w, 7.0);
    for v in out.iter() {
        assert_eq!(*v, 0.0);
    }
    let d = dsv4_moe_dispatch(&matrix(&x), &r, &w.shapes());
    assert!(d.batches.is_empty());
    assert!(d.plan.is_empty());
}

#[test]
fn routes_of_weight_zero_are_dropped_and_the_rest_kept_in_token_order() {
    let r = routing(2, vec![1, 0, 0, 1, 1, 0], vec![0.5, 0.25, 0.0, -0.0, 2.0, 1.0]);
    let buckets = bucket_routes(&r, 3, 2);
    let w = |v: f32| v.to_bits();
    assert_eq!(buckets, vec![vec![(0, w(0.25)), (2, w(1.0))], vec![(0, w(0.5)), (2, w(2.0))]]);
    assert_eq!(
        scatter_plan(&buckets),
        vec![
            Scatter { expert: 0, row: 0, token: 0, weight: w(0.25) },
            Scatter { expert: 0, row: 1, token: 2, weight: w(1.0) },
            Scatter { expert: 1, row: 0, token: 0, weight: w(0.5) },
            Scatter { expert: 1, row: 1, token: 2, weight: w(2.0) },
        ]
    );
}

#[test]
fn gathered_rows_are_the_tokens_rows() {
    let x = Matrix::from_flat(3, 2, vec![0, 1, 10, 11, 20, 21]).unwrap();
    let g = gather_rows(&x, &vec![(2, 7), (0, 8), (2, 9)]);
    assert_eq!((g.nrows(), g.ncols()), (3, 2));
    assert_eq!(g.row(0), vec![20, 21]);
    assert_eq!(g.row(1), vec![0, 1]);
    assert_eq!(g.row(2), vec![20, 21]);
}

#[test]
fn experts_without_tokens_have_no_batch() {
    let x = Matrix::from_flat(2, 1, vec![5, 6]).unwrap();
    let shapes = ExpertShapes { gate_exps: (4, 3, 1), up_exps: (4, 3, 1), down_exps: (4, 1, 3) };
    let d = dsv4_moe_dispatch(&x, &routing(1, vec![3, 1], vec![1.0, 1.0]), &shapes);
    let experts: Vec<usize> = d.batches.iter().map(|b| b.expert).collect();
    assert_eq!(experts, vec![1, 3]);
    assert_eq!(d.batches[0].rows.row(0), vec![6]);
    assert_eq!(d.batches[1].rows.row(0), vec![5]);
    assert_eq!(d.plan.len(), 2);
}

#[test]
fn a_token_without_weight_gets_nothing() {
    let x = Matrix::from_flat(2, 1, vec![5, 6]).unwrap();
    let shapes = ExpertShapes { gate_exps: (2, 3, 1), up_exps: (2, 3, 1), down_exps: (2, 1, 3) };
    let r = routing(2, vec![0, 1, 0, 1], vec![0.0, 0.0, 0.5, 0.5]);
    let d = dsv4_moe_dispatch(&x, &r, &shapes);
    assert!(d.plan.iter().all(|a| a.token == 1));
    assert_eq!(d.plan.len(), 2);
}

#[test]
fn expert_shapes_must_lead_there_and_back() {
    let good = ExpertShapes { gate_exps: (4, 3, 8), up_exps: (4, 3, 8), down_exps: (4, 8, 3) };
    assert!(check_expert_shapes(&good, 8));
    assert!(!check_expert_shapes(&good, 7));
    assert!(!check_expert_shapes(&ExpertShapes { up_exps: (4, 2, 8), ..good }, 8));
    assert!(!check_expert_shapes(&ExpertShapes { down_exps: (4, 3, 8), ..good }, 8));
    assert!(!check_expert_shapes(&ExpertShapes { down_exps: (5, 8, 3), ..good }, 8));
}

/// Scores by the square root of the softplus, the best of them, scaled to one.
fn route(x: &Array2<f32>, gate_inp: &Array2<f32>, used: usize) -> RoutingResult {
    let mut indices = Vec::new();
    let mut weights = Vec::new();
    for row in x.outer_iter() {
        let scores: Vec<f32> =
            gate_inp.outer_iter().map(|g| g.dot(&row).exp().ln_1p().sqrt()).collect();
        let mut order: Vec<usize> = (0..scores.len()).collect();
        order.sort_by(|&a, &b| scores[b].partial_cmp(&scores[a]).unwrap());
        let sum: f32 = order[..used].iter().map(|&e| scores[e]).sum();
        for &e in &order[..used] {
            indices.push(e);
            weights.push(scores[e] / sum);
        }
    }
    routing(used, indices, weights)
}

#[test]
fn route_then_dispatch_finite_nonzero() {
    let n_tokens = 4;
    let n_embd = 8;
    let n_expert = 6;
    let n_ff_exp = 4;
    let n_expert_used = 2;
    let x = Array2::<f32>::from_shape_fn((n_tokens, n_embd), |(t, d)| {
        ((t * 7 + d) as f32 * 0.013).sin()
    });
    let gate_inp = Array2::<f32>::from_shape_fn((n_expert, n_embd), |(e, d)| {
        ((e + d) as f32 * 0.01).cos() * 0.1
    });
    let w = Experts {
        gate: Array3::from_shape_fn((n_expert, n_ff_exp, n_embd), |(e, i, j)| {
            ((e + i + j) as f32 * 0.011).sin() * 0.1
        }),
        up: Array3::from_shape_fn((n_expert, n_ff_exp, n_embd), |(e, i, j)| {
            ((e + i + j) as f32 * 0.013).cos() * 0.1
        }),
        down: Array3::from_shape_fn((n_expert, n_embd, n_ff_exp), |(e, d, i)| {
            ((e + d + i) as f32 * 0.009).sin() * 0.1
        }),
    };
    let out = run(&x, &route(&x, &gate_inp, n_expert_used), &w, 7.0);
    assert_eq!(out.shape(), &[n_tokens, n_embd]);
    assert!(out.iter().all(|v| v.is_finite()));
    let total: f32 = out.iter().map(|v| v.abs()).sum();
    assert!(total > 1e-4, "output collapsed (sum={total})");
}

#[test]
fn results_are_added_in_the_order_of_the_experts() {
    let x = Matrix::from_flat(2, 1, vec![5, 6]).unwrap();
    let shapes = ExpertShapes { gate_exps: (3, 1, 1), up_exps: (3, 1, 1), down_exps: (3, 1, 1) };
    let r = routing(2, vec![2, 0, 1, 1], vec![1.0, 2.0, 0.0, 4.0]);
    let d = dsv4_moe_dispatch(&x, &r, &shapes);
    let results: Vec<Matrix> = d
        .batches
        .iter()
        .map(|b| Matrix::from_flat(1, 1, vec![100 * b.expert as u32 + b.rows.at(0, 0)]).unwrap())
        .collect();
    let seen = RefCell::new(Vec::new());
    let accumulate = |weight: u32, row: &Vec<u32>, acc: &Vec<u32>| {
        seen.borrow_mut().push((f32::from_bits(weight), row[0], acc[0]));
        vec![acc[0] * 1000 + row[0]]
    };
    let out = combine_results(&d, &results, 2, 1, &accumulate);
    assert_eq!((out.at(0, 0), out.at(1, 0)), (5205, 106));
    assert_eq!(*seen.borrow(), vec![(2.0, 5, 0), (4.0, 106, 0), (1.0, 205, 5)]);
}

#[test]
fn an_expert_gates_before_it_projects_down() {
    let kernels: Vec<Kernel> = expert_instrs(9).iter().map(|i| i.kernel).collect();
    assert_eq!(
        kernels,
        vec![
            Kernel::Project(Weight::ExpertGate, Source::Dense),
            Kernel::Project(Weight::ExpertUp, Source::Dense),
            Kernel::ClampedSwiGlu(9),
            Kernel::Project(Weight::ExpertDown, Source::Dense),
        ]
    );
}
