//! The ends of a model and its feed-forward block, run on values.

use std::cell::RefCell;

use larql::attention::block_program::{Kernel, Weight};
use larql::attention::dsv4_ffn_block::{
    check_shared_expert, dsv4_ffn_block, dsv4_shared_expert_ffn, ffn_block_instrs, routing_source,
    shared_expert_instrs, RoutingSource, SharedExpertFault, SharedExpertShapes,
};
use larql::attention::dsv4_model_forward::{
    broadcast_to_streams, check_hc_head, dsv4_hc_head, dsv4_model_forward, embed_tokens,
    flatten_streams, HeadKernel, HeadShapes,
};
use larql::attention::dsv4_moe_dispatch::{
    combine_results, dsv4_moe_dispatch, run_expert, ExpertShapes, RoutingResult,
};
use larql::attention::dsv4_params::{DsV4RopeMode, Dsv4FfnParams};
use larql::attention::dsv4_storage_build::DsV4Hyperparams;
use larql::attention::dsv4_streaming_model_forward::{build_compress_params, build_indexer_params};
use larql::attention::top_k::top_k_experts;
use larql::tensor::{Cube, Matrix};
use ndarray::{Array1, Array2, Array3, Axis};

fn bits(values: &[f32]) -> Vec<u32> {
    values.iter().map(|v| v.to_bits()).collect()
}

fn matrix(a: &Array2<f32>) -> Matrix {
    let flat: Vec<u32> = a.iter().map(|v| v.to_bits()).collect();
    Matrix::from_flat(a.nrows(), a.ncols(), flat).unwrap()
}

fn array2(m: &Matrix) -> Array2<f32> {
    Array2::from_shape_fn((m.nrows(), m.ncols()), |(r, c)| f32::from_bits(m.at(r, c)))
}

fn array3(c: &Cube) -> Array3<f32> {
    Array3::from_shape_fn(c.dims(), |(t, h, d)| f32::from_bits(c.at(t, h, d)))
}

fn cube(a: &Array3<f32>) -> Cube {
    let (p, r, c) = a.dim();
    Cube::from_flat(p, r, c, a.iter().map(|v| v.to_bits()).collect()).unwrap()
}

fn sigmoid(x: f32) -> f32 {
    1.0 / (1.0 + (-x).exp())
}

fn norm_rows(x: &Array2<f32>, weight: &[f32], eps: f32) -> Array2<f32> {
    let mut out = x.clone();
    for mut row in out.outer_iter_mut() {
        let inv = 1.0 / (row.iter().map(|v| v * v).sum::<f32>() / row.len() as f32 + eps).sqrt();
        for (v, w) in row.iter_mut().zip(weight) {
            *v *= inv * w;
        }
    }
    out
}

fn clamped_swiglu(gate: &Array2<f32>, up: &Array2<f32>, limit: f32) -> Array2<f32> {
    Array2::from_shape_fn(gate.dim(), |at| {
        let (g, u) = if limit > 0.0 {
            (gate[at].min(limit), up[at].clamp(-limit, limit))
        } else {
            (gate[at], up[at])
        };
        g * sigmoid(g) * u
    })
}

// ---- the ends of a model ----------------------------------------------------

#[test]
fn embed_picks_vocab_row() {
    let token_embd = Array2::<f32>::from_shape_fn((4, 3), |(t, d)| (t * 100 + d * 10) as f32);
    let tids = vec![2u32, 0, 3];
    let out = array2(&embed_tokens(&tids, &matrix(&token_embd)));
    assert_eq!(out.dim(), (3, 3));
    assert_eq!(out[[0, 0]], 200.0);
    assert_eq!(out[[0, 1]], 210.0);
    assert_eq!(out[[1, 0]], 0.0);
    assert_eq!(out[[2, 1]], 310.0);
}

#[test]
fn broadcast_to_streams_replicates() {
    let x = Array2::<f32>::from_shape_fn((2, 3), |(t, d)| (t + d) as f32);
    let r = broadcast_to_streams(&matrix(&x), 4);
    assert_eq!(r.dims(), (2, 4, 3));
    for t in 0..2 {
        for h in 0..4 {
            for d in 0..3 {
                assert_eq!(f32::from_bits(r.at(t, h, d)), x[[t, d]]);
            }
        }
    }
}

#[test]
fn streams_stand_side_by_side() {
    let r = Cube::from_flat(2, 2, 3, (0..12).collect()).unwrap();
    let flat = flatten_streams(&r);
    assert_eq!((flat.nrows(), flat.ncols()), (2, 6));
    assert_eq!(flat.row(0), vec![0, 1, 2, 3, 4, 5]);
    assert_eq!(flat.row(1), vec![6, 7, 8, 9, 10, 11]);
}

#[test]
fn fresh_streams_repeat_the_token() {
    let x = Matrix::from_flat(2, 2, vec![5, 6, 7, 8]).unwrap();
    let flat = flatten_streams(&broadcast_to_streams(&x, 3));
    assert_eq!(flat.row(0), vec![5, 6, 5, 6, 5, 6]);
    assert_eq!(flat.row(1), vec![7, 8, 7, 8, 7, 8]);
}

/// The weights behind the layers.
struct Head {
    hc_fn: Array2<f32>,
    scale: f32,
    base: Vec<f32>,
    norm_eps: f32,
    hc_eps: f32,
    output_norm: Vec<f32>,
    lm_head: Array2<f32>,
}

impl Head {
    fn shapes(&self) -> HeadShapes {
        HeadShapes {
            hc_fn: self.hc_fn.dim(),
            base_len: self.base.len(),
            n_vocab: self.lm_head.nrows(),
        }
    }

    fn table(&self, kernel: HeadKernel, m: &Matrix) -> Matrix {
        let x = array2(m);
        matrix(&match kernel {
            HeadKernel::UnitNorm => norm_rows(&x, &vec![1.0; x.ncols()], self.norm_eps),
            HeadKernel::ProjectStreams => x.dot(&self.hc_fn.t()),
            HeadKernel::Scale => &x * self.scale,
            HeadKernel::AddBase => &x + &Array1::from(self.base.clone()),
            HeadKernel::SigmoidEps => x.mapv(|v| sigmoid(v) + self.hc_eps),
            HeadKernel::OutputNorm => norm_rows(&x, &self.output_norm, self.norm_eps),
            HeadKernel::LmHead => x.dot(&self.lm_head.t()),
        })
    }
}

fn weigh(streams: &Cube, weights: &Matrix) -> Matrix {
    let (streams, weights) = (array3(streams), array2(weights));
    let (n_tokens, _, n_embd) = streams.dim();
    let mut out = Array2::<f32>::zeros((n_tokens, n_embd));
    for ((t, h, d), v) in streams.indexed_iter() {
        out[[t, d]] += v * weights[[t, h]];
    }
    matrix(&out)
}

/// Runs the library's pooling of the streams.
fn pool(
    residual: &Array3<f32>,
    hc_fn: &Array2<f32>,
    scale: f32,
    base: &[f32],
    norm_eps: f32,
    hc_eps: f32,
) -> Array2<f32> {
    let (_, n_hc, n_embd) = residual.dim();
    assert!(check_hc_head((n_hc, n_embd), hc_fn.dim(), base.len(), n_hc, n_embd));
    let head = Head {
        hc_fn: hc_fn.clone(),
        scale,
        base: base.to_vec(),
        norm_eps,
        hc_eps,
        output_norm: Vec::new(),
        lm_head: Array2::zeros((1, n_embd)),
    };
    let tables = |k: HeadKernel, m: &Matrix| head.table(k, m);
    array2(&dsv4_hc_head(&cube(residual), &head.shapes(), &tables, &weigh))
}

#[test]
fn hc_head_shape_and_finite() {
    let n_tokens = 3;
    let n_hc = 4;
    let n_embd = 8;
    let residual = Array3::<f32>::from_shape_fn((n_tokens, n_hc, n_embd), |(t, h, d)| {
        ((t + h + d) as f32 * 0.013).sin()
    });
    let hc_fn = Array2::<f32>::from_shape_fn((n_hc, n_hc * n_embd), |(h, k)| {
        ((h + k) as f32 * 0.01).cos() * 0.1
    });
    let hc_base = vec![0.0_f32; n_hc];
    let pooled = pool(&residual, &hc_fn, 1.0, &hc_base, 1e-5, 1e-5);
    assert_eq!(pooled.dim(), (n_tokens, n_embd));
    assert!(pooled.iter().all(|v| v.is_finite()));
}

#[test]
fn weights_of_zero_pool_to_half_the_sum() {
    let residual = Array3::<f32>::from_shape_fn((1, 2, 2), |(_, h, d)| (1 + 2 * h + d) as f32);
    let pooled = pool(&residual, &Array2::zeros((2, 4)), 1.0, &[0.0, 0.0], 1e-5, 0.0);
    assert_eq!(pooled, Array2::from_shape_vec((1, 2), vec![2.0, 3.0]).unwrap());
}

#[test]
fn pooling_weights_of_another_shape_are_told_apart() {
    assert!(check_hc_head((4, 8), (4, 32), 4, 4, 8));
    assert!(!check_hc_head((3, 8), (4, 32), 4, 4, 8));
    assert!(!check_hc_head((4, 8), (4, 31), 4, 4, 8));
    assert!(!check_hc_head((4, 8), (5, 32), 4, 4, 8));
    assert!(!check_hc_head((4, 8), (4, 32), 5, 4, 8));
    assert!(!check_hc_head((usize::MAX, 2), (usize::MAX, 0), usize::MAX, usize::MAX, 2));
}

#[test]
fn a_pass_runs_the_layers_in_order() {
    let embd = Matrix::from_flat(3, 2, vec![10, 11, 20, 21, 30, 31]).unwrap();
    let shapes = HeadShapes { hc_fn: (2, 4), base_len: 2, n_vocab: 2 };
    let layer = |l: usize, x: &Cube, ids: &Vec<u32>, offset: usize| {
        assert_eq!((ids, offset), (&vec![2, 0], 7));
        let mut y = Cube::zeros(2, 2, 2);
        for (t, h, d) in [(0, 0, 0), (0, 1, 1), (1, 0, 1), (1, 1, 0)] {
            y.put(t, h, d, x.at(t, h, d) * 10 + l as u32 + 1);
        }
        y
    };
    let seen = RefCell::new(Vec::new());
    let tables = |k: HeadKernel, m: &Matrix| {
        seen.borrow_mut().push((k, m.row(0)));
        Matrix::from_flat(2, 2, m.row(0)[..2].iter().chain(&m.row(1)[..2]).copied().collect())
            .unwrap()
    };
    let weigh = |x: &Cube, _: &Matrix| {
        Matrix::from_flat(2, 2, [x.row(0, 0), x.row(1, 1)].concat()).unwrap()
    };
    let out = dsv4_model_forward(
        &vec![2, 0],
        &embd,
        2,
        2,
        &shapes,
        2,
        7,
        &layer,
        &tables,
        &weigh,
    );
    assert_eq!((out.row(0), out.row(1)), (vec![3012, 0], vec![1012, 0]));
    let seen = seen.borrow();
    let order: Vec<HeadKernel> = seen.iter().map(|s| s.0).collect();
    assert_eq!(
        order,
        vec![
            HeadKernel::UnitNorm,
            HeadKernel::ProjectStreams,
            HeadKernel::Scale,
            HeadKernel::AddBase,
            HeadKernel::SigmoidEps,
            HeadKernel::OutputNorm,
            HeadKernel::LmHead,
        ]
    );
    // The first of them gets the streams side by side.
    assert_eq!(seen[0].1, vec![3012, 0, 0, 3112]);
}

fn hyperparams() -> DsV4Hyperparams {
    DsV4Hyperparams {
        n_embd: 64,
        n_head: 4,
        head_dim: 64,
        q_lora_rank: 16,
        n_groups: 2,
        o_lora_rank: 8,
        n_rot: 8,
        rope_base: 10000.0f64.to_bits(),
        rope_mode: DsV4RopeMode::Neox,
        window_size: 8,
        norm_eps: 1e-5f32.to_bits(),
        indexer_head_size: Some(16),
        n_index_head: Some(2),
        top_k: Some(3),
        n_hc: 4,
        n_expert: 4,
        n_expert_used: 2,
        n_ff_exp: 8,
        n_expert_shared: 1,
        expert_weights_norm: true,
        expert_weights_scale: 1.0f32.to_bits(),
        yarn: None,
        rope_base_swa: None,
    }
}

#[test]
fn streamed_parameters_take_the_ratio() {
    let hp = hyperparams();
    let c = build_compress_params(&hp, 4);
    assert_eq!((c.compressor.head_dim, c.compressor.compress_ratio), (64, 4));
    let i = build_indexer_params(&hp, 4);
    assert_eq!((i.indexer_compressor.head_dim, i.indexer_compressor.compress_ratio), (16, 4));
    assert_eq!((i.indexer.n_index_head, i.indexer.n_index_head_size, i.top_k), (2, 16, 3));
}

// ---- the feed-forward block ----------------------------------------------------

struct Shared {
    gate: Array2<f32>,
    up: Array2<f32>,
    down: Array2<f32>,
}

impl Shared {
    fn shapes(&self) -> SharedExpertShapes {
        SharedExpertShapes {
            gate_shexp: self.gate.dim(),
            up_shexp: self.up.dim(),
            down_shexp: self.down.dim(),
        }
    }

    fn run(&self, x: &Array2<f32>, limit: f32) -> Array2<f32> {
        let kernels = |_: usize, kernel: Kernel, a: Vec<&Array2<f32>>| match kernel {
            Kernel::Project(Weight::SharedGate, _) => a[0].dot(&self.gate.t()),
            Kernel::Project(Weight::SharedUp, _) => a[0].dot(&self.up.t()),
            Kernel::Project(Weight::SharedDown, _) => a[0].dot(&self.down.t()),
            Kernel::ClampedSwiGlu(l) => clamped_swiglu(a[0], a[1], f32::from_bits(l)),
            other => panic!("{other:?} is no part of a shared expert"),
        };
        let (shapes, n_embd) = (self.shapes(), x.ncols());
        dsv4_shared_expert_ffn(x.clone(), 0, &shapes, n_embd, limit.to_bits(), &kernels).unwrap()
    }
}

#[test]
fn shared_expert_matches_direct_compute() {
    let n_tokens = 2;
    let n_embd = 4;
    let hidden = 6;
    let x = Array2::<f32>::from_shape_fn((n_tokens, n_embd), |(t, d)| (t + d) as f32 * 0.1);
    let w = Shared {
        gate: Array2::from_shape_fn((hidden, n_embd), |(i, j)| ((i + j) as f32 * 0.03).sin()),
        up: Array2::from_shape_fn((hidden, n_embd), |(i, j)| ((i + j) as f32 * 0.05).cos()),
        down: Array2::from_shape_fn((n_embd, hidden), |(d, i)| ((d + i) as f32 * 0.07).sin()),
    };
    let out = w.run(&x, 0.0);
    assert_eq!(out.dim(), (n_tokens, n_embd));
    assert!(out.iter().all(|v| v.is_finite()));

    let mut gate_vec = vec![0.0_f32; hidden];
    let mut up_vec = vec![0.0_f32; hidden];
    for i in 0..hidden {
        for j in 0..n_embd {
            gate_vec[i] += w.gate[[i, j]] * x[[0, j]];
            up_vec[i] += w.up[[i, j]] * x[[0, j]];
        }
    }
    for d in 0..n_embd {
        let mut acc = 0.0_f32;
        for i in 0..hidden {
            acc += w.down[[d, i]] * (gate_vec[i] * sigmoid(gate_vec[i]) * up_vec[i]);
        }
        assert!(
            (out[[0, d]] - acc).abs() < 1e-5,
            "d={d}: dispatch={} direct={acc}",
            out[[0, d]]
        );
    }
}

#[test]
fn a_shared_expert_of_another_shape_is_named() {
    let ok = SharedExpertShapes { gate_shexp: (6, 4), up_shexp: (6, 4), down_shexp: (4, 6) };
    assert_eq!(check_shared_expert(&ok, 4), Ok(6));
    assert_eq!(check_shared_expert(&ok, 5), Err(SharedExpertFault::Gate));
    let up = SharedExpertShapes { up_shexp: (6, 5), ..ok };
    assert_eq!(check_shared_expert(&up, 4), Err(SharedExpertFault::Up));
    let down = SharedExpertShapes { down_shexp: (6, 4), ..ok };
    assert_eq!(check_shared_expert(&down, 4), Err(SharedExpertFault::Down));
    assert_eq!(shared_expert_instrs(&down, 4, 0), Err(SharedExpertFault::Down));
    assert_eq!(shared_expert_instrs(&ok, 4, 0).unwrap().len(), 4);
    let kernels = |_: usize, _: Kernel, _: Vec<&u32>| 1;
    assert_eq!(
        dsv4_shared_expert_ffn(0, 0, &down, 4, 0, &kernels),
        Err(SharedExpertFault::Down)
    );
}

struct Ffn {
    ffn_norm: Vec<f32>,
    gate_inp: Array2<f32>,
    exp_probs_b: Option<Vec<f32>>,
    tid2eid: Option<Array2<i32>>,
    gate_exps: Array3<f32>,
    up_exps: Array3<f32>,
    down_exps: Array3<f32>,
    shared: Shared,
}

struct Params {
    n_expert_used: usize,
    norm_eps: f32,
    routed_limit: f32,
    shared_limit: f32,
    weights_norm: bool,
}

impl Params {
    fn ffn(&self, n_expert: usize) -> Dsv4FfnParams {
        Dsv4FfnParams {
            n_expert,
            n_expert_used: self.n_expert_used,
            norm_eps: self.norm_eps.to_bits(),
            routed_swiglu_limit: self.routed_limit.to_bits(),
            shared_swiglu_limit: self.shared_limit.to_bits(),
            expert_weights_norm: self.weights_norm,
            expert_weights_scale: 1.0_f32.to_bits(),
        }
    }
}

fn softplus_root(x: f32) -> f32 {
    x.exp().ln_1p().sqrt()
}

/// Which experts every row goes to. The learned gate scores the rows; the table
/// knows the experts by token id and weighs them alike.
fn route(
    source: RoutingSource,
    x: &Array2<f32>,
    w: &Ffn,
    token_ids: Option<&[u32]>,
) -> RoutingResult {
    let used = match source {
        RoutingSource::HashTable { n_expert_used } => n_expert_used,
        RoutingSource::Learned { n_expert_used, .. } => n_expert_used,
    };
    let (mut indices, mut weights) = (Vec::new(), Vec::new());
    for t in 0..x.nrows() {
        match source {
            RoutingSource::HashTable { .. } => {
                let table = w.tid2eid.as_ref().unwrap();
                for k in 0..used {
                    indices.push(table[[token_ids.unwrap()[t] as usize, k]] as usize);
                    weights.push((1.0 / used as f32).to_bits());
                }
            }
            RoutingSource::Learned { n_expert, norm, scale, .. } => {
                assert_eq!(w.gate_inp.nrows(), n_expert);
                let scores: Vec<f32> =
                    w.gate_inp.dot(&x.row(t)).iter().map(|&v| softplus_root(v)).collect();
                let biased: Vec<f32> = match &w.exp_probs_b {
                    Some(b) => scores.iter().zip(b).map(|(s, b)| s + b).collect(),
                    None => scores.clone(),
                };
                let top = top_k_experts(&bits(&biased), used);
                let sum: f32 = top.iter().map(|&e| scores[e]).sum();
                for &e in &top {
                    indices.push(e);
                    let weight = if norm { scores[e] / sum } else { scores[e] };
                    weights.push((weight * f32::from_bits(scale)).to_bits());
                }
            }
        }
    }
    RoutingResult { n_expert_used: used, indices, weights }
}

fn run_experts(x: &Array2<f32>, routing: &RoutingResult, w: &Ffn, limit: f32) -> Array2<f32> {
    let shapes = ExpertShapes {
        gate_exps: w.gate_exps.dim(),
        up_exps: w.up_exps.dim(),
        down_exps: w.down_exps.dim(),
    };
    let d = dsv4_moe_dispatch(&matrix(x), routing, &shapes);
    let kernels = |e: usize, kernel: Kernel, a: Vec<&Array2<f32>>| match kernel {
        Kernel::Project(Weight::ExpertGate, _) => {
            a[0].dot(&w.gate_exps.index_axis(Axis(0), e).t())
        }
        Kernel::Project(Weight::ExpertUp, _) => a[0].dot(&w.up_exps.index_axis(Axis(0), e).t()),
        Kernel::Project(Weight::ExpertDown, _) => {
            a[0].dot(&w.down_exps.index_axis(Axis(0), e).t())
        }
        Kernel::ClampedSwiGlu(l) => clamped_swiglu(a[0], a[1], f32::from_bits(l)),
        other => panic!("{other:?} is no part of an expert"),
    };
    let results: Vec<Matrix> = d
        .batches
        .iter()
        .map(|b| matrix(&run_expert(array2(&b.rows), b.expert, limit.to_bits(), &kernels)))
        .collect();
    let accumulate = |weight: u32, row: &Vec<u32>, acc: &Vec<u32>| -> Vec<u32> {
        let weight = f32::from_bits(weight);
        acc.iter()
            .zip(row)
            .map(|(&a, &r)| (f32::from_bits(a) + weight * f32::from_bits(r)).to_bits())
            .collect()
    };
    array2(&combine_results(&d, &results, x.nrows(), x.ncols(), &accumulate))
}

/// Rows, or where they go.
enum Value {
    Rows(Array2<f32>),
    Routes(RoutingResult),
}

impl Value {
    fn rows(&self) -> &Array2<f32> {
        match self {
            Value::Rows(r) => r,
            Value::Routes(_) => panic!("rows were expected"),
        }
    }
}

fn ffn_block(x: &Array2<f32>, w: &Ffn, p: &Params, token_ids: Option<&[u32]>) -> Array2<f32> {
    let params = p.ffn(w.gate_inp.nrows());
    let n_ids = token_ids.map(<[u32]>::len);
    let kernels = |layer: usize, kernel: Kernel, a: Vec<&Value>| {
        assert_eq!(layer, 5);
        Value::Rows(match kernel {
            Kernel::Norm(_) => norm_rows(a[0].rows(), &w.ffn_norm, p.norm_eps),
            Kernel::Route(source) => {
                return Value::Routes(route(source, a[0].rows(), w, token_ids));
            }
            Kernel::RunExperts { limit: l } => match a[1] {
                Value::Routes(r) => run_experts(a[0].rows(), r, w, f32::from_bits(l)),
                Value::Rows(_) => panic!("routes were expected"),
            },
            Kernel::SharedExpert { limit: Some(l) } => {
                w.shared.run(a[0].rows(), f32::from_bits(l))
            }
            Kernel::Add => a[0].rows() + a[1].rows(),
            other => panic!("{other:?} is no part of a feed-forward block"),
        })
    };
    let x0 = Value::Rows(x.clone());
    let has_table = w.tid2eid.is_some();
    let y = dsv4_ffn_block(x0, 5, has_table, n_ids, x.nrows(), &params, &kernels);
    y.rows().clone()
}

fn experts(n_expert: usize, n_ff: usize, n_embd: usize, gate: f32) -> [Array3<f32>; 3] {
    [
        Array3::from_shape_fn((n_expert, n_ff, n_embd), |(e, i, j)| {
            ((e + i + j) as f32 * gate).sin() * 0.1
        }),
        Array3::from_shape_fn((n_expert, n_ff, n_embd), |(e, i, j)| {
            ((e + i + j) as f32 * 0.013).cos() * 0.1
        }),
        Array3::from_shape_fn((n_expert, n_embd, n_ff), |(e, d, i)| {
            ((e + d + i) as f32 * 0.009).sin() * 0.1
        }),
    ]
}

fn shared(hidden: usize, n_embd: usize) -> Shared {
    Shared {
        gate: Array2::from_shape_fn((hidden, n_embd), |(i, j)| ((i + j) as f32 * 0.015).sin() * 0.1),
        up: Array2::from_shape_fn((hidden, n_embd), |(i, j)| ((i + j) as f32 * 0.017).cos() * 0.1),
        down: Array2::from_shape_fn((n_embd, hidden), |(d, i)| ((d + i) as f32 * 0.019).sin() * 0.1),
    }
}

#[test]
fn ffn_block_regular_routing_smoke() {
    let n_tokens = 4;
    let n_embd = 16;
    let n_expert = 6;
    let x = Array2::<f32>::from_shape_fn((n_tokens, n_embd), |(t, d)| {
        ((t * 7 + d) as f32 * 0.013).sin()
    });
    let [gate_exps, up_exps, down_exps] = experts(n_expert, 8, n_embd, 0.011);
    let w = Ffn {
        ffn_norm: vec![1.0; n_embd],
        gate_inp: Array2::from_shape_fn((n_expert, n_embd), |(e, d)| {
            ((e + d) as f32 * 0.01).cos() * 0.1
        }),
        exp_probs_b: Some(vec![0.0; n_expert]),
        tid2eid: None,
        gate_exps,
        up_exps,
        down_exps,
        shared: shared(4, n_embd),
    };
    let p = Params {
        n_expert_used: 2,
        norm_eps: 1e-5,
        routed_limit: 7.0,
        shared_limit: 0.0,
        weights_norm: true,
    };
    let out = ffn_block(&x, &w, &p, None);
    assert_eq!(out.dim(), (n_tokens, n_embd));
    assert!(out.iter().all(|v| v.is_finite()));
    let total: f32 = out.iter().map(|v| v.abs()).sum();
    assert!(total > 1e-4, "output collapsed (sum={total})");
}

#[test]
fn ffn_block_hash_routing_smoke() {
    let n_tokens = 3;
    let n_embd = 8;
    let n_expert = 4;
    let n_expert_used = 2;
    let n_vocab = 16;
    let x =
        Array2::<f32>::from_shape_fn((n_tokens, n_embd), |(t, d)| ((t + d) as f32 * 0.05).sin());
    let [gate_exps, up_exps, down_exps] = experts(n_expert, 4, n_embd, 0.01);
    let w = Ffn {
        ffn_norm: vec![1.0; n_embd],
        // The table must be consulted instead of this.
        gate_inp: Array2::from_elem((n_expert, n_embd), f32::NAN),
        exp_probs_b: None,
        tid2eid: Some(Array2::from_shape_fn((n_vocab, n_expert_used), |(t, k)| {
            ((t + k) as i32) % n_expert as i32
        })),
        gate_exps,
        up_exps,
        down_exps,
        shared: shared(4, n_embd),
    };
    let p = Params {
        n_expert_used,
        norm_eps: 1e-5,
        routed_limit: 0.0,
        shared_limit: 0.0,
        weights_norm: false,
    };
    let token_ids = vec![5u32, 0, 11];
    let out = ffn_block(&x, &w, &p, Some(&token_ids));
    assert!(
        out.iter().all(|v| v.is_finite()),
        "NaN gate_inp leaked into hash-routed output"
    );
}

#[test]
fn a_table_by_token_id_comes_before_the_gate() {
    let p = Params {
        n_expert_used: 2,
        norm_eps: 1e-5,
        routed_limit: 7.0,
        shared_limit: 0.5,
        weights_norm: true,
    }
    .ffn(6);
    let table = RoutingSource::HashTable { n_expert_used: 2 };
    let learned = RoutingSource::Learned {
        n_expert: 6,
        n_expert_used: 2,
        norm: true,
        scale: 1.0_f32.to_bits(),
    };
    assert_eq!(routing_source(true, Some(3), 3, &p), table);
    assert_eq!(routing_source(false, None, 3, &p), learned);
    assert_eq!(routing_source(false, Some(3), 3, &p), learned);
    let code = ffn_block_instrs(false, None, 3, &p);
    assert_eq!(code[1].kernel, Kernel::Route(learned));
    assert_eq!(code[2].kernel, Kernel::RunExperts { limit: 7.0_f32.to_bits() });
    assert_eq!(code[3].kernel, Kernel::SharedExpert { limit: Some(0.5_f32.to_bits()) });
}

// ---- a whole pass ------------------------------------------------------------------

#[test]
fn model_forward_two_layers_smoke() {
    let n_tokens = 3;
    let n_vocab = 16;
    let n_hc = 4;
    let n_embd = 64;
    let n_expert = 6;
    let n_layer = 2;
    let hc_dim = n_hc * n_embd;
    let token_embd = Array2::<f32>::from_shape_fn((n_vocab, n_embd), |(v, d)| {
        ((v + d) as f32 * 0.005).sin() * 0.1
    });
    let token_ids = vec![1u32, 7, 11];
    let [gate_exps, up_exps, down_exps] = experts(n_expert, 8, n_embd, 0.011);
    let w = Ffn {
        ffn_norm: vec![1.0; n_embd],
        gate_inp: Array2::from_shape_fn((n_expert, n_embd), |(e, d)| {
            ((e + d) as f32 * 0.01).cos() * 0.1
        }),
        exp_probs_b: None,
        tid2eid: None,
        gate_exps,
        up_exps,
        down_exps,
        shared: shared(4, n_embd),
    };
    let p = Params {
        n_expert_used: 2,
        norm_eps: 1e-5,
        routed_limit: 7.0,
        shared_limit: 0.0,
        weights_norm: true,
    };
    let hc_fn = Array2::<f32>::from_shape_fn((n_hc, hc_dim), |(h, k)| {
        ((h + k) as f32 * 0.005).sin() * 0.1
    });
    let output_norm = vec![1.0_f32; n_embd];
    let lm_head = Array2::<f32>::from_shape_fn((n_vocab, n_embd), |(v, d)| {
        ((v + d) as f32 * 0.005).cos() * 0.1
    });

    let head = Head {
        hc_fn,
        scale: 1.0,
        base: vec![0.0; n_hc],
        norm_eps: 1e-5,
        hc_eps: 1e-5,
        output_norm,
        lm_head,
    };
    let ran = RefCell::new(Vec::new());
    // Each stream goes through the feed-forward block and keeps what it had.
    let layer = |index: usize, x: &Cube, _: &Vec<u32>, position_offset: usize| {
        assert_eq!(position_offset, 0);
        ran.borrow_mut().push(index);
        let mut streams = array3(x);
        for h in 0..n_hc {
            let x = streams.index_axis(Axis(1), h).to_owned();
            let y = &x + &ffn_block(&x, &w, &p, None);
            streams.index_axis_mut(Axis(1), h).assign(&y);
        }
        cube(&streams)
    };
    let tables = |k: HeadKernel, m: &Matrix| head.table(k, m);
    let logits = array2(&dsv4_model_forward(
        &token_ids,
        &matrix(&token_embd),
        n_layer,
        n_layer,
        &head.shapes(),
        n_hc,
        0,
        &layer,
        &tables,
        &weigh,
    ));
    assert_eq!(*ran.borrow(), vec![0, 1]);
    assert_eq!(logits.shape(), &[n_tokens, n_vocab]);
    assert!(logits.iter().all(|v| v.is_finite()), "non-finite logits");
    let total: f32 = logits.iter().map(|v| v.abs()).sum();
    assert!(total > 1e-3, "logits collapsed (sum={total})");
    let mut row_diff = 0.0_f32;
    for v in 0..n_vocab {
        row_diff += (logits[[0, v]] - logits[[1, v]]).abs();
    }
    assert!(
        row_diff > 1e-3,
        "row 0 and row 1 logits are identical (loop not running per-token)"
    );
}
