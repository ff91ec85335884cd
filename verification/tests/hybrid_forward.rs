//! Whole tokens through a hybrid model: the library's programs and caches, run on
//! values.

use std::cell::RefCell;

use larql::attention::block_program::{Kernel, Weight};
use larql::attention::deltanet_block::{
    check_shapes, deltanet_block_step, DeltaNetDims, DeltaNetShapes,
};
use larql::attention::deltanet_state::DeltaNetLayerState;
use larql::attention::layer_program::{BlockKind, FfnRoute, LayerFlags, Op};
use larql::attention::quant_dispatch::QuantFormat;
use larql::attention::qwen35_block::{
    check_attention_shapes, gqa_decode_step, hybrid_layer_step, qwen35_attention_block_step,
    AttentionShapes, BlockShapes, DeltaNetHybridCache, KvSlabs, Qwen35AttentionDims,
};
use larql::attention::qwen35_forward::{
    expert_rows, qwen35_forward_step, swiglu_ffn_lazy, swiglu_moe_lazy, FfnTypes,
};
use larql::attention::qwen35_load::{
    load_qwen35_weights, HybridArch, LayerKeys, Qwen35LayerWeights, WeightTables,
};
use larql::tensor::{Cube, Matrix};
use ndarray::{Array1, Array2, Array3};

// ---- values and words -------------------------------------------------------

fn bits(values: &[f32]) -> Vec<u32> {
    values.iter().map(|v| v.to_bits()).collect()
}

fn floats(words: &[u32]) -> Vec<f32> {
    words.iter().map(|&w| f32::from_bits(w)).collect()
}

fn array2(m: &Matrix) -> Array2<f32> {
    Array2::from_shape_fn((m.nrows(), m.ncols()), |(r, c)| f32::from_bits(m.at(r, c)))
}

fn array3(c: &Cube) -> Array3<f32> {
    Array3::from_shape_fn(c.dims(), |(p, r, k)| f32::from_bits(c.at(p, r, k)))
}

fn mass(c: &Cube) -> f32 {
    array3(c).iter().map(|v| v.abs()).sum()
}

fn times(w: &Array2<f32>, x: &[f32]) -> Vec<f32> {
    w.dot(&Array1::from(x.to_vec())).to_vec()
}

fn sigmoid(x: f32) -> f32 {
    1.0 / (1.0 + (-x).exp())
}

fn rms_norm(x: &[f32], w: &[f32], eps: f32) -> Vec<f32> {
    let mean = x.iter().map(|v| v * v).sum::<f32>() / x.len() as f32;
    let inv = 1.0 / (mean + eps).sqrt();
    x.iter().zip(w).map(|(v, g)| v * inv * g).collect()
}

fn norm_heads(x: &[f32], w: &[f32], eps: f32) -> Vec<f32> {
    x.chunks(w.len()).flat_map(|h| rms_norm(h, w, eps)).collect()
}

fn plus(a: &[f32], b: &[f32]) -> Vec<f32> {
    a.iter().zip(b).map(|(x, y)| x + y).collect()
}

// ---- the blocks ---------------------------------------------------------------

#[derive(Clone)]
struct Linear {
    attn_norm: Vec<f32>,
    attn_qkv: Array2<f32>,
    attn_gate: Array2<f32>,
    ssm_conv1d: Array2<f32>,
    ssm_dt: Vec<f32>,
    ssm_a: Vec<f32>,
    ssm_beta: Array2<f32>,
    ssm_alpha: Array2<f32>,
    ssm_norm: Vec<f32>,
    ssm_out: Array2<f32>,
}

#[derive(Clone)]
struct Attention {
    attn_norm: Vec<f32>,
    attn_q: Array2<f32>,
    attn_k: Array2<f32>,
    attn_v: Array2<f32>,
    attn_q_norm: Vec<f32>,
    attn_k_norm: Vec<f32>,
    attn_output: Array2<f32>,
}

/// One step of the causal convolution over the window and the new row.
fn conv_step(taps: &Array2<f32>, window: &mut Array2<f32>, x: &[f32]) -> Vec<f32> {
    let d_conv = taps.nrows();
    let out = (0..x.len())
        .map(|c| {
            let past: f32 = (0..d_conv - 1).map(|t| taps[[t, c]] * window[[t, c]]).sum();
            past + taps[[d_conv - 1, c]] * x[c]
        })
        .collect();
    for t in 0..d_conv - 1 {
        for c in 0..x.len() {
            window[[t, c]] = if t + 1 < d_conv - 1 { window[[t + 1, c]] } else { x[c] };
        }
    }
    out
}

fn unit_heads(m: &Array2<f32>) -> Array2<f32> {
    let mut out = m.clone();
    for mut head in out.columns_mut() {
        let norm = head.iter().map(|v| v * v).sum::<f32>().sqrt().max(1e-6);
        head.mapv_inplace(|v| v / norm);
    }
    out
}

/// One step of the delta rule: decay, then write what the state gets wrong.
fn delta_step(
    q: &Array2<f32>,
    k: &Array2<f32>,
    v: &Array2<f32>,
    log_decay: &[f32],
    write: &[f32],
    state: &mut Array3<f32>,
) -> Array2<f32> {
    let (dim, n_v) = v.dim();
    let group = n_v / k.ncols();
    let mut out = Array2::zeros((dim, n_v));
    for h in 0..n_v {
        let kh = h / group;
        for i in 0..dim {
            for j in 0..dim {
                state[[h, i, j]] *= log_decay[h].exp();
            }
        }
        for j in 0..dim {
            let seen: f32 = (0..dim).map(|i| state[[h, i, j]] * k[[i, kh]]).sum();
            let fix = write[h] * (v[[j, h]] - seen);
            for i in 0..dim {
                state[[h, i, j]] += k[[i, kh]] * fix;
            }
        }
        for j in 0..dim {
            out[[j, h]] = (0..dim).map(|i| state[[h, i, j]] * q[[i, kh]]).sum();
        }
    }
    out
}

fn linear_shapes(x: usize, w: &Linear) -> DeltaNetShapes {
    DeltaNetShapes {
        x,
        attn_norm: w.attn_norm.len(),
        attn_qkv: w.attn_qkv.dim(),
        attn_gate: w.attn_gate.dim(),
        ssm_conv1d: w.ssm_conv1d.dim(),
        ssm_dt: w.ssm_dt.len(),
        ssm_a: w.ssm_a.len(),
        ssm_beta: w.ssm_beta.dim(),
        ssm_alpha: w.ssm_alpha.dim(),
        ssm_norm: w.ssm_norm.len(),
        ssm_out: w.ssm_out.dim(),
    }
}

/// The kernels of a linear-attention block.
fn linear_kernel(kernel: Kernel, args: &[Vec<u32>], w: &Linear, d: &DeltaNetDims) -> Vec<u32> {
    let eps = f32::from_bits(d.eps);
    let a: Vec<Vec<f32>> = args.iter().map(|v| floats(v)).collect();
    let table = |v: &[f32]| {
        Array2::from_shape_vec((d.head_v_dim, v.len() / d.head_v_dim), v.to_vec()).unwrap()
    };
    bits(&match kernel {
        Kernel::Norm(_) => rms_norm(&a[0], &w.attn_norm, eps),
        Kernel::Project(which, _) => {
            let m = match which {
                Weight::AttnQkv => &w.attn_qkv,
                Weight::AttnGate => &w.attn_gate,
                Weight::SsmBeta => &w.ssm_beta,
                Weight::SsmAlpha => &w.ssm_alpha,
                Weight::SsmOut => &w.ssm_out,
                other => panic!("{other:?} is no matrix of a linear block"),
            };
            times(m, &a[0])
        }
        Kernel::Sigmoid => a[0].iter().map(|&v| sigmoid(v)).collect(),
        Kernel::Decay => a[0]
            .iter()
            .enumerate()
            .map(|(h, v)| w.ssm_a[h] * (v + w.ssm_dt[h]).exp().ln_1p())
            .collect(),
        Kernel::Conv => {
            let shape = (d.d_conv - 1, d.conv_dim());
            let mut window = Array2::from_shape_vec(shape, a[1].clone()).unwrap();
            let out = conv_step(&w.ssm_conv1d, &mut window, &a[0]);
            out.into_iter().chain(window).collect()
        }
        Kernel::Silu => a[0].iter().map(|&v| v * sigmoid(v)).collect(),
        Kernel::UnitHeads => unit_heads(&table(&a[0])).into_iter().collect(),
        Kernel::DeltaRule => {
            let shape = (d.n_v_heads, d.head_v_dim, d.head_v_dim);
            let mut state = Array3::from_shape_vec(shape, a[5].clone()).unwrap();
            let o = delta_step(
                &table(&a[0]),
                &table(&a[1]),
                &table(&a[2]),
                &a[3],
                &a[4],
                &mut state,
            );
            o.into_iter().chain(state).collect()
        }
        Kernel::HeadNorm(_) => norm_heads(&a[0], &w.ssm_norm, 1e-6),
        Kernel::SiluGate => a[0].iter().zip(&a[1]).map(|(o, &z)| o * z * sigmoid(z)).collect(),
        other => panic!("{other:?} is no part of a linear block"),
    })
}

fn linear_block(x: &[f32], w: &Linear, d: &DeltaNetDims, s: &mut DeltaNetLayerState) -> Vec<f32> {
    let shapes = linear_shapes(x.len(), w);
    assert!(check_shapes(&shapes, d));
    let kernels = |_: usize, k: Kernel, args: Vec<Vec<u32>>| linear_kernel(k, &args, w, d);
    floats(&deltanet_block_step(&bits(x), 0, &shapes, d, s, &kernels))
}

fn rotate(row: &mut [f32], heads: usize, width: usize, n_rot: usize, base: f64, position: usize) {
    let half = n_rot / 2;
    for h in 0..heads {
        for i in 0..half {
            let angle = position as f64 * base.powf(-2.0 * i as f64 / n_rot as f64);
            let (s, c) = (angle.sin() as f32, angle.cos() as f32);
            let (a, b) = (row[h * width + i], row[h * width + half + i]);
            row[h * width + i] = a * c - b * s;
            row[h * width + half + i] = a * s + b * c;
        }
    }
}

fn attention_shapes(x: usize, w: &Attention) -> AttentionShapes {
    AttentionShapes {
        x,
        attn_norm: w.attn_norm.len(),
        attn_q: Some(w.attn_q.dim()),
        attn_k: Some(w.attn_k.dim()),
        attn_v: Some(w.attn_v.dim()),
        attn_q_norm: w.attn_q_norm.len(),
        attn_k_norm: w.attn_k_norm.len(),
        attn_output: Some(w.attn_output.dim()),
    }
}

/// The kernels of a softmax-attention block.
fn attention_kernel(
    kernel: Kernel,
    args: &[Vec<u32>],
    w: &Attention,
    d: &Qwen35AttentionDims,
) -> Vec<u32> {
    let eps = f32::from_bits(d.eps);
    let half = |row: &[f32], second: usize| -> Vec<f32> {
        row.chunks(2 * d.head_dim)
            .flat_map(|c| c[second * d.head_dim..(second + 1) * d.head_dim].to_vec())
            .collect()
    };
    let a: Vec<Vec<f32>> = args.iter().map(|v| floats(v)).collect();
    bits(&match kernel {
        Kernel::Norm(_) => rms_norm(&a[0], &w.attn_norm, eps),
        Kernel::Project(which, _) => {
            let m = match which {
                Weight::AttnQ => &w.attn_q,
                Weight::AttnK => &w.attn_k,
                Weight::AttnV => &w.attn_v,
                Weight::AttnOutput => &w.attn_output,
                other => panic!("{other:?} is no matrix of an attention block"),
            };
            times(m, &a[0])
        }
        Kernel::QueryHalf => half(&a[0], 0),
        Kernel::GateHalf => half(&a[0], 1),
        Kernel::HeadNorm(Weight::AttnQNorm) => norm_heads(&a[0], &w.attn_q_norm, 1e-6),
        Kernel::HeadNorm(_) => norm_heads(&a[0], &w.attn_k_norm, 1e-6),
        Kernel::Rotate { heads, width, position } => {
            let mut row = a[0].clone();
            let base = f64::from_bits(d.rope_base);
            rotate(&mut row, heads, width, d.rotary_dim, base, position);
            row
        }
        Kernel::AttendKv => {
            let n_rows = a[1].len() / 2 / d.kv_dim();
            let (k, v) = a[1].split_at(a[1].len() / 2);
            let k = Array2::from_shape_vec((n_rows, d.kv_dim()), k.to_vec()).unwrap();
            let v = Array2::from_shape_vec((n_rows, d.kv_dim()), v.to_vec()).unwrap();
            let scale = 1.0 / (d.head_dim as f32).sqrt();
            let mut out = Vec::new();
            let heads =
                gqa_decode_step(a[0].len(), k.dim(), v.dim(), d.n_head, d.n_head_kv, d.head_dim);
            for (qc, kc) in heads {
                let scores: Vec<f32> = (0..k.nrows())
                    .map(|t| {
                        (0..d.head_dim).map(|e| a[0][qc + e] * k[[t, kc + e]]).sum::<f32>() * scale
                    })
                    .collect();
                let max = scores.iter().copied().fold(f32::NEG_INFINITY, f32::max);
                let exps: Vec<f32> = scores.iter().map(|s| (s - max).exp()).collect();
                let sum: f32 = exps.iter().sum();
                for e in 0..d.head_dim {
                    out.push((0..k.nrows()).map(|t| exps[t] / sum * v[[t, kc + e]]).sum());
                }
            }
            out
        }
        Kernel::SigmoidGate => a[0].iter().zip(&a[1]).map(|(o, &g)| o * sigmoid(g)).collect(),
        other => panic!("{other:?} is no part of an attention block"),
    })
}

// ---- the model ------------------------------------------------------------------

enum Block {
    Linear(Linear),
    Attention(Attention),
}

struct Layer {
    block: Block,
    post_norm: Vec<f32>,
    gate: Array2<f32>,
    up: Array2<f32>,
    down: Array2<f32>,
}

struct Model {
    embed: Array2<f32>,
    layers: Vec<Layer>,
    final_norm: Vec<f32>,
    lm_head: Array2<f32>,
}

fn swiglu_ffn(x: &[f32], gate: &Array2<f32>, up: &Array2<f32>, down: &Array2<f32>) -> Vec<f32> {
    let types = FfnTypes { gate: None, up: None, down: None };
    let kernels = |_: usize, kernel: Kernel, a: Vec<&Vec<f32>>| match kernel {
        Kernel::Project(Weight::FfnGate, _) => times(gate, a[0]),
        Kernel::Project(Weight::FfnUp, _) => times(up, a[0]),
        Kernel::Project(Weight::FfnDown, _) => times(down, a[0]),
        Kernel::SwiGlu => a[0].iter().zip(a[1]).map(|(&g, u)| g * sigmoid(g) * u).collect(),
        other => panic!("{other:?} is no part of a feed-forward part"),
    };
    let block = |_: &Vec<f32>, _: QuantFormat, _: QuantFormat, _: QuantFormat| None;
    let pair = |_: &Vec<f32>| None;
    swiglu_ffn_lazy(x.to_vec(), 0, &types, false, &block, &pair, &kernels)
}

fn block_shapes(
    block: &Block,
    x: usize,
    dn: &DeltaNetDims,
    d: &Qwen35AttentionDims,
) -> BlockShapes {
    match block {
        Block::Linear(w) => {
            let shapes = linear_shapes(x, w);
            assert!(check_shapes(&shapes, dn));
            BlockShapes::Linear(shapes)
        }
        Block::Attention(w) => {
            let shapes = attention_shapes(x, w);
            assert!(check_attention_shapes(&shapes, d));
            BlockShapes::Attention(shapes)
        }
    }
}

fn block_kernel(
    kernel: Kernel,
    args: &[Vec<u32>],
    block: &Block,
    dn: &DeltaNetDims,
    d: &Qwen35AttentionDims,
) -> Vec<u32> {
    match block {
        Block::Linear(w) => linear_kernel(kernel, args, w, dn),
        Block::Attention(w) => attention_kernel(kernel, args, w, d),
    }
}

/// One layer's block.
fn layer_step(
    x: &[f32],
    layer: usize,
    block: &Block,
    dn: &DeltaNetDims,
    attn: &Qwen35AttentionDims,
    cache: &mut DeltaNetHybridCache,
) -> Vec<f32> {
    floats(&hybrid_layer_step(
        layer,
        &bits(x),
        &block_shapes(block, x.len(), dn, attn),
        dn,
        attn,
        cache,
        &|_, k, args| block_kernel(k, &args, block, dn, attn),
    ))
}

fn forward(
    token: u32,
    w: &Model,
    dn: &DeltaNetDims,
    attn: &Qwen35AttentionDims,
    cache: &mut DeltaNetHybridCache,
    eps: f32,
) -> Vec<f32> {
    let flags: Vec<LayerFlags> = w
        .layers
        .iter()
        .map(|l| LayerFlags {
            block: match l.block {
                Block::Linear(_) => BlockKind::Linear,
                Block::Attention(_) => BlockKind::Attention,
            },
            has_moe: false,
            gate_quant: false,
            up_quant: false,
            down_quant: false,
        })
        .collect();
    let blocks: Vec<BlockShapes> =
        w.layers.iter().map(|l| block_shapes(&l.block, attn.hidden, dn, attn)).collect();
    let ops = |op: Op, args: Vec<Vec<u32>>| {
        let a: Vec<Vec<f32>> = args.iter().map(|v| floats(v)).collect();
        bits(&match op {
            Op::Embed(token, _) => w.embed.row(token as usize).to_vec(),
            Op::AddBlock | Op::AddFfn => plus(&a[0], &a[1]),
            Op::PostNorm { layer } => rms_norm(&a[0], &w.layers[layer].post_norm, eps),
            Op::Ffn { layer, route } => {
                assert_eq!(route, FfnRoute::Dense);
                let l = &w.layers[layer];
                swiglu_ffn(&a[0], &l.gate, &l.up, &l.down)
            }
            Op::FinalNorm => rms_norm(&a[0], &w.final_norm, eps),
            Op::LmHead(_) => times(&w.lm_head, &a[0]),
        })
    };
    floats(&qwen35_forward_step(
        token,
        &flags,
        &blocks,
        false,
        false,
        dn,
        attn,
        cache,
        &|l, k, args| block_kernel(k, &args, &w.layers[l].block, dn, attn),
        &ops,
    ))
}

fn tiny_dn_dims() -> DeltaNetDims {
    DeltaNetDims {
        hidden: 4,
        head_v_dim: 2,
        n_v_heads: 1,
        n_k_heads: 1,
        d_conv: 2,
        eps: 1e-6_f32.to_bits(),
    }
}

fn tiny_attn_dims() -> Qwen35AttentionDims {
    Qwen35AttentionDims {
        hidden: 4,
        n_head: 2,
        n_head_kv: 1,
        head_dim: 2,
        rotary_dim: 2,
        rope_base: 10_000.0_f64.to_bits(),
        eps: 1e-6_f32.to_bits(),
    }
}

fn linear_weights(d: &DeltaNetDims, decay: f32, alpha: f32) -> Linear {
    let conv_dim = d.conv_dim();
    let value_dim = d.value_dim();
    Linear {
        attn_norm: vec![1.0; d.hidden],
        attn_qkv: Array2::from_elem((conv_dim, d.hidden), 0.1),
        attn_gate: Array2::from_elem((value_dim, d.hidden), 0.1),
        ssm_conv1d: Array2::from_elem((d.d_conv, conv_dim), 0.5),
        ssm_dt: vec![0.0; d.n_v_heads],
        ssm_a: vec![decay; d.n_v_heads],
        ssm_beta: Array2::from_elem((d.n_v_heads, d.hidden), 0.1),
        ssm_alpha: Array2::from_elem((d.n_v_heads, d.hidden), alpha),
        ssm_norm: vec![1.0; d.head_v_dim],
        ssm_out: Array2::from_elem((d.hidden, value_dim), 0.5),
    }
}

fn attention_weights(d: &Qwen35AttentionDims) -> Attention {
    Attention {
        attn_norm: vec![1.0; d.hidden],
        attn_q: Array2::from_elem((d.fused_q_dim(), d.hidden), 0.1),
        attn_k: Array2::from_elem((d.kv_dim(), d.hidden), 0.1),
        attn_v: Array2::from_elem((d.kv_dim(), d.hidden), 0.1),
        attn_q_norm: vec![1.0; d.head_dim],
        attn_k_norm: vec![1.0; d.head_dim],
        attn_output: Array2::from_elem((d.hidden, d.q_dim()), 0.5),
    }
}

fn with_suffix(block: Block, hidden: usize, ffn_dim: usize) -> Layer {
    Layer {
        block,
        post_norm: vec![1.0; hidden],
        gate: Array2::from_elem((ffn_dim, hidden), 0.1),
        up: Array2::from_elem((ffn_dim, hidden), 0.1),
        down: Array2::from_elem((hidden, ffn_dim), 0.5),
    }
}

fn tiny_model(blocks: Vec<Block>) -> Model {
    let (hidden, vocab, ffn_dim) = (4, 5, 8);
    Model {
        embed: Array2::from_elem((vocab, hidden), 0.5),
        layers: blocks.into_iter().map(|b| with_suffix(b, hidden, ffn_dim)).collect(),
        final_norm: vec![1.0; hidden],
        lm_head: Array2::from_elem((vocab, hidden), 0.5),
    }
}

fn cache_for(
    kinds: &[bool],
    dn: &DeltaNetDims,
    attn: &Qwen35AttentionDims,
) -> DeltaNetHybridCache {
    DeltaNetHybridCache::allocate(
        kinds,
        attn.kv_dim(),
        dn.d_conv,
        dn.conv_dim(),
        dn.head_v_dim,
        dn.n_v_heads,
    )
}

// ---- the linear block -------------------------------------------------------------

fn fresh_state(d: &DeltaNetDims) -> DeltaNetLayerState {
    DeltaNetLayerState::allocate(d.d_conv, d.conv_dim(), d.head_v_dim, d.n_v_heads)
}

#[test]
fn deltanet_block_step_output_has_hidden_shape() {
    let dims = tiny_dn_dims();
    let weights = linear_weights(&dims, -1.0, 0.1);
    let mut state = fresh_state(&dims);
    let x = vec![1.0_f32; dims.hidden];
    let y = linear_block(&x, &weights, &dims, &mut state);
    assert_eq!(y.len(), dims.hidden);
    assert!(y.iter().all(|v| v.is_finite()));
    assert!(
        array2(&state.conv_state).iter().any(|v| v.abs() > 0.0),
        "conv_state should have absorbed the new token"
    );
    assert!(
        array3(&state.recurrent_state).iter().any(|v| v.abs() > 0.0),
        "recurrent_state should reflect the rank-1 update"
    );
}

#[test]
fn deltanet_block_step_zero_input_zero_output() {
    let dims = tiny_dn_dims();
    let conv_dim = dims.conv_dim();
    let value_dim = dims.value_dim();
    let weights = Linear {
        attn_norm: vec![1.0; dims.hidden],
        attn_qkv: Array2::zeros((conv_dim, dims.hidden)),
        attn_gate: Array2::zeros((value_dim, dims.hidden)),
        ssm_conv1d: Array2::zeros((dims.d_conv, conv_dim)),
        ssm_dt: vec![0.0; dims.n_v_heads],
        ssm_a: vec![0.0; dims.n_v_heads],
        ssm_beta: Array2::zeros((dims.n_v_heads, dims.hidden)),
        ssm_alpha: Array2::zeros((dims.n_v_heads, dims.hidden)),
        ssm_norm: vec![1.0; dims.head_v_dim],
        ssm_out: Array2::zeros((dims.hidden, value_dim)),
    };
    let mut state = fresh_state(&dims);
    let y = linear_block(&vec![0.0; dims.hidden], &weights, &dims, &mut state);
    for &v in y.iter() {
        assert!(v.abs() < 1e-5, "expected zero output, got {v}");
    }
}

#[test]
fn deltanet_block_step_two_calls_state_carries_forward() {
    let dims = tiny_dn_dims();
    let weights = linear_weights(&dims, 0.0, 0.0);
    let mut state = fresh_state(&dims);
    let x = vec![1.0_f32; dims.hidden];
    let _y1 = linear_block(&x, &weights, &dims, &mut state);
    let state_mass_after_1 = mass(&state.recurrent_state);
    let _y2 = linear_block(&x, &weights, &dims, &mut state);
    let state_mass_after_2 = mass(&state.recurrent_state);
    assert!(
        state_mass_after_2 >= state_mass_after_1 - 1e-5,
        "state mass shrank without decay: {state_mass_after_1} -> {state_mass_after_2}"
    );
}

#[test]
fn the_linear_block_hands_heads_and_state_to_its_kernels() {
    let dims = DeltaNetDims {
        hidden: 2,
        head_v_dim: 2,
        n_v_heads: 2,
        n_k_heads: 1,
        d_conv: 3,
        eps: 1e-6_f32.to_bits(),
    };
    let w = linear_weights(&dims, -1.0, 0.1);
    let mut state = fresh_state(&dims);
    let seen = RefCell::new(Vec::new());
    let kernels = |layer: usize, k: Kernel, args: Vec<Vec<u32>>| {
        assert_eq!(layer, 7);
        let out: Vec<u32> = match k {
            // Eight channels and a window of two rows.
            Kernel::Conv => (0..24).collect(),
            Kernel::Silu => args[0].clone(),
            // Two heads of two dimensions and a square for each.
            Kernel::DeltaRule => (100..112).collect(),
            Kernel::UnitHeads => args[0].iter().map(|v| v + 50).collect(),
            Kernel::Project(Weight::AttnQkv, _) => vec![9; 8],
            Kernel::Project(_, _) => vec![3; 2],
            _ => args[0].clone(),
        };
        seen.borrow_mut().push((k, args));
        out
    };
    let shapes = linear_shapes(2, &w);
    assert!(check_shapes(&shapes, &dims));
    let y = deltanet_block_step(&vec![1, 2], 7, &shapes, &dims, &mut state, &kernels);
    assert_eq!(y, vec![3, 3]);
    let seen = seen.borrow();
    let of = |k: Kernel| &seen.iter().find(|(n, _)| *n == k).unwrap().1;
    assert_eq!(of(Kernel::Conv)[0], vec![9; 8]);
    assert_eq!(of(Kernel::Conv)[1], vec![0; 16]);
    let delta = of(Kernel::DeltaRule);
    // One key head: the rows are its dimensions. Two value heads lie 4 5 and 6 7.
    assert_eq!(delta[0], vec![50, 51]);
    assert_eq!(delta[1], vec![52, 53]);
    assert_eq!(delta[2], vec![4, 6, 5, 7]);
    assert_eq!(delta[5], vec![0; 8]);
    // The output comes by dimension and goes on head by head.
    assert_eq!(of(Kernel::HeadNorm(Weight::SsmNorm))[0], vec![100, 102, 101, 103]);
    assert_eq!(state.conv_state.row(0), (8..16).collect::<Vec<u32>>());
    assert_eq!(state.conv_state.row(1), (16..24).collect::<Vec<u32>>());
    assert_eq!(state.recurrent_state.dims(), (2, 2, 2));
    assert_eq!(state.recurrent_state.flat(), (104..112).collect::<Vec<u32>>());
}

// ---- one layer and whole passes ------------------------------------------------------

#[test]
fn hybrid_layer_step_routes_to_deltanet_on_linear() {
    let dn_dims = tiny_dn_dims();
    let attn_dims = tiny_attn_dims();
    let mut cache = cache_for(&[true, false], &dn_dims, &attn_dims);
    let block = Block::Linear(linear_weights(&dn_dims, -1.0, 0.1));
    let x = vec![1.0_f32; dn_dims.hidden];
    let y = layer_step(&x, 0, &block, &dn_dims, &attn_dims, &mut cache);
    assert_eq!(y.len(), dn_dims.hidden);
    let state = cache.dn_state.layers[0].as_ref().unwrap();
    assert!(array2(&state.conv_state).iter().any(|&v| v.abs() > 0.0));
    let slabs = cache.kv_layers[1].as_ref().unwrap();
    assert_eq!(slabs.k.nrows(), 0);
}

#[test]
fn qwen35_forward_step_returns_vocab_shape() {
    let dn_dims = tiny_dn_dims();
    let attn_dims = tiny_attn_dims();
    let vocab = 5;
    let mut cache = cache_for(&[true, false], &dn_dims, &attn_dims);
    let weights = tiny_model(vec![
        Block::Linear(linear_weights(&dn_dims, -1.0, 0.1)),
        Block::Attention(attention_weights(&attn_dims)),
    ]);
    let logits = forward(2, &weights, &dn_dims, &attn_dims, &mut cache, 1e-6);
    assert_eq!(logits.len(), vocab);
    assert!(logits.iter().all(|v| v.is_finite()));
    assert_eq!(cache.next_position, 1);
}

#[test]
fn qwen35_forward_step_two_calls_advances_position_and_grows_cache() {
    let dn_dims = tiny_dn_dims();
    let attn_dims = tiny_attn_dims();
    let mut cache = cache_for(&[false], &dn_dims, &attn_dims);
    let weights = tiny_model(vec![Block::Attention(attention_weights(&attn_dims))]);
    let _ = forward(0, &weights, &dn_dims, &attn_dims, &mut cache, 1e-6);
    assert_eq!(cache.next_position, 1);
    assert_eq!(cache.kv_layers[0].as_ref().unwrap().k.nrows(), 1);
    let _ = forward(1, &weights, &dn_dims, &attn_dims, &mut cache, 1e-6);
    assert_eq!(cache.next_position, 2);
    assert_eq!(cache.kv_layers[0].as_ref().unwrap().k.nrows(), 2);
}

#[test]
fn qwen35_forward_step_dn_state_carries_across_calls() {
    let dn_dims = tiny_dn_dims();
    let attn_dims = tiny_attn_dims();
    let mut cache = cache_for(&[true], &dn_dims, &attn_dims);
    let weights = tiny_model(vec![Block::Linear(linear_weights(&dn_dims, -1.0, 0.1))]);
    let _ = forward(2, &weights, &dn_dims, &attn_dims, &mut cache, 1e-6);
    let mass_after_1 = mass(&cache.dn_state.layers[0].as_ref().unwrap().recurrent_state);
    assert!(
        mass_after_1 > 0.0,
        "recurrent_state should be non-zero after one forward step"
    );
    let _ = forward(2, &weights, &dn_dims, &attn_dims, &mut cache, 1e-6);
    let mass_after_2 = mass(&cache.dn_state.layers[0].as_ref().unwrap().recurrent_state);
    assert!(mass_after_2 >= 0.0, "recurrent_state still finite after two steps");
}

#[test]
fn a_block_appends_its_key_and_its_plain_value() {
    let d = tiny_attn_dims();
    let w = attention_weights(&d);
    let mut slabs = KvSlabs::empty(d.kv_dim());
    slabs.push(&[1, 2], &[3, 4]);
    let x = bits(&[1.0, -2.0, 0.5, 3.0]);
    let values = RefCell::new(Vec::new());
    let kernels = |_: usize, k: Kernel, args: Vec<Vec<u32>>| {
        let out = attention_kernel(k, &args, &w, &d);
        values.borrow_mut().push((k, out.clone()));
        out
    };
    let shapes = attention_shapes(4, &w);
    let y = qwen35_attention_block_step(&x, 0, &shapes, &d, &mut slabs, 5, &kernels);
    assert_eq!(y.len(), d.hidden);
    assert_eq!((slabs.k.nrows(), slabs.v.nrows()), (2, 2));
    assert_eq!((slabs.k.row(0), slabs.v.row(0)), (vec![1, 2], vec![3, 4]));
    let values = values.borrow();
    let key = Kernel::Rotate { heads: 1, width: 2, position: 5 };
    let rotated = &values.iter().find(|(k, _)| *k == key).unwrap().1;
    assert_eq!(&slabs.k.row(1), rotated);
    let plain = times(&w.attn_v, &rms_norm(&floats(&x), &w.attn_norm, 1e-6));
    assert_eq!(slabs.v.row(1), bits(&plain));
}

#[test]
fn the_first_token_needs_no_key() {
    let d = tiny_attn_dims();
    let first = |w: &Attention, position: usize| {
        let mut slabs = KvSlabs::empty(d.kv_dim());
        let x = bits(&[1.0, -2.0, 0.5, 3.0]);
        let kernels =
            |_: usize, k: Kernel, args: Vec<Vec<u32>>| attention_kernel(k, &args, w, &d);
        let shapes = attention_shapes(4, w);
        qwen35_attention_block_step(&x, 0, &shapes, &d, &mut slabs, position, &kernels)
    };
    let w = attention_weights(&d);
    let mut other = w.clone();
    other.attn_k = Array2::from_elem((d.kv_dim(), d.hidden), -3.0);
    let y = first(&w, 0);
    assert_eq!(first(&w, 7), y);
    assert_eq!(first(&other, 0), y);
}

#[test]
fn a_pass_keeps_old_rows_and_kinds() {
    let dn_dims = tiny_dn_dims();
    let attn_dims = tiny_attn_dims();
    let mut cache = cache_for(&[true, false], &dn_dims, &attn_dims);
    let weights = tiny_model(vec![
        Block::Linear(linear_weights(&dn_dims, -1.0, 0.1)),
        Block::Attention(attention_weights(&attn_dims)),
    ]);
    let _ = forward(2, &weights, &dn_dims, &attn_dims, &mut cache, 1e-6);
    let slabs = cache.kv_layers[1].as_ref().unwrap();
    let (k, v) = (slabs.k.row(0), slabs.v.row(0));
    let _ = forward(3, &weights, &dn_dims, &attn_dims, &mut cache, 1e-6);
    let slabs = cache.kv_layers[1].as_ref().unwrap();
    assert_eq!((slabs.k.nrows(), slabs.v.nrows()), (2, 2));
    assert_eq!((slabs.k.row(0), slabs.v.row(0)), (k, v));
    assert!(cache.kv_layers[0].is_none());
    assert_eq!(cache.layer_kinds, vec![true, false]);
    assert_eq!(cache.next_position, 2);
    cache.reset();
    assert_eq!(cache.next_position, 0);
    assert_eq!(cache.kv_layers[1].as_ref().unwrap().k.nrows(), 0);
}

// ---- from named tensors to a pass -------------------------------------------------------

const HIDDEN: usize = 8;
const FFN: usize = 16;
const VOCAB: usize = 32;

fn filled(rows: usize, cols: usize, fill: f32) -> Matrix {
    Matrix::from_flat(rows, cols, vec![fill.to_bits(); rows * cols]).unwrap()
}

fn keys(layer: usize) -> LayerKeys {
    let k = |s: &str| format!("layers.{layer}.{s}");
    LayerKeys {
        is_linear: (layer + 1) % 2 != 0,
        input_layernorm: k("input_layernorm.weight"),
        post_attention_layernorm: k("post_attention_layernorm.weight"),
        ffn_gate: k("mlp.gate_proj.weight"),
        ffn_up: k("mlp.up_proj.weight"),
        ffn_down: k("mlp.down_proj.weight"),
        attn_q: k("self_attn.q_proj.weight"),
        attn_k: k("self_attn.k_proj.weight"),
        attn_v: k("self_attn.v_proj.weight"),
        attn_o: k("self_attn.o_proj.weight"),
        attn_q_per_head_norm: Some(k("attn_q_norm.weight")),
        attn_k_per_head_norm: Some(k("attn_k_norm.weight")),
        attn_qkv: Some(k("attn_qkv.weight")),
        attn_gate: Some(k("attn_gate.weight")),
        ssm_conv1d: Some(k("ssm_conv1d.weight")),
        ssm_dt: Some(k("ssm_dt.bias")),
        ssm_a: Some(k("ssm_a")),
        ssm_beta: Some(k("ssm_beta.weight")),
        ssm_alpha: Some(k("ssm_alpha.weight")),
        ssm_norm: Some(k("ssm_norm.weight")),
        ssm_out: Some(k("ssm_out.weight")),
    }
}

fn arch() -> HybridArch {
    HybridArch {
        full_attention_interval: 2,
        ssm_state_size: 2,
        intermediate_size: FFN,
        layers: (0..4).map(keys).collect(),
        final_norm: String::from("norm.weight"),
    }
}

fn integration_dn_dims() -> DeltaNetDims {
    DeltaNetDims {
        hidden: HIDDEN,
        head_v_dim: 2,
        n_v_heads: 2,
        n_k_heads: 1,
        d_conv: 2,
        eps: 1e-6_f32.to_bits(),
    }
}

fn integration_attn_dims() -> Qwen35AttentionDims {
    Qwen35AttentionDims {
        hidden: HIDDEN,
        n_head: 2,
        n_head_kv: 1,
        head_dim: 4,
        rotary_dim: 4,
        rope_base: 10_000.0_f64.to_bits(),
        eps: 1e-6_f32.to_bits(),
    }
}

fn tables() -> WeightTables {
    let (dn, at) = (integration_dn_dims(), integration_attn_dims());
    let mut w = WeightTables::new(filled(VOCAB, HIDDEN, 0.5), filled(VOCAB, HIDDEN, 0.5));
    let (tensors, vectors) = (&mut w.tensors, &mut w.vectors);
    let mut mat = |key: String, r: usize, c: usize, fill: f32| {
        tensors.insert(key, filled(r, c, fill));
    };
    let mut put = |key: String, n: usize, fill: f32| {
        vectors.insert(key, vec![fill.to_bits(); n]);
    };
    put(String::from("norm.weight"), HIDDEN, 1.0);
    for layer in 0..4 {
        let p = format!("layers.{layer}.");
        put(format!("{p}input_layernorm.weight"), HIDDEN, 1.0);
        put(format!("{p}post_attention_layernorm.weight"), HIDDEN, 1.0);
        mat(format!("{p}mlp.gate_proj.weight"), FFN, HIDDEN, 0.1);
        mat(format!("{p}mlp.up_proj.weight"), FFN, HIDDEN, 0.1);
        mat(format!("{p}mlp.down_proj.weight"), HIDDEN, FFN, 0.1);
        if (layer + 1) % 2 != 0 {
            mat(format!("{p}attn_qkv.weight"), dn.conv_dim(), HIDDEN, 0.1);
            mat(format!("{p}attn_gate.weight"), dn.value_dim(), HIDDEN, 0.1);
            mat(format!("{p}ssm_conv1d.weight"), dn.conv_dim(), dn.d_conv, 0.5);
            put(format!("{p}ssm_dt.bias"), dn.n_v_heads, 0.0);
            put(format!("{p}ssm_a"), dn.n_v_heads, -1.0);
            mat(format!("{p}ssm_beta.weight"), dn.n_v_heads, HIDDEN, 0.1);
            mat(format!("{p}ssm_alpha.weight"), dn.n_v_heads, HIDDEN, 0.1);
            put(format!("{p}ssm_norm.weight"), dn.head_v_dim, 1.0);
            mat(format!("{p}ssm_out.weight"), HIDDEN, dn.value_dim(), 0.5);
        } else {
            mat(format!("{p}self_attn.q_proj.weight"), at.fused_q_dim(), HIDDEN, 0.1);
            mat(format!("{p}self_attn.k_proj.weight"), at.kv_dim(), HIDDEN, 0.1);
            mat(format!("{p}self_attn.v_proj.weight"), at.kv_dim(), HIDDEN, 0.1);
            mat(format!("{p}self_attn.o_proj.weight"), HIDDEN, at.q_dim(), 0.5);
            put(format!("{p}attn_q_norm.weight"), at.head_dim, 1.0);
            put(format!("{p}attn_k_norm.weight"), at.head_dim, 1.0);
        }
    }
    w
}

/// The loaded weights as values.
fn loaded() -> Model {
    let tables = tables();
    let w = load_qwen35_weights(&tables, &arch()).ok().expect("load");
    Model {
        embed: array2(w.embed),
        layers: w
            .layers
            .iter()
            .map(|l| Layer {
                block: match &l.block {
                    Qwen35LayerWeights::Linear(d) => Block::Linear(Linear {
                        attn_norm: floats(d.attn_norm),
                        attn_qkv: array2(d.attn_qkv),
                        attn_gate: array2(d.attn_gate),
                        ssm_conv1d: array2(&d.ssm_conv1d),
                        ssm_dt: floats(d.ssm_dt),
                        ssm_a: floats(d.ssm_a),
                        ssm_beta: array2(d.ssm_beta),
                        ssm_alpha: array2(d.ssm_alpha),
                        ssm_norm: floats(d.ssm_norm),
                        ssm_out: array2(d.ssm_out),
                    }),
                    Qwen35LayerWeights::Attention(a) => Block::Attention(Attention {
                        attn_norm: floats(a.attn_norm),
                        attn_q: array2(a.attn_q),
                        attn_k: array2(a.attn_k),
                        attn_v: array2(a.attn_v),
                        attn_q_norm: floats(a.attn_q_norm),
                        attn_k_norm: floats(a.attn_k_norm),
                        attn_output: array2(a.attn_output),
                    }),
                },
                post_norm: floats(l.attn_post_norm),
                gate: array2(l.ffn_gate),
                up: array2(l.ffn_up),
                down: array2(l.ffn_down),
            })
            .collect(),
        final_norm: floats(w.final_norm),
        lm_head: array2(w.lm_head),
    }
}

const KINDS: [bool; 4] = [true, false, true, false];

#[test]
fn integration_bridge_forward_one_token_returns_finite_vocab_logits() {
    let w = loaded();
    let (dn, at) = (integration_dn_dims(), integration_attn_dims());
    let mut cache = cache_for(&KINDS, &dn, &at);
    let logits = forward(3, &w, &dn, &at, &mut cache, 1e-6);
    assert_eq!(logits.len(), VOCAB);
    assert!(logits.iter().all(|v| v.is_finite()), "logits must all be finite");
    assert_eq!(cache.next_position, 1);
}

#[test]
fn integration_bridge_forward_grows_kv_and_advances_position_over_two_tokens() {
    let w = loaded();
    let (dn, at) = (integration_dn_dims(), integration_attn_dims());
    let mut cache = cache_for(&KINDS, &dn, &at);
    let _ = forward(1, &w, &dn, &at, &mut cache, 1e-6);
    let _ = forward(2, &w, &dn, &at, &mut cache, 1e-6);
    assert_eq!(cache.next_position, 2);
    for (layer_idx, kv) in cache.kv_layers.iter().enumerate() {
        let is_linear = (layer_idx + 1) % 2 != 0;
        match (kv, is_linear) {
            (None, true) => {}
            (Some(slabs), false) => {
                assert_eq!(slabs.k.nrows(), 2, "full-attn layer {layer_idx} K should have 2 rows");
                assert_eq!(slabs.v.nrows(), 2, "full-attn layer {layer_idx} V should have 2 rows");
            }
            _ => panic!("layer {layer_idx}: KV slot kind mismatch"),
        }
    }
}

#[test]
fn integration_bridge_forward_dn_state_carries_across_two_tokens() {
    let w = loaded();
    let (dn, at) = (integration_dn_dims(), integration_attn_dims());
    let mut cache = cache_for(&KINDS, &dn, &at);
    let _ = forward(5, &w, &dn, &at, &mut cache, 1e-6);
    let mass_layer0_after_1 =
        mass(&cache.dn_state.layers[0].as_ref().expect("linear layer 0 has dn_state").recurrent_state);
    assert!(
        mass_layer0_after_1 > 0.0,
        "layer 0 recurrent_state should be non-zero after one step"
    );
    assert!(cache.dn_state.layers[1].is_none());
    let _ = forward(7, &w, &dn, &at, &mut cache, 1e-6);
    let mass_layer0_after_2 = mass(&cache.dn_state.layers[0].as_ref().unwrap().recurrent_state);
    assert!(
        mass_layer0_after_2 > 0.0,
        "layer 0 recurrent_state still non-zero after second step"
    );
    assert!(mass_layer0_after_2.is_finite(), "recurrent_state must remain finite");
}

// ---- routed experts ------------------------------------------------------------------------

struct Packed {
    router: Array2<f32>,
    gate: Array2<f32>,
    up: Array2<f32>,
    down: Array2<f32>,
    shared: Option<(Array2<f32>, Array2<f32>, Array2<f32>)>,
}

/// The experts that the library picks, weighted by the softmax of their scores.
fn moe(x: &[f32], w: &Packed, num_experts: usize, top_k: usize) -> Vec<f32> {
    let has = w.shared.is_some();
    let slice = |m: &Array2<f32>, e: usize| -> Array2<f32> {
        let (from, to) = expert_rows(e, num_experts, m.nrows());
        Array2::from_shape_fn((to - from, m.ncols()), |(r, c)| m[[from + r, c]])
    };
    let kernels = |_: usize, kernel: Kernel, args: Vec<Vec<u32>>| {
        let a: Vec<Vec<f32>> = args.iter().map(|v| floats(v)).collect();
        bits(&match kernel {
            Kernel::Project(Weight::Router, _) => times(&w.router, &a[0]),
            Kernel::SharedExpert { .. } => {
                let (g, u, d) = w.shared.as_ref().unwrap();
                swiglu_ffn(&a[0], g, u, d)
            }
            Kernel::Add => plus(&a[0], &a[1]),
            other => panic!("{other:?} is no part of the experts"),
        })
    };
    let weigh = |picked: &Vec<u32>, scale: Option<u32>| {
        assert_eq!(scale, None);
        let scores = floats(picked);
        let max = scores.iter().copied().fold(f32::NEG_INFINITY, f32::max);
        let exps: Vec<f32> = scores.iter().map(|s| (s - max).exp()).collect();
        let sum: f32 = exps.iter().sum();
        bits(&exps.iter().map(|e| e / sum).collect::<Vec<f32>>())
    };
    let expert = |e: usize, x: &Vec<u32>| {
        let (g, u, d) = (slice(&w.gate, e), slice(&w.up, e), slice(&w.down, e));
        bits(&swiglu_ffn(&floats(x), &g, &u, &d))
    };
    let accumulate = |weight: u32, row: &Vec<u32>, acc: &Vec<u32>| {
        let weight = f32::from_bits(weight);
        let part: Vec<f32> = floats(row).iter().map(|v| weight * v).collect();
        bits(&plus(&floats(acc), &part))
    };
    floats(&swiglu_moe_lazy(
        &bits(x),
        0,
        num_experts,
        top_k,
        has,
        has,
        has,
        &kernels,
        &weigh,
        &expert,
        &accumulate,
    ))
}

fn rows(r: usize, c: usize, values: &[f32]) -> Array2<f32> {
    Array2::from_shape_vec((r, c), values.to_vec()).unwrap()
}

#[test]
fn swiglu_moe_lazy_matches_reference() {
    let hidden = 3usize;
    let ffn_dim = 4usize;
    let num_experts = 4usize;
    let top_k = 2usize;
    let mk = |n: usize, seed: f32| -> Vec<f32> {
        (0..n).map(|i| ((i as f32) * 0.07 + seed).sin() * 0.3).collect()
    };
    let router_v = mk(num_experts * hidden, 0.1);
    let gate_exps_v = mk(num_experts * ffn_dim * hidden, 0.2);
    let up_exps_v = mk(num_experts * ffn_dim * hidden, 0.3);
    let down_exps_v = mk(num_experts * hidden * ffn_dim, 0.4);
    let shexp_g_v = mk(ffn_dim * hidden, 0.5);
    let shexp_u_v = mk(ffn_dim * hidden, 0.6);
    let shexp_d_v = mk(hidden * ffn_dim, 0.7);
    let w = Packed {
        router: rows(num_experts, hidden, &router_v),
        gate: rows(num_experts * ffn_dim, hidden, &gate_exps_v),
        up: rows(num_experts * ffn_dim, hidden, &up_exps_v),
        down: rows(num_experts * hidden, ffn_dim, &down_exps_v),
        shared: Some((
            rows(ffn_dim, hidden, &shexp_g_v),
            rows(ffn_dim, hidden, &shexp_u_v),
            rows(hidden, ffn_dim, &shexp_d_v),
        )),
    };
    let x = vec![0.4_f32, -0.2, 0.15];

    let mut logits = vec![0.0_f32; num_experts];
    for e in 0..num_experts {
        for c in 0..hidden {
            logits[e] += router_v[e * hidden + c] * x[c];
        }
    }
    let mut idx: Vec<(usize, f32)> = logits.iter().enumerate().map(|(i, &v)| (i, v)).collect();
    idx.sort_by(|a, b| b.1.partial_cmp(&a.1).unwrap());
    let top: Vec<(usize, f32)> = idx.into_iter().take(top_k).collect();
    let max_l = top.iter().map(|&(_, l)| l).fold(f32::NEG_INFINITY, f32::max);
    let exps: Vec<f32> = top.iter().map(|&(_, l)| (l - max_l).exp()).collect();
    let sum_exp: f32 = exps.iter().sum();
    let ref_swiglu = |gate: &[f32], up: &[f32], down: &[f32]| -> Vec<f32> {
        let mut inter = vec![0.0_f32; ffn_dim];
        for r in 0..ffn_dim {
            let (mut g, mut u) = (0.0_f32, 0.0_f32);
            for c in 0..hidden {
                g += gate[r * hidden + c] * x[c];
                u += up[r * hidden + c] * x[c];
            }
            inter[r] = (g * sigmoid(g)) * u;
        }
        (0..hidden)
            .map(|r| (0..ffn_dim).map(|c| down[r * ffn_dim + c] * inter[c]).sum())
            .collect()
    };
    let mut expected = vec![0.0_f32; hidden];
    let per = ffn_dim * hidden;
    for (i, &(e, _)) in top.iter().enumerate() {
        let y_i = ref_swiglu(
            &gate_exps_v[e * per..(e + 1) * per],
            &up_exps_v[e * per..(e + 1) * per],
            &down_exps_v[e * per..(e + 1) * per],
        );
        for h in 0..hidden {
            expected[h] += exps[i] / sum_exp * y_i[h];
        }
    }
    let y_sh = ref_swiglu(&shexp_g_v, &shexp_u_v, &shexp_d_v);
    for h in 0..hidden {
        expected[h] += y_sh[h];
    }

    let got = moe(&x, &w, num_experts, top_k);
    assert_eq!(got.len(), hidden);
    for h in 0..hidden {
        assert!(
            (got[h] - expected[h]).abs() < 1e-5,
            "moe[{h}] got={} expected={}",
            got[h],
            expected[h],
        );
    }
}

#[test]
fn swiglu_moe_lazy_without_shared_expert() {
    let hidden = 2usize;
    let ffn_dim = 2usize;
    let num_experts = 2usize;
    let top_k = 1usize;
    let exps = vec![1.0_f32, 0.0, 0.0, 1.0, 5.0, 5.0, 5.0, 5.0];
    let w = Packed {
        router: rows(num_experts, hidden, &[1.0, 0.0, -1.0, 0.0]),
        gate: rows(num_experts * ffn_dim, hidden, &exps),
        up: rows(num_experts * ffn_dim, hidden, &exps),
        down: rows(num_experts * hidden, ffn_dim, &exps),
        shared: None,
    };
    let got = moe(&[1.0, 0.0], &w, num_experts, top_k);
    let expected_y0 = sigmoid(1.0);
    assert!((got[0] - expected_y0).abs() < 1e-5, "got={} exp={}", got[0], expected_y0);
    assert!(got[1].abs() < 1e-5, "got[1]={}", got[1]);
}

#[test]
fn swiglu_ffn_zero_input_zero_output() {
    let hidden = 4;
    let ffn_dim = 8;
    let gate = Array2::from_elem((ffn_dim, hidden), 1.0_f32);
    let up = Array2::from_elem((ffn_dim, hidden), 1.0_f32);
    let down = Array2::from_elem((hidden, ffn_dim), 1.0_f32);
    let y = swiglu_ffn(&vec![0.0; hidden], &gate, &up, &down);
    assert_eq!(y.len(), hidden);
    for &v in y.iter() {
        assert!(v.abs() < 1e-6);
    }
}

#[test]
fn swiglu_ffn_matches_definition_unit_vectors() {
    let identity = rows(2, 2, &[1.0, 0.0, 0.0, 1.0]);
    let y = swiglu_ffn(&[1.0, 0.0], &identity, &identity, &identity);
    let expected = 1.0 * sigmoid(1.0);
    assert!((y[0] - expected).abs() < 1e-5);
    assert!(y[1].abs() < 1e-5);
}
