//! Whole tokens through a latent-attention model, and the pieces of its pass.

use std::cell::RefCell;

use larql::attention::block_program::{Kernel, Weight};
use larql::attention::dsv4_forward::{
    concat_heads, dsv4_forward_step, fused_expert_step, head_query, latent_parts, latent_step, mla_attention_code,
    mla_attention_step, moe_ffn_code, moe_ffn_step, rotates, split_gate_up, Dsv4Dims, Dsv4KvCache,
};
use larql::attention::layer_program::{FfnRoute, Op, Source};
use ndarray::{Array1, Array2};

fn bits(values: &[f32]) -> Vec<u32> {
    values.iter().map(|v| v.to_bits()).collect()
}

fn floats(words: &[u32]) -> Vec<f32> {
    words.iter().map(|&w| f32::from_bits(w)).collect()
}

fn times(w: &Array2<f32>, x: &[f32]) -> Vec<f32> {
    w.dot(&Array1::from(x.to_vec())).to_vec()
}

fn rms_norm(x: &[f32], w: &[f32], eps: f32) -> Vec<f32> {
    let mean = x.iter().map(|v| v * v).sum::<f32>() / x.len() as f32;
    let inv = 1.0 / (mean + eps).sqrt();
    x.iter().zip(w).map(|(v, g)| v * inv * g).collect()
}

fn plus(a: &[f32], b: &[f32]) -> Vec<f32> {
    a.iter().zip(b).map(|(x, y)| x + y).collect()
}

fn softmax(scores: &[f32]) -> Vec<f32> {
    let max = scores.iter().copied().fold(f32::NEG_INFINITY, f32::max);
    let exps: Vec<f32> = scores.iter().map(|s| (s - max).exp()).collect();
    let sum: f32 = exps.iter().sum();
    exps.iter().map(|e| e / sum.max(1e-9)).collect()
}

fn swiglu(gate: &[f32], up: &[f32]) -> Vec<f32> {
    gate.iter().zip(up).map(|(&g, u)| g / (1.0 + (-g).exp()) * u).collect()
}

fn tiny_dims() -> Dsv4Dims {
    Dsv4Dims {
        hidden: 4,
        q_lora_rank: 4,
        kv_lora_rank: 4,
        n_heads: 1,
        head_dim: 4,
        output_intermediate: 4,
        ffn_dim: 4,
        num_experts: 2,
        experts_per_token: 1,
        num_shared_experts: 1,
        vocab: 5,
        norm_eps: 1e-6_f32.to_bits(),
        expert_weights_scale: 1.0_f32.to_bits(),
        rope_dim: 0,
        rope_base: 10000.0_f64.to_bits(),
    }
}

struct Weights {
    embed: Array2<f32>,
    matrix: Array2<f32>,
    gate_up: Array2<f32>,
    router: Array2<f32>,
    norm: Vec<f32>,
    lm_head: Array2<f32>,
    n_layers: usize,
}

fn tiny_weights() -> Weights {
    let d = tiny_dims();
    let mut embed = Array2::<f32>::zeros((d.vocab, d.hidden));
    for i in 0..d.vocab {
        embed[[i, i % d.hidden]] = 1.0;
    }
    Weights {
        embed,
        matrix: Array2::from_elem((4, 4), 0.01),
        gate_up: Array2::from_elem((2 * d.ffn_dim, d.hidden), 0.01),
        router: Array2::from_elem((d.num_experts, d.hidden), 0.01),
        norm: vec![1.0; d.hidden],
        lm_head: Array2::from_elem((d.vocab, d.hidden), 0.01),
        n_layers: 2,
    }
}

/// The kernels of every layer's attention block.
fn kernel(kernel: Kernel, args: &[Vec<u32>], w: &Weights, d: &Dsv4Dims) -> Vec<u32> {
    let eps = f32::from_bits(d.norm_eps);
    let x = floats(&args[0]);
    match kernel {
        Kernel::Norm(_) => bits(&rms_norm(&x, &w.norm, eps)),
        Kernel::Project(_, source) => {
            assert_eq!(source, Source::Quant);
            bits(&times(&w.matrix, &x))
        }
        Kernel::AttendLatent => {
            let seq_len = args[1].len() / d.kv_lora_rank;
            let scale = 1.0 / (d.head_dim as f32).sqrt();
            (0..d.n_heads)
                .flat_map(|h| {
                    let (qr, qn) = head_query(&args[0], h, d.head_dim, d.rope_dim);
                    let q: Vec<f32> = floats(&[qr, qn].concat());
                    let rows: Vec<Vec<f32>> = (0..seq_len)
                        .map(|t| {
                            let (r, n) = latent_parts(&args[1], t, d.kv_lora_rank, d.rope_dim);
                            floats(&[r, n].concat())
                        })
                        .collect();
                    let scores: Vec<f32> = rows
                        .iter()
                        .map(|r| r.iter().zip(&q).map(|(k, v)| k * v).sum::<f32>() * scale)
                        .collect();
                    let weights = softmax(&scores);
                    let out: Vec<f32> = (0..d.kv_lora_rank - d.rope_dim)
                        .map(|c| {
                            rows.iter().zip(&weights).map(|(r, w)| w * r[d.rope_dim + c]).sum()
                        })
                        .collect();
                    bits(&out)
                })
                .collect()
        }
        other => panic!("{other:?} is no part of this block"),
    }
}

fn experts(x: &[f32], w: &Weights, d: &Dsv4Dims, layer: usize) -> Vec<f32> {
    let kernels = |at: usize, kernel: Kernel, args: Vec<Vec<u32>>| {
        assert_eq!(at, layer);
        let a: Vec<Vec<f32>> = args.iter().map(|v| floats(v)).collect();
        bits(&match kernel {
            Kernel::Project(Weight::Router, _) => times(&w.router, &a[0]),
            Kernel::Project(_, _) | Kernel::ExpertDown { .. } => times(&w.matrix, &a[0]),
            Kernel::ExpertGateUp { .. } => times(&w.gate_up, &a[0]),
            Kernel::SwiGlu => swiglu(&a[0], &a[1]),
            Kernel::Add => plus(&a[0], &a[1]),
            other => panic!("{other:?} is no part of the experts"),
        })
    };
    let weigh = |picked: &Vec<u32>, scale: Option<u32>| {
        let scale = f32::from_bits(scale.unwrap());
        bits(&softmax(&floats(picked)).iter().map(|w| w * scale).collect::<Vec<f32>>())
    };
    let expert = |e: usize, x: &Vec<u32>| fused_expert_step(x, layer, e, &kernels);
    let accumulate = |weight: u32, row: &Vec<u32>, acc: &Vec<u32>| {
        let weight = f32::from_bits(weight);
        bits(&plus(&floats(acc), &floats(row).iter().map(|v| weight * v).collect::<Vec<f32>>()))
    };
    floats(&moe_ffn_step(&bits(x), layer, false, d, &kernels, &weigh, &expert, &accumulate))
}

fn forward(token: u32, w: &Weights, d: &Dsv4Dims, cache: &mut Dsv4KvCache) -> Vec<f32> {
    let eps = f32::from_bits(d.norm_eps);
    let ops = |op: Op, args: Vec<Vec<u32>>| {
        let a: Vec<Vec<f32>> = args.iter().map(|v| floats(v)).collect();
        bits(&match op {
            Op::Embed(token, _) => w.embed.row(token as usize).to_vec(),
            Op::AddBlock | Op::AddFfn => plus(&a[0], &a[1]),
            Op::PostNorm { .. } | Op::FinalNorm => rms_norm(&a[0], &w.norm, eps),
            Op::Ffn { layer, .. } => experts(&a[0], w, d, layer),
            Op::LmHead(_) => times(&w.lm_head, &a[0]),
        })
    };
    floats(&dsv4_forward_step(token, d, cache, &|_, k, args| kernel(k, &args, w, d), &ops))
}

#[test]
fn dsv4_forward_step_runs_without_panic() {
    let dims = tiny_dims();
    let weights = tiny_weights();
    let mut cache = Dsv4KvCache::new(weights.n_layers, dims.kv_lora_rank);
    let logits = forward(2, &weights, &dims, &mut cache);
    assert_eq!(logits.len(), dims.vocab);
    assert_eq!(cache.next_position, 1);
    assert!(logits.iter().all(|v| v.is_finite()));
}

#[test]
fn cache_appends_per_token() {
    let dims = tiny_dims();
    let weights = tiny_weights();
    let mut cache = Dsv4KvCache::new(weights.n_layers, dims.kv_lora_rank);
    let _ = forward(1, &weights, &dims, &mut cache);
    let _ = forward(2, &weights, &dims, &mut cache);
    let _ = forward(3, &weights, &dims, &mut cache);
    assert_eq!(cache.next_position, 3);
    assert_eq!(cache.layers[0].len(), 3 * dims.kv_lora_rank);
}

#[test]
fn a_pass_runs_every_layer_at_the_next_position() {
    let mut d = tiny_dims();
    d.rope_dim = 2;
    let w = tiny_weights();
    let mut cache = Dsv4KvCache::new(2, 4);
    for l in 0..2 {
        assert_eq!(latent_step(&mut cache, l, &[1, 2, 3, 4]), 1);
    }
    cache.advance();
    let seen = RefCell::new(Vec::new());
    let called = RefCell::new(Vec::new());
    let kernels = |layer: usize, k: Kernel, args: Vec<Vec<u32>>| {
        if let Kernel::Rotate { position, .. } = k {
            seen.borrow_mut().push((layer, position));
            return args[0].clone();
        }
        kernel(k, &args, &w, &d)
    };
    let ops = |op: Op, args: Vec<Vec<u32>>| {
        called.borrow_mut().push(op);
        match op {
            Op::Embed(..) => bits(&[1.0; 4]),
            Op::LmHead(_) => vec![7; 5],
            _ => args[0].clone(),
        }
    };
    let logits = dsv4_forward_step(4, &d, &mut cache, &kernels, &ops);
    assert_eq!(logits, vec![7; 5]);
    assert_eq!(*seen.borrow(), vec![(0, 1), (0, 1), (1, 1), (1, 1)]);
    let called = called.borrow();
    assert_eq!(called.len(), 1 + 2 * 4 + 2);
    assert_eq!(called[0], Op::Embed(4, Source::Dense));
    assert_eq!(called[3], Op::Ffn { layer: 0, route: FfnRoute::Moe });
    assert_eq!(called[6], Op::PostNorm { layer: 1 });
    assert_eq!(called[10], Op::LmHead(Source::Quant));
    assert_eq!(cache.next_position, 2);
    for rows in &cache.layers {
        assert_eq!(rows.len(), 8);
        assert_eq!(rows[..4], [1, 2, 3, 4]);
    }
}

#[test]
fn a_step_appends_its_latent_row_to_its_layer_alone() {
    let d = tiny_dims();
    let w = tiny_weights();
    let mut cache = Dsv4KvCache::new(3, 4);
    let x = bits(&[1.0, 2.0, 3.0, 4.0]);
    let kernels = |_: usize, k: Kernel, args: Vec<Vec<u32>>| match k {
        Kernel::Project(Weight::KvDown, _) => vec![1, 2, 3, 4],
        Kernel::Norm(Weight::KvDownNorm) => args[0].iter().map(|v| v + 10).collect(),
        _ => kernel(k, &args, &w, &d),
    };
    let y = mla_attention_step(&x, 1, &d, &mut cache, &kernels);
    assert_eq!(y.len(), d.hidden);
    assert_eq!(cache.layers[1], vec![11, 12, 13, 14]);
    assert!(cache.layers[0].is_empty() && cache.layers[2].is_empty());
    assert_eq!(cache.next_position, 0);
    // A layer takes rows in any order.
    assert_eq!(latent_step(&mut cache, 1, &[5, 6, 7, 8]), 2);
    assert_eq!(cache.layers[1], vec![11, 12, 13, 14, 5, 6, 7, 8]);
}

#[test]
fn the_rotation_is_left_out_where_there_is_nothing_to_rotate() {
    assert!(!rotates(0, 8));
    assert!(!rotates(9, 8));
    assert!(rotates(8, 8));
    let mut d = tiny_dims();
    assert_eq!(mla_attention_code(&d, 3)[4].kernel, Kernel::Keep);
    d.rope_dim = 2;
    let code = mla_attention_code(&d, 3);
    assert_eq!(code[4].kernel, Kernel::Rotate { heads: 1, width: 4, position: 3 });
    assert_eq!(code[7].kernel, Kernel::Rotate { heads: 1, width: 4, position: 3 });
    assert_eq!(code[11].kernel, Kernel::Project(Weight::OutputB, Source::Quant));
}

#[test]
fn the_heads_of_a_step_are_joined_by_their_shares() {
    let mut d = tiny_dims();
    d.n_heads = 2;
    d.kv_lora_rank = 3;
    d.rope_dim = 1;
    d.output_intermediate = 5;
    let joined = RefCell::new(Vec::new());
    let rotated = RefCell::new(0);
    let kernels = |_: usize, k: Kernel, args: Vec<Vec<u32>>| match k {
        Kernel::Project(Weight::KvDown, _) => vec![7, 8, 9],
        Kernel::AttendLatent => {
            assert_eq!(args[1], vec![7, 8, 9]);
            vec![1, 2, 3, 4]
        }
        Kernel::Project(Weight::OutputB, _) => {
            *joined.borrow_mut() = args[0].clone();
            vec![0; d.hidden]
        }
        Kernel::Rotate { .. } => {
            *rotated.borrow_mut() += 1;
            args[0].clone()
        }
        Kernel::Keep | Kernel::JoinHeads => panic!("{k:?} needs no kernel"),
        _ => args[0].clone(),
    };
    let mut cache = Dsv4KvCache::new(1, 3);
    mla_attention_step(&vec![1; 4], 0, &d, &mut cache, &kernels);
    assert_eq!(*joined.borrow(), vec![1, 2, 3, 4, 0]);
    assert_eq!(*rotated.borrow(), 2);
}

#[test]
fn the_best_experts_are_weighted_and_added_up() {
    let mut d = tiny_dims();
    d.num_experts = 4;
    d.experts_per_token = 2;
    d.hidden = 1;
    let kernels = |_: usize, kernel: Kernel, a: Vec<Vec<u32>>| match kernel {
        Kernel::Project(Weight::Router, _) => bits(&[0.5, 2.0, -1.0, 3.0]),
        Kernel::AddWeight(Weight::RouterBias) => bits(&[0.5, 2.0, 9.0, 3.0]),
        Kernel::Project(Weight::SharedDown, _) => vec![7],
        Kernel::Add => vec![a[0][0] + a[1][0]],
        _ => a[0].clone(),
    };
    let seen = RefCell::new(Vec::new());
    let weigh = |picked: &Vec<u32>, scale: Option<u32>| {
        assert_eq!(scale, Some(1.0_f32.to_bits()));
        seen.borrow_mut().push(floats(picked));
        vec![3, 5]
    };
    let expert = |e: usize, x: &Vec<u32>| vec![100 * e as u32 + x[0]];
    let accumulate = |w: u32, r: &Vec<u32>, a: &Vec<u32>| vec![a[0] + w * r[0]];
    let y = moe_ffn_step(&vec![1], 0, false, &d, &kernels, &weigh, &expert, &accumulate);
    assert_eq!(y, vec![3 * 301 + 5 * 101 + 7]);
    let y = moe_ffn_step(&vec![1], 0, true, &d, &kernels, &weigh, &expert, &accumulate);
    assert_eq!(y, vec![3 * 201 + 5 * 301 + 7]);
    assert_eq!(*seen.borrow(), vec![vec![3.0, 2.0], vec![9.0, 3.0]]);
}

#[test]
fn a_fused_expert_is_split_in_the_middle() {
    let kernels = |layer: usize, kernel: Kernel, a: Vec<Vec<u32>>| match kernel {
        Kernel::ExpertGateUp { expert } => vec![layer as u32, expert as u32, a[0][0], 4],
        Kernel::SwiGlu => [a[0].clone(), vec![50], a[1].clone()].concat(),
        Kernel::ExpertDown { expert } => [a[0].clone(), vec![60 + expert as u32]].concat(),
        other => panic!("{other:?} is no part of an expert"),
    };
    assert_eq!(fused_expert_step(&vec![3], 1, 2, &kernels), vec![1, 2, 50, 3, 4, 62]);
}

#[test]
fn a_bias_is_added_only_where_there_is_one() {
    let d = tiny_dims();
    assert_eq!(moe_ffn_code(false, &d)[1].kernel, Kernel::Keep);
    assert_eq!(moe_ffn_code(true, &d)[1].kernel, Kernel::AddWeight(Weight::RouterBias));
    let scale = Some(1.0_f32.to_bits());
    assert_eq!(moe_ffn_code(true, &d)[2].kernel, Kernel::RouteExperts { k: 1, scale });
}

#[test]
fn queries_and_latents_split_at_the_rotated_part() {
    let q: Vec<u32> = (0..8).collect();
    assert_eq!(head_query(&q, 1, 4, 1), (vec![4], vec![5, 6, 7]));
    assert_eq!(latent_parts(&[10, 11, 12, 20, 21, 22], 1, 3, 2), (vec![20, 21], vec![22]));
}

#[test]
fn heads_are_cut_to_their_share() {
    let mut d = tiny_dims();
    d.n_heads = 2;
    d.output_intermediate = 6;
    d.kv_lora_rank = 5;
    d.rope_dim = 1;
    let joined = concat_heads(&vec![vec![1, 2, 3, 4], vec![5, 6, 7, 8]], &d);
    assert_eq!(joined, vec![1, 2, 3, 5, 6, 7]);
    // A share wider than a head is filled up with zeros.
    d.output_intermediate = 11;
    let padded = concat_heads(&vec![vec![1, 2, 3, 4], vec![5, 6, 7, 8]], &d);
    assert_eq!(padded, vec![1, 2, 3, 4, 0, 5, 6, 7, 8, 0, 0]);
}

#[test]
fn fused_gate_and_up_split_in_the_middle() {
    assert_eq!(split_gate_up(&[1, 2, 3, 4]), (vec![1, 2], vec![3, 4]));
    assert_eq!(split_gate_up(&[1, 2, 3]), (vec![1], vec![2, 3]));
}
