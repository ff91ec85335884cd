//! The hybrid model: sizes, caches, bridges and routes.
use std::cell::RefCell;

use larql::attention::deltanet_block::{
    check_shapes, deltanet_block_code, dims_to_head_major, head_major_to_dims, split_qkv,
    DeltaNetDims, DeltaNetShapes,
};
use larql::attention::block_program::{Args, Kernel, Weight};
use larql::attention::deltanet_state::DeltaNetLayerState;
use larql::attention::layer_program::{BlockKind, FfnRoute, LayerFlags, Op, Source};
use larql::attention::quant_dispatch::{
    ggml_type_to_quant_format, matvec_route, MatvecRoute, QuantFormat,
};
use larql::attention::qwen35_block::{
    append_row, check_attention_shapes, gqa_columns, gqa_decode_step, kv_head,
    qwen35_attention_code, AttentionShapes, BlockShapes, DeltaNetHybridCache, Qwen35AttentionDims,
};
use larql::attention::qwen35_forward::{
    expert_rows, ffn_first_step, ffn_next_step, ffn_part, qwen35_forward_step, swiglu_ffn_code,
    swiglu_ffn_lazy, swiglu_moe_code, FfnStep, FfnTypes,
};
use larql::attention::qwen35_load::{
    load_qwen35_weights, HybridArch, LayerKeys, Qwen35LayerWeights, Qwen35LoadError,
    WeightTables,
};
use larql::attention::qwen35_load_vindex::{check_hybrid_family, VindexLoadError};
use larql::attention::dsv4_vindex_model::{ModelConfig, VindexConfig};
use larql::attention::top_k::top_k_experts;
use larql::keyed::Table;
use larql::tensor::Matrix;

fn tiny_attn_dims() -> Qwen35AttentionDims {
    Qwen35AttentionDims {
        hidden: 4,
        n_head: 2,
        n_head_kv: 1,
        head_dim: 2,
        rotary_dim: 2,
        rope_base: 10_000.0f64.to_bits(),
        eps: 1e-6f32.to_bits(),
    }
}

fn rope_fraction(d: &Qwen35AttentionDims) -> f64 {
    let (rotated, all) = d.rope_fraction();
    rotated as f64 / all as f64
}

fn words(values: &[f32]) -> Vec<u32> {
    values.iter().map(|v| v.to_bits()).collect()
}

#[test]
fn deltanet_block_dims_helpers() {
    let dims = DeltaNetDims {
        hidden: 5120,
        head_v_dim: 128,
        n_v_heads: 48,
        n_k_heads: 16,
        d_conv: 4,
        eps: 1e-6f32.to_bits(),
    };
    assert_eq!(dims.key_dim(), 128 * 16);
    assert_eq!(dims.value_dim(), 128 * 48);
    assert_eq!(dims.conv_dim(), 2 * 2048 + 6144);
}

#[test]
fn attention_dims_helpers() {
    let d = tiny_attn_dims();
    assert_eq!(d.q_dim(), 4);
    assert_eq!(d.kv_dim(), 2);
    assert_eq!(d.fused_q_dim(), 8);
    assert_eq!(d.gqa_reps(), 2);
    assert!((rope_fraction(&d) - 1.0).abs() < 1e-9);
}

#[test]
fn attention_dims_qwen35_27b_values() {
    let d = Qwen35AttentionDims {
        hidden: 5120,
        n_head: 24,
        n_head_kv: 4,
        head_dim: 256,
        rotary_dim: 64,
        rope_base: 10_000_000.0f64.to_bits(),
        eps: 1e-6f32.to_bits(),
    };
    assert_eq!(d.q_dim(), 24 * 256);
    assert_eq!(d.kv_dim(), 4 * 256);
    assert_eq!(d.fused_q_dim(), 2 * 6144);
    assert_eq!(d.gqa_reps(), 6);
    assert!((rope_fraction(&d) - 0.25).abs() < 1e-9);
}

#[test]
fn append_row_grows_slab() {
    let mut slab = Matrix::zeros(2, 3);
    slab.put(0, 0, 1.0f32.to_bits());
    slab.put(1, 1, 2.0f32.to_bits());
    append_row(&mut slab, &words(&[10.0, 20.0, 30.0]));
    assert_eq!((slab.nrows(), slab.ncols()), (3, 3));
    assert_eq!(slab.at(0, 0), 1.0f32.to_bits());
    assert_eq!(slab.at(1, 1), 2.0f32.to_bits());
    assert_eq!(slab.row(2), words(&[10.0, 20.0, 30.0]));
}

#[test]
fn append_row_from_empty_slab() {
    let mut slab = Matrix::zeros(0, 3);
    append_row(&mut slab, &words(&[1.0, 2.0, 3.0]));
    assert_eq!((slab.nrows(), slab.ncols()), (1, 3));
    assert_eq!(slab.row(0), words(&[1.0, 2.0, 3.0]));
}

#[test]
fn hybrid_cache_allocates_correct_per_layer_kind() {
    let mask = vec![true, true, true, false];
    let cache = DeltaNetHybridCache::allocate(&mask, 4, 2, 4, 2, 1);
    assert_eq!(cache.num_layers(), 4);
    for &i in &[0, 1, 2] {
        assert!(cache.kv_layers[i].is_none());
        assert!(cache.dn_state.layers[i].is_some());
    }
    assert!(cache.kv_layers[3].is_some());
    let slabs = cache.kv_layers[3].as_ref().unwrap();
    assert_eq!((slabs.k.nrows(), slabs.k.ncols()), (0, 4));
    assert_eq!((slabs.v.nrows(), slabs.v.ncols()), (0, 4));
    assert!(cache.dn_state.layers[3].is_none());
    assert_eq!(cache.next_position, 0);
}

#[test]
fn hybrid_cache_reset_clears_state_and_position() {
    let mask = vec![true, false];
    let mut cache = DeltaNetHybridCache::allocate(&mask, 4, 2, 4, 2, 1);
    if let Some(state) = cache.dn_state.layers[0].as_mut() {
        for r in 0..state.conv_state.nrows() {
            for c in 0..state.conv_state.ncols() {
                state.conv_state.put(r, c, 7.0f32.to_bits());
            }
        }
        let (p, r, c) = state.recurrent_state.dims();
        for i in 0..p {
            for j in 0..r {
                for k in 0..c {
                    state.recurrent_state.put(i, j, k, 11.0f32.to_bits());
                }
            }
        }
    }
    if let Some(slabs) = cache.kv_layers[1].as_mut() {
        let row = words(&[1.0, 2.0, 3.0, 4.0]);
        append_row(&mut slabs.k, &row);
        append_row(&mut slabs.v, &row);
    }
    cache.next_position = 5;
    cache.reset();
    let state = cache.dn_state.layers[0].as_ref().unwrap();
    for r in 0..state.conv_state.nrows() {
        for c in 0..state.conv_state.ncols() {
            assert_eq!(state.conv_state.at(r, c), 0);
        }
    }
    let slabs = cache.kv_layers[1].as_ref().unwrap();
    assert_eq!((slabs.k.nrows(), slabs.k.ncols()), (0, 4));
    assert_eq!((slabs.v.nrows(), slabs.v.ncols()), (0, 4));
    assert_eq!(cache.next_position, 0);
}

#[test]
fn silu_helper_is_reachable() {
    let s = DeltaNetLayerState::allocate(2, 4, 2, 1);
    assert_eq!((s.conv_state.nrows(), s.conv_state.ncols()), (1, 4));
    assert_eq!(s.recurrent_state.dims(), (1, 2, 2));
}

#[test]
fn query_heads_share_key_heads_in_groups() {
    let heads: Vec<usize> = (0..6).map(|h| kv_head(h, 6, 2)).collect();
    assert_eq!(heads, vec![0, 0, 0, 1, 1, 1]);
    assert_eq!(gqa_columns(4, 6, 2, 8), (32, 8));
    assert_eq!(
        gqa_decode_step(8, (3, 4), (3, 4), 4, 2, 2),
        vec![(0, 0), (2, 0), (4, 2), (6, 2)]
    );
}

#[test]
fn head_layout_goes_over_and_back() {
    let flat: Vec<u32> = (0..6).collect();
    let m = head_major_to_dims(flat.clone(), 2, 3);
    assert_eq!((m.nrows(), m.ncols()), (3, 2));
    assert_eq!(m.row(0), vec![0, 3]);
    assert_eq!(m.row(2), vec![2, 5]);
    assert_eq!(dims_to_head_major(&m), flat);
}

#[test]
fn fused_projection_splits_by_head() {
    let dims = DeltaNetDims {
        hidden: 4,
        head_v_dim: 2,
        n_v_heads: 2,
        n_k_heads: 1,
        d_conv: 2,
        eps: 0,
    };
    let fused: Vec<u32> = (10..18).collect();
    let parts = split_qkv(&fused, &dims);
    assert_eq!(parts.q.row(0), vec![10]);
    assert_eq!(parts.q.row(1), vec![11]);
    assert_eq!(parts.k.row(0), vec![12]);
    assert_eq!(parts.v.row(0), vec![14, 16]);
    assert_eq!(parts.v.row(1), vec![15, 17]);
}

fn dn_shapes(d: &DeltaNetDims) -> DeltaNetShapes {
    DeltaNetShapes {
        x: d.hidden,
        attn_norm: d.hidden,
        attn_qkv: (d.conv_dim(), d.hidden),
        attn_gate: (d.value_dim(), d.hidden),
        ssm_conv1d: (d.d_conv, d.conv_dim()),
        ssm_dt: d.n_v_heads,
        ssm_a: d.n_v_heads,
        ssm_beta: (d.n_v_heads, d.hidden),
        ssm_alpha: (d.n_v_heads, d.hidden),
        ssm_norm: d.head_v_dim,
        ssm_out: (d.hidden, d.value_dim()),
    }
}

#[test]
fn linear_block_runs_its_kernels_in_order() {
    let dims = DeltaNetDims {
        hidden: 4,
        head_v_dim: 2,
        n_v_heads: 1,
        n_k_heads: 1,
        d_conv: 2,
        eps: 0,
    };
    let shapes = dn_shapes(&dims);
    assert!(check_shapes(&shapes, &dims));
    let code = deltanet_block_code(&shapes, &dims);
    assert_eq!(code.len(), 19);
    assert_eq!(code[0].kernel, Kernel::Norm(Weight::AttnNorm));
    assert_eq!(code[7].kernel, Kernel::Conv);
    assert_eq!(code[14].args, Args::Five(13, 14, 12, 7, 6));
    assert_eq!(code[18].kernel, Kernel::Project(Weight::SsmOut, Source::Dense));
    let mut wrong = shapes;
    wrong.ssm_out = (dims.value_dim(), dims.hidden + 1);
    assert!(!check_shapes(&wrong, &dims));
}

#[test]
fn attention_block_runs_its_kernels_in_order() {
    let d = tiny_attn_dims();
    let shapes = AttentionShapes {
        x: 4,
        attn_norm: 4,
        attn_q: Some((8, 4)),
        attn_k: Some((2, 4)),
        attn_v: None,
        attn_q_norm: 2,
        attn_k_norm: 2,
        attn_output: Some((4, 4)),
    };
    assert!(check_attention_shapes(&shapes, &d));
    let code = qwen35_attention_code(&shapes, &d, 7);
    assert_eq!(code.len(), 14);
    assert_eq!(code[1].kernel, Kernel::Project(Weight::AttnQ, Source::Dense));
    assert_eq!(code[3].kernel, Kernel::Project(Weight::AttnV, Source::Quant));
    assert_eq!(code[8].kernel, Kernel::Rotate { heads: 2, width: 2, position: 7 });
    assert_eq!(code[9].kernel, Kernel::Rotate { heads: 1, width: 2, position: 7 });
    assert_eq!(code[10].args, Args::Two(10, 4));
    let mut wrong = shapes;
    wrong.attn_k = Some((3, 4));
    assert!(!check_attention_shapes(&wrong, &d));
}

// ---- the bridge from named tensors ------------------------------------------

const HIDDEN: usize = 8;
const FFN: usize = 16;
const VOCAB: usize = 32;

fn filled(rows: usize, cols: usize, fill: f32) -> Matrix {
    Matrix::from_flat(rows, cols, vec![fill.to_bits(); rows * cols]).unwrap()
}

fn keys(layer: usize, is_linear: bool) -> LayerKeys {
    let k = |s: &str| format!("layers.{layer}.{s}");
    LayerKeys {
        is_linear,
        input_layernorm: k("input_layernorm.weight"),
        post_attention_layernorm: k("post_attention_norm.weight"),
        ffn_gate: k("mlp.gate_proj.weight"),
        ffn_up: k("mlp.up_proj.weight"),
        ffn_down: k("mlp.down_proj.weight"),
        attn_q: k("self_attn.q_proj.weight"),
        attn_k: k("self_attn.k_proj.weight"),
        attn_v: k("self_attn.v_proj.weight"),
        attn_o: k("self_attn.o_proj.weight"),
        attn_q_per_head_norm: Some(k("attn_q_norm.weight")),
        attn_k_per_head_norm: Some(k("attn_k_norm.weight")),
        attn_qkv: Some(k("attn_qkv.weight")),
        attn_gate: Some(k("attn_gate.weight")),
        ssm_conv1d: Some(k("ssm_conv1d.weight")),
        ssm_dt: Some(k("ssm_dt.bias")),
        ssm_a: Some(k("ssm_a")),
        ssm_beta: Some(k("ssm_beta.weight")),
        ssm_alpha: Some(k("ssm_alpha.weight")),
        ssm_norm: Some(k("ssm_norm.weight")),
        ssm_out: Some(k("ssm_out.weight")),
    }
}

fn tiny_arch() -> HybridArch {
    HybridArch {
        full_attention_interval: 2,
        ssm_state_size: 2,
        intermediate_size: FFN,
        layers: (0..4).map(|l| keys(l, (l + 1) % 2 != 0)).collect(),
        final_norm: String::from("norm.weight"),
    }
}

fn tiny_tables() -> WeightTables {
    tiny_tables_without("")
}

fn tiny_tables_without(missing: &str) -> WeightTables {
    let (head_dim, q_dim, kv_dim) = (4, 8, 4);
    let (n_v, head_v, key_dim, value_dim) = (2, 2, 2, 4);
    let conv_dim = 2 * key_dim + value_dim;
    let mut w = WeightTables::new(filled(VOCAB, HIDDEN, 0.5), filled(VOCAB, HIDDEN, 0.5));
    let (tensors, vectors) = (&mut w.tensors, &mut w.vectors);
    let mut mat = |key: String, r: usize, c: usize, fill: f32| {
        if key != missing {
            tensors.insert(key, filled(r, c, fill));
        }
    };
    let mut vec = |key: String, n: usize, fill: f32| {
        if key != missing {
            vectors.insert(key, vec![fill.to_bits(); n]);
        }
    };
    vec(String::from("norm.weight"), HIDDEN, 1.0);
    for layer in 0..4 {
        let p = format!("layers.{layer}.");
        vec(format!("{p}input_layernorm.weight"), HIDDEN, 1.0);
        vec(format!("{p}post_attention_norm.weight"), HIDDEN, 1.0);
        mat(format!("{p}mlp.gate_proj.weight"), FFN, HIDDEN, 0.1);
        mat(format!("{p}mlp.up_proj.weight"), FFN, HIDDEN, 0.1);
        mat(format!("{p}mlp.down_proj.weight"), HIDDEN, FFN, 0.1);
        if (layer + 1) % 2 != 0 {
            mat(format!("{p}attn_qkv.weight"), conv_dim, HIDDEN, 0.1);
            mat(format!("{p}attn_gate.weight"), value_dim, HIDDEN, 0.1);
            mat(format!("{p}ssm_conv1d.weight"), conv_dim, 2, 0.5);
            vec(format!("{p}ssm_dt.bias"), n_v, 0.0);
            vec(format!("{p}ssm_a"), n_v, -1.0);
            mat(format!("{p}ssm_beta.weight"), n_v, HIDDEN, 0.1);
            mat(format!("{p}ssm_alpha.weight"), n_v, HIDDEN, 0.1);
            vec(format!("{p}ssm_norm.weight"), head_v, 1.0);
            mat(format!("{p}ssm_out.weight"), HIDDEN, value_dim, 0.5);
        } else {
            mat(format!("{p}self_attn.q_proj.weight"), 2 * q_dim, HIDDEN, 0.1);
            mat(format!("{p}self_attn.k_proj.weight"), kv_dim, HIDDEN, 0.1);
            mat(format!("{p}self_attn.v_proj.weight"), kv_dim, HIDDEN, 0.1);
            mat(format!("{p}self_attn.o_proj.weight"), HIDDEN, q_dim, 0.5);
            vec(format!("{p}attn_q_norm.weight"), head_dim, 1.0);
            vec(format!("{p}attn_k_norm.weight"), head_dim, 1.0);
        }
    }
    w
}

#[test]
fn bridge_loads_hybrid_layer_kinds_correctly() {
    let tables = tiny_tables();
    let w = load_qwen35_weights(&tables, &tiny_arch()).ok().expect("load_qwen35_weights");
    assert_eq!(w.layers.len(), 4);
    for (i, layer) in w.layers.iter().enumerate() {
        let is_linear = (i + 1) % 2 != 0;
        match (&layer.block, is_linear) {
            (Qwen35LayerWeights::Linear(_), true) => {}
            (Qwen35LayerWeights::Attention(_), false) => {}
            _ => panic!("layer {} dispatched to wrong branch", i),
        }
    }
}

#[test]
fn bridge_propagates_ffn_dim_and_embed_lm_head() {
    let tables = tiny_tables();
    let w = load_qwen35_weights(&tables, &tiny_arch()).ok().expect("load");
    assert_eq!(w.ffn_dim, FFN);
    assert_eq!((w.embed.nrows(), w.embed.ncols()), (VOCAB, HIDDEN));
    assert_eq!((w.lm_head.nrows(), w.lm_head.ncols()), (VOCAB, HIDDEN));
    assert_eq!(w.final_norm.len(), HIDDEN);
}

#[test]
fn bridge_missing_tensor_errors_with_key_name() {
    let tables = tiny_tables_without("layers.1.self_attn.q_proj.weight");
    match load_qwen35_weights(&tables, &tiny_arch()) {
        Err(Qwen35LoadError::MissingTensor(k)) => {
            assert!(k.contains("layers.1.self_attn.q_proj"), "got {k}")
        }
        Err(other) => panic!("expected MissingTensor, got {other:?}"),
        Ok(_) => panic!("expected MissingTensor, got Ok"),
    }
}

#[test]
fn bridge_missing_vector_errors_with_key_name() {
    let tables = tiny_tables_without("layers.0.ssm_a");
    match load_qwen35_weights(&tables, &tiny_arch()) {
        Err(Qwen35LoadError::MissingVector(k)) => assert_eq!(k, "layers.0.ssm_a"),
        Err(other) => panic!("expected MissingVector, got {other:?}"),
        Ok(_) => panic!("expected MissingVector, got Ok"),
    }
}

#[test]
fn bridge_rejects_non_hybrid_arch() {
    let mut arch = tiny_arch();
    arch.full_attention_interval = 0;
    arch.ssm_state_size = 0;
    let tables = WeightTables::new(filled(1, 1, 0.0), filled(1, 1, 0.0));
    match load_qwen35_weights(&tables, &arch) {
        Err(Qwen35LoadError::NotHybrid { field }) => assert_eq!(field, "full_attention_interval"),
        Err(other) => panic!("expected NotHybrid, got {other:?}"),
        Ok(_) => panic!("expected NotHybrid, got Ok"),
    }
}

#[test]
fn a_layer_without_a_key_is_named() {
    let mut arch = tiny_arch();
    arch.layers[2].ssm_a = None;
    let tables = tiny_tables();
    match load_qwen35_weights(&tables, &arch) {
        Err(e @ Qwen35LoadError::NoKey { layer: 2, .. }) => assert!(e.message().contains("2")),
        Err(other) => panic!("expected NoKey, got {other:?}"),
        Ok(_) => panic!("expected NoKey, got Ok"),
    }
}

#[test]
fn the_convolution_is_transposed_on_the_way() {
    let mut tables = tiny_tables();
    tables.tensors.insert(
        String::from("layers.0.ssm_conv1d.weight"),
        Matrix::from_flat(8, 2, (0..16).collect()).unwrap(),
    );
    let arch = tiny_arch();
    let w = load_qwen35_weights(&tables, &arch).ok().unwrap();
    match &w.layers[0].block {
        Qwen35LayerWeights::Linear(d) => {
            assert_eq!((d.ssm_conv1d.nrows(), d.ssm_conv1d.ncols()), (2, 8));
            assert_eq!(d.ssm_conv1d.row(1), vec![1, 3, 5, 7, 9, 11, 13, 15]);
        }
        _ => panic!("layer 0 is linear"),
    }
}

#[test]
fn error_variants_compile() {
    let dir = String::from("/tmp/no-such-vindex");
    let e1 = VindexLoadError::UnexpectedArch(dir.clone(), "llama".into());
    let e2 = VindexLoadError::MissingTensor { dir, key: "layers.0.ssm_norm.weight".into() };
    assert!(e1.message("\"d\"").contains("llama"));
    assert!(e2.message("\"d\"").contains("layers.0.ssm_norm.weight"));
}

#[test]
fn only_hybrid_families_reach_the_loader() {
    let mut cfg = VindexConfig {
        hidden_size: 8,
        vocab_size: 32,
        num_layers: 1,
        model_config: Some(ModelConfig {
            model_type: String::from("qwen35moe"),
            num_q_heads: 1,
            head_dim: 8,
            rope_base: 0,
            moe: None,
        }),
    };
    assert!(check_hybrid_family(&cfg, "dir").is_ok());
    cfg.model_config.as_mut().unwrap().model_type = String::from("llama");
    match check_hybrid_family(&cfg, "dir").err().unwrap() {
        VindexLoadError::UnexpectedArch(d, arch) => {
            assert_eq!((d.as_str(), arch.as_str()), ("dir", "llama"));
        }
        other => panic!("wrong error: {}", other.message("")),
    }
    cfg.model_config = None;
    assert!(check_hybrid_family(&cfg, "dir").is_err());
}

// ---- the forward pass --------------------------------------------------------

fn flags(block: BlockKind, has_moe: bool, quant: bool) -> LayerFlags {
    LayerFlags { block, has_moe, gate_quant: quant, up_quant: false, down_quant: false }
}

#[test]
fn a_pass_is_embed_layers_norm_head() {
    let layers = [
        flags(BlockKind::Linear, false, false),
        flags(BlockKind::Attention, true, true),
        flags(BlockKind::Attention, false, true),
    ];
    let d = tiny_attn_dims();
    let shapes = AttentionShapes {
        x: 4,
        attn_norm: 4,
        attn_q: Some((8, 4)),
        attn_k: Some((2, 4)),
        attn_v: None,
        attn_q_norm: 2,
        attn_k_norm: 2,
        attn_output: Some((4, 4)),
    };
    let dn = DeltaNetDims {
        hidden: 4,
        head_v_dim: 2,
        n_v_heads: 1,
        n_k_heads: 1,
        d_conv: 2,
        eps: 1e-6_f32.to_bits(),
    };
    let linear = DeltaNetShapes {
        x: 4,
        attn_norm: 4,
        attn_qkv: (6, 4),
        attn_gate: (2, 4),
        ssm_conv1d: (2, 6),
        ssm_dt: 1,
        ssm_a: 1,
        ssm_beta: (1, 4),
        ssm_alpha: (1, 4),
        ssm_norm: 2,
        ssm_out: (4, 2),
    };
    assert!(check_shapes(&linear, &dn));
    let blocks = [
        BlockShapes::Linear(linear),
        BlockShapes::Attention(shapes),
        BlockShapes::Attention(shapes),
    ];
    let mut cache = DeltaNetHybridCache::allocate(&[true, false, false], 2, 2, 6, 2, 1);
    let called = RefCell::new(Vec::new());
    let blocks_run = RefCell::new(Vec::new());
    let kernels = |layer: usize, k: Kernel, args: Vec<Vec<u32>>| {
        match k {
            Kernel::Project(Weight::AttnK, _) => vec![1, 2],
            Kernel::Project(Weight::AttnV, source) => {
                assert_eq!(source, Source::Quant);
                blocks_run.borrow_mut().push(layer);
                vec![3, 4]
            }
            Kernel::Project(Weight::AttnOutput, _) => vec![0; 4],
            Kernel::Conv => vec![1; 12],
            Kernel::DeltaRule => vec![2; 6],
            Kernel::Project(Weight::SsmOut, _) => {
                blocks_run.borrow_mut().push(layer);
                vec![0; 4]
            }
            _ => args[0].clone(),
        }
    };
    let ops = |op: Op, args: Vec<Vec<u32>>| {
        called.borrow_mut().push(op);
        match op {
            Op::Embed(..) => vec![5; 4],
            Op::LmHead(_) => vec![6; 9],
            _ => args[0].clone(),
        }
    };
    let logits =
        qwen35_forward_step(3, &layers, &blocks, true, false, &dn, &d, &mut cache, &kernels, &ops);
    assert_eq!(logits, vec![6; 9]);
    assert_eq!(*blocks_run.borrow(), vec![0, 1, 2]);
    let called = called.borrow();
    assert_eq!(called.len(), 1 + 4 * 3 + 2);
    assert_eq!(called[0], Op::Embed(3, Source::Quant));
    assert_eq!(
        called[1..5],
        [
            Op::AddBlock,
            Op::PostNorm { layer: 0 },
            Op::Ffn { layer: 0, route: FfnRoute::Dense },
            Op::AddFfn,
        ]
    );
    assert_eq!(called[7], Op::Ffn { layer: 1, route: FfnRoute::Moe });
    assert_eq!(called[11], Op::Ffn { layer: 2, route: FfnRoute::Lazy });
    assert_eq!(called[13], Op::FinalNorm);
    assert_eq!(called[14], Op::LmHead(Source::Dense));
    for layer in 1..3 {
        let slabs = cache.kv_layers[layer].as_ref().unwrap();
        assert_eq!((slabs.k.row(0), slabs.v.row(0)), (vec![1, 2], vec![3, 4]));
    }
}

#[test]
fn feed_forward_falls_back_until_it_needs_no_device() {
    let q4 = Some(12);
    let types = FfnTypes { gate: q4, up: q4, down: q4 };
    assert_eq!(ffn_first_step(&types, true), FfnStep::FusedBlock);
    assert_eq!(ffn_next_step(FfnStep::FusedBlock, &types, true), FfnStep::GateUpPair);
    assert_eq!(ffn_next_step(FfnStep::GateUpPair, &types, true), FfnStep::Separate);
    assert_eq!(ffn_first_step(&types, false), FfnStep::Separate);
    let mixed = FfnTypes { gate: q4, up: q4, down: Some(14) };
    assert_eq!(ffn_first_step(&mixed, true), FfnStep::GateUpPair);
    let five = FfnTypes { gate: q4, up: q4, down: Some(13) };
    assert_ne!(ffn_first_step(&five, true), FfnStep::FusedBlock);
}

#[test]
fn experts_come_by_score_and_rows_by_number() {
    let scores = words(&[0.1, 2.0, -1.0, 2.5]);
    assert_eq!(top_k_experts(&scores, 2), vec![3, 1]);
    assert_eq!(expert_rows(2, 4, 40), (20, 30));
}

#[test]
fn a_feed_forward_part_is_one_call_a_pair_or_three_products() {
    let q4 = Some(12);
    let types = FfnTypes { gate: q4, up: q4, down: q4 };
    let f = QuantFormat::Q4_K;
    let fused = swiglu_ffn_code(&types, true, true, true);
    assert_eq!(fused.len(), 1);
    assert_eq!(fused[0].kernel, Kernel::FfnBlock { gate: f, up: f, down: f });
    let pair: Vec<Kernel> =
        swiglu_ffn_code(&types, true, false, true).iter().map(|i| i.kernel).collect();
    assert_eq!(
        pair,
        vec![
            Kernel::PairGate,
            Kernel::PairUp,
            Kernel::SwiGlu,
            Kernel::Project(Weight::FfnDown, Source::Quant),
        ]
    );
    let single = swiglu_ffn_code(&types, true, false, false);
    assert_eq!(single[0].kernel, Kernel::Project(Weight::FfnGate, Source::Quant));
    assert_eq!(single[2].args, Args::Two(1, 2));
    assert_eq!(single[3].args, Args::One(3));
    // Without a device nothing is asked of it.
    assert_eq!(swiglu_ffn_code(&types, false, true, true), single);
    let plain = FfnTypes { gate: None, up: q4, down: None };
    let mixed: Vec<Kernel> =
        swiglu_ffn_code(&plain, true, true, true).iter().map(|i| i.kernel).collect();
    assert_eq!(
        mixed,
        vec![
            Kernel::Project(Weight::FfnGate, Source::Dense),
            Kernel::Project(Weight::FfnUp, Source::Quant),
            Kernel::SwiGlu,
            Kernel::Project(Weight::FfnDown, Source::Dense),
        ]
    );
    assert_eq!(ffn_part(FfnStep::Separate, &types), single);
}

#[test]
fn a_part_takes_what_the_device_gives_and_goes_on_where_it_declines() {
    let q4 = Some(12);
    let types = FfnTypes { gate: q4, up: q4, down: q4 };
    let kernels = |layer: usize, k: Kernel, a: Vec<&u32>| {
        assert_eq!(layer, 3);
        match k {
            Kernel::Project(Weight::FfnGate, _) => *a[0] + 1,
            Kernel::Project(Weight::FfnUp, _) => *a[0] + 2,
            Kernel::SwiGlu => *a[0] * *a[1],
            Kernel::Project(Weight::FfnDown, _) => *a[0] + 1000,
            other => panic!("{other:?} is no part of a feed-forward part"),
        }
    };
    let block = |x: &u32, g: QuantFormat, u: QuantFormat, d: QuantFormat| {
        assert_eq!((g, u, d), (QuantFormat::Q4_K, QuantFormat::Q4_K, QuantFormat::Q4_K));
        Some(x + 7)
    };
    let pair = |x: &u32| Some((x + 10, x + 20));
    let no_block = |_: &u32, _: QuantFormat, _: QuantFormat, _: QuantFormat| None;
    let no_pair = |_: &u32| None;
    assert_eq!(swiglu_ffn_lazy(5, 3, &types, true, &block, &pair, &kernels), 12);
    assert_eq!(swiglu_ffn_lazy(5, 3, &types, true, &no_block, &pair, &kernels), 15 * 25 + 1000);
    assert_eq!(swiglu_ffn_lazy(5, 3, &types, true, &no_block, &no_pair, &kernels), 6 * 7 + 1000);
    assert_eq!(swiglu_ffn_lazy(5, 3, &types, false, &block, &pair, &kernels), 6 * 7 + 1000);
}

#[test]
fn the_shared_expert_needs_all_its_projections() {
    let both: Vec<Kernel> =
        swiglu_moe_code(8, true, true, true).iter().map(|i| i.kernel).collect();
    assert_eq!(
        both,
        vec![
            Kernel::Project(Weight::Router, Source::Quant),
            Kernel::RouteExperts { k: 8, scale: None },
            Kernel::SharedExpert { limit: None },
            Kernel::Add,
        ]
    );
    assert_eq!(swiglu_moe_code(8, true, true, false).len(), 2);
    assert_eq!(swiglu_moe_code(8, false, false, false)[1].args, Args::Two(0, 1));
}

#[test]
fn equal_scores_go_to_the_smaller_number() {
    let scores = words(&[1.0, 1.0, 1.0]);
    assert_eq!(top_k_experts(&scores, 2), vec![0, 1]);
    let nan = f32::NAN;
    assert_eq!(top_k_experts(&words(&[nan, 1.0, -nan, f32::NEG_INFINITY]), 4), vec![1, 3, 0, 2]);
    assert_eq!(top_k_experts(&words(&[nan, nan, nan]), 2), vec![0, 1]);
}

#[test]
fn storage_types_have_formats_or_none() {
    assert_eq!(ggml_type_to_quant_format(12), Some(QuantFormat::Q4_K));
    assert_eq!(ggml_type_to_quant_format(14), Some(QuantFormat::Q6_K));
    assert_eq!(ggml_type_to_quant_format(13), None);
    assert_eq!(matvec_route(12, true), MatvecRoute::Device(QuantFormat::Q4_K));
    assert_eq!(matvec_route(12, false), MatvecRoute::Host);
    assert_eq!(matvec_route(8, true), MatvecRoute::Host);
}

#[test]
fn a_table_keeps_one_value_for_a_name() {
    let mut t: Table<u32> = Table::new();
    assert_eq!(t.get(&String::from("a")), None);
    t.insert(String::from("a"), 1);
    t.insert(String::from("b"), 2);
    t.insert(String::from("a"), 3);
    assert_eq!(t.get(&String::from("a")), Some(&3));
    assert_eq!(t.get(&String::from("b")), Some(&2));
    assert_eq!(t.get(&String::from("c")), None);
}
