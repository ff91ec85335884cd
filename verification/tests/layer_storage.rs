//! Building and viewing a layer's weights.
use std::cell::RefCell;

use larql::attention::dsv4_full_loader::{load_dsv4_layer, load_dsv4_layers, DsV4LoadError, LayerSource};
use larql::attention::dsv4_gguf_reader::{DsV4TensorKind, LayerTensors};
use larql::attention::dsv4_model_forward::{HeadKernel, HeadShapes};
use larql::attention::dsv4_params::{
    CompressorParams, DsV4AttnBlockCompressParams, DsV4AttnBlockIndexerParams, DsV4LayerParams,
    DsV4LayerVariant, DsV4RopeMode,
};
use larql::attention::dsv4_storage::{DsV4AttnLayer, DsV4LayerWeightStorage};
use larql::attention::dsv4_storage_build::{
    build_layer_storage, shape_product, DsV4BuildError, DsV4Hyperparams,
};
use larql::attention::dsv4_streaming_model_forward::{
    build_layer_params, dsv4_streaming_model_forward, DispatchParamsPool,
};
use larql::tensor::{Cube, Matrix};

fn base_hp() -> DsV4Hyperparams {
    DsV4Hyperparams {
        n_embd: 64,
        n_head: 4,
        head_dim: 64,
        q_lora_rank: 16,
        n_groups: 2,
        o_lora_rank: 8,
        n_rot: 0,
        rope_base: 10000.0f64.to_bits(),
        rope_mode: DsV4RopeMode::Neox,
        window_size: 8,
        norm_eps: 1e-5f32.to_bits(),
        indexer_head_size: None,
        n_index_head: None,
        top_k: None,
        n_hc: 4,
        n_expert: 4,
        n_expert_used: 2,
        n_ff_exp: 8,
        n_expert_shared: 1,
        expert_weights_norm: true,
        expert_weights_scale: 1.0f32.to_bits(),
        yarn: None,
        rope_base_swa: None,
    }
}

fn words(v: f32, n: usize) -> Vec<u32> {
    vec![v.to_bits(); n]
}

fn no_compress_tensors(hp: &DsV4Hyperparams) -> LayerTensors {
    let group_heads = hp.n_head / hp.n_groups;
    let group_dim = hp.head_dim * group_heads;
    let low_dim = hp.o_lora_rank * hp.n_groups;
    let mut m = LayerTensors::new();
    m.insert(DsV4TensorKind::AttnNorm, words(1.0, hp.n_embd));
    m.insert(DsV4TensorKind::AttnQA, words(0.01, hp.q_lora_rank * hp.n_embd));
    m.insert(DsV4TensorKind::AttnQANorm, words(1.0, hp.q_lora_rank));
    m.insert(
        DsV4TensorKind::AttnQB,
        words(0.01, hp.n_head * hp.head_dim * hp.q_lora_rank),
    );
    m.insert(DsV4TensorKind::AttnKv, words(0.01, hp.head_dim * hp.n_embd));
    m.insert(DsV4TensorKind::AttnKvANorm, words(1.0, hp.head_dim));
    m.insert(DsV4TensorKind::AttnSinks, words(-1.0, hp.n_head));
    m.insert(
        DsV4TensorKind::AttnOutA,
        words(0.01, hp.n_groups * hp.o_lora_rank * group_dim),
    );
    m.insert(DsV4TensorKind::AttnOutB, words(0.01, hp.n_embd * low_dim));
    m
}

fn add_compressor(m: &mut LayerTensors, hp: &DsV4Hyperparams, n_kv: usize, ratio: usize) {
    m.insert(DsV4TensorKind::AttnCompressorKv, words(0.01, n_kv * hp.n_embd));
    m.insert(DsV4TensorKind::AttnCompressorGate, words(0.01, n_kv * hp.n_embd));
    m.insert(DsV4TensorKind::AttnCompressorApe, words(0.01, ratio * n_kv));
    m.insert(DsV4TensorKind::AttnCompressorNorm, words(1.0, hp.head_dim));
}

fn add_indexer(m: &mut LayerTensors, hp: &DsV4Hyperparams, ihead: usize, inh: usize, ratio: usize) {
    let n_kv = 2 * ihead;
    m.insert(DsV4TensorKind::IndexerCompressorKv, words(0.01, n_kv * hp.n_embd));
    m.insert(DsV4TensorKind::IndexerCompressorGate, words(0.01, n_kv * hp.n_embd));
    m.insert(DsV4TensorKind::IndexerCompressorApe, words(0.01, ratio * n_kv));
    m.insert(DsV4TensorKind::IndexerCompressorNorm, words(1.0, ihead));
    m.insert(DsV4TensorKind::IndexerAttnQB, words(0.01, inh * ihead * hp.q_lora_rank));
    m.insert(DsV4TensorKind::IndexerProj, words(0.01, inh * hp.n_embd));
}

fn indexer_hp() -> DsV4Hyperparams {
    let mut hp = base_hp();
    hp.indexer_head_size = Some(16);
    hp.n_index_head = Some(2);
    hp.top_k = Some(2);
    hp
}

#[test]
fn build_no_compress_storage() {
    let hp = base_hp();
    let tensors = no_compress_tensors(&hp);
    let storage = build_layer_storage(&tensors, &hp, 0).expect("no-compress build");
    assert!(storage.compressor.is_none());
    assert!(storage.indexer.is_none());
    assert_eq!(storage.attn_norm.len(), hp.n_embd);
    assert_eq!((storage.wq_a.nrows(), storage.wq_a.ncols()), (hp.q_lora_rank, hp.n_embd));
}

#[test]
fn build_compress_storage() {
    let hp = base_hp();
    let mut tensors = no_compress_tensors(&hp);
    let compress_ratio = 2usize;
    add_compressor(&mut tensors, &hp, hp.head_dim, compress_ratio);
    let storage = build_layer_storage(&tensors, &hp, compress_ratio).expect("compress build");
    assert!(storage.compressor.is_some());
    assert!(storage.indexer.is_none());
    assert_eq!(storage.compressor_params.unwrap().compress_ratio, compress_ratio);
}

#[test]
fn build_indexer_storage() {
    let hp = indexer_hp();
    let mut tensors = no_compress_tensors(&hp);
    add_compressor(&mut tensors, &hp, 2 * hp.head_dim, 4);
    add_indexer(&mut tensors, &hp, 16, 2, 4);
    let storage = build_layer_storage(&tensors, &hp, 4).expect("indexer build");
    assert!(storage.compressor.is_some());
    assert!(storage.indexer.is_some());
    assert_eq!(storage.top_k, Some(2));
}

#[test]
fn missing_tensor_errors() {
    let hp = base_hp();
    let mut tensors = no_compress_tensors(&hp);
    tensors.remove(DsV4TensorKind::AttnQB);
    match build_layer_storage(&tensors, &hp, 0).err().expect("expected error") {
        DsV4BuildError::MissingTensor(k) => assert_eq!(k, DsV4TensorKind::AttnQB),
        other => panic!("wrong error: {other:?}"),
    }
}

#[test]
fn shape_mismatch_errors() {
    let hp = base_hp();
    let mut tensors = no_compress_tensors(&hp);
    tensors.insert(DsV4TensorKind::AttnNorm, words(1.0, 7));
    match build_layer_storage(&tensors, &hp, 0).err().expect("expected error") {
        DsV4BuildError::ShapeMismatch { kind, got_elems, expected } => {
            assert_eq!(kind, DsV4TensorKind::AttnNorm);
            assert_eq!(got_elems, 7);
            assert_eq!(expected, vec![64]);
        }
        other => panic!("wrong error: {other:?}"),
    }
}

#[test]
fn compress_ratio_4_requires_indexer_hyperparams() {
    let hp = base_hp();
    let mut tensors = no_compress_tensors(&hp);
    add_compressor(&mut tensors, &hp, 2 * hp.head_dim, 4);
    match build_layer_storage(&tensors, &hp, 4).err().expect("expected error") {
        DsV4BuildError::MissingIndexerHyperparams => {}
        other => panic!("wrong error: {other:?}"),
    }
}

#[test]
fn messages_name_the_tensor() {
    let e = DsV4BuildError::MissingTensor(DsV4TensorKind::AttnQB);
    assert!(e.message("AttnQB").contains("AttnQB"));
    let e = DsV4BuildError::ShapeMismatch {
        kind: DsV4TensorKind::AttnNorm,
        expected: vec![64],
        got_elems: 7,
    };
    let t = e.message("AttnNorm");
    assert!(t.contains("AttnNorm") && t.contains("64") && t.contains("7"));
    assert!(!DsV4BuildError::MissingIndexerHyperparams.message("").is_empty());
    assert!(!DsV4BuildError::IndexerRequiredForCompressRatio4.message("").is_empty());
}

#[test]
fn shape_products_overflow_to_nothing() {
    assert_eq!(shape_product(&vec![2, 3, 4]), Some(24));
    assert_eq!(shape_product(&vec![]), Some(1));
    assert_eq!(shape_product(&vec![usize::MAX, 2]), None);
}

#[test]
fn dispatcher_priority_indexer_over_compress_over_nocompress() {
    let hp = base_hp();
    let storage = build_layer_storage(&no_compress_tensors(&hp), &hp, 0).unwrap();
    let l = storage.dispatcher_layer(&None, &None);
    assert_eq!(l.variant_name(), "no_compress");

    let comp_p = DsV4AttnBlockCompressParams {
        attn: storage.attn_params,
        compressor: CompressorParams {
            head_dim: storage.attn_params.head_dim,
            n_embd: 64,
            compress_ratio: 2,
            n_rot: 0,
            rope_base: 10000.0f64.to_bits(),
            rope_mode: DsV4RopeMode::Neox,
            norm_eps: 1e-5f32.to_bits(),
        },
    };
    let some_comp_p = Some(comp_p);
    let l2 = storage.dispatcher_layer(&some_comp_p, &None);
    assert_eq!(l2.variant_name(), "no_compress");
}

#[test]
fn dispatcher_picks_what_the_storage_holds() {
    let hp = indexer_hp();
    let pool = DispatchParamsPool::new(&hp);
    let mut tensors = no_compress_tensors(&hp);
    add_compressor(&mut tensors, &hp, 2 * hp.head_dim, 4);
    add_indexer(&mut tensors, &hp, 16, 2, 4);
    let storage = build_layer_storage(&tensors, &hp, 4).unwrap();
    let (cp, ip) = pool.pick(&DsV4LayerVariant {
        uses_hash_routing: false,
        compress_ratio: Some(4),
        has_indexer: true,
    });
    assert_eq!(storage.dispatcher_layer(cp, ip).variant_name(), "indexer");
    assert_eq!(storage.dispatcher_layer(cp, &None).variant_name(), "compress");
    assert_eq!(storage.dispatcher_layer(&None, &None).variant_name(), "no_compress");
}

#[test]
fn dispatch_pool_picks_correct_variant_arm() {
    let hp = indexer_hp();
    let pool = DispatchParamsPool::new(&hp);

    let v = DsV4LayerVariant { uses_hash_routing: true, compress_ratio: None, has_indexer: false };
    let (cp, ip) = pool.pick(&v);
    assert!(cp.is_none());
    assert!(ip.is_none());

    let v =
        DsV4LayerVariant { uses_hash_routing: false, compress_ratio: Some(4), has_indexer: true };
    let (cp, ip) = pool.pick(&v);
    assert!(cp.is_some());
    assert!(ip.is_some());
    assert_eq!(cp.as_ref().unwrap().compressor.compress_ratio, 4);

    let v =
        DsV4LayerVariant { uses_hash_routing: false, compress_ratio: Some(128), has_indexer: false };
    let (cp, ip) = pool.pick(&v);
    assert!(cp.is_some());
    assert!(ip.is_none());
    assert_eq!(cp.as_ref().unwrap().compressor.compress_ratio, 128);
}

/// A layer whose tensors call for a ratio.
fn source_of(ratio: usize) -> LayerSource {
    let hp = indexer_hp();
    let mut tensors = no_compress_tensors(&hp);
    if ratio != 0 {
        let coff = if ratio == 4 { 2 } else { 1 };
        add_compressor(&mut tensors, &hp, coff * hp.head_dim, ratio);
    }
    if ratio == 4 {
        add_indexer(&mut tensors, &hp, 16, 2, 4);
    }
    let variant = DsV4LayerVariant {
        uses_hash_routing: false,
        compress_ratio: if ratio == 0 { None } else { Some(ratio) },
        has_indexer: ratio == 4,
    };
    LayerSource { variant, tensors: Ok(tensors) }
}

/// A head for four streams of one word.
fn head() -> HeadShapes {
    HeadShapes { hc_fn: (4, 4), base_len: 4, n_vocab: 1 }
}

/// Every word times ten, plus a number.
fn appended(x: &Cube, n: u32) -> Cube {
    let (p, r, c) = x.dims();
    Cube::from_flat(p, r, c, x.flat().iter().map(|v| v * 10 + n).collect()).unwrap()
}

#[test]
fn a_streamed_pass_runs_the_layers_that_are_named() {
    let hp = indexer_hp();
    let embd = Matrix::from_flat(10, 1, (0..10).map(|t| t * 2).collect()).unwrap();
    let read = |index: usize| source_of([0, 128, 4][index]);
    let ran = RefCell::new(Vec::new());
    let layer = |index: usize,
                 attn: DsV4AttnLayer,
                 p: DsV4LayerParams,
                 x: &Cube,
                 ids: &Vec<u32>,
                 at: usize| {
        assert_eq!(p, build_layer_params(&hp));
        assert_eq!(*ids, vec![8, 9]);
        assert_eq!(x.dims(), (2, 4, 1));
        let ratio = match &attn {
            DsV4AttnLayer::NoCompress { .. } => 0,
            DsV4AttnLayer::Compress { params, .. } => params.compressor.compress_ratio,
            DsV4AttnLayer::Indexer { params, .. } => params.compressor.compress_ratio,
        };
        ran.borrow_mut().push((index, attn.variant_name(), ratio, at));
        appended(x, index as u32)
    };
    let tables = |k: HeadKernel, m: &Matrix| match k {
        HeadKernel::OutputNorm => Matrix::from_flat(2, 1, vec![m.at(0, 0) + 1, m.at(1, 0) + 1]),
        HeadKernel::LmHead => Matrix::from_flat(2, 1, vec![m.at(0, 0) * 2, m.at(1, 0) * 2]),
        _ => Matrix::from_flat(2, 4, m.flat()),
    }
    .unwrap();
    let weigh = |x: &Cube, _: &Matrix| {
        Matrix::from_flat(2, 1, vec![x.at(0, 0, 0), x.at(1, 3, 0)]).unwrap()
    };
    let out = dsv4_streaming_model_forward(
        &hp,
        &vec![8, 9],
        &embd,
        &head(),
        &[2, 0, 1],
        9,
        &read,
        &layer,
        &tables,
        &weigh,
    )
    .ok()
    .unwrap();
    assert_eq!(out.flat(), vec![2 * 16202, 2 * 18202]);
    assert_eq!(
        *ran.borrow(),
        vec![(2, "indexer", 4, 9), (0, "no_compress", 0, 9), (1, "compress", 128, 9)]
    );
}

#[test]
fn a_layer_that_does_not_load_ends_the_pass() {
    let hp = indexer_hp();
    let embd = Matrix::from_flat(2, 1, vec![3, 4]).unwrap();
    let read = |index: usize| {
        let mut source = source_of(0);
        if index == 7 {
            // A ratio that does not occur is of no account where the layer fails.
            source.variant.compress_ratio = Some(5);
            source.tensors = Err(String::from("disk gone"));
        }
        source
    };
    let ran = RefCell::new(Vec::new());
    let layer = |index: usize,
                 _: DsV4AttnLayer,
                 _: DsV4LayerParams,
                 x: &Cube,
                 _: &Vec<u32>,
                 _: usize| {
        ran.borrow_mut().push(index);
        appended(x, 0)
    };
    let tables = |_: HeadKernel, _: &Matrix| -> Matrix { panic!("the pass ended") };
    let weigh = |_: &Cube, _: &Matrix| -> Matrix { panic!("the pass ended") };
    let out = dsv4_streaming_model_forward(
        &hp,
        &vec![1],
        &embd,
        &head(),
        &[3, 7, 5],
        0,
        &read,
        &layer,
        &tables,
        &weigh,
    );
    match out.err().unwrap() {
        DsV4LoadError::TensorIo(t) => assert_eq!(t, "disk gone"),
        other => panic!("wrong error: {}", other.message("")),
    }
    assert_eq!(*ran.borrow(), vec![3]);
}

#[test]
fn a_missing_tensor_is_told_before_the_groups_are_looked_at() {
    let mut hp = base_hp();
    let mut tensors = no_compress_tensors(&hp);
    tensors.remove(DsV4TensorKind::AttnKv);
    hp.n_groups = 0;
    match build_layer_storage(&tensors, &hp, 0).err().unwrap() {
        DsV4BuildError::MissingTensor(kind) => assert_eq!(kind, DsV4TensorKind::AttnKv),
        other => panic!("wrong error: {}", other.message("")),
    }
}

#[test]
fn layer_params_carry_the_fixed_constants() {
    let p = build_layer_params(&base_hp());
    assert_eq!(p.mhc.sinkhorn_iters, 2);
    assert_eq!(f32::from_bits(p.mhc.hc_eps), 1e-5);
    assert_eq!(f32::from_bits(p.ffn.routed_swiglu_limit), 7.0);
    assert_eq!(f32::from_bits(p.ffn.shared_swiglu_limit), 0.0);
    assert_eq!(p.mhc.n_hc, 4);
    assert_eq!(p.ffn.n_expert_used, 2);
}

#[test]
fn a_layer_loads_from_its_source() {
    let hp = base_hp();
    let variant =
        DsV4LayerVariant { uses_hash_routing: true, compress_ratio: None, has_indexer: false };
    let source = LayerSource { variant, tensors: Ok(no_compress_tensors(&hp)) };
    let (storage, v) = load_dsv4_layer(source, &hp, 0).ok().unwrap();
    assert_eq!(v, variant);
    assert_eq!(storage.attn_sinks.unwrap().len(), hp.n_head);
}

#[test]
fn loading_stops_at_the_first_layer_that_fails() {
    let hp = base_hp();
    let variant =
        DsV4LayerVariant { uses_hash_routing: true, compress_ratio: None, has_indexer: false };
    let mut broken = no_compress_tensors(&hp);
    broken.remove(DsV4TensorKind::AttnKv);
    let sources = vec![
        LayerSource { variant, tensors: Ok(no_compress_tensors(&hp)) },
        LayerSource { variant, tensors: Ok(broken) },
        LayerSource { variant, tensors: Err(String::from("disk")) },
    ];
    match load_dsv4_layers(sources, &hp).err().unwrap() {
        DsV4LoadError::Build { layer_index, cause } => {
            assert_eq!(layer_index, 1);
            assert!(matches!(cause, DsV4BuildError::MissingTensor(DsV4TensorKind::AttnKv)));
        }
        other => panic!("wrong error: {}", other.message("")),
    }
}

#[test]
fn unreadable_tensors_are_an_io_error() {
    let variant =
        DsV4LayerVariant { uses_hash_routing: true, compress_ratio: None, has_indexer: false };
    let source = LayerSource { variant, tensors: Err(String::from("disk gone")) };
    match load_dsv4_layer(source, &base_hp(), 3).err().unwrap() {
        DsV4LoadError::TensorIo(t) => assert_eq!(t, "disk gone"),
        other => panic!("wrong error: {}", other.message("")),
    }
    let e = DsV4LoadError::Metadata(String::from("no key"));
    assert!(e.message("").contains("no key"));
}

// ---- a layer's variant ------------------------------------------------------

fn storage_of(ratio: usize) -> DsV4LayerWeightStorage {
    let hp = indexer_hp();
    let mut tensors = no_compress_tensors(&hp);
    if ratio != 0 {
        let coff = if ratio == 4 { 2 } else { 1 };
        add_compressor(&mut tensors, &hp, coff * hp.head_dim, ratio);
    }
    if ratio == 4 {
        add_indexer(&mut tensors, &hp, 16, 2, 4);
    }
    build_layer_storage(&tensors, &hp, ratio).ok().unwrap()
}

#[test]
fn storage_no_compress_dispatches_correctly() {
    let storage = storage_of(0);
    let layer = storage.dispatcher_layer(&None, &None);
    assert_eq!(layer.variant_name(), "no_compress");
    match layer {
        DsV4AttnLayer::NoCompress { weights, params } => {
            assert_eq!(params.n_embd, 64);
            assert_eq!((weights.wq_a.nrows(), weights.wq_a.ncols()), (16, 64));
            assert_eq!(weights.wo_a.dims(), (2, 8, 128));
        }
        _ => panic!("wrong variant"),
    }
}

#[test]
fn storage_with_compressor_dispatches_compress() {
    let storage = storage_of(2);
    let compress_params = Some(DsV4AttnBlockCompressParams {
        attn: storage.attn_params,
        compressor: storage.compressor_params.unwrap(),
    });
    let layer = storage.dispatcher_layer(&compress_params, &None);
    assert_eq!(layer.variant_name(), "compress");
    match layer {
        DsV4AttnLayer::Compress { weights, params } => {
            assert_eq!(params.compressor.compress_ratio, 2);
            assert_eq!((weights.compressor.wkv.nrows(), weights.compressor.ape.nrows()), (64, 2));
        }
        _ => panic!("wrong variant"),
    }
}

#[test]
fn storage_with_indexer_dispatches_indexer() {
    let storage = storage_of(4);
    let compress_params = Some(DsV4AttnBlockCompressParams {
        attn: storage.attn_params,
        compressor: storage.compressor_params.unwrap(),
    });
    let indexer_params = Some(DsV4AttnBlockIndexerParams {
        attn: storage.attn_params,
        compressor: storage.compressor_params.unwrap(),
        indexer_compressor: storage.indexer_compressor_params.unwrap(),
        indexer: storage.indexer_params.unwrap(),
        top_k: storage.top_k.unwrap(),
    });
    let layer = storage.dispatcher_layer(&compress_params, &indexer_params);
    assert_eq!(layer.variant_name(), "indexer");
    match layer {
        DsV4AttnLayer::Indexer { weights, params } => {
            assert_eq!(params.compressor.compress_ratio, 4);
            assert_eq!(params.top_k, 2);
            assert_eq!(weights.indexer_compressor.norm.len(), 16);
            assert_eq!((weights.indexer.wq_b.nrows(), weights.indexer.wproj.nrows()), (32, 2));
        }
        _ => panic!("wrong variant"),
    }
}
