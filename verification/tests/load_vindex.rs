//! Finding a model's tensors in a vindex, its geometry, and generating with it.

use larql::attention::dsv4_forward::Dsv4Dims;
use larql::attention::dsv4_generate::{dsv4_generate, DecodeLoop, DecodeStep};
use larql::attention::dsv4_load_vindex::{
    attn_readable, aux_vector, aux_vector_opt, build_attn_weights, build_moe_weights,
    find_lm_head_descriptor, find_norm_vector, find_weight_descriptor, has_lm_head,
    layer_file_name, layer_key, load_per_layer_moe, manifest_quant, moe_readable, read_router,
    type_of_tag, AuxEntry, Dsv4LoadError, ExpertBlocks, ExpertFile, LayerHeader,
    LayerWeightFormat, ManifestEntry, TensorRegion, VindexFiles, WeightEntry,
};
use larql::attention::dsv4_vindex_model::{
    check_embed, check_family, derive_dims, dsv4_dims_from_weights, dsv4_generate_with_sampling,
    family_message, layers_readable, load_dsv4_weights_from_vindex, Draw, GenStep, Generation,
    ModelConfig, MoeConfig, VindexConfig, WeightShapes,
};

fn text(s: &str) -> String {
    String::from(s)
}

fn refusal<T>(r: Result<T, Dsv4LoadError>) -> String {
    r.err().expect("a refusal was expected").message()
}

fn bytes_of(words: &[u32]) -> Vec<u8> {
    words.iter().flat_map(|w| w.to_le_bytes()).collect()
}

fn quant(key: &str, format: &str, offset: u64) -> ManifestEntry {
    ManifestEntry {
        key: text(key),
        shape: vec![4, 8],
        format: text(format),
        offset,
        length: 16,
    }
}

fn aux(key: &str, n: usize, offset: u64) -> AuxEntry {
    AuxEntry { key: text(key), shape: vec![n], dtype: text("f32"), offset, length: 4 * n as u64 }
}

fn weight(key: &str, shape: Vec<usize>, offset: u64, length: u64) -> WeightEntry {
    WeightEntry { key: text(key), kind: text("vector"), shape, offset, length, file: None, format: None }
}

fn dims() -> Dsv4Dims {
    Dsv4Dims {
        hidden: 2,
        q_lora_rank: 3,
        kv_lora_rank: 2,
        n_heads: 1,
        head_dim: 4,
        output_intermediate: 4,
        ffn_dim: 5,
        num_experts: 2,
        experts_per_token: 1,
        num_shared_experts: 1,
        vocab: 256,
        norm_eps: 1e-6_f32.to_bits(),
        expert_weights_scale: 1.5_f32.to_bits(),
        rope_dim: 0,
        rope_base: 10000.0_f64.to_bits(),
    }
}

// ---- keys, tags and messages -----------------------------------------------------

#[test]
fn keys_and_files_carry_the_layer() {
    assert_eq!(layer_key(12, "attn_q_a.weight"), "layers.12.attn_q_a.weight");
    assert_eq!(layer_file_name(3), "layer_03.weights");
    assert_eq!(layer_file_name(42), "layer_42.weights");
    assert_eq!(layer_file_name(107), "layer_107.weights");
}

#[test]
fn tags_name_storage_types() {
    let types: Vec<Option<u32>> = ["Q4_K", "Q6_K", "Q8_0", "F16", "F32", "q4_k"]
        .iter()
        .map(|t| type_of_tag(&text(t)))
        .collect();
    assert_eq!(types, vec![Some(12), Some(14), Some(8), Some(1), Some(0), None]);
}

#[test]
fn every_load_error_has_its_text() {
    assert_eq!(Dsv4LoadError::Vindex(text("a")).message(), "vindex error: a");
    assert_eq!(Dsv4LoadError::Model(text("b")).message(), "model error: b");
    assert_eq!(Dsv4LoadError::Io(text("c")).message(), "io: c");
    assert_eq!(Dsv4LoadError::Parse(text("d")).message(), "parse: d");
    assert_eq!(
        Dsv4LoadError::MissingManifestEntry(text("k"), text("m")).message(),
        "missing manifest entry: k (in m)"
    );
}

// ---- single tensors -----------------------------------------------------------------

#[test]
fn a_quantized_tensor_is_a_region() {
    let entries = vec![
        quant("layers.1.a", "Q6_K", 100),
        quant("layers.1.a", "Q4_K", 200),
        quant("layers.1.b", "Q2_K", 0),
    ];
    assert_eq!(
        manifest_quant(&entries, 1, "a").unwrap(),
        TensorRegion { offset: 100, length: 16, dtype: 14, rows: 4, cols: 8 }
    );
    assert_eq!(refusal(manifest_quant(&entries, 1, "b")), "parse: unknown format tag Q2_K");
    assert_eq!(
        refusal(manifest_quant(&entries, 2, "a")),
        "missing manifest entry: layers.2.a (in mla/interleaved)"
    );
}

#[test]
fn auxiliary_vectors_lie_inside_their_file() {
    let bytes = bytes_of(&[1, 2, 3, 4]);
    let mut entries = vec![aux("layers.0.n", 2, 4)];
    assert_eq!(aux_vector_opt(&entries, &bytes, 0, "n", 1), Some(vec![2, 3]));
    // At least as many values as are expected are read.
    assert_eq!(aux_vector_opt(&entries, &bytes, 0, "n", 3), Some(vec![2, 3, 4]));
    assert_eq!(aux_vector_opt(&entries, &bytes, 0, "n", 4), None);
    assert_eq!(aux_vector_opt(&entries, &bytes, 1, "n", 1), None);
    assert_eq!(
        refusal(aux_vector(&entries, &bytes, 0, "n", 4)),
        "missing manifest entry: layers.0.n (in aux)"
    );
    entries[0].dtype = text("f16");
    assert_eq!(aux_vector_opt(&entries, &bytes, 0, "n", 1), None);
}

#[test]
fn norms_lie_inside_their_file() {
    let bytes = bytes_of(&[7, 8, 9]);
    let entries = vec![weight("norm.weight", vec![2], 4, 8), weight("far", vec![2], 8, 8)];
    assert_eq!(find_norm_vector(&bytes, &entries, &text("norm.weight")).unwrap(), vec![8, 9]);
    assert_eq!(
        refusal(find_norm_vector(&bytes, &entries, &text("far"))),
        "parse: norm far: range 8+8 out of bounds (mmap 12)"
    );
    assert_eq!(
        refusal(find_norm_vector(&bytes, &entries, &text("x"))),
        "missing manifest entry: x (in weight_manifest)"
    );
}

#[test]
fn weights_have_one_or_two_axes() {
    let mut entries = vec![
        weight("one", vec![5], 0, 20),
        weight("two", vec![2, 3], 8, 24),
        weight("three", vec![1, 2, 3], 0, 0),
    ];
    assert_eq!(
        find_weight_descriptor(&entries, &text("one")).unwrap(),
        TensorRegion { offset: 0, length: 20, dtype: 0, rows: 1, cols: 5 }
    );
    entries[1].format = Some(text("Q8_0"));
    assert_eq!(
        find_weight_descriptor(&entries, &text("two")).unwrap(),
        TensorRegion { offset: 8, length: 24, dtype: 8, rows: 2, cols: 3 }
    );
    assert_eq!(
        refusal(find_weight_descriptor(&entries, &text("three"))),
        "parse: weight_manifest three: unexpected shape [1, 2, 3]"
    );
    entries[0].format = Some(text("BF16"));
    assert_eq!(
        refusal(find_weight_descriptor(&entries, &text("one"))),
        "parse: weight_manifest one: unknown format BF16"
    );
}

#[test]
fn the_output_head_has_a_default() {
    assert_eq!(
        find_lm_head_descriptor(&vec![], 512, 256),
        TensorRegion { offset: 0, length: 512 * 144, dtype: 12, rows: 512, cols: 256 }
    );
    let mut e = weight("output.weight", vec![3, 4], 5, 48);
    assert_eq!(
        find_lm_head_descriptor(&vec![weight("x", vec![], 0, 0), e.clone()], 512, 256),
        TensorRegion { offset: 5, length: 48, dtype: 0, rows: 3, cols: 4 }
    );
    e.file = Some(text("lm_head_q4.bin"));
    e.shape = vec![9];
    assert_eq!(
        find_lm_head_descriptor(&vec![e.clone()], 512, 256),
        TensorRegion { offset: 5, length: 48, dtype: 12, rows: 512, cols: 256 }
    );
    e.file = None;
    e.format = Some(text("Q8_0"));
    assert_eq!(find_lm_head_descriptor(&vec![e], 512, 256).dtype, 8);
}

// ---- experts ---------------------------------------------------------------------------

fn header(format: LayerWeightFormat, n: usize) -> Option<LayerHeader> {
    let blocks = (0..n)
        .map(|e| ExpertBlocks {
            gate_up_offset: 100 * e,
            gate_up_bytes: 60,
            down_offset: 100 * e + 60,
            down_bytes: 40,
        })
        .collect();
    Some(LayerHeader { format, num_entries: n, blocks })
}

#[test]
fn every_expert_has_two_blocks() {
    let h = header(LayerWeightFormat::Q6K, 2);
    let (gate_ups, downs) = load_per_layer_moe(&h, "f", "Q6_K", &dims()).unwrap();
    assert_eq!(
        gate_ups[1],
        TensorRegion { offset: 100, length: 60, dtype: 14, rows: 10, cols: 2 }
    );
    assert_eq!(downs[0], TensorRegion { offset: 60, length: 40, dtype: 14, rows: 2, cols: 5 });
}

#[test]
fn expert_files_say_what_is_wrong() {
    assert_eq!(
        refusal(load_per_layer_moe(&None, "f", "", &dims())),
        "parse: layer file f: header parse failed"
    );
    assert_eq!(
        refusal(load_per_layer_moe(&header(LayerWeightFormat::Other, 2), "f", "BF16", &dims())),
        "parse: layer file f: unsupported quant format BF16"
    );
    assert_eq!(
        refusal(load_per_layer_moe(&header(LayerWeightFormat::Q4K, 3), "f", "Q4_K", &dims())),
        "parse: layer file f: expected 2 experts, got 3"
    );
}

#[test]
fn a_router_has_a_value_for_every_expert_and_dimension() {
    let bytes = bytes_of(&[1, 2, 3, 4, 5]);
    let key = "layers.0.ffn_gate_inp.weight";
    let entries = vec![weight(key, vec![2, 2], 4, 16)];
    assert_eq!(read_router(&bytes, &entries, 0, &dims()).unwrap(), vec![2, 3, 4, 5]);
    let short = vec![weight(key, vec![2, 2], 4, 12)];
    assert_eq!(
        refusal(read_router(&bytes, &short, 0, &dims())),
        "parse: router layers.0.ffn_gate_inp.weight: expected 16 bytes, got 12"
    );
}

// ---- layers and the whole model ------------------------------------------------------------

const AUX: [u32; 8] = [11, 12, 13, 14, 15, 16, 17, 18];
const NORMS: [u32; 8] = [21, 22, 23, 24, 25, 26, 27, 28];

fn files<'a>(aux_bytes: &'a [u8], norms_bytes: &'a [u8]) -> VindexFiles<'a> {
    let l = |s: &str| format!("layers.0.{s}");
    VindexFiles {
        mla: ["attn_q_a", "attn_q_b", "attn_kv", "attn_output_a", "attn_output_b"]
            .iter()
            .enumerate()
            .map(|(i, s)| quant(&l(&format!("{s}.weight")), "Q4_K", i as u64))
            .collect(),
        interleaved: ["ffn_gate_shexp", "ffn_up_shexp", "ffn_down_shexp"]
            .iter()
            .enumerate()
            .map(|(i, s)| quant(&l(&format!("{s}.weight")), "Q8_0", 10 + i as u64))
            .collect(),
        aux: vec![
            aux(&l("attn_q_a_norm.weight"), 3, 0),
            aux(&l("attn_kv_a_norm.weight"), 2, 12),
            aux(&l("attn_sinks.weight"), 1, 20),
            aux(&l("exp_probs_b.bias"), 2, 24),
        ],
        weights: vec![
            weight(&l("input_layernorm.weight"), vec![2], 0, 8),
            weight(&l("post_attention_layernorm.weight"), vec![2], 8, 8),
            weight(&l("ffn_gate_inp.weight"), vec![2, 2], 16, 16),
            weight("norm.weight", vec![2], 4, 8),
        ],
        aux_bytes,
        norms_bytes,
    }
}

fn experts(n: usize) -> ExpertFile {
    ExpertFile { path: text("e"), format_text: text("Q4_K"), header: header(LayerWeightFormat::Q4K, n) }
}

#[test]
fn a_layer_s_attention_is_found() {
    let (a, n) = (bytes_of(&AUX), bytes_of(&NORMS));
    let p = build_attn_weights(&files(&a, &n), 0, &dims()).ok().unwrap();
    assert_eq!((p.q_a.offset, p.output_b.offset), (0, 4));
    assert_eq!(p.attn_norm, vec![21, 22]);
    assert_eq!(p.q_a_norm, vec![11, 12, 13]);
    assert_eq!(p.kv_a_norm, vec![14, 15]);
    assert_eq!(p.sinks, vec![16]);
    let mut f = files(&a, &n);
    f.mla.remove(2);
    f.aux.remove(0);
    assert_eq!(
        refusal(build_attn_weights(&f, 0, &dims())),
        "missing manifest entry: layers.0.attn_kv.weight (in mla/interleaved)"
    );
}

#[test]
fn a_layer_s_experts_are_found() {
    let (a, n) = (bytes_of(&AUX), bytes_of(&NORMS));
    let p = build_moe_weights(&files(&a, &n), 0, &dims(), &experts(2)).ok().unwrap();
    assert_eq!(p.router, vec![25, 26, 27, 28]);
    assert_eq!(p.router_bias, Some(vec![17, 18]));
    assert_eq!(p.ffn_norm, vec![23, 24]);
    assert_eq!((p.expert_gate_ups.len(), p.expert_downs.len()), (2, 2));
    assert_eq!((p.shared_gate.dtype, p.shared_down.offset), (8, 12));
    // A missing bias is no failure, a missing shared expert is one.
    let mut f = files(&a, &n);
    f.aux.remove(3);
    assert!(build_moe_weights(&f, 0, &dims(), &experts(2)).ok().unwrap().router_bias.is_none());
    f.interleaved.remove(1);
    assert_eq!(
        refusal(build_moe_weights(&f, 0, &dims(), &experts(2))),
        "missing manifest entry: layers.0.ffn_up_shexp.weight (in mla/interleaved)"
    );
}

#[test]
fn a_model_is_its_layers_and_its_ends() {
    let (a, n) = (bytes_of(&AUX), bytes_of(&NORMS));
    let m = load_dsv4_weights_from_vindex(&files(&a, &n), &vec![experts(2)], &dims()).ok().unwrap();
    assert_eq!(m.layers.len(), 1);
    assert_eq!(m.final_norm, vec![22, 23]);
    assert_eq!(
        m.lm_head,
        TensorRegion { offset: 0, length: 288, dtype: 12, rows: 256, cols: 2 }
    );
    // The second layer has no tensors.
    assert_eq!(
        refusal(load_dsv4_weights_from_vindex(
            &files(&a, &n),
            &vec![experts(2), experts(2)],
            &dims()
        )),
        "missing manifest entry: layers.1.attn_q_a.weight (in mla/interleaved)"
    );
    let mut f = files(&a, &n);
    f.weights.remove(3);
    assert_eq!(
        refusal(load_dsv4_weights_from_vindex(&f, &vec![experts(2)], &dims())),
        "missing manifest entry: norm.weight (in weight_manifest)"
    );
}

// ---- geometry --------------------------------------------------------------------------------

fn config() -> VindexConfig {
    VindexConfig {
        hidden_size: 4096,
        vocab_size: 129280,
        num_layers: 43,
        model_config: Some(ModelConfig {
            model_type: text("deepseek4"),
            num_q_heads: 64,
            head_dim: 512,
            rope_base: 10000.0_f64.to_bits(),
            moe: Some(MoeConfig {
                num_experts: 256,
                top_k: 6,
                shared_expert: true,
                moe_intermediate_size: Some(2048),
            }),
        }),
    }
}

#[test]
fn a_configuration_gives_the_geometry() {
    let d = derive_dims(&config());
    assert_eq!((d.hidden, d.vocab, d.q_lora_rank, d.kv_lora_rank), (4096, 129280, 1024, 512));
    assert_eq!((d.n_heads, d.head_dim, d.output_intermediate, d.ffn_dim), (64, 512, 8192, 2048));
    assert_eq!((d.num_experts, d.experts_per_token, d.num_shared_experts), (256, 6, 1));
    assert_eq!((d.rope_dim, f64::from_bits(d.rope_base)), (64, 10000.0));
    assert_eq!((f32::from_bits(d.norm_eps), f32::from_bits(d.expert_weights_scale)), (1e-6, 1.5));
    let bare = VindexConfig { model_config: None, ..config() };
    assert_eq!(derive_dims(&bare), d);
    let mut other = config();
    let moe = MoeConfig {
        num_experts: 8,
        top_k: 2,
        shared_expert: false,
        moe_intermediate_size: None,
    };
    other.model_config.as_mut().unwrap().moe = Some(moe);
    let o = derive_dims(&other);
    assert_eq!((o.num_experts, o.experts_per_token, o.num_shared_experts, o.ffn_dim), (8, 2, 0, 2048));
}

#[test]
fn weights_show_the_configured_geometry() {
    let shapes = WeightShapes {
        embed: (129280, 4096),
        kv: (512, 4096),
        q_a: (1024, 4096),
        q_b: (64 * 512, 1024),
        output_a: (8192, 4096),
        shared_down: (4096, 2048),
        num_experts: 256,
    };
    assert_eq!(dsv4_dims_from_weights(&shapes), derive_dims(&config()));
}

#[test]
fn another_family_is_refused() {
    assert_eq!(
        family_message("/v", "'a'"),
        "expected deepseek4 vindex at /v, got 'a'"
    );
    assert!(check_family(&config(), "/v").is_ok());
    let mut c = config();
    c.model_config.as_mut().unwrap().model_type = text("llama");
    assert_eq!(
        refusal(check_family(&c, "/v")),
        "parse: expected deepseek4 vindex at /v, got \"llama\""
    );
    c.model_config.as_mut().unwrap().model_type = text("a\"b\n");
    assert_eq!(
        refusal(check_family(&c, "/v")),
        "parse: expected deepseek4 vindex at /v, got \"a\\\"b\\n\""
    );
    c.model_config = None;
    assert_eq!(refusal(check_family(&c, "/v")), "parse: expected deepseek4 vindex at /v, got \"\"");
}

#[test]
fn an_embedding_of_another_shape_is_refused() {
    assert!(check_embed(&config(), (129280, 4096)).is_ok());
    assert_eq!(
        refusal(check_embed(&config(), (4096, 129280))),
        "parse: embed shape [4096, 129280] mismatches vocab 129280 × hidden 4096"
    );
}

// ---- generating --------------------------------------------------------------------------------

#[test]
fn draws_are_kept_up_to_the_end_of_the_text() {
    let t = |id: u32| Draw::Token { id, is_eos: false };
    let eos = Draw::Token { id: 2, is_eos: true };
    assert_eq!(
        dsv4_generate_with_sampling(&[1], 5, &[t(7), t(8), eos, t(9)]),
        Ok(vec![7, 8])
    );
    assert_eq!(dsv4_generate_with_sampling(&[1], 2, &[t(7), t(8), t(9)]), Ok(vec![7, 8]));
    assert_eq!(dsv4_generate_with_sampling(&[1], 5, &[t(7), Draw::Nothing, t(9)]), Ok(vec![7]));
    assert_eq!(dsv4_generate_with_sampling(&[1], 0, &[t(7)]), Ok(vec![]));
    assert_eq!(
        dsv4_generate_with_sampling(&[], 5, &[t(7)]),
        Err(text("prompt_ids is empty"))
    );
}

#[test]
fn a_generation_runs_on_every_kept_token() {
    let mut g = Generation::start(3, 2).ok().unwrap();
    assert_eq!(g.offer(Draw::Token { id: 5, is_eos: false }), GenStep::Forward(5));
    assert!(!g.is_finished());
    assert_eq!(g.offer(Draw::Token { id: 6, is_eos: false }), GenStep::Forward(6));
    assert!(g.is_finished());
    assert_eq!(g.into_tokens(), vec![5, 6]);
    let mut g = Generation::start(3, 2).ok().unwrap();
    assert_eq!(g.offer(Draw::Nothing), GenStep::Stop);
    assert!(g.is_finished());
}

#[test]
fn a_decode_loop_stops_at_the_end_token_and_keeps_it() {
    let mut d = DecodeLoop::start(&[1, 2], 3, Some(9));
    assert_eq!(d.cache_rows(), 5);
    assert_eq!(d.accept(4), DecodeStep::Forward { token: 4, pos: 2 });
    assert_eq!(d.accept(9), DecodeStep::Stop);
    assert!(d.is_finished());
    assert_eq!(d.into_tokens(), vec![1, 2, 4, 9]);
}

#[test]
fn a_decode_loop_does_not_run_on_the_last_token() {
    let mut d = DecodeLoop::start(&[1], 2, None);
    assert_eq!(d.accept(4), DecodeStep::Forward { token: 4, pos: 1 });
    assert_eq!(d.accept(5), DecodeStep::Stop);
    assert_eq!(d.into_tokens(), vec![1, 4, 5]);
    assert!(DecodeLoop::start(&[1], 0, None).is_finished());
    assert_eq!(dsv4_generate(&[1], 2, None, &[4, 5, 6]), vec![1, 4, 5]);
    assert_eq!(dsv4_generate(&[1], 9, Some(5), &[4, 5, 6]), vec![1, 4, 5]);
    assert_eq!(dsv4_generate(&[1], 0, None, &[4]), vec![1]);
}

#[test]
fn what_a_layer_does_not_come_to_is_not_asked_of_it() {
    let (a, n) = (bytes_of(&AUX), bytes_of(&NORMS));
    let good = files(&a, &n);
    assert!(layers_readable(&good, &vec![experts(2)], &dims()));
    assert!(!has_lm_head(&good.weights));
    assert!(has_lm_head(&vec![weight("a", vec![1], 0, 4), weight("output.weight", vec![1], 0, 4)]));
    // A tensor without columns cannot be read.
    let mut flat = files(&a, &n);
    flat.mla[3].shape = vec![7];
    assert!(!attn_readable(&flat.mla, 0));
    assert!(!layers_readable(&flat, &vec![experts(2)], &dims()));
    // One that is missing before it is told first.
    flat.mla.remove(1);
    assert!(attn_readable(&flat.mla, 0));
    assert!(layers_readable(&flat, &vec![experts(2)], &dims()));
    assert_eq!(
        refusal(load_dsv4_weights_from_vindex(&flat, &vec![experts(2)], &dims())),
        "missing manifest entry: layers.0.attn_q_b.weight (in mla/interleaved)"
    );
    // The shared expert is not looked up where the expert file is refused.
    let mut shared = files(&a, &n);
    shared.interleaved[0].shape = vec![7];
    assert!(!moe_readable(&shared, 0, &dims(), &experts(2)));
    assert!(moe_readable(&shared, 0, &dims(), &experts(3)));
}
