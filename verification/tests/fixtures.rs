//! Synthetic models and their tokenizer.

use larql::engines::test_utils::{
    draw_words, lcg_next, make_gemma3_test_weights, make_starcoder2_test_weights,
    make_test_tokenizer, make_test_vindex, make_test_weights, make_test_weights_with,
    rand_mat_seeded, FixtureWeights, SyntheticDims, TensorRole, VectorRole,
};

fn has_vector(w: &FixtureWeights, role: VectorRole, layer: usize) -> bool {
    w.vectors.iter().any(|v| v.role == role && v.layer == layer)
}

fn shape(w: &FixtureWeights, role: TensorRole) -> (usize, usize) {
    let t = w.tensors.iter().find(|t| t.role == role).unwrap();
    (t.draws.nrows(), t.draws.ncols())
}

#[test]
fn gemma3_fixture_has_qk_norm_and_post_norm_keys() {
    let w = make_gemma3_test_weights();
    for layer in 0..w.dims.num_layers {
        assert!(has_vector(&w, VectorRole::QNorm, layer), "missing q_norm of layer {layer}");
        assert!(has_vector(&w, VectorRole::KNorm, layer), "missing k_norm of layer {layer}");
        assert!(has_vector(&w, VectorRole::PreFfnNorm, layer));
        assert!(has_vector(&w, VectorRole::PostFfnNorm, layer));
    }
    // Norms are saved as what they add to one.
    assert!(w.vectors.iter().all(|v| v.fill == 0));
    assert_eq!(w.settings.model_type(), "gemma3");
}

#[test]
fn starcoder2_fixture_has_layernorm_and_biases() {
    let w = make_starcoder2_test_weights();
    assert_eq!(w.settings.model_type(), "starcoder2");
    for layer in 0..w.dims.num_layers {
        assert!(has_vector(&w, VectorRole::QBias, layer), "missing q bias of layer {layer}");
        assert!(has_vector(&w, VectorRole::UpBias, layer), "missing up bias of layer {layer}");
        assert!(has_vector(&w, VectorRole::InputNorm, layer));
    }
    let bias = w.vectors.iter().find(|v| v.role == VectorRole::UpBias).unwrap();
    assert_eq!(f32::from_bits(bias.fill), 0.01);
    assert_eq!(bias.len, w.dims.intermediate);
}

#[test]
fn gemma3_fixture_shape_matches_dims() {
    let w = make_gemma3_test_weights();
    assert_eq!(w.dims.num_layers, 2);
    assert_eq!(shape(&w, TensorRole::Embed), (w.dims.vocab, w.dims.hidden));
    assert_eq!(shape(&w, TensorRole::LmHead), (w.dims.vocab, w.dims.hidden));
}

#[test]
fn starcoder2_fixture_shape_matches_dims() {
    let w = make_starcoder2_test_weights();
    assert_eq!(w.dims.num_layers, 2);
    assert_eq!(shape(&w, TensorRole::Embed), (w.dims.vocab, w.dims.hidden));
    assert_eq!(shape(&w, TensorRole::LmHead), (w.dims.vocab, w.dims.hidden));
}

#[test]
fn the_generator_is_the_known_one() {
    assert_eq!(lcg_next(0), 1442695040888963407);
    assert_eq!(
        lcg_next(0xdead_beef),
        0xdead_beef_u64.wrapping_mul(6364136223846793005).wrapping_add(1442695040888963407)
    );
    let (words, state) = draw_words(0, 1);
    assert_eq!(words, vec![1442695040888963407_u64 as u32]);
    assert_eq!(state, 1442695040888963407);
}

#[test]
fn draws_go_on_where_they_stopped() {
    let (all, end) = draw_words(42, 7);
    let (head, middle) = draw_words(42, 3);
    let (tail, last) = draw_words(middle, 4);
    assert_eq!(all, [head, tail].concat());
    assert_eq!(end, last);
}

#[test]
fn a_matrix_is_drawn_row_by_row() {
    let (m, state) = rand_mat_seeded(2, 3, 9);
    let (words, end) = draw_words(9, 6);
    assert_eq!([m.row(0), m.row(1)].concat(), words);
    assert_eq!(state, end);
}

#[test]
fn the_plain_fixture_draws_from_one_stream() {
    let w = make_test_weights();
    assert_eq!(w.dims, SyntheticDims::tiny());
    assert_eq!(w.tensors.len(), 2 + 7 * 2);
    let roles: Vec<TensorRole> = w.tensors[2..9].iter().map(|t| t.role).collect();
    assert_eq!(
        roles,
        vec![
            TensorRole::AttnQ,
            TensorRole::AttnK,
            TensorRole::AttnV,
            TensorRole::AttnO,
            TensorRole::FfnGate,
            TensorRole::FfnUp,
            TensorRole::FfnDown,
        ]
    );
    let mut state = 0xdead_beef;
    for t in &w.tensors {
        for r in 0..t.draws.nrows() {
            let (words, next) = draw_words(state, t.draws.ncols());
            assert_eq!(t.draws.row(r), words);
            state = next;
        }
    }
    assert_eq!(shape(&w, TensorRole::AttnK), (8, 16));
    assert_eq!(shape(&w, TensorRole::FfnDown), (16, 32));
    assert_eq!(f32::from_bits(w.vectors[0].fill), 1.0);
}

#[test]
fn the_other_fixtures_seed_every_tensor() {
    const STEP: u64 = 0x9e37_79b9_7f4a_7c15;
    for (w, embed, head, base) in [
        (make_gemma3_test_weights(), 0x9e37_79b9, 0xa1b2_c3d4, 0xdead_beef_u64),
        (make_starcoder2_test_weights(), 0x1234_5678, 0x8765_4321, 0xfeed_babe_u64),
    ] {
        let mut seeds = vec![embed, head];
        for i in 1..=14_u64 {
            seeds.push(base.wrapping_add(STEP.wrapping_mul(i)));
        }
        for (t, seed) in w.tensors.iter().zip(seeds) {
            assert_eq!(t.draws.row(0), draw_words(seed, t.draws.ncols()).0);
        }
    }
    let star = make_starcoder2_test_weights();
    let roles: Vec<TensorRole> = star.tensors[6..9].iter().map(|t| t.role).collect();
    assert_eq!(roles, vec![TensorRole::FfnUp, TensorRole::FfnDown, TensorRole::FfnGate]);
}

#[test]
fn other_sizes_can_be_asked_for() {
    let d = SyntheticDims { vocab: 5, hidden: 4, num_layers: 1, ..SyntheticDims::tiny() };
    let w = make_test_weights_with(d);
    assert_eq!(shape(&w, TensorRole::Embed), (5, 4));
    assert_eq!(w.tensors.len(), 9);
    assert_eq!(SyntheticDims::gemma_3_4b_like().vocab, 262144);
    assert_eq!(SyntheticDims::gemma_3_4b_4layer().num_layers, 4);
}

#[test]
fn every_layer_has_gate_vectors_of_its_own() {
    let d = SyntheticDims::tiny();
    let gates = make_test_vindex(d);
    assert_eq!(gates.len(), 2);
    let second = 0xab_cdef_u64.wrapping_add(0x9e37_79b9_7f4a_7c15);
    assert_eq!(gates[0].row(0), draw_words(0xab_cdef, d.hidden).0);
    assert_eq!(gates[1].row(0), draw_words(second, d.hidden).0);
    assert_eq!((gates[1].nrows(), gates[1].ncols()), (32, 16));
}

#[test]
fn the_tokenizer_knows_every_token() {
    let t = make_test_tokenizer(32);
    assert_eq!(t.get_vocab_size(false), 32);
    for i in 0..32 {
        assert_eq!(t.token_to_id(&format!("[{i}]")), Some(i));
        assert_eq!(t.id_to_token(i), Some(format!("[{i}]")));
        assert_eq!(t.decode(&[i], false).unwrap(), format!("[{i}]"));
    }
    assert_eq!(t.token_to_id("[32]"), None);
    assert_eq!(t.id_to_token(32), None);
    assert!(t.encode("other", false).is_err());
    assert_eq!(make_test_tokenizer(1).get_vocab_size(false), 1);
    assert_eq!(make_test_tokenizer(0).get_vocab_size(false), 0);
}

#[test]
fn the_fixtures_are_scaled_as_their_kind_says() {
    let value = |bits: Option<u64>| bits.map(f64::from_bits);
    let g = make_gemma3_test_weights().settings;
    assert_eq!(value(g.residual_multiplier), Some(0.5));
    assert_eq!(value(g.attention_multiplier), None);
    assert_eq!(value(g.rope_theta), Some(10000.0));
    let s = make_starcoder2_test_weights().settings;
    assert_eq!(value(s.residual_multiplier), Some(0.5));
    assert_eq!(value(s.attention_multiplier), Some(2.0));
    assert_eq!(value(s.rope_theta), None);
    assert_eq!(f64::from_bits(s.rope_base), 10000.0);
    let t = make_test_weights().settings;
    assert_eq!(t.model_type(), "tinymodel");
    assert_eq!((t.rope_theta, t.residual_multiplier, t.attention_multiplier), (None, None, None));
    assert_eq!(f64::from_bits(t.rope_base), 10000.0);
}
