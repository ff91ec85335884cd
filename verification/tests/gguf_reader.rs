//! Tensors of one layer out of a file's tensors.
use larql::attention::dsv4_gguf_reader::{
    absolute_offset, element_count, plan_tensor_read, rekey_dsv4_layer_tensors, DsV4TensorKind,
    LayerTensors, NamedTensor, ParsedName, TensorInfo, WantedTensor,
};

fn layered(kind: DsV4TensorKind, layer: usize, value: f32, n: usize) -> NamedTensor {
    NamedTensor {
        name: Some(ParsedName { kind, per_layer: true, layer: Some(layer) }),
        words: vec![value.to_bits(); n],
    }
}

fn contains(t: &LayerTensors, kind: DsV4TensorKind) -> bool {
    t.get(kind).is_some()
}

#[test]
fn rekey_picks_only_requested_layer() {
    let raw = vec![
        layered(DsV4TensorKind::AttnNorm, 3, 1.0, 4),
        layered(DsV4TensorKind::AttnQA, 3, 2.0, 8),
        layered(DsV4TensorKind::AttnNorm, 4, 9.0, 4),
        NamedTensor {
            name: Some(ParsedName {
                kind: DsV4TensorKind::TokenEmbd,
                per_layer: false,
                layer: None,
            }),
            words: vec![0; 16],
        },
        NamedTensor { name: None, words: vec![5.0f32.to_bits(); 4] },
    ];
    let out = rekey_dsv4_layer_tensors(raw, 3);
    assert_eq!(out.len(), 2);
    assert_eq!(out.get(DsV4TensorKind::AttnNorm).unwrap()[0], 1.0f32.to_bits());
    assert_eq!(out.get(DsV4TensorKind::AttnQA).unwrap()[0], 2.0f32.to_bits());
}

#[test]
fn rekey_handles_indexer_dotted_names() {
    let raw = vec![
        layered(DsV4TensorKind::IndexerAttnQB, 5, 1.0, 8),
        layered(DsV4TensorKind::IndexerProj, 5, 2.0, 4),
    ];
    let out = rekey_dsv4_layer_tensors(raw, 5);
    assert_eq!(out.len(), 2);
    assert!(contains(&out, DsV4TensorKind::IndexerAttnQB));
    assert!(contains(&out, DsV4TensorKind::IndexerProj));
}

#[test]
fn rekey_handles_no_suffix_exp_probs_b() {
    let words: Vec<u32> = [1.0f32, 2.0, 3.0].iter().map(|v| v.to_bits()).collect();
    let raw = vec![NamedTensor {
        name: Some(ParsedName {
            kind: DsV4TensorKind::FfnExpProbsB,
            per_layer: true,
            layer: Some(2),
        }),
        words: words.clone(),
    }];
    let out = rekey_dsv4_layer_tensors(raw, 2);
    assert_eq!(out.len(), 1);
    assert_eq!(out.get(DsV4TensorKind::FfnExpProbsB).unwrap(), &words);
}

#[test]
fn rekey_layer_mismatch_drops_everything() {
    let raw = vec![
        layered(DsV4TensorKind::AttnNorm, 0, 1.0, 4),
        layered(DsV4TensorKind::AttnNorm, 1, 2.0, 4),
    ];
    let out = rekey_dsv4_layer_tensors(raw, 7);
    assert_eq!(out.len(), 0);
}

#[test]
fn rekey_empty_input_yields_empty_output() {
    let out = rekey_dsv4_layer_tensors(Vec::new(), 0);
    assert_eq!(out.len(), 0);
}

#[test]
fn a_later_tensor_of_a_kind_replaces_an_earlier_one() {
    let mut t = LayerTensors::new();
    t.insert(DsV4TensorKind::AttnKv, vec![1]);
    t.insert(DsV4TensorKind::AttnKv, vec![2, 3]);
    assert_eq!(t.len(), 1);
    assert_eq!(t.get(DsV4TensorKind::AttnKv).unwrap(), &vec![2, 3]);
    t.remove(DsV4TensorKind::AttnKv);
    assert_eq!(t.len(), 0);
    assert!(t.get(DsV4TensorKind::AttnKv).is_none());
}

#[test]
fn offsets_add_up_or_overflow() {
    assert_eq!(absolute_offset(100, 28), Some(128));
    assert_eq!(absolute_offset(u64::MAX, 1), None);
}

#[test]
fn elements_are_the_product_of_the_dims() {
    assert_eq!(element_count(&[3, 4, 5]), 60);
    assert_eq!(element_count(&[]), 1);
}

#[test]
fn a_read_is_planned_only_for_a_wanted_tensor() {
    let want = vec![WantedTensor {
        name: String::from("blk.3.attn_norm.weight"),
        kind: DsV4TensorKind::AttnNorm,
    }];
    let info = TensorInfo {
        name: String::from("blk.3.attn_norm.weight"),
        data_offset: 1000,
        offset: 24,
        dims: vec![64],
    };
    let read = plan_tensor_read(&info, &want, 3).unwrap().unwrap();
    assert_eq!(read.kind, DsV4TensorKind::AttnNorm);
    assert_eq!(read.at, 1024);
    assert_eq!(read.elements, 64);
    let other = TensorInfo { name: String::from("output.weight"), ..info };
    assert!(plan_tensor_read(&other, &want, 3).unwrap().is_none());
}

#[test]
fn an_overflowing_offset_is_refused() {
    let want = vec![WantedTensor {
        name: String::from("t"),
        kind: DsV4TensorKind::AttnNorm,
    }];
    let info = TensorInfo {
        name: String::from("t"),
        data_offset: u64::MAX,
        offset: 1,
        dims: vec![1],
    };
    assert!(plan_tensor_read(&info, &want, 0).is_err());
}
