//! The file format of a layer's attention weights.
use larql::attention::dsv4_gguf_reader::RawExpertTensor;
use larql::attention::dsv4_vindex_attn::{
    deserialize_dsv4_attn, put_f32_vec, put_raw, put_u32, serialize_dsv4_attn, Cursor,
    DsV4AttnPersistError, DsV4AttnWeights,
};

const TYPE_F32: u32 = 0;

fn raw(rows: usize, cols: usize, seed: u8) -> RawExpertTensor {
    RawExpertTensor {
        bytes: (0..rows * cols)
            .flat_map(|i| ((i as f32) * 0.001 + seed as f32).to_le_bytes())
            .collect(),
        tensor_type: TYPE_F32,
        rows,
        cols,
    }
}

fn fill(v: f32, n: usize) -> Vec<u32> {
    vec![v.to_bits(); n]
}

fn sample(sinks: bool) -> DsV4AttnWeights {
    DsV4AttnWeights {
        q_a: raw(16, 64, 1),
        q_b: raw(256, 16, 2),
        kv_latent: raw(8, 64, 3),
        output_a: raw(16, 32, 4),
        output_b: raw(64, 16, 5),
        attn_norm: fill(1.0, 64),
        q_a_norm: fill(0.5, 16),
        kv_a_norm: fill(0.25, 8),
        attn_sinks: if sinks { Some(fill(-1.0, 4)) } else { None },
    }
}

fn assert_raw_eq(a: &RawExpertTensor, b: &RawExpertTensor) {
    assert_eq!(a.tensor_type, b.tensor_type);
    assert_eq!(a.rows, b.rows);
    assert_eq!(a.cols, b.cols);
    assert_eq!(a.bytes, b.bytes, "raw bytes differ");
}

#[test]
fn attn_weights_round_trip_losslessly() {
    let w = sample(true);
    let blob = serialize_dsv4_attn(&w);
    let got = deserialize_dsv4_attn(&blob).unwrap();
    assert_raw_eq(&got.q_a, &w.q_a);
    assert_raw_eq(&got.q_b, &w.q_b);
    assert_raw_eq(&got.kv_latent, &w.kv_latent);
    assert_raw_eq(&got.output_a, &w.output_a);
    assert_raw_eq(&got.output_b, &w.output_b);
    assert_eq!(got.attn_norm, w.attn_norm);
    assert_eq!(got.q_a_norm, w.q_a_norm);
    assert_eq!(got.kv_a_norm, w.kv_a_norm);
    assert_eq!(got.attn_sinks, w.attn_sinks);
}

#[test]
fn no_sinks_round_trips() {
    let w = sample(false);
    let got = deserialize_dsv4_attn(&serialize_dsv4_attn(&w)).unwrap();
    assert!(got.attn_sinks.is_none());
    assert_raw_eq(&got.q_b, &w.q_b);
}

#[test]
fn malformed_blobs_are_typed_errors() {
    let w = sample(true);
    let good = serialize_dsv4_attn(&w);

    let mut bad_magic = good.clone();
    bad_magic[0] = b'X';
    assert!(matches!(
        deserialize_dsv4_attn(&bad_magic),
        Err(DsV4AttnPersistError::BadMagic(_))
    ));

    let mut bad_ver = good.clone();
    bad_ver[4] = 0xFF;
    bad_ver[5] = 0xFF;
    assert!(matches!(
        deserialize_dsv4_attn(&bad_ver),
        Err(DsV4AttnPersistError::UnsupportedVersion(0xFFFF))
    ));

    for cut in 0..good.len() {
        assert!(
            deserialize_dsv4_attn(&good[..cut]).is_err(),
            "truncation at {cut} must error"
        );
    }
}

#[test]
fn header_is_magic_and_version() {
    let blob = serialize_dsv4_attn(&sample(false));
    assert_eq!(&blob[0..4], b"D4VA");
    assert_eq!(&blob[4..6], &[1, 0]);
}

#[test]
fn pieces_are_little_endian() {
    let mut out: Vec<u8> = Vec::new();
    put_u32(&mut out, 0x0403_0201);
    assert_eq!(out, vec![1, 2, 3, 4]);
    let mut out: Vec<u8> = Vec::new();
    put_f32_vec(&mut out, &vec![1.0f32.to_bits()]);
    assert_eq!(out, vec![1, 0, 0, 0, 0, 0, 0x80, 0x3f]);
}

#[test]
fn cursor_reads_back_what_was_put() {
    let t = raw(2, 3, 9);
    let mut out: Vec<u8> = Vec::new();
    put_raw(&mut out, &t);
    put_u32(&mut out, 77);
    let mut c = Cursor::new(&out);
    let got = c.read_raw("tensor").unwrap();
    assert_raw_eq(&got, &t);
    assert_eq!(c.read_u32("tail").unwrap(), 77);
    assert!(c.read_u8("end").is_err());
}

#[test]
fn truncation_says_what_and_how_much() {
    let bytes = [1u8, 2];
    let mut c = Cursor::new(&bytes);
    let e = c.read_u32("count").unwrap_err();
    match &e {
        DsV4AttnPersistError::Truncated { what, need, have } => {
            assert_eq!((*what, *need, *have), ("count", 4, 2));
        }
        other => panic!("wrong error {}", other.message()),
    }
}

#[test]
fn messages_of_every_refusal() {
    let mut bad = serialize_dsv4_attn(&sample(false));
    bad[4] = 9;
    let e = deserialize_dsv4_attn(&bad).err().unwrap();
    assert!(e.message().contains("9"));
    let e = deserialize_dsv4_attn(&[]).err().unwrap();
    assert!(matches!(e, DsV4AttnPersistError::Truncated { .. }));
    assert!(!e.message().is_empty());
}

#[test]
fn round_tripped_raw_builds_quant_tensor() {
    let w = sample(false);
    let got = deserialize_dsv4_attn(&serialize_dsv4_attn(&w)).unwrap();
    assert_eq!(got.q_b.tensor_type, TYPE_F32);
    let values: Vec<f32> = got
        .q_b
        .bytes
        .chunks_exact(4)
        .map(|c| f32::from_le_bytes([c[0], c[1], c[2], c[3]]))
        .collect();
    let table = ndarray::Array2::from_shape_vec((got.q_b.rows, got.q_b.cols), values)
        .expect("a table of the round-tripped q_b");
    assert_eq!(table.shape(), [256, 16]);
    assert_eq!(table[[1, 0]], 16.0 * 0.001 + 2.0);
}

#[test]
fn a_failed_read_keeps_what_comes_behind_the_whole_numbers() {
    let bytes: Vec<u8> = (0..10).collect();
    let mut c = Cursor::new(&bytes);
    match c.read_raw("q_a").err() {
        Some(DsV4AttnPersistError::Truncated { what: "q_a", need: 4, have: 2 }) => {}
        other => panic!("wrong error: {other:?}"),
    }
    assert_eq!(c.read_u16("rest").ok(), Some(0x0908));
    let mut c = Cursor::new(&[5, 0, 0, 0, 1, 2]);
    match c.read_f32_vec("norm").err() {
        Some(DsV4AttnPersistError::Truncated { what: "norm", need: 20, have: 2 }) => {}
        other => panic!("wrong error: {other:?}"),
    }
    assert_eq!(c.read_u16("rest").ok(), Some(0x0201));
}
