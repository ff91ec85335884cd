//! Arrays, bytes, texts and bit patterns.

use larql::attention::quant_dispatch::{
    class_on_device, ggml_type_to_quant_format, gpu_switch, matvec_route, GpuClass, MatvecRoute,
    QuantFormat,
};
use larql::fbits::{at_least, less, nan, rank_of, zero};
use larql::tensor::{Cube, Matrix};
use larql::text::{copy_text, decimal_list_text, decimal_text, same_text};
use larql::words::{push_le, push_words, read_words, value_le};
use ndarray::{Array1, Array2};

#[test]
fn matrices_are_row_major() {
    let m = Matrix::from_flat(2, 3, vec![1, 2, 3, 4, 5, 6]).unwrap();
    assert_eq!((m.nrows(), m.ncols()), (2, 3));
    assert_eq!(m.at(1, 0), 4);
    assert_eq!(m.row(0), vec![1, 2, 3]);
    assert!(Matrix::from_flat(2, 3, vec![1, 2]).is_none());
    assert!(Matrix::from_flat(usize::MAX, 3, vec![]).is_none());
    let empty = Matrix::from_flat(0, 3, vec![]).unwrap();
    assert_eq!((empty.nrows(), empty.ncols()), (0, 3));
}

#[test]
fn matrices_can_be_written() {
    let mut m = Matrix::zeros(2, 2);
    m.put(0, 1, 7);
    assert_eq!([m.row(0), m.row(1)].concat(), vec![0, 7, 0, 0]);
    m.put_row(1, &[8, 9]);
    assert_eq!([m.row(0), m.row(1)].concat(), vec![0, 7, 8, 9]);
}

#[test]
fn a_transpose_swaps_rows_and_columns() {
    let m = Matrix::from_flat(2, 3, vec![1, 2, 3, 4, 5, 6]).unwrap();
    let t = m.transpose();
    assert_eq!((t.nrows(), t.ncols()), (3, 2));
    assert_eq!(t.row(2), vec![3, 6]);
    assert_eq!(t.transpose().row(1), m.row(1));
}

#[test]
fn cubes_are_planes_of_rows() {
    let mut c = Cube::from_flat(2, 2, 2, (0..8).collect()).unwrap();
    assert_eq!(c.dims(), (2, 2, 2));
    assert_eq!(c.at(1, 0, 1), 5);
    c.put(1, 0, 1, 50);
    assert_eq!(c.at(1, 0, 1), 50);
    assert_eq!(c.at(1, 1, 1), 7);
    assert!(Cube::from_flat(2, 2, 2, vec![0; 7]).is_none());
    let z = Cube::zeros(1, 2, 3);
    assert_eq!((z.dims(), z.at(0, 1, 2)), ((1, 2, 3), 0));
}

#[test]
fn numbers_are_written_least_significant_byte_first() {
    let mut out = vec![9];
    push_le(&mut out, 0x0102, 4);
    assert_eq!(out, vec![9, 2, 1, 0, 0]);
    assert_eq!(value_le(&[2, 1, 0, 0]), 0x0102);
    assert_eq!(value_le(&[]), 0);
    assert_eq!(value_le(&[0xff; 8]), u64::MAX);
}

#[test]
fn words_come_back_from_their_bytes() {
    let words = vec![1, 0xdead_beef, 0];
    let mut out = Vec::new();
    push_words(&mut out, &words);
    assert_eq!(out.len(), 12);
    assert_eq!(out[4..8], [0xef, 0xbe, 0xad, 0xde]);
    assert_eq!(read_words(&out), words);
    // Bytes that make no whole word are left out.
    assert_eq!(read_words(&out[..7]), vec![1]);
}

#[test]
fn numbers_have_decimal_texts() {
    assert_eq!(decimal_text(0), "0");
    assert_eq!(decimal_text(907), "907");
    assert_eq!(decimal_text(u64::MAX), u64::MAX.to_string());
    assert_eq!(decimal_list_text(&[]), "");
    assert_eq!(decimal_list_text(&[3]), "3");
    assert_eq!(decimal_list_text(&[3, 40, 5]), "3, 40, 5");
}

#[test]
fn texts_are_compared_and_copied() {
    assert!(same_text(&String::from("abc"), "abc"));
    assert!(!same_text(&String::from("abc"), "abd"));
    assert_eq!(copy_text("abc"), "abc");
}

#[test]
fn patterns_are_ordered_like_their_values() {
    let values = [f32::NEG_INFINITY, -2.5, -1e-40, -0.0, 0.0, 1e-40, 1.0, f32::INFINITY];
    for a in values {
        for b in values {
            assert_eq!(less(a.to_bits(), b.to_bits()), a < b, "{a} < {b}");
            assert_eq!(at_least(a.to_bits(), b.to_bits()), a >= b, "{a} >= {b}");
        }
        assert!(!nan(a.to_bits()));
        assert!(!less(a.to_bits(), f32::NAN.to_bits()));
        assert!(!at_least(a.to_bits(), f32::NAN.to_bits()));
        assert_eq!(zero(a.to_bits()), a == 0.0);
    }
    assert!(nan(f32::NAN.to_bits()));
    assert!(nan(0xffff_ffff));
    assert_eq!(rank_of(0.0_f32.to_bits()), 0);
    assert_eq!(rank_of(1.0_f32.to_bits()), -rank_of((-1.0_f32).to_bits()));
}

#[test]
fn formats_of_storage_types() {
    assert_eq!(ggml_type_to_quant_format(12), Some(QuantFormat::Q4_K));
    assert_eq!(ggml_type_to_quant_format(14), Some(QuantFormat::Q6_K));
    assert_eq!(ggml_type_to_quant_format(0), Some(QuantFormat::F32));
    assert_eq!(ggml_type_to_quant_format(8), None);
}

#[test]
fn no_backend_falls_back_to_cpu_matvec() {
    let rows = 5;
    let cols = 4;
    let values: Vec<f32> = (0..rows * cols).map(|i| i as f32 * 0.1).collect();
    let w = Array2::from_shape_vec((rows, cols), values).unwrap();
    let x = Array1::from(vec![0.5_f32, -0.25, 0.125, 1.0]);
    let cpu = w.dot(&x);
    let dispatched = match matvec_route(0, false) {
        MatvecRoute::Host => w.dot(&x),
        MatvecRoute::Device(_) => panic!("there is no device"),
    };
    for r in 0..rows {
        assert!(
            (cpu[r] - dispatched[r]).abs() < 1e-6,
            "row {r}: cpu={} dispatched={}",
            cpu[r],
            dispatched[r],
        );
    }
}

#[test]
fn a_device_is_tried_where_it_knows_the_type() {
    assert_eq!(matvec_route(12, true), MatvecRoute::Device(QuantFormat::Q4_K));
    assert_eq!(matvec_route(12, false), MatvecRoute::Host);
    assert_eq!(matvec_route(13, true), MatvecRoute::Host);
}

#[test]
fn a_switch_keeps_a_class_off_the_device() {
    assert_eq!(gpu_switch(GpuClass::AttnProj), "LARQL_QWEN35_GPU_NO_ATTN_PROJ");
    assert_eq!(gpu_switch(GpuClass::Ffn), "LARQL_QWEN35_GPU_NO_FFN");
    assert_eq!(gpu_switch(GpuClass::LmHead), "LARQL_QWEN35_GPU_NO_LM_HEAD");
    assert!(class_on_device(&None));
    assert!(class_on_device(&Some(String::from("0"))));
    assert!(!class_on_device(&Some(String::from("1"))));
}
