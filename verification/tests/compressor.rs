//! Compressed attention rows: the layout of what is pooled, and whole runs of the
//! compressor on values.

use larql::attention::dsv4_compressor_prefill::{
    build_compressor_prefill, check_compressor, chunk_position, chunk_rows, pool_layout,
    CompressorFault, CompressorShapes, TableKernel,
};
use larql::attention::dsv4_params::{CompressorParams, DsV4RopeMode};
use larql::fbits::NEG_INFINITY;
use larql::tensor::{Cube, Matrix};
use ndarray::{Array2, Array3};

fn matrix(a: &Array2<f32>) -> Matrix {
    let flat: Vec<u32> = a.iter().map(|v| v.to_bits()).collect();
    Matrix::from_flat(a.nrows(), a.ncols(), flat).unwrap()
}

fn array2(m: &Matrix) -> Array2<f32> {
    Array2::from_shape_fn((m.nrows(), m.ncols()), |(r, c)| f32::from_bits(m.at(r, c)))
}

fn cube(a: &Array3<f32>) -> Cube {
    let (p, r, c) = a.dim();
    Cube::from_flat(p, r, c, a.iter().map(|v| v.to_bits()).collect()).unwrap()
}

fn array3(c: &Cube) -> Array3<f32> {
    Array3::from_shape_fn(c.dims(), |(p, r, k)| f32::from_bits(c.at(p, r, k)))
}

struct Weights {
    wkv: Array2<f32>,
    wgate: Array2<f32>,
    ape: Array2<f32>,
    norm: Vec<f32>,
}

fn shapes(x: &Array2<f32>, w: &Weights) -> CompressorShapes {
    CompressorShapes {
        x: x.dim(),
        wkv: w.wkv.dim(),
        wgate: w.wgate.dim(),
        ape: w.ape.dim(),
        norm: w.norm.len(),
    }
}

fn softmax_pool(kv: &Array3<f32>, score: &Array3<f32>) -> Array2<f32> {
    let (c, d, n) = kv.dim();
    Array2::from_shape_fn((c, d), |(i, j)| {
        let max = (0..n).map(|r| score[[i, j, r]]).fold(f32::NEG_INFINITY, f32::max);
        let w: Vec<f32> = (0..n).map(|r| (score[[i, j, r]] - max).exp()).collect();
        let sum: f32 = w.iter().sum();
        (0..n).map(|r| w[r] / sum * kv[[i, j, r]]).sum()
    })
}

fn rotate_tail(row: &mut [f32], n_rot: usize, base: f64, position: usize) {
    let start = row.len() - n_rot;
    let half = n_rot / 2;
    for i in 0..half {
        let angle = position as f64 * base.powf(-2.0 * i as f64 / n_rot as f64);
        let (s, c) = (angle.sin() as f32, angle.cos() as f32);
        let (a, b) = (row[start + i], row[start + half + i]);
        row[start + i] = a * c - b * s;
        row[start + half + i] = a * s + b * c;
    }
}

/// Runs the compressor on values.
fn run(x: &Array2<f32>, w: &Weights, p: &CompressorParams) -> Array2<f32> {
    let tables = |kernel: TableKernel, m: &Matrix| {
        let mut t = array2(m);
        match kernel {
            TableKernel::ProjectKv => t = t.dot(&w.wkv.t()),
            TableKernel::ProjectGate => t = t.dot(&w.wgate.t()),
            TableKernel::Norm => {
                for mut row in t.outer_iter_mut() {
                    let sumsq: f32 = row.iter().map(|v| v * v).sum();
                    let inv = 1.0 / (sumsq / row.len() as f32 + f32::from_bits(p.norm_eps)).sqrt();
                    for (v, g) in row.iter_mut().zip(&w.norm) {
                        *v = *v * inv * g;
                    }
                }
            }
            TableKernel::Rotate { ratio } => {
                for (c, mut row) in t.outer_iter_mut().enumerate() {
                    let mut values = row.to_vec();
                    let base = f64::from_bits(p.rope_base);
                    rotate_tail(&mut values, p.n_rot, base, chunk_position(c, ratio));
                    for (d, v) in values.into_iter().enumerate() {
                        row[d] = v;
                    }
                }
            }
        }
        matrix(&t)
    };
    let bias = |c: &Cube| cube(&(array3(c) + &w.ape));
    let pool = |kv: &Cube, score: &Cube| matrix(&softmax_pool(&array3(kv), &array3(score)));
    let y = build_compressor_prefill(&matrix(x), &shapes(x, w), p, &tables, &bias, &pool);
    array2(&y.unwrap())
}

fn params(head_dim: usize, n_embd: usize, compress_ratio: usize, n_rot: usize) -> CompressorParams {
    CompressorParams {
        head_dim,
        n_embd,
        compress_ratio,
        n_rot,
        rope_base: 10000.0_f64.to_bits(),
        rope_mode: DsV4RopeMode::Neox,
        norm_eps: 1e-5_f32.to_bits(),
    }
}

fn make_input(n_tokens: usize, n_embd: usize) -> Array2<f32> {
    Array2::from_shape_fn((n_tokens, n_embd), |(t, d)| ((t * 17 + d) as f32 * 0.013).sin())
}

#[test]
fn coff1_compress_ratio_2_shape_and_finite() {
    let p = params(16, 32, 2, 8);
    let coff = 1;
    let n_kv = coff * p.head_dim;
    let n_tokens = 10;
    let w = Weights {
        wkv: Array2::from_shape_fn((n_kv, p.n_embd), |(i, j)| {
            ((i * 3 + j) as f32 * 0.01).cos() * 0.1
        }),
        wgate: Array2::from_shape_fn((n_kv, p.n_embd), |(i, j)| {
            ((i * 5 + j) as f32 * 0.011).sin() * 0.1
        }),
        ape: Array2::from_shape_fn((p.compress_ratio, n_kv), |(r, k)| {
            ((r + k) as f32 * 0.05).sin() * 0.05
        }),
        norm: vec![1.0_f32; p.head_dim],
    };
    let x = make_input(n_tokens, p.n_embd);
    let out = run(&x, &w, &p);
    let n_comp = n_tokens / p.compress_ratio;
    assert_eq!(out.shape(), &[n_comp, p.head_dim]);
    assert!(out.iter().all(|v| v.is_finite()), "non-finite");
    let total: f32 = out.iter().map(|v| v.abs()).sum();
    assert!(total > 1e-3, "output collapsed (sum={total})");
}

#[test]
fn coff2_compress_ratio_4_shape_and_finite() {
    let p = params(16, 32, 4, 8);
    let coff = 2;
    let n_kv = coff * p.head_dim;
    let n_tokens = 16;
    let w = Weights {
        wkv: Array2::from_shape_fn((n_kv, p.n_embd), |(i, j)| {
            ((i + j) as f32 * 0.013).cos() * 0.1
        }),
        wgate: Array2::from_shape_fn((n_kv, p.n_embd), |(i, j)| {
            ((i + j) as f32 * 0.017).sin() * 0.1
        }),
        ape: Array2::from_shape_fn((p.compress_ratio, n_kv), |(r, k)| {
            ((r + k) as f32 * 0.03).sin() * 0.05
        }),
        norm: vec![1.0_f32; p.head_dim],
    };
    let x = make_input(n_tokens, p.n_embd);
    let out = run(&x, &w, &p);
    let n_comp = n_tokens / p.compress_ratio;
    assert_eq!(out.shape(), &[n_comp, p.head_dim]);
    assert!(out.iter().all(|v| v.is_finite()), "non-finite");
    let row0_norm: f32 = out.row(0).iter().map(|v| v.abs()).sum();
    assert!(row0_norm > 1e-3, "row 0 collapsed (sum={row0_norm})");
}

#[test]
fn truncates_remainder() {
    let p = params(8, 16, 3, 4);
    let coff = 1;
    let n_kv = coff * p.head_dim;
    let n_tokens = 10;
    let w = Weights {
        wkv: Array2::from_elem((n_kv, p.n_embd), 0.05),
        wgate: Array2::from_elem((n_kv, p.n_embd), 0.03),
        ape: Array2::zeros((p.compress_ratio, n_kv)),
        norm: vec![1.0; p.head_dim],
    };
    let x = make_input(n_tokens, p.n_embd);
    let out = run(&x, &w, &p);
    assert_eq!(out.shape(), &[3, p.head_dim]);
    assert!(out.iter().all(|v| v.is_finite()));
}

#[test]
fn position_distinguishes_compressed_rows() {
    let p = params(16, 32, 2, 16);
    let coff = 1;
    let n_kv = coff * p.head_dim;
    let n_tokens = 8;
    let w = Weights {
        wkv: Array2::from_elem((n_kv, p.n_embd), 0.05),
        wgate: Array2::from_elem((n_kv, p.n_embd), 0.03),
        ape: Array2::zeros((p.compress_ratio, n_kv)),
        norm: vec![1.0; p.head_dim],
    };
    let x = Array2::<f32>::from_elem((n_tokens, p.n_embd), 0.7);
    let out = run(&x, &w, &p);
    let diff_01: f32 = (0..p.head_dim).map(|d| (out[[0, d]] - out[[1, d]]).abs()).sum();
    let diff_12: f32 = (0..p.head_dim).map(|d| (out[[1, d]] - out[[2, d]]).abs()).sum();
    assert!(diff_01 > 1e-3, "rows 0/1 should differ (diff={diff_01})");
    assert!(diff_12 > 1e-3, "rows 1/2 should differ (diff={diff_12})");
}

#[test]
fn chunks_take_rows_in_order() {
    let rows = Matrix::from_flat(5, 2, vec![0, 1, 10, 11, 20, 21, 30, 31, 40, 41]).unwrap();
    let c = chunk_rows(&rows, 2);
    assert_eq!(c.dims(), (2, 2, 2));
    assert_eq!(c.at(0, 0, 1), 1);
    assert_eq!(c.at(0, 1, 0), 10);
    assert_eq!(c.at(1, 0, 0), 20);
    assert_eq!(c.at(1, 1, 1), 31);
}

#[test]
fn one_part_pools_over_the_chunk_alone() {
    let chunks = Cube::from_flat(2, 2, 3, (0..12).collect()).unwrap();
    let out = pool_layout(&chunks, 2, 3, 99);
    assert_eq!(out.dims(), (2, 3, 2));
    assert_eq!((out.at(0, 0, 0), out.at(0, 0, 1)), (0, 3));
    assert_eq!((out.at(1, 2, 0), out.at(1, 2, 1)), (8, 11));
}

#[test]
fn two_parts_pool_over_two_chunks() {
    // Two chunks of four rows of two halves of one word each.
    let chunks = Cube::from_flat(2, 4, 2, (0..16).collect()).unwrap();
    let out = pool_layout(&chunks, 4, 1, NEG_INFINITY);
    assert_eq!(out.dims(), (2, 1, 8));
    let row = |c: usize| -> Vec<u32> { (0..8).map(|r| out.at(c, 0, r)).collect() };
    let pad = NEG_INFINITY;
    assert_eq!(row(0), vec![pad, pad, pad, pad, 1, 3, 5, 7]);
    assert_eq!(row(1), vec![0, 2, 4, 6, 9, 11, 13, 15]);
}

#[test]
fn rows_behind_the_last_chunk_make_no_difference() {
    let whole = Matrix::from_flat(4, 1, vec![1, 2, 3, 4]).unwrap();
    let more = Matrix::from_flat(5, 1, vec![1, 2, 3, 4, 5]).unwrap();
    let (a, b) = (chunk_rows(&whole, 2), chunk_rows(&more, 2));
    assert_eq!(a.dims(), b.dims());
    for c in 0..2 {
        for r in 0..2 {
            assert_eq!(a.at(c, r, 0), b.at(c, r, 0));
        }
    }
}

#[test]
fn a_row_depends_on_no_later_chunk() {
    let p = params(8, 16, 4, 4);
    let n_kv = 2 * p.head_dim;
    let w = Weights {
        wkv: Array2::from_shape_fn((n_kv, p.n_embd), |(i, j)| ((i * 3 + j) as f32 * 0.1).sin()),
        wgate: Array2::from_shape_fn((n_kv, p.n_embd), |(i, j)| ((i + 2 * j) as f32 * 0.1).cos()),
        ape: Array2::from_elem((4, n_kv), 0.1),
        norm: vec![1.0; p.head_dim],
    };
    let a = make_input(13, p.n_embd);
    let mut b = a.clone();
    for t in 8..13 {
        b.row_mut(t).fill(0.25);
    }
    let (ya, yb) = (run(&a, &w, &p), run(&b, &w, &p));
    assert_eq!(ya.nrows(), 3);
    assert_eq!(ya.row(0), yb.row(0));
    assert_eq!(ya.row(1), yb.row(1));
    assert_ne!(ya.row(2), yb.row(2));
    let whole = Array2::from_shape_fn((12, p.n_embd), |at| a[at]);
    assert_eq!(run(&whole, &w, &p), ya);
}

#[test]
fn every_fault_of_a_compressor_is_found() {
    let p = params(8, 16, 3, 4);
    let good = CompressorShapes { x: (10, 16), wkv: (8, 16), wgate: (8, 16), ape: (3, 8), norm: 8 };
    assert_eq!(check_compressor(&good, &p), Ok(3));
    let bad = |s: CompressorShapes| check_compressor(&s, &p).err();
    assert_eq!(bad(CompressorShapes { x: (10, 15), ..good }), Some(CompressorFault::InputWidth));
    assert_eq!(bad(CompressorShapes { x: (2, 16), ..good }), Some(CompressorFault::TooFewTokens));
    assert_eq!(bad(CompressorShapes { wkv: (7, 16), ..good }), Some(CompressorFault::WkvShape));
    assert_eq!(bad(CompressorShapes { wgate: (8, 15), ..good }), Some(CompressorFault::WgateShape));
    assert_eq!(bad(CompressorShapes { ape: (2, 8), ..good }), Some(CompressorFault::ApeShape));
    assert_eq!(bad(CompressorShapes { norm: 7, ..good }), Some(CompressorFault::NormLength));
    let zero = params(8, 16, 0, 4);
    assert_eq!(check_compressor(&good, &zero), Err(CompressorFault::ZeroRatio));
    let tables = |_: TableKernel, _: &Matrix| -> Matrix { panic!("nothing is computed") };
    let bias = |_: &Cube| -> Cube { panic!("nothing is computed") };
    let pool = |_: &Cube, _: &Cube| -> Matrix { panic!("nothing is computed") };
    let x = Matrix::zeros(10, 16);
    let short = CompressorShapes { norm: 7, ..good };
    let refused = build_compressor_prefill(&x, &short, &p, &tables, &bias, &pool).err();
    assert_eq!(refused, Some(CompressorFault::NormLength));
    // A ratio of four takes weights of twice the width.
    let four = params(8, 16, 4, 4);
    let wide = CompressorShapes { x: (9, 16), wkv: (16, 16), wgate: (16, 16), ape: (4, 16), norm: 8 };
    assert_eq!(check_compressor(&wide, &four), Ok(2));
}

#[test]
fn chunks_are_rotated_to_their_first_token() {
    assert_eq!(chunk_position(0, 4), 0);
    assert_eq!(chunk_position(3, 4), 12);
}
