//! Attention with an additive mask: which scores there are, when a row attends to
//! nothing, and whole runs on values.

use std::cell::RefCell;

use larql::attention::dsv4_masked_attn::{
    check_masked_attn, dsv4_masked_attn, softmax_peak, MaskedAttnFault, MaskedAttnShapes,
};
use larql::tensor::Matrix;
use ndarray::{Array1, Array2};

fn approx_eq(a: f32, b: f32, tol: f32) -> bool {
    (a - b).abs() <= tol
}

fn matrix(a: &Array2<f32>) -> Matrix {
    let flat: Vec<u32> = a.iter().map(|v| v.to_bits()).collect();
    Matrix::from_flat(a.nrows(), a.ncols(), flat).unwrap()
}

fn float(w: u32) -> f32 {
    f32::from_bits(w)
}

/// The values, averaged by the softmax of the scores; what is behind the keys'
/// scores takes part in the sum alone.
fn average(scores: &Vec<u32>, peak: u32, v: &Matrix) -> Vec<u32> {
    let w: Vec<f32> = scores.iter().map(|&s| (float(s) - float(peak)).exp()).collect();
    let sum: f32 = w.iter().sum();
    (0..v.ncols())
        .map(|d| {
            let acc: f32 = (0..v.nrows()).map(|j| w[j] * float(v.at(j, d))).sum();
            (acc / sum).to_bits()
        })
        .collect()
}

/// Runs the library's attention on values.
fn attend(
    q: &Array2<f32>,
    k: &Array2<f32>,
    v: &Array2<f32>,
    mask: &Array2<f32>,
    n_head: usize,
    head_dim: usize,
    sinks: Option<&Array1<f32>>,
    scale: f32,
) -> Array2<f32> {
    let score = |query: &Vec<u32>, key: &Vec<u32>, mask: u32| {
        let dot: f32 = query.iter().zip(key).map(|(&a, &b)| float(a) * float(b)).sum();
        (dot * scale + float(mask)).to_bits()
    };
    let sinks: Option<Vec<u32>> = sinks.map(|s| s.iter().map(|v| v.to_bits()).collect());
    let out = dsv4_masked_attn(
        &matrix(q),
        &matrix(k),
        &matrix(v),
        &matrix(mask),
        n_head,
        head_dim,
        sinks.as_ref(),
        &score,
        &average,
    )
    .unwrap();
    Array2::from_shape_fn((out.nrows(), out.ncols()), |(t, c)| float(out.at(t, c)))
}

#[test]
fn zero_mask_matches_unmasked_mqa() {
    let n_tokens = 3;
    let n_head = 2;
    let head_dim = 4;
    let n_kv = 5;
    let scale = 1.0 / (head_dim as f32).sqrt();
    let q = Array2::<f32>::from_shape_fn((n_tokens, n_head * head_dim), |(t, d)| {
        ((t * 3 + d) as f32 * 0.1).sin()
    });
    let k = Array2::<f32>::from_shape_fn((n_kv, head_dim), |(j, d)| {
        ((j * 7 + d) as f32 * 0.11).cos()
    });
    let v = Array2::<f32>::from_shape_fn((n_kv, head_dim), |(j, d)| {
        ((j * 5 + d) as f32 * 0.09).sin()
    });
    let mask = Array2::<f32>::zeros((n_tokens, n_kv));
    let out = attend(&q, &k, &v, &mask, n_head, head_dim, None, scale);
    for t in 0..n_tokens {
        for h in 0..n_head {
            let q_off = h * head_dim;
            let scores: Vec<f32> = (0..n_kv)
                .map(|j| {
                    let mut a = 0.0_f32;
                    for d in 0..head_dim {
                        a += q[[t, q_off + d]] * k[[j, d]];
                    }
                    a * scale
                })
                .collect();
            let mx = scores.iter().cloned().fold(f32::NEG_INFINITY, f32::max);
            let exps: Vec<f32> = scores.iter().map(|s| (s - mx).exp()).collect();
            let sum: f32 = exps.iter().sum();
            for d in 0..head_dim {
                let want: f32 = (0..n_kv).map(|j| exps[j] * v[[j, d]]).sum::<f32>() / sum;
                assert!(
                    approx_eq(out[[t, q_off + d]], want, 1e-5),
                    "t={t} h={h} d={d}: got {} want {}",
                    out[[t, q_off + d]],
                    want
                );
            }
        }
    }
}

/// Attention over a window of the last tokens, straight from its definition.
fn sliding_window(
    q: &Array2<f32>,
    k: &Array2<f32>,
    v: &Array2<f32>,
    n_head: usize,
    head_dim: usize,
    window: usize,
    scale: f32,
) -> Array2<f32> {
    let mut out = Array2::<f32>::zeros(q.dim());
    for t in 0..q.nrows() {
        let first = t.saturating_sub(window - 1);
        for h in 0..n_head {
            let scores: Vec<f32> = (first..=t)
                .map(|j| {
                    (0..head_dim).map(|d| q[[t, h * head_dim + d]] * k[[j, d]]).sum::<f32>() * scale
                })
                .collect();
            let mx = scores.iter().cloned().fold(f32::NEG_INFINITY, f32::max);
            let exps: Vec<f32> = scores.iter().map(|s| (s - mx).exp()).collect();
            let sum: f32 = exps.iter().sum();
            for d in 0..head_dim {
                out[[t, h * head_dim + d]] =
                    exps.iter().enumerate().map(|(i, e)| e * v[[first + i, d]]).sum::<f32>() / sum;
            }
        }
    }
    out
}

#[test]
fn swa_mask_matches_sliding_window_attn() {
    let n_tokens = 5;
    let n_head = 2;
    let head_dim = 4;
    let n_kv = 5;
    let window = 3;
    let scale = 1.0 / (head_dim as f32).sqrt();
    let q = Array2::<f32>::from_shape_fn((n_tokens, n_head * head_dim), |(t, d)| {
        ((t * 7 + d) as f32 * 0.013).sin()
    });
    let k = Array2::<f32>::from_shape_fn((n_kv, head_dim), |(j, d)| {
        ((j * 11 + d) as f32 * 0.017).cos()
    });
    let v = Array2::<f32>::from_shape_fn((n_kv, head_dim), |(j, d)| {
        ((j * 13 + d) as f32 * 0.019).sin()
    });
    let mut mask = Array2::<f32>::from_elem((n_tokens, n_kv), f32::NEG_INFINITY);
    for t in 0..n_tokens {
        let j_lo = t.saturating_sub(window - 1);
        let j_hi = t;
        for j in j_lo..=j_hi {
            mask[[t, j]] = 0.0;
        }
    }
    let masked = attend(&q, &k, &v, &mask, n_head, head_dim, None, scale);
    let swa = sliding_window(&q, &k, &v, n_head, head_dim, window, scale);
    for (a, b) in masked.iter().zip(swa.iter()) {
        assert!((a - b).abs() < 1e-5, "masked={a} swa={b}");
    }
}

#[test]
fn all_neg_inf_mask_row_yields_zero() {
    let n_tokens = 2;
    let n_head = 1;
    let head_dim = 2;
    let n_kv = 3;
    let q = Array2::<f32>::from_elem((n_tokens, n_head * head_dim), 1.0);
    let k = Array2::<f32>::from_elem((n_kv, head_dim), 1.0);
    let v = Array2::<f32>::from_elem((n_kv, head_dim), 1.0);
    let mut mask = Array2::<f32>::zeros((n_tokens, n_kv));
    for j in 0..n_kv {
        mask[[0, j]] = f32::NEG_INFINITY;
    }
    let out = attend(&q, &k, &v, &mask, n_head, head_dim, None, 1.0);
    for d in 0..head_dim {
        assert_eq!(out[[0, d]], 0.0, "all-(-inf) row should produce zero");
    }
    for d in 0..head_dim {
        assert!(out[[1, d]].is_finite() && out[[1, d]] != 0.0);
    }
}

#[test]
fn dominant_sink_collapses_output() {
    let n_tokens = 1;
    let n_head = 2;
    let head_dim = 2;
    let n_kv = 3;
    let q = Array2::<f32>::from_elem((n_tokens, n_head * head_dim), 0.0);
    let k = Array2::<f32>::from_elem((n_kv, head_dim), 0.0);
    let v = Array2::<f32>::from_elem((n_kv, head_dim), 1.0);
    let mask = Array2::<f32>::zeros((n_tokens, n_kv));
    let no_sink = attend(&q, &k, &v, &mask, n_head, head_dim, None, 1.0);
    for v in no_sink.iter() {
        assert!(approx_eq(*v, 1.0, 1e-5), "no-sink uniform: {v}");
    }
    let sinks = Array1::<f32>::from_elem(n_head, 50.0);
    let with_sink = attend(&q, &k, &v, &mask, n_head, head_dim, Some(&sinks), 1.0);
    for v in with_sink.iter() {
        assert!(*v < 1e-10, "dominant sink should starve V output: {v}");
    }
}

#[test]
fn sparse_mask_restricts_attention_to_allowed_positions() {
    let n_tokens = 2;
    let n_head = 1;
    let head_dim = 2;
    let n_kv = 5;
    let q = Array2::<f32>::from_elem((n_tokens, n_head * head_dim), 0.0);
    let k = Array2::<f32>::from_elem((n_kv, head_dim), 0.0);
    let v = Array2::<f32>::from_shape_fn((n_kv, head_dim), |(j, _)| (j as f32) * 10.0);
    let mut mask = Array2::<f32>::from_elem((n_tokens, n_kv), f32::NEG_INFINITY);
    mask[[0, 1]] = 0.0;
    mask[[0, 3]] = 0.0;
    mask[[1, 0]] = 0.0;
    mask[[1, 4]] = 0.0;
    let out = attend(&q, &k, &v, &mask, n_head, head_dim, None, 1.0);
    assert!(approx_eq(out[[0, 0]], 20.0, 1e-5));
    assert!(approx_eq(out[[1, 0]], 20.0, 1e-5));
}

#[test]
fn every_head_of_every_token_is_scored_with_its_mask_and_sink() {
    let m = |r: usize, c: usize, words: Vec<u32>| Matrix::from_flat(r, c, words).unwrap();
    let q = m(2, 2, vec![10, 20, 30, 40]);
    let k = m(2, 1, vec![1, 2]);
    let v = m(2, 1, vec![5, 6]);
    let mask = m(2, 2, vec![100, 200, 300, 400]);
    let seen = RefCell::new(Vec::new());
    let score = |query: &Vec<u32>, key: &Vec<u32>, mask: u32| query[0] + key[0] + mask;
    let average = |scores: &Vec<u32>, peak: u32, values: &Matrix| {
        assert_eq!(values.row(1), vec![6]);
        seen.borrow_mut().push((scores.clone(), peak));
        vec![scores[0]]
    };
    let out = dsv4_masked_attn(&q, &k, &v, &mask, 2, 1, Some(&vec![7, 8]), &score, &average);
    let out = out.unwrap();
    assert_eq!((out.row(0), out.row(1)), (vec![111, 121], vec![331, 341]));
    assert_eq!(
        *seen.borrow(),
        vec![
            (vec![111, 212, 7], 212),
            (vec![121, 222, 8], 222),
            (vec![331, 432, 7], 432),
            (vec![341, 442, 8], 442),
        ]
    );
    let masked = |_: &Vec<u32>, _: &Vec<u32>, _: u32| f32::NEG_INFINITY.to_bits();
    let zero = dsv4_masked_attn(&q, &k, &v, &mask, 2, 1, None, &masked, &average).unwrap();
    assert_eq!((zero.row(0), zero.row(1)), (vec![0, 0], vec![0, 0]));
}

#[test]
fn every_fault_of_masked_attention_is_found() {
    let good = MaskedAttnShapes { q: (2, 6), k: (4, 3), v: (4, 3), mask: (2, 4), sinks: Some(2) };
    assert_eq!(check_masked_attn(&good, 2, 3), Ok(()));
    let bad = |s: MaskedAttnShapes| check_masked_attn(&s, 2, 3).err();
    assert_eq!(bad(MaskedAttnShapes { q: (2, 5), ..good }), Some(MaskedAttnFault::QShape));
    assert_eq!(bad(MaskedAttnShapes { k: (4, 2), ..good }), Some(MaskedAttnFault::KColumns));
    assert_eq!(bad(MaskedAttnShapes { v: (5, 3), ..good }), Some(MaskedAttnFault::KvShapes));
    assert_eq!(bad(MaskedAttnShapes { mask: (2, 5), ..good }), Some(MaskedAttnFault::MaskShape));
    assert_eq!(bad(MaskedAttnShapes { sinks: Some(3), ..good }), Some(MaskedAttnFault::SinksLength));
    let score = |_: &Vec<u32>, _: &Vec<u32>, _: u32| -> u32 { panic!("nothing is scored") };
    let (q, k, mask) = (Matrix::zeros(2, 6), Matrix::zeros(4, 3), Matrix::zeros(2, 5));
    let refused = dsv4_masked_attn(&q, &k, &k, &mask, 2, 3, None, &score, &average).err();
    assert_eq!(refused, Some(MaskedAttnFault::MaskShape));
}

#[test]
fn the_peak_passes_over_what_is_no_number() {
    let bits = |v: &[f32]| -> Vec<u32> { v.iter().map(|x| x.to_bits()).collect() };
    assert_eq!(softmax_peak(&bits(&[1.0, f32::NAN, 3.0, -7.0])), Some(3.0_f32.to_bits()));
    assert_eq!(softmax_peak(&bits(&[-2.0, -1.5])), Some((-1.5_f32).to_bits()));
    assert_eq!(softmax_peak(&bits(&[f32::NEG_INFINITY; 3])), None);
    assert_eq!(softmax_peak(&bits(&[0.0, f32::INFINITY])), None);
    assert_eq!(softmax_peak(&[]), None);
}
