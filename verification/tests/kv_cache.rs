//! The latent cache of one layer.
use larql::attention::dsv4_kv_cache::DsV4LayerKvCache;
use larql::tensor::Matrix;

fn matrix(rows: usize, cols: usize, values: &[f32]) -> Matrix {
    Matrix::from_flat(rows, cols, values.iter().map(|v| v.to_bits()).collect()).unwrap()
}

fn value(m: &Matrix, r: usize, c: usize) -> f32 {
    f32::from_bits(m.at(r, c))
}

#[test]
fn new_cache_is_empty_with_correct_capacity() {
    let cache = DsV4LayerKvCache::with_capacity(128, 512);
    assert_eq!(cache.max_seq_len(), 128);
    assert_eq!(cache.head_dim(), 512);
    assert_eq!(cache.current_len(), 0);
    let view = cache.view_current();
    assert_eq!((view.nrows(), view.ncols()), (0, 512));
}

#[test]
fn append_single_row_grows_view() {
    let mut cache = DsV4LayerKvCache::with_capacity(8, 4);
    cache.append(&matrix(1, 4, &[1.0, 2.0, 3.0, 4.0]));
    assert_eq!(cache.current_len(), 1);
    let view = cache.view_current();
    assert_eq!((view.nrows(), view.ncols()), (1, 4));
    assert_eq!(value(&view, 0, 0), 1.0);
    assert_eq!(value(&view, 0, 3), 4.0);
}

#[test]
fn append_prefill_then_decode_grows_cumulatively() {
    let mut cache = DsV4LayerKvCache::with_capacity(16, 3);
    let mut prefill: Vec<f32> = Vec::new();
    for t in 0..5 {
        for d in 0..3 {
            prefill.push((t * 10 + d) as f32);
        }
    }
    cache.append(&matrix(5, 3, &prefill));
    assert_eq!(cache.current_len(), 5);
    cache.append(&matrix(1, 3, &[100.0, 101.0, 102.0]));
    assert_eq!(cache.current_len(), 6);
    cache.append(&matrix(1, 3, &[200.0, 201.0, 202.0]));
    assert_eq!(cache.current_len(), 7);
    let view = cache.view_current();
    assert_eq!((view.nrows(), view.ncols()), (7, 3));
    assert_eq!(value(&view, 0, 0), 0.0);
    assert_eq!(value(&view, 4, 2), 42.0);
    assert_eq!(value(&view, 5, 0), 100.0);
    assert_eq!(value(&view, 5, 2), 102.0);
    assert_eq!(value(&view, 6, 0), 200.0);
    assert_eq!(value(&view, 6, 2), 202.0);
}

#[test]
fn view_excludes_uninitialized_rows() {
    let mut cache = DsV4LayerKvCache::with_capacity(10, 2);
    cache.append(&matrix(1, 2, &[5.0, 7.0]));
    let view = cache.view_current();
    assert_eq!((view.nrows(), view.ncols()), (1, 2));
}

#[test]
fn clear_resets_for_new_sequence() {
    let mut cache = DsV4LayerKvCache::with_capacity(4, 2);
    cache.append(&matrix(3, 2, &[1.0, 2.0, 3.0, 4.0, 5.0, 6.0]));
    assert_eq!(cache.current_len(), 3);
    cache.clear();
    assert_eq!(cache.current_len(), 0);
    let view = cache.view_current();
    assert_eq!((view.nrows(), view.ncols()), (0, 2));
    cache.append(&matrix(1, 2, &[99.0, 88.0]));
    assert_eq!(cache.current_len(), 1);
    assert_eq!(value(&cache.view_current(), 0, 0), 99.0);
}

#[test]
fn append_exactly_to_capacity() {
    let mut cache = DsV4LayerKvCache::with_capacity(3, 2);
    let mut exact: Vec<f32> = Vec::new();
    for t in 0..3 {
        for d in 0..2 {
            exact.push((t + d) as f32);
        }
    }
    cache.append(&matrix(3, 2, &exact));
    assert_eq!(cache.current_len(), 3);
    assert_eq!(cache.current_len(), cache.max_seq_len());
}

#[test]
fn rows_keep_their_bit_patterns() {
    let mut cache = DsV4LayerKvCache::with_capacity(2, 2);
    let odd: u32 = 0x7fc0_1234;
    cache.append(&Matrix::from_flat(1, 2, vec![odd, 0x8000_0000]).unwrap());
    let view = cache.view_current();
    assert_eq!(view.row(0), vec![odd, 0x8000_0000]);
}
