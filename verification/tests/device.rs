//! The device's and the host's backends: checks, launches, caches and terms.

use cudarc::cublas::sys::cublasOperation_t::{CUBLAS_OP_N, CUBLAS_OP_T};
use larql::backend::capability::Capability;
use larql::backend::decode::{SpecAction, SpecDecode};
use larql::cpu::{q4kf_row_terms, CpuBackend, MatvecKernel};
use larql::cuda::attn::{
    check_decode, check_decode_into, choose_attn_d_split, decode_attention_plan,
    fused_decode_attention_into_launch, fused_decode_attention_launch,
    fused_prefill_attention_launch, norm_or_zeros, qkv_rms_proj_launch, softmax_launch,
    AttentionOpts, DecodeLens, FusedDecodeAttentionOpts, QkvProjDims,
};
use larql::cuda::backend::{
    check_copy, check_device_matvec, device_info, f16_gemv_elements, CopyKind, CudaBackend,
    DeviceBytesKey, DeviceCache, DeviceMatvec,
};
use larql::cuda::error::CudaInitError;
use larql::cuda::half_source::half_words;
use larql::cuda::matmul::{check_output_len, gemv_shape, matmul_shape, matmul_transb_shape, GemmShape};
use larql::cuda::sampling::{flatten_rows, verify_tree_plan};
use larql::cuda::scratch::{q8_size, scratch_sizes, DecodeScratchShape, Q8Size};

fn refusal<T>(r: Result<T, CudaInitError>) -> String {
    match r.err().expect("a refusal was expected") {
        CudaInitError::DriverMissing(t) => t,
        other => panic!("wrong error: {other:?}"),
    }
}

// ---- what the backends can do -------------------------------------------------

#[test]
fn supports_f32_gemv_after_baseline() {
    let b = CudaBackend::new(false);
    assert!(b.supports(Capability::Cuda));
    assert!(b.supports(Capability::F32Gemv), "cuda-f32-baseline must advertise F32Gemv");
    assert!(b.supports(Capability::DecodeToken));
}

#[test]
fn supports_q4_matvec_after_q4_baseline() {
    let b = CudaBackend::new(false);
    assert!(b.supports(Capability::QuantMatVec));
    assert!(b.supports(Capability::Q4VecMat));
    assert!(b.supports(Capability::KvCompressionRotorQuant));
    assert!(b.supports(Capability::DecodeToken));
}

#[test]
fn supports_fa2_after_fused_attention() {
    let b = CudaBackend::new(false);
    assert!(b.supports(Capability::Cuda));
    assert!(b.supports(Capability::F32Gemv));
    assert!(b.supports(Capability::QuantMatVec));
    assert!(b.supports(Capability::Q4VecMat));
    assert!(b.supports(Capability::FlashAttentionV2));
    assert!(b.supports(Capability::DecodeToken));
    assert!(b.supports(Capability::PrefillQ4));
    assert!(b.supports(Capability::KvCompressionRotorQuant));
}

#[test]
fn supports_decode_after_cuda_decode_backend() {
    let b = CudaBackend::new(false);
    assert!(b.supports(Capability::DecodeToken));
    assert!(b.supports(Capability::PrefillQ4));
}

#[test]
fn supports_cuda_oxide_when_feature_enabled() {
    assert!(CudaBackend::new(true).supports(Capability::CudaOxide));
    assert!(!CudaBackend::new(false).supports(Capability::CudaOxide));
}

#[test]
fn cuda_op_constants_are_distinct() {
    assert_ne!(CUBLAS_OP_N as i32, CUBLAS_OP_T as i32);
    // The two products of a row-major GEMM differ in just that.
    assert_ne!(matmul_shape(2, 3, 4).transa, matmul_transb_shape(2, 3, 4).transa);
}

#[test]
fn backends_have_names() {
    let b = CudaBackend::new(false);
    assert_eq!(b.name(), "cuda");
    assert_eq!(device_info(3), "cuda(device=3, cublas=ready)");
    assert_eq!(CpuBackend.name(), "cpu (BLAS + C Q4 kernel)");
    assert_eq!(CpuBackend.device_info(true), "macOS Accelerate AMX");
    assert_eq!(CpuBackend.device_info(false), "CPU BLAS");
    assert!(CpuBackend.has_q4());
    assert!(CpuBackend.supports(Capability::QuantMatVec));
    assert!(CpuBackend.supports(Capability::Q4VecMat));
    assert!(!CpuBackend.supports(Capability::Cuda));
    assert!(!CpuBackend.supports(Capability::DecodeToken));
}

// ---- device caches ------------------------------------------------------------

#[test]
fn a_buffer_is_known_by_its_contents() {
    let bytes: Vec<u8> = (1..=20).collect();
    let k = DeviceBytesKey::from_slice(&bytes, 0x1000);
    assert_eq!((k.ptr, k.len), (0x1000, 20));
    let mut changed = bytes.clone();
    changed[10] += 1;
    assert_ne!(DeviceBytesKey::from_slice(&changed, 0x1000).hash, k.hash);
    let none = DeviceBytesKey::from_slice(&[], 7);
    assert_eq!((none.len, none.hash), (0, 0xcbf2_9ce4_8422_2325));
    assert_eq!(DeviceBytesKey::from_slice(b"a", 0).hash, 0xaf63_dc4c_8601_ec8c);
    assert_eq!(DeviceBytesKey::from_slice(b"foobar", 0).hash, 0x8594_4171_f739_67e8);
}

#[test]
fn a_buffer_keeps_its_slot() {
    let mut c = DeviceCache::new();
    assert_eq!(c.get(&[1], 1), None);
    assert_eq!(c.get_or_insert(&[1], 1), 0);
    assert_eq!(c.get_or_insert(&[2], 1), 1);
    assert_eq!(c.get_or_insert(&[1], 1), 0);
    assert_eq!(c.get_or_insert(&[1], 2), 2);
    assert_eq!(c.len(), 3);
    assert_eq!(c.get(&[2], 1), Some(1));
}

#[test]
fn buffers_that_differ_in_the_middle_have_slots_of_their_own() {
    let first: Vec<u8> = [1.0_f32, 2.0, 3.0, 4.0, 5.0].iter().flat_map(|v| v.to_le_bytes()).collect();
    let second: Vec<u8> = [1.0_f32, 2.0, 7.0, 4.0, 5.0].iter().flat_map(|v| v.to_le_bytes()).collect();
    let mut c = DeviceCache::new();
    assert_eq!(c.get_or_insert(&first, 64), 0);
    assert_eq!(c.get(&second, 64), None);
    assert_eq!(c.get_or_insert(&second, 64), 1);
    assert_eq!(c.get(&first, 64), Some(0));
}

#[test]
fn a_new_backend_has_uploaded_nothing() {
    let mut b = CudaBackend::new(false);
    assert_eq!((b.q4k_device_cache_len(), b.q6k_f32_device_cache_len()), (0, 0));
    b.q4k_device_cache.get_or_insert(&[1], 1);
    assert_eq!((b.q4k_device_cache_len(), b.q6k_f32_device_cache_len()), (1, 0));
}

#[test]
fn copies_stay_inside_their_buffer() {
    assert!(check_copy(CopyKind::Words, 2, 6, 8).is_ok());
    assert_eq!(
        refusal(check_copy(CopyKind::Words, 3, 6, 8)),
        "htod_into_slice OOB: offset 3 + len 6 > dst 8"
    );
    assert_eq!(
        refusal(check_copy(CopyKind::Halves, 0, 9, 8)),
        "htod_f32_as_f16 OOB: offset 0 + len 9 > dst 8"
    );
}

#[test]
fn device_products_need_the_right_width() {
    assert_eq!(check_device_matvec(DeviceMatvec::Q6k, 8, 3, 8).unwrap(), 24);
    assert_eq!(
        refusal(check_device_matvec(DeviceMatvec::Q6k, 7, 3, 8)),
        "q6k_matvec_device input mismatch: x_dev.len=7 hidden=8"
    );
    assert_eq!(
        refusal(check_device_matvec(DeviceMatvec::Q4kf, 9, 3, 8)),
        "q4kf_matvec_device input mismatch: x_dev.len=9 hidden=8"
    );
    assert_eq!(f16_gemv_elements(48, 8, 3, 8), Some(24));
    assert_eq!(f16_gemv_elements(47, 8, 3, 8), None);
    assert_eq!(f16_gemv_elements(48, 7, 3, 8), None);
}

#[test]
fn halves_are_read_least_significant_byte_first() {
    assert_eq!(half_words(&[0x34, 0x12, 0xff, 0x00, 9], 2).unwrap(), vec![0x1234, 0x00ff]);
    assert_eq!(refusal(half_words(&[1, 2, 3], 2)), "f16 source bytes too short: got 3, need 4");
}

// ---- row-major products --------------------------------------------------------

#[test]
fn a_row_major_product_takes_its_operands_in_turn() {
    assert_eq!(
        matmul_shape(2, 3, 4),
        GemmShape { transa: false, transb: false, m: 3, n: 2, k: 4, lda: 3, ldb: 4, ldc: 3 }
    );
    assert_eq!(
        matmul_transb_shape(2, 3, 4),
        GemmShape { transa: true, transb: false, m: 3, n: 2, k: 4, lda: 4, ldb: 4, ldc: 3 }
    );
    assert_eq!(gemv_shape(5, 6), matmul_transb_shape(1, 5, 6));
    assert!(check_output_len(6, 2, 3).is_ok());
    assert_eq!(
        refusal(check_output_len(5, 2, 3)),
        "matmul_transb_device_inout_f16_into: c.len=5 < m*n=6"
    );
}

/// A column-major GEMM as the device runs it.
fn gemm(g: GemmShape, first: &[i64], second: &[i64], len: usize) -> Vec<i64> {
    let mut out = vec![0; len];
    for i in 0..g.m as usize {
        for j in 0..g.n as usize {
            for p in 0..g.k as usize {
                let a = if g.transa { p + i * g.lda as usize } else { i + p * g.lda as usize };
                let b = if g.transb { j + p * g.ldb as usize } else { p + j * g.ldb as usize };
                out[i + j * g.ldc as usize] += first[a] * second[b];
            }
        }
    }
    out
}

#[test]
fn a_column_major_gemm_gives_the_row_major_product() {
    // Two rows of two, times two rows of three.
    let a = [1, 2, 3, 4];
    let b = [5, 6, 7, 8, 9, 10];
    assert_eq!(gemm(matmul_shape(2, 3, 2), &b, &a, 6), vec![21, 24, 27, 47, 54, 61]);
    // The second operand's rows as columns.
    let bt = [5, 8, 6, 9, 7, 10];
    assert_eq!(gemm(matmul_transb_shape(2, 3, 2), &bt, &a, 6), vec![21, 24, 27, 47, 54, 61]);
}

// ---- attention launches ---------------------------------------------------------

#[test]
fn heads_are_split_to_fill_the_device() {
    assert_eq!(choose_attn_d_split(None, 32, 128), 1);
    assert_eq!(choose_attn_d_split(None, 8, 128), 4);
    assert_eq!(choose_attn_d_split(None, 7, 128), 4);
    assert_eq!(choose_attn_d_split(None, 1, 128), 16);
    assert_eq!(choose_attn_d_split(None, 0, 128), 16);
    assert_eq!(choose_attn_d_split(None, 8, 126), 1);
    assert_eq!(choose_attn_d_split(Some(8), 32, 128), 8);
    assert_eq!(choose_attn_d_split(Some(0), 8, 128), 1);
    assert_eq!(choose_attn_d_split(Some(3), 8, 128), 4);
    assert_eq!(choose_attn_d_split(Some(-4), 8, 128), 4);
}

#[test]
fn attention_options_start_off() {
    assert_eq!(AttentionOpts::default(), AttentionOpts { causal: false, softcap: 0 });
}

#[test]
fn a_projection_has_a_block_for_every_row() {
    let dims = QkvProjDims { hidden: 8, q_dim: 16, kv_dim: 4 };
    let l = qkv_rms_proj_launch(dims, 8, 8, 128, 32, 32);
    assert_eq!(l.grid_dim, (24, 1, 1));
    assert_eq!(l.block_dim, (256, 1, 1));
    assert_eq!(l.shared_mem_bytes, 1024);
}

#[test]
fn a_softmax_has_a_block_for_every_row() {
    let l = softmax_launch(5, false);
    assert_eq!((l.grid_dim, l.block_dim, l.shared_mem_bytes), ((5, 1, 1), (1024, 1, 1), 4096));
    let l = softmax_launch(5, true);
    assert_eq!((l.grid_dim, l.block_dim, l.shared_mem_bytes), ((5, 1, 1), (1, 1, 1), 0));
}

#[test]
fn an_unfused_attention_is_two_products() {
    let p = decode_attention_plan(2 * 8, 5 * 8, 5 * 8, 2, 5, 8);
    assert_eq!(p.qk, matmul_transb_shape(2, 5, 8));
    assert_eq!(p.av, matmul_shape(2, 8, 5));
    assert_eq!((p.scores_len, p.out_len), (10, 16));
}

fn opts() -> FusedDecodeAttentionOpts {
    FusedDecodeAttentionOpts {
        num_q_heads: 8,
        num_kv_heads: 2,
        head_dim: 16,
        pos: 3,
        max_seq: 10,
        rotary_dim: 16,
        rope_base: 10000.0_f32.to_bits(),
        eps: 1e-6_f32.to_bits(),
        qk_norm_offset: 0,
        attn_scale: 0.25_f32.to_bits(),
        softcap: 0,
    }
}

fn lens(rows: usize) -> DecodeLens {
    DecodeLens {
        q: rows * 128,
        k_new: rows * 32,
        v_new: rows * 32,
        k_cache: 320,
        v_cache: 320,
        q_norm: Some(16),
        k_norm: Some(16),
    }
}

#[test]
fn a_decode_attention_is_checked_and_launched() {
    assert!(check_decode(lens(1), opts()));
    let l = fused_decode_attention_launch(lens(1), opts(), None);
    assert_eq!(l.launch.grid_dim, (8, 4, 1));
    assert_eq!(l.launch.block_dim, (256, 1, 1));
    assert_eq!(l.launch.shared_mem_bytes, (10 + 256 + 16) * 4);
    assert_eq!((l.out_len, l.d_split, l.use_qk_norm), (128, 4, 1));
    assert_eq!((l.num_q_heads, l.num_kv_heads, l.head_dim), (8, 2, 16));
    assert_eq!((l.pos, l.max_seq, l.rotary_dim), (3, 10, 16));
    let one_norm = DecodeLens { k_norm: None, ..lens(1) };
    assert_eq!(fused_decode_attention_launch(one_norm, opts(), Some(2)).use_qk_norm, 0);
}

#[test]
fn a_decode_attention_needs_matching_buffers() {
    assert!(!check_decode(DecodeLens { q: 127, ..lens(1) }, opts()));
    assert!(!check_decode(DecodeLens { k_new: 31, ..lens(1) }, opts()));
    assert!(!check_decode(DecodeLens { v_new: 31, ..lens(1) }, opts()));
    assert!(!check_decode(DecodeLens { k_cache: 319, ..lens(1) }, opts()));
    assert!(!check_decode(DecodeLens { v_cache: 321, ..lens(1) }, opts()));
    assert!(!check_decode(DecodeLens { q_norm: Some(8), ..lens(1) }, opts()));
    assert!(!check_decode(lens(1), FusedDecodeAttentionOpts { pos: 10, ..opts() }));
    assert!(check_decode(DecodeLens { q_norm: None, k_norm: None, ..lens(1) }, opts()));
}

#[test]
fn a_recorded_launch_serves_every_position() {
    // The position in the options is not looked at.
    let far = FusedDecodeAttentionOpts { pos: 99, ..opts() };
    assert!(check_decode_into(lens(1), 1, 128, far));
    let l = fused_decode_attention_into_launch(lens(1), 1, 128, false, far, Some(4));
    let fresh = fused_decode_attention_launch(lens(1), opts(), Some(4));
    assert_eq!(l.launch.grid_dim, fresh.launch.grid_dim);
    assert_eq!(l.launch.shared_mem_bytes, fresh.launch.shared_mem_bytes);
    assert_eq!((l.out_len, l.d_split, l.use_qk_norm), (128, 4, 0));
    assert!(!check_decode_into(lens(1), 2, 128, opts()));
    assert!(!check_decode_into(lens(1), 1, 127, opts()));
    assert!(!check_decode_into(DecodeLens { k_norm: None, ..lens(1) }, 1, 128, opts()));
    assert!(!check_decode_into(DecodeLens { q: 1, ..lens(1) }, 1, 128, opts()));
}

#[test]
fn a_missing_norm_is_zeros() {
    assert_eq!(norm_or_zeros(Some(&[4, 5]), 2), vec![4, 5]);
    assert_eq!(norm_or_zeros(None, 3), vec![0, 0, 0]);
}

#[test]
fn a_prefill_is_launched_twice() {
    let l = fused_prefill_attention_launch(lens(4), opts(), 6, 4).unwrap();
    assert_eq!(l.write.grid_dim, (4, 2, 1));
    assert_eq!(l.write.shared_mem_bytes, 1024);
    assert_eq!(l.attend.grid_dim, (8, 4, 1));
    assert_eq!(l.attend.shared_mem_bytes, (10 + 256 + 16) * 4);
    assert_eq!((l.out_len, l.base_pos, l.seq_len, l.use_qk_norm), (512, 6, 4, 1));
}

#[test]
fn a_prefill_says_what_does_not_fit() {
    let run = |l: DecodeLens, base: usize| refusal(fused_prefill_attention_launch(l, opts(), base, 4));
    assert_eq!(run(DecodeLens { q: 500, ..lens(4) }, 0), "q_seq.len=500 != seq_len*q_dim=4*128");
    assert_eq!(
        run(DecodeLens { v_new: 1, ..lens(4) }, 0),
        "k_seq/v_seq.len mismatch for seq_len*kv_dim=4*32"
    );
    assert_eq!(
        run(DecodeLens { k_cache: 1, ..lens(4) }, 0),
        "k_cache/v_cache.len mismatch for max_seq*num_kv_heads*head_dim=320"
    );
    assert_eq!(run(lens(4), 7), "base_pos+seq_len=11>10=max_seq");
}

// ---- scratch buffers and drafted paths -------------------------------------------

#[test]
fn scratch_buffers_follow_the_shape() {
    let s = DecodeScratchShape { hidden: 64, q_dim: 96, kv_dim: 10, inter: 128, head_dim: 8 };
    let z = scratch_sizes(s);
    assert_eq!((z.h, z.h_attn, z.attn_delta, z.ffn_normed), (64, 64, 64, 64));
    assert_eq!((z.q, z.k, z.v, z.qkv, z.attn_out), (96, 10, 10, 116, 96));
    assert_eq!((z.gate, z.up, z.act, z.pos), (128, 128, 128, 1));
    assert_eq!(z.h_ffn_q8_1, Q8Size { n_blocks: 2, bytes: 72 });
    assert_eq!(z.attn_out_q8_1, Q8Size { n_blocks: 3, bytes: 108 });
    assert_eq!(z.act_q8_1, q8_size(128));
    assert!(s.matches(&s));
    assert!(!s.matches(&DecodeScratchShape { head_dim: 9, ..s }));
}

#[test]
fn a_drafted_path_is_laid_out_row_by_row() {
    let rows = vec![vec![1, 2, 3], vec![4, 5, 6]];
    let p = verify_tree_plan(&rows, &[7, 8], &[9, 10], 3).unwrap();
    assert_eq!(p.p_target, vec![1, 2, 3, 4, 5, 6]);
    assert_eq!((p.path_len, p.vocab), (2, 3));
    assert_eq!((p.launch.grid_dim, p.launch.block_dim), ((1, 1, 1), (1, 1, 1)));
    assert_eq!(flatten_rows(&rows, 3), p.p_target);
}

#[test]
fn a_drafted_path_of_another_shape_is_refused() {
    let rows = vec![vec![1, 2, 3], vec![4, 5]];
    assert_eq!(
        refusal(verify_tree_plan(&rows, &[7], &[9, 10], 3)),
        "verify_tree_gpu shape mismatch: path_len=2 drafts=1 pdraft=2"
    );
    assert_eq!(
        refusal(verify_tree_plan(&[], &[], &[], 3)),
        "verify_tree_gpu shape mismatch: path_len=0 drafts=0 pdraft=0"
    );
    assert_eq!(
        refusal(verify_tree_plan(&rows, &[7, 8], &[9, 10], 3)),
        "verify_tree_gpu row 1: got vocab=2, expected 3"
    );
}

// ---- the host's products ------------------------------------------------------------

#[test]
fn whole_super_blocks_go_through_eight_bits() {
    let b = CpuBackend;
    assert_eq!(b.q4k_matvec_kernel(512, 7, 512), MatvecKernel::Q8k);
    assert_eq!(b.q6k_matvec_kernel(512, 5, 512), MatvecKernel::Q8k);
    assert_eq!(b.q4k_matvec_kernel(500, 7, 500), MatvecKernel::Scalar);
    assert_eq!(b.q4k_matvec_kernel(511, 7, 512), MatvecKernel::Scalar);
    assert_eq!(b.q6k_matvec_kernel(512, 0, 512), MatvecKernel::Scalar);
}

/// Rows of super-blocks with half-precision scales and minima.
fn q4kf_rows(rows: usize, cols: usize) -> Vec<u8> {
    let mut data = Vec::new();
    for sb in 0..rows * cols / 256 {
        for j in 0..8 {
            let scale = half::f16::from_f32(0.01 * (1 + j + sb) as f32);
            data.extend_from_slice(&scale.to_bits().to_le_bytes());
        }
        for j in 0..8 {
            let min = half::f16::from_f32(0.03 * (1 + j) as f32);
            data.extend_from_slice(&min.to_bits().to_le_bytes());
        }
        for k in 0..128 {
            data.push(((k * 37 + sb * 11) % 256) as u8);
        }
    }
    data
}

/// Every weight of some rows: group by group the low halves of 32 bytes, then
/// the high ones, each half with its own scale and minimum.
fn dequantize(data: &[u8]) -> Vec<f32> {
    let half = |at: usize| {
        half::f16::from_bits(u16::from_le_bytes([data[at], data[at + 1]])).to_f32()
    };
    let mut out = Vec::new();
    for block in (0..data.len()).step_by(160) {
        for sub in 0..8 {
            let (scale, min) = (half(block + 2 * sub), half(block + 16 + 2 * sub));
            for lane in 0..32 {
                let byte = data[block + 32 + (sub / 2) * 32 + lane];
                let quant = if sub % 2 == 0 { byte & 0x0f } else { byte >> 4 };
                out.push(scale * quant as f32 - min);
            }
        }
    }
    out
}

#[test]
fn q4kf_matvec_streaming_matches_dequant_then_dot_reference() {
    let cols = 512;
    let rows = 5;
    let x: Vec<f32> = (0..cols).map(|i| (i as f32 * 0.017).sin() * 1.5).collect();
    let data = q4kf_rows(rows, cols);
    let w_deq = dequantize(&data);
    let mut ref_out = vec![0.0f32; rows];
    for r in 0..rows {
        let mut acc = 0.0f32;
        for c in 0..cols {
            acc += w_deq[r * cols + c] * x[c];
        }
        ref_out[r] = acc;
    }
    let terms = CpuBackend.q4kf_matvec_terms(&data, x.len(), rows, cols).unwrap();
    assert_eq!(terms.len(), rows);
    for r in 0..rows {
        let got: f32 = terms[r]
            .iter()
            .map(|t| {
                let scale = half::f16::from_bits(t.scale).to_f32();
                let min = half::f16::from_bits(t.min).to_f32();
                (scale * t.quant as f32 - min) * x[t.x]
            })
            .sum();
        let rel = (ref_out[r] - got).abs() / ref_out[r].abs().max(1e-6);
        assert!(rel < 1e-4, "row {r}: ref={} got={got} rel={rel}", ref_out[r]);
    }
}

#[test]
fn every_input_goes_with_one_term() {
    let data = q4kf_rows(1, 512);
    let mut used: Vec<usize> = q4kf_row_terms(&data, 512).iter().map(|t| t.x).collect();
    used.sort();
    assert_eq!(used, (0..512).collect::<Vec<usize>>());
}

#[test]
fn products_of_another_shape_give_nothing() {
    let data = q4kf_rows(2, 256);
    assert!(CpuBackend.q4kf_matvec_terms(&data, 256, 2, 256).is_some());
    assert!(CpuBackend.q4kf_matvec_terms(&data, 255, 2, 256).is_none());
    assert!(CpuBackend.q4kf_matvec_terms(&data, 100, 2, 100).is_none());
    assert!(CpuBackend.q4kf_matvec_terms(&data, 256, 3, 256).is_none());
    assert!(CpuBackend.q4kf_matvec_terms(&data, 256, usize::MAX, 256).is_none());
}

// ---- decoding without committing --------------------------------------------------------

#[test]
fn a_run_restores_the_cache() {
    let mut s = SpecDecode::start(true, 7, 2, false).unwrap();
    assert_eq!(s.next(), SpecAction::Decode(0));
    s.accept(Some(vec![1]));
    assert_eq!(s.next(), SpecAction::Decode(1));
    s.accept(Some(vec![2]));
    assert_eq!(s.next(), SpecAction::Finish { truncate_to: Some(7), success: true });
    assert_eq!(s.into_output(), Some(vec![vec![1], vec![2]]));
}

#[test]
fn a_run_may_keep_its_rows() {
    let mut s = SpecDecode::start(true, 7, 1, true).unwrap();
    s.accept(Some(vec![5]));
    assert_eq!(s.next(), SpecAction::Finish { truncate_to: None, success: true });
    assert_eq!(s.into_output(), Some(vec![vec![5]]));
}

#[test]
fn a_run_that_fails_gives_nothing_and_restores() {
    let mut s = SpecDecode::start(true, 7, 3, true).unwrap();
    s.accept(Some(vec![5]));
    s.accept(None);
    assert_eq!(s.next(), SpecAction::Finish { truncate_to: Some(7), success: false });
    assert_eq!(s.into_output(), None);
}

#[test]
fn a_backend_without_a_cache_does_not_start() {
    assert!(SpecDecode::start(false, 0, 3, false).is_none());
    let s = SpecDecode::start(true, 4, 0, false).unwrap();
    assert_eq!(s.next(), SpecAction::Finish { truncate_to: Some(4), success: true });
    assert_eq!(s.into_output(), Some(vec![]));
}
