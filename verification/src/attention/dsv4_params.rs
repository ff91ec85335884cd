//! Scalar configuration of DeepSeek V4 blocks. Floating-point constants are
//! bit patterns.
use vstd::prelude::*;

verus! {

/// How rotary embedding pairs up a head's dimensions.
#[derive(Clone, Copy, Debug, PartialEq, Eq, Structural)]
pub enum DsV4RopeMode {
    Neox,
    Normal,
}

/// Constants of the extended rotary scaling, carried through unread.
#[derive(Clone, Copy, Debug, PartialEq, Eq, Structural)]
pub struct DsV4YarnParams {
    pub factor: u32,
    pub beta_fast: u32,
    pub beta_slow: u32,
    pub original_context: u64,
}

/// Configuration of an attention block.
#[derive(Clone, Copy, Debug, PartialEq, Eq, Structural)]
pub struct DsV4AttnBlockParams {
    pub n_embd: usize,
    pub n_head: usize,
    pub head_dim: usize,
    pub q_lora_rank: usize,
    pub n_groups: usize,
    pub o_lora_rank: usize,
    pub n_rot: usize,
    pub rope_base: u64,
    pub rope_mode: DsV4RopeMode,
    pub window_size: usize,
    pub norm_eps: u32,
    pub yarn: Option<DsV4YarnParams>,
}

/// Configuration of a compressor.
#[derive(Clone, Copy, Debug, PartialEq, Eq, Structural)]
pub struct CompressorParams {
    pub head_dim: usize,
    pub n_embd: usize,
    pub compress_ratio: usize,
    pub n_rot: usize,
    pub rope_base: u64,
    pub rope_mode: DsV4RopeMode,
    pub norm_eps: u32,
}

/// Configuration of an indexer.
#[derive(Clone, Copy, Debug, PartialEq, Eq, Structural)]
pub struct IndexerParams {
    pub n_embd: usize,
    pub q_lora_rank: usize,
    pub n_index_head: usize,
    pub n_index_head_size: usize,
    pub n_rot: usize,
    pub rope_base: u64,
    pub rope_mode: DsV4RopeMode,
}

/// Configuration of an attention block with a compressor.
#[derive(Clone, Copy, Debug, PartialEq, Eq, Structural)]
pub struct DsV4AttnBlockCompressParams {
    pub attn: DsV4AttnBlockParams,
    pub compressor: CompressorParams,
}

/// Configuration of an attention block with a compressor and an indexer.
#[derive(Clone, Copy, Debug, PartialEq, Eq, Structural)]
pub struct DsV4AttnBlockIndexerParams {
    pub attn: DsV4AttnBlockParams,
    pub compressor: CompressorParams,
    pub indexer_compressor: CompressorParams,
    pub indexer: IndexerParams,
    pub top_k: usize,
}

/// Configuration of the multi-stream residual mixing.
#[derive(Clone, Copy, Debug, PartialEq, Eq, Structural)]
pub struct MhcParams {
    pub n_embd: usize,
    pub n_hc: usize,
    pub sinkhorn_iters: usize,
    pub hc_eps: u32,
    pub norm_eps: u32,
}

/// Configuration of a feed-forward block.
#[derive(Clone, Copy, Debug, PartialEq, Eq, Structural)]
pub struct Dsv4FfnParams {
    pub n_expert: usize,
    pub n_expert_used: usize,
    pub norm_eps: u32,
    pub routed_swiglu_limit: u32,
    pub shared_swiglu_limit: u32,
    pub expert_weights_norm: bool,
    pub expert_weights_scale: u32,
}

/// What every layer of a model shares.
#[derive(Clone, Copy, Debug, PartialEq, Eq, Structural)]
pub struct DsV4LayerParams {
    pub mhc: MhcParams,
    pub ffn: Dsv4FfnParams,
}

/// Which parts a layer has, as its tensors show.
#[derive(Clone, Copy, Debug, PartialEq, Eq, Structural)]
pub struct DsV4LayerVariant {
    pub uses_hash_routing: bool,
    pub compress_ratio: Option<usize>,
    pub has_indexer: bool,
}

} // verus!
