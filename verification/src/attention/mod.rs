//! Attention layers: formats, caches, weight storage and forward-pass plans.
pub mod block_program;
pub mod deltanet_block;
pub mod deltanet_state;
pub mod dsv4_compressor_prefill;
pub mod dsv4_ffn_block;
pub mod dsv4_forward;
pub mod dsv4_full_loader;
pub mod dsv4_generate;
pub mod dsv4_gguf_reader;
pub mod dsv4_kv_cache;
pub mod dsv4_load_vindex;
pub mod dsv4_masked_attn;
pub mod dsv4_model_forward;
pub mod dsv4_moe_dispatch;
pub mod dsv4_params;
pub mod dsv4_sampling;
pub mod dsv4_storage;
pub mod dsv4_storage_build;
pub mod dsv4_streaming_model_forward;
pub mod dsv4_vindex_attn;
pub mod dsv4_vindex_model;
pub mod layer_program;
pub mod quant_dispatch;
pub mod qwen35_block;
pub mod qwen35_forward;
pub mod qwen35_load;
pub mod qwen35_load_vindex;
pub mod routed_experts;
pub mod top_k;
