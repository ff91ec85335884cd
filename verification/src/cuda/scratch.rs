//! Sizes of the buffers that one decode step writes into.
use vstd::prelude::*;

verus! {

/// Values in a block of the eight-bit activation format.
pub const Q8_1_VALUES: usize = 32;

/// Bytes of a block of the eight-bit activation format.
pub const Q8_1_BYTES: usize = 36;

/// The sizes that decide every buffer of a decode step.
#[derive(Debug, Clone, Copy, PartialEq, Eq, Structural)]
pub struct DecodeScratchShape {
    pub hidden: usize,
    pub q_dim: usize,
    pub kv_dim: usize,
    pub inter: usize,
    pub head_dim: usize,
}

impl DecodeScratchShape {
    /// Whether buffers of one shape can be used for another.
    pub fn matches(&self, other: &Self) -> (r: bool)
        ensures
            r == (*self == *other),
    {
        *self == *other
    }
}

/// A buffer of eight-bit activation blocks.
#[derive(Debug, Clone, Copy, PartialEq, Eq, Structural)]
pub struct Q8Size {
    pub n_blocks: usize,
    pub bytes: usize,
}

/// Lengths of the buffers of a decode step, in values where nothing else is
/// said.
#[derive(Debug, Clone, Copy, PartialEq, Eq, Structural)]
pub struct DecodeScratchSizes {
    pub h: usize,
    pub h_attn: usize,
    pub h_attn_q8_1: Q8Size,
    pub q: usize,
    pub k: usize,
    pub v: usize,
    /// Queries, keys and values one behind the other.
    pub qkv: usize,
    pub attn_out: usize,
    pub attn_out_q8_1: Q8Size,
    pub attn_delta: usize,
    pub attn_normed: usize,
    pub h_ffn: usize,
    pub h_ffn_q8_1: Q8Size,
    pub gate: usize,
    pub up: usize,
    pub act: usize,
    pub act_q8_1: Q8Size,
    pub ffn_delta: usize,
    pub ffn_normed: usize,
    pub pos: usize,
}

/// A buffer for `n` values in eight-bit blocks.
pub open spec fn q8_size_of(n: usize) -> Q8Size {
    Q8Size { n_blocks: n / Q8_1_VALUES, bytes: ((n / Q8_1_VALUES) * Q8_1_BYTES) as usize }
}

/// The buffers of a shape.
pub open spec fn scratch_sizes_of(s: DecodeScratchShape) -> DecodeScratchSizes {
    DecodeScratchSizes {
        h: s.hidden,
        h_attn: s.hidden,
        h_attn_q8_1: q8_size_of(s.hidden),
        q: s.q_dim,
        k: s.kv_dim,
        v: s.kv_dim,
        qkv: (s.q_dim + 2 * s.kv_dim) as usize,
        attn_out: s.q_dim,
        attn_out_q8_1: q8_size_of(s.q_dim),
        attn_delta: s.hidden,
        attn_normed: s.hidden,
        h_ffn: s.hidden,
        h_ffn_q8_1: q8_size_of(s.hidden),
        gate: s.inter,
        up: s.inter,
        act: s.inter,
        act_q8_1: q8_size_of(s.inter),
        ffn_delta: s.hidden,
        ffn_normed: s.hidden,
        pos: 1,
    }
}

/// Whether the sizes of a shape can be computed: every width that is held in
/// blocks is a whole number of them, and no length overflows.
pub open spec fn scratch_shape_fits(s: DecodeScratchShape) -> bool {
    &&& s.hidden % Q8_1_VALUES == 0
    &&& s.q_dim % Q8_1_VALUES == 0
    &&& s.inter % Q8_1_VALUES == 0
    &&& (s.hidden / Q8_1_VALUES) * Q8_1_BYTES <= usize::MAX
    &&& (s.q_dim / Q8_1_VALUES) * Q8_1_BYTES <= usize::MAX
    &&& (s.inter / Q8_1_VALUES) * Q8_1_BYTES <= usize::MAX
    &&& s.q_dim + 2 * s.kv_dim <= usize::MAX
}

/// A buffer for `n` values in eight-bit blocks.
pub fn q8_size(n: usize) -> (q: Q8Size)
    requires
        n % Q8_1_VALUES == 0,
        (n / Q8_1_VALUES) * Q8_1_BYTES <= usize::MAX,
    ensures
        q == q8_size_of(n),
{
    let n_blocks: usize = n / Q8_1_VALUES;
    Q8Size { n_blocks, bytes: n_blocks * Q8_1_BYTES }
}

/// The buffers of a shape.
pub fn scratch_sizes(s: DecodeScratchShape) -> (r: DecodeScratchSizes)
    requires
        scratch_shape_fits(s),
    ensures
        r == scratch_sizes_of(s),
{
    DecodeScratchSizes {
        h: s.hidden,
        h_attn: s.hidden,
        h_attn_q8_1: q8_size(s.hidden),
        q: s.q_dim,
        k: s.kv_dim,
        v: s.kv_dim,
        qkv: s.q_dim + 2 * s.kv_dim,
        attn_out: s.q_dim,
        attn_out_q8_1: q8_size(s.q_dim),
        attn_delta: s.hidden,
        attn_normed: s.hidden,
        h_ffn: s.hidden,
        h_ffn_q8_1: q8_size(s.hidden),
        gate: s.inter,
        up: s.inter,
        act: s.inter,
        act_q8_1: q8_size(s.inter),
        ffn_delta: s.hidden,
        ffn_normed: s.hidden,
        pos: 1,
    }
}

/// Queries, keys and values fill the joint buffer, one behind the other.
pub proof fn law_joint_buffer_is_exact(s: DecodeScratchShape)
    requires
        scratch_shape_fits(s),
    ensures
        scratch_sizes_of(s).qkv == scratch_sizes_of(s).q + scratch_sizes_of(s).k
            + scratch_sizes_of(s).v,
{
}

/// A buffer in blocks holds exactly the values it is made for.
pub proof fn law_blocks_hold_every_value(n: usize)
    requires
        n % Q8_1_VALUES == 0,
    ensures
        q8_size_of(n).n_blocks * Q8_1_VALUES == n,
{
}

/// How large the buffers of a decode step are: the residual stream's where they hold
/// rows of it, those of queries, keys and values, of the feed-forward part, and
/// quantized copies with 36 bytes for every 32 values.
pub proof fn law_buffer_sizes(s: DecodeScratchShape)
    requires
        scratch_shape_fits(s),
    ensures
        ({
            let r = scratch_sizes_of(s);
            &&& r.h == s.hidden && r.h_attn == s.hidden && r.h_ffn == s.hidden
            &&& r.attn_delta == s.hidden && r.attn_normed == s.hidden
            &&& r.ffn_delta == s.hidden && r.ffn_normed == s.hidden
            &&& r.q == s.q_dim && r.attn_out == s.q_dim && r.k == s.kv_dim && r.v == s.kv_dim
            &&& r.qkv == s.q_dim + 2 * s.kv_dim
            &&& r.gate == s.inter && r.up == s.inter && r.act == s.inter && r.pos == 1
            &&& r.h_attn_q8_1.n_blocks * 32 == s.hidden && r.h_ffn_q8_1.n_blocks * 32 == s.hidden
            &&& r.attn_out_q8_1.n_blocks * 32 == s.q_dim && r.act_q8_1.n_blocks * 32 == s.inter
            &&& r.h_attn_q8_1.bytes == r.h_attn_q8_1.n_blocks * 36
            &&& r.h_ffn_q8_1.bytes == r.h_ffn_q8_1.n_blocks * 36
            &&& r.attn_out_q8_1.bytes == r.attn_out_q8_1.n_blocks * 36
            &&& r.act_q8_1.bytes == r.act_q8_1.n_blocks * 36
        }),
{
}

} // verus!
