//! Launch shapes and checks of the attention kernels.
//!
//! The kernels take their sizes as 32-bit integers. A size that does not fit is
//! cut to its low 32 bits, as a cast does.
use vstd::prelude::*;
use vstd::string::*;
use crate::cuda::error::CudaInitError;
use crate::cuda::matmul::{
    GemmShape, matmul_shape, matmul_transb_shape, row_major_shape, row_major_transb_shape,
};
use crate::text::{decimal, decimal_text};

verus! {

/// Threads in a block of an attention kernel.
pub const BLOCK: u32 = 256;

/// Threads in a block of the softmax kernel.
pub const SOFTMAX_BLOCK: u32 = 1024;

/// The grid, block and shared memory of one launch.
#[derive(Clone, Copy, Debug)]
pub struct LaunchShape {
    pub grid_dim: (u32, u32, u32),
    pub block_dim: (u32, u32, u32),
    pub shared_mem_bytes: u32,
}

/// Per-call knobs of an attention; `softcap` is the bit pattern of the cap, zero
/// for none.
#[derive(Clone, Copy, Debug, PartialEq, Eq, Structural)]
pub struct AttentionOpts {
    pub causal: bool,
    pub softcap: u32,
}

impl Default for AttentionOpts {
    fn default() -> (o: Self)
        ensures
            o == (AttentionOpts { causal: false, softcap: 0 }),
    {
        AttentionOpts { causal: false, softcap: 0 }
    }
}

/// Sizes of a fused query, key and value projection.
#[derive(Clone, Copy, Debug, PartialEq, Eq, Structural)]
pub struct QkvProjDims {
    pub hidden: usize,
    pub q_dim: usize,
    pub kv_dim: usize,
}

/// The three outputs of a fused projection, as bit patterns.
#[derive(Clone, Debug)]
pub struct QkvProjOutput {
    pub q: Vec<u32>,
    pub k: Vec<u32>,
    pub v: Vec<u32>,
}

/// Sizes and constants of a fused decode attention; the constants are bit
/// patterns.
#[derive(Clone, Copy, Debug, PartialEq, Eq, Structural)]
pub struct FusedDecodeAttentionOpts {
    pub num_q_heads: usize,
    pub num_kv_heads: usize,
    pub head_dim: usize,
    pub pos: usize,
    pub max_seq: usize,
    pub rotary_dim: usize,
    pub rope_base: u32,
    pub eps: u32,
    pub qk_norm_offset: u32,
    pub attn_scale: u32,
    pub softcap: u32,
}

/// What a fused decode attention gives back to the host, as bit patterns.
#[derive(Clone, Debug)]
pub struct FusedDecodeAttentionOutput {
    pub out: Vec<u32>,
    pub k_cache: Vec<u32>,
    pub v_cache: Vec<u32>,
}

/// Lengths of the buffers that a decode attention is handed.
#[derive(Clone, Copy, Debug, PartialEq, Eq, Structural)]
pub struct DecodeLens {
    pub q: usize,
    pub k_new: usize,
    pub v_new: usize,
    pub k_cache: usize,
    pub v_cache: usize,
    pub q_norm: Option<usize>,
    pub k_norm: Option<usize>,
}

/// The launch of a decode attention, its scalar arguments, and the length of its
/// output.
#[derive(Clone, Copy, Debug)]
pub struct DecodeLaunch {
    pub launch: LaunchShape,
    pub out_len: usize,
    pub num_q_heads: i32,
    pub num_kv_heads: i32,
    pub head_dim: i32,
    pub pos: i32,
    pub max_seq: i32,
    pub rotary_dim: i32,
    pub use_qk_norm: i32,
    pub d_split: i32,
}

/// The two launches of a prefill attention, their scalar arguments, and the
/// length of the output.
#[derive(Clone, Copy, Debug)]
pub struct PrefillLaunch {
    pub write: LaunchShape,
    pub attend: LaunchShape,
    pub out_len: usize,
    pub num_q_heads: i32,
    pub num_kv_heads: i32,
    pub head_dim: i32,
    pub base_pos: i32,
    pub seq_len: i32,
    pub max_seq: i32,
    pub rotary_dim: i32,
    pub use_qk_norm: i32,
}

// ---------------------------------------------------------------------------
// How many chunks a head's output is split into.
// ---------------------------------------------------------------------------
/// A number of chunks that an override may ask for.
pub open spec fn is_split_choice(n: i32) -> bool {
    n == 0 || n == 1 || n == 2 || n == 4 || n == 8 || n == 16
}

/// How many chunks bring a launch of some heads to thirty-two blocks.
pub open spec fn split_needed(num_q_heads: nat) -> nat {
    let heads: nat = if num_q_heads == 0 {
        1
    } else {
        num_q_heads
    };
    ((32 + heads - 1) / heads as int) as nat
}

/// The largest power of two up to `cap` and up to sixteen; one where `cap` is
/// zero.
pub open spec fn power_of_two_below(cap: nat) -> int {
    if cap >= 16 {
        16
    } else if cap >= 8 {
        8
    } else if cap >= 4 {
        4
    } else if cap >= 2 {
        2
    } else {
        1
    }
}

/// The number of chunks that is asked for, before the head's width is looked at.
pub open spec fn split_wanted(asked: Option<i32>, num_q_heads: nat) -> int {
    match asked {
        Some(n) => if is_split_choice(n) {
            n as int
        } else {
            power_of_two_below(split_needed(num_q_heads))
        },
        None => power_of_two_below(split_needed(num_q_heads)),
    }
}

/// The number of chunks: what is wanted where it divides the head, else one.
pub open spec fn attn_d_split(asked: Option<i32>, num_q_heads: nat, head_dim: nat) -> int {
    let wanted = split_wanted(asked, num_q_heads);
    if wanted <= 1 || head_dim as int % wanted != 0 {
        1
    } else {
        wanted
    }
}

/// How many chunks each head's output is split into. `asked` is the number that
/// the environment asks for, where it holds one.
pub fn choose_attn_d_split(asked: Option<i32>, num_q_heads: usize, head_dim: usize) -> (k: i32)
    ensures
        k == attn_d_split(asked, num_q_heads as nat, head_dim as nat),
{
    let mut wanted: i32 = 0;
    let mut given: bool = false;
    match asked {
        Some(n) => {
            if n == 0 || n == 1 || n == 2 || n == 4 || n == 8 || n == 16 {
                wanted = n;
                given = true;
            }
        },
        None => {},
    }
    if !given {
        let heads: usize = if num_q_heads == 0 {
            1
        } else {
            num_q_heads
        };
        let needed: usize = 32 / heads + (if 32 % heads == 0 {
            0usize
        } else {
            1usize
        });
        proof {
            lemma_ceiling(heads as int);
        }
        let cap: usize = if needed < 16 {
            needed
        } else {
            16
        };
        let mut k: usize = 1;
        while k * 2 <= cap
            invariant
                cap <= 16,
                k == 1 || k == 2 || k == 4 || k == 8 || k == 16,
                k == 1 || k <= cap,
            decreases 16 - k,
        {
            k = k * 2;
        }
        wanted = k as i32;
    }
    if wanted <= 1 {
        return 1;
    }
    let w: usize = wanted as usize;
    if head_dim % w != 0 {
        1
    } else {
        wanted
    }
}

proof fn lemma_ceiling(heads: int)
    requires
        heads >= 1,
    ensures
        (32 + heads - 1) / heads == 32int / heads + (if 32int % heads == 0 {
            0int
        } else {
            1int
        }),
{
    let q = 32int / heads;
    let r = 32int % heads;
    vstd::arithmetic::div_mod::lemma_fundamental_div_mod(32, heads);
    assert(0 <= r < heads);
    if r == 0 {
        assert(32 + heads - 1 == heads * q + (heads - 1));
        vstd::arithmetic::div_mod::lemma_fundamental_div_mod_converse(
            32 + heads - 1,
            heads,
            q,
            heads - 1,
        );
    } else {
        assert(32 + heads - 1 == heads * (q + 1) + (r - 1)) by (nonlinear_arith)
            requires
                32 == heads * q + r,
        ;
        vstd::arithmetic::div_mod::lemma_fundamental_div_mod_converse(
            32 + heads - 1,
            heads,
            q + 1,
            r - 1,
        );
    }
}

/// A head is always split into whole chunks of one size, at most sixteen.
pub proof fn law_split_divides_the_head(asked: Option<i32>, num_q_heads: nat, head_dim: nat)
    ensures
        1 <= attn_d_split(asked, num_q_heads, head_dim) <= 16,
        head_dim as int % attn_d_split(asked, num_q_heads, head_dim) == 0,
        attn_d_split(asked, num_q_heads, head_dim) * (head_dim as int / attn_d_split(
            asked,
            num_q_heads,
            head_dim,
        )) == head_dim,
{
    let k = attn_d_split(asked, num_q_heads, head_dim);
    assert(head_dim as int % 1 == 0);
    vstd::arithmetic::div_mod::lemma_fundamental_div_mod(head_dim as int, k);
}

// ---------------------------------------------------------------------------
// The fused projection.
// ---------------------------------------------------------------------------
/// Whether the buffers of a fused projection have the lengths that it takes.
pub open spec fn qkv_lens_fit(
    dims: QkvProjDims,
    x: usize,
    norm: usize,
    wq: usize,
    wk: usize,
    wv: usize,
) -> bool {
    &&& x == dims.hidden
    &&& norm == dims.hidden
    &&& wq == dims.q_dim * dims.hidden
    &&& wk == dims.kv_dim * dims.hidden
    &&& wv == dims.kv_dim * dims.hidden
}

/// The launch of a fused projection: one block for every output row.
pub fn qkv_rms_proj_launch(
    dims: QkvProjDims,
    x: usize,
    norm: usize,
    wq: usize,
    wk: usize,
    wv: usize,
) -> (l: LaunchShape)
    requires
        qkv_lens_fit(dims, x, norm, wq, wk, wv),
        dims.q_dim + 2 * dims.kv_dim <= usize::MAX,
    ensures
        l.grid_dim == ((dims.q_dim + dims.kv_dim + dims.kv_dim) as u32, 1u32, 1u32),
        l.block_dim == (BLOCK, 1u32, 1u32),
        l.shared_mem_bytes == BLOCK * 4,
{
    let total_rows: usize = dims.q_dim + dims.kv_dim + dims.kv_dim;
    LaunchShape {
        grid_dim: (total_rows as u32, 1, 1),
        block_dim: (BLOCK, 1, 1),
        shared_mem_bytes: BLOCK * 4,
    }
}

// ---------------------------------------------------------------------------
// Softmax.
// ---------------------------------------------------------------------------
/// The launch of the row-wise softmax: one block for every row. The row-serial
/// kernel takes one thread and no shared memory.
pub fn softmax_launch(n_rows: usize, row_serial: bool) -> (l: LaunchShape)
    ensures
        l.grid_dim == (n_rows as u32, 1u32, 1u32),
        l.block_dim == (if row_serial {
            (1u32, 1u32, 1u32)
        } else {
            (SOFTMAX_BLOCK, 1u32, 1u32)
        }),
        l.shared_mem_bytes == (if row_serial {
            0
        } else {
            SOFTMAX_BLOCK * 4
        }),
{
    if row_serial {
        LaunchShape { grid_dim: (n_rows as u32, 1, 1), block_dim: (1, 1, 1), shared_mem_bytes: 0 }
    } else {
        LaunchShape {
            grid_dim: (n_rows as u32, 1, 1),
            block_dim: (SOFTMAX_BLOCK, 1, 1),
            shared_mem_bytes: SOFTMAX_BLOCK * 4,
        }
    }
}

// ---------------------------------------------------------------------------
// Unfused attention: two products round a softmax.
// ---------------------------------------------------------------------------
/// The two products of an unfused attention, and the lengths of what they write.
#[derive(Clone, Copy, Debug)]
pub struct AttentionPlan {
    /// Scores from queries and keys.
    pub qk: GemmShape,
    pub scores_len: usize,
    /// Output from scores and values.
    pub av: GemmShape,
    pub out_len: usize,
}

/// The products of an attention of `n_q` queries over `n_kv` rows: the scores
/// are queries times keys transposed, the output is scores times values.
pub fn decode_attention_plan(
    q_len: usize,
    k_len: usize,
    v_len: usize,
    n_q: usize,
    n_kv: usize,
    head_dim: usize,
) -> (p: AttentionPlan)
    requires
        q_len == n_q * head_dim,
        k_len == n_kv * head_dim,
        v_len == n_kv * head_dim,
        n_q * n_kv <= usize::MAX,
    ensures
        p.qk == row_major_transb_shape(n_q, n_kv, head_dim),
        p.av == row_major_shape(n_q, head_dim, n_kv),
        p.scores_len == n_q * n_kv,
        p.out_len == n_q * head_dim,
{
    AttentionPlan {
        qk: matmul_transb_shape(n_q, n_kv, head_dim),
        scores_len: n_q * n_kv,
        av: matmul_shape(n_q, head_dim, n_kv),
        out_len: n_q * head_dim,
    }
}

// ---------------------------------------------------------------------------
// Fused decode.
// ---------------------------------------------------------------------------
/// Whether an optional norm has a head's width.
pub open spec fn norm_fits(norm: Option<usize>, head_dim: usize) -> bool {
    norm matches Some(n) ==> n == head_dim
}

/// Whether the buffers of a decode attention fit its sizes.
pub open spec fn buffers_fit(lens: DecodeLens, opts: FusedDecodeAttentionOpts) -> bool {
    &&& lens.q == opts.num_q_heads * opts.head_dim
    &&& lens.k_new == opts.num_kv_heads * opts.head_dim
    &&& lens.v_new == opts.num_kv_heads * opts.head_dim
    &&& lens.k_cache == opts.max_seq * opts.num_kv_heads * opts.head_dim
    &&& lens.v_cache == opts.max_seq * opts.num_kv_heads * opts.head_dim
    &&& norm_fits(lens.q_norm, opts.head_dim)
    &&& norm_fits(lens.k_norm, opts.head_dim)
}

/// Whether the buffers of a decode attention fit its sizes, and the new row has
/// a place in the cache.
pub open spec fn decode_fits(lens: DecodeLens, opts: FusedDecodeAttentionOpts) -> bool {
    buffers_fit(lens, opts) && opts.pos < opts.max_seq
}

/// Bytes of shared memory of an attention block: the scores of every position, a
/// block's partial sums, and one head.
pub open spec fn attn_shared_bytes(opts: FusedDecodeAttentionOpts) -> int {
    (opts.max_seq + BLOCK + opts.head_dim) * 4
}

fn exact_len(len: usize, a: usize, b: usize) -> (r: bool)
    ensures
        r == (len == a * b),
{
    match a.checked_mul(b) {
        Some(n) => len == n,
        None => false,
    }
}

/// Whether an optional norm has a head's width.
fn norm_has_width(norm: Option<usize>, head_dim: usize) -> (r: bool)
    ensures
        r == norm_fits(norm, head_dim),
{
    match norm {
        Some(n) => n == head_dim,
        None => true,
    }
}

/// Whether a decode attention can be launched on buffers of these lengths.
pub fn check_decode(lens: DecodeLens, opts: FusedDecodeAttentionOpts) -> (r: bool)
    ensures
        r == decode_fits(lens, opts),
{
    opts.pos < opts.max_seq && check_buffers(lens, opts)
}

/// Whether the buffers of a decode attention fit its sizes.
fn check_buffers(lens: DecodeLens, opts: FusedDecodeAttentionOpts) -> (r: bool)
    ensures
        r == buffers_fit(lens, opts),
{
    if !exact_len(lens.q, opts.num_q_heads, opts.head_dim) {
        return false;
    }
    if !exact_len(lens.k_new, opts.num_kv_heads, opts.head_dim) {
        return false;
    }
    if !exact_len(lens.v_new, opts.num_kv_heads, opts.head_dim) {
        return false;
    }
    proof {
        vstd::arithmetic::mul::lemma_mul_is_associative(
            opts.max_seq as int,
            opts.num_kv_heads as int,
            opts.head_dim as int,
        );
    }
    let kv_dim: usize = lens.k_new;
    if !exact_len(lens.k_cache, opts.max_seq, kv_dim) {
        return false;
    }
    if !exact_len(lens.v_cache, opts.max_seq, kv_dim) {
        return false;
    }
    norm_has_width(lens.q_norm, opts.head_dim) && norm_has_width(lens.k_norm, opts.head_dim)
}

/// The launch of a fused decode attention, with `split` chunks for each head.
pub open spec fn decode_launch_of(
    opts: FusedDecodeAttentionOpts,
    use_qk_norm: bool,
    split: i32,
) -> DecodeLaunch {
    DecodeLaunch {
        launch: LaunchShape {
            grid_dim: (opts.num_q_heads as u32, split as u32, 1u32),
            block_dim: (BLOCK, 1u32, 1u32),
            shared_mem_bytes: attn_shared_bytes(opts) as u32,
        },
        out_len: (opts.num_q_heads * opts.head_dim) as usize,
        num_q_heads: opts.num_q_heads as i32,
        num_kv_heads: opts.num_kv_heads as i32,
        head_dim: opts.head_dim as i32,
        pos: opts.pos as i32,
        max_seq: opts.max_seq as i32,
        rotary_dim: opts.rotary_dim as i32,
        use_qk_norm: if use_qk_norm {
            1
        } else {
            0
        },
        d_split: split,
    }
}

/// The launch of a fused decode attention. Heads are normed only where both
/// norms are there. `asked` is the number of chunks that the environment asks
/// for, where it holds one.
pub fn fused_decode_attention_launch(
    lens: DecodeLens,
    opts: FusedDecodeAttentionOpts,
    asked: Option<i32>,
) -> (l: DecodeLaunch)
    requires
        decode_fits(lens, opts),
        attn_shared_bytes(opts) <= usize::MAX,
    ensures
        l == decode_launch_of(
            opts,
            lens.q_norm is Some && lens.k_norm is Some,
            attn_d_split(asked, opts.num_q_heads as nat, opts.head_dim as nat) as i32,
        ),
{
    let use_qk_norm: bool = match lens.q_norm {
        Some(_) => match lens.k_norm {
            Some(_) => true,
            None => false,
        },
        None => false,
    };
    launch_for(opts, use_qk_norm, asked)
}

fn launch_for(opts: FusedDecodeAttentionOpts, use_qk_norm: bool, asked: Option<i32>) -> (l:
    DecodeLaunch)
    requires
        opts.num_q_heads * opts.head_dim <= usize::MAX,
        attn_shared_bytes(opts) <= usize::MAX,
    ensures
        l == decode_launch_of(
            opts,
            use_qk_norm,
            attn_d_split(asked, opts.num_q_heads as nat, opts.head_dim as nat) as i32,
        ),
{
    let split: i32 = choose_attn_d_split(asked, opts.num_q_heads, opts.head_dim);
    let words: usize = opts.max_seq + 256 + opts.head_dim;
    let bytes: usize = words * 4;
    DecodeLaunch {
        launch: LaunchShape {
            grid_dim: (opts.num_q_heads as u32, split as u32, 1),
            block_dim: (BLOCK, 1, 1),
            shared_mem_bytes: bytes as u32,
        },
        out_len: opts.num_q_heads * opts.head_dim,
        num_q_heads: opts.num_q_heads as i32,
        num_kv_heads: opts.num_kv_heads as i32,
        head_dim: opts.head_dim as i32,
        pos: opts.pos as i32,
        max_seq: opts.max_seq as i32,
        rotary_dim: opts.rotary_dim as i32,
        use_qk_norm: if use_qk_norm {
            1
        } else {
            0
        },
        d_split: split,
    }
}

/// Whether a decode attention can be launched on buffers that are all the
/// caller's: both norms, one position and the output. The position is read on the
/// device, so nothing is asked of the one in the options.
pub open spec fn into_fits(
    lens: DecodeLens,
    pos_len: usize,
    out_len: usize,
    opts: FusedDecodeAttentionOpts,
) -> bool {
    &&& buffers_fit(lens, opts)
    &&& lens.q_norm is Some
    &&& lens.k_norm is Some
    &&& pos_len == 1
    &&& out_len == opts.num_q_heads * opts.head_dim
}

/// Whether a decode attention can be launched on buffers that are all the
/// caller's.
pub fn check_decode_into(
    lens: DecodeLens,
    pos_len: usize,
    out_len: usize,
    opts: FusedDecodeAttentionOpts,
) -> (r: bool)
    ensures
        r == into_fits(lens, pos_len, out_len, opts),
{
    check_buffers(lens, opts) && lens.q_norm.is_some() && lens.k_norm.is_some() && pos_len == 1
        && exact_len(out_len, opts.num_q_heads, opts.head_dim)
}

/// The launch of a fused decode attention on buffers that are all the caller's,
/// so that it can be recorded and played again. Whether heads are normed is the
/// caller's choice.
pub fn fused_decode_attention_into_launch(
    lens: DecodeLens,
    pos_len: usize,
    out_len: usize,
    use_qk_norm: bool,
    opts: FusedDecodeAttentionOpts,
    asked: Option<i32>,
) -> (l: DecodeLaunch)
    requires
        into_fits(lens, pos_len, out_len, opts),
        attn_shared_bytes(opts) <= usize::MAX,
    ensures
        l == decode_launch_of(
            opts,
            use_qk_norm,
            attn_d_split(asked, opts.num_q_heads as nat, opts.head_dim as nat) as i32,
        ),
{
    launch_for(opts, use_qk_norm, asked)
}

/// A recorded launch serves every position: but for the position, which it does
/// not hand on, it is the launch of any other token.
pub proof fn law_recorded_launch_serves_every_position(
    opts: FusedDecodeAttentionOpts,
    use_qk_norm: bool,
    split: i32,
    pos: usize,
)
    ensures
        decode_launch_of(FusedDecodeAttentionOpts { pos, ..opts }, use_qk_norm, split) == (
        DecodeLaunch { pos: pos as i32, ..decode_launch_of(opts, use_qk_norm, split) }),
{
}

/// The norm that a kernel is handed: the one that is there, else zeros.
pub open spec fn norm_words(norm: Option<&[u32]>, head_dim: nat) -> Seq<u32> {
    match norm {
        Some(w) => w@,
        None => Seq::new(head_dim, |i: int| 0u32),
    }
}

/// The norm that a kernel is handed: the one that is there, else zeros.
pub fn norm_or_zeros(norm: Option<&[u32]>, head_dim: usize) -> (w: Vec<u32>)
    requires
        norm matches Some(n) ==> n@.len() == head_dim,
    ensures
        w@ == norm_words(norm, head_dim as nat),
        w@.len() == head_dim,
{
    match norm {
        Some(n) => {
            let w: Vec<u32> = vstd::slice::slice_to_vec(n);
            assert(w@ =~= n@);
            w
        },
        None => {
            let mut w: Vec<u32> = Vec::new();
            let mut i: usize = 0;
            while i < head_dim
                invariant
                    i <= head_dim,
                    w@ == Seq::new(i as nat, |j: int| 0u32),
                decreases head_dim - i,
            {
                w.push(0);
                i = i + 1;
                assert(w@ =~= Seq::new(i as nat, |j: int| 0u32));
            }
            w
        },
    }
}

// ---------------------------------------------------------------------------
// Fused prefill.
// ---------------------------------------------------------------------------
/// The first thing that is wrong with a prefill's buffers, as the text of the
/// refusal.
pub open spec fn prefill_fault(
    lens: DecodeLens,
    opts: FusedDecodeAttentionOpts,
    base_pos: usize,
    seq_len: usize,
) -> Option<Seq<char>> {
    let q_dim = opts.num_q_heads * opts.head_dim;
    let kv_dim = opts.num_kv_heads * opts.head_dim;
    let cache_len = opts.max_seq * opts.num_kv_heads * opts.head_dim;
    if lens.q != seq_len * q_dim {
        Some(
            "q_seq.len="@ + decimal(lens.q as nat) + " != seq_len*q_dim="@ + decimal(
                seq_len as nat,
            ) + "*"@ + decimal(q_dim as nat),
        )
    } else if lens.k_new != seq_len * kv_dim || lens.v_new != seq_len * kv_dim {
        Some(
            "k_seq/v_seq.len mismatch for seq_len*kv_dim="@ + decimal(seq_len as nat) + "*"@
                + decimal(kv_dim as nat),
        )
    } else if lens.k_cache != cache_len || lens.v_cache != cache_len {
        Some(
            "k_cache/v_cache.len mismatch for max_seq*num_kv_heads*head_dim="@ + decimal(
                cache_len as nat,
            ),
        )
    } else if base_pos + seq_len > opts.max_seq {
        Some(
            "base_pos+seq_len="@ + decimal((base_pos + seq_len) as nat) + ">"@ + decimal(
                opts.max_seq as nat,
            ) + "=max_seq"@,
        )
    } else {
        None
    }
}

/// Whether a prefill's sizes can be computed without overflow, each where the
/// checks before it pass.
pub open spec fn prefill_sizes_fit(
    lens: DecodeLens,
    opts: FusedDecodeAttentionOpts,
    base_pos: usize,
    seq_len: usize,
) -> bool {
    &&& opts.num_q_heads * opts.head_dim <= usize::MAX
    &&& opts.num_kv_heads * opts.head_dim <= usize::MAX
    &&& opts.max_seq * opts.num_kv_heads <= usize::MAX
    &&& opts.max_seq * opts.num_kv_heads * opts.head_dim <= usize::MAX
    &&& seq_len * (opts.num_q_heads * opts.head_dim) <= usize::MAX
    &&& lens.q == seq_len * (opts.num_q_heads * opts.head_dim) ==> {
        let kv_len = seq_len * (opts.num_kv_heads * opts.head_dim);
        let cache_len = opts.max_seq * opts.num_kv_heads * opts.head_dim;
        &&& kv_len <= usize::MAX
        &&& lens.k_new == kv_len && lens.v_new == kv_len && lens.k_cache == cache_len
            && lens.v_cache == cache_len ==> base_pos + seq_len <= usize::MAX
    }
}

/// The launches of a prefill over `seq_len` new rows from `base_pos` on.
pub open spec fn prefill_launch_of(
    opts: FusedDecodeAttentionOpts,
    base_pos: usize,
    seq_len: usize,
    use_qk_norm: bool,
) -> PrefillLaunch {
    PrefillLaunch {
        write: LaunchShape {
            grid_dim: (seq_len as u32, opts.num_kv_heads as u32, 1u32),
            block_dim: (BLOCK, 1u32, 1u32),
            shared_mem_bytes: (BLOCK * 4) as u32,
        },
        attend: LaunchShape {
            grid_dim: (opts.num_q_heads as u32, seq_len as u32, 1u32),
            block_dim: (BLOCK, 1u32, 1u32),
            shared_mem_bytes: attn_shared_bytes(opts) as u32,
        },
        out_len: (seq_len * (opts.num_q_heads * opts.head_dim)) as usize,
        num_q_heads: opts.num_q_heads as i32,
        num_kv_heads: opts.num_kv_heads as i32,
        head_dim: opts.head_dim as i32,
        base_pos: base_pos as i32,
        seq_len: seq_len as i32,
        max_seq: opts.max_seq as i32,
        rotary_dim: opts.rotary_dim as i32,
        use_qk_norm: if use_qk_norm {
            1
        } else {
            0
        },
    }
}

/// Checks a prefill's buffers, in the order of queries, new rows, caches and room.
pub fn check_prefill(
    lens: DecodeLens,
    opts: FusedDecodeAttentionOpts,
    base_pos: usize,
    seq_len: usize,
) -> (r: Result<(), CudaInitError>)
    requires
        prefill_sizes_fit(lens, opts, base_pos, seq_len),
    ensures
        match prefill_fault(lens, opts, base_pos, seq_len) {
            Some(text) => r matches Err(CudaInitError::DriverMissing(t)) && t@ == text,
            None => r is Ok,
        },
{
    let q_dim: usize = opts.num_q_heads * opts.head_dim;
    let kv_dim: usize = opts.num_kv_heads * opts.head_dim;
    let cache_len: usize = opts.max_seq * opts.num_kv_heads * opts.head_dim;
    if lens.q != seq_len * q_dim {
        let mut t: String = String::from_str("q_seq.len=");
        t.append(decimal_text(lens.q as u64).as_str());
        t.append(" != seq_len*q_dim=");
        t.append(decimal_text(seq_len as u64).as_str());
        t.append("*");
        t.append(decimal_text(q_dim as u64).as_str());
        return Err(CudaInitError::DriverMissing(t));
    }
    if lens.k_new != seq_len * kv_dim || lens.v_new != seq_len * kv_dim {
        let mut t: String = String::from_str("k_seq/v_seq.len mismatch for seq_len*kv_dim=");
        t.append(decimal_text(seq_len as u64).as_str());
        t.append("*");
        t.append(decimal_text(kv_dim as u64).as_str());
        return Err(CudaInitError::DriverMissing(t));
    }
    if lens.k_cache != cache_len || lens.v_cache != cache_len {
        let mut t: String = String::from_str(
            "k_cache/v_cache.len mismatch for max_seq*num_kv_heads*head_dim=",
        );
        t.append(decimal_text(cache_len as u64).as_str());
        return Err(CudaInitError::DriverMissing(t));
    }
    if base_pos + seq_len > opts.max_seq {
        let mut t: String = String::from_str("base_pos+seq_len=");
        t.append(decimal_text((base_pos + seq_len) as u64).as_str());
        t.append(">");
        t.append(decimal_text(opts.max_seq as u64).as_str());
        t.append("=max_seq");
        return Err(CudaInitError::DriverMissing(t));
    }
    Ok(())
}

/// Checks a prefill's buffers and gives its two launches.
pub fn fused_prefill_attention_launch(
    lens: DecodeLens,
    opts: FusedDecodeAttentionOpts,
    base_pos: usize,
    seq_len: usize,
) -> (r: Result<PrefillLaunch, CudaInitError>)
    requires
        prefill_sizes_fit(lens, opts, base_pos, seq_len),
        prefill_fault(lens, opts, base_pos, seq_len) is None ==> norm_fits(
            lens.q_norm,
            opts.head_dim,
        ) && norm_fits(lens.k_norm, opts.head_dim) && attn_shared_bytes(opts) <= usize::MAX,
    ensures
        match prefill_fault(lens, opts, base_pos, seq_len) {
            Some(text) => r matches Err(CudaInitError::DriverMissing(t)) && t@ == text,
            None => r matches Ok(l) && l == prefill_launch_of(
                opts,
                base_pos,
                seq_len,
                lens.q_norm is Some && lens.k_norm is Some,
            ),
        },
{
    if let Err(e) = check_prefill(lens, opts, base_pos, seq_len) {
        return Err(e);
    }
    let q_dim: usize = opts.num_q_heads * opts.head_dim;
    let use_qk_norm: bool = match lens.q_norm {
        Some(_) => match lens.k_norm {
            Some(_) => true,
            None => false,
        },
        None => false,
    };
    let words: usize = opts.max_seq + 256 + opts.head_dim;
    let bytes: usize = words * 4;
    Ok(
        PrefillLaunch {
            write: LaunchShape {
                grid_dim: (seq_len as u32, opts.num_kv_heads as u32, 1),
                block_dim: (BLOCK, 1, 1),
                shared_mem_bytes: BLOCK * 4,
            },
            attend: LaunchShape {
                grid_dim: (opts.num_q_heads as u32, seq_len as u32, 1),
                block_dim: (BLOCK, 1, 1),
                shared_mem_bytes: bytes as u32,
            },
            out_len: seq_len * q_dim,
            num_q_heads: opts.num_q_heads as i32,
            num_kv_heads: opts.num_kv_heads as i32,
            head_dim: opts.head_dim as i32,
            base_pos: base_pos as i32,
            seq_len: seq_len as i32,
            max_seq: opts.max_seq as i32,
            rotary_dim: opts.rotary_dim as i32,
            use_qk_norm: if use_qk_norm {
                1
            } else {
                0
            },
        },
    )
}

/// A prefill that passes its checks writes every new row inside the cache slab:
/// row `i`, head `h`, word `d` stands below the slab's length.
pub proof fn law_prefill_stays_in_the_cache(
    lens: DecodeLens,
    opts: FusedDecodeAttentionOpts,
    base_pos: usize,
    seq_len: usize,
    i: int,
    h: int,
    d: int,
)
    requires
        prefill_fault(lens, opts, base_pos, seq_len) is None,
        0 <= i < seq_len,
        0 <= h < opts.num_kv_heads,
        0 <= d < opts.head_dim,
    ensures
        0 <= ((base_pos + i) * opts.num_kv_heads + h) * opts.head_dim + d < lens.k_cache,
        0 <= ((base_pos + i) * opts.num_kv_heads + h) * opts.head_dim + d < lens.v_cache,
{
    let (p, m, n, w) = (
        base_pos + i,
        opts.max_seq as int,
        opts.num_kv_heads as int,
        opts.head_dim as int,
    );
    let row = p * n + h;
    assert(0 <= row < m * n) by (nonlinear_arith)
        requires
            0 <= p < m,
            0 <= h < n,
            row == p * n + h,
    ;
    let rows = m * n;
    assert(0 <= row * w + d < rows * w) by (nonlinear_arith)
        requires
            0 <= row < rows,
            0 <= d < w,
    ;
}

/// How a head is split when a split is asked for: as asked where it is one of the
/// splits that there are and divides the head, and else not at all.
pub proof fn law_asked_split_is_taken(asked: i32, num_q_heads: nat, head_dim: nat)
    requires
        asked == 0 || asked == 1 || asked == 2 || asked == 4 || asked == 8 || asked == 16,
    ensures
        asked <= 1 ==> attn_d_split(Some(asked), num_q_heads, head_dim) == 1,
        asked > 1 && head_dim as int % asked as int == 0 ==> attn_d_split(
            Some(asked),
            num_q_heads,
            head_dim,
        ) == asked,
        asked > 1 && head_dim as int % asked as int != 0 ==> attn_d_split(
            Some(asked),
            num_q_heads,
            head_dim,
        ) == 1,
{
}

/// How a head is split when nothing is asked for, or something that there is not: in
/// the largest power of two up to sixteen that is not more than what makes the heads
/// thirty-two blocks, where it divides the head, and else not at all. No heads count
/// as one.
pub proof fn law_split_fills_the_device(asked: Option<i32>, num_q_heads: nat, head_dim: nat)
    requires
        asked matches Some(n) ==> n != 0 && n != 1 && n != 2 && n != 4 && n != 8 && n != 16,
    ensures
        ({
            let k = attn_d_split(asked, num_q_heads, head_dim);
            let heads = if num_q_heads == 0 {
                1
            } else {
                num_q_heads as int
            };
            exists|w: int|
                {
                    &&& w == 1 || w == 2 || w == 4 || w == 8 || w == 16
                    &&& (w - 1) * heads < 32
                    &&& w == 16 || #[trigger] (2 * w - 1) * heads >= 32
                    &&& k == (if head_dim as int % w == 0 {
                        w
                    } else {
                        1
                    })
                }
        }),
{
    let heads: int = if num_q_heads == 0 {
        1
    } else {
        num_q_heads as int
    };
    let need = (32 + heads - 1) / heads;
    let w = power_of_two_below(split_needed(num_q_heads));
    assert(need >= 1 && (need - 1) * heads < 32 && need * heads >= 32) by (nonlinear_arith)
        requires
            heads >= 1,
            need == (32 + heads - 1) / heads,
    ;
    assert(split_needed(num_q_heads) == need);
    assert((w - 1) * heads < 32) by (nonlinear_arith)
        requires
            heads >= 1,
            1 <= w <= need,
            (need - 1) * heads < 32,
    ;
    if w != 16 {
        assert((2 * w - 1) * heads >= 32) by (nonlinear_arith)
            requires
                heads >= 1,
                2 * w > need,
                need * heads >= 32,
        ;
    }
    let x = (2 * w - 1) * heads;
}

/// Which buffers a decode attention takes: queries of all heads, a key and a value of
/// all key heads, two caches with room for every position, norms of a head's width
/// where there are any, and a position inside the caches.
pub proof fn law_decode_buffers(lens: DecodeLens, opts: FusedDecodeAttentionOpts)
    ensures
        decode_fits(lens, opts) <==> {
            &&& lens.q == opts.num_q_heads * opts.head_dim
            &&& lens.k_new == opts.num_kv_heads * opts.head_dim
            &&& lens.v_new == opts.num_kv_heads * opts.head_dim
            &&& lens.k_cache == opts.max_seq * opts.num_kv_heads * opts.head_dim
            &&& lens.v_cache == opts.max_seq * opts.num_kv_heads * opts.head_dim
            &&& lens.q_norm is None || lens.q_norm == Some(opts.head_dim)
            &&& lens.k_norm is None || lens.k_norm == Some(opts.head_dim)
            &&& opts.pos < opts.max_seq
        },
{
}

/// Which buffers a decode attention into an output takes: those of a decode attention
/// at any position, both norms, one position, and an output of all heads.
pub proof fn law_decode_into_buffers(
    lens: DecodeLens,
    pos_len: usize,
    out_len: usize,
    opts: FusedDecodeAttentionOpts,
)
    requires
        opts.pos < opts.max_seq,
    ensures
        into_fits(lens, pos_len, out_len, opts) <==> decode_fits(lens, opts) && lens.q_norm == Some(
            opts.head_dim,
        ) && lens.k_norm == Some(opts.head_dim) && pos_len == 1 && out_len == opts.num_q_heads
            * opts.head_dim,
{
}

/// How a decode attention is launched: a block of 256 threads for every query head and
/// part of its split, with room for a score of every position, for the threads and for
/// the head's query, four bytes each; the arguments are the sizes.
pub proof fn law_decode_launch(opts: FusedDecodeAttentionOpts, use_qk_norm: bool, split: i32)
    requires
        opts.num_q_heads <= i32::MAX,
        opts.num_kv_heads <= i32::MAX,
        opts.head_dim <= i32::MAX,
        opts.pos <= i32::MAX,
        opts.max_seq <= i32::MAX,
        opts.rotary_dim <= i32::MAX,
        0 < split <= 16,
        (opts.max_seq + 256 + opts.head_dim) * 4 <= u32::MAX,
        opts.num_q_heads * opts.head_dim <= usize::MAX,
    ensures
        ({
            let l = decode_launch_of(opts, use_qk_norm, split);
            &&& l.launch.grid_dim.0 == opts.num_q_heads && l.launch.grid_dim.1 == split
            &&& l.launch.grid_dim.2 == 1
            &&& l.launch.block_dim == (256u32, 1u32, 1u32)
            &&& l.launch.shared_mem_bytes == (opts.max_seq + 256 + opts.head_dim) * 4
            &&& l.out_len == opts.num_q_heads * opts.head_dim
            &&& l.num_q_heads == opts.num_q_heads && l.num_kv_heads == opts.num_kv_heads
            &&& l.head_dim == opts.head_dim && l.pos == opts.pos && l.max_seq == opts.max_seq
            &&& l.rotary_dim == opts.rotary_dim && l.d_split == split
            &&& l.use_qk_norm == 1 <==> use_qk_norm
            &&& l.use_qk_norm == 0 <==> !use_qk_norm
        }),
{
}

/// How a prefill attention is launched: first a block for every token and key head to
/// write the caches, then one for every query head and token to attend, each of 256
/// threads; the arguments are the sizes.
pub proof fn law_prefill_launch(
    opts: FusedDecodeAttentionOpts,
    base_pos: usize,
    seq_len: usize,
    use_qk_norm: bool,
)
    requires
        opts.num_q_heads <= i32::MAX,
        opts.num_kv_heads <= i32::MAX,
        opts.head_dim <= i32::MAX,
        base_pos <= i32::MAX,
        seq_len <= i32::MAX,
        opts.max_seq <= i32::MAX,
        opts.rotary_dim <= i32::MAX,
        (opts.max_seq + 256 + opts.head_dim) * 4 <= u32::MAX,
        seq_len * (opts.num_q_heads * opts.head_dim) <= usize::MAX,
    ensures
        ({
            let l = prefill_launch_of(opts, base_pos, seq_len, use_qk_norm);
            &&& l.write.grid_dim.0 == seq_len && l.write.grid_dim.1 == opts.num_kv_heads
            &&& l.write.grid_dim.2 == 1 && l.write.block_dim == (256u32, 1u32, 1u32)
            &&& l.write.shared_mem_bytes == 1024
            &&& l.attend.grid_dim.0 == opts.num_q_heads && l.attend.grid_dim.1 == seq_len
            &&& l.attend.grid_dim.2 == 1 && l.attend.block_dim == (256u32, 1u32, 1u32)
            &&& l.attend.shared_mem_bytes == (opts.max_seq + 256 + opts.head_dim) * 4
            &&& l.out_len == seq_len * (opts.num_q_heads * opts.head_dim)
            &&& l.num_q_heads == opts.num_q_heads && l.num_kv_heads == opts.num_kv_heads
            &&& l.head_dim == opts.head_dim && l.base_pos == base_pos && l.seq_len == seq_len
            &&& l.max_seq == opts.max_seq && l.rotary_dim == opts.rotary_dim
            &&& l.use_qk_norm == 1 <==> use_qk_norm
            &&& l.use_qk_norm == 0 <==> !use_qk_norm
        }),
{
    assert(0 <= seq_len * (opts.num_q_heads * opts.head_dim)) by (nonlinear_arith);
}

/// Which buffers a prefill attention takes: queries, keys and values of as many tokens
/// as come, caches with room for every position, and tokens that all fit in behind the
/// first position.
pub proof fn law_prefill_buffers(
    lens: DecodeLens,
    opts: FusedDecodeAttentionOpts,
    base_pos: usize,
    seq_len: usize,
)
    ensures
        prefill_fault(lens, opts, base_pos, seq_len) is None <==> {
            &&& lens.q == seq_len * (opts.num_q_heads * opts.head_dim)
            &&& lens.k_new == seq_len * (opts.num_kv_heads * opts.head_dim)
            &&& lens.v_new == seq_len * (opts.num_kv_heads * opts.head_dim)
            &&& lens.k_cache == opts.max_seq * opts.num_kv_heads * opts.head_dim
            &&& lens.v_cache == opts.max_seq * opts.num_kv_heads * opts.head_dim
            &&& base_pos + seq_len <= opts.max_seq
        },
{
}

/// Threads in a block: 256, and 1024 for a softmax over rows.
pub proof fn law_block_sizes()
    ensures
        BLOCK == 256,
        SOFTMAX_BLOCK == 1024,
{
}

} // verus!
