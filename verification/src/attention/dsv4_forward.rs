//! The forward pass of a latent-attention model: its geometry and cache, the
//! data movement between its matrix products, and the pass itself, with
//! floating-point kernels that the caller brings.
use vstd::prelude::*;
use crate::attention::block_program::{
    call_kernel, follows, latent_code, lemma_follows_carries, may_give,
    moe_code, push_one, push_two, rotation, run_kernels, step_gives, well_wired,
    Instr, Kernel, Weight,
};
use crate::attention::layer_program::{
    end_pass, finish_layer, layer_follows, op_gives, op_width, pass_follows, start_pass, BlockKind,
    LayerFlags, Op, Source,
};
use crate::attention::routed_experts::{routed_callable, routed_ran, run_routed};
use crate::words::{contents, copy_row, cut_row, lemma_part_width, row_parts};

verus! {

/// Geometry that every layer shares. Floating-point values are bit patterns.
#[derive(Clone, Copy, Debug, PartialEq, Eq, Structural)]
pub struct Dsv4Dims {
    /// Hidden width.
    pub hidden: usize,
    /// Width of the Q-down latent.
    pub q_lora_rank: usize,
    /// Width of the KV-down latent.
    pub kv_lora_rank: usize,
    /// Number of attention heads.
    pub n_heads: usize,
    /// Width of a head.
    pub head_dim: usize,
    /// Width between the two output projections.
    pub output_intermediate: usize,
    /// Width inside an expert.
    pub ffn_dim: usize,
    /// Routed experts in a layer.
    pub num_experts: usize,
    /// Routed experts that a token goes to.
    pub experts_per_token: usize,
    /// Experts that every token goes to.
    pub num_shared_experts: usize,
    /// Vocabulary size.
    pub vocab: usize,
    pub norm_eps: u32,
    pub expert_weights_scale: u32,
    /// How many dimensions of a head are rotated.
    pub rope_dim: usize,
    pub rope_base: u64,
}

/// The latent rows of every layer, one row per token.
#[derive(Clone, Debug)]
pub struct Dsv4KvCache {
    /// Per layer the rows one behind the other.
    pub layers: Vec<Vec<u32>>,
    /// Width of a row.
    pub kv_lora_rank: usize,
    /// Position of the next token.
    pub next_position: usize,
}

impl Dsv4KvCache {
    /// Every layer holds one row for each of the tokens before the next one.
    pub open spec fn wf(&self) -> bool {
        forall|l: int|
            0 <= l < self.layers@.len() ==> (#[trigger] self.layers@[l])@.len()
                == self.next_position * self.kv_lora_rank
    }

    /// The first `done` layers already hold a row for the next token, the
    /// others do not.
    pub open spec fn mid_step(&self, done: nat) -> bool {
        &&& done <= self.layers@.len()
        &&& forall|l: int|
            0 <= l < self.layers@.len() ==> (#[trigger] self.layers@[l])@.len() == (
            self.next_position + if l < done {
                1int
            } else {
                0int
            }) * self.kv_lora_rank
    }

    /// A cache without tokens.
    pub fn new(num_layers: usize, kv_lora_rank: usize) -> (c: Self)
        ensures
            c.wf(),
            c.layers@.len() == num_layers,
            c.kv_lora_rank == kv_lora_rank,
            c.next_position == 0,
            forall|l: int|
                0 <= l < num_layers ==> (#[trigger] c.layers@[l])@ == Seq::<u32>::empty(),
    {
        let mut layers: Vec<Vec<u32>> = Vec::new();
        let mut i: usize = 0;
        while i < num_layers
            invariant
                i <= num_layers,
                layers@.len() == i,
                forall|l: int| 0 <= l < i ==> (#[trigger] layers@[l])@ == Seq::<u32>::empty(),
            decreases num_layers - i,
        {
            layers.push(Vec::new());
            i += 1;
        }
        Dsv4KvCache { layers, kv_lora_rank, next_position: 0 }
    }

    /// The number of layers.
    pub fn num_layers(&self) -> (n: usize)
        ensures
            n == self.layers@.len(),
    {
        self.layers.len()
    }

    /// Closes a token's step once every layer holds its row.
    pub fn advance(&mut self)
        requires
            old(self).mid_step(old(self).layers@.len()),
            old(self).next_position < usize::MAX,
        ensures
            final(self).wf(),
            final(self).layers@ == old(self).layers@,
            final(self).kv_lora_rank == old(self).kv_lora_rank,
            final(self).next_position == old(self).next_position + 1,
    {
        let ghost before = *self;
        self.next_position = self.next_position + 1;
        assert forall|l: int| 0 <= l < self.layers@.len() implies (
        #[trigger] self.layers@[l])@.len() == self.next_position * self.kv_lora_rank by {
            assert(before.layers@[l]@.len() == (before.next_position + 1int) * before.kv_lora_rank);
        }
    }
}

/// Appends a token's latent row to a layer, and gives the number of rows that
/// the layer then holds.
pub fn latent_step(cache: &mut Dsv4KvCache, layer: usize, latent: &[u32]) -> (seq_len: usize)
    requires
        layer < old(cache).layers@.len(),
        latent@.len() == old(cache).kv_lora_rank,
        old(cache).kv_lora_rank > 0,
    ensures
        final(cache).layers@.len() == old(cache).layers@.len(),
        final(cache).layers@[layer as int]@ == old(cache).layers@[layer as int]@ + latent@,
        forall|l: int|
            0 <= l < final(cache).layers@.len() && l != layer ==> final(cache).layers@[l]
                == old(cache).layers@[l],
        final(cache).kv_lora_rank == old(cache).kv_lora_rank,
        final(cache).next_position == old(cache).next_position,
        seq_len == final(cache).layers@[layer as int]@.len() / final(cache).kv_lora_rank as nat,
        old(cache).mid_step(layer as nat) ==> final(cache).mid_step((layer + 1) as nat) && seq_len
            == old(cache).next_position + 1,
{
    let ghost before = *cache;
    let mut rows: Vec<u32> = Vec::new();
    std::mem::swap(&mut rows, &mut cache.layers[layer]);
    let ghost o = rows@;
    rows.extend_from_slice(latent);
    assert(rows@ =~= o + latent@);
    let n: usize = rows.len();
    cache.layers.set(layer, rows);
    proof {
        let p = cache.next_position as int;
        let k = cache.kv_lora_rank as int;
        if before.mid_step(layer as nat) {
            assert(o.len() == (p + 0int) * k);
            assert((p + 1) * k == (p + 0) * k + k) by (nonlinear_arith);
            assert((p + 1) * k / k == p + 1) by (nonlinear_arith)
                requires
                    k > 0,
            ;
            assert forall|l: int| 0 <= l < cache.layers@.len() implies (
            #[trigger] cache.layers@[l])@.len() == (cache.next_position + if l < layer + 1 {
                1int
            } else {
                0int
            }) * cache.kv_lora_rank by {
                assert(before.layers@[l]@.len() == (before.next_position + if l < layer {
                    1int
                } else {
                    0int
                }) * before.kv_lora_rank);
            }
        }
    }
    n / cache.kv_lora_rank
}

/// One of a layer's latent rows: its rotated part and the rest.
pub fn latent_parts(rows: &[u32], pos: usize, kv_lora_rank: usize, rope_dim: usize) -> (r: (
    Vec<u32>,
    Vec<u32>,
))
    requires
        (pos + 1) * kv_lora_rank <= rows@.len(),
        rope_dim <= kv_lora_rank,
    ensures
        r.0@ + r.1@ == rows@.subrange(pos * kv_lora_rank, (pos + 1) * kv_lora_rank),
        r.0@.len() == rope_dim,
{
    head_query(rows, pos, kv_lora_rank, rope_dim)
}

/// A step of a token through the layers keeps the cache whole: before the first
/// layer nothing is done.
pub proof fn law_step_starts_clean(c: Dsv4KvCache)
    requires
        c.wf(),
    ensures
        c.mid_step(0),
{
    assert forall|l: int| 0 <= l < c.layers@.len() implies (#[trigger] c.layers@[l])@.len() == (
    c.next_position + 0int) * c.kv_lora_rank by {
    }
}

/// The rotary step applies to a row of a width: some dimensions are rotated,
/// and not more than there are.
pub fn rotates(rope_dim: usize, width: usize) -> (r: bool)
    ensures
        r == (0 < rope_dim <= width),
{
    rope_dim > 0 && rope_dim <= width
}

/// The query of one head: its rotated part and the rest.
pub fn head_query(q_full: &[u32], head: usize, head_dim: usize, rope_dim: usize) -> (r: (
    Vec<u32>,
    Vec<u32>,
))
    requires
        (head + 1) * head_dim <= q_full@.len(),
        rope_dim <= head_dim,
    ensures
        r.0@ + r.1@ == q_full@.subrange(head * head_dim, (head + 1) * head_dim),
        r.0@.len() == rope_dim,
{
    let ghost h = head as int;
    let ghost d = head_dim as int;
    let total: usize = q_full.len();
    assert((h + 1) * d == h * d + d && 0 <= h * d) by (nonlinear_arith)
        requires
            h >= 0,
            d >= 0,
    ;
    let start: usize = head * head_dim;
    let rope: &[u32] = vstd::slice::slice_subrange(q_full, start, start + rope_dim);
    let nope: &[u32] = vstd::slice::slice_subrange(q_full, start + rope_dim, start + head_dim);
    let a: Vec<u32> = vstd::slice::slice_to_vec(rope);
    let b: Vec<u32> = vstd::slice::slice_to_vec(nope);
    assert(a@ =~= rope@);
    assert(b@ =~= nope@);
    assert(a@ + b@ =~= q_full@.subrange(h * d, (h + 1) * d));
    (a, b)
}

/// How many words of a head's value output go into the projection.
pub open spec fn head_take(dims: Dsv4Dims) -> int {
    let per_head = dims.output_intermediate as int / dims.n_heads as int;
    let nope = dims.kv_lora_rank - dims.rope_dim;
    if per_head < nope {
        per_head
    } else {
        nope
    }
}

/// The input of the output projection: each head's share holds the first words
/// of its value output, and zero behind them.
pub open spec fn joined_heads(outs: Seq<Seq<u32>>, dims: Dsv4Dims) -> Seq<u32> {
    let per_head = dims.output_intermediate as int / dims.n_heads as int;
    Seq::new(
        dims.output_intermediate as nat,
        |k: int|
            if per_head > 0 && k / per_head < dims.n_heads && k % per_head < head_take(dims) {
                outs[k / per_head][k % per_head]
            } else {
                0u32
            },
    )
}

/// Puts the heads' value outputs side by side, each cut to its share of the
/// output projection's input.
pub fn concat_heads(per_head: &Vec<Vec<u32>>, dims: &Dsv4Dims) -> (out: Vec<u32>)
    requires
        dims.n_heads > 0,
        dims.rope_dim <= dims.kv_lora_rank,
        per_head@.len() == dims.n_heads,
        forall|h: int|
            0 <= h < per_head@.len() ==> (#[trigger] per_head@[h])@.len() == dims.kv_lora_rank
                - dims.rope_dim,
    ensures
        out@ == joined_heads(contents(per_head@), *dims),
{
    let share: usize = dims.output_intermediate / dims.n_heads;
    let nope: usize = dims.kv_lora_rank - dims.rope_dim;
    let take: usize = if share < nope {
        share
    } else {
        nope
    };
    let mut out: Vec<u32> = Vec::new();
    let mut k: usize = 0;
    while k < dims.output_intermediate
        invariant
            k <= dims.output_intermediate,
            dims.n_heads > 0,
            dims.rope_dim <= dims.kv_lora_rank,
            share == dims.output_intermediate / dims.n_heads,
            take == head_take(*dims),
            per_head@.len() == dims.n_heads,
            forall|h: int|
                0 <= h < per_head@.len() ==> (#[trigger] per_head@[h])@.len() == dims.kv_lora_rank
                    - dims.rope_dim,
            out@ == joined_heads(contents(per_head@), *dims).take(k as int),
        decreases dims.output_intermediate - k,
    {
        let mut v: u32 = 0;
        if share > 0 {
            let h: usize = k / share;
            let i: usize = k % share;
            if h < dims.n_heads && i < take {
                assert(per_head@[h as int]@.len() == dims.kv_lora_rank - dims.rope_dim);
                v = per_head[h][i];
            }
        }
        out.push(v);
        k += 1;
        assert(out@ =~= joined_heads(contents(per_head@), *dims).take(k as int));
    }
    assert(joined_heads(contents(per_head@), *dims).take(k as int) =~= joined_heads(
        contents(per_head@),
        *dims,
    ));
    out
}

/// Where a word of head `h` lands in the projection's input.
pub proof fn law_head_share(outs: Seq<Seq<u32>>, dims: Dsv4Dims, h: int, i: int)
    requires
        dims.n_heads > 0,
        0 <= h < dims.n_heads,
        0 <= i < head_take(dims),
    ensures
        ({
            let per_head = dims.output_intermediate as int / dims.n_heads as int;
            let k = h * per_head + i;
            0 <= k < dims.output_intermediate && joined_heads(outs, dims)[k] == outs[h][i]
        }),
{
    let w = dims.output_intermediate as int;
    let n = dims.n_heads as int;
    let s = w / n;
    let k = h * s + i;
    assert(0 <= k < w && k / s == h && k % s == i) by (nonlinear_arith)
        requires
            n > 0,
            w >= 0,
            s == w / n,
            0 <= h < n,
            0 <= i < s,
            k == h * s + i,
    ;
}

/// A fused gate and up projection in its two halves.
pub fn split_gate_up(gate_up: &[u32]) -> (r: (Vec<u32>, Vec<u32>))
    ensures
        r.0@ + r.1@ == gate_up@,
        r.0@.len() == gate_up@.len() / 2,
{
    let n: usize = gate_up.len();
    let half: usize = n / 2;
    let g: Vec<u32> = vstd::slice::slice_to_vec(vstd::slice::slice_subrange(gate_up, 0, half));
    let u: Vec<u32> = vstd::slice::slice_to_vec(vstd::slice::slice_subrange(gate_up, half, n));
    assert(g@ =~= gate_up@.subrange(0, half as int));
    assert(u@ =~= gate_up@.subrange(half as int, n as int));
    assert(g@ + u@ =~= gate_up@);
    (g, u)
}

/// The rotary step of a row of some heads.
fn rotation_step(rope_dim: usize, heads: usize, width: usize, position: usize) -> (k: Kernel)
    ensures
        k == rotation(rope_dim, heads, width, position),
        k == (if 0 < rope_dim && rope_dim <= width {
            Kernel::Rotate { heads, width, position }
        } else {
            Kernel::Keep
        }),
{
    if rotates(rope_dim, width) {
        Kernel::Rotate { heads, width, position }
    } else {
        Kernel::Keep
    }
}

/// The attention block of one token at a position: its kernels, and how they are
/// wired. Of the two output matrices only the second is read.
pub fn mla_attention_code(dims: &Dsv4Dims, position: usize) -> (code: Vec<Instr>)
    ensures
        code@ == latent_code(
            dims.rope_dim,
            dims.n_heads,
            dims.head_dim,
            dims.kv_lora_rank,
            position,
        ),
        well_wired(code@),
        0 < dims.rope_dim <= dims.head_dim ==> code@[4].kernel == (Kernel::Rotate {
            heads: dims.n_heads,
            width: dims.head_dim,
            position,
        }),
        0 < dims.rope_dim <= dims.kv_lora_rank ==> code@[7].kernel == (Kernel::Rotate {
            heads: 1,
            width: dims.kv_lora_rank,
            position,
        }),
{
    let mut code: Vec<Instr> = Vec::new();
    push_one(&mut code, Kernel::Norm(Weight::AttnNorm), 0);
    push_one(&mut code, Kernel::Project(Weight::QDown, Source::Quant), 1);
    push_one(&mut code, Kernel::Norm(Weight::QDownNorm), 2);
    push_one(&mut code, Kernel::Project(Weight::QUp, Source::Quant), 3);
    let rotate_q: Kernel = rotation_step(dims.rope_dim, dims.n_heads, dims.head_dim, position);
    push_one(&mut code, rotate_q, 4);
    push_one(&mut code, Kernel::Project(Weight::KvDown, Source::Quant), 1);
    push_one(&mut code, Kernel::Norm(Weight::KvDownNorm), 6);
    let rotate_kv: Kernel = rotation_step(dims.rope_dim, 1, dims.kv_lora_rank, position);
    push_one(&mut code, rotate_kv, 7);
    push_one(&mut code, Kernel::AppendLatent, 8);
    push_two(&mut code, Kernel::AttendLatent, 5, 9);
    push_one(&mut code, Kernel::JoinHeads, 10);
    push_one(&mut code, Kernel::Project(Weight::OutputB, Source::Quant), 11);
    assert(code@ =~= latent_code(
        dims.rope_dim,
        dims.n_heads,
        dims.head_dim,
        dims.kv_lora_rank,
        position,
    ));
    code
}

/// How many words of a latent row are not rotated: the width of a head's output.
pub open spec fn plain_width(dims: Dsv4Dims) -> nat {
    (dims.kv_lora_rank - dims.rope_dim) as nat
}

/// The kernels of a layer's attention block give rows of the widths that the
/// geometry asks for: the projection to the latent and the output projection by
/// their matrices, attention one part for every head, a norm and a rotation what
/// they get.
pub open spec fn latent_widths<F: Fn(usize, Kernel, Vec<Vec<u32>>) -> Vec<u32>>(
    kernels: F,
    layer: usize,
    dims: Dsv4Dims,
) -> bool {
    &&& forall|args: Seq<Seq<u32>>, out: Seq<u32>| #[trigger]
        may_give(kernels, layer, Kernel::Project(Weight::KvDown, Source::Quant), args, out)
            ==> out.len() == dims.kv_lora_rank
    &&& forall|args: Seq<Seq<u32>>, out: Seq<u32>| #[trigger]
        may_give(kernels, layer, Kernel::Project(Weight::OutputB, Source::Quant), args, out)
            ==> out.len() == dims.hidden
    &&& forall|args: Seq<Seq<u32>>, out: Seq<u32>| #[trigger]
        may_give(kernels, layer, Kernel::AttendLatent, args, out) ==> out.len() == dims.n_heads
            * plain_width(dims)
    &&& forall|k: Kernel, args: Seq<Seq<u32>>, out: Seq<u32>| #[trigger]
        may_give(kernels, layer, k, args, out) && (k is Norm || k is Rotate) && args.len() == 1
            ==> out.len() == args[0].len()
}

/// The values of an attention block that ran on `x`: the layer's rows were
/// `before`, the row that was appended is the rotated latent, or the plain one
/// where nothing is rotated, the attention reads all rows with it, and the heads'
/// outputs are joined, each cut to its share.
pub open spec fn latent_values<F: Fn(usize, Kernel, Vec<Vec<u32>>) -> Vec<u32>>(
    kernels: F,
    layer: usize,
    dims: Dsv4Dims,
    position: usize,
    before: Seq<u32>,
    x: Seq<u32>,
    values: Seq<Seq<u32>>,
) -> bool {
    let code = latent_code(
        dims.rope_dim,
        dims.n_heads,
        dims.head_dim,
        dims.kv_lora_rank,
        position,
    );
    &&& values.len() == code.len() + 1
    &&& values[0] == x
    &&& follows(kernels, layer, code, values, 0, 8)
    &&& values[9] == before + values[8]
    &&& follows(kernels, layer, code, values, 9, 10)
    &&& values[11] == joined_heads(
        row_parts(values[10], dims.n_heads as nat, plain_width(dims)),
        dims,
    )
    &&& follows(kernels, layer, code, values, 11, code.len() as int)
}

/// Where nothing is rotated, the queries that attend are the projected ones, and
/// the row that is appended is the normed latent.
pub proof fn law_unrotated_rows_are_kept<F: Fn(usize, Kernel, Vec<Vec<u32>>) -> Vec<u32>>(
    kernels: F,
    layer: usize,
    dims: Dsv4Dims,
    position: usize,
    before: Seq<u32>,
    x: Seq<u32>,
    values: Seq<Seq<u32>>,
)
    requires
        latent_values(kernels, layer, dims, position, before, x, values),
    ensures
        !(0 < dims.rope_dim <= dims.head_dim) ==> values[5] == values[4],
        !(0 < dims.rope_dim <= dims.kv_lora_rank) ==> values[8] == values[7],
{
    let code = latent_code(
        dims.rope_dim,
        dims.n_heads,
        dims.head_dim,
        dims.kv_lora_rank,
        position,
    );
    assert(step_gives(kernels, layer, code[4].kernel, seq![values[4]], values[5]));
    assert(step_gives(kernels, layer, code[7].kernel, seq![values[7]], values[8]));
}

/// An attention block at a position ran on `x` and gave `y`, and the layer's rows
/// went from `before` to `after`.
pub open spec fn latent_ran<F: Fn(usize, Kernel, Vec<Vec<u32>>) -> Vec<u32>>(
    kernels: F,
    layer: usize,
    dims: Dsv4Dims,
    position: usize,
    before: Seq<u32>,
    x: Seq<u32>,
    after: Seq<u32>,
    y: Seq<u32>,
) -> bool {
    exists|values: Seq<Seq<u32>>| #[trigger]
        latent_values(kernels, layer, dims, position, before, x, values) && after == before + values[8] && y
            == values[12]
}

/// The attention block of one token, at the position that comes next in the
/// cache. The floating-point kernels are the caller's; the token's latent row
/// goes behind the layer's other rows, and nothing else in the cache changes.
pub fn mla_attention_step<F: Fn(usize, Kernel, Vec<Vec<u32>>) -> Vec<u32>>(
    x: &Vec<u32>,
    layer: usize,
    dims: &Dsv4Dims,
    cache: &mut Dsv4KvCache,
    kernels: &F,
) -> (y: Vec<u32>)
    requires
        layer < old(cache).layers@.len(),
        old(cache).kv_lora_rank == dims.kv_lora_rank,
        dims.kv_lora_rank > 0,
        dims.n_heads > 0,
        dims.rope_dim <= dims.kv_lora_rank,
        forall|k: Kernel, a: Vec<Vec<u32>>| call_requires(*kernels, (layer, k, a)),
        latent_widths(*kernels, layer, *dims),
    ensures
        latent_ran(
            *kernels,
            layer,
            *dims,
            old(cache).next_position,
            old(cache).layers@[layer as int]@,
            x@,
            final(cache).layers@[layer as int]@,
            y@,
        ),
        y@.len() == dims.hidden,
        final(cache).layers@.len() == old(cache).layers@.len(),
        final(cache).layers@[layer as int]@.len() == old(cache).layers@[layer as int]@.len()
            + dims.kv_lora_rank,
        final(cache).layers@[layer as int]@.take(old(cache).layers@[layer as int]@.len() as int)
            == old(cache).layers@[layer as int]@,
        forall|l: int|
            0 <= l < final(cache).layers@.len() && l != layer ==> final(cache).layers@[l]
                == old(cache).layers@[l],
        final(cache).kv_lora_rank == old(cache).kv_lora_rank,
        final(cache).next_position == old(cache).next_position,
        old(cache).mid_step(layer as nat) ==> final(cache).mid_step((layer + 1) as nat),
{
    let ghost before = cache.layers@[layer as int]@;
    let position: usize = cache.next_position;
    let code: Vec<Instr> = mla_attention_code(dims, position);
    let mut values: Vec<Vec<u32>> = Vec::new();
    values.push(copy_row(x));
    run_kernels(&code, 8, layer, &mut values, kernels);
    let ghost first = contents(values@);
    proof {
        assert(first.take(1)[0] == x@);
        assert(may_give(*kernels, layer, code@[5].kernel, seq![first[1]], first[6]));
        assert(may_give(*kernels, layer, code@[6].kernel, seq![first[6]], first[7]));
        assert(step_gives(*kernels, layer, code@[7].kernel, seq![first[7]], first[8]));
        assert(first[8].len() == first[7].len());
        assert(first[8] == values@[8]@);
    }
    latent_step(cache, layer, values[8].as_slice());
    values.push(copy_row(&cache.layers[layer]));
    let ghost second = contents(values@);
    run_kernels(&code, 10, layer, &mut values, kernels);
    let ghost third = contents(values@);
    proof {
        assert(may_give(*kernels, layer, code@[9].kernel, seq![third[5], third[9]], third[10]));
        assert(third[10] == values@[10]@);
    }
    let heads: Vec<Vec<u32>> = cut_row(
        &values[10],
        dims.n_heads,
        dims.kv_lora_rank - dims.rope_dim,
    );
    proof {
        assert(contents(heads@).len() == heads@.len());
        assert forall|h: int| 0 <= h < heads@.len() implies (#[trigger] heads@[h])@.len()
            == dims.kv_lora_rank - dims.rope_dim by {
            assert(contents(heads@)[h] == heads@[h]@);
            lemma_part_width(values@[10]@, dims.n_heads as nat, plain_width(*dims), h);
        }
    }
    values.push(concat_heads(&heads, dims));
    let ghost fourth = contents(values@);
    run_kernels(&code, 12, layer, &mut values, kernels);
    proof {
        let all = contents(values@);
        assert forall|i: int| 0 <= i < 12 implies all[i] == fourth[i] by {
            assert(all.take(12)[i] == all[i]);
        }
        assert forall|i: int| 0 <= i < 11 implies all[i] == third[i] by {
            assert(all[i] == fourth[i]);
        }
        assert forall|i: int| 0 <= i < 10 implies all[i] == second[i] by {
            assert(third.take(10)[i] == third[i]);
            assert(all[i] == third[i]);
        }
        assert forall|i: int| 0 <= i < 9 implies all[i] == first[i] by {
            assert(all[i] == second[i]);
        }
        lemma_follows_carries(*kernels, layer, code@, first, all, 0, 8);
        lemma_follows_carries(*kernels, layer, code@, third, all, 9, 10);
        assert(all[11] == fourth[11]);
        assert(latent_values(*kernels, layer, *dims, position, before, x@, all));
        assert(may_give(*kernels, layer, code@[11].kernel, seq![all[11]], all[12]));
        assert(all[12] == values@[12]@);
        assert((before + all[8]).take(before.len() as int) =~= before);
    }
    let y: Vec<u32> = copy_row(&values[12]);
    y
}

/// The experts of one token: their kernels, and how they are wired.
pub fn moe_ffn_code(has_bias: bool, dims: &Dsv4Dims) -> (code: Vec<Instr>)
    ensures
        code@ == moe_code(has_bias, dims.experts_per_token, dims.expert_weights_scale),
        well_wired(code@),
{
    let mut code: Vec<Instr> = Vec::new();
    push_one(&mut code, Kernel::Project(Weight::Router, Source::Quant), 0);
    let bias: Kernel = if has_bias {
        Kernel::AddWeight(Weight::RouterBias)
    } else {
        Kernel::Keep
    };
    push_one(&mut code, bias, 1);
    let scale: u32 = dims.expert_weights_scale;
    push_two(
        &mut code,
        Kernel::RouteExperts { k: dims.experts_per_token, scale: Some(scale) },
        0,
        2,
    );
    push_one(&mut code, Kernel::Project(Weight::SharedGate, Source::Quant), 0);
    push_one(&mut code, Kernel::Project(Weight::SharedUp, Source::Quant), 0);
    push_two(&mut code, Kernel::SwiGlu, 4, 5);
    push_one(&mut code, Kernel::Project(Weight::SharedDown, Source::Quant), 6);
    push_two(&mut code, Kernel::Add, 3, 7);
    assert(code@ =~= moe_code(has_bias, dims.experts_per_token, scale));
    code
}

/// What a picked expert may make of a row: the fused projection in its two halves,
/// gated, and led down.
pub open spec fn fused_expert_ran<F: Fn(usize, Kernel, Vec<Vec<u32>>) -> Vec<u32>>(
    kernels: F,
    layer: usize,
    expert: usize,
    x: Seq<u32>,
    y: Seq<u32>,
) -> bool {
    exists|fused: Seq<u32>, inner: Seq<u32>|
        {
            let half = fused.len() as int / 2;
            &&& #[trigger] row_given(kernels, layer, Kernel::ExpertGateUp { expert }, x, fused)
            &&& may_give(
                kernels,
                layer,
                Kernel::SwiGlu,
                seq![fused.take(half), fused.skip(half)],
                inner,
            )
            &&& #[trigger] row_given(kernels, layer, Kernel::ExpertDown { expert }, inner, y)
        }
}

/// What a kernel of a layer may make of one row.
pub open spec fn row_given<F: Fn(usize, Kernel, Vec<Vec<u32>>) -> Vec<u32>>(
    kernels: F,
    layer: usize,
    k: Kernel,
    x: Seq<u32>,
    y: Seq<u32>,
) -> bool {
    may_give(kernels, layer, k, seq![x], y)
}

fn call_row<F: Fn(usize, Kernel, Vec<Vec<u32>>) -> Vec<u32>>(
    kernels: &F,
    layer: usize,
    kernel: Kernel,
    x: &Vec<u32>,
) -> (y: Vec<u32>)
    requires
        forall|k: Kernel, a: Vec<Vec<u32>>| call_requires(*kernels, (layer, k, a)),
    ensures
        row_given(*kernels, layer, kernel, x@, y@),
{
    let mut args: Vec<Vec<u32>> = Vec::new();
    args.push(copy_row(x));
    assert(contents(args@) =~= seq![x@]);
    call_kernel(kernels, layer, kernel, args)
}

/// A picked expert of a layer, whose gate and up projections are fused.
pub fn fused_expert_step<F: Fn(usize, Kernel, Vec<Vec<u32>>) -> Vec<u32>>(
    x: &Vec<u32>,
    layer: usize,
    expert: usize,
    kernels: &F,
) -> (y: Vec<u32>)
    requires
        forall|k: Kernel, a: Vec<Vec<u32>>| call_requires(*kernels, (layer, k, a)),
    ensures
        fused_expert_ran(*kernels, layer, expert, x@, y@),
{
    let fused: Vec<u32> = call_row(kernels, layer, Kernel::ExpertGateUp { expert }, x);
    let (gate, up): (Vec<u32>, Vec<u32>) = split_gate_up(fused.as_slice());
    let ghost half = fused@.len() as int / 2;
    assert(gate@ =~= fused@.take(half));
    assert(up@ =~= fused@.skip(half));
    let mut args: Vec<Vec<u32>> = Vec::new();
    args.push(gate);
    args.push(up);
    assert(contents(args@) =~= seq![fused@.take(half), fused@.skip(half)]);
    let inner: Vec<u32> = call_kernel(kernels, layer, Kernel::SwiGlu, args);
    call_row(kernels, layer, Kernel::ExpertDown { expert }, &inner)
}

/// The values of a token's experts that ran on `x`: the router scores them, with the
/// bias where there is one, the best are weighted, scaled and added up, and the
/// shared expert is added.
pub open spec fn moe_values<
    F: Fn(usize, Kernel, Vec<Vec<u32>>) -> Vec<u32>,
    W: Fn(&Vec<u32>, Option<u32>) -> Vec<u32>,
    E: Fn(usize, &Vec<u32>) -> Vec<u32>,
    A: Fn(u32, &Vec<u32>, &Vec<u32>) -> Vec<u32>,
>(
    kernels: F,
    weigh: W,
    expert: E,
    accumulate: A,
    layer: usize,
    has_bias: bool,
    dims: Dsv4Dims,
    x: Seq<u32>,
    values: Seq<Seq<u32>>,
) -> bool {
    let code = moe_code(has_bias, dims.experts_per_token, dims.expert_weights_scale);
    &&& values.len() == code.len() + 1
    &&& values[0] == x
    &&& follows(kernels, layer, code, values, 0, 2)
    &&& routed_ran(
        weigh,
        expert,
        accumulate,
        x,
        values[2],
        dims.experts_per_token as nat,
        Some(dims.expert_weights_scale),
        dims.hidden as nat,
        values[3],
    )
    &&& follows(kernels, layer, code, values, 3, code.len() as int)
}

/// The experts of one token in a layer. The floating-point work is the caller's: the
/// kernels, the weights of the picked scores, an expert on the row, and the addition
/// of a weighted row.
pub fn moe_ffn_step<
    F: Fn(usize, Kernel, Vec<Vec<u32>>) -> Vec<u32>,
    W: Fn(&Vec<u32>, Option<u32>) -> Vec<u32>,
    E: Fn(usize, &Vec<u32>) -> Vec<u32>,
    A: Fn(u32, &Vec<u32>, &Vec<u32>) -> Vec<u32>,
>(
    x: &Vec<u32>,
    layer: usize,
    has_bias: bool,
    dims: &Dsv4Dims,
    kernels: &F,
    weigh: &W,
    expert: &E,
    accumulate: &A,
) -> (y: Vec<u32>)
    requires
        forall|k: Kernel, a: Vec<Vec<u32>>| call_requires(*kernels, (layer, k, a)),
        forall|k: Kernel, args: Seq<Seq<u32>>, out: Seq<u32>| #[trigger]
            may_give(*kernels, layer, k, args, out) && (k == Kernel::Project(
                Weight::Router,
                Source::Quant,
            ) || k == Kernel::AddWeight(Weight::RouterBias)) ==> out.len() == dims.num_experts,
        routed_callable(*weigh, *expert, *accumulate, dims.num_experts as nat),
    ensures
        exists|values: Seq<Seq<u32>>| #[trigger]
            moe_values(
                *kernels,
                *weigh,
                *expert,
                *accumulate,
                layer,
                has_bias,
                *dims,
                x@,
                values,
            ) && y@ == values.last(),
{
    let code: Vec<Instr> = moe_ffn_code(has_bias, dims);
    let mut values: Vec<Vec<u32>> = Vec::new();
    values.push(copy_row(x));
    run_kernels(&code, 2, layer, &mut values, kernels);
    let ghost first = contents(values@);
    proof {
        assert(first.take(1)[0] == x@);
        assert(may_give(*kernels, layer, code@[0].kernel, seq![first[0]], first[1]));
        assert(step_gives(*kernels, layer, code@[1].kernel, seq![first[1]], first[2]));
        assert(first[2].len() == dims.num_experts);
        assert(first[2] == values@[2]@);
    }
    let routed: Vec<u32> = run_routed(
        x,
        &values[2],
        dims.experts_per_token,
        Some(dims.expert_weights_scale),
        dims.hidden,
        weigh,
        expert,
        accumulate,
    );
    values.push(routed);
    let ghost second = contents(values@);
    run_kernels(&code, 8, layer, &mut values, kernels);
    proof {
        let all = contents(values@);
        assert forall|i: int| 0 <= i < 4 implies all[i] == second[i] by {
            assert(all.take(4)[i] == all[i]);
        }
        assert forall|i: int| 0 <= i < 3 implies all[i] == first[i] by {
            assert(all[i] == second[i]);
        }
        lemma_follows_carries(*kernels, layer, code@, first, all, 0, 2);
        assert(all[3] == second[3]);
        assert(moe_values(
            *kernels,
            *weigh,
            *expert,
            *accumulate,
            layer,
            has_bias,
            *dims,
            x@,
            all,
        ));
        assert(all[8] == values@[8]@);
    }
    copy_row(&values[8])
}

/// The layers of a latent-attention model: every one of them routes to experts.
pub open spec fn latent_layers(n: nat) -> Seq<LayerFlags> {
    Seq::new(n, |i: int| latent_flags())
}

/// A layer of a latent-attention model.
pub open spec fn latent_flags() -> LayerFlags {
    LayerFlags {
        block: BlockKind::Latent,
        has_moe: true,
        gate_quant: false,
        up_quant: false,
        down_quant: false,
    }
}

/// The kernels of every layer's attention block can be called, and give rows of
/// the widths that the geometry asks for.
pub open spec fn latent_kernels<F: Fn(usize, Kernel, Vec<Vec<u32>>) -> Vec<u32>>(
    kernels: F,
    dims: Dsv4Dims,
) -> bool {
    &&& forall|l: usize, k: Kernel, a: Vec<Vec<u32>>| call_requires(kernels, (l, k, a))
    &&& forall|l: usize| #[trigger] latent_widths(kernels, l, dims)
}

/// The pass of one token: the embedding, every layer at the position that comes
/// next in the cache, the final norm and the scores. Every layer's cache gains
/// the token's latent row, and the cache moves on by one position.
pub fn dsv4_forward_step<
    F: Fn(usize, Kernel, Vec<Vec<u32>>) -> Vec<u32>,
    G: Fn(Op, Vec<Vec<u32>>) -> Vec<u32>,
>(
    token_id: u32,
    dims: &Dsv4Dims,
    cache: &mut Dsv4KvCache,
    kernels: &F,
    ops: &G,
) -> (logits: Vec<u32>)
    requires
        old(cache).wf(),
        old(cache).kv_lora_rank == dims.kv_lora_rank,
        dims.kv_lora_rank > 0,
        dims.n_heads > 0,
        dims.rope_dim <= dims.kv_lora_rank,
        old(cache).next_position < usize::MAX,
        latent_kernels(*kernels, *dims),
        forall|o: Op, a: Vec<Vec<u32>>| call_requires(*ops, (o, a)),
    ensures
        forall|n: nat| #[trigger] op_width(*ops, Op::LmHead(Source::Quant), n) ==> logits@.len() == n,
        final(cache).wf(),
        final(cache).next_position == old(cache).next_position + 1,
        final(cache).kv_lora_rank == old(cache).kv_lora_rank,
        final(cache).layers@.len() == old(cache).layers@.len(),
        forall|l: int|
            0 <= l < final(cache).layers@.len() ==> (#[trigger] final(cache).layers@[l])@.len()
                == old(cache).layers@[l]@.len() + dims.kv_lora_rank
                && final(cache).layers@[l]@.take(old(cache).layers@[l]@.len() as int)
                == old(cache).layers@[l]@,
        exists|xs: Seq<Seq<u32>>, blocks: Seq<Seq<u32>>|
            {
                &&& #[trigger] pass_follows(
                    *ops,
                    latent_layers(old(cache).layers@.len()),
                    token_id,
                    Source::Dense,
                    Source::Quant,
                    xs,
                    blocks,
                    logits@,
                )
                &&& forall|l: int|
                    0 <= l < blocks.len() ==> latent_ran(
                        *kernels,
                        l as usize,
                        *dims,
                        old(cache).next_position,
                        old(cache).layers@[l]@,
                        xs[l],
                        final(cache).layers@[l]@,
                        #[trigger] blocks[l],
                    )
            },
{
    let ghost before = *cache;
    let n: usize = cache.num_layers();
    let flags: LayerFlags = LayerFlags {
        block: BlockKind::Latent,
        has_moe: true,
        gate_quant: false,
        up_quant: false,
        down_quant: false,
    };
    let mut x: Vec<u32> = start_pass(ops, token_id, Source::Dense);
    let ghost mut xs: Seq<Seq<u32>> = seq![x@];
    let ghost mut blocks: Seq<Seq<u32>> = Seq::empty();
    let mut l: usize = 0;
    proof {
        law_step_starts_clean(before);
    }
    while l < n
        invariant
            dims.n_heads > 0,
            dims.rope_dim <= dims.kv_lora_rank,
            l <= n,
            n == before.layers@.len(),
            flags == latent_flags(),
            before.kv_lora_rank == dims.kv_lora_rank,
            dims.kv_lora_rank > 0,
            latent_kernels(*kernels, *dims),
            forall|o: Op, a: Vec<Vec<u32>>| call_requires(*ops, (o, a)),
            cache.mid_step(l as nat),
            cache.next_position == before.next_position,
            cache.kv_lora_rank == before.kv_lora_rank,
            cache.layers@.len() == n,
            xs.len() == l + 1,
            blocks.len() == l,
            op_gives(
                *ops,
                Op::Embed(token_id, Source::Dense),
                Seq::empty(),
                xs[0],
            ),
            x@ == xs[l as int],
            forall|i: int|
                0 <= i < l ==> latent_ran(
                    *kernels,
                    i as usize,
                    *dims,
                    before.next_position,
                    before.layers@[i]@,
                    xs[i],
                    cache.layers@[i]@,
                    #[trigger] blocks[i],
                ),
            forall|i: int|
                0 <= i < l ==> layer_follows(
                    *ops,
                    latent_flags(),
                    i as usize,
                    xs[i],
                    #[trigger] blocks[i],
                    xs[i + 1],
                ),
            forall|i: int|
                0 <= i < l ==> (#[trigger] cache.layers@[i])@.len() == before.layers@[i]@.len()
                    + dims.kv_lora_rank && cache.layers@[i]@.take(
                    before.layers@[i]@.len() as int,
                ) == before.layers@[i]@,
            forall|i: int| l <= i < n ==> #[trigger] cache.layers@[i] == before.layers@[i],
        decreases n - l,
    {
        assert(latent_widths(*kernels, l, *dims));
        let block: Vec<u32> = mla_attention_step(&x, l, dims, cache, kernels);
        let next: Vec<u32> = finish_layer(ops, &flags, l, &x, &block);
        proof {
            xs = xs.push(next@);
            blocks = blocks.push(block@);
        }
        x = next;
        l += 1;
    }
    let logits: Vec<u32> = end_pass(ops, Source::Quant, &x);
    cache.advance();
    proof {
        let layers = latent_layers(n as nat);
        assert(pass_follows(
            *ops,
            layers,
            token_id,
            Source::Dense,
            Source::Quant,
            xs,
            blocks,
            logits@,
        ));
    }
    logits
}

/// Where some dimensions of a head are rotated and not more than there are, the
/// queries of all heads are rotated by the token's position: the rotation names as
/// many heads, of the heads' width. Likewise the latent row, as one head of its
/// width. Nothing else is rotated.
pub proof fn law_rotation_names_every_head(dims: Dsv4Dims, position: usize, i: int)
    requires
        0 <= i < 12,
    ensures
        ({
            let code = latent_code(
                dims.rope_dim,
                dims.n_heads,
                dims.head_dim,
                dims.kv_lora_rank,
                position,
            );
            &&& 0 < dims.rope_dim <= dims.head_dim ==> code[4].kernel == (Kernel::Rotate {
                heads: dims.n_heads,
                width: dims.head_dim,
                position,
            })
            &&& !(0 < dims.rope_dim <= dims.head_dim) ==> code[4].kernel == Kernel::Keep
            &&& 0 < dims.rope_dim <= dims.kv_lora_rank ==> code[7].kernel == (Kernel::Rotate {
                heads: 1,
                width: dims.kv_lora_rank,
                position,
            })
            &&& !(0 < dims.rope_dim <= dims.kv_lora_rank) ==> code[7].kernel == Kernel::Keep
            &&& code[i].kernel is Rotate ==> i == 4 || i == 7
        }),
{
}

/// What an attention block at a position does to a token, step by step: the normed
/// input goes down, is normed, and goes up to the queries of all heads, which are
/// rotated by the position; it also goes down to the latent, which is normed and, as
/// one head, rotated by the position; the rotated latent is the row that the layer
/// gains, and the queries attend over all rows with it; each head's output, cut to
/// its share, goes through the output projection.
pub proof fn law_latent_block_steps<F: Fn(usize, Kernel, Vec<Vec<u32>>) -> Vec<u32>>(
    kernels: F,
    layer: usize,
    dims: Dsv4Dims,
    position: usize,
    before: Seq<u32>,
    x: Seq<u32>,
    after: Seq<u32>,
    y: Seq<u32>,
)
    requires
        latent_ran(kernels, layer, dims, position, before, x, after, y),
    ensures
        exists|v: Seq<Seq<u32>>|
            {
                &&& (#[trigger] v.len()) == 13
                &&& v[0] == x && v[12] == y
                &&& may_give(kernels, layer, Kernel::Norm(Weight::AttnNorm), seq![x], v[1])
                &&& may_give(
                    kernels,
                    layer,
                    Kernel::Project(Weight::QDown, Source::Quant),
                    seq![v[1]],
                    v[2],
                )
                &&& may_give(kernels, layer, Kernel::Norm(Weight::QDownNorm), seq![v[2]], v[3])
                &&& may_give(
                    kernels,
                    layer,
                    Kernel::Project(Weight::QUp, Source::Quant),
                    seq![v[3]],
                    v[4],
                )
                &&& if 0 < dims.rope_dim <= dims.head_dim {
                    may_give(
                        kernels,
                        layer,
                        Kernel::Rotate { heads: dims.n_heads, width: dims.head_dim, position },
                        seq![v[4]],
                        v[5],
                    )
                } else {
                    v[5] == v[4]
                }
                &&& may_give(
                    kernels,
                    layer,
                    Kernel::Project(Weight::KvDown, Source::Quant),
                    seq![v[1]],
                    v[6],
                )
                &&& may_give(kernels, layer, Kernel::Norm(Weight::KvDownNorm), seq![v[6]], v[7])
                &&& if 0 < dims.rope_dim <= dims.kv_lora_rank {
                    may_give(
                        kernels,
                        layer,
                        Kernel::Rotate { heads: 1, width: dims.kv_lora_rank, position },
                        seq![v[7]],
                        v[8],
                    )
                } else {
                    v[8] == v[7]
                }
                &&& after == before + v[8]
                &&& may_give(kernels, layer, Kernel::AttendLatent, seq![v[5], after], v[10])
                &&& v[11] == joined_heads(
                    row_parts(
                        v[10],
                        dims.n_heads as nat,
                        (dims.kv_lora_rank - dims.rope_dim) as nat,
                    ),
                    dims,
                )
                &&& may_give(
                    kernels,
                    layer,
                    Kernel::Project(Weight::OutputB, Source::Quant),
                    seq![v[11]],
                    y,
                )
            },
{
    let v = choose|values: Seq<Seq<u32>>| #[trigger]
        latent_values(kernels, layer, dims, position, before, x, values) && after == before
            + values[8] && y == values[12];
    let code = latent_code(
        dims.rope_dim,
        dims.n_heads,
        dims.head_dim,
        dims.kv_lora_rank,
        position,
    );
    assert(step_gives(kernels, layer, code[0].kernel, seq![v[0]], v[1]));
    assert(step_gives(kernels, layer, code[1].kernel, seq![v[1]], v[2]));
    assert(step_gives(kernels, layer, code[2].kernel, seq![v[2]], v[3]));
    assert(step_gives(kernels, layer, code[3].kernel, seq![v[3]], v[4]));
    assert(step_gives(kernels, layer, code[4].kernel, seq![v[4]], v[5]));
    assert(step_gives(kernels, layer, code[5].kernel, seq![v[1]], v[6]));
    assert(step_gives(kernels, layer, code[6].kernel, seq![v[6]], v[7]));
    assert(step_gives(kernels, layer, code[7].kernel, seq![v[7]], v[8]));
    assert(step_gives(kernels, layer, code[9].kernel, seq![v[5], v[9]], v[10]));
    assert(step_gives(kernels, layer, code[11].kernel, seq![v[11]], v[12]));
    assert(v.len() == 13);
}

/// The row that a layer gains at a token is rotated to its own number among the
/// layer's rows: two tokens one behind the other give rows that were rotated to two
/// positions one behind the other.
pub proof fn law_latent_rows_are_rotated_to_their_numbers<
    F: Fn(usize, Kernel, Vec<Vec<u32>>) -> Vec<u32>,
>(
    kernels: F,
    layer: usize,
    dims: Dsv4Dims,
    c0: Dsv4KvCache,
    x0: Seq<u32>,
    y0: Seq<u32>,
    c1: Dsv4KvCache,
    x1: Seq<u32>,
    c2: Dsv4KvCache,
    y1: Seq<u32>,
)
    requires
        0 < dims.rope_dim <= dims.kv_lora_rank,
        c0.wf() && c1.wf(),
        layer < c0.layers@.len() && layer < c1.layers@.len(),
        c0.kv_lora_rank == dims.kv_lora_rank && c1.kv_lora_rank == dims.kv_lora_rank,
        latent_widths(kernels, layer, dims),
        latent_ran(
            kernels,
            layer,
            dims,
            c0.next_position,
            c0.layers@[layer as int]@,
            x0,
            c1.layers@[layer as int]@,
            y0,
        ),
        latent_ran(
            kernels,
            layer,
            dims,
            c1.next_position,
            c1.layers@[layer as int]@,
            x1,
            c2.layers@[layer as int]@,
            y1,
        ),
    ensures
        ({
            let rows = c2.layers@[layer as int]@;
            let w = dims.kv_lora_rank as int;
            let p = c0.next_position as int;
            &&& rows.len() == (p + 2) * w
            &&& rows.take(p * w) == c0.layers@[layer as int]@
            &&& exists|n: Seq<u32>| #[trigger]
                row_given(
                    kernels,
                    layer,
                    Kernel::Rotate { heads: 1, width: dims.kv_lora_rank, position: p as usize },
                    n,
                    rows.subrange(p * w, (p + 1) * w),
                )
            &&& exists|n: Seq<u32>| #[trigger]
                row_given(
                    kernels,
                    layer,
                    Kernel::Rotate {
                        heads: 1,
                        width: dims.kv_lora_rank,
                        position: (p + 1) as usize,
                    },
                    n,
                    rows.subrange((p + 1) * w, (p + 2) * w),
                )
        }),
{
    let rows = c2.layers@[layer as int]@;
    let w = dims.kv_lora_rank as int;
    let p = c0.next_position as int;
    let q = c1.next_position as int;
    let a = lemma_latent_row(
        kernels,
        layer,
        dims,
        c0.next_position,
        c0.layers@[layer as int]@,
        x0,
        c1.layers@[layer as int]@,
        y0,
    );
    let b = lemma_latent_row(
        kernels,
        layer,
        dims,
        c1.next_position,
        c1.layers@[layer as int]@,
        x1,
        c2.layers@[layer as int]@,
        y1,
    );
    assert(c0.layers@[layer as int]@.len() == p * w);
    assert(c1.layers@[layer as int]@.len() == q * w);
    assert((p + 1) * w == p * w + w && (p + 2) * w == p * w + 2 * w && 0 <= p * w)
        by (nonlinear_arith)
        requires
            p >= 0,
            w > 0,
    ;
    assert(q == p + 1) by (nonlinear_arith)
        requires
            q * w == p * w + w,
            w > 0,
    ;
    assert(rows.take(p * w) =~= c0.layers@[layer as int]@);
    assert(rows.subrange(p * w, (p + 1) * w) =~= a.1);
    assert(rows.subrange((p + 1) * w, (p + 2) * w) =~= b.1);
    assert(row_given(
        kernels,
        layer,
        Kernel::Rotate { heads: 1, width: dims.kv_lora_rank, position: p as usize },
        a.0,
        rows.subrange(p * w, (p + 1) * w),
    ));
    assert(row_given(
        kernels,
        layer,
        Kernel::Rotate { heads: 1, width: dims.kv_lora_rank, position: (p + 1) as usize },
        b.0,
        rows.subrange((p + 1) * w, (p + 2) * w),
    ));
}

/// The latent before and after its rotation.
proof fn lemma_latent_row<F: Fn(usize, Kernel, Vec<Vec<u32>>) -> Vec<u32>>(
    kernels: F,
    layer: usize,
    dims: Dsv4Dims,
    position: usize,
    before: Seq<u32>,
    x: Seq<u32>,
    after: Seq<u32>,
    y: Seq<u32>,
) -> (r: (Seq<u32>, Seq<u32>))
    requires
        0 < dims.rope_dim <= dims.kv_lora_rank,
        latent_widths(kernels, layer, dims),
        latent_ran(kernels, layer, dims, position, before, x, after, y),
    ensures
        r.1.len() == dims.kv_lora_rank,
        after == before + r.1,
        row_given(
            kernels,
            layer,
            Kernel::Rotate { heads: 1, width: dims.kv_lora_rank, position },
            r.0,
            r.1,
        ),
{
    let v = choose|values: Seq<Seq<u32>>| #[trigger]
        latent_values(kernels, layer, dims, position, before, x, values) && after == before
            + values[8] && y == values[12];
    let code = latent_code(
        dims.rope_dim,
        dims.n_heads,
        dims.head_dim,
        dims.kv_lora_rank,
        position,
    );
    assert(step_gives(kernels, layer, code[5].kernel, seq![v[1]], v[6]));
    assert(step_gives(kernels, layer, code[6].kernel, seq![v[6]], v[7]));
    assert(step_gives(kernels, layer, code[7].kernel, seq![v[7]], v[8]));
    (v[7], v[8])
}

/// Every word of the output projection's input: word `i` of a head's share is word
/// `i` of the head's output as far as the output goes, and zero behind it, and so is
/// what is left over behind the last share.
pub proof fn law_joined_words(outs: Seq<Seq<u32>>, dims: Dsv4Dims, k: int)
    requires
        dims.n_heads > 0,
        dims.rope_dim <= dims.kv_lora_rank,
        0 <= k < dims.output_intermediate,
    ensures
        joined_heads(outs, dims).len() == dims.output_intermediate,
        ({
            let share = dims.output_intermediate as int / dims.n_heads as int;
            &&& k >= dims.n_heads * share ==> joined_heads(outs, dims)[k] == 0
            &&& k < dims.n_heads * share ==> share > 0 && joined_heads(outs, dims)[k] == (if k
                % share < dims.kv_lora_rank - dims.rope_dim {
                outs[k / share][k % share]
            } else {
                0
            })
        }),
{
    let share = dims.output_intermediate as int / dims.n_heads as int;
    let n = dims.n_heads as int;
    if k < n * share {
        assert(share > 0 && k / share < n && 0 <= k % share < share) by (nonlinear_arith)
            requires
                0 <= k < n * share,
                n > 0,
        ;
    } else if share > 0 {
        assert(k / share >= n) by (nonlinear_arith)
            requires
                k >= n * share,
                share > 0,
        ;
    }
}

/// A token's experts, step by step: the router scores the token, a bias is added to
/// the scores where there is one, the best experts are added up with the model's
/// scale, and the shared expert on the same row is added.
pub proof fn law_experts_steps<
    F: Fn(usize, Kernel, Vec<Vec<u32>>) -> Vec<u32>,
    W: Fn(&Vec<u32>, Option<u32>) -> Vec<u32>,
    E: Fn(usize, &Vec<u32>) -> Vec<u32>,
    A: Fn(u32, &Vec<u32>, &Vec<u32>) -> Vec<u32>,
>(
    kernels: F,
    weigh: W,
    expert: E,
    accumulate: A,
    layer: usize,
    has_bias: bool,
    dims: Dsv4Dims,
    x: Seq<u32>,
    v: Seq<Seq<u32>>,
)
    requires
        moe_values(kernels, weigh, expert, accumulate, layer, has_bias, dims, x, v),
    ensures
        v.len() == 9,
        v[0] == x,
        may_give(kernels, layer, Kernel::Project(Weight::Router, Source::Quant), seq![x], v[1]),
        has_bias ==> may_give(
            kernels,
            layer,
            Kernel::AddWeight(Weight::RouterBias),
            seq![v[1]],
            v[2],
        ),
        !has_bias ==> v[2] == v[1],
        routed_ran(
            weigh,
            expert,
            accumulate,
            x,
            v[2],
            dims.experts_per_token as nat,
            Some(dims.expert_weights_scale),
            dims.hidden as nat,
            v[3],
        ),
        may_give(kernels, layer, Kernel::Project(Weight::SharedGate, Source::Quant), seq![x], v[4]),
        may_give(kernels, layer, Kernel::Project(Weight::SharedUp, Source::Quant), seq![x], v[5]),
        may_give(kernels, layer, Kernel::SwiGlu, seq![v[4], v[5]], v[6]),
        may_give(
            kernels,
            layer,
            Kernel::Project(Weight::SharedDown, Source::Quant),
            seq![v[6]],
            v[7],
        ),
        may_give(kernels, layer, Kernel::Add, seq![v[3], v[7]], v[8]),
{
    let code = moe_code(has_bias, dims.experts_per_token, dims.expert_weights_scale);
    assert(step_gives(kernels, layer, code[0].kernel, seq![v[0]], v[1]));
    assert(step_gives(kernels, layer, code[1].kernel, seq![v[1]], v[2]));
    assert(step_gives(kernels, layer, code[3].kernel, seq![v[0]], v[4]));
    assert(step_gives(kernels, layer, code[4].kernel, seq![v[0]], v[5]));
    assert(step_gives(kernels, layer, code[5].kernel, seq![v[4], v[5]], v[6]));
    assert(step_gives(kernels, layer, code[6].kernel, seq![v[6]], v[7]));
    assert(step_gives(kernels, layer, code[7].kernel, seq![v[3], v[7]], v[8]));
}

/// A picked expert, step by step: its own fused projection of the row is cut in the
/// middle, the activation gets the two halves in their order, and its own down
/// projection follows.
pub proof fn law_fused_expert_steps<F: Fn(usize, Kernel, Vec<Vec<u32>>) -> Vec<u32>>(
    kernels: F,
    layer: usize,
    expert: usize,
    x: Seq<u32>,
    y: Seq<u32>,
)
    requires
        fused_expert_ran(kernels, layer, expert, x, y),
    ensures
        exists|gate: Seq<u32>, up: Seq<u32>, inner: Seq<u32>|
            {
                &&& #[trigger] row_given(
                    kernels,
                    layer,
                    Kernel::ExpertGateUp { expert },
                    x,
                    gate + up,
                )
                &&& gate.len() <= up.len() <= gate.len() + 1
                &&& may_give(kernels, layer, Kernel::SwiGlu, seq![gate, up], inner)
                &&& #[trigger] row_given(kernels, layer, Kernel::ExpertDown { expert }, inner, y)
            },
{
    let (fused, inner) = choose|fused: Seq<u32>, inner: Seq<u32>|
        {
            let half = fused.len() as int / 2;
            &&& #[trigger] row_given(kernels, layer, Kernel::ExpertGateUp { expert }, x, fused)
            &&& may_give(
                kernels,
                layer,
                Kernel::SwiGlu,
                seq![fused.take(half), fused.skip(half)],
                inner,
            )
            &&& #[trigger] row_given(kernels, layer, Kernel::ExpertDown { expert }, inner, y)
        };
    let half = fused.len() as int / 2;
    let gate = fused.take(half);
    let up = fused.skip(half);
    assert(gate + up =~= fused);
    assert(row_given(kernels, layer, Kernel::ExpertGateUp { expert }, x, gate + up));
}

/// Every layer of a latent-attention model has latent attention and routed experts.
pub proof fn law_every_layer_routes(n: nat, l: int)
    requires
        0 <= l < n,
    ensures
        latent_layers(n).len() == n,
        latent_layers(n)[l].block is Latent,
        latent_layers(n)[l].has_moe,
        !latent_layers(n)[l].gate_quant && !latent_layers(n)[l].up_quant
            && !latent_layers(n)[l].down_quant,
{
}

/// A cache between tokens holds as many latent rows in every layer as tokens came.
pub proof fn law_cache_holds_a_row_per_token(c: Dsv4KvCache, l: int)
    requires
        c.wf(),
        0 <= l < c.layers@.len(),
    ensures
        c.layers@[l]@.len() == c.next_position * c.kv_lora_rank,
{
}

} // verus!
