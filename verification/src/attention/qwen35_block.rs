//! The hybrid model's caches and routing: softmax-attention layers keep keys and
//! values, linear-attention layers keep a recurrent state.
use vstd::prelude::*;
use crate::attention::block_program::{
    attention_code, follows, lemma_follows_carries, may_give, push_one, push_two, rows_given,
    run_kernels, well_wired, AttnSources, Instr, Kernel, Weight,
};
use crate::attention::deltanet_block::{
    deltanet_block_step, geometry_allowed, linear_ran, linear_widths, shapes_match, state_shape,
    DeltaNetDims, DeltaNetShapes,
};
use crate::attention::deltanet_state::{DeltaNetLayerState, DeltaNetStateCache, StateShape};
use crate::attention::dsv4_forward::row_given;
use crate::attention::layer_program::Source;
use crate::tensor::{flat_rows, matrix_fits, Matrix};
use crate::words::{contents, copy_row};

verus! {

/// Shape of the softmax-attention layers. `rope_base` and `eps` are bit
/// patterns.
#[derive(Clone, Copy, Debug, PartialEq, Eq, Structural)]
pub struct Qwen35AttentionDims {
    /// Width of the residual stream.
    pub hidden: usize,
    /// Number of query heads.
    pub n_head: usize,
    /// Number of key and value heads.
    pub n_head_kv: usize,
    /// Width of a head.
    pub head_dim: usize,
    /// How many dimensions of a head are rotated.
    pub rotary_dim: usize,
    pub rope_base: u64,
    pub eps: u32,
}

impl Qwen35AttentionDims {
    /// Width of the queries.
    pub open spec fn q_width(self) -> nat {
        self.n_head as nat * self.head_dim as nat
    }

    /// Width of the keys, and of the values.
    pub open spec fn kv_width(self) -> nat {
        self.n_head_kv as nat * self.head_dim as nat
    }

    /// Width of the queries.
    pub fn q_dim(&self) -> (n: usize)
        requires
            self.q_width() <= usize::MAX,
        ensures
            n == self.q_width(),
    {
        self.n_head * self.head_dim
    }

    /// Width of the keys, and of the values.
    pub fn kv_dim(&self) -> (n: usize)
        requires
            self.kv_width() <= usize::MAX,
        ensures
            n == self.kv_width(),
    {
        self.n_head_kv * self.head_dim
    }

    /// Width of the fused query and gate projection.
    pub fn fused_q_dim(&self) -> (n: usize)
        requires
            2 * self.q_width() <= usize::MAX,
        ensures
            n == 2 * self.q_width(),
    {
        2 * self.q_dim()
    }

    /// Which part of a head is rotated, as a fraction: the rotated dimensions over
    /// all of them.
    pub fn rope_fraction(&self) -> (f: (usize, usize))
        ensures
            f == (self.rotary_dim, self.head_dim),
    {
        (self.rotary_dim, self.head_dim)
    }

    /// How many query heads share a key head.
    pub fn gqa_reps(&self) -> (n: usize)
        requires
            self.q_width() <= usize::MAX,
            0 < self.kv_width() <= usize::MAX,
        ensures
            n == self.q_width() / self.kv_width(),
    {
        self.q_dim() / self.kv_dim()
    }
}

/// The sharing of key heads does not depend on the width of a head.
pub proof fn law_reps_is_the_head_ratio(d: Qwen35AttentionDims)
    requires
        d.n_head_kv > 0,
        d.head_dim > 0,
    ensures
        d.q_width() / d.kv_width() == d.n_head as nat / d.n_head_kv as nat,
{
    let a = d.n_head as int;
    let b = d.n_head_kv as int;
    let w = d.head_dim as int;
    vstd::arithmetic::div_mod::lemma_div_multiples_vanish_quotient(w, a, b);
    assert(w * a == a * w && w * b == b * w) by (nonlinear_arith);
}

/// The key head that a query head reads: heads that share one lie side by side.
pub fn kv_head(h: usize, num_q: usize, num_kv: usize) -> (k: usize)
    requires
        num_kv > 0,
        num_q % num_kv == 0,
        h < num_q,
    ensures
        k == h as int / (num_q as int / num_kv as int),
        k < num_kv,
{
    let reps: usize = num_q / num_kv;
    proof {
        let q = num_q as int;
        let n = num_kv as int;
        let r = q / n;
        let i = h as int;
        assert(r > 0 && 0 <= i / r < n) by (nonlinear_arith)
            requires
                n > 0,
                q % n == 0,
                0 <= i < q,
                r == q / n,
        ;
    }
    h / reps
}

/// Shapes of a softmax-attention layer's weights; a quantized weight's own shape
/// is not looked at.
#[derive(Clone, Copy, Debug)]
pub struct AttentionShapes {
    pub x: usize,
    pub attn_norm: usize,
    pub attn_q: Option<(usize, usize)>,
    pub attn_k: Option<(usize, usize)>,
    pub attn_v: Option<(usize, usize)>,
    pub attn_q_norm: usize,
    pub attn_k_norm: usize,
    pub attn_output: Option<(usize, usize)>,
}

/// A plain weight has the shape; a quantized one passes.
pub open spec fn plain_is(s: Option<(usize, usize)>, rows: nat, cols: nat) -> bool {
    s matches Some(d) ==> d.0 == rows && d.1 == cols
}

/// Every weight has the shape that the layer's geometry asks for.
pub open spec fn attention_shapes_match(s: AttentionShapes, d: Qwen35AttentionDims) -> bool {
    &&& s.x == d.hidden
    &&& s.attn_norm == d.hidden
    &&& plain_is(s.attn_q, 2 * d.q_width(), d.hidden as nat)
    &&& plain_is(s.attn_k, d.kv_width(), d.hidden as nat)
    &&& plain_is(s.attn_v, d.kv_width(), d.hidden as nat)
    &&& s.attn_q_norm == d.head_dim
    &&& s.attn_k_norm == d.head_dim
    &&& plain_is(s.attn_output, d.hidden as nat, d.q_width())
}

fn check_plain(s: Option<(usize, usize)>, rows: usize, cols: usize) -> (r: bool)
    ensures
        r == plain_is(s, rows as nat, cols as nat),
{
    match s {
        Some(d) => d.0 == rows && d.1 == cols,
        None => true,
    }
}

/// Whether every weight has the shape that the layer's geometry asks for.
pub fn check_attention_shapes(s: &AttentionShapes, d: &Qwen35AttentionDims) -> (r: bool)
    requires
        2 * d.q_width() <= usize::MAX,
        d.kv_width() <= usize::MAX,
    ensures
        r == attention_shapes_match(*s, *d),
{
    let kv: usize = d.kv_dim();
    s.x == d.hidden && s.attn_norm == d.hidden && check_plain(
        s.attn_q,
        d.fused_q_dim(),
        d.hidden,
    ) && check_plain(s.attn_k, kv, d.hidden) && check_plain(s.attn_v, kv, d.hidden)
        && s.attn_q_norm == d.head_dim && s.attn_k_norm == d.head_dim && check_plain(
        s.attn_output,
        d.hidden,
        d.q_dim(),
    )
}

/// Where a weight comes from: a plain matrix where its shape is there, else
/// quantized.
pub open spec fn source_of(s: Option<(usize, usize)>) -> Source {
    match s {
        Some(_) => Source::Dense,
        None => Source::Quant,
    }
}

/// Where a layer's matrices come from.
pub open spec fn sources_of(s: AttentionShapes) -> AttnSources {
    AttnSources {
        q: source_of(s.attn_q),
        k: source_of(s.attn_k),
        v: source_of(s.attn_v),
        output: source_of(s.attn_output),
    }
}

fn weight_source(s: Option<(usize, usize)>) -> (r: Source)
    ensures
        r == source_of(s),
{
    match s {
        Some(_) => Source::Dense,
        None => Source::Quant,
    }
}

/// The softmax-attention block of one token at a position: its kernels, and how
/// they are wired.
pub fn qwen35_attention_code(
    shapes: &AttentionShapes,
    dims: &Qwen35AttentionDims,
    position: usize,
) -> (code: Vec<Instr>)
    requires
        attention_shapes_match(*shapes, *dims),
    ensures
        code@ == attention_code(
            sources_of(*shapes),
            dims.n_head,
            dims.n_head_kv,
            dims.head_dim,
            position,
        ),
        well_wired(code@),
{
    let mut code: Vec<Instr> = Vec::new();
    let head_dim: usize = dims.head_dim;
    push_one(&mut code, Kernel::Norm(Weight::AttnNorm), 0);
    push_one(&mut code, Kernel::Project(Weight::AttnQ, weight_source(shapes.attn_q)), 1);
    push_one(&mut code, Kernel::Project(Weight::AttnK, weight_source(shapes.attn_k)), 1);
    push_one(&mut code, Kernel::Project(Weight::AttnV, weight_source(shapes.attn_v)), 1);
    push_one(&mut code, Kernel::QueryHalf, 2);
    push_one(&mut code, Kernel::GateHalf, 2);
    push_one(&mut code, Kernel::HeadNorm(Weight::AttnQNorm), 5);
    push_one(&mut code, Kernel::HeadNorm(Weight::AttnKNorm), 3);
    push_one(&mut code, Kernel::Rotate { heads: dims.n_head, width: head_dim, position }, 7);
    push_one(&mut code, Kernel::Rotate { heads: dims.n_head_kv, width: head_dim, position }, 8);
    push_two(&mut code, Kernel::AppendKv, 10, 4);
    push_two(&mut code, Kernel::AttendKv, 9, 11);
    push_two(&mut code, Kernel::SigmoidGate, 12, 6);
    push_one(&mut code, Kernel::Project(Weight::AttnOutput, weight_source(shapes.attn_output)), 13);
    assert(code@ =~= attention_code(
        sources_of(*shapes),
        dims.n_head,
        dims.n_head_kv,
        dims.head_dim,
        position,
    ));
    code
}

/// Where a query head reads: the column of its queries, and the column of the
/// key and value head that it shares.
pub fn gqa_columns(h: usize, num_q: usize, num_kv: usize, head_dim: usize) -> (r: (usize, usize))
    requires
        num_kv > 0,
        num_q % num_kv == 0,
        h < num_q,
        num_q * head_dim <= usize::MAX,
        num_kv * head_dim <= usize::MAX,
    ensures
        r.0 == h * head_dim,
        r.1 == (h as int / (num_q as int / num_kv as int)) * head_dim,
        r.0 + head_dim <= num_q * head_dim,
        r.1 + head_dim <= num_kv * head_dim,
{
    let kv: usize = kv_head(h, num_q, num_kv);
    assert(h * head_dim + head_dim <= num_q * head_dim && kv * head_dim + head_dim <= num_kv
        * head_dim) by (nonlinear_arith)
        requires
            h < num_q,
            kv < num_kv,
            head_dim >= 0,
    ;
    (h * head_dim, kv * head_dim)
}

/// What the attention of one token over a cache is handed: as many words of
/// queries as there are heads, and at least one cached row of keys with a row of
/// values for each.
pub open spec fn gqa_fits(
    q_len: usize,
    k_cache: (usize, usize),
    v_cache: (usize, usize),
    num_q: usize,
    num_kv: usize,
    head_dim: usize,
) -> bool {
    &&& 0 < k_cache.0 <= v_cache.0
    &&& q_len == num_q * head_dim
    &&& k_cache.1 == num_kv * head_dim
    &&& v_cache.1 == num_kv * head_dim
    &&& num_kv > 0
    &&& num_q % num_kv == 0
}

/// Where every query head of a token reads when it attends over a cache, head by
/// head.
pub fn gqa_decode_step(
    q_len: usize,
    k_cache: (usize, usize),
    v_cache: (usize, usize),
    num_q: usize,
    num_kv: usize,
    head_dim: usize,
) -> (heads: Vec<(usize, usize)>)
    requires
        gqa_fits(q_len, k_cache, v_cache, num_q, num_kv, head_dim),
    ensures
        heads@.len() == num_q,
        forall|h: int|
            0 <= h < num_q ==> (#[trigger] heads@[h]).0 == h * head_dim && heads@[h].1 == (h / (
            num_q as int / num_kv as int)) * head_dim,
{
    let mut heads: Vec<(usize, usize)> = Vec::new();
    let mut h: usize = 0;
    while h < num_q
        invariant
            h <= num_q,
            gqa_fits(q_len, k_cache, v_cache, num_q, num_kv, head_dim),
            heads@.len() == h,
            forall|i: int|
                0 <= i < h ==> (#[trigger] heads@[i]).0 == i * head_dim && heads@[i].1 == (i / (
                num_q as int / num_kv as int)) * head_dim,
        decreases num_q - h,
    {
        heads.push(gqa_columns(h, num_q, num_kv, head_dim));
        h += 1;
    }
    heads
}

/// A key head serves the query heads of its group: those side by side that share
/// it, and no others.
pub proof fn law_key_head_serves_its_group(h: int, num_q: int, num_kv: int, kv: int)
    requires
        num_kv > 0,
        num_q % num_kv == 0,
        0 <= h < num_q,
        0 <= kv < num_kv,
    ensures
        (h / (num_q / num_kv) == kv) == (kv * (num_q / num_kv) <= h < kv * (num_q / num_kv)
            + num_q / num_kv),
{
    let reps = num_q / num_kv;
    assert(reps > 0) by (nonlinear_arith)
        requires
            num_kv > 0,
            num_q % num_kv == 0,
            num_q > 0,
            reps == num_q / num_kv,
    ;
    let q = h / reps;
    let r = h % reps;
    vstd::arithmetic::div_mod::lemma_fundamental_div_mod(h, reps);
    if q == kv {
        assert(reps * q == kv * reps) by (nonlinear_arith)
            requires
                q == kv,
        ;
    } else {
        assert(!(kv * reps <= h < kv * reps + reps)) by (nonlinear_arith)
            requires
                h == reps * q + r,
                0 <= r < reps,
                q != kv,
        ;
    }
}

/// Puts a row behind those of a matrix.
pub fn append_row(slab: &mut Matrix, new_row: &[u32])
    requires
        new_row@.len() == old(slab).width(),
        old(slab)@.len() < usize::MAX,
        matrix_fits(old(slab)@.len() + 1, old(slab).width()),
    ensures
        final(slab).wf(),
        final(slab)@ == old(slab)@.push(new_row@),
        final(slab).width() == old(slab).width(),
{
    let n: usize = slab.nrows();
    let dim: usize = slab.ncols();
    let ghost before = slab@;
    let mut next: Matrix = Matrix::zeros(n + 1, dim);
    let mut r: usize = 0;
    while r < n
        invariant
            r <= n,
            n == before.len(),
            slab.wf(),
            slab@ == before,
            slab.width() == dim,
            next.wf(),
            next@.len() == n + 1,
            next.width() == dim,
            forall|i: int| 0 <= i < r ==> next@[i] == before[i],
        decreases n - r,
    {
        let row: Vec<u32> = slab.row(r);
        next.put_row(r, row.as_slice());
        r += 1;
    }
    next.put_row(n, new_row);
    assert(next@ =~= before.push(new_row@));
    *slab = next;
}

/// Keys and values of one layer, one row per token.
pub struct KvSlabs {
    pub k: Matrix,
    pub v: Matrix,
}

impl KvSlabs {
    /// Keys and values have as many rows, of the width.
    pub open spec fn holds(&self, rows: nat, kv_dim: nat) -> bool {
        &&& self.k.wf() && self.v.wf()
        &&& self.k@.len() == rows && self.v@.len() == rows
        &&& self.k.width() == kv_dim && self.v.width() == kv_dim
    }

    /// Slabs without rows.
    pub fn empty(kv_dim: usize) -> (s: Self)
        requires
            matrix_fits(0, kv_dim as nat),
        ensures
            s.holds(0, kv_dim as nat),
            s.k@ == Seq::<Seq<u32>>::empty(),
            s.v@ == Seq::<Seq<u32>>::empty(),
    {
        let s = KvSlabs { k: Matrix::zeros(0, kv_dim), v: Matrix::zeros(0, kv_dim) };
        assert(s.k@ =~= Seq::<Seq<u32>>::empty());
        assert(s.v@ =~= Seq::<Seq<u32>>::empty());
        s
    }

    /// Puts a token's key and value behind the others.
    pub fn push(&mut self, k_row: &[u32], v_row: &[u32])
        requires
            old(self).holds(old(self).k@.len(), old(self).k.width()),
            k_row@.len() == old(self).k.width(),
            v_row@.len() == old(self).k.width(),
            old(self).k@.len() < usize::MAX,
            matrix_fits(old(self).k@.len() + 1, old(self).k.width()),
        ensures
            final(self).holds(old(self).k@.len() + 1, old(self).k.width()),
            final(self).k@ == old(self).k@.push(k_row@),
            final(self).v@ == old(self).v@.push(v_row@),
    {
        append_row(&mut self.k, k_row);
        append_row(&mut self.v, v_row);
    }
}

/// The kernels of a layer's softmax-attention block give rows of the widths that
/// the geometry asks for: the projections by their matrices, the norm of the
/// heads and a rotation what they get.
pub open spec fn attention_widths<F: Fn(usize, Kernel, Vec<Vec<u32>>) -> Vec<u32>>(
    kernels: F,
    layer: usize,
    dims: Qwen35AttentionDims,
) -> bool {
    &&& forall|s: Source, args: Seq<Seq<u32>>, out: Seq<u32>| #[trigger]
        may_give(kernels, layer, Kernel::Project(Weight::AttnK, s), args, out) ==> out.len()
            == dims.kv_width()
    &&& forall|s: Source, args: Seq<Seq<u32>>, out: Seq<u32>| #[trigger]
        may_give(kernels, layer, Kernel::Project(Weight::AttnV, s), args, out) ==> out.len()
            == dims.kv_width()
    &&& forall|s: Source, args: Seq<Seq<u32>>, out: Seq<u32>| #[trigger]
        may_give(kernels, layer, Kernel::Project(Weight::AttnOutput, s), args, out) ==> out.len()
            == dims.hidden
    &&& forall|k: Kernel, args: Seq<Seq<u32>>, out: Seq<u32>| #[trigger]
        may_give(kernels, layer, k, args, out) && (k is HeadNorm || k is Rotate) && args.len() == 1
            ==> out.len() == args[0].len()
}

/// The values of a softmax-attention block that ran on `x`: the attention reads
/// all keys, row by row, and behind them all values, each with the token's own
/// row in it.
pub open spec fn attention_values<F: Fn(usize, Kernel, Vec<Vec<u32>>) -> Vec<u32>>(
    kernels: F,
    layer: usize,
    code: Seq<Instr>,
    k: Seq<Seq<u32>>,
    v: Seq<Seq<u32>>,
    x: Seq<u32>,
    values: Seq<Seq<u32>>,
) -> bool {
    &&& values.len() == code.len() + 1
    &&& values[0] == x
    &&& follows(kernels, layer, code, values, 0, 10)
    &&& values[11] == flat_rows(k.push(values[10])) + flat_rows(v.push(values[4]))
    &&& follows(kernels, layer, code, values, 11, code.len() as int)
}

/// A softmax-attention block at a position ran on `x` and gave `y`: behind the
/// keys went the token's normed and rotated key, behind the values its plain
/// value.
pub open spec fn attention_ran<F: Fn(usize, Kernel, Vec<Vec<u32>>) -> Vec<u32>>(
    kernels: F,
    layer: usize,
    sources: AttnSources,
    dims: Qwen35AttentionDims,
    position: usize,
    before: KvSlabs,
    x: Seq<u32>,
    after: KvSlabs,
    y: Seq<u32>,
) -> bool {
    let code = attention_code(sources, dims.n_head, dims.n_head_kv, dims.head_dim, position);
    exists|values: Seq<Seq<u32>>|
        {
            &&& #[trigger] attention_values(
                kernels,
                layer,
                code,
                before.k@,
                before.v@,
                x,
                values,
            )
            &&& after.k@ == before.k@.push(values[10])
            &&& after.v@ == before.v@.push(values[4])
            &&& y == values[14]
        }
}

/// Slabs gained one row each, and kept the others.
pub open spec fn one_row_more(before: KvSlabs, after: KvSlabs, kv_dim: nat) -> bool {
    &&& after.holds(before.k@.len() + 1, kv_dim)
    &&& after.k@.drop_last() == before.k@
    &&& after.v@.drop_last() == before.v@
}

/// The softmax-attention block of one token at a position. The floating-point
/// kernels are the caller's; the token's key and value go behind the others.
pub fn qwen35_attention_block_step<F: Fn(usize, Kernel, Vec<Vec<u32>>) -> Vec<u32>>(
    x: &Vec<u32>,
    layer: usize,
    shapes: &AttentionShapes,
    dims: &Qwen35AttentionDims,
    kv_layer: &mut KvSlabs,
    position: usize,
    kernels: &F,
) -> (y: Vec<u32>)
    requires
        attention_shapes_match(*shapes, *dims),
        old(kv_layer).holds(old(kv_layer).k@.len(), dims.kv_width()),
        old(kv_layer).k@.len() < usize::MAX,
        matrix_fits(old(kv_layer).k@.len() + 1, dims.kv_width()),
        forall|k: Kernel, a: Vec<Vec<u32>>| call_requires(*kernels, (layer, k, a)),
        attention_widths(*kernels, layer, *dims),
    ensures
        attention_ran(
            *kernels,
            layer,
            sources_of(*shapes),
            *dims,
            position,
            *old(kv_layer),
            x@,
            *final(kv_layer),
            y@,
        ),
        y@.len() == dims.hidden,
        one_row_more(*old(kv_layer), *final(kv_layer), dims.kv_width()),
{
    let ghost before = *kv_layer;
    let code: Vec<Instr> = qwen35_attention_code(shapes, dims, position);
    let mut values: Vec<Vec<u32>> = Vec::new();
    values.push(copy_row(x));
    run_kernels(&code, 10, layer, &mut values, kernels);
    let ghost first = contents(values@);
    proof {
        assert(first.take(1)[0] == x@);
        assert(may_give(*kernels, layer, code@[2].kernel, seq![first[1]], first[3]));
        assert(may_give(*kernels, layer, code@[3].kernel, seq![first[1]], first[4]));
        assert(may_give(*kernels, layer, code@[7].kernel, seq![first[3]], first[8]));
        assert(may_give(*kernels, layer, code@[9].kernel, seq![first[8]], first[10]));
        assert(first[10] == values@[10]@);
        assert(first[4] == values@[4]@);
    }
    kv_layer.push(values[10].as_slice(), values[4].as_slice());
    let mut cached: Vec<u32> = kv_layer.k.flat();
    let mut cached_values: Vec<u32> = kv_layer.v.flat();
    cached.append(&mut cached_values);
    assert(cached@ =~= flat_rows(kv_layer.k@) + flat_rows(kv_layer.v@));
    values.push(cached);
    let ghost second = contents(values@);
    run_kernels(&code, 14, layer, &mut values, kernels);
    proof {
        let all = contents(values@);
        assert forall|i: int| 0 <= i < 12 implies all[i] == second[i] by {
            assert(all.take(12)[i] == all[i]);
        }
        assert forall|i: int| 0 <= i < 11 implies all[i] == first[i] by {
            assert(all[i] == second[i]);
        }
        lemma_follows_carries(*kernels, layer, code@, first, all, 0, 10);
        assert(attention_values(*kernels, layer, code@, before.k@, before.v@, x@, all));
        assert(may_give(*kernels, layer, code@[13].kernel, seq![all[13]], all[14]));
        assert(all[14] == values@[14]@);
        assert(kv_layer.k@.drop_last() =~= before.k@);
        assert(kv_layer.v@.drop_last() =~= before.v@);
    }
    let y: Vec<u32> = copy_row(&values[14]);
    y
}

/// The value row of a token is the plain projection of its normed input: neither
/// rotated nor normed by head.
pub proof fn law_value_row_is_plain<F: Fn(usize, Kernel, Vec<Vec<u32>>) -> Vec<u32>>(
    kernels: F,
    layer: usize,
    sources: AttnSources,
    dims: Qwen35AttentionDims,
    position: usize,
    before: KvSlabs,
    x: Seq<u32>,
    after: KvSlabs,
    y: Seq<u32>,
)
    requires
        attention_ran(kernels, layer, sources, dims, position, before, x, after, y),
    ensures
        exists|n: Seq<u32>|
            #[trigger] may_give(kernels, layer, Kernel::Norm(Weight::AttnNorm), seq![x], n)
                && may_give(
                kernels,
                layer,
                Kernel::Project(Weight::AttnV, sources.v),
                seq![n],
                after.v@.last(),
            ),
{
    let code = attention_code(sources, dims.n_head, dims.n_head_kv, dims.head_dim, position);
    let values = choose|values: Seq<Seq<u32>>|
        {
            &&& #[trigger] attention_values(
                kernels,
                layer,
                code,
                before.k@,
                before.v@,
                x,
                values,
            )
            &&& after.k@ == before.k@.push(values[10])
            &&& after.v@ == before.v@.push(values[4])
            &&& y == values[14]
        };
    assert(may_give(kernels, layer, code[0].kernel, seq![values[0]], values[1]));
    assert(may_give(kernels, layer, code[3].kernel, seq![values[1]], values[4]));
}

/// What attention makes of queries, keys and values.
pub open spec fn attended(
    m: spec_fn(Kernel, Seq<Seq<u32>>) -> Seq<u32>,
    q: Seq<u32>,
    k: Seq<u32>,
    v: Seq<u32>,
) -> Seq<u32> {
    m(Kernel::AttendKv, seq![q, k + v])
}

/// What the first token's block gives, where attention over one row gives what
/// `lone` makes of its value: neither the position nor the key matrix has a part
/// in it.
pub open spec fn lone_formula(
    m: spec_fn(Kernel, Seq<Seq<u32>>) -> Seq<u32>,
    lone: spec_fn(Seq<u32>) -> Seq<u32>,
    sources: AttnSources,
    x: Seq<u32>,
) -> Seq<u32> {
    let n = m(Kernel::Norm(Weight::AttnNorm), seq![x]);
    let fused = m(Kernel::Project(Weight::AttnQ, sources.q), seq![n]);
    let value = m(Kernel::Project(Weight::AttnV, sources.v), seq![n]);
    let gated = m(Kernel::SigmoidGate, seq![lone(value), m(Kernel::GateHalf, seq![fused])]);
    m(Kernel::Project(Weight::AttnOutput, sources.output), seq![gated])
}

/// The first token of a sequence attends to itself alone. With kernels that mean
/// `m`, and attention over one row that gives what its value alone decides, the
/// block's result depends neither on the position nor on the key matrix.
pub proof fn law_first_token_needs_no_key<F: Fn(usize, Kernel, Vec<Vec<u32>>) -> Vec<u32>>(
    kernels: F,
    layer: usize,
    m: spec_fn(Kernel, Seq<Seq<u32>>) -> Seq<u32>,
    lone: spec_fn(Seq<u32>) -> Seq<u32>,
    sources: AttnSources,
    dims: Qwen35AttentionDims,
    position: usize,
    before: KvSlabs,
    x: Seq<u32>,
    after: KvSlabs,
    y: Seq<u32>,
)
    requires
        before.holds(0, dims.kv_width()),
        attention_ran(kernels, layer, sources, dims, position, before, x, after, y),
        one_row_more(before, after, dims.kv_width()),
        forall|k: Kernel, args: Seq<Seq<u32>>, out: Seq<u32>| #[trigger]
            may_give(kernels, layer, k, args, out) ==> out == m(k, args),
        forall|q: Seq<u32>, k: Seq<u32>, v: Seq<u32>|
            k.len() == dims.kv_width() && v.len() == dims.kv_width() ==> #[trigger] attended(
                m,
                q,
                k,
                v,
            ) == lone(v),
    ensures
        y == lone_formula(m, lone, sources, x),
{
    let code = attention_code(sources, dims.n_head, dims.n_head_kv, dims.head_dim, position);
    let values = choose|values: Seq<Seq<u32>>|
        {
            &&& #[trigger] attention_values(
                kernels,
                layer,
                code,
                before.k@,
                before.v@,
                x,
                values,
            )
            &&& after.k@ == before.k@.push(values[10])
            &&& after.v@ == before.v@.push(values[4])
            &&& y == values[14]
        };
    let (key, value) = (values[10], values[4]);
    assert(after.k@[0] == key && after.v@[0] == value);
    reveal_with_fuel(flat_rows, 2);
    assert(before.k@.push(key).drop_last() =~= before.k@);
    assert(before.v@.push(value).drop_last() =~= before.v@);
    assert(flat_rows(before.k@.push(key)) =~= key);
    assert(flat_rows(before.v@.push(value)) =~= value);
    assert(may_give(kernels, layer, code[0].kernel, seq![values[0]], values[1]));
    assert(may_give(kernels, layer, code[1].kernel, seq![values[1]], values[2]));
    assert(may_give(kernels, layer, code[3].kernel, seq![values[1]], values[4]));
    assert(may_give(kernels, layer, code[5].kernel, seq![values[2]], values[6]));
    assert(may_give(kernels, layer, code[11].kernel, seq![values[9], values[11]], values[12]));
    assert(values[11] == key + value);
    assert(attended(m, values[9], key, value) == lone(value));
    assert(may_give(kernels, layer, code[12].kernel, seq![values[12], values[6]], values[13]));
    assert(may_give(kernels, layer, code[13].kernel, seq![values[13]], values[14]));
}

/// The state of one sequence: keys and values of the softmax-attention layers,
/// recurrent states of the linear ones, and the next position.
pub struct DeltaNetHybridCache {
    pub kv_layers: Vec<Option<KvSlabs>>,
    pub dn_state: DeltaNetStateCache,
    /// `true` for a linear layer.
    pub layer_kinds: Vec<bool>,
    /// Width of a key, and of a value.
    pub kv_dim: usize,
    /// Position of the next token.
    pub next_position: usize,
}

/// The shapes of a layer's block: of a linear one, or of softmax attention.
#[derive(Clone, Copy, Debug)]
pub enum BlockShapes {
    Linear(DeltaNetShapes),
    Attention(AttentionShapes),
}

impl DeltaNetHybridCache {
    /// Every layer has what its kind calls for and nothing else: a linear layer a
    /// state, a softmax layer as many keys as values.
    pub open spec fn shaped(&self) -> bool {
        &&& self.kv_layers@.len() == self.layer_kinds@.len()
        &&& self.dn_state.matches_kinds(self.layer_kinds@)
        &&& forall|l: int|
            0 <= l < self.layer_kinds@.len() ==> match #[trigger] self.kv_layers@[l] {
                Some(s) => !self.layer_kinds@[l] && s.holds(s.k@.len(), self.kv_dim as nat),
                None => self.layer_kinds@[l],
            }
    }

    /// Every layer has what its kind calls for and nothing else; a softmax layer
    /// holds one row for every token so far, of which the first `done` layers
    /// already hold the current one.
    pub open spec fn mid_step(&self, done: nat) -> bool {
        &&& self.kv_layers@.len() == self.layer_kinds@.len()
        &&& self.dn_state.matches_kinds(self.layer_kinds@)
        &&& self.dn_state.shape.allowed()
        &&& matrix_fits(0, self.kv_dim as nat)
        &&& forall|l: int|
            0 <= l < self.layer_kinds@.len() ==> match #[trigger] self.kv_layers@[l] {
                Some(s) => !self.layer_kinds@[l] && s.holds(
                    (self.next_position + if l < done {
                        1int
                    } else {
                        0int
                    }) as nat,
                    self.kv_dim as nat,
                ),
                None => self.layer_kinds@[l],
            }
    }

    /// The cache between two tokens.
    pub open spec fn wf(&self) -> bool {
        self.mid_step(0)
    }

    /// A cache in the middle of a step has what its layers' kinds call for.
    pub proof fn lemma_mid_step_is_shaped(self, done: nat)
        requires
            self.mid_step(done),
        ensures
            self.shaped(),
    {
        assert forall|l: int| 0 <= l < self.layer_kinds@.len() implies match #[trigger] self.kv_layers@[l] {
            Some(s) => !self.layer_kinds@[l] && s.holds(s.k@.len(), self.kv_dim as nat),
            None => self.layer_kinds@[l],
        } by {
        }
    }

    /// The state of a fresh sequence.
    pub fn allocate(
        layer_kinds: &[bool],
        kv_dim: usize,
        d_conv: usize,
        dn_conv_dim: usize,
        dn_head_v_dim: usize,
        dn_n_v_heads: usize,
    ) -> (c: Self)
        requires
            matrix_fits(0, kv_dim as nat),
            (StateShape {
                d_conv,
                conv_dim: dn_conv_dim,
                head_v_dim: dn_head_v_dim,
                n_v_heads: dn_n_v_heads,
            }).allowed(),
        ensures
            c.wf(),
            c.layer_kinds@ == layer_kinds@,
            c.kv_dim == kv_dim,
            c.next_position == 0,
            c.dn_state.shape == (StateShape {
                d_conv,
                conv_dim: dn_conv_dim,
                head_v_dim: dn_head_v_dim,
                n_v_heads: dn_n_v_heads,
            }),
            c.dn_state.all_zero(),
    {
        let shape = StateShape {
            d_conv,
            conv_dim: dn_conv_dim,
            head_v_dim: dn_head_v_dim,
            n_v_heads: dn_n_v_heads,
        };
        let mut kv_layers: Vec<Option<KvSlabs>> = Vec::new();
        let mut l: usize = 0;
        while l < layer_kinds.len()
            invariant
                l <= layer_kinds@.len(),
                kv_layers@.len() == l,
                matrix_fits(0, kv_dim as nat),
                forall|i: int|
                    0 <= i < l ==> match #[trigger] kv_layers@[i] {
                        Some(s) => !layer_kinds@[i] && s.holds(0, kv_dim as nat),
                        None => layer_kinds@[i],
                    },
            decreases layer_kinds@.len() - l,
        {
            if layer_kinds[l] {
                kv_layers.push(None);
            } else {
                kv_layers.push(Some(KvSlabs::empty(kv_dim)));
            }
            l += 1;
        }
        let kinds: Vec<bool> = vstd::slice::slice_to_vec(layer_kinds);
        assert(kinds@ =~= layer_kinds@);
        DeltaNetHybridCache {
            kv_layers,
            dn_state: DeltaNetStateCache::allocate(layer_kinds, shape),
            layer_kinds: kinds,
            kv_dim,
            next_position: 0,
        }
    }

    /// The number of layers.
    pub fn num_layers(&self) -> (n: usize)
        ensures
            n == self.layer_kinds@.len(),
    {
        self.layer_kinds.len()
    }

    /// Back to the state of a fresh sequence.
    pub fn reset(&mut self)
        requires
            matrix_fits(0, old(self).kv_dim as nat),
            old(self).dn_state.shape.allowed(),
        ensures
            final(self).wf(),
            final(self).layer_kinds@ == old(self).layer_kinds@,
            final(self).kv_dim == old(self).kv_dim,
            final(self).dn_state.shape == old(self).dn_state.shape,
            final(self).dn_state.all_zero(),
            final(self).next_position == 0,
    {
        let shape: StateShape = self.dn_state.shape;
        let fresh: DeltaNetHybridCache = DeltaNetHybridCache::allocate(
            self.layer_kinds.as_slice(),
            self.kv_dim,
            shape.d_conv,
            shape.conv_dim,
            shape.head_v_dim,
            shape.n_v_heads,
        );
        *self = fresh;
    }

    /// Closes a token's step once every layer was run.
    pub fn advance(&mut self)
        requires
            old(self).mid_step(old(self).layer_kinds@.len()),
            old(self).next_position < usize::MAX,
        ensures
            final(self).wf(),
            final(self).next_position == old(self).next_position + 1,
            final(self).kv_layers == old(self).kv_layers,
            final(self).dn_state == old(self).dn_state,
            final(self).layer_kinds == old(self).layer_kinds,
            final(self).kv_dim == old(self).kv_dim,
    {
        let ghost before = *self;
        self.next_position = self.next_position + 1;
        assert forall|l: int| 0 <= l < self.layer_kinds@.len() implies match #[trigger] self.kv_layers@[l] {
            Some(s) => !self.layer_kinds@[l] && s.holds(
                (self.next_position + 0int) as nat,
                self.kv_dim as nat,
            ),
            None => self.layer_kinds@[l],
        } by {
            assert(before.kv_layers@[l] == self.kv_layers@[l]);
        }
    }
}

/// A layer's block can run at a cache: the weights are of the kind that the cache
/// has for the layer and have the shapes that the geometry asks for, the kernels
/// give rows of its widths, and a softmax layer's keys with one more row can still
/// be had.
pub open spec fn block_allowed<F: Fn(usize, Kernel, Vec<Vec<u32>>) -> Vec<u32>>(
    weights: BlockShapes,
    dn: DeltaNetDims,
    dims: Qwen35AttentionDims,
    cache: DeltaNetHybridCache,
    layer: usize,
    kernels: F,
) -> bool {
    match weights {
        BlockShapes::Linear(s) => {
            &&& cache.layer_kinds@[layer as int]
            &&& shapes_match(s, dn)
            &&& geometry_allowed(dn)
            &&& state_shape(dn) == cache.dn_state.shape
            &&& linear_widths(kernels, layer, dn)
        },
        BlockShapes::Attention(s) => {
            &&& !cache.layer_kinds@[layer as int]
            &&& attention_shapes_match(s, dims)
            &&& dims.kv_width() == cache.kv_dim
            &&& attention_widths(kernels, layer, dims)
            &&& cache.kv_layers@[layer as int]->Some_0.k@.len() < usize::MAX
            &&& matrix_fits(
                cache.kv_layers@[layer as int]->Some_0.k@.len() + 1,
                dims.kv_width(),
            )
        },
    }
}

/// A layer's block ran on `x` and gave `y`, and the cache went from `before` to
/// `after` in that layer: a linear layer has its next state and no other keys and
/// values, a softmax layer one more key and value and no other state.
pub open spec fn layer_ran<F: Fn(usize, Kernel, Vec<Vec<u32>>) -> Vec<u32>>(
    weights: BlockShapes,
    kernels: F,
    dn: DeltaNetDims,
    dims: Qwen35AttentionDims,
    layer: usize,
    before: DeltaNetHybridCache,
    x: Seq<u32>,
    after: DeltaNetHybridCache,
    y: Seq<u32>,
) -> bool {
    let l = layer as int;
    match weights {
        BlockShapes::Linear(_) => {
            &&& before.dn_state.layers@[l] is Some
            &&& after.dn_state.layers@[l] is Some
            &&& linear_ran(
                kernels,
                layer,
                dn,
                before.dn_state.layers@[l]->Some_0,
                x,
                after.dn_state.layers@[l]->Some_0,
                y,
            )
            &&& after.kv_layers@[l] == before.kv_layers@[l]
        },
        BlockShapes::Attention(shapes) => {
            &&& before.kv_layers@[l] is Some
            &&& after.kv_layers@[l] is Some
            &&& attention_ran(
                kernels,
                layer,
                sources_of(shapes),
                dims,
                before.next_position,
                before.kv_layers@[l]->Some_0,
                x,
                after.kv_layers@[l]->Some_0,
                y,
            )
            &&& one_row_more(
                before.kv_layers@[l]->Some_0,
                after.kv_layers@[l]->Some_0,
                before.kv_dim as nat,
            )
            &&& after.dn_state.layers@[l] == before.dn_state.layers@[l]
        },
    }
}

/// A layer's block on a row. A linear layer's state moves on; a softmax layer
/// gains the token's key and value; the other layers stay as they are.
pub fn hybrid_layer_step<F: Fn(usize, Kernel, Vec<Vec<u32>>) -> Vec<u32>>(
    layer: usize,
    x: &Vec<u32>,
    weights: &BlockShapes,
    dn: &DeltaNetDims,
    dims: &Qwen35AttentionDims,
    cache: &mut DeltaNetHybridCache,
    kernels: &F,
) -> (y: Vec<u32>)
    requires
        old(cache).shaped(),
        layer < old(cache).layer_kinds@.len(),
        forall|k: Kernel, a: Vec<Vec<u32>>| call_requires(*kernels, (layer, k, a)),
        block_allowed(*weights, *dn, *dims, *old(cache), layer, *kernels),
    ensures
        final(cache).shaped(),
        final(cache).layer_kinds == old(cache).layer_kinds,
        final(cache).kv_dim == old(cache).kv_dim,
        final(cache).next_position == old(cache).next_position,
        final(cache).dn_state.shape == old(cache).dn_state.shape,
        final(cache).kv_layers@.len() == old(cache).kv_layers@.len(),
        final(cache).dn_state.layers@.len() == old(cache).dn_state.layers@.len(),
        forall|l: int|
            0 <= l < old(cache).layer_kinds@.len() && l != layer
                ==> #[trigger] final(cache).kv_layers@[l] == old(cache).kv_layers@[l],
        forall|l: int|
            0 <= l < old(cache).layer_kinds@.len() && l != layer
                ==> #[trigger] final(cache).dn_state.layers@[l] == old(cache).dn_state.layers@[l],
        layer_ran(*weights, *kernels, *dn, *dims, layer, *old(cache), x@, *final(cache), y@),
        *weights is Attention ==> exists|normed: Seq<u32>| #[trigger]
            row_given(
                *kernels,
                layer,
                Kernel::Rotate {
                    heads: dims.n_head_kv,
                    width: dims.head_dim,
                    position: old(cache).next_position,
                },
                normed,
                final(cache).kv_layers@[layer as int]->Some_0.k@.last(),
            ),
        old(cache).mid_step(layer as nat) ==> final(cache).mid_step((layer + 1) as nat),
{
    let ghost before = *cache;
    match weights {
        BlockShapes::Linear(shapes) => {
            assert(before.dn_state.layers@[layer as int] is Some);
            let mut slot: Option<DeltaNetLayerState> = None;
            std::mem::swap(&mut slot, &mut cache.dn_state.layers[layer]);
            let mut state: DeltaNetLayerState = slot.unwrap();
            let y: Vec<u32> = deltanet_block_step(x, layer, shapes, dn, &mut state, kernels);
            cache.dn_state.layers.set(layer, Some(state));
            assert forall|l: int| 0 <= l < cache.layer_kinds@.len() implies match #[trigger] cache.dn_state.layers@[l] {
                Some(s) => cache.layer_kinds@[l] && s.has_shape(cache.dn_state.shape),
                None => !cache.layer_kinds@[l],
            } by {
                if l != layer {
                    assert(cache.dn_state.layers@[l] == before.dn_state.layers@[l]);
                }
            }
            y
        },
        BlockShapes::Attention(shapes) => {
            assert(before.kv_layers@[layer as int] is Some);
            let position: usize = cache.next_position;
            let mut slot: Option<KvSlabs> = None;
            std::mem::swap(&mut slot, &mut cache.kv_layers[layer]);
            let mut slabs: KvSlabs = slot.unwrap();
            let y: Vec<u32> = qwen35_attention_block_step(
                x,
                layer,
                shapes,
                dims,
                &mut slabs,
                position,
                kernels,
            );
            cache.kv_layers.set(layer, Some(slabs));
            proof {
                lemma_key_is_rotated(
                    *kernels,
                    layer,
                    sources_of(*shapes),
                    *dims,
                    before.next_position,
                    before.kv_layers@[layer as int]->Some_0,
                    x@,
                    slabs,
                    y@,
                );
            }
            assert forall|l: int| 0 <= l < cache.layer_kinds@.len() && l != layer implies
                #[trigger] cache.kv_layers@[l] == before.kv_layers@[l] by {
            }
            y
        },
    }
}

/// Between two tokens every softmax layer holds one row for each token so far,
/// and a linear layer none.
pub proof fn law_cache_holds_one_row_per_token(c: DeltaNetHybridCache, l: int)
    requires
        c.wf(),
        0 <= l < c.layer_kinds@.len(),
    ensures
        c.layer_kinds@[l] ==> c.kv_layers@[l] is None && c.dn_state.layers@[l] is Some,
        !c.layer_kinds@[l] ==> c.dn_state.layers@[l] is None && (c.kv_layers@[l] matches Some(s)
            && s.k@.len() == c.next_position && s.v@.len() == c.next_position),
{
    let k = c.kv_layers@[l];
    let d = c.dn_state.layers@[l];
}

/// What a softmax-attention block at a position does to a token, step by step: the
/// queries and gates are halves of one projection of the normed input; queries and
/// keys are normed head by head and rotated by the position, all heads of each; the
/// rotated key and the plain value are the rows that the layer gains; the queries
/// attend over all keys and values with them, and what they give, gated, goes
/// through the output projection.
pub proof fn law_attention_block_steps<F: Fn(usize, Kernel, Vec<Vec<u32>>) -> Vec<u32>>(
    kernels: F,
    layer: usize,
    sources: AttnSources,
    dims: Qwen35AttentionDims,
    position: usize,
    before: KvSlabs,
    x: Seq<u32>,
    after: KvSlabs,
    y: Seq<u32>,
)
    requires
        attention_ran(kernels, layer, sources, dims, position, before, x, after, y),
    ensures
        exists|v: Seq<Seq<u32>>|
            {
                &&& (#[trigger] v.len()) == 15
                &&& v[0] == x && v[14] == y
                &&& may_give(kernels, layer, Kernel::Norm(Weight::AttnNorm), seq![x], v[1])
                &&& may_give(
                    kernels,
                    layer,
                    Kernel::Project(Weight::AttnQ, sources.q),
                    seq![v[1]],
                    v[2],
                )
                &&& may_give(
                    kernels,
                    layer,
                    Kernel::Project(Weight::AttnK, sources.k),
                    seq![v[1]],
                    v[3],
                )
                &&& may_give(
                    kernels,
                    layer,
                    Kernel::Project(Weight::AttnV, sources.v),
                    seq![v[1]],
                    v[4],
                )
                &&& may_give(kernels, layer, Kernel::QueryHalf, seq![v[2]], v[5])
                &&& may_give(kernels, layer, Kernel::GateHalf, seq![v[2]], v[6])
                &&& may_give(kernels, layer, Kernel::HeadNorm(Weight::AttnQNorm), seq![v[5]], v[7])
                &&& may_give(kernels, layer, Kernel::HeadNorm(Weight::AttnKNorm), seq![v[3]], v[8])
                &&& may_give(
                    kernels,
                    layer,
                    Kernel::Rotate { heads: dims.n_head, width: dims.head_dim, position },
                    seq![v[7]],
                    v[9],
                )
                &&& may_give(
                    kernels,
                    layer,
                    Kernel::Rotate { heads: dims.n_head_kv, width: dims.head_dim, position },
                    seq![v[8]],
                    v[10],
                )
                &&& after.k@ == before.k@.push(v[10])
                &&& after.v@ == before.v@.push(v[4])
                &&& may_give(
                    kernels,
                    layer,
                    Kernel::AttendKv,
                    seq![v[9], flat_rows(after.k@) + flat_rows(after.v@)],
                    v[12],
                )
                &&& may_give(kernels, layer, Kernel::SigmoidGate, seq![v[12], v[6]], v[13])
                &&& may_give(
                    kernels,
                    layer,
                    Kernel::Project(Weight::AttnOutput, sources.output),
                    seq![v[13]],
                    y,
                )
            },
{
    let code = attention_code(sources, dims.n_head, dims.n_head_kv, dims.head_dim, position);
    let v = choose|values: Seq<Seq<u32>>|
        {
            &&& #[trigger] attention_values(
                kernels,
                layer,
                code,
                before.k@,
                before.v@,
                x,
                values,
            )
            &&& after.k@ == before.k@.push(values[10])
            &&& after.v@ == before.v@.push(values[4])
            &&& y == values[14]
        };
    assert(may_give(kernels, layer, code[0].kernel, seq![v[0]], v[1]));
    assert(may_give(kernels, layer, code[1].kernel, seq![v[1]], v[2]));
    assert(may_give(kernels, layer, code[2].kernel, seq![v[1]], v[3]));
    assert(may_give(kernels, layer, code[3].kernel, seq![v[1]], v[4]));
    assert(may_give(kernels, layer, code[4].kernel, seq![v[2]], v[5]));
    assert(may_give(kernels, layer, code[5].kernel, seq![v[2]], v[6]));
    assert(may_give(kernels, layer, code[6].kernel, seq![v[5]], v[7]));
    assert(may_give(kernels, layer, code[7].kernel, seq![v[3]], v[8]));
    assert(may_give(kernels, layer, code[8].kernel, seq![v[7]], v[9]));
    assert(may_give(kernels, layer, code[9].kernel, seq![v[8]], v[10]));
    assert(may_give(kernels, layer, code[11].kernel, seq![v[9], v[11]], v[12]));
    assert(may_give(kernels, layer, code[12].kernel, seq![v[12], v[6]], v[13]));
    assert(may_give(kernels, layer, code[13].kernel, seq![v[13]], v[14]));
    assert(v.len() == 15);
}

/// The key row that a block gains was rotated to its position.
pub proof fn lemma_key_is_rotated<F: Fn(usize, Kernel, Vec<Vec<u32>>) -> Vec<u32>>(
    kernels: F,
    layer: usize,
    sources: AttnSources,
    dims: Qwen35AttentionDims,
    position: usize,
    before: KvSlabs,
    x: Seq<u32>,
    after: KvSlabs,
    y: Seq<u32>,
)
    requires
        attention_ran(kernels, layer, sources, dims, position, before, x, after, y),
    ensures
        exists|normed: Seq<u32>| #[trigger]
            row_given(
                kernels,
                layer,
                Kernel::Rotate { heads: dims.n_head_kv, width: dims.head_dim, position },
                normed,
                after.k@.last(),
            ),
{
    law_attention_block_steps(kernels, layer, sources, dims, position, before, x, after, y);
    let v = choose|v: Seq<Seq<u32>>|
        {
            &&& (#[trigger] v.len()) == 15
            &&& may_give(
                kernels,
                layer,
                Kernel::Rotate { heads: dims.n_head_kv, width: dims.head_dim, position },
                seq![v[8]],
                v[10],
            )
            &&& after.k@ == before.k@.push(v[10])
        };
    assert(row_given(
        kernels,
        layer,
        Kernel::Rotate { heads: dims.n_head_kv, width: dims.head_dim, position },
        v[8],
        after.k@.last(),
    ));
}

/// A softmax layer's step at a cache rotates the token's queries and its key to the
/// cache's next position, which is the number of the row that the layer gains.
pub proof fn law_step_rotates_to_the_next_position<
    F: Fn(usize, Kernel, Vec<Vec<u32>>) -> Vec<u32>,
>(
    shapes: AttentionShapes,
    kernels: F,
    dn: DeltaNetDims,
    dims: Qwen35AttentionDims,
    layer: usize,
    before: DeltaNetHybridCache,
    x: Seq<u32>,
    after: DeltaNetHybridCache,
    y: Seq<u32>,
)
    requires
        before.mid_step(layer as nat) || before.wf(),
        layer < before.layer_kinds@.len(),
        layer_ran(
            BlockShapes::Attention(shapes),
            kernels,
            dn,
            dims,
            layer,
            before,
            x,
            after,
            y,
        ),
    ensures
        ({
            let old_rows = before.kv_layers@[layer as int]->Some_0;
            let rows = after.kv_layers@[layer as int]->Some_0;
            let position = before.next_position;
            &&& before.kv_layers@[layer as int] is Some
            &&& after.kv_layers@[layer as int] is Some
            &&& old_rows.k@.len() == position && old_rows.v@.len() == position
            &&& rows.k@.len() == position + 1 && rows.v@.len() == position + 1
            &&& forall|i: int|
                0 <= i < position ==> #[trigger] rows.k@[i] == old_rows.k@[i] && rows.v@[i]
                    == old_rows.v@[i]
            &&& exists|n: Seq<u32>, key: Seq<u32>, normed: Seq<u32>|
                {
                    &&& #[trigger] row_given(
                        kernels,
                        layer,
                        Kernel::Norm(Weight::AttnNorm),
                        x,
                        n,
                    )
                    &&& #[trigger] row_given(
                        kernels,
                        layer,
                        Kernel::Project(Weight::AttnK, source_of(shapes.attn_k)),
                        n,
                        key,
                    )
                    &&& #[trigger] row_given(
                        kernels,
                        layer,
                        Kernel::HeadNorm(Weight::AttnKNorm),
                        key,
                        normed,
                    )
                    &&& row_given(
                        kernels,
                        layer,
                        Kernel::Rotate {
                            heads: dims.n_head_kv,
                            width: dims.head_dim,
                            position,
                        },
                        normed,
                        rows.k@[position as int],
                    )
                }
            &&& exists|normed: Seq<u32>, query: Seq<u32>, out: Seq<u32>|
                {
                    &&& #[trigger] row_given(
                        kernels,
                        layer,
                        Kernel::Rotate { heads: dims.n_head, width: dims.head_dim, position },
                        normed,
                        query,
                    )
                    &&& #[trigger] rows_given(
                        kernels,
                        layer,
                        Kernel::AttendKv,
                        query,
                        flat_rows(rows.k@) + flat_rows(rows.v@),
                        out,
                    )
                }
        }),
{
    let old_rows = before.kv_layers@[layer as int]->Some_0;
    let rows = after.kv_layers@[layer as int]->Some_0;
    let position = before.next_position;
    law_attention_block_steps(
        kernels,
        layer,
        sources_of(shapes),
        dims,
        position,
        old_rows,
        x,
        rows,
        y,
    );
    let v = choose|v: Seq<Seq<u32>>|
        {
            &&& (#[trigger] v.len()) == 15
            &&& v[0] == x && v[14] == y
            &&& may_give(kernels, layer, Kernel::Norm(Weight::AttnNorm), seq![x], v[1])
            &&& may_give(
                kernels,
                layer,
                Kernel::Project(Weight::AttnK, sources_of(shapes).k),
                seq![v[1]],
                v[3],
            )
            &&& may_give(kernels, layer, Kernel::HeadNorm(Weight::AttnKNorm), seq![v[3]], v[8])
            &&& may_give(
                kernels,
                layer,
                Kernel::Rotate { heads: dims.n_head, width: dims.head_dim, position },
                seq![v[7]],
                v[9],
            )
            &&& may_give(
                kernels,
                layer,
                Kernel::Rotate { heads: dims.n_head_kv, width: dims.head_dim, position },
                seq![v[8]],
                v[10],
            )
            &&& rows.k@ == old_rows.k@.push(v[10])
            &&& rows.v@ == old_rows.v@.push(v[4])
            &&& may_give(
                kernels,
                layer,
                Kernel::AttendKv,
                seq![v[9], flat_rows(rows.k@) + flat_rows(rows.v@)],
                v[12],
            )
        };
    assert(row_given(kernels, layer, Kernel::Norm(Weight::AttnNorm), x, v[1]));
    assert(row_given(
        kernels,
        layer,
        Kernel::Project(Weight::AttnK, source_of(shapes.attn_k)),
        v[1],
        v[3],
    ));
    assert(row_given(kernels, layer, Kernel::HeadNorm(Weight::AttnKNorm), v[3], v[8]));
    assert(row_given(
        kernels,
        layer,
        Kernel::Rotate { heads: dims.n_head_kv, width: dims.head_dim, position },
        v[8],
        rows.k@[position as int],
    ));
    assert(row_given(
        kernels,
        layer,
        Kernel::Rotate { heads: dims.n_head, width: dims.head_dim, position },
        v[7],
        v[9],
    ));
    assert(rows_given(
        kernels,
        layer,
        Kernel::AttendKv,
        v[9],
        flat_rows(rows.k@) + flat_rows(rows.v@),
        v[12],
    ));
}

/// Which shapes a softmax-attention block takes: every plain weight as wide as what it
/// reads and as high as what it gives, where queries and gates come from one matrix;
/// a quantized weight's shape is not looked at.
pub proof fn law_attention_shapes(s: AttentionShapes, d: Qwen35AttentionDims)
    ensures
        attention_shapes_match(s, d) <==> {
            let q = d.n_head * d.head_dim;
            let kv = d.n_head_kv * d.head_dim;
            &&& s.x == d.hidden && s.attn_norm == d.hidden
            &&& s.attn_q matches Some(m) ==> m.0 == 2 * q && m.1 == d.hidden
            &&& s.attn_k matches Some(m) ==> m.0 == kv && m.1 == d.hidden
            &&& s.attn_v matches Some(m) ==> m.0 == kv && m.1 == d.hidden
            &&& s.attn_q_norm == d.head_dim && s.attn_k_norm == d.head_dim
            &&& s.attn_output matches Some(m) ==> m.0 == d.hidden && m.1 == q
        },
{
}

/// Where a block's matrices come from: each from a plain matrix where its own shape is
/// there, and quantized where it is not.
pub proof fn law_sources_by_shape(s: AttentionShapes)
    ensures
        sources_of(s).q is Dense <==> s.attn_q is Some,
        sources_of(s).k is Dense <==> s.attn_k is Some,
        sources_of(s).v is Dense <==> s.attn_v is Some,
        sources_of(s).output is Dense <==> s.attn_output is Some,
{
}

/// A linear layer's step at a cache moves the layer's own state on by its own kernels,
/// and leaves its keys and values alone.
pub proof fn law_linear_step_moves_its_own_state<
    F: Fn(usize, Kernel, Vec<Vec<u32>>) -> Vec<u32>,
>(
    shapes: DeltaNetShapes,
    kernels: F,
    dn: DeltaNetDims,
    dims: Qwen35AttentionDims,
    layer: usize,
    before: DeltaNetHybridCache,
    x: Seq<u32>,
    after: DeltaNetHybridCache,
    y: Seq<u32>,
)
    requires
        layer_ran(BlockShapes::Linear(shapes), kernels, dn, dims, layer, before, x, after, y),
    ensures
        before.dn_state.layers@[layer as int] is Some,
        after.dn_state.layers@[layer as int] is Some,
        linear_ran(
            kernels,
            layer,
            dn,
            before.dn_state.layers@[layer as int]->Some_0,
            x,
            after.dn_state.layers@[layer as int]->Some_0,
            y,
        ),
        after.kv_layers@[layer as int] == before.kv_layers@[layer as int],
{
}

/// A softmax layer's step leaves the layer's recurrent state alone.
pub proof fn law_softmax_step_keeps_the_state<
    F: Fn(usize, Kernel, Vec<Vec<u32>>) -> Vec<u32>,
>(
    shapes: AttentionShapes,
    kernels: F,
    dn: DeltaNetDims,
    dims: Qwen35AttentionDims,
    layer: usize,
    before: DeltaNetHybridCache,
    x: Seq<u32>,
    after: DeltaNetHybridCache,
    y: Seq<u32>,
)
    requires
        layer_ran(BlockShapes::Attention(shapes), kernels, dn, dims, layer, before, x, after, y),
    ensures
        after.dn_state.layers@[layer as int] == before.dn_state.layers@[layer as int],
        attention_ran(
            kernels,
            layer,
            sources_of(shapes),
            dims,
            before.next_position,
            before.kv_layers@[layer as int]->Some_0,
            x,
            after.kv_layers@[layer as int]->Some_0,
            y,
        ),
{
}

} // verus!
