//! Gated linear attention: its geometry, the layout of its fused projection, and
//! the block of one token, with floating-point kernels that the caller brings.
//!
//! The projection of a token holds queries, keys and values one behind the
//! other, each head by head: word `h * head_v_dim + d` is dimension `d` of head
//! `h`. The recurrence takes them the other way round, one row per dimension.
use vstd::prelude::*;
use crate::attention::block_program::{
    call_kernel, follows, lemma_follows_carries, linear_code, may_give, push_one, push_two,
    run_kernels, well_wired, Args, Instr, Kernel, Part, Weight,
};
use crate::attention::deltanet_state::{DeltaNetLayerState, StateShape};
use crate::attention::dsv4_model_forward::lemma_position;
use crate::attention::layer_program::Source;
use crate::tensor::{
    as_rows, block_of, flat_planes, flat_rows, grid_of, matrix_indexable, Cube, Matrix,
};
use crate::words::{contents, copy_row};

verus! {

/// Shape of a layer. `eps` is a bit pattern.
#[derive(Clone, Copy, Debug, PartialEq, Eq, Structural)]
pub struct DeltaNetDims {
    /// Width of the residual stream.
    pub hidden: usize,
    /// Width of a head.
    pub head_v_dim: usize,
    /// Number of value heads.
    pub n_v_heads: usize,
    /// Number of key heads.
    pub n_k_heads: usize,
    /// Window of the convolution.
    pub d_conv: usize,
    pub eps: u32,
}

impl DeltaNetDims {
    /// Width of the queries, and of the keys.
    pub open spec fn key_width(self) -> nat {
        self.head_v_dim as nat * self.n_k_heads as nat
    }

    /// Width of the values.
    pub open spec fn value_width(self) -> nat {
        self.head_v_dim as nat * self.n_v_heads as nat
    }

    /// Width of queries, keys and values together.
    pub open spec fn conv_width(self) -> nat {
        2 * self.key_width() + self.value_width()
    }

    /// Width of the queries, and of the keys.
    pub fn key_dim(&self) -> (n: usize)
        requires
            self.key_width() <= usize::MAX,
        ensures
            n == self.key_width(),
    {
        self.head_v_dim * self.n_k_heads
    }

    /// Width of the values.
    pub fn value_dim(&self) -> (n: usize)
        requires
            self.value_width() <= usize::MAX,
        ensures
            n == self.value_width(),
    {
        self.head_v_dim * self.n_v_heads
    }

    /// Width of queries, keys and values together: the channels of the
    /// convolution.
    pub fn conv_dim(&self) -> (n: usize)
        requires
            self.conv_width() <= usize::MAX,
        ensures
            n == self.conv_width(),
    {
        2 * self.key_dim() + self.value_dim()
    }
}

/// Shapes of a layer's weights as `(rows, columns)`, and lengths of its
/// vectors.
#[derive(Clone, Copy, Debug)]
pub struct DeltaNetShapes {
    pub x: usize,
    pub attn_norm: usize,
    pub attn_qkv: (usize, usize),
    pub attn_gate: (usize, usize),
    pub ssm_conv1d: (usize, usize),
    pub ssm_dt: usize,
    pub ssm_a: usize,
    pub ssm_beta: (usize, usize),
    pub ssm_alpha: (usize, usize),
    pub ssm_norm: usize,
    pub ssm_out: (usize, usize),
}

/// Every weight has the shape that the layer's geometry asks for.
pub open spec fn shapes_match(s: DeltaNetShapes, d: DeltaNetDims) -> bool {
    &&& s.x == d.hidden
    &&& s.attn_norm == d.hidden
    &&& s.attn_qkv.0 == d.conv_width() && s.attn_qkv.1 == d.hidden
    &&& s.attn_gate.0 == d.value_width() && s.attn_gate.1 == d.hidden
    &&& s.ssm_conv1d.0 == d.d_conv && s.ssm_conv1d.1 == d.conv_width()
    &&& s.ssm_dt == d.n_v_heads
    &&& s.ssm_a == d.n_v_heads
    &&& s.ssm_beta.0 == d.n_v_heads && s.ssm_beta.1 == d.hidden
    &&& s.ssm_alpha.0 == d.n_v_heads && s.ssm_alpha.1 == d.hidden
    &&& s.ssm_norm == d.head_v_dim
    &&& s.ssm_out.0 == d.hidden && s.ssm_out.1 == d.value_width()
}

/// Whether every weight has the shape that the layer's geometry asks for.
pub fn check_shapes(s: &DeltaNetShapes, d: &DeltaNetDims) -> (r: bool)
    requires
        d.conv_width() <= usize::MAX,
    ensures
        r == shapes_match(*s, *d),
{
    let conv: usize = d.conv_dim();
    let value: usize = d.value_dim();
    s.x == d.hidden && s.attn_norm == d.hidden && s.attn_qkv.0 == conv && s.attn_qkv.1 == d.hidden
        && s.attn_gate.0 == value && s.attn_gate.1 == d.hidden && s.ssm_conv1d.0 == d.d_conv
        && s.ssm_conv1d.1 == conv && s.ssm_dt == d.n_v_heads && s.ssm_a == d.n_v_heads
        && s.ssm_beta.0 == d.n_v_heads && s.ssm_beta.1 == d.hidden && s.ssm_alpha.0 == d.n_v_heads
        && s.ssm_alpha.1 == d.hidden && s.ssm_norm == d.head_v_dim && s.ssm_out.0 == d.hidden
        && s.ssm_out.1 == value
}

/// Words that lie head by head, with one row for every dimension: row `d`,
/// column `h` is word `h * width + d`.
pub open spec fn by_dimension(flat: Seq<u32>, heads: nat, width: nat) -> Seq<Seq<u32>> {
    Seq::new(width, |d: int| Seq::new(heads, |h: int| flat[h * width + d]))
}

/// The words head by head out of one row for every dimension.
pub open spec fn by_head(rows: Seq<Seq<u32>>, heads: nat) -> Seq<u32> {
    Seq::new(
        heads * rows.len(),
        |k: int| rows[k % rows.len() as int][k / rows.len() as int],
    )
}

/// Words that lie head by head as a matrix with one row for every dimension.
pub fn head_major_to_dims(flat: Vec<u32>, heads: usize, width: usize) -> (m: Matrix)
    requires
        flat@.len() == heads * width,
        matrix_indexable(heads as nat, width as nat),
    ensures
        m.wf(),
        m@ == by_dimension(flat@, heads as nat, width as nat),
        m.width() == heads,
{
    let ghost f = flat@;
    let by_heads: Matrix = Matrix::from_flat(heads, width, flat).unwrap();
    let m: Matrix = by_heads.transpose();
    assert forall|d: int| 0 <= d < width implies m@[d] == by_dimension(
        f,
        heads as nat,
        width as nat,
    )[d] by {
        assert(m@[d] =~= by_dimension(f, heads as nat, width as nat)[d]);
    }
    assert(m@ =~= by_dimension(f, heads as nat, width as nat));
    m
}

/// The words head by head out of a matrix with one row for every dimension.
pub fn dims_to_head_major(m: &Matrix) -> (flat: Vec<u32>)
    requires
        m@.len() * m.width() <= usize::MAX,
    ensures
        flat@ == by_head(m@, m.width()),
{
    let width: usize = m.nrows();
    let heads: usize = m.ncols();
    assert(heads * width == width * heads) by (nonlinear_arith);
    let n: usize = heads * width;
    let mut flat: Vec<u32> = Vec::new();
    let mut k: usize = 0;
    while k < n
        invariant
            k <= n,
            n == heads * width,
            width == m@.len(),
            heads == m.width(),
            m.wf(),
            flat@ == by_head(m@, heads as nat).take(k as int),
        decreases n - k,
    {
        proof {
            lemma_position(k as int, heads as int, width as int);
        }
        flat.push(m.at(k % width, k / width));
        k += 1;
        assert(flat@ =~= by_head(m@, heads as nat).take(k as int));
    }
    assert(by_head(m@, heads as nat).take(n as int) =~= by_head(m@, heads as nat));
    flat
}

/// Going over to rows by dimension and back gives the same words.
pub proof fn law_head_layout_round_trip(flat: Seq<u32>, heads: nat, width: nat)
    requires
        flat.len() == heads * width,
    ensures
        by_head(by_dimension(flat, heads, width), heads) == flat,
{
    let back = by_head(by_dimension(flat, heads, width), heads);
    assert forall|k: int| 0 <= k < flat.len() implies back[k] == flat[k] by {
        lemma_position(k, heads as int, width as int);
    }
    assert(back =~= flat);
}

/// Queries, keys and values of a token, each with one row for every dimension.
pub struct QkvHeads {
    pub q: Matrix,
    pub k: Matrix,
    pub v: Matrix,
}

fn part(s: &[u32], from: usize, to: usize) -> (w: Vec<u32>)
    requires
        from <= to <= s@.len(),
    ensures
        w@ == s@.subrange(from as int, to as int),
{
    let w: Vec<u32> = vstd::slice::slice_to_vec(vstd::slice::slice_subrange(s, from, to));
    assert(w@ =~= s@.subrange(from as int, to as int));
    w
}

/// Queries, keys or values of a token's fused projection, with one row for every
/// dimension: the queries come first, then the keys, then the values.
pub open spec fn head_part(fused: Seq<u32>, dims: DeltaNetDims, which: Part) -> Seq<Seq<u32>> {
    let key = dims.key_width() as int;
    let width = dims.head_v_dim as nat;
    match which {
        Part::Query => by_dimension(fused.subrange(0, key), dims.n_k_heads as nat, width),
        Part::Key => by_dimension(fused.subrange(key, 2 * key), dims.n_k_heads as nat, width),
        Part::Value => by_dimension(
            fused.subrange(2 * key, dims.conv_width() as int),
            dims.n_v_heads as nat,
            width,
        ),
    }
}

/// Splits a token's fused projection into queries, keys and values.
pub fn split_qkv(fused: &[u32], dims: &DeltaNetDims) -> (r: QkvHeads)
    requires
        fused@.len() == dims.conv_width(),
        matrix_indexable(dims.n_k_heads as nat, dims.head_v_dim as nat),
        matrix_indexable(dims.n_v_heads as nat, dims.head_v_dim as nat),
    ensures
        r.q@ == head_part(fused@, *dims, Part::Query),
        r.k@ == head_part(fused@, *dims, Part::Key),
        r.v@ == head_part(fused@, *dims, Part::Value),
        r.q.width() == dims.n_k_heads,
        r.k.width() == dims.n_k_heads,
        r.v.width() == dims.n_v_heads,
{
    let total: usize = fused.len();
    let key: usize = dims.key_dim();
    assert(dims.head_v_dim * dims.n_k_heads == dims.n_k_heads * dims.head_v_dim)
        by (nonlinear_arith);
    assert(dims.head_v_dim * dims.n_v_heads == dims.n_v_heads * dims.head_v_dim)
        by (nonlinear_arith);
    let q: Vec<u32> = part(fused, 0, key);
    let k: Vec<u32> = part(fused, key, 2 * key);
    let v: Vec<u32> = part(fused, 2 * key, total);
    QkvHeads {
        q: head_major_to_dims(q, dims.n_k_heads, dims.head_v_dim),
        k: head_major_to_dims(k, dims.n_k_heads, dims.head_v_dim),
        v: head_major_to_dims(v, dims.n_v_heads, dims.head_v_dim),
    }
}

/// Every word of the fused projection lands in exactly one place: dimension `d`
/// of query head `h` is word `h * head_v_dim + d`, keys start behind the
/// queries, values behind the keys.
pub proof fn law_split_places(fused: Seq<u32>, dims: DeltaNetDims, h: int, d: int)
    requires
        fused.len() == dims.conv_width(),
        0 <= d < dims.head_v_dim,
        0 <= h,
    ensures
        h < dims.n_k_heads ==> head_part(fused, dims, Part::Query)[d][h] == fused[h
            * dims.head_v_dim + d],
        h < dims.n_k_heads ==> head_part(fused, dims, Part::Key)[d][h] == fused[dims.key_width() + h
            * dims.head_v_dim + d],
        h < dims.n_v_heads ==> head_part(fused, dims, Part::Value)[d][h] == fused[2
            * dims.key_width() + h * dims.head_v_dim + d],
{
    let w = dims.head_v_dim as int;
    let nk = dims.n_k_heads as int;
    let nv = dims.n_v_heads as int;
    assert(0 <= h * w && (h < nk ==> h * w + d < w * nk) && (h < nv ==> h * w + d < w * nv))
        by (nonlinear_arith)
        requires
            0 <= d < w,
            0 <= h,
            nk >= 0,
            nv >= 0,
    ;
}

/// The block of one token: its kernels, and how they are wired.
pub fn deltanet_block_code(shapes: &DeltaNetShapes, dims: &DeltaNetDims) -> (code: Vec<Instr>)
    requires
        shapes_match(*shapes, *dims),
    ensures
        code@ == linear_code(),
        well_wired(code@),
{
    let mut code: Vec<Instr> = Vec::new();
    push_one(&mut code, Kernel::Norm(Weight::AttnNorm), 0);
    push_one(&mut code, Kernel::Project(Weight::AttnQkv, Source::Dense), 1);
    push_one(&mut code, Kernel::Project(Weight::AttnGate, Source::Dense), 1);
    push_one(&mut code, Kernel::Project(Weight::SsmBeta, Source::Dense), 1);
    push_one(&mut code, Kernel::Project(Weight::SsmAlpha, Source::Dense), 1);
    push_one(&mut code, Kernel::Sigmoid, 4);
    push_one(&mut code, Kernel::Decay, 5);
    push_one(&mut code, Kernel::Conv, 2);
    push_one(&mut code, Kernel::Silu, 8);
    push_one(&mut code, Kernel::HeadPart(Part::Query), 9);
    push_one(&mut code, Kernel::HeadPart(Part::Key), 9);
    push_one(&mut code, Kernel::HeadPart(Part::Value), 9);
    push_one(&mut code, Kernel::UnitHeads, 10);
    push_one(&mut code, Kernel::UnitHeads, 11);
    code.push(Instr { kernel: Kernel::DeltaRule, args: Args::Five(13, 14, 12, 7, 6) });
    push_one(&mut code, Kernel::HeadMajor, 15);
    push_one(&mut code, Kernel::HeadNorm(Weight::SsmNorm), 16);
    push_two(&mut code, Kernel::SiluGate, 17, 3);
    push_one(&mut code, Kernel::Project(Weight::SsmOut, Source::Dense), 18);
    assert(code@ =~= linear_code());
    code
}

/// The shape of the state that a layer of this geometry carries from token to
/// token: the inputs that the convolution looks back on, and a square matrix for
/// every value head.
pub open spec fn state_shape(d: DeltaNetDims) -> StateShape {
    StateShape {
        d_conv: d.d_conv,
        conv_dim: d.conv_width() as usize,
        head_v_dim: d.head_v_dim,
        n_v_heads: d.n_v_heads,
    }
}

/// How many words the convolution's window has.
pub open spec fn window_words(d: DeltaNetDims) -> nat {
    ((d.d_conv - 1) * d.conv_width()) as nat
}

/// How many words the recurrent state has.
pub open spec fn recurrent_words(d: DeltaNetDims) -> nat {
    d.n_v_heads as nat * d.head_v_dim as nat * d.head_v_dim as nat
}

/// A layer of this geometry can be had: its state, and its heads as matrices.
pub open spec fn geometry_allowed(d: DeltaNetDims) -> bool {
    &&& d.conv_width() <= usize::MAX
    &&& state_shape(d).allowed()
    &&& matrix_indexable(d.n_k_heads as nat, d.head_v_dim as nat)
    &&& matrix_indexable(d.n_v_heads as nat, d.head_v_dim as nat)
    &&& d.conv_width() + window_words(d) <= usize::MAX
    &&& d.value_width() + recurrent_words(d) <= usize::MAX
}

/// The kernels of a layer's block give rows of the widths that the geometry asks
/// for. The convolution gives its output and behind it its next window, the delta
/// rule its output and behind it the next recurrent state.
pub open spec fn linear_widths<F: Fn(usize, Kernel, Vec<Vec<u32>>) -> Vec<u32>>(
    kernels: F,
    layer: usize,
    d: DeltaNetDims,
) -> bool {
    &&& forall|args: Seq<Seq<u32>>, out: Seq<u32>| #[trigger]
        may_give(kernels, layer, Kernel::Conv, args, out) ==> out.len() == d.conv_width()
            + window_words(d)
    &&& forall|args: Seq<Seq<u32>>, out: Seq<u32>| #[trigger]
        may_give(kernels, layer, Kernel::Silu, args, out) && args.len() == 1 ==> out.len()
            == args[0].len()
    &&& forall|args: Seq<Seq<u32>>, out: Seq<u32>| #[trigger]
        may_give(kernels, layer, Kernel::DeltaRule, args, out) ==> out.len() == d.value_width()
            + recurrent_words(d)
    &&& forall|args: Seq<Seq<u32>>, out: Seq<u32>| #[trigger]
        may_give(kernels, layer, Kernel::Project(Weight::SsmOut, Source::Dense), args, out)
            ==> out.len() == d.hidden
}

/// The values of a block that ran on `x`: queries, keys and values are the parts
/// of the mixed projection with one row for every dimension, the convolution and
/// the delta rule read the state from before, and the delta rule's output goes on
/// head by head.
pub open spec fn linear_values<F: Fn(usize, Kernel, Vec<Vec<u32>>) -> Vec<u32>>(
    kernels: F,
    layer: usize,
    d: DeltaNetDims,
    before: DeltaNetLayerState,
    x: Seq<u32>,
    values: Seq<Seq<u32>>,
    window: Seq<u32>,
    recurrent: Seq<u32>,
) -> bool {
    let code = linear_code();
    &&& values.len() == code.len() + 1
    &&& values[0] == x
    &&& follows(kernels, layer, code, values, 0, 7)
    &&& may_give(
        kernels,
        layer,
        Kernel::Conv,
        seq![values[2], flat_rows(before.conv_state@)],
        values[8] + window,
    )
    &&& values[8].len() == d.conv_width()
    &&& window.len() == window_words(d)
    &&& follows(kernels, layer, code, values, 8, 9)
    &&& values[10] == flat_rows(head_part(values[9], d, Part::Query))
    &&& values[11] == flat_rows(head_part(values[9], d, Part::Key))
    &&& values[12] == flat_rows(head_part(values[9], d, Part::Value))
    &&& follows(kernels, layer, code, values, 12, 14)
    &&& may_give(
        kernels,
        layer,
        Kernel::DeltaRule,
        seq![
            values[13],
            values[14],
            values[12],
            values[7],
            values[6],
            flat_planes(before.recurrent_state@),
        ],
        values[15] + recurrent,
    )
    &&& values[15].len() == d.value_width()
    &&& recurrent.len() == recurrent_words(d)
    &&& values[16] == by_head(
        as_rows(values[15], d.head_v_dim as nat, d.n_v_heads as nat),
        d.n_v_heads as nat,
    )
    &&& follows(kernels, layer, code, values, 16, code.len() as int)
}

/// A block ran on `x` and gave `y`, and the layer's state went from `before` to
/// `after`.
pub open spec fn linear_ran<F: Fn(usize, Kernel, Vec<Vec<u32>>) -> Vec<u32>>(
    kernels: F,
    layer: usize,
    d: DeltaNetDims,
    before: DeltaNetLayerState,
    x: Seq<u32>,
    after: DeltaNetLayerState,
    y: Seq<u32>,
) -> bool {
    exists|values: Seq<Seq<u32>>, window: Seq<u32>, recurrent: Seq<u32>|
        {
            &&& #[trigger] linear_values(
                kernels,
                layer,
                d,
                before,
                x,
                values,
                window,
                recurrent,
            )
            &&& after.conv_state.grid() == grid_of(
                window,
                (d.d_conv - 1) as nat,
                d.conv_width(),
            )
            &&& after.recurrent_state.block() == block_of(
                recurrent,
                d.n_v_heads as nat,
                d.head_v_dim as nat,
                d.head_v_dim as nat,
            )
            &&& y == values[19]
        }
}

/// Queries, keys and values of a mixed projection, each with one row for every
/// dimension and the rows one behind the other.
fn flat_parts(mixed: &Vec<u32>, dims: &DeltaNetDims) -> (r: (Vec<u32>, Vec<u32>, Vec<u32>))
    requires
        mixed@.len() == dims.conv_width(),
        geometry_allowed(*dims),
    ensures
        r.0@ == flat_rows(head_part(mixed@, *dims, Part::Query)),
        r.1@ == flat_rows(head_part(mixed@, *dims, Part::Key)),
        r.2@ == flat_rows(head_part(mixed@, *dims, Part::Value)),
{
    let heads: QkvHeads = split_qkv(mixed.as_slice(), dims);
    (heads.q.flat(), heads.k.flat(), heads.v.flat())
}

/// The delta rule's output head by head.
fn heads_out(out: Vec<u32>, dims: &DeltaNetDims) -> (flat: Vec<u32>)
    requires
        out@.len() == dims.value_width(),
        geometry_allowed(*dims),
    ensures
        flat@ == by_head(
            as_rows(out@, dims.head_v_dim as nat, dims.n_v_heads as nat),
            dims.n_v_heads as nat,
        ),
{
    let width: usize = dims.head_v_dim;
    let heads: usize = dims.n_v_heads;
    proof {
        let a = crate::tensor::axis(width as nat);
        let b = crate::tensor::axis(heads as nat);
        assert(a * b == b * a) by (nonlinear_arith);
        assert(width as nat * heads as nat == width * heads);
    }
    let m: Matrix = Matrix::from_flat(width, heads, out).unwrap();
    dims_to_head_major(&m)
}

/// The block of one token. The floating-point kernels are the caller's; the
/// layer's state moves on and keeps its shape.
pub fn deltanet_block_step<F: Fn(usize, Kernel, Vec<Vec<u32>>) -> Vec<u32>>(
    x: &Vec<u32>,
    layer: usize,
    shapes: &DeltaNetShapes,
    dims: &DeltaNetDims,
    state: &mut DeltaNetLayerState,
    kernels: &F,
) -> (y: Vec<u32>)
    requires
        shapes_match(*shapes, *dims),
        geometry_allowed(*dims),
        old(state).has_shape(state_shape(*dims)),
        forall|k: Kernel, a: Vec<Vec<u32>>| call_requires(*kernels, (layer, k, a)),
        linear_widths(*kernels, layer, *dims),
    ensures
        linear_ran(*kernels, layer, *dims, *old(state), x@, *final(state), y@),
        y@.len() == dims.hidden,
        final(state).has_shape(state_shape(*dims)),
{
    let ghost before = *state;
    let code: Vec<Instr> = deltanet_block_code(shapes, dims);
    let conv: usize = dims.conv_dim();
    let value: usize = dims.value_dim();
    let mut values: Vec<Vec<u32>> = Vec::new();
    values.push(copy_row(x));
    run_kernels(&code, 7, layer, &mut values, kernels);
    let ghost at8 = contents(values@);
    assert(at8[0] == x@) by {
        assert(at8.take(1)[0] == x@);
    }
    // The convolution, with the window.
    let mut args: Vec<Vec<u32>> = Vec::new();
    args.push(copy_row(&values[2]));
    args.push(state.conv_state.flat());
    assert(contents(args@) =~= seq![at8[2], flat_rows(before.conv_state@)]);
    let out: Vec<u32> = call_kernel(kernels, layer, Kernel::Conv, args);
    let row: Vec<u32> = part(out.as_slice(), 0, conv);
    let rest: Vec<u32> = part(out.as_slice(), conv, out.len());
    let ghost window = rest@;
    assert(out@ =~= row@ + window);
    values.push(row);
    run_kernels(&code, 9, layer, &mut values, kernels);
    let ghost at10 = contents(values@);
    proof {
        assert(at10.take(8) =~= at8) by {
            assert(at10.take(9).take(8) =~= at10.take(8));
        }
        assert(at10[8] == row@) by {
            assert(at10.take(9)[8] == row@);
        }
        assert(may_give(*kernels, layer, code@[8].kernel, seq![at10[8]], at10[9]));
        assert(at10[9] == values@[9]@);
    }
    // The heads, one row for every dimension.
    let (q, k, v): (Vec<u32>, Vec<u32>, Vec<u32>) = flat_parts(&values[9], dims);
    values.push(q);
    values.push(k);
    values.push(v);
    run_kernels(&code, 14, layer, &mut values, kernels);
    let ghost at15 = contents(values@);
    proof {
        assert(at15.take(10) =~= at10) by {
            assert(at15.take(13).take(10) =~= at15.take(10));
        }
        assert(at15[10] == q@ && at15[11] == k@ && at15[12] == v@) by {
            let t = at15.take(13);
            assert(t[10] == q@ && t[11] == k@ && t[12] == v@);
        }
    }
    // The delta rule, with the recurrent state.
    let mut args: Vec<Vec<u32>> = Vec::new();
    args.push(copy_row(&values[13]));
    args.push(copy_row(&values[14]));
    args.push(copy_row(&values[12]));
    args.push(copy_row(&values[7]));
    args.push(copy_row(&values[6]));
    args.push(state.recurrent_state.flat());
    assert(contents(args@) =~= seq![
        at15[13],
        at15[14],
        at15[12],
        at15[7],
        at15[6],
        flat_planes(before.recurrent_state@),
    ]);
    let out: Vec<u32> = call_kernel(kernels, layer, Kernel::DeltaRule, args);
    let o: Vec<u32> = part(out.as_slice(), 0, value);
    let next: Vec<u32> = part(out.as_slice(), value, out.len());
    let ghost recurrent = next@;
    assert(out@ =~= o@ + recurrent);
    let ghost delta = o@;
    values.push(copy_row(&o));
    values.push(heads_out(o, dims));
    let ghost at17 = contents(values@);
    run_kernels(&code, 19, layer, &mut values, kernels);
    proof {
        let all = contents(values@);
        assert(all.take(15) =~= at15) by {
            assert(all.take(17).take(15) =~= all.take(15));
            assert(at17.take(15) =~= at15);
        }
        assert(all.take(10) =~= at10) by {
            assert(all.take(15).take(10) =~= all.take(10));
        }
        assert(all.take(8) =~= at8) by {
            assert(all.take(10).take(8) =~= all.take(8));
        }
        assert(all[15] == at17[15] && all[16] == at17[16]) by {
            assert(all.take(17)[15] == all[15] && all.take(17)[16] == all[16]);
        }
        assert forall|i: int| 0 <= i < 15 implies all[i] == at15[i] by {
            assert(all.take(15)[i] == all[i]);
        }
        assert forall|i: int| 0 <= i < 10 implies all[i] == at10[i] by {
            assert(all.take(10)[i] == all[i]);
        }
        assert forall|i: int| 0 <= i < 8 implies all[i] == at8[i] by {
            assert(all.take(8)[i] == all[i]);
        }
        lemma_follows_carries(*kernels, layer, code@, at8, all, 0, 7);
        lemma_follows_carries(*kernels, layer, code@, at10, all, 8, 9);
        lemma_follows_carries(*kernels, layer, code@, at15, all, 12, 14);
        assert(linear_values(
            *kernels,
            layer,
            *dims,
            before,
            x@,
            all,
            window,
            recurrent,
        ));
        assert(may_give(*kernels, layer, code@[18].kernel, seq![all[18]], all[19]));
        assert(all[19] == values@[19]@);
    }
    state.conv_state = Matrix::from_flat(dims.d_conv - 1, conv, rest).unwrap();
    state.recurrent_state = Cube::from_flat(
        dims.n_v_heads,
        dims.head_v_dim,
        dims.head_v_dim,
        next,
    ).unwrap();
    let y: Vec<u32> = copy_row(&values[19]);
    y
}

/// The widths of the fused projection: as many words for queries as for keys, and the
/// values behind them.
pub proof fn law_fused_widths(d: DeltaNetDims)
    ensures
        d.key_width() == d.head_v_dim * d.n_k_heads,
        d.value_width() == d.head_v_dim * d.n_v_heads,
        d.conv_width() == d.key_width() + d.key_width() + d.value_width(),
        d.conv_width() == d.head_v_dim * (2 * d.n_k_heads + d.n_v_heads),
{
    let w = d.head_v_dim as int;
    let k = d.n_k_heads as int;
    let v = d.n_v_heads as int;
    assert(2 * (w * k) + w * v == w * (2 * k + v)) by (nonlinear_arith);
}

/// What a gated linear-attention block does to a token, step by step. The fused
/// projection of the normed input goes through the convolution with the layer's
/// window, which moves on; queries, keys and values are parts of what comes out, with
/// queries and keys scaled to length one; they, the decay and the write strength move
/// the layer's recurrent state on; what comes out, head by head, is normed, gated and
/// led through the output projection.
pub proof fn law_linear_block_steps<F: Fn(usize, Kernel, Vec<Vec<u32>>) -> Vec<u32>>(
    kernels: F,
    layer: usize,
    d: DeltaNetDims,
    before: DeltaNetLayerState,
    x: Seq<u32>,
    after: DeltaNetLayerState,
    y: Seq<u32>,
)
    requires
        d.d_conv >= 1,
        linear_ran(kernels, layer, d, before, x, after, y),
    ensures
        exists|v: Seq<Seq<u32>>, window: Seq<u32>, recurrent: Seq<u32>|
            {
                let dense = Source::Dense;
                &&& #[trigger] linear_values(
                    kernels,
                    layer,
                    d,
                    before,
                    x,
                    v,
                    window,
                    recurrent,
                )
                &&& v[0] == x
                &&& may_give(kernels, layer, Kernel::Norm(Weight::AttnNorm), seq![x], v[1])
                &&& may_give(
                    kernels,
                    layer,
                    Kernel::Project(Weight::AttnQkv, dense),
                    seq![v[1]],
                    v[2],
                )
                &&& may_give(
                    kernels,
                    layer,
                    Kernel::Project(Weight::AttnGate, dense),
                    seq![v[1]],
                    v[3],
                )
                &&& may_give(
                    kernels,
                    layer,
                    Kernel::Project(Weight::SsmBeta, dense),
                    seq![v[1]],
                    v[4],
                )
                &&& may_give(
                    kernels,
                    layer,
                    Kernel::Project(Weight::SsmAlpha, dense),
                    seq![v[1]],
                    v[5],
                )
                &&& may_give(kernels, layer, Kernel::Sigmoid, seq![v[4]], v[6])
                &&& may_give(kernels, layer, Kernel::Decay, seq![v[5]], v[7])
                &&& may_give(
                    kernels,
                    layer,
                    Kernel::Conv,
                    seq![v[2], flat_rows(before.conv_state@)],
                    v[8] + window,
                )
                &&& v[8].len() == d.head_v_dim * (2 * d.n_k_heads + d.n_v_heads)
                &&& window.len() == (d.d_conv - 1) * v[8].len()
                &&& after.conv_state.grid() == grid_of(window, (d.d_conv - 1) as nat, v[8].len())
                &&& may_give(kernels, layer, Kernel::Silu, seq![v[8]], v[9])
                &&& v[10] == flat_rows(head_part(v[9], d, Part::Query))
                &&& v[11] == flat_rows(head_part(v[9], d, Part::Key))
                &&& v[12] == flat_rows(head_part(v[9], d, Part::Value))
                &&& may_give(kernels, layer, Kernel::UnitHeads, seq![v[10]], v[13])
                &&& may_give(kernels, layer, Kernel::UnitHeads, seq![v[11]], v[14])
                &&& may_give(
                    kernels,
                    layer,
                    Kernel::DeltaRule,
                    seq![
                        v[13],
                        v[14],
                        v[12],
                        v[7],
                        v[6],
                        flat_planes(before.recurrent_state@),
                    ],
                    v[15] + recurrent,
                )
                &&& v[15].len() == d.head_v_dim * d.n_v_heads
                &&& after.recurrent_state.block() == block_of(
                    recurrent,
                    d.n_v_heads as nat,
                    d.head_v_dim as nat,
                    d.head_v_dim as nat,
                )
                &&& v[16] == by_head(
                    as_rows(v[15], d.head_v_dim as nat, d.n_v_heads as nat),
                    d.n_v_heads as nat,
                )
                &&& may_give(kernels, layer, Kernel::HeadNorm(Weight::SsmNorm), seq![v[16]], v[17])
                &&& may_give(kernels, layer, Kernel::SiluGate, seq![v[17], v[3]], v[18])
                &&& may_give(
                    kernels,
                    layer,
                    Kernel::Project(Weight::SsmOut, dense),
                    seq![v[18]],
                    y,
                )
            },
{
    law_fused_widths(d);
    let (rows, width) = (d.d_conv - 1, d.conv_width() as int);
    assert(rows * width >= 0) by (nonlinear_arith)
        requires
            rows >= 0,
            width >= 0,
    ;
    let (v, window, recurrent) = choose|
        values: Seq<Seq<u32>>,
        window: Seq<u32>,
        recurrent: Seq<u32>,
    |
        {
            &&& #[trigger] linear_values(kernels, layer, d, before, x, values, window, recurrent)
            &&& after.conv_state.grid() == grid_of(
                window,
                (d.d_conv - 1) as nat,
                d.conv_width(),
            )
            &&& after.recurrent_state.block() == block_of(
                recurrent,
                d.n_v_heads as nat,
                d.head_v_dim as nat,
                d.head_v_dim as nat,
            )
            &&& y == values[19]
        };
    let code = linear_code();
    assert(may_give(kernels, layer, code[0].kernel, seq![v[0]], v[1]));
    assert(may_give(kernels, layer, code[1].kernel, seq![v[1]], v[2]));
    assert(may_give(kernels, layer, code[2].kernel, seq![v[1]], v[3]));
    assert(may_give(kernels, layer, code[3].kernel, seq![v[1]], v[4]));
    assert(may_give(kernels, layer, code[4].kernel, seq![v[1]], v[5]));
    assert(may_give(kernels, layer, code[5].kernel, seq![v[4]], v[6]));
    assert(may_give(kernels, layer, code[6].kernel, seq![v[5]], v[7]));
    assert(may_give(kernels, layer, code[8].kernel, seq![v[8]], v[9]));
    assert(may_give(kernels, layer, code[12].kernel, seq![v[10]], v[13]));
    assert(may_give(kernels, layer, code[13].kernel, seq![v[11]], v[14]));
    assert(may_give(kernels, layer, code[16].kernel, seq![v[16]], v[17]));
    assert(may_give(kernels, layer, code[17].kernel, seq![v[17], v[3]], v[18]));
    assert(may_give(kernels, layer, code[18].kernel, seq![v[18]], v[19]));
}

/// Which shapes a gated linear-attention block takes: every weight as wide as what it
/// reads and as high as what it gives.
pub proof fn law_linear_shapes(s: DeltaNetShapes, d: DeltaNetDims)
    ensures
        shapes_match(s, d) <==> {
            let fused = d.head_v_dim * (2 * d.n_k_heads + d.n_v_heads);
            let values = d.head_v_dim * d.n_v_heads;
            &&& s.x == d.hidden && s.attn_norm == d.hidden
            &&& s.attn_qkv.0 == fused && s.attn_qkv.1 == d.hidden
            &&& s.attn_gate.0 == values && s.attn_gate.1 == d.hidden
            &&& s.ssm_conv1d.0 == d.d_conv && s.ssm_conv1d.1 == fused
            &&& s.ssm_dt == d.n_v_heads && s.ssm_a == d.n_v_heads
            &&& s.ssm_beta.0 == d.n_v_heads && s.ssm_beta.1 == d.hidden
            &&& s.ssm_alpha.0 == d.n_v_heads && s.ssm_alpha.1 == d.hidden
            &&& s.ssm_norm == d.head_v_dim
            &&& s.ssm_out.0 == d.hidden && s.ssm_out.1 == values
        },
{
    law_fused_widths(d);
}

/// The state of a gated linear-attention block: a window of the convolution that is as
/// wide as the fused projection, and a square matrix for every value head.
pub proof fn law_state_of_the_block(d: DeltaNetDims)
    requires
        d.conv_width() <= usize::MAX,
    ensures
        state_shape(d).d_conv == d.d_conv,
        state_shape(d).conv_dim == d.head_v_dim * (2 * d.n_k_heads + d.n_v_heads),
        state_shape(d).head_v_dim == d.head_v_dim,
        state_shape(d).n_v_heads == d.n_v_heads,
        recurrent_words(d) == d.n_v_heads * d.head_v_dim * d.head_v_dim,
{
    law_fused_widths(d);
}

} // verus!
