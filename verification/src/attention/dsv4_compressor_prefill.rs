//! Laying out projected rows for a compressor: tokens in chunks of the compress
//! ratio, and each chunk as the values that are pooled into one row.
//!
//! A ratio of four pools over two chunks at once: the first half of the
//! projection of the chunk before, and the second half of the chunk itself. Any
//! other ratio pools over the chunk alone. Tokens behind the last whole chunk
//! are left out.
use vstd::prelude::*;
use crate::attention::dsv4_params::CompressorParams;
use crate::fbits::NEG_INFINITY;
use crate::tensor::{axis, cube_fits, Cube, Matrix};

verus! {

/// How many parts a projection has: two for a ratio of four, one otherwise.
pub open spec fn parts(compress_ratio: nat) -> nat {
    if compress_ratio == 4 {
        2
    } else {
        1
    }
}

/// The chunks: row `r` of chunk `c` is row `c * ratio + r`.
pub open spec fn chunked(rows: Seq<Seq<u32>>, ratio: nat) -> Seq<Seq<Seq<u32>>> {
    Seq::new(rows.len() / ratio, |c: int| Seq::new(ratio, |r: int| rows[c * ratio + r]))
}

/// The values that are pooled into dimension `d` of chunk `c`: with one part
/// the chunk's own rows; with two the first parts of the chunk before (`pad`
/// for the first chunk) and then the second parts of the chunk.
pub open spec fn pooled_values(
    chunks: Seq<Seq<Seq<u32>>>,
    ratio: nat,
    head_dim: nat,
    pad: u32,
    c: int,
    d: int,
) -> Seq<u32> {
    if parts(ratio) == 1 {
        Seq::new(ratio, |r: int| chunks[c][r][d])
    } else {
        Seq::new(
            2 * ratio,
            |r: int|
                if r < ratio {
                    if c == 0 {
                        pad
                    } else {
                        chunks[c - 1][r][d]
                    }
                } else {
                    chunks[c][r - ratio][head_dim + d]
                },
        )
    }
}

/// The values that are pooled, chunk by chunk and dimension by dimension.
pub open spec fn pool_input(
    chunks: Seq<Seq<Seq<u32>>>,
    ratio: nat,
    head_dim: nat,
    pad: u32,
) -> Seq<Seq<Seq<u32>>> {
    Seq::new(
        chunks.len(),
        |c: int| Seq::new(head_dim, |d: int| pooled_values(chunks, ratio, head_dim, pad, c, d)),
    )
}

/// Shapes of the weights that a compressor runs with, as `(rows, columns)`.
#[derive(Clone, Copy, Debug)]
pub struct CompressorShapes {
    pub x: (usize, usize),
    pub wkv: (usize, usize),
    pub wgate: (usize, usize),
    pub ape: (usize, usize),
    pub norm: usize,
}

/// The first thing that is wrong with a compressor's inputs.
#[derive(Clone, Copy, Debug, PartialEq, Eq, Structural)]
pub enum CompressorFault {
    ZeroRatio,
    InputWidth,
    TooFewTokens,
    WkvShape,
    WgateShape,
    ApeShape,
    NormLength,
}

/// What is wrong with a compressor's inputs, if anything is.
pub open spec fn compressor_fault(s: CompressorShapes, p: CompressorParams) -> Option<
    CompressorFault,
> {
    let n_kv = parts(p.compress_ratio as nat) * p.head_dim as nat;
    if p.compress_ratio == 0 {
        Some(CompressorFault::ZeroRatio)
    } else if s.x.1 != p.n_embd {
        Some(CompressorFault::InputWidth)
    } else if s.x.0 < p.compress_ratio {
        Some(CompressorFault::TooFewTokens)
    } else if s.wkv.0 != n_kv || s.wkv.1 != p.n_embd {
        Some(CompressorFault::WkvShape)
    } else if s.wgate.0 != n_kv || s.wgate.1 != p.n_embd {
        Some(CompressorFault::WgateShape)
    } else if s.ape.0 != p.compress_ratio || s.ape.1 != n_kv {
        Some(CompressorFault::ApeShape)
    } else if s.norm != p.head_dim {
        Some(CompressorFault::NormLength)
    } else {
        None
    }
}

/// How many rows a compressor yields, or what is wrong with its inputs.
pub fn check_compressor(s: &CompressorShapes, p: &CompressorParams) -> (r: Result<
    usize,
    CompressorFault,
>)
    ensures
        match compressor_fault(*s, *p) {
            Some(f) => r == Err::<usize, CompressorFault>(f),
            None => r == Ok::<usize, CompressorFault>(
                (s.x.0 as int / p.compress_ratio as int) as usize,
            ) && r->Ok_0 > 0,
        },
{
    if p.compress_ratio == 0 {
        return Err(CompressorFault::ZeroRatio);
    }
    if s.x.1 != p.n_embd {
        return Err(CompressorFault::InputWidth);
    }
    let n_comp: usize = s.x.0 / p.compress_ratio;
    proof {
        let a = s.x.0 as int;
        let b = p.compress_ratio as int;
        assert((a / b > 0) == (a >= b)) by (nonlinear_arith)
            requires
                a >= 0,
                b > 0,
        ;
    }
    if n_comp == 0 {
        return Err(CompressorFault::TooFewTokens);
    }
    let coff: usize = if p.compress_ratio == 4 {
        2
    } else {
        1
    };
    let n_kv: usize = match coff.checked_mul(p.head_dim) {
        Some(n) => n,
        None => return Err(CompressorFault::WkvShape),
    };
    if s.wkv.0 != n_kv || s.wkv.1 != p.n_embd {
        return Err(CompressorFault::WkvShape);
    }
    if s.wgate.0 != n_kv || s.wgate.1 != p.n_embd {
        return Err(CompressorFault::WgateShape);
    }
    if s.ape.0 != p.compress_ratio || s.ape.1 != n_kv {
        return Err(CompressorFault::ApeShape);
    }
    if s.norm != p.head_dim {
        return Err(CompressorFault::NormLength);
    }
    Ok(n_comp)
}

/// The token position that chunk `c` is rotated to.
pub fn chunk_position(c: usize, compress_ratio: usize) -> (p: usize)
    requires
        c * compress_ratio <= usize::MAX,
    ensures
        p == c * compress_ratio,
{
    c * compress_ratio
}

proof fn lemma_chunk_row(n: int, ratio: int, c: int, r: int)
    requires
        ratio > 0,
        0 <= c < n / ratio,
        0 <= r < ratio,
        n >= 0,
    ensures
        0 <= c * ratio + r < n,
{
    assert(0 <= c * ratio + r < n) by (nonlinear_arith)
        requires
            ratio > 0,
            0 <= c < n / ratio,
            0 <= r < ratio,
            n >= 0,
    ;
}

/// The rows in chunks of `ratio`.
pub fn chunk_rows(rows: &Matrix, ratio: usize) -> (chunks: Cube)
    requires
        ratio > 0,
        cube_fits((rows@.len() / ratio as nat), ratio as nat, rows.width()),
    ensures
        chunks.wf(),
        chunks@ == chunked(rows@, ratio as nat),
        chunks.height() == ratio,
        chunks.width() == rows.width(),
{
    let n: usize = rows.nrows();
    let w: usize = rows.ncols();
    let n_comp: usize = n / ratio;
    let mut chunks: Cube = Cube::zeros(n_comp, ratio, w);
    let mut c: usize = 0;
    while c < n_comp
        invariant
            c <= n_comp,
            ratio > 0,
            n == rows@.len(),
            n_comp == n / ratio,
            w == rows.width(),
            rows.wf(),
            chunks.wf(),
            chunks@.len() == n_comp,
            chunks.height() == ratio,
            chunks.width() == w,
            forall|i: int, r: int|
                0 <= i < c && 0 <= r < ratio ==> #[trigger] chunks@[i][r] == rows@[i * ratio + r],
        decreases n_comp - c,
    {
        let mut r: usize = 0;
        while r < ratio
            invariant
                c < n_comp,
                r <= ratio,
                ratio > 0,
                n == rows@.len(),
                n_comp == n / ratio,
                w == rows.width(),
                rows.wf(),
                chunks.wf(),
                chunks@.len() == n_comp,
                chunks.height() == ratio,
                chunks.width() == w,
                forall|i: int, s: int|
                    0 <= i < c && 0 <= s < ratio ==> #[trigger] chunks@[i][s] == rows@[i * ratio
                        + s],
                forall|s: int|
                    0 <= s < r ==> #[trigger] chunks@[c as int][s] == rows@[c * ratio + s],
            decreases ratio - r,
        {
            proof {
                lemma_chunk_row(n as int, ratio as int, c as int, r as int);
                assert(0 <= c * ratio) by (nonlinear_arith)
                    requires
                        c >= 0,
                        ratio >= 0,
                ;
            }
            let t: usize = c * ratio + r;
            let mut k: usize = 0;
            while k < w
                invariant
                    c < n_comp,
                    r < ratio,
                    k <= w,
                    t == c * ratio + r,
                    t < n,
                    n == rows@.len(),
                    w == rows.width(),
                    rows.wf(),
                    chunks.wf(),
                    chunks@.len() == n_comp,
                    chunks.height() == ratio,
                    chunks.width() == w,
                    forall|i: int, s: int|
                        0 <= i < c && 0 <= s < ratio ==> #[trigger] chunks@[i][s] == rows@[i * ratio
                            + s],
                    forall|s: int|
                        0 <= s < r ==> #[trigger] chunks@[c as int][s] == rows@[c * ratio + s],
                    forall|q: int|
                        0 <= q < k ==> #[trigger] chunks@[c as int][r as int][q]
                            == rows@[t as int][q],
                decreases w - k,
            {
                let v: u32 = rows.at(t, k);
                chunks.put(c, r, k, v);
                k += 1;
            }
            assert(chunks@[c as int][r as int].len() == w);
            assert(chunks@[c as int][r as int] =~= rows@[t as int]);
            r += 1;
        }
        c += 1;
    }
    let ghost want = chunked(rows@, ratio as nat);
    assert forall|i: int| 0 <= i < n_comp implies #[trigger] chunks@[i] == want[i] by {
        assert(chunks@[i].len() == ratio);
        assert(chunks@[i] =~= want[i]);
    }
    assert(chunks@ =~= want);
    chunks
}

/// The value at one place of the pooled layout.
fn pooled_value(
    chunks: &Cube,
    ratio: usize,
    head_dim: usize,
    pad: u32,
    c: usize,
    d: usize,
    r: usize,
) -> (v: u32)
    requires
        chunks.wf(),
        chunks.height() == ratio,
        chunks.width() == parts(ratio as nat) * head_dim as nat,
        c < chunks@.len(),
        d < head_dim,
        r < parts(ratio as nat) * ratio as nat,
        2 * ratio <= usize::MAX,
        2 * head_dim <= usize::MAX,
    ensures
        v == pooled_values(chunks@, ratio as nat, head_dim as nat, pad, c as int, d as int)[r as int],
{
    if ratio != 4 {
        chunks.at(c, r, d)
    } else if r < ratio {
        if c == 0 {
            pad
        } else {
            chunks.at(c - 1, r, d)
        }
    } else {
        chunks.at(c, r - ratio, head_dim + d)
    }
}

/// The values that are pooled into each dimension of each chunk.
pub fn pool_layout(chunks: &Cube, ratio: usize, head_dim: usize, pad: u32) -> (out: Cube)
    requires
        chunks.height() == ratio,
        chunks.width() == parts(ratio as nat) * head_dim as nat,
        2 * ratio <= usize::MAX,
        2 * head_dim <= usize::MAX,
        cube_fits(chunks@.len(), head_dim as nat, parts(ratio as nat) * ratio as nat),
    ensures
        out.wf(),
        out@ == pool_input(chunks@, ratio as nat, head_dim as nat, pad),
        out.height() == head_dim,
        out.width() == parts(ratio as nat) * ratio as nat,
{
    let n_comp: usize = chunks.dims().0;
    let coff: usize = if ratio == 4 {
        2
    } else {
        1
    };
    let w: usize = coff * ratio;
    let ghost want = pool_input(chunks@, ratio as nat, head_dim as nat, pad);
    let mut out: Cube = Cube::zeros(n_comp, head_dim, w);
    let mut c: usize = 0;
    while c < n_comp
        invariant
            c <= n_comp,
            n_comp == chunks@.len(),
            w == parts(ratio as nat) * ratio as nat,
            2 * ratio <= usize::MAX,
            2 * head_dim <= usize::MAX,
            chunks.wf(),
            chunks.height() == ratio,
            chunks.width() == parts(ratio as nat) * head_dim as nat,
            want == pool_input(chunks@, ratio as nat, head_dim as nat, pad),
            out.wf(),
            out@.len() == n_comp,
            out.height() == head_dim,
            out.width() == w,
            forall|i: int, d: int|
                0 <= i < c && 0 <= d < head_dim ==> #[trigger] out@[i][d] == want[i][d],
        decreases n_comp - c,
    {
        let mut d: usize = 0;
        while d < head_dim
            invariant
                c < n_comp,
                d <= head_dim,
                n_comp == chunks@.len(),
                w == parts(ratio as nat) * ratio as nat,
                2 * ratio <= usize::MAX,
                2 * head_dim <= usize::MAX,
                chunks.wf(),
                chunks.height() == ratio,
                chunks.width() == parts(ratio as nat) * head_dim as nat,
                want == pool_input(chunks@, ratio as nat, head_dim as nat, pad),
                out.wf(),
                out@.len() == n_comp,
                out.height() == head_dim,
                out.width() == w,
                forall|i: int, e: int|
                    0 <= i < c && 0 <= e < head_dim ==> #[trigger] out@[i][e] == want[i][e],
                forall|e: int| 0 <= e < d ==> #[trigger] out@[c as int][e] == want[c as int][e],
            decreases head_dim - d,
        {
            let mut r: usize = 0;
            while r < w
                invariant
                    c < n_comp,
                    d < head_dim,
                    r <= w,
                    n_comp == chunks@.len(),
                    w == parts(ratio as nat) * ratio as nat,
                    2 * ratio <= usize::MAX,
                    2 * head_dim <= usize::MAX,
                    chunks.wf(),
                    chunks.height() == ratio,
                    chunks.width() == parts(ratio as nat) * head_dim as nat,
                    want == pool_input(chunks@, ratio as nat, head_dim as nat, pad),
                    out.wf(),
                    out@.len() == n_comp,
                    out.height() == head_dim,
                    out.width() == w,
                    forall|i: int, e: int|
                        0 <= i < c && 0 <= e < head_dim ==> #[trigger] out@[i][e] == want[i][e],
                    forall|e: int|
                        0 <= e < d ==> #[trigger] out@[c as int][e] == want[c as int][e],
                    forall|q: int|
                        0 <= q < r ==> #[trigger] out@[c as int][d as int][q]
                            == want[c as int][d as int][q],
                decreases w - r,
            {
                let v: u32 = pooled_value(chunks, ratio, head_dim, pad, c, d, r);
                out.put(c, d, r, v);
                r += 1;
            }
            assert(out@[c as int][d as int].len() == w);
            assert(want[c as int][d as int].len() == w);
            assert(out@[c as int][d as int] =~= want[c as int][d as int]);
            d += 1;
        }
        c += 1;
    }
    assert forall|i: int| 0 <= i < n_comp implies #[trigger] out@[i] == want[i] by {
        assert(out@[i].len() == head_dim);
        assert(out@[i] =~= want[i]);
    }
    assert(out@ =~= want);
    out
}

/// Tokens behind the last whole chunk make no difference.
pub proof fn law_remainder_is_left_out(rows: Seq<Seq<u32>>, extra: Seq<Seq<u32>>, ratio: nat)
    requires
        ratio > 0,
        rows.len() % ratio == 0,
        extra.len() < ratio,
    ensures
        chunked(rows + extra, ratio) == chunked(rows, ratio),
{
    let n = rows.len() as int;
    let m = extra.len() as int;
    let q = ratio as int;
    assert((n + m) / q == n / q) by (nonlinear_arith)
        requires
            q > 0,
            n >= 0,
            n % q == 0,
            0 <= m < q,
    ;
    assert forall|c: int| 0 <= c < n / q implies chunked(rows + extra, ratio)[c] == chunked(
        rows,
        ratio,
    )[c] by {
        assert forall|r: int| 0 <= r < q implies #[trigger] chunked(rows + extra, ratio)[c][r]
            == chunked(rows, ratio)[c][r] by {
            lemma_chunk_row(n, q, c, r);
        }
        assert(chunked(rows + extra, ratio)[c] =~= chunked(rows, ratio)[c]);
    }
    assert(chunked(rows + extra, ratio) =~= chunked(rows, ratio));
}

/// No row of a chunk depends on a later chunk: pooling chunk `c` looks at chunks
/// `c` and `c - 1` only.
pub proof fn law_pooling_looks_back_only(
    a: Seq<Seq<Seq<u32>>>,
    b: Seq<Seq<Seq<u32>>>,
    ratio: nat,
    head_dim: nat,
    pad: u32,
    c: int,
)
    requires
        0 <= c < a.len(),
        c < b.len(),
        a.take(c + 1) == b.take(c + 1),
    ensures
        pool_input(a, ratio, head_dim, pad)[c] == pool_input(b, ratio, head_dim, pad)[c],
{
    assert(a[c] == a.take(c + 1)[c] && b[c] == b.take(c + 1)[c]);
    if c > 0 {
        assert(a[c - 1] == a.take(c + 1)[c - 1] && b[c - 1] == b.take(c + 1)[c - 1]);
    }
    assert forall|d: int| 0 <= d < head_dim implies pooled_values(a, ratio, head_dim, pad, c, d)
        == pooled_values(b, ratio, head_dim, pad, c, d) by {
        assert(pooled_values(a, ratio, head_dim, pad, c, d) =~= pooled_values(
            b,
            ratio,
            head_dim,
            pad,
            c,
            d,
        ));
    }
    assert(pool_input(a, ratio, head_dim, pad)[c] =~= pool_input(b, ratio, head_dim, pad)[c]);
}

// ---- the whole compressor ---------------------------------------------------

/// What is done to a whole table of rows.
#[derive(Clone, Copy, Debug, PartialEq, Eq, Structural)]
pub enum TableKernel {
    /// The projection to what is pooled.
    ProjectKv,
    /// The projection to the scores.
    ProjectGate,
    /// Root-mean-square norm of every row.
    Norm,
    /// Rotates row `c` by the position `c` times a ratio.
    Rotate { ratio: usize },
}

/// The values of a run of a compressor between its input and its output.
pub struct CompressorRun {
    pub kv: Matrix,
    pub gate: Matrix,
    pub gate_chunks: Cube,
    pub scores: Cube,
    pub pooled: Cube,
    pub weights: Cube,
    pub mean: Matrix,
    pub normed: Matrix,
}

/// The run of a compressor on `x` that gave `y`: both projections are chunked, the
/// scores are biased, every dimension of every chunk is averaged with the softmax
/// of its scores as weights, and the rows are normed and rotated to their chunks'
/// positions. Before the first chunk stand zeros with a weight of nothing.
pub open spec fn run_follows<
    T: Fn(TableKernel, &Matrix) -> Matrix,
    B: Fn(&Cube) -> Cube,
    S: Fn(&Cube, &Cube) -> Matrix,
>(
    tables: T,
    bias: B,
    softmax_pool: S,
    p: CompressorParams,
    x: Matrix,
    r: CompressorRun,
    y: Matrix,
) -> bool {
    let ratio = p.compress_ratio as nat;
    let head_dim = p.head_dim as nat;
    &&& call_ensures(tables, (TableKernel::ProjectKv, &x), r.kv)
    &&& call_ensures(tables, (TableKernel::ProjectGate, &x), r.gate)
    &&& r.gate_chunks@ == chunked(r.gate@, ratio)
    &&& call_ensures(bias, (&r.gate_chunks,), r.scores)
    &&& r.pooled@ == pool_input(chunked(r.kv@, ratio), ratio, head_dim, 0)
    &&& r.weights@ == pool_input(r.scores@, ratio, head_dim, NEG_INFINITY)
    &&& call_ensures(softmax_pool, (&r.pooled, &r.weights), r.mean)
    &&& call_ensures(tables, (TableKernel::Norm, &r.mean), r.normed)
    &&& call_ensures(tables, (TableKernel::Rotate { ratio: p.compress_ratio }, &r.normed), y)
}

/// A compressor ran on `x` and gave `y`.
pub open spec fn compressor_ran<
    T: Fn(TableKernel, &Matrix) -> Matrix,
    B: Fn(&Cube) -> Cube,
    S: Fn(&Cube, &Cube) -> Matrix,
>(
    tables: T,
    bias: B,
    softmax_pool: S,
    p: CompressorParams,
    x: Matrix,
    y: Matrix,
) -> bool {
    exists|r: CompressorRun| #[trigger] run_follows(tables, bias, softmax_pool, p, x, r, y)
}

/// The kernels give tables and chunks of the shapes that the geometry asks for: the
/// projections by their matrices, the bias what it gets, the average a row for
/// every chunk, a norm and a rotation what they get.
pub open spec fn compressor_shapes_kept<
    T: Fn(TableKernel, &Matrix) -> Matrix,
    B: Fn(&Cube) -> Cube,
    S: Fn(&Cube, &Cube) -> Matrix,
>(tables: T, bias: B, softmax_pool: S, p: CompressorParams) -> bool {
    &&& forall|k: TableKernel, m: &Matrix, out: Matrix| #[trigger]
        call_ensures(tables, (k, m), out) && m.wf() ==> out.wf() && out@.len() == m@.len()
            && out.width() == (if k is ProjectKv || k is ProjectGate {
            parts(p.compress_ratio as nat) * p.head_dim as nat
        } else {
            m.width()
        })
    &&& forall|c: &Cube, out: Cube| #[trigger]
        call_ensures(bias, (c,), out) && c.wf() ==> out.wf() && out@.len() == c@.len()
            && out.height() == c.height() && out.width() == c.width()
    &&& forall|v: &Cube, w: &Cube, out: Matrix| #[trigger]
        call_ensures(softmax_pool, (v, w), out) && v.wf() ==> out.wf() && out@.len() == v@.len()
            && out.width() == v.height()
}

/// The chunks of a compressor, and what is pooled of them, can be had as arrays.
pub open spec fn compressor_fits(n: nat, p: CompressorParams) -> bool {
    let ratio = p.compress_ratio as nat;
    let n_comp = n / ratio;
    &&& cube_fits(n_comp, ratio, parts(ratio) * p.head_dim as nat)
    &&& cube_fits(n_comp, p.head_dim as nat, parts(ratio) * ratio)
}

proof fn lemma_layout_axes(n_comp: nat, head_dim: nat, ratio: nat)
    requires
        n_comp > 0,
        ratio > 0,
        cube_fits(n_comp, head_dim, parts(ratio) * ratio),
    ensures
        2 * ratio <= usize::MAX,
        2 * head_dim <= usize::MAX,
{
    let h = axis(head_dim);
    let w = parts(ratio) * ratio;
    assert(w <= n_comp * h * w && h <= n_comp * h * w) by (nonlinear_arith)
        requires
            n_comp >= 1,
            h >= 1,
            w >= 1,
    ;
}

/// A compressor over rows of tokens: one row for every whole chunk, or what is
/// wrong with its inputs. The floating-point kernels are the caller's.
pub fn build_compressor_prefill<
    T: Fn(TableKernel, &Matrix) -> Matrix,
    B: Fn(&Cube) -> Cube,
    S: Fn(&Cube, &Cube) -> Matrix,
>(
    x: &Matrix,
    s: &CompressorShapes,
    p: &CompressorParams,
    tables: &T,
    bias: &B,
    softmax_pool: &S,
) -> (r: Result<Matrix, CompressorFault>)
    requires
        x.wf(),
        s.x == (x@.len() as usize, x.width() as usize),
        compressor_fault(*s, *p) is None ==> compressor_fits(x@.len(), *p),
        forall|k: TableKernel, m: &Matrix| call_requires(*tables, (k, m)),
        forall|c: &Cube| call_requires(*bias, (c,)),
        forall|v: &Cube, w: &Cube| call_requires(*softmax_pool, (v, w)),
        compressor_shapes_kept(*tables, *bias, *softmax_pool, *p),
    ensures
        match compressor_fault(*s, *p) {
            Some(f) => r matches Err(e) && e == f,
            None => r matches Ok(y) && compressor_ran(*tables, *bias, *softmax_pool, *p, *x, y)
                && y@.len() == x@.len() / p.compress_ratio as nat && y.width() == p.head_dim,
        },
{
    let n_comp: usize = match check_compressor(s, p) {
        Ok(n) => n,
        Err(e) => return Err(e),
    };
    let ratio: usize = p.compress_ratio;
    proof {
        lemma_layout_axes(n_comp as nat, p.head_dim as nat, ratio as nat);
    }
    let n: usize = x.nrows();
    let kv: Matrix = tables(TableKernel::ProjectKv, x);
    let gate: Matrix = tables(TableKernel::ProjectGate, x);
    let kv_chunks: Cube = chunk_rows(&kv, ratio);
    let gate_chunks: Cube = chunk_rows(&gate, ratio);
    let scores: Cube = bias(&gate_chunks);
    let pooled: Cube = pool_layout(&kv_chunks, ratio, p.head_dim, 0);
    let weights: Cube = pool_layout(&scores, ratio, p.head_dim, NEG_INFINITY);
    let mean: Matrix = softmax_pool(&pooled, &weights);
    let normed: Matrix = tables(TableKernel::Norm, &mean);
    let y: Matrix = tables(TableKernel::Rotate { ratio }, &normed);
    proof {
        let run = CompressorRun { kv, gate, gate_chunks, scores, pooled, weights, mean, normed };
        assert(run_follows(*tables, *bias, *softmax_pool, *p, *x, run, y));
    }
    Ok(y)
}

/// What a compressor's floating-point kernels do to one row, or to the values
/// that are pooled into one: the two projections, the bias of a chunk's row by its
/// number, the weighted average, the norm, and the rotation to a position.
pub struct RowKernels {
    pub kv: spec_fn(Seq<u32>) -> Seq<u32>,
    pub gate: spec_fn(Seq<u32>) -> Seq<u32>,
    pub ape: spec_fn(int, Seq<u32>) -> Seq<u32>,
    pub pool: spec_fn(Seq<u32>, Seq<u32>) -> u32,
    pub norm: spec_fn(Seq<u32>) -> Seq<u32>,
    pub rotate: spec_fn(int, Seq<u32>) -> Seq<u32>,
}

/// Chunks with the bias added to their rows.
pub open spec fn biased(k: RowKernels, chunks: Seq<Seq<Seq<u32>>>) -> Seq<Seq<Seq<u32>>> {
    chunks.map_values(|chunk: Seq<Seq<u32>>| chunk.map(|r: int, row: Seq<u32>| (k.ape)(r, row)))
}

/// Every dimension of every chunk averaged.
pub open spec fn averaged(
    k: RowKernels,
    values: Seq<Seq<Seq<u32>>>,
    scores: Seq<Seq<Seq<u32>>>,
) -> Seq<Seq<u32>> {
    Seq::new(
        values.len(),
        |c: int| Seq::new(values[c].len(), |d: int| (k.pool)(values[c][d], scores[c][d])),
    )
}

/// The kernels work row by row: they do to every row, to every row of every chunk
/// and to every dimension of every chunk what `k` says.
pub open spec fn row_by_row<
    T: Fn(TableKernel, &Matrix) -> Matrix,
    B: Fn(&Cube) -> Cube,
    S: Fn(&Cube, &Cube) -> Matrix,
>(tables: T, bias: B, softmax_pool: S, k: RowKernels) -> bool {
    &&& forall|kernel: TableKernel, m: &Matrix, out: Matrix| #[trigger]
        call_ensures(tables, (kernel, m), out) ==> out@ == table_of(k, kernel, m@)
    &&& forall|c: &Cube, out: Cube| #[trigger]
        call_ensures(bias, (c,), out) ==> out@ == biased(k, c@)
    &&& forall|v: &Cube, w: &Cube, out: Matrix| #[trigger]
        call_ensures(softmax_pool, (v, w), out) ==> out@ == averaged(k, v@, w@)
}

/// What a table's kernel makes of its rows.
pub open spec fn table_of(k: RowKernels, kernel: TableKernel, rows: Seq<Seq<u32>>) -> Seq<Seq<u32>> {
    match kernel {
        TableKernel::ProjectKv => rows.map_values(k.kv),
        TableKernel::ProjectGate => rows.map_values(k.gate),
        TableKernel::Norm => rows.map_values(k.norm),
        TableKernel::Rotate { ratio } => rows.map(
            |c: int, row: Seq<u32>| (k.rotate)(c * ratio, row),
        ),
    }
}

/// The rows that a compressor makes of its input, where its kernels work row by
/// row.
pub open spec fn compressed(k: RowKernels, x: Seq<Seq<u32>>, ratio: usize, head_dim: nat) -> Seq<
    Seq<u32>,
> {
    Seq::new(x.len() / ratio as nat, |c: int| compressed_row(k, x, ratio, head_dim, c))
}

/// One row of what a compressor makes of its input, by the formula.
pub open spec fn compressed_row(
    k: RowKernels,
    x: Seq<Seq<u32>>,
    ratio: usize,
    head_dim: nat,
    c: int,
) -> Seq<u32> {
    let values = pool_input(chunked(x.map_values(k.kv), ratio as nat), ratio as nat, head_dim, 0);
    let scores = pool_input(
        biased(k, chunked(x.map_values(k.gate), ratio as nat)),
        ratio as nat,
        head_dim,
        NEG_INFINITY,
    );
    (k.rotate)(
        c * ratio,
        (k.norm)(Seq::new(head_dim, |d: int| (k.pool)(values[c][d], scores[c][d]))),
    )
}

/// With kernels that work row by row a compressor computes its formula: row `c` is
/// the average of what is pooled into chunk `c`, normed and rotated.
pub proof fn law_run_computes_the_rows<
    T: Fn(TableKernel, &Matrix) -> Matrix,
    B: Fn(&Cube) -> Cube,
    S: Fn(&Cube, &Cube) -> Matrix,
>(
    tables: T,
    bias: B,
    softmax_pool: S,
    p: CompressorParams,
    k: RowKernels,
    x: Matrix,
    y: Matrix,
)
    requires
        p.compress_ratio > 0,
        compressor_ran(tables, bias, softmax_pool, p, x, y),
        row_by_row(tables, bias, softmax_pool, k),
    ensures
        y@ == compressed(k, x@, p.compress_ratio, p.head_dim as nat),
{
    let r = choose|r: CompressorRun| #[trigger]
        run_follows(tables, bias, softmax_pool, p, x, r, y);
    let ratio = p.compress_ratio as nat;
    let head_dim = p.head_dim as nat;
    let want = compressed(k, x@, p.compress_ratio, head_dim);
    assert(r.mean@ == averaged(k, r.pooled@, r.weights@));
    assert forall|c: int| 0 <= c < x@.len() / ratio implies #[trigger] y@[c] == want[c] by {
        assert(r.mean@[c] =~= Seq::new(
            head_dim,
            |d: int| (k.pool)(r.pooled@[c][d], r.weights@[c][d]),
        ));
    }
    assert(y@ =~= want);
}

/// A compressor yields one row for every whole chunk, and the rows behind the last
/// whole chunk have no influence on them.
pub proof fn law_remainder_has_no_influence(
    k: RowKernels,
    x: Seq<Seq<u32>>,
    ratio: usize,
    head_dim: nat,
)
    requires
        ratio > 0,
    ensures
        compressed(k, x, ratio, head_dim).len() == x.len() / ratio as nat,
        compressed(k, x, ratio, head_dim) == compressed(
            k,
            x.take((x.len() / ratio as nat) * ratio),
            ratio,
            head_dim,
        ),
{
    let n = x.len() as int;
    let q = ratio as int;
    let whole = (n / q) * q;
    assert(0 <= whole <= n && whole / q == n / q && whole % q == 0 && n - whole < q) by (
        nonlinear_arith)
        requires
            q > 0,
            n >= 0,
            whole == (n / q) * q,
    ;
    let y = x.take(whole);
    let extra = x.skip(whole);
    assert(x.map_values(k.kv) =~= y.map_values(k.kv) + extra.map_values(k.kv));
    assert(x.map_values(k.gate) =~= y.map_values(k.gate) + extra.map_values(k.gate));
    law_remainder_is_left_out(y.map_values(k.kv), extra.map_values(k.kv), ratio as nat);
    law_remainder_is_left_out(y.map_values(k.gate), extra.map_values(k.gate), ratio as nat);
    assert forall|c: int| 0 <= c < n / q implies #[trigger] compressed(k, x, ratio, head_dim)[c]
        == compressed(k, y, ratio, head_dim)[c] by {
    }
    assert(compressed(k, x, ratio, head_dim) =~= compressed(k, y, ratio, head_dim));
}

proof fn lemma_chunks_look_back(
    a: Seq<Seq<u32>>,
    b: Seq<Seq<u32>>,
    f: spec_fn(Seq<u32>) -> Seq<u32>,
    ratio: nat,
    c: int,
)
    requires
        ratio > 0,
        0 <= c < a.len() / ratio,
        c < b.len() / ratio,
        a.take((c + 1) * ratio) == b.take((c + 1) * ratio),
    ensures
        chunked(a.map_values(f), ratio).take(c + 1) == chunked(b.map_values(f), ratio).take(c + 1),
{
    let ca = chunked(a.map_values(f), ratio);
    let cb = chunked(b.map_values(f), ratio);
    assert forall|i: int| 0 <= i <= c implies #[trigger] ca[i] == cb[i] by {
        assert forall|r: int| 0 <= r < ratio implies #[trigger] ca[i][r] == cb[i][r] by {
            let j = i * ratio + r;
            lemma_chunk_row(a.len() as int, ratio as int, i, r);
            lemma_chunk_row(b.len() as int, ratio as int, i, r);
            assert(0 <= j < (c + 1) * ratio) by (nonlinear_arith)
                requires
                    j == i * ratio + r,
                    0 <= i < c + 1,
                    0 <= r < ratio,
            ;
            assert((c + 1) * ratio <= a.len() && (c + 1) * ratio <= b.len()) by (nonlinear_arith)
                requires
                    ratio > 0,
                    c + 1 <= a.len() / ratio,
                    c + 1 <= b.len() / ratio,
            ;
            assert(a.take((c + 1) * ratio)[j] == b.take((c + 1) * ratio)[j]);
        }
        assert(ca[i] =~= cb[i]);
    }
    assert(ca.take(c + 1) =~= cb.take(c + 1));
}

/// Row `c` of what a compressor yields depends only on the input rows below
/// `(c + 1) * ratio`: inputs that agree up to there give the same row.
pub proof fn law_compressed_row_looks_back_only(
    k: RowKernels,
    a: Seq<Seq<u32>>,
    b: Seq<Seq<u32>>,
    ratio: usize,
    head_dim: nat,
    c: int,
)
    requires
        ratio > 0,
        0 <= c < a.len() / ratio as nat,
        c < b.len() / ratio as nat,
        a.take((c + 1) * ratio) == b.take((c + 1) * ratio),
    ensures
        compressed(k, a, ratio, head_dim)[c] == compressed(k, b, ratio, head_dim)[c],
{
    let q = ratio as nat;
    let va = chunked(a.map_values(k.kv), q);
    let vb = chunked(b.map_values(k.kv), q);
    let sa = biased(k, chunked(a.map_values(k.gate), q));
    let sb = biased(k, chunked(b.map_values(k.gate), q));
    lemma_chunks_look_back(a, b, k.kv, q, c);
    lemma_chunks_look_back(a, b, k.gate, q, c);
    assert forall|i: int| 0 <= i <= c implies #[trigger] sa[i] == sb[i] by {
        let ga = chunked(a.map_values(k.gate), q);
        let gb = chunked(b.map_values(k.gate), q);
        assert(ga.take(c + 1)[i] == ga[i] && gb.take(c + 1)[i] == gb[i]);
    }
    assert(sa.take(c + 1) =~= sb.take(c + 1));
    law_pooling_looks_back_only(va, vb, q, head_dim, 0, c);
    law_pooling_looks_back_only(sa, sb, q, head_dim, NEG_INFINITY, c);
    let x = compressed(k, a, ratio, head_dim)[c];
    let y = compressed(k, b, ratio, head_dim)[c];
    assert(Seq::new(
        head_dim,
        |d: int|
            (k.pool)(
                pool_input(va, q, head_dim, 0)[c][d],
                pool_input(sa, q, head_dim, NEG_INFINITY)[c][d],
            ),
    ) =~= Seq::new(
        head_dim,
        |d: int|
            (k.pool)(
                pool_input(vb, q, head_dim, 0)[c][d],
                pool_input(sb, q, head_dim, NEG_INFINITY)[c][d],
            ),
    ));
}

/// Where the words that are pooled stand in the input: with a ratio of four the
/// first four words that go into dimension `d` of chunk `c` are words `d` of the
/// four tokens before the chunk (`pad` before the first chunk), the last four are
/// words `head_dim + d` of the chunk's own tokens.
pub proof fn law_four_tokens_look_back_four(
    rows: Seq<Seq<u32>>,
    head_dim: nat,
    pad: u32,
    c: int,
    d: int,
    r: int,
)
    requires
        0 <= c < rows.len() / 4,
        0 <= d < head_dim,
        0 <= r < 4,
    ensures
        pool_input(chunked(rows, 4), 4, head_dim, pad).len() == rows.len() / 4,
        pool_input(chunked(rows, 4), 4, head_dim, pad)[c].len() == head_dim,
        pool_input(chunked(rows, 4), 4, head_dim, pad)[c][d].len() == 8,
        c == 0 ==> pool_input(chunked(rows, 4), 4, head_dim, pad)[c][d][r] == pad,
        c > 0 ==> pool_input(chunked(rows, 4), 4, head_dim, pad)[c][d][r] == rows[(c - 1) * 4
            + r][d],
        pool_input(chunked(rows, 4), 4, head_dim, pad)[c][d][4 + r] == rows[c * 4 + r][head_dim
            + d],
{
    let chunks = chunked(rows, 4);
    assert(chunks[c][r] == rows[c * 4 + r]);
    if c > 0 {
        assert(chunks[c - 1][r] == rows[(c - 1) * 4 + r]);
    }
}

/// With any other ratio the words that go into dimension `d` of chunk `c` are words
/// `d` of the chunk's own tokens.
pub proof fn law_other_ratios_pool_their_own_tokens(
    rows: Seq<Seq<u32>>,
    ratio: nat,
    head_dim: nat,
    pad: u32,
    c: int,
    d: int,
    r: int,
)
    requires
        ratio > 0,
        ratio != 4,
        0 <= c < rows.len() / ratio,
        0 <= d < head_dim,
        0 <= r < ratio,
    ensures
        pool_input(chunked(rows, ratio), ratio, head_dim, pad).len() == rows.len() / ratio,
        pool_input(chunked(rows, ratio), ratio, head_dim, pad)[c].len() == head_dim,
        pool_input(chunked(rows, ratio), ratio, head_dim, pad)[c][d].len() == ratio,
        pool_input(chunked(rows, ratio), ratio, head_dim, pad)[c][d][r] == rows[c * ratio + r][d],
{
    assert(chunked(rows, ratio)[c][r] == rows[c * ratio + r]);
}

/// What a compressor did to its tokens. Both projections are of the input; the
/// scores are the bias of the second one's chunks; what is averaged into dimension
/// `d` of chunk `c` are words of the projected tokens, weighted by the scores at the
/// same places; before the first chunk stand zeros, with negative infinity for a
/// score; and the averages are normed and rotated by the ratio.
pub proof fn law_compressor_pools_its_tokens<
    T: Fn(TableKernel, &Matrix) -> Matrix,
    B: Fn(&Cube) -> Cube,
    S: Fn(&Cube, &Cube) -> Matrix,
>(tables: T, bias: B, softmax_pool: S, p: CompressorParams, x: Matrix, y: Matrix)
    requires
        p.compress_ratio > 0,
        compressor_ran(tables, bias, softmax_pool, p, x, y),
    ensures
        exists|run: CompressorRun|
            {
                let q = p.compress_ratio as int;
                let n = run.kv@.len() as int / q;
                &&& #[trigger] run_follows(tables, bias, softmax_pool, p, x, run, y)
                &&& call_ensures(tables, (TableKernel::ProjectKv, &x), run.kv)
                &&& call_ensures(tables, (TableKernel::ProjectGate, &x), run.gate)
                &&& run.gate_chunks@.len() == run.gate@.len() as int / q
                &&& forall|c: int, r: int|
                    0 <= c < run.gate_chunks@.len() && 0 <= r < q
                        ==> #[trigger] run.gate_chunks@[c][r] == run.gate@[c * q + r]
                &&& call_ensures(bias, (&run.gate_chunks,), run.scores)
                &&& run.pooled@.len() == n
                &&& run.weights@.len() == run.scores@.len()
                &&& q == 4 ==> forall|c: int, d: int, r: int|
                    0 <= c < n && 0 <= d < p.head_dim && 0 <= r < 8 ==> (
                    #[trigger] run.pooled@[c][d][r]) == if r >= 4 {
                        run.kv@[c * 4 + r - 4][p.head_dim + d]
                    } else if c > 0 {
                        run.kv@[c * 4 + r - 4][d]
                    } else {
                        0
                    }
                &&& q == 4 ==> forall|c: int, d: int, r: int|
                    0 <= c < run.scores@.len() && 0 <= d < p.head_dim && 0 <= r < 8 ==> (
                    #[trigger] run.weights@[c][d][r]) == if r >= 4 {
                        run.scores@[c][r - 4][p.head_dim + d]
                    } else if c > 0 {
                        run.scores@[c - 1][r][d]
                    } else {
                        0xFF80_0000
                    }
                &&& q != 4 ==> forall|c: int, d: int, r: int|
                    0 <= c < n && 0 <= d < p.head_dim && 0 <= r < q ==> (
                    #[trigger] run.pooled@[c][d][r]) == run.kv@[c * q + r][d]
                &&& q != 4 ==> forall|c: int, d: int, r: int|
                    0 <= c < run.scores@.len() && 0 <= d < p.head_dim && 0 <= r < q ==> (
                    #[trigger] run.weights@[c][d][r]) == run.scores@[c][r][d]
                &&& call_ensures(softmax_pool, (&run.pooled, &run.weights), run.mean)
                &&& call_ensures(tables, (TableKernel::Norm, &run.mean), run.normed)
                &&& call_ensures(
                    tables,
                    (TableKernel::Rotate { ratio: p.compress_ratio }, &run.normed),
                    y,
                )
            },
{
    let run = choose|run: CompressorRun| #[trigger]
        run_follows(tables, bias, softmax_pool, p, x, run, y);
    let q = p.compress_ratio as int;
    let n = run.kv@.len() as int / q;
    if q == 4 {
        assert forall|c: int, d: int, r: int|
            0 <= c < n && 0 <= d < p.head_dim && 0 <= r < 8 implies (
        #[trigger] run.pooled@[c][d][r]) == if r >= 4 {
            run.kv@[c * 4 + r - 4][p.head_dim + d]
        } else if c > 0 {
            run.kv@[c * 4 + r - 4][d]
        } else {
            0
        } by {
            law_four_tokens_look_back_four(
                run.kv@,
                p.head_dim as nat,
                0,
                c,
                d,
                if r >= 4 {
                    r - 4
                } else {
                    r
                },
            );
        }
    } else {
        assert forall|c: int, d: int, r: int|
            0 <= c < n && 0 <= d < p.head_dim && 0 <= r < q implies (
        #[trigger] run.pooled@[c][d][r]) == run.kv@[c * q + r][d] by {
            law_other_ratios_pool_their_own_tokens(
                run.kv@,
                q as nat,
                p.head_dim as nat,
                0,
                c,
                d,
                r,
            );
        }
    }
}

/// When a compressor's inputs pass: its ratio is not zero, there is at least one whole
/// chunk of tokens, and every weight fits the geometry, where a ratio of four projects
/// to twice the heads' size and any other to the heads' size. It then yields one row
/// for every whole chunk.
pub proof fn law_compressor_inputs_pass(s: CompressorShapes, p: CompressorParams)
    ensures
        ({
            let width = if p.compress_ratio == 4 {
                2 * p.head_dim
            } else {
                p.head_dim as int
            };
            compressor_fault(s, p) is None <==> {
                &&& p.compress_ratio > 0 && s.x.0 >= p.compress_ratio && s.x.1 == p.n_embd
                &&& s.wkv.0 == width && s.wkv.1 == p.n_embd
                &&& s.wgate.0 == width && s.wgate.1 == p.n_embd
                &&& s.ape.0 == p.compress_ratio && s.ape.1 == width
                &&& s.norm == p.head_dim
            }
        }),
        p.compress_ratio == 0 ==> compressor_fault(s, p) == Some(CompressorFault::ZeroRatio),
        p.compress_ratio > 0 && s.x.1 != p.n_embd ==> compressor_fault(s, p) == Some(
            CompressorFault::InputWidth,
        ),
        p.compress_ratio > 0 && s.x.1 == p.n_embd && s.x.0 < p.compress_ratio ==> compressor_fault(
            s,
            p,
        ) == Some(CompressorFault::TooFewTokens),
        compressor_fault(s, p) == Some(CompressorFault::WkvShape) ==> s.x.0 >= p.compress_ratio,
        compressor_fault(s, p) == Some(CompressorFault::WgateShape) ==> s.wkv.1 == p.n_embd,
        compressor_fault(s, p) == Some(CompressorFault::ApeShape) ==> s.wgate.1 == p.n_embd
            && s.wgate.0 == s.wkv.0,
        compressor_fault(s, p) == Some(CompressorFault::NormLength) ==> s.ape.0 == p.compress_ratio
            && s.ape.1 == s.wkv.0 && s.norm != p.head_dim,
{
    let n = parts(p.compress_ratio as nat) as int;
    let h = p.head_dim as int;
    assert(n == 1 ==> n * h == h) by (nonlinear_arith);
    assert(n == 2 ==> n * h == 2 * h) by (nonlinear_arith);
    assert(parts(p.compress_ratio as nat) * p.head_dim as nat == n * h);
}

} // verus!
