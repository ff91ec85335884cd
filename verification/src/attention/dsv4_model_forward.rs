//! A pass of some tokens through a model of residual streams: token rows out of the
//! embedding table, copies for each stream, the layers, the streams pooled into one,
//! and the scores. The floating-point kernels are the caller's.
use vstd::prelude::*;
use crate::tensor::{cube_fits, matrix_fits, Cube, Matrix};

verus! {

/// The rows of the table that the tokens name.
pub open spec fn token_rows(table: Seq<Seq<u32>>, token_ids: Seq<u32>) -> Seq<Seq<u32>> {
    Seq::new(token_ids.len(), |t: int| table[token_ids[t] as int])
}

/// `n` copies of each row.
pub open spec fn copies(x: Seq<Seq<u32>>, n: nat) -> Seq<Seq<Seq<u32>>> {
    Seq::new(x.len(), |t: int| Seq::new(n, |h: int| x[t]))
}

/// The rows of a plane one behind the other.
pub open spec fn side_by_side(rows: Seq<Seq<u32>>, width: nat) -> Seq<u32> {
    Seq::new(rows.len() * width, |k: int| rows[k / width as int][k % width as int])
}

/// Every token is in the table.
pub open spec fn tokens_known(token_ids: Seq<u32>, n_vocab: nat) -> bool {
    forall|t: int| 0 <= t < token_ids.len() ==> (#[trigger] token_ids[t]) < n_vocab
}

/// The embedding of each token.
pub fn embed_tokens(token_ids: &[u32], token_embd: &Matrix) -> (x: Matrix)
    requires
        tokens_known(token_ids@, token_embd@.len()),
        matrix_fits(token_ids@.len(), token_embd.width()),
    ensures
        x.wf(),
        x@ == token_rows(token_embd@, token_ids@),
        x.width() == token_embd.width(),
{
    let n: usize = token_ids.len();
    let d: usize = token_embd.ncols();
    let mut x: Matrix = Matrix::zeros(n, d);
    let mut t: usize = 0;
    while t < n
        invariant
            t <= n,
            n == token_ids@.len(),
            tokens_known(token_ids@, token_embd@.len()),
            token_embd.wf(),
            x.wf(),
            x@.len() == n,
            x.width() == token_embd.width(),
            forall|i: int| 0 <= i < t ==> x@[i] == token_embd@[token_ids@[i] as int],
        decreases n - t,
    {
        let tid: usize = token_ids[t] as usize;
        assert(token_ids@[t as int] < token_embd@.len());
        let row: Vec<u32> = token_embd.row(tid);
        x.put_row(t, row.as_slice());
        t += 1;
    }
    assert(x@ =~= token_rows(token_embd@, token_ids@));
    x
}

/// The first residual: every stream starts with the token's embedding.
pub fn broadcast_to_streams(x: &Matrix, n_hc: usize) -> (out: Cube)
    requires
        cube_fits(x@.len(), n_hc as nat, x.width()),
    ensures
        out.wf(),
        out@ == copies(x@, n_hc as nat),
        out.height() == n_hc,
        out.width() == x.width(),
{
    let n: usize = x.nrows();
    let d: usize = x.ncols();
    let mut out: Cube = Cube::zeros(n, n_hc, d);
    let mut t: usize = 0;
    while t < n
        invariant
            t <= n,
            n == x@.len(),
            d == x.width(),
            x.wf(),
            out.wf(),
            out@.len() == n,
            out.height() == n_hc,
            out.width() == d,
            forall|i: int, h: int| 0 <= i < t && 0 <= h < n_hc ==> #[trigger] out@[i][h] == x@[i],
        decreases n - t,
    {
        let mut h: usize = 0;
        while h < n_hc
            invariant
                t < n,
                h <= n_hc,
                n == x@.len(),
                d == x.width(),
                x.wf(),
                out.wf(),
                out@.len() == n,
                out.height() == n_hc,
                out.width() == d,
                forall|i: int, g: int|
                    0 <= i < t && 0 <= g < n_hc ==> #[trigger] out@[i][g] == x@[i],
                forall|g: int| 0 <= g < h ==> #[trigger] out@[t as int][g] == x@[t as int],
            decreases n_hc - h,
        {
            let mut c: usize = 0;
            while c < d
                invariant
                    t < n,
                    h < n_hc,
                    c <= d,
                    n == x@.len(),
                    d == x.width(),
                    x.wf(),
                    out.wf(),
                    out@.len() == n,
                    out.height() == n_hc,
                    out.width() == d,
                    forall|i: int, g: int|
                        0 <= i < t && 0 <= g < n_hc ==> #[trigger] out@[i][g] == x@[i],
                    forall|g: int| 0 <= g < h ==> #[trigger] out@[t as int][g] == x@[t as int],
                    forall|k: int|
                        0 <= k < c ==> #[trigger] out@[t as int][h as int][k] == x@[t as int][k],
                decreases d - c,
            {
                let v: u32 = x.at(t, c);
                out.put(t, h, c, v);
                c += 1;
            }
            assert(out@[t as int][h as int].len() == d);
            assert(out@[t as int][h as int] =~= x@[t as int]);
            h += 1;
        }
        t += 1;
    }
    assert forall|i: int| 0 <= i < n implies #[trigger] out@[i] == copies(x@, n_hc as nat)[i] by {
        assert(out@[i].len() == n_hc);
        assert(out@[i] =~= copies(x@, n_hc as nat)[i]);
    }
    assert(out@ =~= copies(x@, n_hc as nat));
    out
}

/// Every token's streams side by side, stream by stream.
pub fn flatten_streams(residual: &Cube) -> (flat: Matrix)
    requires
        residual.height() * residual.width() <= usize::MAX,
        matrix_fits(residual@.len(), residual.height() * residual.width()),
    ensures
        flat.wf(),
        flat@ == residual@.map_values(
            |p: Seq<Seq<u32>>| side_by_side(p, residual.width()),
        ),
        flat.width() == residual.height() * residual.width(),
{
    let dims: (usize, usize, usize) = residual.dims();
    let n: usize = dims.0;
    let n_hc: usize = dims.1;
    let d: usize = dims.2;
    let hc_dim: usize = n_hc * d;
    let mut flat: Matrix = Matrix::zeros(n, hc_dim);
    let mut t: usize = 0;
    while t < n
        invariant
            t <= n,
            n == residual@.len(),
            n_hc == residual.height(),
            d == residual.width(),
            hc_dim == n_hc * d,
            residual.wf(),
            flat.wf(),
            flat@.len() == n,
            flat.width() == hc_dim,
            forall|i: int| 0 <= i < t ==> flat@[i] == side_by_side(residual@[i], d as nat),
        decreases n - t,
    {
        let mut row: Vec<u32> = Vec::new();
        let mut k: usize = 0;
        while k < hc_dim
            invariant
                t < n,
                k <= hc_dim,
                n == residual@.len(),
                n_hc == residual.height(),
                d == residual.width(),
                hc_dim == n_hc * d,
                residual.wf(),
                row@ == side_by_side(residual@[t as int], d as nat).take(k as int),
            decreases hc_dim - k,
        {
            proof {
                lemma_position(k as int, n_hc as int, d as int);
            }
            let v: u32 = residual.at(t, k / d, k % d);
            row.push(v);
            k += 1;
            assert(row@ =~= side_by_side(residual@[t as int], d as nat).take(k as int));
        }
        assert(residual@[t as int].len() == n_hc);
        assert(row@ =~= side_by_side(residual@[t as int], d as nat));
        flat.put_row(t, row.as_slice());
        t += 1;
    }
    assert(flat@ =~= residual@.map_values(
        |p: Seq<Seq<u32>>| side_by_side(p, residual.width()),
    ));
    flat
}

/// A place among `n` rows of `d` words lies in one of the rows.
pub proof fn lemma_position(k: int, n: int, d: int)
    requires
        0 <= k < n * d,
        0 <= n,
        0 <= d,
    ensures
        d > 0,
        0 <= k / d < n,
        0 <= k % d < d,
        k == (k / d) * d + k % d,
{
    assert(d > 0) by (nonlinear_arith)
        requires
            0 <= k < n * d,
            0 <= d,
    ;
    assert(0 <= k / d < n && 0 <= k % d < d && k == (k / d) * d + k % d) by (nonlinear_arith)
        requires
            0 <= k < n * d,
            d > 0,
    ;
}

/// Where a word of stream `h` lands when the streams stand side by side.
pub proof fn law_flattened_word(rows: Seq<Seq<u32>>, width: nat, h: int, c: int)
    requires
        0 <= h < rows.len(),
        0 <= c < width,
    ensures
        h * width + c < rows.len() * width,
        side_by_side(rows, width)[h * width + c] == rows[h][c],
{
    let k = h * width + c;
    assert(0 <= k < rows.len() * width && k / width as int == h && k % width as int == c)
        by (nonlinear_arith)
        requires
            0 <= h < rows.len(),
            0 <= c < width,
            k == h * width + c,
    ;
}

/// Streams that were just copied hold the token's embedding over and over when
/// they stand side by side.
pub proof fn law_fresh_streams_repeat_the_token(x: Seq<Seq<u32>>, n: nat, width: nat, t: int, k: int)
    requires
        0 <= t < x.len(),
        0 <= k < n * width,
        x[t].len() == width,
    ensures
        side_by_side(copies(x, n)[t], width)[k] == x[t][k % width as int],
{
    lemma_position(k, n as int, width as int);
}

/// Whether the pooling of the streams has the shapes that it takes: the streams'
/// rows, one row of weights for every stream over all streams side by side, and
/// one base for every stream.
pub fn check_hc_head(
    residual: (usize, usize),
    hc_fn: (usize, usize),
    base_len: usize,
    n_hc: usize,
    n_embd: usize,
) -> (r: bool)
    ensures
        r == (residual == (n_hc, n_embd) && hc_fn.0 == n_hc && hc_fn.1 == n_hc * n_embd && base_len
            == n_hc),
{
    let width: usize = match n_hc.checked_mul(n_embd) {
        Some(w) => w,
        None => return false,
    };
    residual.0 == n_hc && residual.1 == n_embd && hc_fn.0 == n_hc && hc_fn.1 == width && base_len
        == n_hc
}

/// What is done to a table of rows behind the layers.
#[derive(Clone, Copy, Debug, PartialEq, Eq, Structural)]
pub enum HeadKernel {
    /// Root-mean-square norm of every row, without a weight.
    UnitNorm,
    /// The projection of the streams side by side to one value for every stream.
    ProjectStreams,
    /// Every value times the head's scale.
    Scale,
    /// The head's base added to every row.
    AddBase,
    /// Logistic function of every value, plus a small constant.
    SigmoidEps,
    /// The norm behind the last layer.
    OutputNorm,
    /// The scores of the vocabulary.
    LmHead,
}

/// The tables between some streams and the row that they are pooled into.
pub struct PoolRun {
    pub flat: Matrix,
    pub unit: Matrix,
    pub projected: Matrix,
    pub scaled: Matrix,
    pub shifted: Matrix,
    pub weights: Matrix,
}

/// The pooling of some streams that gave `y`: the sum of every token's streams, with
/// weights from the streams side by side, normed, projected, scaled, shifted and
/// squashed.
pub open spec fn pool_follows<
    T: Fn(HeadKernel, &Matrix) -> Matrix,
    W: Fn(&Cube, &Matrix) -> Matrix,
>(tables: T, weigh: W, streams: Cube, r: PoolRun, y: Matrix) -> bool {
    &&& r.flat@ == streams@.map_values(|p: Seq<Seq<u32>>| side_by_side(p, streams.width()))
    &&& call_ensures(tables, (HeadKernel::UnitNorm, &r.flat), r.unit)
    &&& call_ensures(tables, (HeadKernel::ProjectStreams, &r.unit), r.projected)
    &&& call_ensures(tables, (HeadKernel::Scale, &r.projected), r.scaled)
    &&& call_ensures(tables, (HeadKernel::AddBase, &r.scaled), r.shifted)
    &&& call_ensures(tables, (HeadKernel::SigmoidEps, &r.shifted), r.weights)
    &&& call_ensures(weigh, (&streams, &r.weights), y)
}

/// Some streams were pooled into `y`.
pub open spec fn streams_pooled<
    T: Fn(HeadKernel, &Matrix) -> Matrix,
    W: Fn(&Cube, &Matrix) -> Matrix,
>(tables: T, weigh: W, streams: Cube, y: Matrix) -> bool {
    exists|r: PoolRun| #[trigger] pool_follows(tables, weigh, streams, r, y)
}

/// Shapes of the head's weights.
#[derive(Clone, Copy, Debug)]
pub struct HeadShapes {
    pub hc_fn: (usize, usize),
    pub base_len: usize,
    pub n_vocab: usize,
}

/// The head has the shapes that streams of a width take.
pub open spec fn head_shapes_match(s: HeadShapes, n_hc: nat, n_embd: nat) -> bool {
    &&& s.hc_fn.0 == n_hc
    &&& s.hc_fn.1 == n_hc * n_embd
    &&& s.base_len == n_hc
}

/// The kernels give tables of the shapes that the geometry asks for: the scores one
/// for every word of the vocabulary, the norm what it gets, and the weighted sum a
/// row for every token's streams.
pub open spec fn head_shapes_kept<
    T: Fn(HeadKernel, &Matrix) -> Matrix,
    W: Fn(&Cube, &Matrix) -> Matrix,
>(tables: T, weigh: W, n_vocab: nat) -> bool {
    &&& forall|m: &Matrix, out: Matrix| #[trigger]
        call_ensures(tables, (HeadKernel::OutputNorm, m), out) ==> out@.len() == m@.len()
            && out.width() == m.width()
    &&& forall|m: &Matrix, out: Matrix| #[trigger]
        call_ensures(tables, (HeadKernel::LmHead, m), out) ==> out@.len() == m@.len() && out.width()
            == n_vocab
    &&& forall|c: &Cube, m: &Matrix, out: Matrix| #[trigger]
        call_ensures(weigh, (c, m), out) ==> out@.len() == c@.len() && out.width() == c.width()
}

/// Some streams can stand side by side.
pub open spec fn streams_fit(n_tokens: nat, n_hc: nat, n_embd: nat) -> bool {
    &&& n_hc * n_embd <= usize::MAX
    &&& matrix_fits(n_tokens, n_hc * n_embd)
}

/// The streams of every token pooled into one row each.
pub fn dsv4_hc_head<
    T: Fn(HeadKernel, &Matrix) -> Matrix,
    W: Fn(&Cube, &Matrix) -> Matrix,
>(residual: &Cube, shapes: &HeadShapes, tables: &T, weigh: &W) -> (y: Matrix)
    requires
        head_shapes_match(*shapes, residual.height(), residual.width()),
        streams_fit(residual@.len(), residual.height(), residual.width()),
        forall|k: HeadKernel, m: &Matrix| call_requires(*tables, (k, m)),
        forall|c: &Cube, m: &Matrix| call_requires(*weigh, (c, m)),
        head_shapes_kept(*tables, *weigh, shapes.n_vocab as nat),
    ensures
        streams_pooled(*tables, *weigh, *residual, y),
        y@.len() == residual@.len(),
        y.width() == residual.width(),
{
    let flat: Matrix = flatten_streams(residual);
    let unit: Matrix = tables(HeadKernel::UnitNorm, &flat);
    let projected: Matrix = tables(HeadKernel::ProjectStreams, &unit);
    let scaled: Matrix = tables(HeadKernel::Scale, &projected);
    let shifted: Matrix = tables(HeadKernel::AddBase, &scaled);
    let weights: Matrix = tables(HeadKernel::SigmoidEps, &shifted);
    let y: Matrix = weigh(residual, &weights);
    proof {
        let run = PoolRun { flat, unit, projected, scaled, shifted, weights };
        assert(pool_follows(*tables, *weigh, *residual, run, y));
    }
    y
}

/// The streams that a pass of some tokens starts with: every stream the token's
/// embedding.
pub open spec fn first_streams(
    token_ids: Seq<u32>,
    token_embd: Seq<Seq<u32>>,
    n_hc: nat,
) -> Seq<Seq<Seq<u32>>> {
    copies(token_rows(token_embd, token_ids), n_hc)
}

/// Some tokens can start a pass.
pub open spec fn tokens_allowed(token_ids: Seq<u32>, token_embd: Matrix, n_hc: nat) -> bool {
    &&& tokens_known(token_ids, token_embd@.len())
    &&& matrix_fits(token_ids.len(), token_embd.width())
    &&& cube_fits(token_ids.len(), n_hc, token_embd.width())
    &&& streams_fit(token_ids.len(), n_hc, token_embd.width())
}

/// The streams that a pass of some tokens starts with.
pub fn start_streams(token_ids: &Vec<u32>, token_embd: &Matrix, n_hc: usize) -> (x: Cube)
    requires
        tokens_allowed(token_ids@, *token_embd, n_hc as nat),
    ensures
        x.wf(),
        x@ == first_streams(token_ids@, token_embd@, n_hc as nat),
        x@.len() == token_ids@.len(),
        x.height() == n_hc,
        x.width() == token_embd.width(),
{
    broadcast_to_streams(&embed_tokens(token_ids.as_slice(), token_embd), n_hc)
}

/// The scores that a pass ends with behind its last layer: the streams pooled,
/// normed, and led through the head.
pub open spec fn scores_given<
    T: Fn(HeadKernel, &Matrix) -> Matrix,
    W: Fn(&Cube, &Matrix) -> Matrix,
>(tables: T, weigh: W, streams: Cube, out: Matrix) -> bool {
    exists|pooled: Matrix, normed: Matrix|
        {
            &&& #[trigger] streams_pooled(tables, weigh, streams, pooled)
            &&& #[trigger] call_ensures(tables, (HeadKernel::OutputNorm, &pooled), normed)
            &&& call_ensures(tables, (HeadKernel::LmHead, &normed), out)
        }
}

/// The scores that a pass ends with.
pub fn end_scores<
    T: Fn(HeadKernel, &Matrix) -> Matrix,
    W: Fn(&Cube, &Matrix) -> Matrix,
>(streams: &Cube, shapes: &HeadShapes, tables: &T, weigh: &W) -> (out: Matrix)
    requires
        head_shapes_match(*shapes, streams.height(), streams.width()),
        streams_fit(streams@.len(), streams.height(), streams.width()),
        forall|k: HeadKernel, m: &Matrix| call_requires(*tables, (k, m)),
        forall|c: &Cube, m: &Matrix| call_requires(*weigh, (c, m)),
        head_shapes_kept(*tables, *weigh, shapes.n_vocab as nat),
    ensures
        scores_given(*tables, *weigh, *streams, out),
        out@.len() == streams@.len(),
        out.width() == shapes.n_vocab,
{
    let pooled: Matrix = dsv4_hc_head(streams, shapes, tables, weigh);
    let normed: Matrix = tables(HeadKernel::OutputNorm, &pooled);
    let out: Matrix = tables(HeadKernel::LmHead, &normed);
    assert(call_ensures(*tables, (HeadKernel::OutputNorm, &pooled), normed));
    out
}

/// What a layer may make of the streams. The layer is whatever the caller brings.
pub open spec fn layer_gives<L: Fn(usize, &Cube, &Vec<u32>, usize) -> Cube>(
    layer: L,
    l: usize,
    token_ids: &Vec<u32>,
    position_offset: usize,
    x: Cube,
    y: Cube,
) -> bool {
    call_ensures(layer, (l, &x, token_ids, position_offset), y)
}

/// The first `n` layers ran one after the other: `xs` are the streams, before the
/// first layer and behind every layer.
pub open spec fn layers_ran<L: Fn(usize, &Cube, &Vec<u32>, usize) -> Cube>(
    layer: L,
    token_ids: &Vec<u32>,
    position_offset: usize,
    xs: Seq<Cube>,
    n: nat,
) -> bool {
    &&& xs.len() == n + 1
    &&& forall|l: int|
        0 <= l < n ==> layer_gives(
            layer,
            l as usize,
            token_ids,
            position_offset,
            #[trigger] xs[l],
            xs[l + 1],
        )
}

/// A pass of some tokens over all layers: the first streams, every layer on what the
/// one before it gave, and the scores.
pub fn dsv4_model_forward<
    L: Fn(usize, &Cube, &Vec<u32>, usize) -> Cube,
    T: Fn(HeadKernel, &Matrix) -> Matrix,
    W: Fn(&Cube, &Matrix) -> Matrix,
>(
    token_ids: &Vec<u32>,
    token_embd: &Matrix,
    n_layers: usize,
    n_params: usize,
    shapes: &HeadShapes,
    n_hc: usize,
    position_offset: usize,
    layer: &L,
    tables: &T,
    weigh: &W,
) -> (out: Matrix)
    requires
        n_layers == n_params,
        tokens_allowed(token_ids@, *token_embd, n_hc as nat),
        head_shapes_match(*shapes, n_hc as nat, token_embd.width()),
        forall|l: usize, x: &Cube, ids: &Vec<u32>, o: usize| call_requires(*layer, (l, x, ids, o)),
        forall|l: usize, x: &Cube, ids: &Vec<u32>, o: usize, y: Cube| #[trigger]
            call_ensures(*layer, (l, x, ids, o), y) ==> y@.len() == x@.len() && y.height()
                == x.height() && y.width() == x.width(),
        forall|k: HeadKernel, m: &Matrix| call_requires(*tables, (k, m)),
        forall|c: &Cube, m: &Matrix| call_requires(*weigh, (c, m)),
        head_shapes_kept(*tables, *weigh, shapes.n_vocab as nat),
    ensures
        exists|xs: Seq<Cube>|
            {
                &&& #[trigger] layers_ran(
                    *layer,
                    token_ids,
                    position_offset,
                    xs,
                    n_layers as nat,
                )
                &&& xs[0]@ == first_streams(token_ids@, token_embd@, n_hc as nat)
                &&& scores_given(*tables, *weigh, xs.last(), out)
            },
        out@.len() == token_ids@.len(),
        out.width() == shapes.n_vocab,
{
    let mut x: Cube = start_streams(token_ids, token_embd, n_hc);
    let ghost mut xs: Seq<Cube> = seq![x];
    let mut l: usize = 0;
    while l < n_layers
        invariant
            l <= n_layers,
            forall|l: usize, x: &Cube, ids: &Vec<u32>, o: usize|
                call_requires(*layer, (l, x, ids, o)),
            forall|l: usize, x: &Cube, ids: &Vec<u32>, o: usize, y: Cube| #[trigger]
                call_ensures(*layer, (l, x, ids, o), y) ==> y@.len() == x@.len() && y.height()
                    == x.height() && y.width() == x.width(),
            layers_ran(*layer, token_ids, position_offset, xs, l as nat),
            xs[0]@ == first_streams(token_ids@, token_embd@, n_hc as nat),
            x == xs.last(),
            x@.len() == token_ids@.len(),
            x.height() == n_hc,
            x.width() == token_embd.width(),
        decreases n_layers - l,
    {
        let next: Cube = layer(l, &x, token_ids, position_offset);
        proof {
            assert(layer_gives(*layer, l, token_ids, position_offset, x, next));
            let before = xs;
            xs = xs.push(next);
            assert forall|i: int| 0 <= i < l + 1 implies layer_gives(
                *layer,
                i as usize,
                token_ids,
                position_offset,
                #[trigger] xs[i],
                xs[i + 1],
            ) by {
                assert(xs[i] == before[i]);
                if i < l {
                    assert(xs[i + 1] == before[i + 1]);
                }
            }
            assert(xs[0] == before[0]);
        }
        x = next;
        l = l + 1;
    }
    end_scores(&x, shapes, tables, weigh)
}

/// Every token starts as its own row of the embedding table, once in every stream.
pub proof fn law_streams_start_as_the_token(
    token_ids: Seq<u32>,
    token_embd: Seq<Seq<u32>>,
    n_hc: nat,
    t: int,
    h: int,
)
    requires
        0 <= t < token_ids.len(),
        0 <= h < n_hc,
    ensures
        token_rows(token_embd, token_ids).len() == token_ids.len(),
        token_rows(token_embd, token_ids)[t] == token_embd[token_ids[t] as int],
        first_streams(token_ids, token_embd, n_hc).len() == token_ids.len(),
        first_streams(token_ids, token_embd, n_hc)[t].len() == n_hc,
        first_streams(token_ids, token_embd, n_hc)[t][h] == token_embd[token_ids[t] as int],
{
}

/// How the streams of every token are averaged to one row: by weights that come from
/// the streams side by side, normed, projected, scaled, shifted by the base and led
/// through the logistic function, in this order. Word `h * width + c` of a token's
/// flat row is word `c` of its stream `h`.
pub proof fn law_pooling_steps<
    T: Fn(HeadKernel, &Matrix) -> Matrix,
    W: Fn(&Cube, &Matrix) -> Matrix,
>(tables: T, weigh: W, streams: Cube, y: Matrix)
    requires
        streams_pooled(tables, weigh, streams, y),
        streams.wf(),
    ensures
        exists|r: PoolRun|
            {
                &&& #[trigger] pool_follows(tables, weigh, streams, r, y)
                &&& r.flat@.len() == streams@.len()
                &&& forall|t: int, h: int, c: int|
                    0 <= t < streams@.len() && 0 <= h < streams.height() && 0 <= c
                        < streams.width() ==> (#[trigger] streams@[t][h][c]) == r.flat@[t][h
                        * streams.width() + c]
                &&& call_ensures(tables, (HeadKernel::UnitNorm, &r.flat), r.unit)
                &&& call_ensures(tables, (HeadKernel::ProjectStreams, &r.unit), r.projected)
                &&& call_ensures(tables, (HeadKernel::Scale, &r.projected), r.scaled)
                &&& call_ensures(tables, (HeadKernel::AddBase, &r.scaled), r.shifted)
                &&& call_ensures(tables, (HeadKernel::SigmoidEps, &r.shifted), r.weights)
                &&& call_ensures(weigh, (&streams, &r.weights), y)
            },
{
    let r = choose|r: PoolRun| #[trigger] pool_follows(tables, weigh, streams, r, y);
    assert forall|t: int, h: int, c: int|
        0 <= t < streams@.len() && 0 <= h < streams.height() && 0 <= c < streams.width() implies (
    #[trigger] streams@[t][h][c]) == r.flat@[t][h * streams.width() + c] by {
        assert(streams@[t].len() == streams.height());
        law_flattened_word(streams@[t], streams.width(), h, c);
    }
}

/// The scores of every token are of its averaged streams, normed by the output norm.
pub proof fn law_scores_steps<
    T: Fn(HeadKernel, &Matrix) -> Matrix,
    W: Fn(&Cube, &Matrix) -> Matrix,
>(tables: T, weigh: W, streams: Cube, out: Matrix)
    requires
        scores_given(tables, weigh, streams, out),
    ensures
        exists|pooled: Matrix, normed: Matrix|
            {
                &&& #[trigger] streams_pooled(tables, weigh, streams, pooled)
                &&& #[trigger] call_ensures(tables, (HeadKernel::OutputNorm, &pooled), normed)
                &&& call_ensures(tables, (HeadKernel::LmHead, &normed), out)
            },
{
}

/// Every layer is called by its number, on what the layer before it left, with all
/// tokens and the offset of the pass.
pub proof fn law_layers_run_in_order<L: Fn(usize, &Cube, &Vec<u32>, usize) -> Cube>(
    layer: L,
    token_ids: &Vec<u32>,
    position_offset: usize,
    xs: Seq<Cube>,
    n: nat,
    l: int,
)
    requires
        layers_ran(layer, token_ids, position_offset, xs, n),
        0 <= l < n,
    ensures
        xs.len() == n + 1,
        call_ensures(layer, (l as usize, &xs[l], token_ids, position_offset), xs[l + 1]),
{
    assert(layer_gives(layer, l as usize, token_ids, position_offset, xs[l], xs[l + 1]));
}

/// Where the shapes of the head pass, its projection reads all streams side by side
/// and gives one value for every stream, as many as the base has.
pub proof fn law_head_shapes(s: HeadShapes, n_hc: nat, n_embd: nat)
    ensures
        head_shapes_match(s, n_hc, n_embd) == (s.hc_fn.0 == n_hc && s.hc_fn.1 == n_hc * n_embd
            && s.base_len == n_hc),
{
}

} // verus!
