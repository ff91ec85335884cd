//! The order of operations in a forward pass of one token.
//!
//! A layer adds its block's output to the running value, normalises the sum for
//! its feed-forward part, and adds the feed-forward output to the sum from before
//! the normalisation. What the operations compute is up to whoever brings them.
use vstd::prelude::*;
use crate::words::{contents, copy_row};

verus! {

/// What kind of block a layer starts with.
#[derive(Clone, Copy, Debug, PartialEq, Eq, Structural)]
pub enum BlockKind {
    /// Gated linear attention with a recurrent state.
    Linear,
    /// Softmax attention over cached keys and values.
    Attention,
    /// Softmax attention over cached latent rows.
    Latent,
}

/// How a layer's feed-forward part runs.
#[derive(Clone, Copy, Debug, PartialEq, Eq, Structural)]
pub enum FfnRoute {
    /// Routed experts.
    Moe,
    /// One dense feed-forward part, with quantized projections where there are
    /// any.
    Lazy,
    /// One dense feed-forward part of plain matrices.
    Dense,
}

/// Where a matrix row or product comes from.
#[derive(Clone, Copy, Debug, PartialEq, Eq, Structural)]
pub enum Source {
    Quant,
    Dense,
}

/// One operation of a pass, besides the layers' blocks.
#[derive(Clone, Copy, Debug, PartialEq, Eq, Structural)]
pub enum Op {
    /// A token's embedding.
    Embed(u32, Source),
    /// The running value plus the block's output.
    AddBlock,
    /// That sum normalised for a layer's feed-forward part.
    PostNorm { layer: usize },
    /// What a layer's feed-forward part makes of the normalised sum.
    Ffn { layer: usize, route: FfnRoute },
    /// The sum plus the feed-forward output.
    AddFfn,
    /// The running value normalised.
    FinalNorm,
    /// The scores of the vocabulary.
    LmHead(Source),
}

/// What a layer holds that decides how it runs.
#[derive(Clone, Copy, Debug, PartialEq, Eq, Structural)]
pub struct LayerFlags {
    pub block: BlockKind,
    pub has_moe: bool,
    pub gate_quant: bool,
    pub up_quant: bool,
    pub down_quant: bool,
}

/// How a layer's feed-forward part runs: experts first, quantized projections
/// where any of the three is there, plain matrices else.
pub open spec fn route_of(f: LayerFlags) -> FfnRoute {
    if f.has_moe {
        FfnRoute::Moe
    } else if f.gate_quant || f.up_quant || f.down_quant {
        FfnRoute::Lazy
    } else {
        FfnRoute::Dense
    }
}

/// How a layer's feed-forward part runs.
pub fn ffn_route(f: &LayerFlags) -> (r: FfnRoute)
    ensures
        r == route_of(*f),
{
    if f.has_moe {
        FfnRoute::Moe
    } else if f.gate_quant || f.up_quant || f.down_quant {
        FfnRoute::Lazy
    } else {
        FfnRoute::Dense
    }
}

/// What an operation may make of some arguments. The operations are whatever the
/// caller brings.
pub open spec fn op_gives<G: Fn(Op, Vec<Vec<u32>>) -> Vec<u32>>(
    ops: G,
    op: Op,
    args: Seq<Seq<u32>>,
    out: Seq<u32>,
) -> bool {
    exists|a: Vec<Vec<u32>>, r: Vec<u32>|
        #[trigger] call_ensures(ops, (op, a), r) && contents(a@) == args && r@ == out
}

/// What an operation may make of one value.
pub open spec fn one_gives<G: Fn(Op, Vec<Vec<u32>>) -> Vec<u32>>(
    ops: G,
    op: Op,
    a: Seq<u32>,
    out: Seq<u32>,
) -> bool {
    op_gives(ops, op, seq![a], out)
}

/// What an operation may make of two values.
pub open spec fn two_give<G: Fn(Op, Vec<Vec<u32>>) -> Vec<u32>>(
    ops: G,
    op: Op,
    a: Seq<u32>,
    b: Seq<u32>,
    out: Seq<u32>,
) -> bool {
    op_gives(ops, op, seq![a, b], out)
}

/// An operation always gives so many words.
pub open spec fn op_width<G: Fn(Op, Vec<Vec<u32>>) -> Vec<u32>>(ops: G, op: Op, n: nat) -> bool {
    forall|args: Seq<Seq<u32>>, out: Seq<u32>| #[trigger]
        op_gives(ops, op, args, out) ==> out.len() == n
}

/// What a layer leaves behind where its block gave `block`: the block is added,
/// and the feed-forward part's output is added to the sum from before the
/// normalisation.
pub open spec fn layer_follows<G: Fn(Op, Vec<Vec<u32>>) -> Vec<u32>>(
    ops: G,
    f: LayerFlags,
    layer: usize,
    x: Seq<u32>,
    block: Seq<u32>,
    next: Seq<u32>,
) -> bool {
    exists|sum: Seq<u32>, normed: Seq<u32>, ffn: Seq<u32>|
        {
            &&& #[trigger] two_give(ops, Op::AddBlock, x, block, sum)
            &&& #[trigger] one_gives(ops, Op::PostNorm { layer }, sum, normed)
            &&& #[trigger] one_gives(ops, Op::Ffn { layer, route: route_of(f) }, normed, ffn)
            &&& two_give(ops, Op::AddFfn, sum, ffn, next)
        }
}

/// The scores that a pass ends with behind its last layer.
pub open spec fn pass_ends<G: Fn(Op, Vec<Vec<u32>>) -> Vec<u32>>(
    ops: G,
    head: Source,
    x: Seq<u32>,
    out: Seq<u32>,
) -> bool {
    exists|normed: Seq<u32>|
        #[trigger] one_gives(ops, Op::FinalNorm, x, normed) && one_gives(
            ops,
            Op::LmHead(head),
            normed,
            out,
        )
}

/// A whole pass over a token: `xs` are the running values, the embedding first and then one
/// behind every layer, `blocks` the layers' block outputs, `out` the scores.
pub open spec fn pass_follows<G: Fn(Op, Vec<Vec<u32>>) -> Vec<u32>>(
    ops: G,
    layers: Seq<LayerFlags>,
    token: u32,
    embed: Source,
    head: Source,
    xs: Seq<Seq<u32>>,
    blocks: Seq<Seq<u32>>,
    out: Seq<u32>,
) -> bool {
    &&& xs.len() == layers.len() + 1
    &&& blocks.len() == layers.len()
    &&& op_gives(ops, Op::Embed(token, embed), Seq::empty(), xs[0])
    &&& forall|l: int|
        0 <= l < layers.len() ==> layer_follows(
            ops,
            layers[l],
            l as usize,
            xs[l],
            #[trigger] blocks[l],
            xs[l + 1],
        )
    &&& pass_ends(ops, head, xs.last(), out)
}

/// Calls an operation on one value.
fn call_one<G: Fn(Op, Vec<Vec<u32>>) -> Vec<u32>>(ops: &G, op: Op, a: &Vec<u32>) -> (r: Vec<u32>)
    requires
        forall|o: Op, v: Vec<Vec<u32>>| call_requires(*ops, (o, v)),
    ensures
        one_gives(*ops, op, a@, r@),
{
    let mut args: Vec<Vec<u32>> = Vec::new();
    args.push(copy_row(a));
    let ghost given = args;
    assert(contents(given@) =~= seq![a@]);
    let r: Vec<u32> = ops(op, args);
    assert(call_ensures(*ops, (op, given), r));
    r
}

/// Calls an operation on two values.
fn call_two<G: Fn(Op, Vec<Vec<u32>>) -> Vec<u32>>(
    ops: &G,
    op: Op,
    a: &Vec<u32>,
    b: &Vec<u32>,
) -> (r: Vec<u32>)
    requires
        forall|o: Op, v: Vec<Vec<u32>>| call_requires(*ops, (o, v)),
    ensures
        two_give(*ops, op, a@, b@, r@),
{
    let mut args: Vec<Vec<u32>> = Vec::new();
    args.push(copy_row(a));
    args.push(copy_row(b));
    let ghost given = args;
    assert(contents(given@) =~= seq![a@, b@]);
    let r: Vec<u32> = ops(op, args);
    assert(call_ensures(*ops, (op, given), r));
    r
}

/// The running value that a pass starts with.
pub fn start_pass<G: Fn(Op, Vec<Vec<u32>>) -> Vec<u32>>(
    ops: &G,
    token: u32,
    embed: Source,
) -> (x: Vec<u32>)
    requires
        forall|o: Op, v: Vec<Vec<u32>>| call_requires(*ops, (o, v)),
    ensures
        op_gives(*ops, Op::Embed(token, embed), Seq::empty(), x@),
{
    let args: Vec<Vec<u32>> = Vec::new();
    let ghost given = args;
    assert(contents(given@) =~= Seq::empty());
    let x: Vec<u32> = ops(Op::Embed(token, embed), args);
    assert(call_ensures(*ops, (Op::Embed(token, embed), given), x));
    x
}

/// The running value behind a layer whose block gave `block`.
pub fn finish_layer<G: Fn(Op, Vec<Vec<u32>>) -> Vec<u32>>(
    ops: &G,
    f: &LayerFlags,
    layer: usize,
    x: &Vec<u32>,
    block: &Vec<u32>,
) -> (next: Vec<u32>)
    requires
        forall|o: Op, v: Vec<Vec<u32>>| call_requires(*ops, (o, v)),
    ensures
        layer_follows(*ops, *f, layer, x@, block@, next@),
{
    let sum: Vec<u32> = call_two(ops, Op::AddBlock, x, block);
    let normed: Vec<u32> = call_one(ops, Op::PostNorm { layer }, &sum);
    let route: FfnRoute = ffn_route(f);
    let ffn: Vec<u32> = call_one(ops, Op::Ffn { layer, route }, &normed);
    let next: Vec<u32> = call_two(ops, Op::AddFfn, &sum, &ffn);
    next
}

/// The scores that a pass ends with.
pub fn end_pass<G: Fn(Op, Vec<Vec<u32>>) -> Vec<u32>>(ops: &G, head: Source, x: &Vec<u32>) -> (out:
    Vec<u32>)
    requires
        forall|o: Op, v: Vec<Vec<u32>>| call_requires(*ops, (o, v)),
    ensures
        pass_ends(*ops, head, x@, out@),
{
    let normed: Vec<u32> = call_one(ops, Op::FinalNorm, x);
    let out: Vec<u32> = call_one(ops, Op::LmHead(head), &normed);
    out
}

// ---- what a pass computes --------------------------------------------------

/// What the operations and the blocks do to values.
pub struct Meaning {
    pub embed: spec_fn(u32, Source) -> Seq<u32>,
    pub block: spec_fn(int, BlockKind, Seq<u32>) -> Seq<u32>,
    pub post_norm: spec_fn(int, Seq<u32>) -> Seq<u32>,
    pub ffn: spec_fn(int, FfnRoute, Seq<u32>) -> Seq<u32>,
    pub plus: spec_fn(Seq<u32>, Seq<u32>) -> Seq<u32>,
    pub final_norm: spec_fn(Seq<u32>) -> Seq<u32>,
    pub lm_head: spec_fn(Source, Seq<u32>) -> Seq<u32>,
}

/// What an operation makes of its arguments.
pub open spec fn op_value(m: Meaning, op: Op, args: Seq<Seq<u32>>) -> Seq<u32> {
    match op {
        Op::Embed(token, s) => (m.embed)(token, s),
        Op::AddBlock => (m.plus)(args[0], args[1]),
        Op::PostNorm { layer } => (m.post_norm)(layer as int, args[0]),
        Op::Ffn { layer, route } => (m.ffn)(layer as int, route, args[0]),
        Op::AddFfn => (m.plus)(args[0], args[1]),
        Op::FinalNorm => (m.final_norm)(args[0]),
        Op::LmHead(s) => (m.lm_head)(s, args[0]),
    }
}

/// The value behind the first `n` layers, by the formula: each layer adds its
/// block's output, and then adds to that sum what the feed-forward part makes
/// of the normalised sum.
pub open spec fn layers_value(
    m: Meaning,
    layers: Seq<LayerFlags>,
    token: u32,
    embed: Source,
    n: nat,
) -> Seq<u32>
    decreases n,
{
    if n == 0 {
        (m.embed)(token, embed)
    } else {
        let l = n - 1;
        let x = layers_value(m, layers, token, embed, l as nat);
        let sum = (m.plus)(x, (m.block)(l, layers[l].block, x));
        (m.plus)(sum, (m.ffn)(l, route_of(layers[l]), (m.post_norm)(l, sum)))
    }
}

/// The operations compute what the meaning says.
pub open spec fn ops_mean<G: Fn(Op, Vec<Vec<u32>>) -> Vec<u32>>(ops: G, m: Meaning) -> bool {
    forall|op: Op, args: Seq<Seq<u32>>, out: Seq<u32>| #[trigger]
        op_gives(ops, op, args, out) ==> out == op_value(m, op, args)
}

/// The blocks gave what the meaning says.
pub open spec fn blocks_mean(
    m: Meaning,
    layers: Seq<LayerFlags>,
    xs: Seq<Seq<u32>>,
    blocks: Seq<Seq<u32>>,
) -> bool {
    forall|l: int|
        0 <= l < layers.len() ==> #[trigger] blocks[l] == (m.block)(l, layers[l].block, xs[l])
}

proof fn lemma_running_values<G: Fn(Op, Vec<Vec<u32>>) -> Vec<u32>>(
    ops: G,
    m: Meaning,
    layers: Seq<LayerFlags>,
    token: u32,
    embed: Source,
    head: Source,
    xs: Seq<Seq<u32>>,
    blocks: Seq<Seq<u32>>,
    out: Seq<u32>,
    n: nat,
)
    requires
        n <= layers.len() <= usize::MAX,
        pass_follows(ops, layers, token, embed, head, xs, blocks, out),
        ops_mean(ops, m),
        blocks_mean(m, layers, xs, blocks),
    ensures
        xs[n as int] == layers_value(m, layers, token, embed, n),
    decreases n,
{
    if n > 0 {
        let l = n - 1;
        lemma_running_values(ops, m, layers, token, embed, head, xs, blocks, out, l as nat);
        assert(layer_follows(ops, layers[l], l as usize, xs[l], blocks[l], xs[l + 1]));
    }
}

/// A pass computes the formula, whatever the operations and the blocks mean: the
/// scores are those of the normalised value behind all layers, and in each layer
/// the feed-forward output is added to the sum from before the normalisation.
pub proof fn law_pass_computes_the_formula<G: Fn(Op, Vec<Vec<u32>>) -> Vec<u32>>(
    ops: G,
    m: Meaning,
    layers: Seq<LayerFlags>,
    token: u32,
    embed: Source,
    head: Source,
    xs: Seq<Seq<u32>>,
    blocks: Seq<Seq<u32>>,
    out: Seq<u32>,
)
    requires
        layers.len() <= usize::MAX,
        pass_follows(ops, layers, token, embed, head, xs, blocks, out),
        ops_mean(ops, m),
        blocks_mean(m, layers, xs, blocks),
    ensures
        out == (m.lm_head)(head, (m.final_norm)(layers_value(m, layers, token, embed, layers.len()))),
{
    lemma_running_values(ops, m, layers, token, embed, head, xs, blocks, out, layers.len());
}

/// Which way a layer's feed-forward part runs: experts where the layer has them,
/// whatever else it holds; else with quantized projections where at least one of the
/// three is there; and with plain matrices where none is.
pub proof fn law_route_by_what_a_layer_holds(f: LayerFlags)
    ensures
        f.has_moe <==> route_of(f) is Moe,
        route_of(f) is Lazy <==> !f.has_moe && (f.gate_quant || f.up_quant || f.down_quant),
        route_of(f) is Dense <==> !f.has_moe && !f.gate_quant && !f.up_quant && !f.down_quant,
{
}

/// What a layer does behind its block: the block's output is added to the layer's
/// input, the sum is normed for this layer, the feed-forward part of this layer works
/// on the normed sum, and its output is added to the sum that was not normed.
pub proof fn law_layer_steps<G: Fn(Op, Vec<Vec<u32>>) -> Vec<u32>>(
    ops: G,
    f: LayerFlags,
    layer: usize,
    x: Seq<u32>,
    block: Seq<u32>,
    next: Seq<u32>,
)
    requires
        layer_follows(ops, f, layer, x, block, next),
    ensures
        exists|v: Seq<Seq<u32>>, route: FfnRoute|
            {
                &&& (#[trigger] v.len()) == 3
                &&& #[trigger] is_route(f, route)
                &&& op_gives(ops, Op::AddBlock, seq![x, block], v[0])
                &&& op_gives(ops, Op::PostNorm { layer }, seq![v[0]], v[1])
                &&& op_gives(ops, Op::Ffn { layer, route }, seq![v[1]], v[2])
                &&& op_gives(ops, Op::AddFfn, seq![v[0], v[2]], next)
            },
{
    let (sum, normed, ffn) = choose|sum: Seq<u32>, normed: Seq<u32>, ffn: Seq<u32>|
        {
            &&& #[trigger] two_give(ops, Op::AddBlock, x, block, sum)
            &&& #[trigger] one_gives(ops, Op::PostNorm { layer }, sum, normed)
            &&& #[trigger] one_gives(ops, Op::Ffn { layer, route: route_of(f) }, normed, ffn)
            &&& two_give(ops, Op::AddFfn, sum, ffn, next)
        };
    let v = seq![sum, normed, ffn];
    assert(v.len() == 3);
    assert(is_route(f, route_of(f)));
}

/// A route that fits what a layer holds.
pub open spec fn is_route(f: LayerFlags, route: FfnRoute) -> bool {
    &&& f.has_moe <==> route == FfnRoute::Moe
    &&& !f.has_moe && (f.gate_quant || f.up_quant || f.down_quant) <==> route == FfnRoute::Lazy
}

/// A pass: it starts with the token's own embedding, every layer works on what the
/// layer before it left, in order and by its own number, and the scores are of the
/// normed output of the last one.
pub proof fn law_pass_steps<G: Fn(Op, Vec<Vec<u32>>) -> Vec<u32>>(
    ops: G,
    layers: Seq<LayerFlags>,
    token: u32,
    embed: Source,
    head: Source,
    xs: Seq<Seq<u32>>,
    blocks: Seq<Seq<u32>>,
    out: Seq<u32>,
)
    requires
        pass_follows(ops, layers, token, embed, head, xs, blocks, out),
    ensures
        xs.len() == layers.len() + 1,
        blocks.len() == layers.len(),
        op_gives(ops, Op::Embed(token, embed), Seq::empty(), xs[0]),
        forall|l: int|
            0 <= l < layers.len() ==> layer_follows(
                ops,
                layers[l],
                l as usize,
                xs[l],
                #[trigger] blocks[l],
                xs[l + 1],
            ),
        exists|normed: Seq<u32>| #[trigger]
            one_gives(ops, Op::FinalNorm, xs[layers.len() as int], normed) && op_gives(
                ops,
                Op::LmHead(head),
                seq![normed],
                out,
            ),
{
}

/// What an operation may give is what a call of it with the rows gives.
pub proof fn law_operation_comes_from_a_call<G: Fn(Op, Vec<Vec<u32>>) -> Vec<u32>>(
    ops: G,
    op: Op,
    args: Seq<Seq<u32>>,
    out: Seq<u32>,
)
    requires
        op_gives(ops, op, args, out),
    ensures
        exists|a: Vec<Vec<u32>>, r: Vec<u32>|
            {
                &&& #[trigger] call_ensures(ops, (op, a), r)
                &&& r@ == out
                &&& a@.len() == args.len()
                &&& forall|i: int| 0 <= i < args.len() ==> (#[trigger] a@[i])@ == args[i]
            },
{
    let (a, r) = choose|a: Vec<Vec<u32>>, r: Vec<u32>|
        #[trigger] call_ensures(ops, (op, a), r) && contents(a@) == args && r@ == out;
    assert(contents(a@).len() == a@.len());
    assert forall|i: int| 0 <= i < args.len() implies (#[trigger] a@[i])@ == args[i] by {
        assert(contents(a@)[i] == a@[i]@);
    }
}

} // verus!
