//! The kernels of a block of one token, and how they are wired.
//!
//! A block is a list of instructions. Value zero is the block's input;
//! instruction `i` gives value `i + 1` from values with smaller numbers. What the
//! kernels compute is up to whoever runs them; which kernel gets what is fixed
//! here.
use vstd::prelude::*;
use crate::attention::dsv4_ffn_block::RoutingSource;
use crate::attention::layer_program::Source;
use crate::attention::quant_dispatch::QuantFormat;
use crate::words::{contents, copy_row};

verus! {

/// A weight that a kernel reads.
#[derive(Clone, Copy, Debug, PartialEq, Eq, Structural)]
pub enum Weight {
    AttnNorm,
    AttnQkv,
    AttnGate,
    SsmBeta,
    SsmAlpha,
    SsmNorm,
    SsmOut,
    AttnQ,
    AttnK,
    AttnV,
    AttnQNorm,
    AttnKNorm,
    AttnOutput,
    QDown,
    QDownNorm,
    QUp,
    KvDown,
    KvDownNorm,
    OutputB,
    FfnNorm,
    FfnGate,
    FfnUp,
    FfnDown,
    Router,
    RouterBias,
    ExpertGate,
    ExpertUp,
    ExpertDown,
    SharedGate,
    SharedUp,
    SharedDown,
}

/// One of the three parts of a fused projection.
#[derive(Clone, Copy, Debug, PartialEq, Eq, Structural)]
pub enum Part {
    Query,
    Key,
    Value,
}

/// What one instruction computes.
#[derive(Clone, Copy, Debug, PartialEq, Eq, Structural)]
pub enum Kernel {
    /// Root-mean-square norm of a row.
    Norm(Weight),
    /// Matrix times a row.
    Project(Weight, Source),
    /// Logistic function of every value.
    Sigmoid,
    /// Decay rate of every head from its step input.
    Decay,
    /// One step of the causal convolution; moves its window on.
    Conv,
    /// Every value times its logistic function.
    Silu,
    /// A part of the fused projection, one row for every dimension.
    HeadPart(Part),
    /// Every head scaled to length one.
    UnitHeads,
    /// One step of the delta rule on queries, keys, values, decay and write
    /// strength; moves the recurrent state on.
    DeltaRule,
    /// The words head by head.
    HeadMajor,
    /// Root-mean-square norm of every head.
    HeadNorm(Weight),
    /// The first row times the second row's gated values.
    SiluGate,
    /// The queries of a projection that interleaves them with gates.
    QueryHalf,
    /// The gates of a projection that interleaves them with queries.
    GateHalf,
    /// Rotates part of every head by its position.
    Rotate { heads: usize, width: usize, position: usize },
    /// Hands its input on.
    Keep,
    /// Appends a key row and a value row to the cache.
    AppendKv,
    /// Softmax attention of the queries over the cache.
    AttendKv,
    /// The first row times the logistic function of the second.
    SigmoidGate,
    /// Appends a latent row to the cache.
    AppendLatent,
    /// Softmax attention of every head over the latent rows.
    AttendLatent,
    /// The heads' outputs side by side, each cut to its share.
    JoinHeads,
    /// Adds a weight to a row.
    AddWeight(Weight),
    /// The weighted sum of the best experts of the first row by the scores of the
    /// second, so many of them, the weights times a scale where there is one.
    RouteExperts { k: usize, scale: Option<u32> },
    /// A picked expert's fused gate and up projection.
    ExpertGateUp { expert: usize },
    /// A picked expert's down projection.
    ExpertDown { expert: usize },
    /// The weighted sum of the experts that every row goes to, with what their
    /// activation is clamped to.
    RunExperts { limit: u32 },
    /// The first row, gated, times the second.
    SwiGlu,
    /// The first row, gated, times the second, both clamped to a limit; zero
    /// clamps nothing.
    ClampedSwiGlu(u32),
    /// A whole gated feed-forward part in one call of the device, with the
    /// formats of its three projections.
    FfnBlock { gate: QuantFormat, up: QuantFormat, down: QuantFormat },
    /// The first half of the paired product of gate and up projection.
    PairGate,
    /// The second half of the paired product of gate and up projection.
    PairUp,
    /// The sum of two rows.
    Add,
    /// Which experts every token goes to, and with which weights.
    Route(RoutingSource),
    /// The expert that every token goes to; what its activation is clamped to,
    /// where it is.
    SharedExpert { limit: Option<u32> },
}

/// The values that an instruction reads.
#[derive(Clone, Copy, Debug, PartialEq, Eq, Structural)]
pub enum Args {
    One(usize),
    Two(usize, usize),
    Five(usize, usize, usize, usize, usize),
}

/// One instruction.
#[derive(Clone, Copy, Debug, PartialEq, Eq, Structural)]
pub struct Instr {
    pub kernel: Kernel,
    pub args: Args,
}

/// The numbers of the values that are read.
pub open spec fn arg_seq(a: Args) -> Seq<int> {
    match a {
        Args::One(x) => seq![x as int],
        Args::Two(x, y) => seq![x as int, y as int],
        Args::Five(v, w, x, y, z) => seq![v as int, w as int, x as int, y as int, z as int],
    }
}

/// The values that an instruction reads.
pub open spec fn read<V>(values: Seq<V>, a: Args) -> Seq<V> {
    match a {
        Args::One(x) => seq![values[x as int]],
        Args::Two(x, y) => seq![values[x as int], values[y as int]],
        Args::Five(v, w, x, y, z) => seq![
            values[v as int],
            values[w as int],
            values[x as int],
            values[y as int],
            values[z as int],
        ],
    }
}

/// What an instruction gives, where `m` says what the kernels compute.
pub open spec fn apply<V>(m: spec_fn(Kernel, Seq<V>) -> V, values: Seq<V>, i: Instr) -> V {
    m(i.kernel, read(values, i.args))
}

/// What an instruction reads stays the same where the values that it names do.
proof fn lemma_read<V>(a: Seq<V>, b: Seq<V>, args: Args, n: int)
    requires
        forall|k: int| 0 <= k < arg_seq(args).len() ==> 0 <= #[trigger] arg_seq(args)[k] < n,
        n <= a.len(),
        n <= b.len(),
        a.take(n) == b.take(n),
    ensures
        read(a, args) == read(b, args),
{
    assert forall|k: int| 0 <= k < n implies a[k] == b[k] by {
        assert(a.take(n)[k] == a[k] && b.take(n)[k] == b[k]);
    }
    match args {
        Args::One(x) => {
            assert(arg_seq(args)[0] == x);
        },
        Args::Two(x, y) => {
            assert(arg_seq(args)[0] == x && arg_seq(args)[1] == y);
        },
        Args::Five(v, w, x, y, z) => {
            assert(arg_seq(args)[0] == v && arg_seq(args)[1] == w && arg_seq(args)[2] == x
                && arg_seq(args)[3] == y && arg_seq(args)[4] == z);
        },
    }
    assert(read(a, args) =~= read(b, args));
}

/// All values of a list of instructions on an input.
pub open spec fn run_block<V>(m: spec_fn(Kernel, Seq<V>) -> V, x: V, code: Seq<Instr>) -> Seq<V>
    decreases code.len(),
{
    if code.len() == 0 {
        seq![x]
    } else {
        let before = run_block(m, x, code.drop_last());
        before.push(apply(m, before, code.last()))
    }
}

/// Every instruction reads only values that are there.
pub open spec fn well_wired(code: Seq<Instr>) -> bool {
    forall|i: int, k: int|
        0 <= i < code.len() && 0 <= k < arg_seq(code[i].args).len() ==> 0 <= #[trigger] arg_seq(
            code[i].args,
        )[k] <= i
}

/// What the block gives: its last value.
pub open spec fn block_value<V>(m: spec_fn(Kernel, Seq<V>) -> V, x: V, code: Seq<Instr>) -> V {
    run_block(m, x, code).last()
}

/// In a well-wired list every value is what its instruction makes of the values
/// that it reads.
pub proof fn lemma_values<V>(m: spec_fn(Kernel, Seq<V>) -> V, x: V, code: Seq<Instr>)
    requires
        well_wired(code),
    ensures
        run_block(m, x, code).len() == code.len() + 1,
        run_block(m, x, code)[0] == x,
        forall|i: int|
            0 <= i < code.len() ==> run_block(m, x, code)[i + 1] == #[trigger] apply(
                m,
                run_block(m, x, code),
                code[i],
            ),
    decreases code.len(),
{
    if code.len() > 0 {
        let front = code.drop_last();
        assert forall|i: int, k: int|
            0 <= i < front.len() && 0 <= k < arg_seq(front[i].args).len() implies 0
            <= #[trigger] arg_seq(front[i].args)[k] <= i by {
            assert(front[i] == code[i]);
            assert(arg_seq(code[i].args)[k] <= i);
        }
        lemma_values(m, x, front);
        let before = run_block(m, x, front);
        let all = run_block(m, x, code);
        assert forall|i: int| 0 <= i < code.len() implies all[i + 1] == #[trigger] apply(
            m,
            all,
            code[i],
        ) by {
            assert forall|k: int| 0 <= k < arg_seq(code[i].args).len() implies 0
                <= #[trigger] arg_seq(code[i].args)[k] < before.len() by {
                assert(arg_seq(code[i].args)[k] <= i);
            }
            assert(all.take(before.len() as int) =~= before.take(before.len() as int));
            lemma_read(all, before, code[i].args, before.len() as int);
            if i < front.len() {
                assert(front[i] == code[i]);
                assert(before[i + 1] == apply(m, before, front[i]));
            }
        }
    }
}

/// An instruction of one argument.
pub open spec fn one(k: Kernel, a: usize) -> Instr {
    Instr { kernel: k, args: Args::One(a) }
}

/// An instruction of two arguments.
pub open spec fn two(k: Kernel, a: usize, b: usize) -> Instr {
    Instr { kernel: k, args: Args::Two(a, b) }
}

/// The instructions of a gated linear-attention block.
pub open spec fn linear_code() -> Seq<Instr> {
    seq![
        one(Kernel::Norm(Weight::AttnNorm), 0),
        one(Kernel::Project(Weight::AttnQkv, Source::Dense), 1),
        one(Kernel::Project(Weight::AttnGate, Source::Dense), 1),
        one(Kernel::Project(Weight::SsmBeta, Source::Dense), 1),
        one(Kernel::Project(Weight::SsmAlpha, Source::Dense), 1),
        one(Kernel::Sigmoid, 4),
        one(Kernel::Decay, 5),
        one(Kernel::Conv, 2),
        one(Kernel::Silu, 8),
        one(Kernel::HeadPart(Part::Query), 9),
        one(Kernel::HeadPart(Part::Key), 9),
        one(Kernel::HeadPart(Part::Value), 9),
        one(Kernel::UnitHeads, 10),
        one(Kernel::UnitHeads, 11),
        Instr { kernel: Kernel::DeltaRule, args: Args::Five(13, 14, 12, 7, 6) },
        one(Kernel::HeadMajor, 15),
        one(Kernel::HeadNorm(Weight::SsmNorm), 16),
        two(Kernel::SiluGate, 17, 3),
        one(Kernel::Project(Weight::SsmOut, Source::Dense), 18),
    ]
}

/// What a gated linear-attention block computes of its input: queries and keys
/// scaled to length one and values go through the delta rule with the decay and
/// the write strength, and the normed result, gated, through the output
/// projection.
pub open spec fn linear_formula<V>(m: spec_fn(Kernel, Seq<V>) -> V, x: V) -> V {
    let n = m(Kernel::Norm(Weight::AttnNorm), seq![x]);
    let fused = m(Kernel::Project(Weight::AttnQkv, Source::Dense), seq![n]);
    let gate = m(Kernel::Project(Weight::AttnGate, Source::Dense), seq![n]);
    let beta = m(
        Kernel::Sigmoid,
        seq![m(Kernel::Project(Weight::SsmBeta, Source::Dense), seq![n])],
    );
    let decay = m(
        Kernel::Decay,
        seq![m(Kernel::Project(Weight::SsmAlpha, Source::Dense), seq![n])],
    );
    let mixed = m(Kernel::Silu, seq![m(Kernel::Conv, seq![fused])]);
    let q = m(Kernel::UnitHeads, seq![m(Kernel::HeadPart(Part::Query), seq![mixed])]);
    let k = m(Kernel::UnitHeads, seq![m(Kernel::HeadPart(Part::Key), seq![mixed])]);
    let v = m(Kernel::HeadPart(Part::Value), seq![mixed]);
    let o = m(Kernel::DeltaRule, seq![q, k, v, decay, beta]);
    let normed = m(Kernel::HeadNorm(Weight::SsmNorm), seq![m(Kernel::HeadMajor, seq![o])]);
    m(
        Kernel::Project(Weight::SsmOut, Source::Dense),
        seq![m(Kernel::SiluGate, seq![normed, gate])],
    )
}

/// The list of a gated linear-attention block computes the block's formula,
/// whatever the kernels mean.
pub proof fn law_linear_code_computes_the_formula<V>(m: spec_fn(Kernel, Seq<V>) -> V, x: V)
    ensures
        well_wired(linear_code()),
        block_value(m, x, linear_code()) == linear_formula(m, x),
{
    let code = linear_code();
    lemma_values(m, x, code);
    let v = run_block(m, x, code);
    assert(v[1] == apply(m, v, code[0]));
    assert(v[2] == apply(m, v, code[1]));
    assert(v[3] == apply(m, v, code[2]));
    assert(v[4] == apply(m, v, code[3]));
    assert(v[5] == apply(m, v, code[4]));
    assert(v[6] == apply(m, v, code[5]));
    assert(v[7] == apply(m, v, code[6]));
    assert(v[8] == apply(m, v, code[7]));
    assert(v[9] == apply(m, v, code[8]));
    assert(v[10] == apply(m, v, code[9]));
    assert(v[11] == apply(m, v, code[10]));
    assert(v[12] == apply(m, v, code[11]));
    assert(v[13] == apply(m, v, code[12]));
    assert(v[14] == apply(m, v, code[13]));
    assert(v[15] == apply(m, v, code[14]));
    assert(v[16] == apply(m, v, code[15]));
    assert(v[17] == apply(m, v, code[16]));
    assert(v[18] == apply(m, v, code[17]));
    assert(v[19] == apply(m, v, code[18]));
}

/// Where the four matrices of an attention block come from.
#[derive(Clone, Copy, Debug, PartialEq, Eq, Structural)]
pub struct AttnSources {
    pub q: Source,
    pub k: Source,
    pub v: Source,
    pub output: Source,
}

/// The instructions of a softmax-attention block with gated queries.
pub open spec fn attention_code(
    s: AttnSources,
    n_head: usize,
    n_head_kv: usize,
    head_dim: usize,
    position: usize,
) -> Seq<Instr> {
    seq![
        one(Kernel::Norm(Weight::AttnNorm), 0),
        one(Kernel::Project(Weight::AttnQ, s.q), 1),
        one(Kernel::Project(Weight::AttnK, s.k), 1),
        one(Kernel::Project(Weight::AttnV, s.v), 1),
        one(Kernel::QueryHalf, 2),
        one(Kernel::GateHalf, 2),
        one(Kernel::HeadNorm(Weight::AttnQNorm), 5),
        one(Kernel::HeadNorm(Weight::AttnKNorm), 3),
        one(Kernel::Rotate { heads: n_head, width: head_dim, position }, 7),
        one(Kernel::Rotate { heads: n_head_kv, width: head_dim, position }, 8),
        two(Kernel::AppendKv, 10, 4),
        two(Kernel::AttendKv, 9, 11),
        two(Kernel::SigmoidGate, 12, 6),
        one(Kernel::Project(Weight::AttnOutput, s.output), 13),
    ]
}

/// What a softmax-attention block computes of its input: normed and rotated
/// queries attend over the cache with the new row in it, normed and rotated keys
/// and plain values, and the gated result goes through the output projection.
pub open spec fn attention_formula<V>(
    m: spec_fn(Kernel, Seq<V>) -> V,
    x: V,
    s: AttnSources,
    n_head: usize,
    n_head_kv: usize,
    head_dim: usize,
    position: usize,
) -> V {
    let n = m(Kernel::Norm(Weight::AttnNorm), seq![x]);
    let fused = m(Kernel::Project(Weight::AttnQ, s.q), seq![n]);
    let key = m(Kernel::Project(Weight::AttnK, s.k), seq![n]);
    let value = m(Kernel::Project(Weight::AttnV, s.v), seq![n]);
    let q = m(
        Kernel::Rotate { heads: n_head, width: head_dim, position },
        seq![
            m(Kernel::HeadNorm(Weight::AttnQNorm), seq![m(Kernel::QueryHalf, seq![fused])]),
        ],
    );
    let k = m(
        Kernel::Rotate { heads: n_head_kv, width: head_dim, position },
        seq![m(Kernel::HeadNorm(Weight::AttnKNorm), seq![key])],
    );
    let cache = m(Kernel::AppendKv, seq![k, value]);
    let attended = m(Kernel::AttendKv, seq![q, cache]);
    let gated = m(Kernel::SigmoidGate, seq![attended, m(Kernel::GateHalf, seq![fused])]);
    m(Kernel::Project(Weight::AttnOutput, s.output), seq![gated])
}

/// The list of a softmax-attention block computes the block's formula, whatever
/// the kernels mean.
pub proof fn law_attention_code_computes_the_formula<V>(
    m: spec_fn(Kernel, Seq<V>) -> V,
    x: V,
    s: AttnSources,
    n_head: usize,
    n_head_kv: usize,
    head_dim: usize,
    position: usize,
)
    ensures
        well_wired(attention_code(s, n_head, n_head_kv, head_dim, position)),
        block_value(m, x, attention_code(s, n_head, n_head_kv, head_dim, position))
            == attention_formula(m, x, s, n_head, n_head_kv, head_dim, position),
{
    let code = attention_code(s, n_head, n_head_kv, head_dim, position);
    lemma_values(m, x, code);
    let v = run_block(m, x, code);
    assert(v[1] == apply(m, v, code[0]));
    assert(v[2] == apply(m, v, code[1]));
    assert(v[3] == apply(m, v, code[2]));
    assert(v[4] == apply(m, v, code[3]));
    assert(v[5] == apply(m, v, code[4]));
    assert(v[6] == apply(m, v, code[5]));
    assert(v[7] == apply(m, v, code[6]));
    assert(v[8] == apply(m, v, code[7]));
    assert(v[9] == apply(m, v, code[8]));
    assert(v[10] == apply(m, v, code[9]));
    assert(v[11] == apply(m, v, code[10]));
    assert(v[12] == apply(m, v, code[11]));
    assert(v[13] == apply(m, v, code[12]));
    assert(v[14] == apply(m, v, code[13]));
}

/// The rotary step of a row of some heads: the rotation where some dimensions
/// are rotated and not more than there are, else nothing.
pub open spec fn rotation(rope_dim: usize, heads: usize, width: usize, position: usize) -> Kernel {
    if 0 < rope_dim <= width {
        Kernel::Rotate { heads, width, position }
    } else {
        Kernel::Keep
    }
}

/// The instructions of a latent-attention block.
pub open spec fn latent_code(
    rope_dim: usize,
    n_heads: usize,
    head_dim: usize,
    kv_lora_rank: usize,
    position: usize,
) -> Seq<Instr> {
    seq![
        one(Kernel::Norm(Weight::AttnNorm), 0),
        one(Kernel::Project(Weight::QDown, Source::Quant), 1),
        one(Kernel::Norm(Weight::QDownNorm), 2),
        one(Kernel::Project(Weight::QUp, Source::Quant), 3),
        one(rotation(rope_dim, n_heads, head_dim, position), 4),
        one(Kernel::Project(Weight::KvDown, Source::Quant), 1),
        one(Kernel::Norm(Weight::KvDownNorm), 6),
        one(rotation(rope_dim, 1, kv_lora_rank, position), 7),
        one(Kernel::AppendLatent, 8),
        two(Kernel::AttendLatent, 5, 9),
        one(Kernel::JoinHeads, 10),
        one(Kernel::Project(Weight::OutputB, Source::Quant), 11),
    ]
}

/// What a latent-attention block computes of its input: rotated queries, led
/// down and up again, attend over the latent rows with the new one in it, and
/// the heads' shares go through the output projection.
pub open spec fn latent_formula<V>(
    m: spec_fn(Kernel, Seq<V>) -> V,
    x: V,
    rope_dim: usize,
    n_heads: usize,
    head_dim: usize,
    kv_lora_rank: usize,
    position: usize,
) -> V {
    let n = m(Kernel::Norm(Weight::AttnNorm), seq![x]);
    let down = m(
        Kernel::Norm(Weight::QDownNorm),
        seq![m(Kernel::Project(Weight::QDown, Source::Quant), seq![n])],
    );
    let q = m(
        rotation(rope_dim, n_heads, head_dim, position),
        seq![m(Kernel::Project(Weight::QUp, Source::Quant), seq![down])],
    );
    let latent = m(
        rotation(rope_dim, 1, kv_lora_rank, position),
        seq![
            m(
                Kernel::Norm(Weight::KvDownNorm),
                seq![m(Kernel::Project(Weight::KvDown, Source::Quant), seq![n])],
            ),
        ],
    );
    let heads = m(Kernel::AttendLatent, seq![q, m(Kernel::AppendLatent, seq![latent])]);
    m(
        Kernel::Project(Weight::OutputB, Source::Quant),
        seq![m(Kernel::JoinHeads, seq![heads])],
    )
}

/// The list of a latent-attention block computes the block's formula, whatever
/// the kernels mean.
pub proof fn law_latent_code_computes_the_formula<V>(
    m: spec_fn(Kernel, Seq<V>) -> V,
    x: V,
    rope_dim: usize,
    n_heads: usize,
    head_dim: usize,
    kv_lora_rank: usize,
    position: usize,
)
    ensures
        well_wired(latent_code(rope_dim, n_heads, head_dim, kv_lora_rank, position)),
        block_value(m, x, latent_code(rope_dim, n_heads, head_dim, kv_lora_rank, position))
            == latent_formula(m, x, rope_dim, n_heads, head_dim, kv_lora_rank, position),
{
    let code = latent_code(rope_dim, n_heads, head_dim, kv_lora_rank, position);
    lemma_values(m, x, code);
    let v = run_block(m, x, code);
    assert(v[1] == apply(m, v, code[0]));
    assert(v[2] == apply(m, v, code[1]));
    assert(v[3] == apply(m, v, code[2]));
    assert(v[4] == apply(m, v, code[3]));
    assert(v[5] == apply(m, v, code[4]));
    assert(v[6] == apply(m, v, code[5]));
    assert(v[7] == apply(m, v, code[6]));
    assert(v[8] == apply(m, v, code[7]));
    assert(v[9] == apply(m, v, code[8]));
    assert(v[10] == apply(m, v, code[9]));
    assert(v[11] == apply(m, v, code[10]));
    assert(v[12] == apply(m, v, code[11]));
}

/// The instructions of a feed-forward block: routed experts and the shared one
/// on the same normed rows, added up.
pub open spec fn ffn_block_code(routing: RoutingSource, routed: u32, shared: u32) -> Seq<Instr> {
    seq![
        one(Kernel::Norm(Weight::FfnNorm), 0),
        one(Kernel::Route(routing), 1),
        two(Kernel::RunExperts { limit: routed }, 1, 2),
        one(Kernel::SharedExpert { limit: Some(shared) }, 1),
        two(Kernel::Add, 3, 4),
    ]
}

/// A feed-forward block computes routed experts plus shared expert of the normed
/// rows, each clamped to its limit, whatever the kernels mean.
pub proof fn law_ffn_block_code_computes_the_formula<V>(
    m: spec_fn(Kernel, Seq<V>) -> V,
    x: V,
    routing: RoutingSource,
    routed: u32,
    shared: u32,
)
    ensures
        well_wired(ffn_block_code(routing, routed, shared)),
        ({
            let n = m(Kernel::Norm(Weight::FfnNorm), seq![x]);
            let r = m(
                Kernel::RunExperts { limit: routed },
                seq![n, m(Kernel::Route(routing), seq![n])],
            );
            block_value(m, x, ffn_block_code(routing, routed, shared)) == m(
                Kernel::Add,
                seq![r, m(Kernel::SharedExpert { limit: Some(shared) }, seq![n])],
            )
        }),
{
    let code = ffn_block_code(routing, routed, shared);
    lemma_values(m, x, code);
    let v = run_block(m, x, code);
    assert(v[1] == apply(m, v, code[0]));
    assert(v[2] == apply(m, v, code[1]));
    assert(v[3] == apply(m, v, code[2]));
    assert(v[4] == apply(m, v, code[3]));
    assert(v[5] == apply(m, v, code[4]));
}

/// What is added to the router's scores.
pub open spec fn router_bias(has_bias: bool) -> Kernel {
    if has_bias {
        Kernel::AddWeight(Weight::RouterBias)
    } else {
        Kernel::Keep
    }
}

/// The instructions of the experts of one token.
pub open spec fn moe_code(has_bias: bool, k: usize, scale: u32) -> Seq<Instr> {
    seq![
        one(Kernel::Project(Weight::Router, Source::Quant), 0),
        one(router_bias(has_bias), 1),
        two(Kernel::RouteExperts { k, scale: Some(scale) }, 0, 2),
        one(Kernel::Project(Weight::SharedGate, Source::Quant), 0),
        one(Kernel::Project(Weight::SharedUp, Source::Quant), 0),
        two(Kernel::SwiGlu, 4, 5),
        one(Kernel::Project(Weight::SharedDown, Source::Quant), 6),
        two(Kernel::Add, 3, 7),
    ]
}

/// The experts of one token compute the picked experts plus the shared expert,
/// whatever the kernels mean.
pub proof fn law_moe_code_computes_the_formula<V>(
    m: spec_fn(Kernel, Seq<V>) -> V,
    x: V,
    has_bias: bool,
    k: usize,
    scale: u32,
)
    ensures
        well_wired(moe_code(has_bias, k, scale)),
        ({
            let scores = m(
                router_bias(has_bias),
                seq![m(Kernel::Project(Weight::Router, Source::Quant), seq![x])],
            );
            let routed = m(Kernel::RouteExperts { k, scale: Some(scale) }, seq![x, scores]);
            let gate = m(Kernel::Project(Weight::SharedGate, Source::Quant), seq![x]);
            let up = m(Kernel::Project(Weight::SharedUp, Source::Quant), seq![x]);
            let shared = m(
                Kernel::Project(Weight::SharedDown, Source::Quant),
                seq![m(Kernel::SwiGlu, seq![gate, up])],
            );
            block_value(m, x, moe_code(has_bias, k, scale)) == m(Kernel::Add, seq![routed, shared])
        }),
{
    let code = moe_code(has_bias, k, scale);
    lemma_values(m, x, code);
    let v = run_block(m, x, code);
    assert(v[1] == apply(m, v, code[0]));
    assert(v[2] == apply(m, v, code[1]));
    assert(v[3] == apply(m, v, code[2]));
    assert(v[4] == apply(m, v, code[3]));
    assert(v[5] == apply(m, v, code[4]));
    assert(v[6] == apply(m, v, code[5]));
    assert(v[7] == apply(m, v, code[6]));
    assert(v[8] == apply(m, v, code[7]));
}

/// The instructions of a gated feed-forward part whose products and activation
/// come from some kernels.
pub open spec fn gated_code(gate: Kernel, up: Kernel, act: Kernel, down: Kernel) -> Seq<Instr> {
    seq![one(gate, 0), one(up, 0), two(act, 1, 2), one(down, 3)]
}

/// A gated feed-forward part computes the down projection of the gated product,
/// whatever the kernels mean.
pub proof fn law_gated_code_computes_the_formula<V>(
    m: spec_fn(Kernel, Seq<V>) -> V,
    x: V,
    gate: Kernel,
    up: Kernel,
    act: Kernel,
    down: Kernel,
)
    ensures
        well_wired(gated_code(gate, up, act, down)),
        block_value(m, x, gated_code(gate, up, act, down)) == m(
            down,
            seq![m(act, seq![m(gate, seq![x]), m(up, seq![x])])],
        ),
{
    let code = gated_code(gate, up, act, down);
    lemma_values(m, x, code);
    let v = run_block(m, x, code);
    assert(v[1] == apply(m, v, code[0]));
    assert(v[2] == apply(m, v, code[1]));
    assert(v[3] == apply(m, v, code[2]));
    assert(v[4] == apply(m, v, code[3]));
}

/// The instructions of the routed experts of one token, with the shared expert
/// where there is one.
pub open spec fn routed_code(k: usize, shared: bool) -> Seq<Instr> {
    let routed = seq![
        one(Kernel::Project(Weight::Router, Source::Quant), 0),
        two(Kernel::RouteExperts { k, scale: None }, 0, 1),
    ];
    if shared {
        routed + seq![one(Kernel::SharedExpert { limit: None }, 0), two(Kernel::Add, 2, 3)]
    } else {
        routed
    }
}

/// The routed experts of one token compute the weighted sum of the best experts,
/// plus the shared expert where there is one, whatever the kernels mean.
pub proof fn law_routed_code_computes_the_formula<V>(
    m: spec_fn(Kernel, Seq<V>) -> V,
    x: V,
    k: usize,
    shared: bool,
)
    ensures
        well_wired(routed_code(k, shared)),
        ({
            let scores = m(Kernel::Project(Weight::Router, Source::Quant), seq![x]);
            let routed = m(Kernel::RouteExperts { k, scale: None }, seq![x, scores]);
            block_value(m, x, routed_code(k, shared)) == (if shared {
                m(Kernel::Add, seq![routed, m(Kernel::SharedExpert { limit: None }, seq![x])])
            } else {
                routed
            })
        }),
{
    let code = routed_code(k, shared);
    lemma_values(m, x, code);
    let v = run_block(m, x, code);
    assert(v[1] == apply(m, v, code[0]));
    assert(v[2] == apply(m, v, code[1]));
    if shared {
        assert(v[3] == apply(m, v, code[2]));
        assert(v[4] == apply(m, v, code[3]));
    }
}

/// What a layer's kernels may make of some arguments. The kernels are whatever
/// the caller brings.
pub open spec fn may_give<F: Fn(usize, Kernel, Vec<Vec<u32>>) -> Vec<u32>>(
    kernels: F,
    layer: usize,
    k: Kernel,
    args: Seq<Seq<u32>>,
    out: Seq<u32>,
) -> bool {
    exists|a: Vec<Vec<u32>>, r: Vec<u32>|
        #[trigger] call_ensures(kernels, (layer, k, a), r) && contents(a@) == args && r@ == out
}

/// What a kernel of a layer may make of two rows.
pub open spec fn rows_given<F: Fn(usize, Kernel, Vec<Vec<u32>>) -> Vec<u32>>(
    kernels: F,
    layer: usize,
    k: Kernel,
    a: Seq<u32>,
    b: Seq<u32>,
    y: Seq<u32>,
) -> bool {
    may_give(kernels, layer, k, seq![a, b], y)
}

/// What a step may make of some arguments: a kernel's result, or the first of the
/// arguments where the step hands it on.
pub open spec fn step_gives<F: Fn(usize, Kernel, Vec<Vec<u32>>) -> Vec<u32>>(
    kernels: F,
    layer: usize,
    k: Kernel,
    args: Seq<Seq<u32>>,
    out: Seq<u32>,
) -> bool {
    if k is Keep {
        out == args[0]
    } else {
        may_give(kernels, layer, k, args, out)
    }
}

/// The instructions from one number to before another gave the values behind
/// them: each is one that its step may make of the values that it reads.
pub open spec fn follows<F: Fn(usize, Kernel, Vec<Vec<u32>>) -> Vec<u32>>(
    kernels: F,
    layer: usize,
    code: Seq<Instr>,
    values: Seq<Seq<u32>>,
    from: int,
    to: int,
) -> bool {
    forall|i: int|
        from <= i < to ==> step_gives(
            kernels,
            layer,
            (#[trigger] code[i]).kernel,
            read(values, code[i].args),
            values[i + 1],
        )
}

/// Instructions gave their values also in a longer list of values.
pub proof fn lemma_follows_carries<F: Fn(usize, Kernel, Vec<Vec<u32>>) -> Vec<u32>>(
    kernels: F,
    layer: usize,
    code: Seq<Instr>,
    short: Seq<Seq<u32>>,
    long: Seq<Seq<u32>>,
    from: int,
    to: int,
)
    requires
        well_wired(code),
        0 <= from,
        to <= code.len(),
        to < short.len() <= long.len(),
        forall|i: int| 0 <= i <= to ==> short[i] == #[trigger] long[i],
        follows(kernels, layer, code, short, from, to),
    ensures
        follows(kernels, layer, code, long, from, to),
{
    assert forall|i: int| from <= i < to implies step_gives(
        kernels,
        layer,
        (#[trigger] code[i]).kernel,
        read(long, code[i].args),
        long[i + 1],
    ) by {
        assert forall|k: int| 0 <= k < arg_seq(code[i].args).len() implies 0 <= #[trigger] arg_seq(
            code[i].args,
        )[k] < i + 1 by {
            assert(arg_seq(code[i].args)[k] <= i);
        }
        assert(short.take(i + 1) =~= long.take(i + 1)) by {
            assert forall|k: int| 0 <= k < i + 1 implies short[k] == long[k] by {
                let x = long[k];
            }
        }
        lemma_read(short, long, code[i].args, i + 1);
        let y = long[i + 1];
    }
}

/// Copies of the values that an instruction reads.
fn read_args(values: &Vec<Vec<u32>>, args: Args) -> (a: Vec<Vec<u32>>)
    requires
        forall|k: int|
            0 <= k < arg_seq(args).len() ==> 0 <= #[trigger] arg_seq(args)[k] < values@.len(),
    ensures
        a@.len() > 0,
        contents(a@) == read(contents(values@), args),
{
    let mut a: Vec<Vec<u32>> = Vec::new();
    match args {
        Args::One(x) => {
            assert(arg_seq(args)[0] == x);
            a.push(copy_row(&values[x]));
        },
        Args::Two(x, y) => {
            assert(arg_seq(args)[0] == x && arg_seq(args)[1] == y);
            a.push(copy_row(&values[x]));
            a.push(copy_row(&values[y]));
        },
        Args::Five(v, w, x, y, z) => {
            assert(arg_seq(args)[0] == v && arg_seq(args)[1] == w && arg_seq(args)[2] == x
                && arg_seq(args)[3] == y && arg_seq(args)[4] == z);
            a.push(copy_row(&values[v]));
            a.push(copy_row(&values[w]));
            a.push(copy_row(&values[x]));
            a.push(copy_row(&values[y]));
            a.push(copy_row(&values[z]));
        },
    }
    assert(contents(a@) =~= read(contents(values@), args));
    a
}

/// Calls a kernel of a layer.
pub fn call_kernel<F: Fn(usize, Kernel, Vec<Vec<u32>>) -> Vec<u32>>(
    kernels: &F,
    layer: usize,
    kernel: Kernel,
    args: Vec<Vec<u32>>,
) -> (out: Vec<u32>)
    requires
        call_requires(*kernels, (layer, kernel, args)),
    ensures
        may_give(*kernels, layer, kernel, contents(args@), out@),
{
    let ghost given = args;
    let out: Vec<u32> = kernels(layer, kernel, args);
    assert(call_ensures(*kernels, (layer, kernel, given), out));
    out
}

/// Runs the instructions of a list that come next, up to before number `to`. A
/// step that hands its input on calls no kernel.
pub fn run_kernels<F: Fn(usize, Kernel, Vec<Vec<u32>>) -> Vec<u32>>(
    code: &Vec<Instr>,
    to: usize,
    layer: usize,
    values: &mut Vec<Vec<u32>>,
    kernels: &F,
)
    requires
        well_wired(code@),
        1 <= old(values)@.len() <= to + 1 <= code@.len() + 1,
        forall|k: Kernel, a: Vec<Vec<u32>>| call_requires(*kernels, (layer, k, a)),
    ensures
        final(values)@.len() == to + 1,
        contents(final(values)@).take(old(values)@.len() as int) == contents(old(values)@),
        follows(
            *kernels,
            layer,
            code@,
            contents(final(values)@),
            old(values)@.len() - 1,
            to as int,
        ),
{
    let ghost before = values@;
    let mut i: usize = values.len() - 1;
    assert(contents(values@).take(before.len() as int) =~= contents(before));
    while i < to
        invariant
            before.len() - 1 <= i <= to <= code@.len(),
            1 <= before.len(),
            values@.len() == i + 1,
            well_wired(code@),
            forall|k: Kernel, a: Vec<Vec<u32>>| call_requires(*kernels, (layer, k, a)),
            contents(values@).take(before.len() as int) == contents(before),
            follows(*kernels, layer, code@, contents(values@), before.len() - 1, i as int),
        decreases to - i,
    {
        let instr: Instr = code[i];
        let ghost all = contents(values@);
        assert forall|k: int| 0 <= k < arg_seq(instr.args).len() implies 0 <= #[trigger] arg_seq(
            instr.args,
        )[k] < values@.len() by {
            assert(arg_seq(code@[i as int].args)[k] <= i);
        }
        let args: Vec<Vec<u32>> = read_args(values, instr.args);
        let ghost given = args;
        let out: Vec<u32> = match instr.kernel {
            Kernel::Keep => copy_row(&args[0]),
            kernel => call_kernel(kernels, layer, kernel, args),
        };
        values.push(out);
        proof {
            let now = contents(values@);
            assert forall|j: int| before.len() - 1 <= j < i + 1 implies step_gives(
                *kernels,
                layer,
                (#[trigger] code@[j]).kernel,
                read(now, code@[j].args),
                now[j + 1],
            ) by {
                assert forall|k: int| 0 <= k < arg_seq(code@[j].args).len() implies 0
                    <= #[trigger] arg_seq(code@[j].args)[k] < i + 1 by {
                    assert(arg_seq(code@[j].args)[k] <= j);
                }
                assert(now.take(i + 1) =~= all.take(i + 1));
                lemma_read(now, all, code@[j].args, i + 1);
                if j < i {
                    assert(now[j + 1] == all[j + 1]);
                } else {
                    assert(contents(given@) == read(now, code@[j].args));
                    assert(now[j + 1] == out@);
                }
            }
            assert(now.take(before.len() as int) =~= all.take(before.len() as int));
        }
        i = i + 1;
    }
}

// ---- running a list on any values ------------------------------------------

/// The values that are referred to.
pub open spec fn referred<V>(a: Seq<&V>) -> Seq<V> {
    a.map_values(|r: &V| *r)
}

/// What the kernels of a part of the model, a layer or an expert, may make of some
/// values of any kind: rows, tables, picks. The kernels are whatever the caller
/// brings.
pub open spec fn value_given<V, F: Fn(usize, Kernel, Vec<&V>) -> V>(
    kernels: F,
    part: usize,
    k: Kernel,
    args: Seq<V>,
    out: V,
) -> bool {
    exists|a: Vec<&V>| #[trigger] call_ensures(kernels, (part, k, a), out) && referred(a@) == args
}

/// What the kernels of a part may make of one value.
pub open spec fn one_given<V, F: Fn(usize, Kernel, Vec<&V>) -> V>(
    kernels: F,
    part: usize,
    k: Kernel,
    a: V,
    out: V,
) -> bool {
    value_given(kernels, part, k, seq![a], out)
}

/// What the kernels of a part may make of two values.
pub open spec fn two_given<V, F: Fn(usize, Kernel, Vec<&V>) -> V>(
    kernels: F,
    part: usize,
    k: Kernel,
    a: V,
    b: V,
    out: V,
) -> bool {
    value_given(kernels, part, k, seq![a, b], out)
}

/// The values of a list that ran on `x`: each is what a kernel may make of the
/// values that the instruction reads, or the first of them where the instruction
/// hands it on.
pub open spec fn code_ran<V, F: Fn(usize, Kernel, Vec<&V>) -> V>(
    kernels: F,
    part: usize,
    code: Seq<Instr>,
    x: V,
    values: Seq<V>,
) -> bool {
    &&& values.len() == code.len() + 1
    &&& values[0] == x
    &&& forall|i: int|
        0 <= i < code.len() ==> if (#[trigger] code[i]).kernel is Keep {
            values[i + 1] == read(values, code[i].args)[0]
        } else {
            value_given(kernels, part, code[i].kernel, read(values, code[i].args), values[i + 1])
        }
}

/// A list may give `y` on `x`: the last of the values of such a run.
pub open spec fn code_gives<V, F: Fn(usize, Kernel, Vec<&V>) -> V>(
    kernels: F,
    part: usize,
    code: Seq<Instr>,
    x: V,
    y: V,
) -> bool {
    exists|values: Seq<V>| #[trigger]
        code_ran(kernels, part, code, x, values) && y == values.last()
}

/// The kernels compute what `m` says, and handing on is handing on in `m` too.
pub open spec fn kernels_mean<V, F: Fn(usize, Kernel, Vec<&V>) -> V>(
    kernels: F,
    part: usize,
    m: spec_fn(Kernel, Seq<V>) -> V,
) -> bool {
    &&& forall|k: Kernel, args: Seq<V>, out: V| #[trigger]
        value_given(kernels, part, k, args, out) ==> out == m(k, args)
    &&& forall|args: Seq<V>| #[trigger] m(Kernel::Keep, args) == args[0]
}

/// What a list gives with kernels of a meaning is the block's value: by the law of
/// its code, the block's formula.
pub proof fn law_run_computes_the_block<V, F: Fn(usize, Kernel, Vec<&V>) -> V>(
    kernels: F,
    part: usize,
    m: spec_fn(Kernel, Seq<V>) -> V,
    code: Seq<Instr>,
    x: V,
    y: V,
)
    requires
        well_wired(code),
        code_gives(kernels, part, code, x, y),
        kernels_mean(kernels, part, m),
    ensures
        y == block_value(m, x, code),
{
    let values = choose|values: Seq<V>| #[trigger]
        code_ran(kernels, part, code, x, values) && y == values.last();
    lemma_values(m, x, code);
    lemma_same_value(kernels, part, m, code, x, values, code.len() as int);
}

proof fn lemma_same_value<V, F: Fn(usize, Kernel, Vec<&V>) -> V>(
    kernels: F,
    part: usize,
    m: spec_fn(Kernel, Seq<V>) -> V,
    code: Seq<Instr>,
    x: V,
    values: Seq<V>,
    i: int,
)
    requires
        0 <= i < values.len(),
        well_wired(code),
        code_ran(kernels, part, code, x, values),
        kernels_mean(kernels, part, m),
    ensures
        values[i] == run_block(m, x, code)[i],
    decreases i,
{
    lemma_values(m, x, code);
    let all = run_block(m, x, code);
    if i > 0 {
        assert forall|k: int| 0 <= k < i implies values[k] == all[k] by {
            lemma_same_value(kernels, part, m, code, x, values, k);
        }
        let step = code[i - 1];
        assert forall|k: int| 0 <= k < arg_seq(step.args).len() implies 0 <= #[trigger] arg_seq(
            step.args,
        )[k] < i by {
            assert(arg_seq(code[i - 1].args)[k] <= i - 1);
        }
        assert(values.take(i) =~= all.take(i));
        lemma_read(values, all, step.args, i);
        assert(all[i - 1 + 1] == apply(m, all, step));
    }
}

/// Calls a kernel of a part on one value.
pub fn call_one_value<V, F: Fn(usize, Kernel, Vec<&V>) -> V>(
    kernels: &F,
    part: usize,
    kernel: Kernel,
    a: &V,
) -> (y: V)
    requires
        forall|k: Kernel, v: Vec<&V>| call_requires(*kernels, (part, k, v)),
    ensures
        one_given(*kernels, part, kernel, *a, y),
{
    let mut args: Vec<&V> = Vec::new();
    args.push(a);
    let ghost handed = args;
    assert(referred(handed@) =~= seq![*a]);
    let y: V = kernels(part, kernel, args);
    assert(call_ensures(*kernels, (part, kernel, handed), y));
    y
}

/// Calls a kernel of a part on two values.
pub fn call_two_values<V, F: Fn(usize, Kernel, Vec<&V>) -> V>(
    kernels: &F,
    part: usize,
    kernel: Kernel,
    a: &V,
    b: &V,
) -> (y: V)
    requires
        forall|k: Kernel, v: Vec<&V>| call_requires(*kernels, (part, k, v)),
    ensures
        two_given(*kernels, part, kernel, *a, *b, y),
{
    let mut args: Vec<&V> = Vec::new();
    args.push(a);
    args.push(b);
    let ghost handed = args;
    assert(referred(handed@) =~= seq![*a, *b]);
    let y: V = kernels(part, kernel, args);
    assert(call_ensures(*kernels, (part, kernel, handed), y));
    y
}

/// References to the values that an instruction reads: value `i` is the one at
/// `at[i]`.
fn refer<'a, V>(store: &'a Vec<V>, at: &Vec<usize>, args: Args) -> (a: Vec<&'a V>)
    requires
        forall|i: int| 0 <= i < at@.len() ==> (#[trigger] at@[i]) < store@.len(),
        forall|k: int| 0 <= k < arg_seq(args).len() ==> 0 <= #[trigger] arg_seq(args)[k] < at@.len(),
    ensures
        referred(a@) == read(placed(store@, at@), args),
{
    let mut a: Vec<&'a V> = Vec::new();
    match args {
        Args::One(x) => {
            assert(arg_seq(args)[0] == x);
            a.push(&store[at[x]]);
        },
        Args::Two(x, y) => {
            assert(arg_seq(args)[0] == x && arg_seq(args)[1] == y);
            a.push(&store[at[x]]);
            a.push(&store[at[y]]);
        },
        Args::Five(v, w, x, y, z) => {
            assert(arg_seq(args)[0] == v && arg_seq(args)[1] == w && arg_seq(args)[2] == x
                && arg_seq(args)[3] == y && arg_seq(args)[4] == z);
            a.push(&store[at[v]]);
            a.push(&store[at[w]]);
            a.push(&store[at[x]]);
            a.push(&store[at[y]]);
            a.push(&store[at[z]]);
        },
    }
    assert(referred(a@) =~= read(placed(store@, at@), args));
    a
}

/// The number of the first value that an instruction reads.
fn first_arg(args: Args) -> (i: usize)
    ensures
        i == arg_seq(args)[0],
{
    match args {
        Args::One(x) => x,
        Args::Two(x, _) => x,
        Args::Five(v, _, _, _, _) => v,
    }
}

/// The values at some places.
spec fn placed<V>(store: Seq<V>, at: Seq<usize>) -> Seq<V> {
    Seq::new(at.len(), |i: int| store[at[i] as int])
}

/// Runs a list on an input of any kind: every instruction on the values that it
/// names, in order. The result is the last value. An instruction that hands its
/// input on calls no kernel.
pub fn run_code<V, F: Fn(usize, Kernel, Vec<&V>) -> V>(
    code: &Vec<Instr>,
    part: usize,
    x: V,
    kernels: &F,
) -> (y: V)
    requires
        well_wired(code@),
        forall|k: Kernel, a: Vec<&V>| call_requires(*kernels, (part, k, a)),
    ensures
        code_gives(*kernels, part, code@, x, y),
{
    let ghost given = x;
    let mut store: Vec<V> = Vec::new();
    let mut at: Vec<usize> = Vec::new();
    store.push(x);
    at.push(0);
    let mut i: usize = 0;
    while i < code.len()
        invariant
            i <= code@.len(),
            at@.len() == i + 1,
            forall|j: int| 0 <= j < at@.len() ==> (#[trigger] at@[j]) < store@.len(),
            well_wired(code@),
            forall|k: Kernel, a: Vec<&V>| call_requires(*kernels, (part, k, a)),
            code_ran(*kernels, part, code@.take(i as int), given, placed(store@, at@)),
        decreases code@.len() - i,
    {
        let instr: Instr = code[i];
        let ghost before = placed(store@, at@);
        assert forall|k: int| 0 <= k < arg_seq(instr.args).len() implies 0 <= #[trigger] arg_seq(
            instr.args,
        )[k] < at@.len() by {
            assert(arg_seq(code@[i as int].args)[k] <= i);
        }
        match instr.kernel {
            Kernel::Keep => {
                let first: usize = first_arg(instr.args);
                assert(arg_seq(instr.args)[0] < at@.len());
                let place: usize = at[first];
                at.push(place);
            },
            kernel => {
                let args: Vec<&V> = refer(&store, &at, instr.args);
                let ghost handed = args;
                let place: usize = store.len();
                let out: V = kernels(part, kernel, args);
                assert(call_ensures(*kernels, (part, kernel, handed), out));
                store.push(out);
                at.push(place);
            },
        }
        proof {
            let after = placed(store@, at@);
            let now = code@.take(i + 1);
            assert(after.take(i + 1) =~= before.take(i + 1));
            assert forall|j: int| 0 <= j < i + 1 implies if (#[trigger] now[j]).kernel is Keep {
                after[j + 1] == read(after, now[j].args)[0]
            } else {
                value_given(*kernels, part, now[j].kernel, read(after, now[j].args), after[j + 1])
            } by {
                assert forall|k: int| 0 <= k < arg_seq(now[j].args).len() implies 0
                    <= #[trigger] arg_seq(now[j].args)[k] < i + 1 by {
                    assert(arg_seq(code@[j].args)[k] <= j);
                }
                lemma_read(after, before, now[j].args, i + 1);
                if j < i {
                    assert(code@.take(i as int)[j] == now[j]);
                    assert(after[j + 1] == before[j + 1]);
                }
            }
            assert(after[0] == before[0]);
        }
        i = i + 1;
    }
    proof {
        assert(code@.take(i as int) =~= code@);
        assert(code_ran(*kernels, part, code@, given, placed(store@, at@)));
    }
    let last: usize = at[i];
    store.swap_remove(last)
}

/// Appends an instruction of one argument.
pub fn push_one(code: &mut Vec<Instr>, kernel: Kernel, a: usize)
    ensures
        final(code)@ == old(code)@.push(one(kernel, a)),
{
    code.push(Instr { kernel, args: Args::One(a) });
}

/// Appends an instruction of two arguments.
pub fn push_two(code: &mut Vec<Instr>, kernel: Kernel, a: usize, b: usize)
    ensures
        final(code)@ == old(code)@.push(two(kernel, a, b)),
{
    code.push(Instr { kernel, args: Args::Two(a, b) });
}

/// What a layer's kernels may give is what a call of them with the layer, the kernel
/// and the rows gives.
pub proof fn law_given_rows_come_from_a_call<F: Fn(usize, Kernel, Vec<Vec<u32>>) -> Vec<u32>>(
    kernels: F,
    layer: usize,
    k: Kernel,
    args: Seq<Seq<u32>>,
    out: Seq<u32>,
)
    requires
        may_give(kernels, layer, k, args, out),
    ensures
        exists|a: Vec<Vec<u32>>, r: Vec<u32>|
            {
                &&& #[trigger] call_ensures(kernels, (layer, k, a), r)
                &&& r@ == out
                &&& a@.len() == args.len()
                &&& forall|i: int| 0 <= i < args.len() ==> (#[trigger] a@[i])@ == args[i]
            },
{
    let (a, r) = choose|a: Vec<Vec<u32>>, r: Vec<u32>|
        #[trigger] call_ensures(kernels, (layer, k, a), r) && contents(a@) == args && r@ == out;
    assert(contents(a@).len() == a@.len());
    assert forall|i: int| 0 <= i < args.len() implies (#[trigger] a@[i])@ == args[i] by {
        assert(contents(a@)[i] == a@[i]@);
    }
}

/// What a part's kernels may give is what a call of them with the part, the kernel
/// and references to the values gives.
pub proof fn law_given_value_comes_from_a_call<V, F: Fn(usize, Kernel, Vec<&V>) -> V>(
    kernels: F,
    part: usize,
    k: Kernel,
    args: Seq<V>,
    out: V,
)
    requires
        value_given(kernels, part, k, args, out),
    ensures
        exists|a: Vec<&V>|
            {
                &&& #[trigger] call_ensures(kernels, (part, k, a), out)
                &&& a@.len() == args.len()
                &&& forall|i: int| 0 <= i < args.len() ==> *(#[trigger] a@[i]) == args[i]
            },
{
    let a = choose|a: Vec<&V>| #[trigger]
        call_ensures(kernels, (part, k, a), out) && referred(a@) == args;
    assert(referred(a@).len() == a@.len());
    assert forall|i: int| 0 <= i < args.len() implies *(#[trigger] a@[i]) == args[i] by {
        assert(referred(a@)[i] == *a@[i]);
    }
}

/// A gated feed-forward part that ran on `x` and gave `y`: gate and up projection are
/// of the input, the activation gets them in this order, and what it gives is led down.
pub proof fn law_gated_code_steps<V, F: Fn(usize, Kernel, Vec<&V>) -> V>(
    kernels: F,
    part: usize,
    gate: Kernel,
    up: Kernel,
    act: Kernel,
    down: Kernel,
    x: V,
    y: V,
)
    requires
        !(gate is Keep) && !(up is Keep) && !(act is Keep) && !(down is Keep),
        code_gives(kernels, part, gated_code(gate, up, act, down), x, y),
    ensures
        exists|g: V, u: V, a: V|
            {
                &&& #[trigger] one_given(kernels, part, gate, x, g)
                &&& #[trigger] one_given(kernels, part, up, x, u)
                &&& #[trigger] two_given(kernels, part, act, g, u, a)
                &&& one_given(kernels, part, down, a, y)
            },
{
    let code = gated_code(gate, up, act, down);
    let v = choose|values: Seq<V>| #[trigger]
        code_ran(kernels, part, code, x, values) && y == values.last();
    assert(value_given(kernels, part, code[0].kernel, read(v, code[0].args), v[1]));
    assert(value_given(kernels, part, code[1].kernel, read(v, code[1].args), v[2]));
    assert(value_given(kernels, part, code[2].kernel, read(v, code[2].args), v[3]));
    assert(value_given(kernels, part, code[3].kernel, read(v, code[3].args), v[4]));
    assert(one_given(kernels, part, gate, x, v[1]));
    assert(one_given(kernels, part, up, x, v[2]));
    assert(two_given(kernels, part, act, v[1], v[2], v[3]));
    assert(one_given(kernels, part, down, v[3], y));
}

} // verus!
