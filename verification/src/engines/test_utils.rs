//! Synthetic fixtures: small models whose weights come from a counter-free
//! generator, and a vocabulary to go with them.
//!
//! A weight is drawn as a 32-bit word; whoever builds the model spreads the word
//! evenly over the weight's range.
use vstd::prelude::*;
use vstd::string::*;
use crate::tensor::{Matrix, as_rows, matrix_indexable};
use crate::text::{decimal, decimal_text, law_decimal_tells_numbers};

verus! {

/// The multiplier of the generator.
pub const LCG_MUL: u64 = 6364136223846793005;

/// The increment of the generator.
pub const LCG_ADD: u64 = 1442695040888963407;

/// The step between the seeds of neighbouring tensors.
pub const SEED_STEP: u64 = 0x9e37_79b9_7f4a_7c15;

/// The pattern of one.
pub const ONE: u32 = 0x3f80_0000;

/// The pattern of one hundredth.
pub const HUNDREDTH: u32 = 0x3c23_d70a;

/// The sizes of a synthetic model.
#[derive(Clone, Copy, Debug, PartialEq, Eq, Structural)]
pub struct SyntheticDims {
    pub vocab: usize,
    pub hidden: usize,
    pub intermediate: usize,
    pub num_q_heads: usize,
    pub num_kv_heads: usize,
    pub head_dim: usize,
    pub num_layers: usize,
}

impl SyntheticDims {
    /// Two narrow layers, for unit tests.
    pub fn tiny() -> (d: Self)
        ensures
            d == (SyntheticDims {
                vocab: 32,
                hidden: 16,
                intermediate: 32,
                num_q_heads: 2,
                num_kv_heads: 1,
                head_dim: 8,
                num_layers: 2,
            }),
    {
        SyntheticDims {
            vocab: 32,
            hidden: 16,
            intermediate: 32,
            num_q_heads: 2,
            num_kv_heads: 1,
            head_dim: 8,
            num_layers: 2,
        }
    }

    /// The shape of a model of four billion weights: vocabulary 262144, width
    /// 2560, thirty-three layers.
    pub fn gemma_3_4b_like() -> (d: Self)
        ensures
            d == (SyntheticDims {
                vocab: 262144,
                hidden: 2560,
                intermediate: 10240,
                num_q_heads: 8,
                num_kv_heads: 4,
                head_dim: 320,
                num_layers: 33,
            }),
    {
        SyntheticDims {
            vocab: 262144,
            hidden: 2560,
            intermediate: 10240,
            num_q_heads: 8,
            num_kv_heads: 4,
            head_dim: 320,
            num_layers: 33,
        }
    }

    /// The same width and heads with four layers, for parametric sweeps.
    pub fn gemma_3_4b_4layer() -> (d: Self)
        ensures
            d == (SyntheticDims {
                vocab: 32,
                hidden: 2560,
                intermediate: 10240,
                num_q_heads: 8,
                num_kv_heads: 4,
                head_dim: 320,
                num_layers: 4,
            }),
    {
        SyntheticDims {
            vocab: 32,
            hidden: 2560,
            intermediate: 10240,
            num_q_heads: 8,
            num_kv_heads: 4,
            head_dim: 320,
            num_layers: 4,
        }
    }
}

// ---------------------------------------------------------------------------
// The generator.
// ---------------------------------------------------------------------------
/// The state after one draw.
pub open spec fn lcg_step(state: u64) -> u64 {
    ((state * LCG_MUL + LCG_ADD) % 0x1_0000_0000_0000_0000) as u64
}

/// The state after `n` draws.
pub open spec fn lcg_state(state: u64, n: nat) -> u64
    decreases n,
{
    if n == 0 {
        state
    } else {
        lcg_step(lcg_state(state, (n - 1) as nat))
    }
}

/// The words of `n` draws: the low half of each state.
pub open spec fn lcg_words(state: u64, n: nat) -> Seq<u32> {
    Seq::new(n, |i: int| (lcg_state(state, (i + 1) as nat) % 0x1_0000_0000) as u32)
}

/// One draw.
pub fn lcg_next(state: u64) -> (s: u64)
    ensures
        s == lcg_step(state),
{
    let product: u64 = state.wrapping_mul(LCG_MUL);
    proof {
        lemma_wrapped_product(state as int * LCG_MUL as int, LCG_ADD as int);
    }
    product.wrapping_add(LCG_ADD)
}

proof fn lemma_wrapped_product(p: int, c: int)
    requires
        0 <= p,
        0 <= c < 0x1_0000_0000_0000_0000,
    ensures
        (p % 0x1_0000_0000_0000_0000 + c) % 0x1_0000_0000_0000_0000 == (p + c)
            % 0x1_0000_0000_0000_0000,
{
}

/// The words of some draws, and the state behind them.
pub fn draw_words(state: u64, n: usize) -> (r: (Vec<u32>, u64))
    ensures
        r.0@ == lcg_words(state, n as nat),
        r.1 == lcg_state(state, n as nat),
{
    let mut words: Vec<u32> = Vec::new();
    let mut s: u64 = state;
    let mut i: usize = 0;
    while i < n
        invariant
            i <= n,
            s == lcg_state(state, i as nat),
            words@ == lcg_words(state, i as nat),
        decreases n - i,
    {
        s = lcg_next(s);
        words.push((s % 0x1_0000_0000) as u32);
        i = i + 1;
        assert(words@ =~= lcg_words(state, i as nat));
    }
    (words, s)
}

/// Drawing in two goes gives what drawing in one does.
pub proof fn law_draws_go_on(state: u64, a: nat, b: nat)
    ensures
        lcg_state(lcg_state(state, a), b) == lcg_state(state, a + b),
        lcg_words(state, a) + lcg_words(lcg_state(state, a), b) == lcg_words(state, a + b),
{
    lemma_state_goes_on(state, a, b);
    assert forall|i: int| 0 <= i < b implies lcg_words(lcg_state(state, a), b)[i] == lcg_words(
        state,
        a + b,
    )[a + i] by {
        lemma_state_goes_on(state, a, (i + 1) as nat);
    }
    assert(lcg_words(state, a) + lcg_words(lcg_state(state, a), b) =~= lcg_words(state, a + b));
}

proof fn lemma_state_goes_on(state: u64, a: nat, b: nat)
    ensures
        lcg_state(lcg_state(state, a), b) == lcg_state(state, a + b),
    decreases b,
{
    if b > 0 {
        lemma_state_goes_on(state, a, (b - 1) as nat);
    }
}

// ---------------------------------------------------------------------------
// The tensors of a fixture.
// ---------------------------------------------------------------------------
/// The kind of model that a fixture is.
#[derive(Clone, Copy, Debug, PartialEq, Eq, Structural)]
pub enum Fixture {
    /// Plain norms, gated feed-forward.
    Tiny,
    /// Norms on queries and keys, norms behind each block.
    Gemma3,
    /// Biases, and a feed-forward without a gate of its own.
    Starcoder2,
}

/// What a tensor of a fixture is.
#[derive(Clone, Copy, Debug, PartialEq, Eq, Structural)]
pub enum TensorRole {
    Embed,
    LmHead,
    AttnQ,
    AttnK,
    AttnV,
    AttnO,
    FfnGate,
    FfnUp,
    FfnDown,
}

/// A tensor of a fixture: what it is, of which layer, and its draws.
pub struct FixtureTensor {
    pub role: TensorRole,
    pub layer: usize,
    pub draws: Matrix,
}

/// Rows and columns of a tensor.
pub open spec fn role_shape(role: TensorRole, d: SyntheticDims) -> (int, int) {
    let q_dim = d.num_q_heads * d.head_dim;
    let kv_dim = d.num_kv_heads * d.head_dim;
    match role {
        TensorRole::Embed | TensorRole::LmHead => (d.vocab as int, d.hidden as int),
        TensorRole::AttnQ => (q_dim, d.hidden as int),
        TensorRole::AttnK | TensorRole::AttnV => (kv_dim, d.hidden as int),
        TensorRole::AttnO => (d.hidden as int, q_dim),
        TensorRole::FfnGate | TensorRole::FfnUp => (d.intermediate as int, d.hidden as int),
        TensorRole::FfnDown => (d.hidden as int, d.intermediate as int),
    }
}

/// What stands at place `k` of a layer's seven tensors.
pub open spec fn layer_role(f: Fixture, k: int) -> TensorRole {
    if k == 0 {
        TensorRole::AttnQ
    } else if k == 1 {
        TensorRole::AttnK
    } else if k == 2 {
        TensorRole::AttnV
    } else if k == 3 {
        TensorRole::AttnO
    } else if f is Starcoder2 {
        if k == 4 {
            TensorRole::FfnUp
        } else if k == 5 {
            TensorRole::FfnDown
        } else {
            TensorRole::FfnGate
        }
    } else {
        if k == 4 {
            TensorRole::FfnGate
        } else if k == 5 {
            TensorRole::FfnUp
        } else {
            TensorRole::FfnDown
        }
    }
}

/// What stands at place `i` of a fixture's tensors: the embedding, the output
/// head, and then seven for every layer.
pub open spec fn role_at(f: Fixture, i: int) -> TensorRole {
    if i == 0 {
        TensorRole::Embed
    } else if i == 1 {
        TensorRole::LmHead
    } else {
        layer_role(f, (i - 2) % 7)
    }
}

/// The layer of the tensor at place `i`; zero for the two that have none.
pub open spec fn layer_at(i: int) -> int {
    if i < 2 {
        0
    } else {
        (i - 2) / 7
    }
}

/// How many words are drawn for a tensor.
pub open spec fn role_words(role: TensorRole, d: SyntheticDims) -> nat {
    (role_shape(role, d).0 * role_shape(role, d).1) as nat
}

/// How many words are drawn for the first `i` tensors.
pub open spec fn words_before(f: Fixture, d: SyntheticDims, i: nat) -> nat
    decreases i,
{
    if i == 0 {
        0
    } else {
        words_before(f, d, (i - 1) as nat) + role_words(role_at(f, i - 1), d)
    }
}

/// Where the generator stands before the tensor at place `i`. The plain fixture
/// draws all its tensors from one stream; the others seed each of them.
pub open spec fn seed_at(f: Fixture, d: SyntheticDims, i: int) -> u64 {
    match f {
        Fixture::Tiny => lcg_state(0xdead_beef, words_before(f, d, i as nat)),
        Fixture::Gemma3 => if i == 0 {
            0x9e37_79b9
        } else if i == 1 {
            0xa1b2_c3d4
        } else {
            ((0xdead_beef + (i - 1) * SEED_STEP) % 0x1_0000_0000_0000_0000) as u64
        },
        Fixture::Starcoder2 => if i == 0 {
            0x1234_5678
        } else if i == 1 {
            0x8765_4321
        } else {
            ((0xfeed_babe + (i - 1) * SEED_STEP) % 0x1_0000_0000_0000_0000) as u64
        },
    }
}

/// Whether a tensor is the one at place `i` of a fixture.
pub open spec fn tensor_is(t: FixtureTensor, f: Fixture, d: SyntheticDims, i: int) -> bool {
    let role = role_at(f, i);
    let (rows, cols) = role_shape(role, d);
    &&& t.role == role
    &&& t.layer == layer_at(i)
    &&& t.draws.wf()
    &&& t.draws.width() == cols
    &&& t.draws@ == as_rows(
        lcg_words(seed_at(f, d, i), role_words(role, d)),
        rows as nat,
        cols as nat,
    )
}

/// Whether tensors of these sizes can be had.
pub open spec fn dims_fit(d: SyntheticDims) -> bool {
    &&& d.num_q_heads * d.head_dim <= usize::MAX
    &&& d.num_kv_heads * d.head_dim <= usize::MAX
    &&& 2 + 7 * d.num_layers <= usize::MAX
    &&& matrix_indexable(d.vocab as nat, d.hidden as nat)
    &&& matrix_indexable((d.num_q_heads * d.head_dim) as nat, d.hidden as nat)
    &&& matrix_indexable((d.num_kv_heads * d.head_dim) as nat, d.hidden as nat)
    &&& matrix_indexable(d.hidden as nat, (d.num_q_heads * d.head_dim) as nat)
    &&& matrix_indexable(d.intermediate as nat, d.hidden as nat)
    &&& matrix_indexable(d.hidden as nat, d.intermediate as nat)
}

fn role_for(f: Fixture, i: usize) -> (r: TensorRole)
    ensures
        r == role_at(f, i as int),
{
    if i == 0 {
        return TensorRole::Embed;
    }
    if i == 1 {
        return TensorRole::LmHead;
    }
    let k: usize = (i - 2) % 7;
    let plain: bool = match f {
        Fixture::Starcoder2 => false,
        _ => true,
    };
    match k {
        0 => TensorRole::AttnQ,
        1 => TensorRole::AttnK,
        2 => TensorRole::AttnV,
        3 => TensorRole::AttnO,
        4 => if plain {
            TensorRole::FfnGate
        } else {
            TensorRole::FfnUp
        },
        5 => if plain {
            TensorRole::FfnUp
        } else {
            TensorRole::FfnDown
        },
        _ => if plain {
            TensorRole::FfnDown
        } else {
            TensorRole::FfnGate
        },
    }
}

fn shape_for(role: TensorRole, d: SyntheticDims) -> (s: (usize, usize))
    requires
        dims_fit(d),
    ensures
        s.0 == role_shape(role, d).0,
        s.1 == role_shape(role, d).1,
        matrix_indexable(s.0 as nat, s.1 as nat),
{
    let q_dim: usize = d.num_q_heads * d.head_dim;
    let kv_dim: usize = d.num_kv_heads * d.head_dim;
    match role {
        TensorRole::Embed => (d.vocab, d.hidden),
        TensorRole::LmHead => (d.vocab, d.hidden),
        TensorRole::AttnQ => (q_dim, d.hidden),
        TensorRole::AttnK => (kv_dim, d.hidden),
        TensorRole::AttnV => (kv_dim, d.hidden),
        TensorRole::AttnO => (d.hidden, q_dim),
        TensorRole::FfnGate => (d.intermediate, d.hidden),
        TensorRole::FfnUp => (d.intermediate, d.hidden),
        TensorRole::FfnDown => (d.hidden, d.intermediate),
    }
}

proof fn lemma_indexable_product(rows: nat, cols: nat)
    requires
        matrix_indexable(rows, cols),
    ensures
        rows * cols <= isize::MAX,
{
    if rows == 0 || cols == 0 {
        assert(rows * cols == 0) by (nonlinear_arith)
            requires
                rows == 0 || cols == 0,
        ;
    }
}

/// The draws of a tensor, and the state behind them.
pub fn rand_mat_seeded(rows: usize, cols: usize, seed: u64) -> (r: (Matrix, u64))
    requires
        matrix_indexable(rows as nat, cols as nat),
    ensures
        r.0.wf(),
        r.0.width() == cols,
        r.0@ == as_rows(lcg_words(seed, (rows * cols) as nat), rows as nat, cols as nat),
        r.1 == lcg_state(seed, (rows * cols) as nat),
{
    proof {
        lemma_indexable_product(rows as nat, cols as nat);
    }
    let (words, state) = draw_words(seed, rows * cols);
    match Matrix::from_flat(rows, cols, words) {
        Some(m) => (m, state),
        None => {
            assert(false);
            (Matrix::zeros(0, 0), state)
        },
    }
}

/// The tensors of a fixture, in the order of their places.
fn fixture_tensors(f: Fixture, d: SyntheticDims) -> (tensors: Vec<FixtureTensor>)
    requires
        dims_fit(d),
    ensures
        tensors@.len() == 2 + 7 * d.num_layers,
        forall|i: int| 0 <= i < tensors@.len() ==> tensor_is(#[trigger] tensors@[i], f, d, i),
{
    let n: usize = 2 + 7 * d.num_layers;
    let mut tensors: Vec<FixtureTensor> = Vec::new();
    let mut stream: u64 = 0xdead_beef;
    let mut counter: u64 = match f {
        Fixture::Starcoder2 => 0xfeed_babe,
        _ => 0xdead_beef,
    };
    let ghost first: int = counter as int;
    let mut i: usize = 0;
    assert(words_before(f, d, 0) == 0);
    while i < n
        invariant
            i <= n,
            n == 2 + 7 * d.num_layers,
            dims_fit(d),
            tensors@.len() == i,
            stream == lcg_state(0xdead_beef, words_before(f, d, i as nat)) || !(f is Tiny),
            first == (if f is Starcoder2 {
                0xfeed_babeint
            } else {
                0xdead_beefint
            }),
            counter == (first + (if i < 2 {
                0int
            } else {
                i - 2
            }) * SEED_STEP) % 0x1_0000_0000_0000_0000,
            forall|k: int| 0 <= k < i ==> tensor_is(#[trigger] tensors@[k], f, d, k),
        decreases n - i,
    {
        let role: TensorRole = role_for(f, i);
        let (rows, cols) = shape_for(role, d);
        let layer: usize = if i < 2 {
            0
        } else {
            (i - 2) / 7
        };
        if i >= 2 {
            proof {
                let m: int = 0x1_0000_0000_0000_0000;
                let step = SEED_STEP as int;
                let before = (i - 2) * step;
                assert((i - 1) * step == before + step) by (nonlinear_arith)
                    requires
                        before == (i - 2) * step,
                ;
                lemma_wrapped_product(first + before, step);
                assert(0 <= before) by (nonlinear_arith)
                    requires
                        before == (i - 2) * step,
                        i >= 2,
                        step >= 0,
                ;
            }
            counter = counter.wrapping_add(SEED_STEP);
        }
        let seed: u64 = match f {
            Fixture::Tiny => stream,
            Fixture::Gemma3 => if i == 0 {
                0x9e37_79b9
            } else if i == 1 {
                0xa1b2_c3d4
            } else {
                counter
            },
            Fixture::Starcoder2 => if i == 0 {
                0x1234_5678
            } else if i == 1 {
                0x8765_4321
            } else {
                counter
            },
        };
        assert(seed == seed_at(f, d, i as int));
        let (draws, state) = rand_mat_seeded(rows, cols, seed);
        proof {
            lemma_state_goes_on(
                0xdead_beef,
                words_before(f, d, i as nat),
                role_words(role, d),
            );
        }
        stream = state;
        tensors.push(FixtureTensor { role, layer, draws });
        i = i + 1;
    }
    tensors
}

// ---------------------------------------------------------------------------
// The vectors of a fixture.
// ---------------------------------------------------------------------------
/// What a vector of a fixture is.
#[derive(Clone, Copy, Debug, PartialEq, Eq, Structural)]
pub enum VectorRole {
    FinalNorm,
    InputNorm,
    PostAttnNorm,
    PreFfnNorm,
    PostFfnNorm,
    QNorm,
    KNorm,
    QBias,
    KBias,
    VBias,
    OBias,
    UpBias,
    DownBias,
}

/// A vector of a fixture: what it is, of which layer, how long, and the pattern
/// that every one of its values has.
#[derive(Clone, Copy, Debug, PartialEq, Eq, Structural)]
pub struct FixtureVector {
    pub role: VectorRole,
    pub layer: usize,
    pub len: usize,
    pub fill: u32,
}

/// How many vectors a layer has.
pub open spec fn layer_vector_count(f: Fixture) -> nat {
    match f {
        Fixture::Tiny => 2,
        Fixture::Gemma3 => 6,
        Fixture::Starcoder2 => 8,
    }
}

/// What stands at place `k` of a layer's vectors.
pub open spec fn layer_vector_role(f: Fixture, k: int) -> VectorRole {
    match f {
        Fixture::Tiny => if k == 0 {
            VectorRole::InputNorm
        } else {
            VectorRole::PostAttnNorm
        },
        Fixture::Gemma3 => if k == 0 {
            VectorRole::InputNorm
        } else if k == 1 {
            VectorRole::PostAttnNorm
        } else if k == 2 {
            VectorRole::PreFfnNorm
        } else if k == 3 {
            VectorRole::PostFfnNorm
        } else if k == 4 {
            VectorRole::QNorm
        } else {
            VectorRole::KNorm
        },
        Fixture::Starcoder2 => if k == 0 {
            VectorRole::QBias
        } else if k == 1 {
            VectorRole::KBias
        } else if k == 2 {
            VectorRole::VBias
        } else if k == 3 {
            VectorRole::OBias
        } else if k == 4 {
            VectorRole::UpBias
        } else if k == 5 {
            VectorRole::DownBias
        } else if k == 6 {
            VectorRole::InputNorm
        } else {
            VectorRole::PostAttnNorm
        },
    }
}

/// How long a vector is.
pub open spec fn vector_len(role: VectorRole, d: SyntheticDims) -> int {
    match role {
        VectorRole::QNorm | VectorRole::KNorm => d.head_dim as int,
        VectorRole::QBias => d.num_q_heads * d.head_dim,
        VectorRole::KBias | VectorRole::VBias => d.num_kv_heads * d.head_dim,
        VectorRole::UpBias => d.intermediate as int,
        _ => d.hidden as int,
    }
}

/// The pattern of a vector's values. A fixture whose norms are saved as what they
/// add to one has zeros.
pub open spec fn vector_fill(f: Fixture, role: VectorRole) -> u32 {
    match role {
        VectorRole::QBias
        | VectorRole::KBias
        | VectorRole::VBias
        | VectorRole::OBias
        | VectorRole::UpBias
        | VectorRole::DownBias => HUNDREDTH,
        _ => if f is Gemma3 {
            0
        } else {
            ONE
        },
    }
}

/// What stands at place `i` of a fixture's vectors: the last norm, and then each
/// layer's.
pub open spec fn vector_role_at(f: Fixture, i: int) -> VectorRole {
    if i == 0 {
        VectorRole::FinalNorm
    } else {
        layer_vector_role(f, (i - 1) % (layer_vector_count(f) as int))
    }
}

/// The vector at place `i`.
pub open spec fn vector_at(f: Fixture, d: SyntheticDims, i: int) -> FixtureVector {
    let role = vector_role_at(f, i);
    FixtureVector {
        role,
        layer: if i == 0 {
            0
        } else {
            ((i - 1) / (layer_vector_count(f) as int)) as usize
        },
        len: vector_len(role, d) as usize,
        fill: vector_fill(f, role),
    }
}

/// The vectors of a fixture.
pub open spec fn vectors_of(f: Fixture, d: SyntheticDims) -> Seq<FixtureVector> {
    Seq::new(1 + layer_vector_count(f) * d.num_layers as nat, |i: int| vector_at(f, d, i))
}

fn layer_vector_for(f: Fixture, k: usize) -> (r: VectorRole)
    requires
        k < layer_vector_count(f),
    ensures
        r == layer_vector_role(f, k as int),
{
    match f {
        Fixture::Tiny => if k == 0 {
            VectorRole::InputNorm
        } else {
            VectorRole::PostAttnNorm
        },
        Fixture::Gemma3 => match k {
            0 => VectorRole::InputNorm,
            1 => VectorRole::PostAttnNorm,
            2 => VectorRole::PreFfnNorm,
            3 => VectorRole::PostFfnNorm,
            4 => VectorRole::QNorm,
            _ => VectorRole::KNorm,
        },
        Fixture::Starcoder2 => match k {
            0 => VectorRole::QBias,
            1 => VectorRole::KBias,
            2 => VectorRole::VBias,
            3 => VectorRole::OBias,
            4 => VectorRole::UpBias,
            5 => VectorRole::DownBias,
            6 => VectorRole::InputNorm,
            _ => VectorRole::PostAttnNorm,
        },
    }
}

fn vector_for(f: Fixture, d: SyntheticDims, role: VectorRole, layer: usize) -> (v: FixtureVector)
    requires
        d.num_q_heads * d.head_dim <= usize::MAX,
        d.num_kv_heads * d.head_dim <= usize::MAX,
    ensures
        v == (FixtureVector {
            role,
            layer,
            len: vector_len(role, d) as usize,
            fill: vector_fill(f, role),
        }),
{
    let len: usize = match role {
        VectorRole::QNorm => d.head_dim,
        VectorRole::KNorm => d.head_dim,
        VectorRole::QBias => d.num_q_heads * d.head_dim,
        VectorRole::KBias => d.num_kv_heads * d.head_dim,
        VectorRole::VBias => d.num_kv_heads * d.head_dim,
        VectorRole::UpBias => d.intermediate,
        _ => d.hidden,
    };
    let fill: u32 = match role {
        VectorRole::QBias
        | VectorRole::KBias
        | VectorRole::VBias
        | VectorRole::OBias
        | VectorRole::UpBias
        | VectorRole::DownBias => HUNDREDTH,
        _ => match f {
            Fixture::Gemma3 => 0,
            _ => ONE,
        },
    };
    FixtureVector { role, layer, len, fill }
}

fn fixture_vectors(f: Fixture, d: SyntheticDims) -> (vectors: Vec<FixtureVector>)
    requires
        d.num_q_heads * d.head_dim <= usize::MAX,
        d.num_kv_heads * d.head_dim <= usize::MAX,
    ensures
        vectors@ == vectors_of(f, d),
{
    let per: usize = match f {
        Fixture::Tiny => 2,
        Fixture::Gemma3 => 6,
        Fixture::Starcoder2 => 8,
    };
    let mut vectors: Vec<FixtureVector> = Vec::new();
    vectors.push(vector_for(f, d, VectorRole::FinalNorm, 0));
    let mut layer: usize = 0;
    assert(per * 0 == 0);
    assert(vectors@ =~= Seq::new(1, |i: int| vector_at(f, d, i)));
    while layer < d.num_layers
        invariant
            layer <= d.num_layers,
            per == layer_vector_count(f),
            d.num_q_heads * d.head_dim <= usize::MAX,
            d.num_kv_heads * d.head_dim <= usize::MAX,
            vectors@ == Seq::new(1 + per as nat * layer as nat, |i: int| vector_at(f, d, i)),
        decreases d.num_layers - layer,
    {
        let ghost base = per as int * layer as int;
        let mut k: usize = 0;
        while k < per
            invariant
                k <= per,
                per == layer_vector_count(f),
                base == per as int * layer as int,
                base >= 0,
                d.num_q_heads * d.head_dim <= usize::MAX,
                d.num_kv_heads * d.head_dim <= usize::MAX,
                vectors@ == Seq::new((1 + base + k) as nat, |i: int| vector_at(f, d, i)),
            decreases per - k,
        {
            let role: VectorRole = layer_vector_for(f, k);
            vectors.push(vector_for(f, d, role, layer));
            proof {
                vstd::arithmetic::div_mod::lemma_fundamental_div_mod_converse(
                    base + k,
                    per as int,
                    layer as int,
                    k as int,
                );
            }
            k = k + 1;
            assert(vectors@ =~= Seq::new((1 + base + k) as nat, |i: int| vector_at(f, d, i)));
        }
        assert(per as int * (layer + 1) == base + per) by (nonlinear_arith)
            requires
                base == per as int * layer as int,
        ;
        layer = layer + 1;
    }
    vectors
}

// ---------------------------------------------------------------------------
// Whole fixtures.
// ---------------------------------------------------------------------------
/// The pattern of one half, in double precision.
pub const HALF: u64 = 0x3fe0_0000_0000_0000;

/// The pattern of two, in double precision.
pub const TWO: u64 = 0x4000_0000_0000_0000;

/// The pattern of ten thousand, in double precision.
pub const TEN_THOUSAND: u64 = 0x40c3_8800_0000_0000;

/// What a fixture's architecture is configured with besides its sizes. Values are
/// bit patterns; what is `None` is left to the architecture.
#[derive(Clone, Copy, Debug, PartialEq, Eq, Structural)]
pub struct FixtureSettings {
    pub fixture: Fixture,
    pub rope_theta: Option<u64>,
    pub residual_multiplier: Option<u64>,
    pub attention_multiplier: Option<u64>,
    /// The base that the model itself rotates with.
    pub rope_base: u64,
}

/// What a fixture's architecture is configured with.
pub open spec fn settings_of(f: Fixture) -> FixtureSettings {
    FixtureSettings {
        fixture: f,
        rope_theta: if f is Gemma3 {
            Some(TEN_THOUSAND)
        } else {
            None
        },
        residual_multiplier: if f is Tiny {
            None
        } else {
            Some(HALF)
        },
        attention_multiplier: if f is Starcoder2 {
            Some(TWO)
        } else {
            None
        },
        rope_base: TEN_THOUSAND,
    }
}

/// What a fixture's architecture is configured with.
pub fn fixture_settings(f: Fixture) -> (s: FixtureSettings)
    ensures
        s == settings_of(f),
{
    match f {
        Fixture::Tiny => FixtureSettings {
            fixture: f,
            rope_theta: None,
            residual_multiplier: None,
            attention_multiplier: None,
            rope_base: TEN_THOUSAND,
        },
        Fixture::Gemma3 => FixtureSettings {
            fixture: f,
            rope_theta: Some(TEN_THOUSAND),
            residual_multiplier: Some(HALF),
            attention_multiplier: None,
            rope_base: TEN_THOUSAND,
        },
        Fixture::Starcoder2 => FixtureSettings {
            fixture: f,
            rope_theta: None,
            residual_multiplier: Some(HALF),
            attention_multiplier: Some(TWO),
            rope_base: TEN_THOUSAND,
        },
    }
}

impl FixtureSettings {
    /// The architecture's name.
    pub fn model_type(&self) -> (n: &'static str)
        ensures
            n@ == match self.fixture {
                Fixture::Tiny => "tinymodel"@,
                Fixture::Gemma3 => "gemma3"@,
                Fixture::Starcoder2 => "starcoder2"@,
            },
    {
        match self.fixture {
            Fixture::Tiny => "tinymodel",
            Fixture::Gemma3 => "gemma3",
            Fixture::Starcoder2 => "starcoder2",
        }
    }
}

/// A fixture's settings, sizes, tensors and vectors.
pub struct FixtureWeights {
    pub settings: FixtureSettings,
    pub dims: SyntheticDims,
    pub tensors: Vec<FixtureTensor>,
    pub vectors: Vec<FixtureVector>,
}

/// Whether some weights are those of a fixture.
pub open spec fn weights_are(w: FixtureWeights, f: Fixture, d: SyntheticDims) -> bool {
    &&& w.settings == settings_of(f)
    &&& w.dims == d
    &&& w.tensors@.len() == 2 + 7 * d.num_layers
    &&& forall|i: int| 0 <= i < w.tensors@.len() ==> tensor_is(#[trigger] w.tensors@[i], f, d, i)
    &&& w.vectors@ == vectors_of(f, d)
}

/// The sizes of the small fixtures.
pub open spec fn tiny_dims() -> SyntheticDims {
    SyntheticDims {
        vocab: 32,
        hidden: 16,
        intermediate: 32,
        num_q_heads: 2,
        num_kv_heads: 1,
        head_dim: 8,
        num_layers: 2,
    }
}

proof fn lemma_tiny_fits()
    ensures
        dims_fit(tiny_dims()),
{
    let d = tiny_dims();
    assert(d.num_q_heads * d.head_dim == 16) by (nonlinear_arith)
        requires
            d.num_q_heads == 2,
            d.head_dim == 8,
    ;
    assert(d.num_kv_heads * d.head_dim == 8) by (nonlinear_arith)
        requires
            d.num_kv_heads == 1,
            d.head_dim == 8,
    ;
    assert(32 * 16 == 512 && 16 * 16 == 256 && 8 * 16 == 128 && 16 * 32 == 512);
    assert(isize::MAX >= 0x7fff_ffff);
}

/// The plain fixture at sizes of the caller's.
pub fn make_test_weights_with(dims: SyntheticDims) -> (w: FixtureWeights)
    requires
        dims_fit(dims),
    ensures
        weights_are(w, Fixture::Tiny, dims),
{
    FixtureWeights {
        settings: fixture_settings(Fixture::Tiny),
        dims,
        tensors: fixture_tensors(Fixture::Tiny, dims),
        vectors: fixture_vectors(Fixture::Tiny, dims),
    }
}

/// The plain fixture at its small size.
pub fn make_test_weights() -> (w: FixtureWeights)
    ensures
        weights_are(w, Fixture::Tiny, tiny_dims()),
{
    proof {
        lemma_tiny_fits();
    }
    make_test_weights_with(SyntheticDims::tiny())
}

/// The fixture with norms on queries and keys and behind each block.
pub fn make_gemma3_test_weights() -> (w: FixtureWeights)
    ensures
        weights_are(w, Fixture::Gemma3, tiny_dims()),
{
    let dims: SyntheticDims = SyntheticDims::tiny();
    proof {
        lemma_tiny_fits();
    }
    FixtureWeights {
        settings: fixture_settings(Fixture::Gemma3),
        dims,
        tensors: fixture_tensors(Fixture::Gemma3, dims),
        vectors: fixture_vectors(Fixture::Gemma3, dims),
    }
}

/// The fixture with biases.
pub fn make_starcoder2_test_weights() -> (w: FixtureWeights)
    ensures
        weights_are(w, Fixture::Starcoder2, tiny_dims()),
{
    let dims: SyntheticDims = SyntheticDims::tiny();
    proof {
        lemma_tiny_fits();
    }
    FixtureWeights {
        settings: fixture_settings(Fixture::Starcoder2),
        dims,
        tensors: fixture_tensors(Fixture::Starcoder2, dims),
        vectors: fixture_vectors(Fixture::Starcoder2, dims),
    }
}

/// The seed of a layer's gate vectors.
pub open spec fn gate_seed(layer: nat) -> u64 {
    ((0xab_cdef + layer * SEED_STEP) % 0x1_0000_0000_0000_0000) as u64
}

/// Gate vectors of an index: one matrix for every layer, one row for every
/// feature. Every layer draws from its own seed.
pub fn make_test_vindex(dims: SyntheticDims) -> (gates: Vec<Matrix>)
    requires
        matrix_indexable(dims.intermediate as nat, dims.hidden as nat),
    ensures
        gates@.len() == dims.num_layers,
        forall|l: int|
            0 <= l < gates@.len() ==> (#[trigger] gates@[l]).wf() && gates@[l].width()
                == dims.hidden && gates@[l]@ == as_rows(
                lcg_words(gate_seed(l as nat), (dims.intermediate * dims.hidden) as nat),
                dims.intermediate as nat,
                dims.hidden as nat,
            ),
{
    let mut gates: Vec<Matrix> = Vec::new();
    let mut seed: u64 = 0xab_cdef;
    let mut l: usize = 0;
    while l < dims.num_layers
        invariant
            l <= dims.num_layers,
            matrix_indexable(dims.intermediate as nat, dims.hidden as nat),
            seed == gate_seed(l as nat),
            gates@.len() == l,
            forall|k: int|
                0 <= k < l ==> (#[trigger] gates@[k]).wf() && gates@[k].width() == dims.hidden
                    && gates@[k]@ == as_rows(
                    lcg_words(gate_seed(k as nat), (dims.intermediate * dims.hidden) as nat),
                    dims.intermediate as nat,
                    dims.hidden as nat,
                ),
        decreases dims.num_layers - l,
    {
        let (gate, _) = rand_mat_seeded(dims.intermediate, dims.hidden, seed);
        gates.push(gate);
        proof {
            let step = SEED_STEP as int;
            assert((l + 1) * step == l * step + step) by (nonlinear_arith);
            assert(0 <= l * step) by (nonlinear_arith)
                requires
                    l >= 0,
                    step >= 0,
            ;
            lemma_wrapped_product(0xab_cdef + l * step, step);
        }
        seed = seed.wrapping_add(SEED_STEP);
        l = l + 1;
    }
    gates
}

// ---------------------------------------------------------------------------
// The vocabulary.
// ---------------------------------------------------------------------------
/// The word of a token: its number in brackets.
pub open spec fn token_word(i: nat) -> Seq<char> {
    "["@ + decimal(i) + "]"@
}

/// The text in front of the words of a tokenizer's vocabulary.
pub open spec fn tokenizer_head() -> Seq<char> {
    "{\"version\":\"1.0\",\"truncation\":null,\"padding\":null,\"added_tokens\":[],\"normalizer\":null,\"pre_tokenizer\":{\"type\":\"Whitespace\"},\"post_processor\":null,\"decoder\":null,\"model\":{\"type\":\"WordLevel\",\"vocab\":{"@
}

/// The words of the first `n` tokens with their numbers, a comma between any
/// two.
pub open spec fn words_text(n: nat) -> Seq<char>
    decreases n,
{
    if n == 0 {
        Seq::empty()
    } else {
        let i = (n - 1) as nat;
        words_text(i) + (if i == 0 {
            Seq::empty()
        } else {
            ","@
        }) + "\""@ + token_word(i) + "\":"@ + decimal(i)
    }
}

/// A tokenizer in JSON: it splits at whitespace and knows the words of `n`
/// tokens, and no other.
pub open spec fn tokenizer_text(n: nat) -> Seq<char> {
    tokenizer_head() + words_text(n) + "},\"unk_token\":\"[UNK]\"}}"@
}

/// The numbers of the words of the first `n` tokens.
pub open spec fn token_ids(n: nat) -> Map<Seq<char>, u32>
    decreases n,
{
    if n == 0 {
        Map::empty()
    } else {
        let i = (n - 1) as nat;
        token_ids(i).insert(token_word(i), i as u32)
    }
}

/// A tokenizer of the `tokenizers` crate.
#[verifier::external_type_specification]
#[verifier::external_body]
pub struct ExTokenizer(tokenizers::Tokenizer);

/// The words of a tokenizer's model with their numbers.
pub uninterp spec fn tokenizer_ids(t: tokenizers::Tokenizer) -> Map<Seq<char>, u32>;

/// Calls `tokenizers::Tokenizer::from_bytes` on the bytes of a text of the form
/// [`tokenizer_text`] whose numbers are 32-bit numbers. Such a text gives a
/// tokenizer, and it knows exactly the words in the text. How the tokenizer
/// splits and decodes texts is not said.
#[verifier::external_body]
fn tokenizer_from_bytes(text: &str) -> (r: Option<tokenizers::Tokenizer>)
    requires
        exists|n: nat| n <= u32::MAX && text@ == #[trigger] tokenizer_text(n),
    ensures
        forall|n: nat|
            n <= u32::MAX && text@ == #[trigger] tokenizer_text(n) ==> r is Some && tokenizer_ids(
                r->Some_0,
            ) == token_ids(n),
{
    tokenizers::Tokenizer::from_bytes(text.as_bytes()).ok()
}

/// A tokenizer with a vocabulary of `vocab_size` tokens: token `n` is the word
/// `[n]`. It has no word for what it does not know: a text that is split into
/// anything but these words cannot be encoded.
pub fn make_test_tokenizer(vocab_size: usize) -> (t: tokenizers::Tokenizer)
    requires
        vocab_size <= u32::MAX,
    ensures
        tokenizer_ids(t) == token_ids(vocab_size as nat),
{
    let mut text: String = String::from_str(
        "{\"version\":\"1.0\",\"truncation\":null,\"padding\":null,\"added_tokens\":[],\"normalizer\":null,\"pre_tokenizer\":{\"type\":\"Whitespace\"},\"post_processor\":null,\"decoder\":null,\"model\":{\"type\":\"WordLevel\",\"vocab\":{",
    );
    let mut i: usize = 0;
    assert(text@ =~= tokenizer_head() + words_text(0));
    while i < vocab_size
        invariant
            i <= vocab_size,
            text@ == tokenizer_head() + words_text(i as nat),
        decreases vocab_size - i,
    {
        let number: String = decimal_text(i as u64);
        if i > 0 {
            text.append(",");
        }
        text.append("\"");
        text.append("[");
        text.append(number.as_str());
        text.append("]");
        text.append("\":");
        text.append(number.as_str());
        i = i + 1;
        assert(text@ =~= tokenizer_head() + words_text(i as nat));
    }
    text.append("},\"unk_token\":\"[UNK]\"}}");
    assert(text@ =~= tokenizer_text(vocab_size as nat));
    tokenizer_from_bytes(text.as_str()).unwrap()
}

proof fn lemma_token_word_tells(i: nat, j: nat)
    ensures
        token_word(i) == token_word(j) ==> i == j,
{
    reveal_strlit("[");
    reveal_strlit("]");
    if token_word(i) == token_word(j) {
        assert(token_word(i).subrange(1, token_word(i).len() - 1) =~= decimal(i));
        assert(token_word(j).subrange(1, token_word(j).len() - 1) =~= decimal(j));
        law_decimal_tells_numbers(i, j);
    }
}

/// Every token of a fixture's vocabulary has a word of its own: the word `[i]`
/// has the number `i`, and there are exactly as many words as tokens.
pub proof fn law_every_token_has_its_word(n: nat)
    requires
        n <= u32::MAX,
    ensures
        forall|i: nat|
            i < n ==> token_ids(n).contains_pair(#[trigger] token_word(i), i as u32),
        token_ids(n).dom().finite(),
        token_ids(n).len() == n,
    decreases n,
{
    if n > 0 {
        let last = (n - 1) as nat;
        law_every_token_has_its_word(last);
        lemma_tokens_below(last, last);
        assert forall|i: nat| i < n implies token_ids(n).contains_pair(
            #[trigger] token_word(i),
            i as u32,
        ) by {
            lemma_token_word_tells(i, last);
        }
    }
}

/// The words of the first `n` tokens hold no later token's word.
proof fn lemma_tokens_below(n: nat, i: nat)
    requires
        n <= i,
    ensures
        !token_ids(n).contains_key(token_word(i)),
    decreases n,
{
    if n > 0 {
        lemma_tokens_below((n - 1) as nat, i);
        lemma_token_word_tells((n - 1) as nat, i);
    }
}

/// How draws go on: every state is the one before it times 6364136223846793005 plus
/// 1442695040888963407, without the bits that overflow, and a draw is the low half of
/// the state after it.
pub proof fn law_draws_by_state(state: u64, n: nat, i: int)
    requires
        0 <= i < n,
    ensures
        lcg_state(state, 0) == state,
        lcg_state(state, (i + 1) as nat) as int == (lcg_state(state, i as nat)
            * 6364136223846793005int + 1442695040888963407int) % 0x1_0000_0000_0000_0000int,
        lcg_words(state, n).len() == n,
        lcg_words(state, n)[i] as int == lcg_state(state, (i + 1) as nat) as int
            % 0x1_0000_0000int,
{
}

/// Which tensor of a fixture is which: the embedding, the output matrix, and then seven
/// of every layer, attention first; where the feed-forward part has no gate of its own
/// the spare matrix comes last.
pub proof fn law_tensors_in_order(f: Fixture, layer: int, k: int)
    requires
        0 <= layer,
        0 <= k < 7,
    ensures
        role_at(f, 0) == TensorRole::Embed,
        role_at(f, 1) == TensorRole::LmHead,
        layer_at(2 + 7 * layer + k) == layer,
        ({
            let role = role_at(f, 2 + 7 * layer + k);
            &&& k == 0 ==> role == TensorRole::AttnQ
            &&& k == 1 ==> role == TensorRole::AttnK
            &&& k == 2 ==> role == TensorRole::AttnV
            &&& k == 3 ==> role == TensorRole::AttnO
            &&& k == 4 && f is Starcoder2 ==> role == TensorRole::FfnUp
            &&& k == 5 && f is Starcoder2 ==> role == TensorRole::FfnDown
            &&& k == 6 && f is Starcoder2 ==> role == TensorRole::FfnGate
            &&& k == 4 && !(f is Starcoder2) ==> role == TensorRole::FfnGate
            &&& k == 5 && !(f is Starcoder2) ==> role == TensorRole::FfnUp
            &&& k == 6 && !(f is Starcoder2) ==> role == TensorRole::FfnDown
        }),
{
    let i = 2 + 7 * layer + k;
    assert((i - 2) % 7 == k && (i - 2) / 7 == layer);
}

/// The shapes of a fixture's tensors: each leads from its input's width to its
/// output's, so that what one gives the next one takes.
pub proof fn law_tensor_shapes(d: SyntheticDims)
    ensures
        role_shape(TensorRole::Embed, d) == (d.vocab as int, d.hidden as int),
        role_shape(TensorRole::LmHead, d) == (d.vocab as int, d.hidden as int),
        role_shape(TensorRole::AttnQ, d) == (d.num_q_heads * d.head_dim, d.hidden as int),
        role_shape(TensorRole::AttnK, d) == (d.num_kv_heads * d.head_dim, d.hidden as int),
        role_shape(TensorRole::AttnV, d) == role_shape(TensorRole::AttnK, d),
        role_shape(TensorRole::AttnO, d).0 == role_shape(TensorRole::AttnQ, d).1,
        role_shape(TensorRole::AttnO, d).1 == role_shape(TensorRole::AttnQ, d).0,
        role_shape(TensorRole::FfnUp, d) == (d.intermediate as int, d.hidden as int),
        role_shape(TensorRole::FfnGate, d) == role_shape(TensorRole::FfnUp, d),
        role_shape(TensorRole::FfnDown, d).0 == role_shape(TensorRole::FfnUp, d).1,
        role_shape(TensorRole::FfnDown, d).1 == role_shape(TensorRole::FfnUp, d).0,
{
}

/// Where a fixture's tensors are drawn from: the tiny one's all from one run of draws;
/// the others' each from a seed of its own, a fixed step behind the one before it.
pub proof fn law_tensor_seeds(d: SyntheticDims, i: int)
    requires
        i >= 2,
    ensures
        seed_at(Fixture::Tiny, d, 0) == 0xdead_beef,
        seed_at(Fixture::Tiny, d, i) == lcg_state(
            seed_at(Fixture::Tiny, d, i - 1),
            (role_shape(role_at(Fixture::Tiny, i - 1), d).0 * role_shape(
                role_at(Fixture::Tiny, i - 1),
                d,
            ).1) as nat,
        ),
        seed_at(Fixture::Gemma3, d, 0) == 0x9e37_79b9,
        seed_at(Fixture::Gemma3, d, 1) == 0xa1b2_c3d4,
        seed_at(Fixture::Gemma3, d, i) as int == (0xdead_beef + (i - 1) * 0x9e37_79b9_7f4a_7c15int)
            % 0x1_0000_0000_0000_0000int,
        seed_at(Fixture::Starcoder2, d, 0) == 0x1234_5678,
        seed_at(Fixture::Starcoder2, d, 1) == 0x8765_4321,
        seed_at(Fixture::Starcoder2, d, i) as int == (0xfeed_babe + (i - 1)
            * 0x9e37_79b9_7f4a_7c15int) % 0x1_0000_0000_0000_0000int,
{
    let before = words_before(Fixture::Tiny, d, (i - 1) as nat);
    let role = role_at(Fixture::Tiny, i - 1);
    law_draws_go_on(0xdead_beef, before, role_words(role, d));
    assert(words_before(Fixture::Tiny, d, i as nat) == before + role_words(role, d));
}

/// What a fixture's vectors are filled with, and how long they are: biases with a
/// hundredth, norms with one, or with zero where one is added to them; as long as what
/// they are added to or scale.
pub proof fn law_vector_fills(f: Fixture, d: SyntheticDims, role: VectorRole)
    ensures
        role is QBias || role is KBias || role is VBias || role is OBias || role is UpBias
            || role is DownBias ==> vector_fill(f, role) == 0x3c23_d70a,
        !(role is QBias || role is KBias || role is VBias || role is OBias || role is UpBias
            || role is DownBias) ==> vector_fill(f, role) == (if f is Gemma3 {
            0u32
        } else {
            0x3f80_0000u32
        }),
        role is QNorm || role is KNorm ==> vector_len(role, d) == d.head_dim,
        role is QBias ==> vector_len(role, d) == d.num_q_heads * d.head_dim,
        role is KBias || role is VBias ==> vector_len(role, d) == d.num_kv_heads * d.head_dim,
        role is UpBias ==> vector_len(role, d) == d.intermediate,
        role is OBias || role is DownBias || role is InputNorm || role is PostAttnNorm
            || role is PreFfnNorm || role is PostFfnNorm || role is FinalNorm ==> vector_len(
            role,
            d,
        ) == d.hidden,
{
}

/// Which vectors a fixture has: the final norm, and then those of every layer.
pub proof fn law_vectors_in_order(f: Fixture, d: SyntheticDims, layer: int, k: int)
    requires
        0 <= layer < d.num_layers,
        0 <= k,
        f is Tiny ==> k < 2,
        f is Gemma3 ==> k < 6,
        f is Starcoder2 ==> k < 8,
    ensures
        ({
            let per = if f is Tiny {
                2int
            } else if f is Gemma3 {
                6int
            } else {
                8int
            };
            let i = 1 + per * layer + k;
            let v = vectors_of(f, d)[i];
            &&& vectors_of(f, d).len() == 1 + per * d.num_layers
            &&& 0 <= i < vectors_of(f, d).len()
            &&& vectors_of(f, d)[0].role is FinalNorm
            &&& v.layer == layer
            &&& v.role == layer_vector_role(f, k)
            &&& v.fill == vector_fill(f, v.role)
            &&& !(f is Starcoder2) && k == 0 ==> v.role is InputNorm
            &&& !(f is Starcoder2) && k == 1 ==> v.role is PostAttnNorm
            &&& f is Gemma3 && k == 2 ==> v.role is PreFfnNorm
            &&& f is Gemma3 && k == 3 ==> v.role is PostFfnNorm
            &&& f is Gemma3 && k == 4 ==> v.role is QNorm
            &&& f is Gemma3 && k == 5 ==> v.role is KNorm
            &&& f is Starcoder2 && k == 0 ==> v.role is QBias
            &&& f is Starcoder2 && k == 1 ==> v.role is KBias
            &&& f is Starcoder2 && k == 2 ==> v.role is VBias
            &&& f is Starcoder2 && k == 3 ==> v.role is OBias
            &&& f is Starcoder2 && k == 4 ==> v.role is UpBias
            &&& f is Starcoder2 && k == 5 ==> v.role is DownBias
            &&& f is Starcoder2 && k == 6 ==> v.role is InputNorm
            &&& f is Starcoder2 && k == 7 ==> v.role is PostAttnNorm
        }),
{
    let per: int = if f is Tiny {
        2
    } else if f is Gemma3 {
        6
    } else {
        8
    };
    let i = 1 + per * layer + k;
    let n = d.num_layers as int;
    assert(0 <= per * layer && per * layer + per <= per * n && (i - 1) % per == k && (i - 1) / per
        == layer) by (nonlinear_arith)
        requires
            0 <= layer < n,
            0 <= k < per,
            i == 1 + per * layer + k,
    ;
}

/// The settings of the fixtures: all turn by ten thousand; the residuals are halved
/// but in the tiny one, attention is doubled in one, and one states its turning
/// outright.
pub proof fn law_fixture_settings(f: Fixture)
    ensures
        settings_of(f).fixture == f,
        settings_of(f).rope_base == 0x40c3_8800_0000_0000,
        settings_of(f).rope_theta == (if f is Gemma3 {
            Some(0x40c3_8800_0000_0000u64)
        } else {
            None
        }),
        settings_of(f).residual_multiplier == (if f is Tiny {
            None
        } else {
            Some(0x3fe0_0000_0000_0000u64)
        }),
        settings_of(f).attention_multiplier == (if f is Starcoder2 {
            Some(0x4000_0000_0000_0000u64)
        } else {
            None
        }),
{
}

/// The word of a token is its number in square brackets.
pub proof fn law_token_words(i: nat)
    ensures
        token_word(i) == "["@ + decimal(i) + "]"@,
{
}

/// The words of a tokenizer are listed in the order of their tokens, each with its
/// number, a comma between two of them.
pub proof fn law_words_are_listed_in_order(i: nat)
    ensures
        words_text(0) == Seq::<char>::empty(),
        words_text(1) == "\""@ + token_word(0) + "\":"@ + decimal(0),
        i > 0 ==> words_text(i + 1) == words_text(i) + ","@ + "\""@ + token_word(i) + "\":"@
            + decimal(i),
{
    reveal_with_fuel(words_text, 2);
    let first = Seq::<char>::empty() + Seq::<char>::empty() + "\""@;
    assert(first =~= "\""@);
}

/// The tiny model's sizes, and the seed of a layer's gates.
pub proof fn law_tiny_sizes(layer: nat)
    ensures
        tiny_dims().vocab == 32 && tiny_dims().hidden == 16 && tiny_dims().intermediate == 32,
        tiny_dims().num_q_heads == 2 && tiny_dims().num_kv_heads == 1 && tiny_dims().head_dim == 8,
        tiny_dims().num_layers == 2,
        gate_seed(layer) as int == (0xab_cdefint + layer * 0x9e37_79b9_7f4a_7c15int)
            % 0x1_0000_0000_0000_0000int,
{
}

/// Every word of a fixture's tensor is a draw of its own, row by row, from the tensor's
/// seed on.
pub proof fn law_fixture_words(
    w: FixtureWeights,
    f: Fixture,
    d: SyntheticDims,
    i: int,
    r: int,
    c: int,
)
    requires
        weights_are(w, f, d),
        0 <= i < 2 + 7 * d.num_layers,
        0 <= r < role_shape(role_at(f, i), d).0,
        0 <= c < role_shape(role_at(f, i), d).1,
    ensures
        w.dims == d,
        w.settings == settings_of(f),
        w.tensors@.len() == 2 + 7 * d.num_layers,
        w.tensors@[i].role == role_at(f, i),
        w.tensors@[i].layer == layer_at(i),
        w.tensors@[i].draws@.len() == role_shape(role_at(f, i), d).0,
        w.tensors@[i].draws@[r].len() == role_shape(role_at(f, i), d).1,
        w.tensors@[i].draws@[r][c] as int == lcg_state(
            seed_at(f, d, i),
            (r * role_shape(role_at(f, i), d).1 + c + 1) as nat,
        ) as int % 0x1_0000_0000int,
{
    let shape = role_shape(role_at(f, i), d);
    let (rows, cols) = shape;
    assert(tensor_is(w.tensors@[i], f, d, i));
    assert(0 <= r * cols + c < rows * cols) by (nonlinear_arith)
        requires
            0 <= r < rows,
            0 <= c < cols,
    ;
}

} // verus!
