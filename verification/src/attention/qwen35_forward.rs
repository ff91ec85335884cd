//! Decisions of the hybrid model's forward pass: how a feed-forward part runs,
//! where a token's experts lie, and the pass of a token as a program.
use vstd::prelude::*;
use crate::attention::block_program::{
    apply, block_value, call_one_value, call_two_values, code_gives, follows, gated_code,
    kernels_mean, law_gated_code_computes_the_formula, law_run_computes_the_block,
    lemma_follows_carries, lemma_values, may_give, one, one_given, push_one, push_two, routed_code,
    run_block, run_code, run_kernels, step_gives, two_given, well_wired, Args, Instr, Kernel, Weight,
};
use crate::attention::layer_program::{
    end_pass, finish_layer, layer_follows, op_gives, op_width, pass_follows, start_pass, BlockKind,
    LayerFlags, Op, Source,
};
use crate::attention::quant_dispatch::{
    format_of, ggml_type_to_quant_format, QuantFormat, TYPE_Q5_K,
};
use crate::attention::deltanet_block::DeltaNetDims;
use crate::attention::qwen35_block::{
    block_allowed, hybrid_layer_step, law_step_rotates_to_the_next_position, layer_ran,
    lemma_key_is_rotated, one_row_more, sources_of, BlockShapes, DeltaNetHybridCache,
    Qwen35AttentionDims,
};
use crate::attention::dsv4_forward::row_given;
use crate::attention::routed_experts::{routed_callable, routed_ran, run_routed};
use crate::words::{contents, copy_row};

verus! {

/// The storage types of a feed-forward part's quantized projections; `None` for
/// a plain matrix.
#[derive(Clone, Copy, Debug, PartialEq, Eq, Structural)]
pub struct FfnTypes {
    pub gate: Option<u32>,
    pub up: Option<u32>,
    pub down: Option<u32>,
}

/// How a feed-forward part is run next.
#[derive(Clone, Copy, Debug, PartialEq, Eq, Structural)]
pub enum FfnStep {
    /// All three projections in one call of the device.
    FusedBlock,
    /// Gate and up in one call of the device.
    GateUpPair,
    /// Each projection by itself.
    Separate,
}

/// A quantized projection in one of the formats that the fused block takes.
pub open spec fn fusable(t: Option<u32>) -> bool {
    t matches Some(ty) && (format_of(ty) == Some(QuantFormat::Q4_K) || format_of(ty) == Some(
        QuantFormat::Q5_K,
    ))
}

/// A quantized projection in the four-bit format.
pub open spec fn four_bit(t: Option<u32>) -> bool {
    t matches Some(ty) && format_of(ty) == Some(QuantFormat::Q4_K)
}

/// The pair of gate and up can be tried.
pub open spec fn pair_possible(types: FfnTypes, has_backend: bool) -> bool {
    has_backend && four_bit(types.gate) && four_bit(types.up)
}

/// What is tried first: the fused block where a device is there and takes all
/// three projections, then the pair, then each by itself.
pub open spec fn first_step(types: FfnTypes, has_backend: bool) -> FfnStep {
    if has_backend && fusable(types.gate) && fusable(types.up) && fusable(types.down) {
        FfnStep::FusedBlock
    } else if pair_possible(types, has_backend) {
        FfnStep::GateUpPair
    } else {
        FfnStep::Separate
    }
}

/// What is tried when the device declined a step.
pub open spec fn step_after(step: FfnStep, types: FfnTypes, has_backend: bool) -> FfnStep {
    match step {
        FfnStep::FusedBlock => if pair_possible(types, has_backend) {
            FfnStep::GateUpPair
        } else {
            FfnStep::Separate
        },
        _ => FfnStep::Separate,
    }
}

fn is_fusable(t: Option<u32>) -> (r: bool)
    ensures
        r == fusable(t),
{
    match t {
        Some(ty) => match ggml_type_to_quant_format(ty) {
            Some(f) => f == QuantFormat::Q4_K || f == QuantFormat::Q5_K,
            None => false,
        },
        None => false,
    }
}

fn is_four_bit(t: Option<u32>) -> (r: bool)
    ensures
        r == four_bit(t),
{
    match t {
        Some(ty) => match ggml_type_to_quant_format(ty) {
            Some(f) => f == QuantFormat::Q4_K,
            None => false,
        },
        None => false,
    }
}

/// What a feed-forward part is run with first.
pub fn ffn_first_step(types: &FfnTypes, has_backend: bool) -> (s: FfnStep)
    ensures
        s == first_step(*types, has_backend),
{
    if has_backend && is_fusable(types.gate) && is_fusable(types.up) && is_fusable(types.down) {
        FfnStep::FusedBlock
    } else if has_backend && is_four_bit(types.gate) && is_four_bit(types.up) {
        FfnStep::GateUpPair
    } else {
        FfnStep::Separate
    }
}

/// What a feed-forward part is run with once the device declined a step.
pub fn ffn_next_step(step: FfnStep, types: &FfnTypes, has_backend: bool) -> (s: FfnStep)
    ensures
        s == step_after(step, *types, has_backend),
{
    match step {
        FfnStep::FusedBlock => if has_backend && is_four_bit(types.gate) && is_four_bit(types.up) {
            FfnStep::GateUpPair
        } else {
            FfnStep::Separate
        },
        _ => FfnStep::Separate,
    }
}

/// Two refusals are enough: after them each projection runs by itself, which
/// needs no device.
pub proof fn law_fallback_ends(types: FfnTypes, has_backend: bool)
    ensures
        step_after(
            step_after(first_step(types, has_backend), types, has_backend),
            types,
            has_backend,
        ) == FfnStep::Separate,
        !has_backend ==> first_step(types, has_backend) == FfnStep::Separate,
{
}

/// The five-bit type has no format, so a part with such a projection never runs
/// as a fused block.
pub proof fn law_five_bit_is_never_fused(types: FfnTypes, has_backend: bool)
    requires
        types.gate == Some(TYPE_Q5_K) || types.up == Some(TYPE_Q5_K) || types.down == Some(
            TYPE_Q5_K,
        ),
    ensures
        first_step(types, has_backend) != FfnStep::FusedBlock,
{
}

/// A step that a part of these types can run by.
pub open spec fn step_possible(step: FfnStep, types: FfnTypes) -> bool {
    match step {
        FfnStep::FusedBlock => fusable(types.gate) && fusable(types.up) && fusable(types.down),
        FfnStep::GateUpPair => four_bit(types.gate) && four_bit(types.up),
        FfnStep::Separate => true,
    }
}

/// Where a projection comes from.
pub open spec fn type_source(t: Option<u32>) -> Source {
    match t {
        Some(_) => Source::Quant,
        None => Source::Dense,
    }
}

/// The instructions of a part that runs by a step.
pub open spec fn part_code(step: FfnStep, types: FfnTypes) -> Seq<Instr> {
    let down = Kernel::Project(Weight::FfnDown, type_source(types.down));
    match step {
        FfnStep::FusedBlock => seq![
            one(
                Kernel::FfnBlock {
                    gate: format_of(types.gate->Some_0)->Some_0,
                    up: format_of(types.up->Some_0)->Some_0,
                    down: format_of(types.down->Some_0)->Some_0,
                },
                0,
            ),
        ],
        FfnStep::GateUpPair => gated_code(Kernel::PairGate, Kernel::PairUp, Kernel::SwiGlu, down),
        FfnStep::Separate => gated_code(
            Kernel::Project(Weight::FfnGate, type_source(types.gate)),
            Kernel::Project(Weight::FfnUp, type_source(types.up)),
            Kernel::SwiGlu,
            down,
        ),
    }
}

/// The step that a part runs by in the end, where the device takes some calls
/// and declines others.
pub open spec fn settled_step(
    types: FfnTypes,
    has_backend: bool,
    takes_block: bool,
    takes_pair: bool,
) -> FfnStep {
    let first = first_step(types, has_backend);
    let second = if first is FusedBlock && !takes_block {
        step_after(first, types, has_backend)
    } else {
        first
    };
    if second is GateUpPair && !takes_pair {
        step_after(second, types, has_backend)
    } else {
        second
    }
}

fn source_for(t: Option<u32>) -> (s: Source)
    ensures
        s == type_source(t),
{
    match t {
        Some(_) => Source::Quant,
        None => Source::Dense,
    }
}

/// The format of a quantized projection whose type has one.
fn format_for(t: Option<u32>) -> (f: QuantFormat)
    requires
        t is Some,
        format_of(t->Some_0) is Some,
    ensures
        format_of(t->Some_0) == Some(f),
{
    ggml_type_to_quant_format(t.unwrap()).unwrap()
}

/// A part that runs by a step: its kernels, and how they are wired.
pub fn ffn_part(step: FfnStep, types: &FfnTypes) -> (code: Vec<Instr>)
    requires
        step_possible(step, *types),
    ensures
        code@ == part_code(step, *types),
        well_wired(code@),
{
    let mut code: Vec<Instr> = Vec::new();
    match step {
        FfnStep::FusedBlock => {
            let gate: QuantFormat = format_for(types.gate);
            let up: QuantFormat = format_for(types.up);
            let down: QuantFormat = format_for(types.down);
            push_one(&mut code, Kernel::FfnBlock { gate, up, down }, 0);
        },
        FfnStep::GateUpPair => {
            push_one(&mut code, Kernel::PairGate, 0);
            push_one(&mut code, Kernel::PairUp, 0);
            push_two(&mut code, Kernel::SwiGlu, 1, 2);
            push_one(&mut code, Kernel::Project(Weight::FfnDown, source_for(types.down)), 3);
        },
        FfnStep::Separate => {
            push_one(&mut code, Kernel::Project(Weight::FfnGate, source_for(types.gate)), 0);
            push_one(&mut code, Kernel::Project(Weight::FfnUp, source_for(types.up)), 0);
            push_two(&mut code, Kernel::SwiGlu, 1, 2);
            push_one(&mut code, Kernel::Project(Weight::FfnDown, source_for(types.down)), 3);
        },
    }
    assert(code@ =~= part_code(step, *types));
    code
}

/// A gated feed-forward part: its kernels, and how they are wired, where the
/// device takes a whole part or a pair of products when it is asked to, or
/// declines.
pub fn swiglu_ffn_code(
    types: &FfnTypes,
    has_backend: bool,
    takes_block: bool,
    takes_pair: bool,
) -> (code: Vec<Instr>)
    ensures
        code@ == part_code(
            settled_step(*types, has_backend, takes_block, takes_pair),
            *types,
        ),
        well_wired(code@),
{
    let mut step: FfnStep = ffn_first_step(types, has_backend);
    if step == FfnStep::FusedBlock && !takes_block {
        step = ffn_next_step(step, types, has_backend);
    }
    if step == FfnStep::GateUpPair && !takes_pair {
        step = ffn_next_step(step, types, has_backend);
    }
    ffn_part(step, types)
}

/// Every step that the device is asked for is one that a part of these types can
/// run by.
pub proof fn law_steps_are_possible(
    types: FfnTypes,
    has_backend: bool,
    takes_block: bool,
    takes_pair: bool,
)
    ensures
        step_possible(first_step(types, has_backend), types),
        step_possible(settled_step(types, has_backend, takes_block, takes_pair), types),
{
}

/// What a gated feed-forward part computes: the down projection of the gated
/// product of the other two.
pub open spec fn part_formula<V>(m: spec_fn(Kernel, Seq<V>) -> V, x: V, types: FfnTypes) -> V {
    let gate = m(Kernel::Project(Weight::FfnGate, type_source(types.gate)), seq![x]);
    let up = m(Kernel::Project(Weight::FfnUp, type_source(types.up)), seq![x]);
    m(
        Kernel::Project(Weight::FfnDown, type_source(types.down)),
        seq![m(Kernel::SwiGlu, seq![gate, up])],
    )
}

/// The device's calls compute what the single products do.
pub open spec fn device_agrees<V>(m: spec_fn(Kernel, Seq<V>) -> V, types: FfnTypes) -> bool {
    &&& forall|x: V|
        #![trigger m(Kernel::PairGate, seq![x])]
        m(Kernel::PairGate, seq![x]) == m(
            Kernel::Project(Weight::FfnGate, Source::Quant),
            seq![x],
        )
    &&& forall|x: V|
        #![trigger m(Kernel::PairUp, seq![x])]
        m(Kernel::PairUp, seq![x]) == m(Kernel::Project(Weight::FfnUp, Source::Quant), seq![x])
    &&& forall|x: V, gate: QuantFormat, up: QuantFormat, down: QuantFormat|
        #![trigger m(Kernel::FfnBlock { gate, up, down }, seq![x])]
        m(Kernel::FfnBlock { gate, up, down }, seq![x]) == part_formula(m, x, types)
}

/// Whatever the device takes or declines, a part computes the same: the down
/// projection of the gated product, as long as the device's calls compute what
/// the single products do.
pub proof fn law_every_route_computes_the_part<V>(
    m: spec_fn(Kernel, Seq<V>) -> V,
    x: V,
    types: FfnTypes,
    has_backend: bool,
    takes_block: bool,
    takes_pair: bool,
)
    requires
        device_agrees(m, types),
    ensures
        block_value(
            m,
            x,
            part_code(settled_step(types, has_backend, takes_block, takes_pair), types),
        ) == part_formula(m, x, types),
{
    let step = settled_step(types, has_backend, takes_block, takes_pair);
    let down = Kernel::Project(Weight::FfnDown, type_source(types.down));
    match step {
        FfnStep::FusedBlock => {
            let code = part_code(step, types);
            lemma_values(m, x, code);
            let v = run_block(m, x, code);
            assert(v[1] == apply(m, v, code[0]));
        },
        FfnStep::GateUpPair => {
            law_gated_code_computes_the_formula(
                m,
                x,
                Kernel::PairGate,
                Kernel::PairUp,
                Kernel::SwiGlu,
                down,
            );
        },
        FfnStep::Separate => {
            law_gated_code_computes_the_formula(
                m,
                x,
                Kernel::Project(Weight::FfnGate, type_source(types.gate)),
                Kernel::Project(Weight::FfnUp, type_source(types.up)),
                Kernel::SwiGlu,
                down,
            );
        },
    }
}

/// The device was asked for a whole part and gave `out`, nothing where it
/// declined.
pub open spec fn block_answered<V, B: Fn(&V, QuantFormat, QuantFormat, QuantFormat) -> Option<V>>(
    block: B,
    types: FfnTypes,
    x: V,
    out: Option<V>,
) -> bool {
    exists|gate: QuantFormat, up: QuantFormat, down: QuantFormat|
        {
            &&& #[trigger] call_ensures(block, (&x, gate, up, down), out)
            &&& format_of(types.gate->Some_0) == Some(gate)
            &&& format_of(types.up->Some_0) == Some(up)
            &&& format_of(types.down->Some_0) == Some(down)
        }
}

/// The gated product of a gate and an up projection, projected down.
pub open spec fn pair_finished<V, F: Fn(usize, Kernel, Vec<&V>) -> V>(
    kernels: F,
    layer: usize,
    types: FfnTypes,
    gate: V,
    up: V,
    y: V,
) -> bool {
    exists|inner: V|
        #[trigger] two_given(kernels, layer, Kernel::SwiGlu, gate, up, inner) && one_given(
            kernels,
            layer,
            Kernel::Project(Weight::FfnDown, type_source(types.down)),
            inner,
            y,
        )
}

/// A gated feed-forward part ran on `x` and gave `y`. The device is asked for the
/// whole part where it takes all three projections, then for the pair of gate and
/// up where it takes those; what it gives is used, and where it declines the next
/// way is taken. In the end each projection runs by itself.
pub open spec fn part_ran<
    V,
    B: Fn(&V, QuantFormat, QuantFormat, QuantFormat) -> Option<V>,
    P: Fn(&V) -> Option<(V, V)>,
    F: Fn(usize, Kernel, Vec<&V>) -> V,
>(
    block: B,
    pair: P,
    kernels: F,
    layer: usize,
    types: FfnTypes,
    has_backend: bool,
    x: V,
    y: V,
) -> bool {
    let fused = first_step(types, has_backend) is FusedBlock;
    let paired = pair_possible(types, has_backend);
    ||| fused && block_answered(block, types, x, Some(y))
    ||| {
        &&& fused ==> block_answered(block, types, x, None)
        &&& paired
        &&& exists|gate: V, up: V|
            #[trigger] call_ensures(pair, (&x,), Some((gate, up))) && pair_finished(
                kernels,
                layer,
                types,
                gate,
                up,
                y,
            )
    }
    ||| {
        &&& fused ==> block_answered(block, types, x, None)
        &&& paired ==> call_ensures(pair, (&x,), None)
        &&& code_gives(kernels, layer, part_code(FfnStep::Separate, types), x, y)
    }
}

/// A gated feed-forward part of a layer. The floating-point kernels are the
/// caller's, and so are the two calls of the device, which may decline.
pub fn swiglu_ffn_lazy<
    V,
    B: Fn(&V, QuantFormat, QuantFormat, QuantFormat) -> Option<V>,
    P: Fn(&V) -> Option<(V, V)>,
    F: Fn(usize, Kernel, Vec<&V>) -> V,
>(
    x: V,
    layer: usize,
    types: &FfnTypes,
    has_backend: bool,
    block: &B,
    pair: &P,
    kernels: &F,
) -> (y: V)
    requires
        forall|v: &V, gate: QuantFormat, up: QuantFormat, down: QuantFormat|
            call_requires(*block, (v, gate, up, down)),
        forall|v: &V| call_requires(*pair, (v,)),
        forall|k: Kernel, a: Vec<&V>| call_requires(*kernels, (layer, k, a)),
    ensures
        part_ran(*block, *pair, *kernels, layer, *types, has_backend, x, y),
{
    let ghost given = x;
    let mut step: FfnStep = ffn_first_step(types, has_backend);
    if step == FfnStep::FusedBlock {
        let gate: QuantFormat = format_for(types.gate);
        let up: QuantFormat = format_for(types.up);
        let down: QuantFormat = format_for(types.down);
        let out: Option<V> = block(&x, gate, up, down);
        assert(call_ensures(*block, (&given, gate, up, down), out));
        assert(block_answered(*block, *types, given, out));
        match out {
            Some(y) => return y,
            None => {
                step = ffn_next_step(step, types, has_backend);
            },
        }
    }
    if step == FfnStep::GateUpPair {
        let out: Option<(V, V)> = pair(&x);
        assert(call_ensures(*pair, (&given,), out));
        if let Some((gate, up)) = out {
            let inner: V = call_two_values(kernels, layer, Kernel::SwiGlu, &gate, &up);
            let down: Kernel = Kernel::Project(Weight::FfnDown, source_for(types.down));
            let y: V = call_one_value(kernels, layer, down, &inner);
            assert(pair_finished(*kernels, layer, *types, gate, up, y));
            return y;
        }
    }
    let code: Vec<Instr> = ffn_part(FfnStep::Separate, types);
    run_code(&code, layer, x, kernels)
}

/// Whatever the device gives or declines, a part computes the same: the down
/// projection of the gated product, as long as the kernels mean `m` and the
/// device's calls compute what the single products do.
pub proof fn law_part_computes_the_formula<
    V,
    B: Fn(&V, QuantFormat, QuantFormat, QuantFormat) -> Option<V>,
    P: Fn(&V) -> Option<(V, V)>,
    F: Fn(usize, Kernel, Vec<&V>) -> V,
>(
    block: B,
    pair: P,
    kernels: F,
    m: spec_fn(Kernel, Seq<V>) -> V,
    layer: usize,
    types: FfnTypes,
    has_backend: bool,
    x: V,
    y: V,
)
    requires
        part_ran(block, pair, kernels, layer, types, has_backend, x, y),
        kernels_mean(kernels, layer, m),
        forall|out: V|
            block_answered(block, types, x, Some(out)) ==> out == part_formula(m, x, types),
        forall|gate: V, up: V| #[trigger]
            call_ensures(pair, (&x,), Some((gate, up))) ==> gate == m(
                Kernel::Project(Weight::FfnGate, Source::Quant),
                seq![x],
            ) && up == m(Kernel::Project(Weight::FfnUp, Source::Quant), seq![x]),
    ensures
        y == part_formula(m, x, types),
{
    let code = part_code(FfnStep::Separate, types);
    if code_gives(kernels, layer, code, x, y) {
        law_gated_code_computes_the_formula(
            m,
            x,
            Kernel::Project(Weight::FfnGate, type_source(types.gate)),
            Kernel::Project(Weight::FfnUp, type_source(types.up)),
            Kernel::SwiGlu,
            Kernel::Project(Weight::FfnDown, type_source(types.down)),
        );
        law_run_computes_the_block(kernels, layer, m, code, x, y);
    }
}

/// The shared expert is there where all three of its projections are.
pub open spec fn has_shared(gate: bool, up: bool, down: bool) -> bool {
    gate && up && down
}

/// The routed experts of a token: their kernels, and how they are wired. The
/// shared expert runs where all three of its projections are there.
pub fn swiglu_moe_code(top_k: usize, shexp_gate: bool, shexp_up: bool, shexp_down: bool) -> (code:
    Vec<Instr>)
    ensures
        code@ == routed_code(top_k, has_shared(shexp_gate, shexp_up, shexp_down)),
        well_wired(code@),
{
    let mut code: Vec<Instr> = Vec::new();
    push_one(&mut code, Kernel::Project(Weight::Router, Source::Quant), 0);
    push_two(&mut code, Kernel::RouteExperts { k: top_k, scale: None }, 0, 1);
    if shexp_gate && shexp_up && shexp_down {
        push_one(&mut code, Kernel::SharedExpert { limit: None }, 0);
        push_two(&mut code, Kernel::Add, 2, 3);
    }
    assert(code@ =~= routed_code(top_k, has_shared(shexp_gate, shexp_up, shexp_down)));
    code
}

/// The values of a token's routed experts that ran on `x`: the router scores them,
/// the best are weighted and added up, and the shared expert is added where there
/// is one.
pub open spec fn routed_values<
    F: Fn(usize, Kernel, Vec<Vec<u32>>) -> Vec<u32>,
    W: Fn(&Vec<u32>, Option<u32>) -> Vec<u32>,
    E: Fn(usize, &Vec<u32>) -> Vec<u32>,
    A: Fn(u32, &Vec<u32>, &Vec<u32>) -> Vec<u32>,
>(
    kernels: F,
    weigh: W,
    expert: E,
    accumulate: A,
    layer: usize,
    top_k: usize,
    shared: bool,
    x: Seq<u32>,
    values: Seq<Seq<u32>>,
) -> bool {
    let code = routed_code(top_k, shared);
    &&& values.len() == code.len() + 1
    &&& values[0] == x
    &&& follows(kernels, layer, code, values, 0, 1)
    &&& routed_ran(
        weigh,
        expert,
        accumulate,
        x,
        values[1],
        top_k as nat,
        None,
        x.len(),
        values[2],
    )
    &&& follows(kernels, layer, code, values, 2, code.len() as int)
}

/// The routed experts of a token in a layer. The floating-point work is the
/// caller's: the kernels, the weights of the picked scores, an expert on the row,
/// and the addition of a weighted row.
pub fn swiglu_moe_lazy<
    F: Fn(usize, Kernel, Vec<Vec<u32>>) -> Vec<u32>,
    W: Fn(&Vec<u32>, Option<u32>) -> Vec<u32>,
    E: Fn(usize, &Vec<u32>) -> Vec<u32>,
    A: Fn(u32, &Vec<u32>, &Vec<u32>) -> Vec<u32>,
>(
    x: &Vec<u32>,
    layer: usize,
    num_experts: usize,
    top_k: usize,
    shexp_gate: bool,
    shexp_up: bool,
    shexp_down: bool,
    kernels: &F,
    weigh: &W,
    expert: &E,
    accumulate: &A,
) -> (y: Vec<u32>)
    requires
        forall|k: Kernel, a: Vec<Vec<u32>>| call_requires(*kernels, (layer, k, a)),
        forall|args: Seq<Seq<u32>>, out: Seq<u32>| #[trigger]
            may_give(
                *kernels,
                layer,
                Kernel::Project(Weight::Router, Source::Quant),
                args,
                out,
            ) ==> out.len() == num_experts,
        routed_callable(*weigh, *expert, *accumulate, num_experts as nat),
    ensures
        exists|values: Seq<Seq<u32>>| #[trigger]
            routed_values(
                *kernels,
                *weigh,
                *expert,
                *accumulate,
                layer,
                top_k,
                has_shared(shexp_gate, shexp_up, shexp_down),
                x@,
                values,
            ) && y@ == values.last(),
{
    let code: Vec<Instr> = swiglu_moe_code(top_k, shexp_gate, shexp_up, shexp_down);
    let n: usize = code.len();
    let mut values: Vec<Vec<u32>> = Vec::new();
    values.push(copy_row(x));
    run_kernels(&code, 1, layer, &mut values, kernels);
    let ghost first = contents(values@);
    proof {
        assert(first.take(1)[0] == x@);
        assert(may_give(*kernels, layer, code@[0].kernel, seq![first[0]], first[1]));
        assert(first[1] == values@[1]@);
    }
    let routed: Vec<u32> = run_routed(
        x,
        &values[1],
        top_k,
        None,
        x.len(),
        weigh,
        expert,
        accumulate,
    );
    values.push(routed);
    let ghost second = contents(values@);
    run_kernels(&code, n, layer, &mut values, kernels);
    proof {
        let all = contents(values@);
        assert forall|i: int| 0 <= i < 3 implies all[i] == second[i] by {
            assert(all.take(3)[i] == all[i]);
        }
        assert forall|i: int| 0 <= i < 2 implies all[i] == first[i] by {
            assert(all[i] == second[i]);
        }
        lemma_follows_carries(*kernels, layer, code@, first, all, 0, 1);
        assert(all[2] == second[2]);
        assert(routed_values(
            *kernels,
            *weigh,
            *expert,
            *accumulate,
            layer,
            top_k,
            has_shared(shexp_gate, shexp_up, shexp_down),
            x@,
            all,
        ));
        assert(all[n as int] == values@[n as int]@);
    }
    copy_row(&values[n])
}

/// The rows of an expert in a tensor that packs all experts one behind the
/// other.
pub fn expert_rows(expert: usize, num_experts: usize, packed_rows: usize) -> (r: (usize, usize))
    requires
        expert < num_experts,
        packed_rows % num_experts == 0,
    ensures
        r.0 == expert * (packed_rows as int / num_experts as int),
        r.1 == r.0 + packed_rows as int / num_experts as int,
        r.1 <= packed_rows,
{
    let per: usize = packed_rows / num_experts;
    proof {
        let e = expert as int;
        let n = num_experts as int;
        let p = packed_rows as int;
        let w = p / n;
        assert(0 <= e * w && e * w + w <= p) by (nonlinear_arith)
            requires
                0 <= e < n,
                p % n == 0,
                p >= 0,
                w == p / n,
        ;
    }
    (expert * per, expert * per + per)
}

/// The rows of two experts do not overlap.
pub proof fn law_experts_do_not_overlap(a: nat, b: nat, per: nat)
    requires
        a < b,
    ensures
        a * per + per <= b * per,
{
    assert(a * per + per <= b * per) by (nonlinear_arith)
        requires
            a < b,
            per >= 0,
    ;
}

/// A model's layers are those that a cache is for.
pub open spec fn layers_match(layers: Seq<LayerFlags>, cache: DeltaNetHybridCache) -> bool {
    &&& layers.len() == cache.layer_kinds@.len()
    &&& forall|l: int|
        0 <= l < layers.len() ==> (#[trigger] layers[l]).block == (if cache.layer_kinds@[l] {
            BlockKind::Linear
        } else {
            BlockKind::Attention
        })
}

/// Where something comes from.
pub open spec fn source_if(is_quant: bool) -> Source {
    if is_quant {
        Source::Quant
    } else {
        Source::Dense
    }
}

/// A model's blocks can run at a cache, with the kernels that are brought.
pub open spec fn blocks_allowed<F: Fn(usize, Kernel, Vec<Vec<u32>>) -> Vec<u32>>(
    blocks: Seq<BlockShapes>,
    dn: DeltaNetDims,
    dims: Qwen35AttentionDims,
    cache: DeltaNetHybridCache,
    kernels: F,
) -> bool {
    &&& blocks.len() == cache.layer_kinds@.len()
    &&& forall|l: usize, k: Kernel, a: Vec<Vec<u32>>| call_requires(kernels, (l, k, a))
    &&& forall|l: int|
        0 <= l < blocks.len() ==> block_allowed(
            #[trigger] blocks[l],
            dn,
            dims,
            cache,
            l as usize,
            kernels,
        )
}

/// The pass of one token: the embedding, every layer at the cache's next
/// position, the final norm and the scores. Every softmax layer gains the token's
/// key and value behind its old ones, every linear layer's state moves on, and
/// the cache moves on by one position.
pub fn qwen35_forward_step<
    F: Fn(usize, Kernel, Vec<Vec<u32>>) -> Vec<u32>,
    G: Fn(Op, Vec<Vec<u32>>) -> Vec<u32>,
>(
    token_id: u32,
    layers: &[LayerFlags],
    blocks: &[BlockShapes],
    embed_is_quant: bool,
    head_is_quant: bool,
    dn: &DeltaNetDims,
    dims: &Qwen35AttentionDims,
    cache: &mut DeltaNetHybridCache,
    kernels: &F,
    ops: &G,
) -> (logits: Vec<u32>)
    requires
        old(cache).wf(),
        old(cache).next_position < usize::MAX,
        layers_match(layers@, *old(cache)),
        blocks_allowed(blocks@, *dn, *dims, *old(cache), *kernels),
        forall|o: Op, a: Vec<Vec<u32>>| call_requires(*ops, (o, a)),
    ensures
        forall|n: nat| #[trigger]
            op_width(*ops, Op::LmHead(source_if(head_is_quant)), n) ==> logits@.len() == n,
        final(cache).wf(),
        final(cache).next_position == old(cache).next_position + 1,
        final(cache).layer_kinds == old(cache).layer_kinds,
        final(cache).kv_dim == old(cache).kv_dim,
        final(cache).dn_state.shape == old(cache).dn_state.shape,
        forall|l: int|
            0 <= l < final(cache).layer_kinds@.len() ==> match #[trigger] final(cache).kv_layers@[l] {
                Some(s) => old(cache).kv_layers@[l] is Some && one_row_more(
                    old(cache).kv_layers@[l]->Some_0,
                    s,
                    old(cache).kv_dim as nat,
                ),
                None => old(cache).kv_layers@[l] is None,
            },
        forall|l: int|
            0 <= l < final(cache).layer_kinds@.len() && (#[trigger] final(cache).kv_layers@[l]) is Some ==> exists|normed: Seq<u32>| #[trigger]
                row_given(
                    *kernels,
                    l as usize,
                    Kernel::Rotate {
                        heads: dims.n_head_kv,
                        width: dims.head_dim,
                        position: old(cache).next_position,
                    },
                    normed,
                    final(cache).kv_layers@[l]->Some_0.k@[old(cache).next_position as int],
                ),
        exists|xs: Seq<Seq<u32>>, outs: Seq<Seq<u32>>|
            {
                &&& #[trigger] pass_follows(
                    *ops,
                    layers@,
                    token_id,
                    source_if(embed_is_quant),
                    source_if(head_is_quant),
                    xs,
                    outs,
                    logits@,
                )
                &&& forall|l: int|
                    0 <= l < outs.len() ==> layer_ran(
                        blocks@[l],
                        *kernels,
                        *dn,
                        *dims,
                        l as usize,
                        *old(cache),
                        xs[l],
                        *final(cache),
                        #[trigger] outs[l],
                    )
            },
{
    let ghost before = *cache;
    let embed: Source = if embed_is_quant {
        Source::Quant
    } else {
        Source::Dense
    };
    let head: Source = if head_is_quant {
        Source::Quant
    } else {
        Source::Dense
    };
    let n: usize = layers.len();
    let mut x: Vec<u32> = start_pass(ops, token_id, embed);
    let ghost mut xs: Seq<Seq<u32>> = seq![x@];
    let ghost mut outs: Seq<Seq<u32>> = Seq::empty();
    let mut l: usize = 0;
    while l < n
        invariant
            l <= n,
            n == layers@.len(),
            n == before.layer_kinds@.len(),
            before.wf(),
            before.next_position < usize::MAX,
            layers_match(layers@, before),
            blocks_allowed(blocks@, *dn, *dims, before, *kernels),
            forall|o: Op, a: Vec<Vec<u32>>| call_requires(*ops, (o, a)),
            cache.mid_step(l as nat),
            cache.next_position == before.next_position,
            cache.layer_kinds == before.layer_kinds,
            cache.kv_dim == before.kv_dim,
            cache.dn_state.shape == before.dn_state.shape,
            cache.kv_layers@.len() == n,
            cache.dn_state.layers@.len() == n,
            xs.len() == l + 1,
            outs.len() == l,
            x@ == xs[l as int],
            op_gives(*ops, Op::Embed(token_id, embed), Seq::empty(), xs[0]),
            forall|i: int|
                0 <= i < l ==> layer_ran(
                    blocks@[i],
                    *kernels,
                    *dn,
                    *dims,
                    i as usize,
                    before,
                    xs[i],
                    *cache,
                    #[trigger] outs[i],
                ),
            forall|i: int|
                0 <= i < l ==> layer_follows(
                    *ops,
                    layers@[i],
                    i as usize,
                    xs[i],
                    #[trigger] outs[i],
                    xs[i + 1],
                ),
            forall|i: int| l <= i < n ==> #[trigger] cache.kv_layers@[i] == before.kv_layers@[i],
            forall|i: int|
                l <= i < n ==> #[trigger] cache.dn_state.layers@[i] == before.dn_state.layers@[i],
        decreases n - l,
    {
        let ghost mid = *cache;
        let ghost done = outs;
        proof {
            mid.lemma_mid_step_is_shaped(l as nat);
            assert(block_allowed(blocks@[l as int], *dn, *dims, before, l, *kernels));
            let kv = mid.kv_layers@[l as int];
        }
        let block: Vec<u32> = hybrid_layer_step(l, &x, &blocks[l], dn, dims, cache, kernels);
        let next: Vec<u32> = finish_layer(ops, &layers[l], l, &x, &block);
        proof {
            assert forall|i: int| 0 <= i < l implies layer_ran(
                blocks@[i],
                *kernels,
                *dn,
                *dims,
                i as usize,
                before,
                xs[i],
                *cache,
                #[trigger] done[i],
            ) by {
                assert(cache.kv_layers@[i] == mid.kv_layers@[i]);
                assert(cache.dn_state.layers@[i] == mid.dn_state.layers@[i]);
            }
            xs = xs.push(next@);
            outs = outs.push(block@);
        }
        x = next;
        l += 1;
    }
    let logits: Vec<u32> = end_pass(ops, head, &x);
    let ghost mid = *cache;
    cache.advance();
    proof {
        assert(pass_follows(*ops, layers@, token_id, embed, head, xs, outs, logits@));
        assert forall|i: int| 0 <= i < n implies match #[trigger] cache.kv_layers@[i] {
            Some(s) => before.kv_layers@[i] is Some && one_row_more(
                before.kv_layers@[i]->Some_0,
                s,
                before.kv_dim as nat,
            ),
            None => before.kv_layers@[i] is None,
        } by {
            let o = outs[i];
            let b = blocks@[i];
            assert(layer_ran(blocks@[i], *kernels, *dn, *dims, i as usize, before, xs[i], mid, o));
            assert(before.kv_layers@[i] is None == before.layer_kinds@[i]);
        }
        assert forall|i: int| 0 <= i < n && (#[trigger] cache.kv_layers@[i]) is Some implies exists|
            normed: Seq<u32>,
        | #[trigger]
            row_given(
                *kernels,
                i as usize,
                Kernel::Rotate {
                    heads: dims.n_head_kv,
                    width: dims.head_dim,
                    position: before.next_position,
                },
                normed,
                cache.kv_layers@[i]->Some_0.k@[before.next_position as int],
            ) by {
            let o = outs[i];
            let b = blocks@[i];
            assert(layer_ran(b, *kernels, *dn, *dims, i as usize, before, xs[i], mid, o));
            assert(before.kv_layers@[i] is None == before.layer_kinds@[i]);
            let slabs = before.kv_layers@[i]->Some_0;
            lemma_key_is_rotated(
                *kernels,
                i as usize,
                sources_of(b->Attention_0),
                *dims,
                before.next_position,
                slabs,
                xs[i],
                mid.kv_layers@[i]->Some_0,
                o,
            );
        }
    }
    logits
}

/// A key row is one that the rotation of all key heads to a position may give.
pub open spec fn rotated_to<F: Fn(usize, Kernel, Vec<Vec<u32>>) -> Vec<u32>>(
    kernels: F,
    layer: usize,
    dims: Qwen35AttentionDims,
    position: usize,
    row: Seq<u32>,
) -> bool {
    exists|normed: Seq<u32>| #[trigger]
        row_given(
            kernels,
            layer,
            Kernel::Rotate { heads: dims.n_head_kv, width: dims.head_dim, position },
            normed,
            row,
        )
}

/// Every key row of a softmax layer was rotated to its own number.
pub open spec fn rows_in_place<F: Fn(usize, Kernel, Vec<Vec<u32>>) -> Vec<u32>>(
    kernels: F,
    layer: usize,
    dims: Qwen35AttentionDims,
    rows: Seq<Seq<u32>>,
) -> bool {
    forall|i: int|
        0 <= i < rows.len() ==> rotated_to(kernels, layer, dims, i as usize, #[trigger] rows[i])
}

/// Two tokens one behind the other: row `i` of a softmax layer's keys was rotated to
/// position `i`. The first token's key went behind the cache's rows and was rotated
/// to their number, the second token's to the next, and rows that were in place stay
/// so.
pub proof fn law_key_rows_are_rotated_to_their_numbers<
    F: Fn(usize, Kernel, Vec<Vec<u32>>) -> Vec<u32>,
>(
    block: BlockShapes,
    kernels: F,
    dn: DeltaNetDims,
    dims: Qwen35AttentionDims,
    layer: usize,
    c0: DeltaNetHybridCache,
    x0: Seq<u32>,
    y0: Seq<u32>,
    c1: DeltaNetHybridCache,
    x1: Seq<u32>,
    y1: Seq<u32>,
    c2: DeltaNetHybridCache,
)
    requires
        block is Attention,
        c0.wf() && c1.wf(),
        layer < c0.layer_kinds@.len() && layer < c1.layer_kinds@.len(),
        layer_ran(block, kernels, dn, dims, layer, c0, x0, c1, y0),
        layer_ran(block, kernels, dn, dims, layer, c1, x1, c2, y1),
    ensures
        ({
            let old_keys = c0.kv_layers@[layer as int]->Some_0.k@;
            let keys = c2.kv_layers@[layer as int]->Some_0.k@;
            let p = old_keys.len() as int;
            &&& c1.next_position == c0.next_position + 1
            &&& keys.len() == p + 2
            &&& forall|i: int| 0 <= i < p ==> #[trigger] keys[i] == old_keys[i]
            &&& exists|normed: Seq<u32>| #[trigger]
                row_given(
                    kernels,
                    layer,
                    Kernel::Rotate {
                        heads: dims.n_head_kv,
                        width: dims.head_dim,
                        position: p as usize,
                    },
                    normed,
                    keys[p],
                )
            &&& exists|normed: Seq<u32>| #[trigger]
                row_given(
                    kernels,
                    layer,
                    Kernel::Rotate {
                        heads: dims.n_head_kv,
                        width: dims.head_dim,
                        position: (p + 1) as usize,
                    },
                    normed,
                    keys[p + 1],
                )
            &&& rows_in_place(kernels, layer, dims, old_keys) ==> rows_in_place(
                kernels,
                layer,
                dims,
                keys,
            )
        }),
{
    let shapes = block->Attention_0;
    law_step_rotates_to_the_next_position(shapes, kernels, dn, dims, layer, c0, x0, c1, y0);
    law_step_rotates_to_the_next_position(shapes, kernels, dn, dims, layer, c1, x1, c2, y1);
    let old_keys = c0.kv_layers@[layer as int]->Some_0.k@;
    let mid_keys = c1.kv_layers@[layer as int]->Some_0.k@;
    let keys = c2.kv_layers@[layer as int]->Some_0.k@;
    let p = old_keys.len() as int;
    assert forall|i: int| 0 <= i < p implies #[trigger] keys[i] == old_keys[i] by {
        assert(keys[i] == mid_keys[i]);
    }
    assert(keys[p] == mid_keys[p]);
    assert(p as usize == c0.next_position);
    assert((p + 1) as usize == c1.next_position);
    assert(keys[p + 1] == keys[c1.next_position as int]);
    assert(rotated_to(kernels, layer, dims, p as usize, keys[p]));
    assert(rotated_to(kernels, layer, dims, (p + 1) as usize, keys[p + 1]));
    if rows_in_place(kernels, layer, dims, old_keys) {
        assert forall|i: int| 0 <= i < keys.len() implies rotated_to(
            kernels,
            layer,
            dims,
            i as usize,
            #[trigger] keys[i],
        ) by {
            if i < p {
                assert(keys[i] == old_keys[i]);
            }
        }
    }
}

/// How a feed-forward part is first tried: in one call of the device only where there
/// is a device and all three projections are of the four-bit type; gate and up in one
/// call where there is a device and those two are; else each projection by itself.
pub proof fn law_first_try(types: FfnTypes, has_backend: bool)
    ensures
        first_step(types, has_backend) is FusedBlock <==> has_backend && types.gate == Some(12u32)
            && types.up == Some(12u32) && types.down == Some(12u32),
        first_step(types, has_backend) is GateUpPair <==> has_backend && types.gate == Some(12u32)
            && types.up == Some(12u32) && types.down != Some(12u32),
        pair_possible(types, has_backend) <==> has_backend && types.gate == Some(12u32) && types.up
            == Some(12u32),
{
}

/// What comes after a try that the device declined: after the whole part the pair of
/// gate and up, which are then of the four-bit type too, and after anything else each
/// projection by itself.
pub proof fn law_next_try(types: FfnTypes, has_backend: bool)
    ensures
        first_step(types, has_backend) is FusedBlock ==> step_after(
            FfnStep::FusedBlock,
            types,
            has_backend,
        ) is GateUpPair,
        step_after(FfnStep::GateUpPair, types, has_backend) is Separate,
        step_after(FfnStep::Separate, types, has_backend) is Separate,
        step_after(FfnStep::FusedBlock, types, has_backend) is GateUpPair <==> has_backend
            && types.gate == Some(12u32) && types.up == Some(12u32),
{
}

/// Which step a part settles on, by what the device takes.
pub proof fn law_settled_step(
    types: FfnTypes,
    has_backend: bool,
    takes_block: bool,
    takes_pair: bool,
)
    ensures
        settled_step(types, has_backend, takes_block, takes_pair) is FusedBlock <==> has_backend
            && takes_block && types.gate == Some(12u32) && types.up == Some(12u32) && types.down
            == Some(12u32),
        settled_step(types, has_backend, takes_block, takes_pair) is GateUpPair <==> has_backend
            && takes_pair && types.gate == Some(12u32) && types.up == Some(12u32) && !(takes_block
            && types.down == Some(12u32)),
{
}

/// The code of a part at every step: the whole part as one call with the formats of
/// its three projections; or gate and up, the activation on the two in this order,
/// and the down projection; a projection is read as quantized where it has a
/// storage type.
pub proof fn law_part_code_steps(types: FfnTypes)
    ensures
        ({
            let code = part_code(FfnStep::FusedBlock, types);
            &&& code.len() == 1
            &&& code[0].args == Args::One(0)
            &&& types == (FfnTypes {
                gate: Some(12u32),
                up: Some(12u32),
                down: Some(12u32),
            }) ==> code[0].kernel == (Kernel::FfnBlock {
                gate: QuantFormat::Q4_K,
                up: QuantFormat::Q4_K,
                down: QuantFormat::Q4_K,
            })
        }),
        ({
            let code = part_code(FfnStep::GateUpPair, types);
            &&& code.len() == 4
            &&& code[0] == (Instr { kernel: Kernel::PairGate, args: Args::One(0) })
            &&& code[1] == (Instr { kernel: Kernel::PairUp, args: Args::One(0) })
            &&& code[2] == (Instr { kernel: Kernel::SwiGlu, args: Args::Two(1, 2) })
            &&& code[3].args == Args::One(3)
            &&& types.down is Some ==> code[3].kernel == Kernel::Project(
                Weight::FfnDown,
                Source::Quant,
            )
            &&& types.down is None ==> code[3].kernel == Kernel::Project(
                Weight::FfnDown,
                Source::Dense,
            )
        }),
        ({
            let code = part_code(FfnStep::Separate, types);
            &&& code.len() == 4
            &&& code[0].args == Args::One(0) && code[1].args == Args::One(0)
            &&& types.gate is Some ==> code[0].kernel == Kernel::Project(
                Weight::FfnGate,
                Source::Quant,
            )
            &&& types.gate is None ==> code[0].kernel == Kernel::Project(
                Weight::FfnGate,
                Source::Dense,
            )
            &&& types.up is Some ==> code[1].kernel == Kernel::Project(Weight::FfnUp, Source::Quant)
            &&& types.up is None ==> code[1].kernel == Kernel::Project(Weight::FfnUp, Source::Dense)
            &&& code[2] == (Instr { kernel: Kernel::SwiGlu, args: Args::Two(1, 2) })
            &&& code[3].args == Args::One(3)
            &&& types.down is Some ==> code[3].kernel == Kernel::Project(
                Weight::FfnDown,
                Source::Quant,
            )
            &&& types.down is None ==> code[3].kernel == Kernel::Project(
                Weight::FfnDown,
                Source::Dense,
            )
        }),
{
}

/// What a feed-forward part that ran asked of the device: without a device, or where
/// not both of gate and up are of the four-bit type, neither the whole part nor the
/// pair; and it ran projection by projection only where the device declined all that
/// it could be asked.
pub proof fn law_part_asks_the_device_first<
    V,
    B: Fn(&V, QuantFormat, QuantFormat, QuantFormat) -> Option<V>,
    P: Fn(&V) -> Option<(V, V)>,
    F: Fn(usize, Kernel, Vec<&V>) -> V,
>(
    block: B,
    pair: P,
    kernels: F,
    layer: usize,
    types: FfnTypes,
    has_backend: bool,
    x: V,
    y: V,
)
    requires
        part_ran(block, pair, kernels, layer, types, has_backend, x, y),
    ensures
        ({
            let four = Some(12u32);
            let paired = has_backend && types.gate == four && types.up == four;
            let fused = paired && types.down == four;
            let q4 = QuantFormat::Q4_K;
            ||| fused && call_ensures(block, (&x, q4, q4, q4), Some(y))
            ||| {
                &&& fused ==> call_ensures(block, (&x, q4, q4, q4), None)
                &&& paired
                &&& exists|gate: V, up: V|
                    #[trigger] call_ensures(pair, (&x,), Some((gate, up))) && pair_finished(
                        kernels,
                        layer,
                        types,
                        gate,
                        up,
                        y,
                    )
            }
            ||| {
                &&& fused ==> call_ensures(block, (&x, q4, q4, q4), None)
                &&& paired ==> call_ensures(pair, (&x,), None)
                &&& code_gives(kernels, layer, part_code(FfnStep::Separate, types), x, y)
            }
        }),
{
    law_first_try(types, has_backend);
}

/// The pair of gate and up is finished by the activation on the two in this order and
/// this layer's down projection.
pub proof fn law_pair_is_finished<V, F: Fn(usize, Kernel, Vec<&V>) -> V>(
    kernels: F,
    layer: usize,
    types: FfnTypes,
    gate: V,
    up: V,
    y: V,
)
    requires
        pair_finished(kernels, layer, types, gate, up, y),
    ensures
        exists|inner: V, source: Source|
            {
                &&& #[trigger] two_given(kernels, layer, Kernel::SwiGlu, gate, up, inner)
                &&& #[trigger] one_given(
                    kernels,
                    layer,
                    Kernel::Project(Weight::FfnDown, source),
                    inner,
                    y,
                )
                &&& source is Quant == types.down is Some
            },
{
}

/// A token's experts, step by step: the router scores the token, its best experts are
/// added up without a scale, and the shared expert is added where all three of its
/// projections are there, and only there.
pub proof fn law_routed_steps<
    F: Fn(usize, Kernel, Vec<Vec<u32>>) -> Vec<u32>,
    W: Fn(&Vec<u32>, Option<u32>) -> Vec<u32>,
    E: Fn(usize, &Vec<u32>) -> Vec<u32>,
    A: Fn(u32, &Vec<u32>, &Vec<u32>) -> Vec<u32>,
>(
    kernels: F,
    weigh: W,
    expert: E,
    accumulate: A,
    layer: usize,
    top_k: usize,
    gate: bool,
    up: bool,
    down: bool,
    x: Seq<u32>,
    v: Seq<Seq<u32>>,
)
    requires
        routed_values(
            kernels,
            weigh,
            expert,
            accumulate,
            layer,
            top_k,
            has_shared(gate, up, down),
            x,
            v,
        ),
    ensures
        v[0] == x,
        may_give(kernels, layer, Kernel::Project(Weight::Router, Source::Quant), seq![x], v[1]),
        routed_ran(weigh, expert, accumulate, x, v[1], top_k as nat, None, x.len(), v[2]),
        !(gate && up && down) ==> v.len() == 3,
        gate && up && down ==> v.len() == 5 && may_give(
            kernels,
            layer,
            Kernel::SharedExpert { limit: None },
            seq![x],
            v[3],
        ) && may_give(kernels, layer, Kernel::Add, seq![v[2], v[3]], v[4]),
{
    let code = routed_code(top_k, has_shared(gate, up, down));
    assert(step_gives(kernels, layer, code[0].kernel, seq![v[0]], v[1]));
    if gate && up && down {
        assert(step_gives(kernels, layer, code[2].kernel, seq![v[0]], v[3]));
        assert(step_gives(kernels, layer, code[3].kernel, seq![v[2], v[3]], v[4]));
    }
}

/// A model's layers fit a cache where each is of the kind that the cache has for it.
pub proof fn law_layers_fit_their_kinds(
    layers: Seq<LayerFlags>,
    cache: DeltaNetHybridCache,
    l: int,
)
    requires
        layers_match(layers, cache),
        0 <= l < layers.len(),
    ensures
        layers.len() == cache.layer_kinds@.len(),
        layers[l].block is Linear <==> cache.layer_kinds@[l],
        layers[l].block is Attention <==> !cache.layer_kinds@[l],
        source_if(true) is Quant && source_if(false) is Dense,
{
}

} // verus!
