//! How a feed-forward block is routed, and the shapes that its shared expert
//! takes.
use vstd::prelude::*;
use crate::attention::block_program::{
    code_gives, code_ran, ffn_block_code, gated_code, law_gated_code_steps, one_given, push_one,
    push_two, read, run_code, two_given, value_given, well_wired, Instr, Kernel, Weight,
};
use crate::attention::dsv4_params::Dsv4FfnParams;
use crate::attention::layer_program::Source;

verus! {

/// Where a block's routing comes from, and what it goes by. The scale is a bit
/// pattern.
#[derive(Clone, Copy, Debug, PartialEq, Eq, Structural)]
pub enum RoutingSource {
    /// A table by token id.
    HashTable { n_expert_used: usize },
    /// The learned gate.
    Learned { n_expert: usize, n_expert_used: usize, norm: bool, scale: u32 },
}

/// Where a block's routing comes from: the table where there is one, which knows
/// only how many experts a token goes to, else the learned gate.
pub open spec fn routing_of(has_table: bool, p: Dsv4FfnParams) -> RoutingSource {
    if has_table {
        RoutingSource::HashTable { n_expert_used: p.n_expert_used }
    } else {
        RoutingSource::Learned {
            n_expert: p.n_expert,
            n_expert_used: p.n_expert_used,
            norm: p.expert_weights_norm,
            scale: p.expert_weights_scale,
        }
    }
}

/// Where a block's routing comes from. A block with a table by token id needs
/// one token id for every row.
pub fn routing_source(
    has_table: bool,
    token_ids: Option<usize>,
    n_tokens: usize,
    p: &Dsv4FfnParams,
) -> (r: RoutingSource)
    requires
        has_table ==> token_ids == Some(n_tokens),
    ensures
        r == routing_of(has_table, *p),
{
    if has_table {
        RoutingSource::HashTable { n_expert_used: p.n_expert_used }
    } else {
        RoutingSource::Learned {
            n_expert: p.n_expert,
            n_expert_used: p.n_expert_used,
            norm: p.expert_weights_norm,
            scale: p.expert_weights_scale,
        }
    }
}

/// Shapes of a shared expert, as `(rows, columns)`.
#[derive(Clone, Copy, Debug)]
pub struct SharedExpertShapes {
    pub gate_shexp: (usize, usize),
    pub up_shexp: (usize, usize),
    pub down_shexp: (usize, usize),
}

/// The first weight of a shared expert that has the wrong shape.
#[derive(Clone, Copy, Debug, PartialEq, Eq, Structural)]
pub enum SharedExpertFault {
    Gate,
    Up,
    Down,
}

/// The first weight of a shared expert that has the wrong shape for inputs of a
/// width, where there is one.
pub open spec fn shared_expert_fault(s: SharedExpertShapes, n_embd: usize) -> Option<
    SharedExpertFault,
> {
    if s.gate_shexp.1 != n_embd {
        Some(SharedExpertFault::Gate)
    } else if s.up_shexp != s.gate_shexp {
        Some(SharedExpertFault::Up)
    } else if s.down_shexp != (n_embd, s.gate_shexp.0) {
        Some(SharedExpertFault::Down)
    } else {
        None
    }
}

/// Checks a shared expert's shapes for inputs of a width, and gives the
/// expert's inner width.
pub fn check_shared_expert(s: &SharedExpertShapes, n_embd: usize) -> (r: Result<
    usize,
    SharedExpertFault,
>)
    ensures
        r == (match shared_expert_fault(*s, n_embd) {
            Some(f) => Err::<usize, SharedExpertFault>(f),
            None => Ok(s.gate_shexp.0),
        }),
{
    let hidden: usize = s.gate_shexp.0;
    if s.gate_shexp.1 != n_embd {
        return Err(SharedExpertFault::Gate);
    }
    if s.up_shexp.0 != hidden || s.up_shexp.1 != n_embd {
        return Err(SharedExpertFault::Up);
    }
    if s.down_shexp.0 != n_embd || s.down_shexp.1 != hidden {
        return Err(SharedExpertFault::Down);
    }
    Ok(hidden)
}

/// The instructions of a shared expert whose activation is clamped to a limit.
pub open spec fn shared_expert_code(limit: u32) -> Seq<Instr> {
    gated_code(
        Kernel::Project(Weight::SharedGate, Source::Dense),
        Kernel::Project(Weight::SharedUp, Source::Dense),
        Kernel::ClampedSwiGlu(limit),
        Kernel::Project(Weight::SharedDown, Source::Dense),
    )
}

/// The shared expert on rows of a width: its kernels, and how they are wired.
pub fn shared_expert_instrs(s: &SharedExpertShapes, n_embd: usize, limit: u32) -> (r: Result<
    Vec<Instr>,
    SharedExpertFault,
>)
    ensures
        match shared_expert_fault(*s, n_embd) {
            Some(f) => r == Err::<Vec<Instr>, SharedExpertFault>(f),
            None => r matches Ok(code) && code@ == shared_expert_code(limit) && well_wired(
                code@,
            ),
        },
{
    match check_shared_expert(s, n_embd) {
        Err(f) => Err(f),
        Ok(_) => {
            let mut code: Vec<Instr> = Vec::new();
            push_one(&mut code, Kernel::Project(Weight::SharedGate, Source::Dense), 0);
            push_one(&mut code, Kernel::Project(Weight::SharedUp, Source::Dense), 0);
            push_two(&mut code, Kernel::ClampedSwiGlu(limit), 1, 2);
            push_one(&mut code, Kernel::Project(Weight::SharedDown, Source::Dense), 3);
            assert(code@ =~= shared_expert_code(limit));
            Ok(code)
        },
    }
}

/// The shared expert of a layer on rows of a width. The floating-point kernels are
/// the caller's.
pub fn dsv4_shared_expert_ffn<V, F: Fn(usize, Kernel, Vec<&V>) -> V>(
    x: V,
    layer: usize,
    s: &SharedExpertShapes,
    n_embd: usize,
    limit: u32,
    kernels: &F,
) -> (r: Result<V, SharedExpertFault>)
    requires
        forall|k: Kernel, a: Vec<&V>| call_requires(*kernels, (layer, k, a)),
    ensures
        match shared_expert_fault(*s, n_embd) {
            Some(f) => r == Err::<V, SharedExpertFault>(f),
            None => r matches Ok(y) && code_gives(*kernels, layer, shared_expert_code(limit), x, y),
        },
{
    match shared_expert_instrs(s, n_embd, limit) {
        Err(f) => Err(f),
        Ok(code) => Ok(run_code(&code, layer, x, kernels)),
    }
}

/// A feed-forward block: its kernels, and how they are wired. A block with a
/// table by token id needs one token id for every row.
pub fn ffn_block_instrs(
    has_table: bool,
    token_ids: Option<usize>,
    n_tokens: usize,
    p: &Dsv4FfnParams,
) -> (code: Vec<Instr>)
    requires
        has_table ==> token_ids == Some(n_tokens),
    ensures
        code@ == ffn_block_code(
            routing_of(has_table, *p),
            p.routed_swiglu_limit,
            p.shared_swiglu_limit,
        ),
        well_wired(code@),
{
    let routing: RoutingSource = routing_source(has_table, token_ids, n_tokens, p);
    let mut code: Vec<Instr> = Vec::new();
    push_one(&mut code, Kernel::Norm(Weight::FfnNorm), 0);
    push_one(&mut code, Kernel::Route(routing), 1);
    push_two(&mut code, Kernel::RunExperts { limit: p.routed_swiglu_limit }, 1, 2);
    push_one(&mut code, Kernel::SharedExpert { limit: Some(p.shared_swiglu_limit) }, 1);
    push_two(&mut code, Kernel::Add, 3, 4);
    assert(code@ =~= ffn_block_code(routing, p.routed_swiglu_limit, p.shared_swiglu_limit));
    code
}

/// A feed-forward block of a layer. The floating-point kernels are the caller's.
pub fn dsv4_ffn_block<V, F: Fn(usize, Kernel, Vec<&V>) -> V>(
    x: V,
    layer: usize,
    has_table: bool,
    token_ids: Option<usize>,
    n_tokens: usize,
    p: &Dsv4FfnParams,
    kernels: &F,
) -> (y: V)
    requires
        has_table ==> token_ids == Some(n_tokens),
        forall|k: Kernel, a: Vec<&V>| call_requires(*kernels, (layer, k, a)),
    ensures
        code_gives(
            *kernels,
            layer,
            ffn_block_code(
                routing_of(has_table, *p),
                p.routed_swiglu_limit,
                p.shared_swiglu_limit,
            ),
            x,
            y,
        ),
{
    run_code(&ffn_block_instrs(has_table, token_ids, n_tokens, p), layer, x, kernels)
}

/// How a block routes: by the table where there is one, and then no score has a part
/// in it; else by the learned scores of all experts, with the block's normalisation
/// and scale. The same number of experts is used either way.
pub proof fn law_table_decides_the_routing(has_table: bool, p: Dsv4FfnParams)
    ensures
        routing_of(has_table, p) is HashTable == has_table,
        routing_of(has_table, p) matches RoutingSource::HashTable { n_expert_used }
            ==> n_expert_used == p.n_expert_used,
        routing_of(has_table, p) matches RoutingSource::Learned {
            n_expert,
            n_expert_used,
            norm,
            scale,
        } ==> n_expert == p.n_expert && n_expert_used == p.n_expert_used && norm
            == p.expert_weights_norm && scale == p.expert_weights_scale,
{
}

/// Where a shared expert's shapes pass, gate and up projection are equally shaped and
/// take the input's width, and the down projection leads from theirs back to it.
/// Where they do not, the fault named is the first of the three that does not fit.
pub proof fn law_shared_expert_shapes(s: SharedExpertShapes, n_embd: usize)
    ensures
        shared_expert_fault(s, n_embd) is None == (s.gate_shexp.1 == n_embd && s.up_shexp.0
            == s.gate_shexp.0 && s.up_shexp.1 == n_embd && s.down_shexp.0 == n_embd
            && s.down_shexp.1 == s.gate_shexp.0),
        shared_expert_fault(s, n_embd) == Some(SharedExpertFault::Gate) <==> s.gate_shexp.1
            != n_embd,
        shared_expert_fault(s, n_embd) == Some(SharedExpertFault::Up) <==> s.gate_shexp.1 == n_embd
            && (s.up_shexp.0 != s.gate_shexp.0 || s.up_shexp.1 != s.gate_shexp.1),
{
}

/// A shared expert that ran: its gate and up projection of the input, the activation
/// clamped to the limit, and its down projection.
pub proof fn law_shared_expert_steps<V, F: Fn(usize, Kernel, Vec<&V>) -> V>(
    kernels: F,
    layer: usize,
    limit: u32,
    x: V,
    y: V,
)
    requires
        code_gives(kernels, layer, shared_expert_code(limit), x, y),
    ensures
        exists|gate: V, up: V, inner: V|
            {
                &&& #[trigger] one_given(
                    kernels,
                    layer,
                    Kernel::Project(Weight::SharedGate, Source::Dense),
                    x,
                    gate,
                )
                &&& #[trigger] one_given(
                    kernels,
                    layer,
                    Kernel::Project(Weight::SharedUp, Source::Dense),
                    x,
                    up,
                )
                &&& #[trigger] two_given(
                    kernels,
                    layer,
                    Kernel::ClampedSwiGlu(limit),
                    gate,
                    up,
                    inner,
                )
                &&& one_given(
                    kernels,
                    layer,
                    Kernel::Project(Weight::SharedDown, Source::Dense),
                    inner,
                    y,
                )
            },
{
    law_gated_code_steps(
        kernels,
        layer,
        Kernel::Project(Weight::SharedGate, Source::Dense),
        Kernel::Project(Weight::SharedUp, Source::Dense),
        Kernel::ClampedSwiGlu(limit),
        Kernel::Project(Weight::SharedDown, Source::Dense),
        x,
        y,
    );
}

/// A feed-forward block that ran: routing, routed experts and shared expert all work
/// on the same normed rows, the routed experts with the routed limit, the shared one
/// with its own, and the result is the sum of the two.
pub proof fn law_ffn_block_steps<V, F: Fn(usize, Kernel, Vec<&V>) -> V>(
    kernels: F,
    layer: usize,
    routing: RoutingSource,
    routed: u32,
    shared: u32,
    x: V,
    y: V,
)
    requires
        code_gives(kernels, layer, ffn_block_code(routing, routed, shared), x, y),
    ensures
        exists|n: V, picks: V, r: V, s: V|
            {
                &&& #[trigger] one_given(kernels, layer, Kernel::Norm(Weight::FfnNorm), x, n)
                &&& #[trigger] one_given(kernels, layer, Kernel::Route(routing), n, picks)
                &&& #[trigger] two_given(
                    kernels,
                    layer,
                    Kernel::RunExperts { limit: routed },
                    n,
                    picks,
                    r,
                )
                &&& #[trigger] one_given(
                    kernels,
                    layer,
                    Kernel::SharedExpert { limit: Some(shared) },
                    n,
                    s,
                )
                &&& two_given(kernels, layer, Kernel::Add, r, s, y)
            },
{
    let code = ffn_block_code(routing, routed, shared);
    let v = choose|values: Seq<V>| #[trigger]
        code_ran(kernels, layer, code, x, values) && y == values.last();
    assert(value_given(kernels, layer, code[0].kernel, read(v, code[0].args), v[1]));
    assert(value_given(kernels, layer, code[1].kernel, read(v, code[1].args), v[2]));
    assert(value_given(kernels, layer, code[2].kernel, read(v, code[2].args), v[3]));
    assert(value_given(kernels, layer, code[3].kernel, read(v, code[3].args), v[4]));
    assert(value_given(kernels, layer, code[4].kernel, read(v, code[4].args), v[5]));
    assert(one_given(kernels, layer, Kernel::Norm(Weight::FfnNorm), x, v[1]));
    assert(one_given(kernels, layer, Kernel::Route(routing), v[1], v[2]));
    assert(two_given(kernels, layer, Kernel::RunExperts { limit: routed }, v[1], v[2], v[3]));
    assert(one_given(kernels, layer, Kernel::SharedExpert { limit: Some(shared) }, v[1], v[4]));
    assert(two_given(kernels, layer, Kernel::Add, v[3], v[4], y));
}

} // verus!
