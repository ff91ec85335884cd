//! Sending tokens to experts: which tokens an expert gets, the rows it runs on,
//! what it does with them, and how its results are put together.
//!
//! Every token names the same number of experts. A route of weight zero is
//! dropped. An expert gets its tokens in token order; results are put back
//! expert by expert.
use vstd::prelude::*;
use vstd::multiset::Multiset;
use crate::attention::block_program::{
    code_gives, gated_code, law_gated_code_steps, one_given, push_one, push_two, run_code, two_given,
    well_wired, Instr, Kernel, Weight,
};
use crate::attention::layer_program::Source;
use crate::fbits::{is_zero, zero};
use crate::tensor::{matrix_fits, zero_rows, Matrix};

verus! {

/// Which experts each token goes to: for every token `n_expert_used` experts
/// and as many weights (bit patterns), token by token.
#[derive(Clone, Debug)]
pub struct RoutingResult {
    pub n_expert_used: usize,
    pub indices: Vec<usize>,
    pub weights: Vec<u32>,
}

impl RoutingResult {
    /// The routes of `n_tokens` tokens to `n_expert` experts.
    pub open spec fn routes(&self, n_tokens: nat, n_expert: nat) -> bool {
        &&& self.indices@.len() == n_tokens * self.n_expert_used
        &&& self.weights@.len() == n_tokens * self.n_expert_used
        &&& forall|j: int| 0 <= j < self.indices@.len() ==> (#[trigger] self.indices@[j]) < n_expert
    }
}

/// A token and the weight that its result gets.
pub type Position = (usize, u32);

/// What expert `e` gets of the first `n` routes, in order.
pub open spec fn bucket(
    indices: Seq<usize>,
    weights: Seq<u32>,
    used: nat,
    e: int,
    n: nat,
) -> Seq<Position>
    decreases n,
{
    if n == 0 {
        Seq::empty()
    } else {
        let j = n - 1;
        let rest = bucket(indices, weights, used, e, j as nat);
        if indices[j] == e && !is_zero(weights[j]) {
            rest.push(((j / used as int) as usize, weights[j]))
        } else {
            rest
        }
    }
}

/// How many of the first `n` routes have a weight.
pub open spec fn live_routes(weights: Seq<u32>, n: nat) -> nat
    decreases n,
{
    if n == 0 {
        0
    } else {
        live_routes(weights, (n - 1) as nat) + if is_zero(weights[n - 1]) {
            0nat
        } else {
            1nat
        }
    }
}

/// What every expert gets.
pub open spec fn buckets_of(r: RoutingResult, n_expert: nat) -> Seq<Seq<Position>> {
    Seq::new(
        n_expert,
        |e: int|
            bucket(r.indices@, r.weights@, r.n_expert_used as nat, e, r.indices@.len()),
    )
}

/// The contents of vectors of vectors.
pub open spec fn contents(v: Seq<Vec<Position>>) -> Seq<Seq<Position>> {
    v.map_values(|b: Vec<Position>| b@)
}

/// Sorts the routes by expert.
pub fn bucket_routes(routing: &RoutingResult, n_tokens: usize, n_expert: usize) -> (buckets: Vec<
    Vec<Position>,
>)
    requires
        routing.routes(n_tokens as nat, n_expert as nat),
    ensures
        contents(buckets@) == buckets_of(*routing, n_expert as nat),
{
    let used: usize = routing.n_expert_used;
    let n: usize = routing.indices.len();
    let ghost idx = routing.indices@;
    let ghost wts = routing.weights@;
    let mut buckets: Vec<Vec<Position>> = Vec::new();
    let mut e: usize = 0;
    while e < n_expert
        invariant
            e <= n_expert,
            buckets@.len() == e,
            forall|i: int| 0 <= i < e ==> (#[trigger] buckets@[i])@ == Seq::<Position>::empty(),
        decreases n_expert - e,
    {
        buckets.push(Vec::new());
        e += 1;
    }
    let mut j: usize = 0;
    while j < n
        invariant
            j <= n,
            n == idx.len(),
            idx == routing.indices@,
            wts == routing.weights@,
            used == routing.n_expert_used,
            n == n_tokens * used,
            routing.routes(n_tokens as nat, n_expert as nat),
            buckets@.len() == n_expert,
            forall|i: int|
                0 <= i < n_expert ==> (#[trigger] buckets@[i])@ == bucket(
                    idx,
                    wts,
                    used as nat,
                    i,
                    j as nat,
                ),
        decreases n - j,
    {
        let at: usize = routing.indices[j];
        let weight: u32 = routing.weights[j];
        assert(at < n_expert) by {
            assert(routing.indices@[j as int] < n_expert);
        }
        proof {
            crate::attention::dsv4_model_forward::lemma_position(
                j as int,
                n_tokens as int,
                used as int,
            );
        }
        let ghost before = buckets@;
        if !zero(weight) {
            let mut b: Vec<Position> = Vec::new();
            std::mem::swap(&mut b, &mut buckets[at]);
            b.push((j / used, weight));
            buckets.set(at, b);
        }
        assert forall|i: int| 0 <= i < n_expert implies (#[trigger] buckets@[i])@ == bucket(
            idx,
            wts,
            used as nat,
            i,
            (j + 1) as nat,
        ) by {
            assert(before[i]@ == bucket(idx, wts, used as nat, i, j as nat));
        }
        j += 1;
    }
    assert(contents(buckets@) =~= buckets_of(*routing, n_expert as nat));
    buckets
}

/// The rows that an expert runs on: one per position, in order.
pub fn gather_rows(x: &Matrix, positions: &Vec<Position>) -> (g: Matrix)
    requires
        forall|b: int| 0 <= b < positions@.len() ==> (#[trigger] positions@[b]).0 < x@.len(),
        matrix_fits(positions@.len(), x.width()),
    ensures
        g.wf(),
        g@ == positions@.map_values(|p: Position| x@[p.0 as int]),
        g.width() == x.width(),
{
    let n: usize = positions.len();
    let d: usize = x.ncols();
    let mut g: Matrix = Matrix::zeros(n, d);
    let mut b: usize = 0;
    while b < n
        invariant
            b <= n,
            n == positions@.len(),
            x.wf(),
            g.wf(),
            g@.len() == n,
            g.width() == x.width(),
            forall|i: int| 0 <= i < n ==> (#[trigger] positions@[i]).0 < x@.len(),
            forall|i: int| 0 <= i < b ==> g@[i] == x@[(#[trigger] positions@[i]).0 as int],
        decreases n - b,
    {
        let t: usize = positions[b].0;
        assert(positions@[b as int].0 < x@.len());
        let row: Vec<u32> = x.row(t);
        g.put_row(b, row.as_slice());
        b += 1;
    }
    assert(g@ =~= positions@.map_values(|p: Position| x@[p.0 as int]));
    g
}

/// One weighted addition of an expert's result row to a token's output row.
#[derive(Clone, Copy, Debug, PartialEq, Eq, Structural)]
pub struct Scatter {
    pub expert: usize,
    pub row: usize,
    pub token: usize,
    pub weight: u32,
}

/// The additions that the first `n` positions of an expert call for.
pub open spec fn expert_scatter(expert: usize, positions: Seq<Position>, n: nat) -> Seq<Scatter> {
    Seq::new(
        n,
        |b: int|
            Scatter {
                expert,
                row: b as usize,
                token: positions[b].0,
                weight: positions[b].1,
            },
    )
}

/// The additions that the first `n` experts call for, expert by expert.
pub open spec fn scatter_order(buckets: Seq<Seq<Position>>, n: nat) -> Seq<Scatter>
    decreases n,
{
    if n == 0 {
        Seq::empty()
    } else {
        let e = (n - 1) as nat;
        scatter_order(buckets, e) + expert_scatter(
            e as usize,
            buckets[e as int],
            buckets[e as int].len(),
        )
    }
}

/// The additions that put the experts' results into the output, in the order
/// in which they are made.
pub fn scatter_plan(buckets: &Vec<Vec<Position>>) -> (plan: Vec<Scatter>)
    ensures
        plan@ == scatter_order(contents(buckets@), buckets@.len()),
{
    let ghost all = contents(buckets@);
    let mut plan: Vec<Scatter> = Vec::new();
    let mut e: usize = 0;
    while e < buckets.len()
        invariant
            e <= buckets@.len(),
            all == contents(buckets@),
            plan@ == scatter_order(all, e as nat),
        decreases buckets@.len() - e,
    {
        let n: usize = buckets[e].len();
        let mut b: usize = 0;
        assert(expert_scatter(e, all[e as int], 0) =~= Seq::<Scatter>::empty());
        assert(plan@ =~= scatter_order(all, e as nat) + expert_scatter(e, all[e as int], 0));
        while b < n
            invariant
                e < buckets@.len(),
                b <= n,
                all == contents(buckets@),
                n == all[e as int].len(),
                all[e as int] == buckets@[e as int]@,
                plan@ == scatter_order(all, e as nat) + expert_scatter(
                    e,
                    all[e as int],
                    b as nat,
                ),
            decreases n - b,
        {
            let p: Position = buckets[e][b];
            plan.push(Scatter { expert: e, row: b, token: p.0, weight: p.1 });
            b += 1;
            assert(plan@ =~= scatter_order(all, e as nat) + expert_scatter(
                e,
                all[e as int],
                b as nat,
            ));
        }
        e += 1;
    }
    plan
}

/// Shapes of the experts' weights, as `(experts, rows, columns)`.
#[derive(Clone, Copy, Debug)]
pub struct ExpertShapes {
    pub gate_exps: (usize, usize, usize),
    pub up_exps: (usize, usize, usize),
    pub down_exps: (usize, usize, usize),
}

/// Gate and up lead from the rows' width to the experts' width, and down leads
/// back.
pub open spec fn expert_shapes_fit(s: ExpertShapes, n_embd: nat) -> bool {
    &&& s.gate_exps.2 == n_embd
    &&& s.up_exps == s.gate_exps
    &&& s.down_exps.0 == s.gate_exps.0
    &&& s.down_exps.1 == n_embd
    &&& s.down_exps.2 == s.gate_exps.1
}

/// Whether the experts' weights fit rows of a width.
pub fn check_expert_shapes(s: &ExpertShapes, n_embd: usize) -> (r: bool)
    ensures
        r == expert_shapes_fit(*s, n_embd as nat),
{
    s.gate_exps.2 == n_embd && s.up_exps.0 == s.gate_exps.0 && s.up_exps.1 == s.gate_exps.1
        && s.up_exps.2 == s.gate_exps.2 && s.down_exps.0 == s.gate_exps.0 && s.down_exps.1 == n_embd
        && s.down_exps.2 == s.gate_exps.1
}

/// The rows that one expert runs on.
pub struct ExpertBatch {
    pub expert: usize,
    pub rows: Matrix,
}

/// The work of the experts and how their results are put together.
pub struct Dispatch {
    pub batches: Vec<ExpertBatch>,
    pub plan: Vec<Scatter>,
}

/// The batches of the first `n` experts: every expert that has a position, with
/// the rows of its positions.
pub open spec fn batches_of(x: Seq<Seq<u32>>, buckets: Seq<Seq<Position>>, n: nat) -> Seq<
    (usize, Seq<Seq<u32>>),
>
    decreases n,
{
    if n == 0 {
        Seq::empty()
    } else {
        let rest = batches_of(x, buckets, (n - 1) as nat);
        let positions = buckets[n - 1];
        if positions.len() == 0 {
            rest
        } else {
            rest.push(((n - 1) as usize, positions.map_values(|p: Position| x[p.0 as int])))
        }
    }
}

/// What some batches hold.
pub open spec fn batch_contents(b: Seq<ExpertBatch>) -> Seq<(usize, Seq<Seq<u32>>)> {
    b.map_values(|e: ExpertBatch| (e.expert, e.rows@))
}

/// The rows of every expert that has a position can be had as a matrix.
pub open spec fn batches_fit(buckets: Seq<Seq<Position>>, width: nat) -> bool {
    forall|e: int|
        0 <= e < buckets.len() && (#[trigger] buckets[e]).len() > 0 ==> matrix_fits(
            buckets[e].len(),
            width,
        )
}

/// The rows that every expert runs on, and the weighted additions that make the
/// output of the results. An expert without a position has no batch.
pub fn dsv4_moe_dispatch(x: &Matrix, routing: &RoutingResult, shapes: &ExpertShapes) -> (d: Dispatch)
    requires
        expert_shapes_fit(*shapes, x.width()),
        routing.routes(x@.len(), shapes.gate_exps.0 as nat),
        batches_fit(buckets_of(*routing, shapes.gate_exps.0 as nat), x.width()),
    ensures
        batch_contents(d.batches@) == batches_of(
            x@,
            buckets_of(*routing, shapes.gate_exps.0 as nat),
            shapes.gate_exps.0 as nat,
        ),
        forall|i: int|
            0 <= i < d.batches@.len() ==> (#[trigger] d.batches@[i]).rows.wf()
                && d.batches@[i].rows.width() == x.width(),
        d.plan@ == scatter_order(
            buckets_of(*routing, shapes.gate_exps.0 as nat),
            shapes.gate_exps.0 as nat,
        ),
        dispatch_fits(d, x@.len()),
{
    let n_tokens: usize = x.nrows();
    let n_expert: usize = shapes.gate_exps.0;
    let buckets: Vec<Vec<Position>> = bucket_routes(routing, n_tokens, n_expert);
    let ghost all = buckets_of(*routing, n_expert as nat);
    let ghost idx = routing.indices@;
    let ghost wts = routing.weights@;
    let ghost used = routing.n_expert_used as nat;
    let n_routes: usize = routing.indices.len();
    assert(contents(buckets@).len() == n_expert);
    let mut batches: Vec<ExpertBatch> = Vec::new();
    let mut e: usize = 0;
    assert(batch_contents(batches@) =~= batches_of(x@, all, 0));
    while e < n_expert
        invariant
            e <= n_expert,
            x.wf(),
            n_tokens == x@.len(),
            idx == routing.indices@,
            wts == routing.weights@,
            used == routing.n_expert_used,
            all == buckets_of(*routing, n_expert as nat),
            all == contents(buckets@),
            buckets@.len() == n_expert,
            routing.routes(x@.len(), n_expert as nat),
            batches_fit(all, x.width()),
            batch_contents(batches@) == batches_of(x@, all, e as nat),
            forall|i: int|
                0 <= i < batches@.len() ==> (#[trigger] batches@[i]).rows.wf()
                    && batches@[i].rows.width() == x.width(),
        decreases n_expert - e,
    {
        let ghost positions = buckets@[e as int]@;
        assert(all[e as int] == positions);
        if buckets[e].len() > 0 {
            proof {
                assert(positions == bucket(idx, wts, used, e as int, idx.len()));
                assert forall|b: int| 0 <= b < positions.len() implies (#[trigger] positions[b]).0
                    < x@.len() by {
                    law_bucket_holds_live_tokens(
                        idx,
                        wts,
                        used,
                        x@.len(),
                        e as int,
                        idx.len(),
                        b,
                    );
                }
            }
            let rows: Matrix = gather_rows(x, &buckets[e]);
            let ghost before = batches@;
            batches.push(ExpertBatch { expert: e, rows });
            assert(batch_contents(batches@) =~= batch_contents(before).push((e, rows@)));
        }
        e += 1;
    }
    let plan: Vec<Scatter> = scatter_plan(&buckets);
    let d: Dispatch = Dispatch { batches, plan };
    proof {
        assert forall|i: int| 0 <= i < d.plan@.len() implies ({
            let s = #[trigger] d.plan@[i];
            let k = batch_of(batch_experts(d.batches@), s.expert);
            &&& s.token < x@.len()
            &&& 0 <= k < d.batches@.len()
            &&& d.batches@[k].expert == s.expert
            &&& s.row < d.batches@[k].rows@.len()
        }) by {
            assert forall|q: int| 0 <= q < n_expert implies (#[trigger] all[q]).len()
                <= usize::MAX by {
                lemma_bucket_len(idx, wts, used, q, n_routes as nat);
            }
            lemma_addition_finds_its_row(d, x@, all, n_expert as nat, i);
            law_addition_reads_its_token(x@, all, n_expert as nat, i);
            let s = d.plan@[i];
            law_bucket_holds_live_tokens(
                idx,
                wts,
                used,
                x@.len(),
                s.expert as int,
                idx.len(),
                s.row as int,
            );
        }
    }
    d
}

proof fn lemma_bucket_len(
    indices: Seq<usize>,
    weights: Seq<u32>,
    used: nat,
    e: int,
    n: nat,
)
    ensures
        bucket(indices, weights, used, e, n).len() <= n,
    decreases n,
{
    if n > 0 {
        lemma_bucket_len(indices, weights, used, e, (n - 1) as nat);
    }
}

// ---- laws ------------------------------------------------------------------

/// Every token that an expert gets is a token of the batch, and has a weight.
pub proof fn law_bucket_holds_live_tokens(
    indices: Seq<usize>,
    weights: Seq<u32>,
    used: nat,
    n_tokens: nat,
    e: int,
    n: nat,
    b: int,
)
    requires
        n <= n_tokens * used,
        n_tokens <= usize::MAX,
        0 <= b < bucket(indices, weights, used, e, n).len(),
    ensures
        bucket(indices, weights, used, e, n)[b].0 < n_tokens,
        !is_zero(bucket(indices, weights, used, e, n)[b].1),
    decreases n,
{
    let j = n - 1;
    let rest = bucket(indices, weights, used, e, j as nat);
    crate::attention::dsv4_model_forward::lemma_position(j, n_tokens as int, used as int);
    if b < rest.len() {
        law_bucket_holds_live_tokens(indices, weights, used, n_tokens, e, j as nat, b);
    }
}

/// An expert gets its tokens in token order.
pub proof fn law_bucket_is_in_token_order(
    indices: Seq<usize>,
    weights: Seq<u32>,
    used: nat,
    n_tokens: nat,
    e: int,
    n: nat,
    a: int,
    b: int,
)
    requires
        n <= n_tokens * used,
        n_tokens <= usize::MAX,
        0 <= a <= b < bucket(indices, weights, used, e, n).len(),
    ensures
        bucket(indices, weights, used, e, n)[a].0 <= bucket(indices, weights, used, e, n)[b].0,
    decreases n,
{
    let j = n - 1;
    let rest = bucket(indices, weights, used, e, j as nat);
    crate::attention::dsv4_model_forward::lemma_position(j, n_tokens as int, used as int);
    if b < rest.len() {
        law_bucket_is_in_token_order(indices, weights, used, n_tokens, e, j as nat, a, b);
    } else if a < rest.len() {
        lemma_bucket_tokens_bounded(indices, weights, used, n_tokens, e, j as nat, a);
    }
}

proof fn lemma_bucket_tokens_bounded(
    indices: Seq<usize>,
    weights: Seq<u32>,
    used: nat,
    n_tokens: nat,
    e: int,
    n: nat,
    b: int,
)
    requires
        n < n_tokens * used,
        n_tokens <= usize::MAX,
        0 <= b < bucket(indices, weights, used, e, n).len(),
    ensures
        used > 0,
        bucket(indices, weights, used, e, n)[b].0 <= n as int / used as int,
    decreases n,
{
    let j = n - 1;
    let rest = bucket(indices, weights, used, e, j as nat);
    crate::attention::dsv4_model_forward::lemma_position(n as int, n_tokens as int, used as int);
    crate::attention::dsv4_model_forward::lemma_position(j, n_tokens as int, used as int);
    assert(j / used as int <= n as int / used as int) by (nonlinear_arith)
        requires
            j == n - 1,
            used > 0,
            j >= 0,
    ;
    if b < rest.len() {
        lemma_bucket_tokens_bounded(indices, weights, used, n_tokens, e, j as nat, b);
    }
}

/// How many positions the first `n_expert` experts get of the first `n` routes.
pub open spec fn bucket_total(
    indices: Seq<usize>,
    weights: Seq<u32>,
    used: nat,
    n_expert: nat,
    n: nat,
) -> nat
    decreases n_expert,
{
    if n_expert == 0 {
        0
    } else {
        bucket_total(indices, weights, used, (n_expert - 1) as nat, n) + bucket(
            indices,
            weights,
            used,
            n_expert - 1,
            n,
        ).len()
    }
}

/// No route is lost and none is taken twice: the experts together get as many
/// positions as there are routes with a weight.
pub proof fn law_every_live_route_goes_once(
    indices: Seq<usize>,
    weights: Seq<u32>,
    used: nat,
    n_expert: nat,
    n: nat,
)
    requires
        n <= indices.len(),
        forall|j: int| 0 <= j < n ==> (#[trigger] indices[j]) < n_expert,
    ensures
        bucket_total(indices, weights, used, n_expert, n) == live_routes(weights, n),
    decreases n,
{
    if n == 0 {
        lemma_total_of_none(indices, weights, used, n_expert);
    } else {
        law_every_live_route_goes_once(indices, weights, used, n_expert, (n - 1) as nat);
        lemma_total_step(indices, weights, used, n_expert, n);
        assert(indices[n - 1] < n_expert);
    }
}

proof fn lemma_total_of_none(indices: Seq<usize>, weights: Seq<u32>, used: nat, n_expert: nat)
    ensures
        bucket_total(indices, weights, used, n_expert, 0) == 0,
    decreases n_expert,
{
    if n_expert > 0 {
        lemma_total_of_none(indices, weights, used, (n_expert - 1) as nat);
    }
}

proof fn lemma_total_step(
    indices: Seq<usize>,
    weights: Seq<u32>,
    used: nat,
    n_expert: nat,
    n: nat,
)
    requires
        n > 0,
    ensures
        bucket_total(indices, weights, used, n_expert, n) == bucket_total(
            indices,
            weights,
            used,
            n_expert,
            (n - 1) as nat,
        ) + if indices[n - 1] < n_expert && !is_zero(weights[n - 1]) {
            1nat
        } else {
            0nat
        },
    decreases n_expert,
{
    if n_expert > 0 {
        lemma_total_step(indices, weights, used, (n_expert - 1) as nat, n);
    }
}

/// Every addition reads a row of its expert's batch: the row that was gathered
/// for the addition's token.
pub proof fn law_addition_reads_its_token(
    x: Seq<Seq<u32>>,
    buckets: Seq<Seq<Position>>,
    n: nat,
    i: int,
)
    requires
        n <= buckets.len(),
        n <= usize::MAX,
        forall|e: int| 0 <= e < n ==> (#[trigger] buckets[e]).len() <= usize::MAX,
        0 <= i < scatter_order(buckets, n).len(),
    ensures
        ({
            let s = scatter_order(buckets, n)[i];
            let batch = buckets[s.expert as int].map_values(|p: Position| x[p.0 as int]);
            &&& s.expert < n
            &&& s.row < batch.len()
            &&& buckets[s.expert as int][s.row as int] == (s.token, s.weight)
            &&& batch[s.row as int] == x[s.token as int]
            &&& batches_of(x, buckets, n).contains((s.expert, batch))
        }),
    decreases n,
{
    let e = (n - 1) as nat;
    let front = scatter_order(buckets, e);
    let positions = buckets[e as int];
    let s = scatter_order(buckets, n)[i];
    let batch = buckets[s.expert as int].map_values(|p: Position| x[p.0 as int]);
    assert(positions.len() <= usize::MAX);
    if i < front.len() {
        law_addition_reads_its_token(x, buckets, e, i);
        let k = choose|k: int|
            0 <= k < batches_of(x, buckets, e).len() && batches_of(x, buckets, e)[k] == (
                s.expert,
                batch,
            );
        assert(batches_of(x, buckets, n)[k] == (s.expert, batch));
    } else {
        assert(s == expert_scatter(e as usize, positions, positions.len())[i - front.len()]);
        assert(batches_of(x, buckets, n).last() == (s.expert, batch));
    }
}

proof fn lemma_bucket_source(
    indices: Seq<usize>,
    weights: Seq<u32>,
    used: nat,
    e: int,
    n: nat,
    b: int,
) -> (j: int)
    requires
        0 <= b < bucket(indices, weights, used, e, n).len(),
    ensures
        0 <= j < n,
        indices[j] == e,
        !is_zero(weights[j]),
        bucket(indices, weights, used, e, n)[b] == ((j / used as int) as usize, weights[j]),
    decreases n,
{
    let k = n - 1;
    let rest = bucket(indices, weights, used, e, k as nat);
    if b < rest.len() {
        lemma_bucket_source(indices, weights, used, e, k as nat, b)
    } else {
        k
    }
}

/// A token whose every weight is zero gets nothing: no addition names it.
pub proof fn law_token_without_weight_gets_nothing(
    r: RoutingResult,
    n_tokens: nat,
    n_expert: nat,
    t: int,
    i: int,
)
    requires
        r.routes(n_tokens, n_expert),
        n_tokens <= usize::MAX,
        n_expert <= usize::MAX,
        r.indices@.len() <= usize::MAX,
        0 <= t < n_tokens,
        forall|k: int|
            0 <= k < r.n_expert_used ==> is_zero(#[trigger] r.weights@[t * r.n_expert_used + k]),
        0 <= i < scatter_order(buckets_of(r, n_expert), n_expert).len(),
    ensures
        scatter_order(buckets_of(r, n_expert), n_expert)[i].token != t,
{
    let buckets = buckets_of(r, n_expert);
    let used = r.n_expert_used as nat;
    let n = r.indices@.len();
    assert forall|e: int| 0 <= e < n_expert implies (#[trigger] buckets[e]).len()
        <= usize::MAX by {
        lemma_bucket_len(r.indices@, r.weights@, used, e, n);
    }
    law_addition_reads_its_token(Seq::empty(), buckets, n_expert, i);
    let s = scatter_order(buckets, n_expert)[i];
    let j = lemma_bucket_source(r.indices@, r.weights@, used, s.expert as int, n, s.row as int);
    crate::attention::dsv4_model_forward::lemma_position(j, n_tokens as int, used as int);
    if s.token == t {
        assert(is_zero(r.weights@[t * r.n_expert_used + j % used as int]));
    }
}

// ---- running the experts -----------------------------------------------------

/// The instructions of a routed expert whose activation is clamped to a limit.
pub open spec fn expert_code(limit: u32) -> Seq<Instr> {
    gated_code(
        Kernel::Project(Weight::ExpertGate, Source::Dense),
        Kernel::Project(Weight::ExpertUp, Source::Dense),
        Kernel::ClampedSwiGlu(limit),
        Kernel::Project(Weight::ExpertDown, Source::Dense),
    )
}

/// A routed expert: its kernels, and how they are wired.
pub fn expert_instrs(limit: u32) -> (code: Vec<Instr>)
    ensures
        code@ == expert_code(limit),
        well_wired(code@),
{
    let mut code: Vec<Instr> = Vec::new();
    push_one(&mut code, Kernel::Project(Weight::ExpertGate, Source::Dense), 0);
    push_one(&mut code, Kernel::Project(Weight::ExpertUp, Source::Dense), 0);
    push_two(&mut code, Kernel::ClampedSwiGlu(limit), 1, 2);
    push_one(&mut code, Kernel::Project(Weight::ExpertDown, Source::Dense), 3);
    assert(code@ =~= expert_code(limit));
    code
}

/// An expert on the rows of its batch. The floating-point kernels are the
/// caller's.
pub fn run_expert<V, F: Fn(usize, Kernel, Vec<&V>) -> V>(
    rows: V,
    expert: usize,
    limit: u32,
    kernels: &F,
) -> (y: V)
    requires
        forall|k: Kernel, a: Vec<&V>| call_requires(*kernels, (expert, k, a)),
    ensures
        code_gives(*kernels, expert, expert_code(limit), rows, y),
{
    run_code(&expert_instrs(limit), expert, rows, kernels)
}

/// The first batch of an expert.
pub open spec fn batch_of(experts: Seq<usize>, e: usize) -> int
    decreases experts.len(),
{
    if experts.len() == 0 {
        0
    } else if experts[0] == e {
        0
    } else {
        1 + batch_of(experts.skip(1), e)
    }
}

/// The experts of some batches.
pub open spec fn batch_experts(batches: Seq<ExpertBatch>) -> Seq<usize> {
    batches.map_values(|b: ExpertBatch| b.expert)
}

/// The row of the experts' results that an addition adds.
pub open spec fn added_row(d: Dispatch, results: Seq<Matrix>, i: int) -> Seq<u32> {
    let s = d.plan@[i];
    results[batch_of(batch_experts(d.batches@), s.expert)]@[s.row as int]
}

/// What the addition may make of a weight, a result's row and a token's row. The
/// addition is whatever the caller brings.
pub open spec fn sum_given<A: Fn(u32, &Vec<u32>, &Vec<u32>) -> Vec<u32>>(
    accumulate: A,
    weight: u32,
    row: Seq<u32>,
    acc: Seq<u32>,
    out: Seq<u32>,
) -> bool {
    exists|r: Vec<u32>, a: Vec<u32>, o: Vec<u32>|
        #[trigger] call_ensures(accumulate, (weight, &r, &a), o) && r@ == row && a@ == acc && o@ == out
}

/// The first `n` additions, made in their order: `states` are the outputs, before
/// the first addition and behind every one. An addition changes its token's row and
/// no other.
pub open spec fn additions_follow<A: Fn(u32, &Vec<u32>, &Vec<u32>) -> Vec<u32>>(
    accumulate: A,
    d: Dispatch,
    results: Seq<Matrix>,
    states: Seq<Seq<Seq<u32>>>,
    n: int,
) -> bool {
    forall|i: int|
        0 <= i < n ==> {
            let s = #[trigger] d.plan@[i];
            let t = s.token as int;
            &&& sum_given(
                accumulate,
                s.weight,
                added_row(d, results, i),
                states[i][t],
                states[i + 1][t],
            )
            &&& states[i + 1] == states[i].update(t, states[i + 1][t])
        }
}

/// The additions of a dispatch made `out` of zero rows.
pub open spec fn combined<A: Fn(u32, &Vec<u32>, &Vec<u32>) -> Vec<u32>>(
    accumulate: A,
    d: Dispatch,
    results: Seq<Matrix>,
    n_tokens: nat,
    n_embd: nat,
    out: Seq<Seq<u32>>,
) -> bool {
    exists|states: Seq<Seq<Seq<u32>>>|
        {
            &&& states.len() == d.plan@.len() + 1
            &&& states[0] == zero_rows(n_tokens, n_embd)
            &&& #[trigger] additions_follow(accumulate, d, results, states, d.plan@.len() as int)
            &&& out == states.last()
        }
}

/// Every addition names a token, and a row of a batch that is there.
pub open spec fn dispatch_fits(d: Dispatch, n_tokens: nat) -> bool {
    forall|i: int|
        0 <= i < d.plan@.len() ==> {
            let s = #[trigger] d.plan@[i];
            let k = batch_of(batch_experts(d.batches@), s.expert);
            &&& s.token < n_tokens
            &&& 0 <= k < d.batches@.len()
            &&& d.batches@[k].expert == s.expert
            &&& s.row < d.batches@[k].rows@.len()
        }
}

/// The place of the first batch of an expert.
fn find_batch(batches: &Vec<ExpertBatch>, e: usize) -> (k: usize)
    requires
        batch_of(batch_experts(batches@), e) < batches@.len(),
    ensures
        k == batch_of(batch_experts(batches@), e),
{
    let ghost experts = batch_experts(batches@);
    let mut k: usize = 0;
    assert(experts.skip(0) =~= experts);
    while k < batches.len() && batches[k].expert != e
        invariant
            k <= batches@.len(),
            experts == batch_experts(batches@),
            batch_of(experts, e) == k + batch_of(experts.skip(k as int), e),
            batch_of(experts, e) < batches@.len(),
        decreases batches@.len() - k,
    {
        assert(experts.skip(k as int).skip(1) =~= experts.skip(k + 1));
        k += 1;
    }
    proof {
        if k == batches@.len() {
            assert(experts.skip(k as int).len() == 0);
        }
    }
    k
}

/// Puts the experts' results together: the additions of a dispatch, made in their
/// order on rows of zeros. What an addition does to a row is the caller's.
pub fn combine_results<A: Fn(u32, &Vec<u32>, &Vec<u32>) -> Vec<u32>>(
    d: &Dispatch,
    results: &Vec<Matrix>,
    n_tokens: usize,
    n_embd: usize,
    accumulate: &A,
) -> (out: Matrix)
    requires
        matrix_fits(n_tokens as nat, n_embd as nat),
        dispatch_fits(*d, n_tokens as nat),
        results@.len() == d.batches@.len(),
        forall|k: int|
            0 <= k < results@.len() ==> (#[trigger] results@[k]).wf() && results@[k]@.len()
                == d.batches@[k].rows@.len(),
        forall|w: u32, r: &Vec<u32>, a: &Vec<u32>| call_requires(*accumulate, (w, r, a)),
        forall|w: u32, r: &Vec<u32>, a: &Vec<u32>, o: Vec<u32>| #[trigger]
            call_ensures(*accumulate, (w, r, a), o) ==> o@.len() == a@.len(),
    ensures
        out.wf(),
        out@.len() == n_tokens,
        out.width() == n_embd,
        combined(*accumulate, *d, results@, n_tokens as nat, n_embd as nat, out@),
{
    let mut out: Matrix = Matrix::zeros(n_tokens, n_embd);
    let ghost mut states: Seq<Seq<Seq<u32>>> = seq![out@];
    let mut i: usize = 0;
    while i < d.plan.len()
        invariant
            i <= d.plan@.len(),
            dispatch_fits(*d, n_tokens as nat),
            results@.len() == d.batches@.len(),
            forall|k: int|
                0 <= k < results@.len() ==> (#[trigger] results@[k]).wf() && results@[k]@.len()
                    == d.batches@[k].rows@.len(),
            forall|w: u32, r: &Vec<u32>, a: &Vec<u32>| call_requires(*accumulate, (w, r, a)),
            forall|w: u32, r: &Vec<u32>, a: &Vec<u32>, o: Vec<u32>| #[trigger]
                call_ensures(*accumulate, (w, r, a), o) ==> o@.len() == a@.len(),
            out.wf(),
            out@.len() == n_tokens,
            out.width() == n_embd,
            states.len() == i + 1,
            states[0] == zero_rows(n_tokens as nat, n_embd as nat),
            states.last() == out@,
            additions_follow(*accumulate, *d, results@, states, i as int),
        decreases d.plan@.len() - i,
    {
        let s: Scatter = d.plan[i];
        let k: usize = find_batch(&d.batches, s.expert);
        assert(results@[k as int].wf());
        let row: Vec<u32> = results[k].row(s.row);
        let acc: Vec<u32> = out.row(s.token);
        let sum: Vec<u32> = accumulate(s.weight, &row, &acc);
        let ghost before = out@;
        out.put_row(s.token, sum.as_slice());
        proof {
            let old_states = states;
            let t = s.token as int;
            states = states.push(out@);
            assert(call_ensures(*accumulate, (s.weight, &row, &acc), sum));
            assert(out@ =~= before.update(t, sum@));
            assert(row@ == added_row(*d, results@, i as int));
            assert forall|j: int| 0 <= j < i + 1 implies ({
                let u = #[trigger] d.plan@[j];
                let q = u.token as int;
                &&& sum_given(
                    *accumulate,
                    u.weight,
                    added_row(*d, results@, j),
                    states[j][q],
                    states[j + 1][q],
                )
                &&& states[j + 1] == states[j].update(q, states[j + 1][q])
            }) by {
                if j < i {
                    assert(states[j] == old_states[j] && states[j + 1] == old_states[j + 1]);
                } else {
                    assert(states[j] == before);
                    assert(states[j + 1] == out@);
                }
            }
        }
        i += 1;
    }
    out
}

proof fn lemma_batch_found(experts: Seq<usize>, k: int)
    requires
        0 <= k < experts.len(),
    ensures
        0 <= batch_of(experts, experts[k]) < experts.len(),
        experts[batch_of(experts, experts[k])] == experts[k],
    decreases experts.len(),
{
    let e = experts[k];
    if experts[0] != e {
        assert(experts.skip(1)[k - 1] == e);
        lemma_batch_found(experts.skip(1), k - 1);
        assert(experts.skip(1)[batch_of(experts.skip(1), e)] == experts[batch_of(experts, e)]);
    }
}

/// A batch holds the rows of its expert's positions.
proof fn lemma_batch_rows(x: Seq<Seq<u32>>, buckets: Seq<Seq<Position>>, n: nat, k: int)
    requires
        n <= usize::MAX,
        0 <= k < batches_of(x, buckets, n).len(),
    ensures
        ({
            let b = batches_of(x, buckets, n)[k];
            b.0 < n && b.1 == buckets[b.0 as int].map_values(|p: Position| x[p.0 as int])
        }),
    decreases n,
{
    let rest = batches_of(x, buckets, (n - 1) as nat);
    if k < rest.len() {
        lemma_batch_rows(x, buckets, (n - 1) as nat, k);
    }
}

/// The dispatch of some positions: its batches and its additions.
pub open spec fn dispatch_is(
    d: Dispatch,
    x: Seq<Seq<u32>>,
    buckets: Seq<Seq<Position>>,
    n_expert: nat,
) -> bool {
    &&& batch_contents(d.batches@) == batches_of(x, buckets, n_expert)
    &&& d.plan@ == scatter_order(buckets, n_expert)
}

/// The batch that an addition reads is there, and holds its token's row.
proof fn lemma_addition_finds_its_row(
    d: Dispatch,
    x: Seq<Seq<u32>>,
    buckets: Seq<Seq<Position>>,
    n_expert: nat,
    i: int,
)
    requires
        dispatch_is(d, x, buckets, n_expert),
        n_expert <= buckets.len(),
        n_expert <= usize::MAX,
        forall|e: int| 0 <= e < n_expert ==> (#[trigger] buckets[e]).len() <= usize::MAX,
        0 <= i < d.plan@.len(),
    ensures
        ({
            let s = d.plan@[i];
            let k = batch_of(batch_experts(d.batches@), s.expert);
            &&& 0 <= k < d.batches@.len()
            &&& d.batches@[k].expert == s.expert
            &&& s.row < d.batches@[k].rows@.len()
            &&& d.batches@[k].rows@[s.row as int] == x[s.token as int]
        }),
{
    let s = d.plan@[i];
    let experts = batch_experts(d.batches@);
    let all = batches_of(x, buckets, n_expert);
    law_addition_reads_its_token(x, buckets, n_expert, i);
    let batch = buckets[s.expert as int].map_values(|p: Position| x[p.0 as int]);
    let j = choose|j: int| 0 <= j < all.len() && all[j] == (s.expert, batch);
    assert(batch_contents(d.batches@)[j].0 == experts[j]);
    lemma_batch_found(experts, j);
    let k = batch_of(experts, s.expert);
    assert(batch_contents(d.batches@)[k] == (d.batches@[k].expert, d.batches@[k].rows@));
    lemma_batch_rows(x, buckets, n_expert, k);
}

/// What the additions make of a token's row: for every addition that names it, in
/// their order, the weighted result of the expert on the token's own input is
/// added.
pub open spec fn token_sum(
    plan: Seq<Scatter>,
    plus: spec_fn(u32, Seq<u32>, Seq<u32>) -> Seq<u32>,
    solo: spec_fn(usize, Seq<u32>) -> Seq<u32>,
    x: Seq<u32>,
    start: Seq<u32>,
    t: int,
) -> Seq<u32>
    decreases plan.len(),
{
    if plan.len() == 0 {
        start
    } else {
        let rest = token_sum(plan.drop_last(), plus, solo, x, start, t);
        let s = plan.last();
        if s.token == t {
            plus(s.weight, solo(s.expert, x), rest)
        } else {
            rest
        }
    }
}

/// The experts work row by row: every row of a batch's result is what the expert
/// makes of that row alone.
pub open spec fn experts_work_by_row(
    d: Dispatch,
    results: Seq<Matrix>,
    solo: spec_fn(usize, Seq<u32>) -> Seq<u32>,
) -> bool {
    forall|k: int, b: int|
        0 <= k < d.batches@.len() && 0 <= b < d.batches@[k].rows@.len() ==> #[trigger] results[k]@[b]
            == solo(d.batches@[k].expert, d.batches@[k].rows@[b])
}

/// A token's output is the sum of its routes: where the experts work row by row and
/// the additions mean `plus`, row `t` is what the additions that name the token make
/// of zeros, each adding the weighted result of its expert on the token's own row.
pub proof fn law_output_sums_the_routes<A: Fn(u32, &Vec<u32>, &Vec<u32>) -> Vec<u32>>(
    accumulate: A,
    d: Dispatch,
    results: Seq<Matrix>,
    x: Seq<Seq<u32>>,
    buckets: Seq<Seq<Position>>,
    n_expert: nat,
    n_embd: nat,
    out: Seq<Seq<u32>>,
    plus: spec_fn(u32, Seq<u32>, Seq<u32>) -> Seq<u32>,
    solo: spec_fn(usize, Seq<u32>) -> Seq<u32>,
    t: int,
)
    requires
        dispatch_is(d, x, buckets, n_expert),
        dispatch_fits(d, x.len()),
        n_expert <= buckets.len(),
        n_expert <= usize::MAX,
        forall|e: int| 0 <= e < n_expert ==> (#[trigger] buckets[e]).len() <= usize::MAX,
        combined(accumulate, d, results, x.len(), n_embd, out),
        experts_work_by_row(d, results, solo),
        forall|w: u32, r: Seq<u32>, a: Seq<u32>, o: Seq<u32>| #[trigger]
            sum_given(accumulate, w, r, a, o) ==> o == plus(w, r, a),
        0 <= t < x.len(),
    ensures
        out[t] == token_sum(d.plan@, plus, solo, x[t], zero_rows(x.len(), n_embd)[t], t),
{
    let n = d.plan@.len() as int;
    let states = choose|states: Seq<Seq<Seq<u32>>>|
        {
            &&& states.len() == d.plan@.len() + 1
            &&& states[0] == zero_rows(x.len(), n_embd)
            &&& #[trigger] additions_follow(accumulate, d, results, states, n)
            &&& out == states.last()
        };
    lemma_running_sum(accumulate, d, results, x, buckets, n_expert, states, plus, solo, t, n);
    assert(d.plan@.take(n) =~= d.plan@);
}

proof fn lemma_running_sum<A: Fn(u32, &Vec<u32>, &Vec<u32>) -> Vec<u32>>(
    accumulate: A,
    d: Dispatch,
    results: Seq<Matrix>,
    x: Seq<Seq<u32>>,
    buckets: Seq<Seq<Position>>,
    n_expert: nat,
    states: Seq<Seq<Seq<u32>>>,
    plus: spec_fn(u32, Seq<u32>, Seq<u32>) -> Seq<u32>,
    solo: spec_fn(usize, Seq<u32>) -> Seq<u32>,
    t: int,
    n: int,
)
    requires
        dispatch_is(d, x, buckets, n_expert),
        dispatch_fits(d, x.len()),
        n_expert <= buckets.len(),
        n_expert <= usize::MAX,
        forall|e: int| 0 <= e < n_expert ==> (#[trigger] buckets[e]).len() <= usize::MAX,
        0 <= n <= d.plan@.len(),
        states[0].len() == x.len(),
        additions_follow(accumulate, d, results, states, n),
        experts_work_by_row(d, results, solo),
        forall|w: u32, r: Seq<u32>, a: Seq<u32>, o: Seq<u32>| #[trigger]
            sum_given(accumulate, w, r, a, o) ==> o == plus(w, r, a),
        0 <= t < x.len(),
    ensures
        states[n].len() == x.len(),
        states[n][t] == token_sum(d.plan@.take(n), plus, solo, x[t], states[0][t], t),
    decreases n,
{
    if n > 0 {
        let i = n - 1;
        lemma_running_sum(accumulate, d, results, x, buckets, n_expert, states, plus, solo, t, i);
        let s = d.plan@[i];
        assert(s.token < x.len());
        assert(d.plan@.take(n).drop_last() =~= d.plan@.take(i));
        assert(d.plan@.take(n).last() == s);
        lemma_addition_finds_its_row(d, x, buckets, n_expert, i);
        let k = batch_of(batch_experts(d.batches@), s.expert);
        assert(results[k]@[s.row as int] == solo(s.expert, x[s.token as int]));
    }
}

/// A token that no addition names, one without a weight, has an output of zeros.
pub proof fn law_unnamed_token_stays_zero<A: Fn(u32, &Vec<u32>, &Vec<u32>) -> Vec<u32>>(
    accumulate: A,
    d: Dispatch,
    results: Seq<Matrix>,
    n_tokens: nat,
    n_embd: nat,
    out: Seq<Seq<u32>>,
    t: int,
)
    requires
        dispatch_fits(d, n_tokens),
        combined(accumulate, d, results, n_tokens, n_embd, out),
        0 <= t < n_tokens,
        forall|i: int| 0 <= i < d.plan@.len() ==> (#[trigger] d.plan@[i]).token != t,
    ensures
        out[t] == Seq::new(n_embd, |k: int| 0u32),
{
    let n = d.plan@.len() as int;
    let states = choose|states: Seq<Seq<Seq<u32>>>|
        {
            &&& states.len() == d.plan@.len() + 1
            &&& states[0] == zero_rows(n_tokens, n_embd)
            &&& #[trigger] additions_follow(accumulate, d, results, states, n)
            &&& out == states.last()
        };
    lemma_row_stays(accumulate, d, results, states, n_tokens, t, n);
}

proof fn lemma_row_stays<A: Fn(u32, &Vec<u32>, &Vec<u32>) -> Vec<u32>>(
    accumulate: A,
    d: Dispatch,
    results: Seq<Matrix>,
    states: Seq<Seq<Seq<u32>>>,
    n_tokens: nat,
    t: int,
    n: int,
)
    requires
        dispatch_fits(d, n_tokens),
        0 <= n <= d.plan@.len(),
        states[0].len() == n_tokens,
        additions_follow(accumulate, d, results, states, n),
        0 <= t < n_tokens,
        forall|i: int| 0 <= i < d.plan@.len() ==> (#[trigger] d.plan@[i]).token != t,
    ensures
        states[n].len() == n_tokens,
        states[n][t] == states[0][t],
    decreases n,
{
    if n > 0 {
        lemma_row_stays(accumulate, d, results, states, n_tokens, t, n - 1);
        assert(d.plan@[n - 1].token != t);
    }
}

// ---- what a token gets -------------------------------------------------------

/// What some additions give a token: every expert with the weight, as often as it
/// is added.
pub open spec fn adds_to(plan: Seq<Scatter>, t: int) -> Multiset<(usize, u32)>
    decreases plan.len(),
{
    if plan.len() == 0 {
        Multiset::empty()
    } else {
        let rest = adds_to(plan.drop_last(), t);
        let last = plan.last();
        if last.token == t {
            rest.insert((last.expert, last.weight))
        } else {
            rest
        }
    }
}

/// The first `k` routes of a token that have a weight: every expert with the
/// weight, as often as it is named.
pub open spec fn token_routes(r: RoutingResult, t: int, k: nat) -> Multiset<(usize, u32)>
    decreases k,
{
    if k == 0 {
        Multiset::empty()
    } else {
        let rest = token_routes(r, t, (k - 1) as nat);
        let j = t * r.n_expert_used + k - 1;
        if is_zero(r.weights@[j]) {
            rest
        } else {
            rest.insert((r.indices@[j], r.weights@[j]))
        }
    }
}

/// What a route gives a token.
spec fn route_adds(r: RoutingResult, t: int, j: int) -> Multiset<(usize, u32)> {
    if !is_zero(r.weights@[j]) && j / r.n_expert_used as int == t {
        Multiset::singleton((r.indices@[j], r.weights@[j]))
    } else {
        Multiset::empty()
    }
}

/// What the first `n` routes give a token.
spec fn routes_add(r: RoutingResult, t: int, n: nat) -> Multiset<(usize, u32)>
    decreases n,
{
    if n == 0 {
        Multiset::empty()
    } else {
        routes_add(r, t, (n - 1) as nat).add(route_adds(r, t, n - 1))
    }
}

/// What every expert gets of the first `n` routes.
spec fn early_buckets(r: RoutingResult, n_expert: nat, n: nat) -> Seq<Seq<Position>> {
    Seq::new(n_expert, |e: int| bucket(r.indices@, r.weights@, r.n_expert_used as nat, e, n))
}

proof fn lemma_adds_of_two(a: Seq<Scatter>, b: Seq<Scatter>, t: int)
    ensures
        adds_to(a + b, t) == adds_to(a, t).add(adds_to(b, t)),
    decreases b.len(),
{
    if b.len() == 0 {
        assert(a + b =~= a);
        assert(adds_to(a, t) =~= adds_to(a, t).add(Multiset::empty()));
    } else {
        lemma_adds_of_two(a, b.drop_last(), t);
        assert((a + b).drop_last() =~= a + b.drop_last());
        assert(adds_to(a + b, t) =~= adds_to(a, t).add(adds_to(b, t)));
    }
}

/// One more route gives an expert one more position where it names the expert,
/// and that position is the token's where the route is.
proof fn lemma_expert_adds(r: RoutingResult, n_tokens: nat, e: int, n: nat, t: int)
    requires
        0 < n <= n_tokens * r.n_expert_used,
        n_tokens <= usize::MAX,
        0 <= e <= usize::MAX,
    ensures
        ({
            let used = r.n_expert_used as nat;
            let now = bucket(r.indices@, r.weights@, used, e, n);
            let before = bucket(r.indices@, r.weights@, used, e, (n - 1) as nat);
            adds_to(expert_scatter(e as usize, now, now.len()), t) == adds_to(
                expert_scatter(e as usize, before, before.len()),
                t,
            ).add(
                if r.indices@[n - 1] == e {
                    route_adds(r, t, n - 1)
                } else {
                    Multiset::empty()
                },
            )
        }),
{
    let used = r.n_expert_used as nat;
    let j = n - 1;
    let now = bucket(r.indices@, r.weights@, used, e, n);
    let before = bucket(r.indices@, r.weights@, used, e, j as nat);
    let was = expert_scatter(e as usize, before, before.len());
    let grown = expert_scatter(e as usize, now, now.len());
    crate::attention::dsv4_model_forward::lemma_position(j, n_tokens as int, used as int);
    if r.indices@[j] == e && !is_zero(r.weights@[j]) {
        assert(grown.drop_last() =~= was);
        assert(adds_to(grown, t) =~= adds_to(was, t).add(route_adds(r, t, j)));
    } else {
        assert(adds_to(grown, t) =~= adds_to(was, t).add(Multiset::empty()));
    }
}

proof fn lemma_plan_adds(
    r: RoutingResult,
    n_tokens: nat,
    n_expert: nat,
    first: nat,
    n: nat,
    t: int,
)
    requires
        0 < n <= n_tokens * r.n_expert_used,
        n_tokens <= usize::MAX,
        first <= n_expert <= usize::MAX,
    ensures
        adds_to(scatter_order(early_buckets(r, n_expert, n), first), t) == adds_to(
            scatter_order(early_buckets(r, n_expert, (n - 1) as nat), first),
            t,
        ).add(
            if r.indices@[n - 1] < first {
                route_adds(r, t, n - 1)
            } else {
                Multiset::empty()
            },
        ),
    decreases first,
{
    let now = early_buckets(r, n_expert, n);
    let before = early_buckets(r, n_expert, (n - 1) as nat);
    let new = if r.indices@[n - 1] < first {
        route_adds(r, t, n - 1)
    } else {
        Multiset::empty()
    };
    if first == 0 {
        assert(adds_to(scatter_order(now, 0), t) =~= adds_to(scatter_order(before, 0), t).add(new));
    } else {
        let e = (first - 1) as nat;
        lemma_plan_adds(r, n_tokens, n_expert, e, n, t);
        lemma_expert_adds(r, n_tokens, e as int, n, t);
        lemma_adds_of_two(
            scatter_order(now, e),
            expert_scatter(e as usize, now[e as int], now[e as int].len()),
            t,
        );
        lemma_adds_of_two(
            scatter_order(before, e),
            expert_scatter(e as usize, before[e as int], before[e as int].len()),
            t,
        );
        assert(adds_to(scatter_order(now, first), t) =~= adds_to(
            scatter_order(before, first),
            t,
        ).add(new));
    }
}

proof fn lemma_no_plan(r: RoutingResult, n_expert: nat, first: nat, t: int)
    requires
        first <= n_expert,
    ensures
        adds_to(scatter_order(early_buckets(r, n_expert, 0), first), t) == Multiset::<
            (usize, u32),
        >::empty(),
    decreases first,
{
    if first > 0 {
        let e = (first - 1) as nat;
        lemma_no_plan(r, n_expert, e, t);
        let b = early_buckets(r, n_expert, 0);
        assert(scatter_order(b, first) =~= scatter_order(b, e));
    }
}

proof fn lemma_plan_is_routes(r: RoutingResult, n_tokens: nat, n_expert: nat, n: nat, t: int)
    requires
        r.routes(n_tokens, n_expert),
        n <= r.indices@.len(),
        n_tokens <= usize::MAX,
        n_expert <= usize::MAX,
    ensures
        adds_to(scatter_order(early_buckets(r, n_expert, n), n_expert), t) == routes_add(r, t, n),
    decreases n,
{
    if n == 0 {
        lemma_no_plan(r, n_expert, n_expert, t);
    } else {
        lemma_plan_is_routes(r, n_tokens, n_expert, (n - 1) as nat, t);
        lemma_plan_adds(r, n_tokens, n_expert, n_expert, n, t);
        assert(r.indices@[n - 1] < n_expert);
    }
}

/// What the first `n` routes give a token, by where they end: before its routes,
/// among them, or behind them.
spec fn token_share(r: RoutingResult, t: int, n: nat) -> Multiset<(usize, u32)> {
    let used = r.n_expert_used as int;
    if n <= t * used {
        Multiset::empty()
    } else if n <= t * used + used {
        token_routes(r, t, (n - t * used) as nat)
    } else {
        token_routes(r, t, used as nat)
    }
}

/// A route belongs to the token whose routes it stands among.
proof fn lemma_route_of(j: int, used: int, t: int)
    requires
        0 <= j,
        0 < used,
    ensures
        (j / used == t) == (t * used <= j < t * used + used),
{
    assert((j / used == t) == (t * used <= j < t * used + used)) by (nonlinear_arith)
        requires
            0 <= j,
            0 < used,
    ;
}

/// A route before or behind those of a token gives it nothing.
proof fn lemma_foreign_route(r: RoutingResult, t: int, n: nat)
    requires
        0 < n,
        0 < r.n_expert_used,
        0 <= t * r.n_expert_used,
        n <= t * r.n_expert_used || n > t * r.n_expert_used + r.n_expert_used,
    ensures
        token_share(r, t, n) == token_share(r, t, (n - 1) as nat).add(route_adds(r, t, n - 1)),
{
    lemma_route_of(n - 1, r.n_expert_used as int, t);
    let before = token_share(r, t, (n - 1) as nat);
    assert(route_adds(r, t, n - 1) == Multiset::<(usize, u32)>::empty());
    assert(token_share(r, t, n) == before);
    assert(before =~= before.add(Multiset::empty()));
}

/// A route among those of a token gives it what the route says.
proof fn lemma_own_route(r: RoutingResult, t: int, n: nat)
    requires
        0 < r.n_expert_used,
        0 <= t * r.n_expert_used < n <= t * r.n_expert_used + r.n_expert_used,
    ensures
        token_share(r, t, n) == token_share(r, t, (n - 1) as nat).add(route_adds(r, t, n - 1)),
{
    let used = r.n_expert_used as int;
    let k = (n - t * used) as nat;
    lemma_route_of(n - 1, used, t);
    let before = token_routes(r, t, (k - 1) as nat);
    assert(token_share(r, t, (n - 1) as nat) == before);
    if is_zero(r.weights@[n - 1]) {
        assert(before =~= before.add(Multiset::empty()));
    } else {
        let route = (r.indices@[n - 1], r.weights@[n - 1]);
        assert(before.insert(route) =~= before.add(Multiset::singleton(route)));
    }
}

proof fn lemma_routes_of_token(r: RoutingResult, t: int, n: nat)
    requires
        0 <= t,
        n > 0 ==> 0 < r.n_expert_used,
    ensures
        routes_add(r, t, n) == token_share(r, t, n),
    decreases n,
{
    let used = r.n_expert_used as int;
    assert(0 <= t * used) by (nonlinear_arith)
        requires
            t >= 0,
            used >= 0,
    ;
    if n > 0 {
        lemma_routes_of_token(r, t, (n - 1) as nat);
        if t * used < n <= t * used + used {
            lemma_own_route(r, t, n);
        } else {
            lemma_foreign_route(r, t, n);
        }
    }
}

/// A token gets exactly its routes: of the additions that name it, every expert
/// comes with the weight as often as the token's routes name it with that weight,
/// and routes without a weight give nothing.
pub proof fn law_token_gets_its_routes(r: RoutingResult, n_tokens: nat, n_expert: nat, t: int)
    requires
        r.routes(n_tokens, n_expert),
        n_tokens <= usize::MAX,
        n_expert <= usize::MAX,
        0 <= t < n_tokens,
    ensures
        adds_to(scatter_order(buckets_of(r, n_expert), n_expert), t) == token_routes(
            r,
            t,
            r.n_expert_used as nat,
        ),
{
    let n = r.indices@.len();
    let used = r.n_expert_used as int;
    assert(early_buckets(r, n_expert, n) =~= buckets_of(r, n_expert));
    lemma_plan_is_routes(r, n_tokens, n_expert, n, t);
    lemma_routes_of_token(r, t, n);
    assert(0 <= t * used && t * used + used <= n_tokens * used) by (nonlinear_arith)
        requires
            0 <= t,
            t + 1 <= n_tokens,
            used >= 0,
    ;
}

/// A routed expert that ran on its rows: gate and up projection of the expert, the
/// activation clamped to the limit, and the expert's down projection.
pub proof fn law_expert_steps<V, F: Fn(usize, Kernel, Vec<&V>) -> V>(
    kernels: F,
    expert: usize,
    limit: u32,
    x: V,
    y: V,
)
    requires
        code_gives(kernels, expert, expert_code(limit), x, y),
    ensures
        exists|gate: V, up: V, inner: V|
            {
                &&& #[trigger] one_given(
                    kernels,
                    expert,
                    Kernel::Project(Weight::ExpertGate, Source::Dense),
                    x,
                    gate,
                )
                &&& #[trigger] one_given(
                    kernels,
                    expert,
                    Kernel::Project(Weight::ExpertUp, Source::Dense),
                    x,
                    up,
                )
                &&& #[trigger] two_given(
                    kernels,
                    expert,
                    Kernel::ClampedSwiGlu(limit),
                    gate,
                    up,
                    inner,
                )
                &&& one_given(
                    kernels,
                    expert,
                    Kernel::Project(Weight::ExpertDown, Source::Dense),
                    inner,
                    y,
                )
            },
{
    law_gated_code_steps(
        kernels,
        expert,
        Kernel::Project(Weight::ExpertGate, Source::Dense),
        Kernel::Project(Weight::ExpertUp, Source::Dense),
        Kernel::ClampedSwiGlu(limit),
        Kernel::Project(Weight::ExpertDown, Source::Dense),
        x,
        y,
    );
}

/// The additions go expert by expert, and within an expert row by row.
pub proof fn law_additions_go_by_expert(buckets: Seq<Seq<Position>>, n: nat, i: int, j: int)
    requires
        n <= buckets.len(),
        n <= usize::MAX,
        forall|e: int| 0 <= e < n ==> (#[trigger] buckets[e]).len() <= usize::MAX,
        0 <= i < j < scatter_order(buckets, n).len(),
    ensures
        scatter_order(buckets, n)[j].expert < n,
        scatter_order(buckets, n)[i].expert < scatter_order(buckets, n)[j].expert || (
        scatter_order(buckets, n)[i].expert == scatter_order(buckets, n)[j].expert
            && scatter_order(buckets, n)[i].row < scatter_order(buckets, n)[j].row),
    decreases n,
{
    if n > 0 {
        let m = (n - 1) as nat;
        let before = scatter_order(buckets, m);
        if j < before.len() {
            law_additions_go_by_expert(buckets, m, i, j);
        } else if i < before.len() {
            lemma_early_experts(buckets, m, i);
        }
    }
}

proof fn lemma_early_experts(buckets: Seq<Seq<Position>>, n: nat, i: int)
    requires
        n <= buckets.len(),
        n <= usize::MAX,
        0 <= i < scatter_order(buckets, n).len(),
    ensures
        scatter_order(buckets, n)[i].expert < n,
    decreases n,
{
    if n > 0 {
        let m = (n - 1) as nat;
        if i < scatter_order(buckets, m).len() {
            lemma_early_experts(buckets, m, i);
        }
    }
}

/// What an expert gets: exactly the routes that name it with a weight other than
/// zero, each as its token and its weight.
pub proof fn law_bucket_holds_the_routes(
    indices: Seq<usize>,
    weights: Seq<u32>,
    used: nat,
    e: int,
    n: nat,
    j: int,
)
    requires
        used > 0,
        n <= usize::MAX,
        0 <= j < n,
    ensures
        indices[j] == e && weights[j] != 0 && weights[j] != 0x8000_0000 ==> bucket(
            indices,
            weights,
            used,
            e,
            n,
        ).contains(((j / used as int) as usize, weights[j])),
    decreases n,
{
    let rest = bucket(indices, weights, used, e, (n - 1) as nat);
    let all = bucket(indices, weights, used, e, n);
    if j < n - 1 {
        law_bucket_holds_the_routes(indices, weights, used, e, (n - 1) as nat, j);
        let p = ((j / used as int) as usize, weights[j]);
        if indices[j] == e && weights[j] != 0 && weights[j] != 0x8000_0000 {
            let i = choose|i: int| 0 <= i < rest.len() && rest[i] == p;
            assert(all[i] == p);
        }
    } else if indices[j] == e && weights[j] != 0 && weights[j] != 0x8000_0000 {
        assert(all[all.len() - 1] == ((j / used as int) as usize, weights[j]));
    }
}

/// What an expert gets comes from its routes: every entry is the token and the weight
/// of a route that names the expert, with a weight other than zero.
pub proof fn law_bucket_entry_is_a_route(
    indices: Seq<usize>,
    weights: Seq<u32>,
    used: nat,
    e: int,
    n: nat,
    b: int,
)
    requires
        used > 0,
        0 <= b < bucket(indices, weights, used, e, n).len(),
    ensures
        exists|j: int|
            {
                &&& 0 <= j < n && #[trigger] indices[j] == e
                &&& weights[j] != 0 && weights[j] != 0x8000_0000
                &&& bucket(indices, weights, used, e, n)[b] == ((j / used as int) as usize, weights[j])
            },
    decreases n,
{
    let rest = bucket(indices, weights, used, e, (n - 1) as nat);
    if b < rest.len() {
        law_bucket_entry_is_a_route(indices, weights, used, e, (n - 1) as nat, b);
    } else {
        assert(indices[n - 1] == e);
    }
}

/// The kernels' sum of a weighted row is what a call with the weight, the row and the
/// running sum gives.
pub proof fn law_sum_comes_from_a_call<A: Fn(u32, &Vec<u32>, &Vec<u32>) -> Vec<u32>>(
    accumulate: A,
    weight: u32,
    row: Seq<u32>,
    acc: Seq<u32>,
    out: Seq<u32>,
)
    requires
        sum_given(accumulate, weight, row, acc, out),
    ensures
        exists|r: Vec<u32>, a: Vec<u32>, o: Vec<u32>|
            #[trigger] call_ensures(accumulate, (weight, &r, &a), o) && r@ == row && a@ == acc
                && o@ == out,
{
}

/// Every batch has rows, no expert has two batches, and the batches come in the order
/// of their experts.
pub proof fn law_batches_have_rows(x: Seq<Seq<u32>>, buckets: Seq<Seq<Position>>, n: nat, i: int)
    requires
        n <= buckets.len(),
        n <= usize::MAX,
        0 <= i < batches_of(x, buckets, n).len(),
    ensures
        batches_of(x, buckets, n)[i].0 < n,
        batches_of(x, buckets, n)[i].1.len() > 0,
        batches_of(x, buckets, n)[i].1.len() == buckets[batches_of(x, buckets, n)[i].0 as int].len(),
        forall|j: int|
            0 <= j < i ==> (#[trigger] batches_of(x, buckets, n)[j]).0 < batches_of(
                x,
                buckets,
                n,
            )[i].0,
    decreases n,
{
    if n > 0 {
        let m = (n - 1) as nat;
        let rest = batches_of(x, buckets, m);
        if i < rest.len() {
            law_batches_have_rows(x, buckets, m, i);
            assert forall|j: int| 0 <= j < i implies (#[trigger] batches_of(x, buckets, n)[j]).0
                < batches_of(x, buckets, n)[i].0 by {
                assert(batches_of(x, buckets, n)[j] == rest[j]);
            }
        } else {
            assert forall|j: int| 0 <= j < i implies (#[trigger] batches_of(x, buckets, n)[j]).0
                < batches_of(x, buckets, n)[i].0 by {
                assert(batches_of(x, buckets, n)[j] == rest[j]);
                law_batches_have_rows(x, buckets, m, j);
            }
        }
    }
}

/// Which shapes the routed experts take: as many experts in all three tensors, gate and
/// up projection from the input's width to the inner one, and down projection back.
pub proof fn law_expert_shapes(s: ExpertShapes, n_embd: nat)
    ensures
        expert_shapes_fit(s, n_embd) <==> {
            &&& s.up_exps.0 == s.gate_exps.0 && s.down_exps.0 == s.gate_exps.0
            &&& s.up_exps.1 == s.gate_exps.1 && s.down_exps.2 == s.gate_exps.1
            &&& s.gate_exps.2 == n_embd && s.up_exps.2 == n_embd && s.down_exps.1 == n_embd
        },
{
}

/// The batch of an expert is the first one that is named by it.
pub proof fn law_batch_of_an_expert(experts: Seq<usize>, e: usize)
    ensures
        0 <= batch_of(experts, e) <= experts.len(),
        forall|j: int| 0 <= j < batch_of(experts, e) ==> #[trigger] experts[j] != e,
        batch_of(experts, e) < experts.len() ==> experts[batch_of(experts, e)] == e,
    decreases experts.len(),
{
    if experts.len() > 0 && experts[0] != e {
        let rest = experts.skip(1);
        law_batch_of_an_expert(rest, e);
        assert forall|j: int| 0 <= j < batch_of(experts, e) implies #[trigger] experts[j] != e by {
            if j > 0 {
                assert(rest[j - 1] == experts[j]);
            }
        }
    }
}

/// What the additions do: addition `i` adds, by its weight, the row that its expert
/// gave for it to its token's sum, and leaves every other token's alone; before the
/// first one every sum is zero, and after the last one they are the output.
pub proof fn law_additions_one_by_one<A: Fn(u32, &Vec<u32>, &Vec<u32>) -> Vec<u32>>(
    accumulate: A,
    d: Dispatch,
    results: Seq<Matrix>,
    n_tokens: nat,
    n_embd: nat,
    out: Seq<Seq<u32>>,
)
    requires
        dispatch_fits(d, n_tokens),
        combined(accumulate, d, results, n_tokens, n_embd, out),
    ensures
        exists|sums: Seq<Seq<Seq<u32>>>|
            {
                &&& (#[trigger] sums.len()) == d.plan@.len() + 1
                &&& sums[0].len() == n_tokens
                &&& forall|t: int, c: int|
                    0 <= t < n_tokens && 0 <= c < n_embd ==> (#[trigger] sums[0][t][c]) == 0
                &&& out == sums[d.plan@.len() as int]
                &&& forall|i: int|
                    0 <= i < d.plan@.len() ==> addition_done(
                        accumulate,
                        d,
                        results,
                        #[trigger] d.plan@[i],
                        sums[i],
                        sums[i + 1],
                    )
            },
{
    let sums = choose|states: Seq<Seq<Seq<u32>>>|
        {
            &&& states.len() == d.plan@.len() + 1
            &&& states[0] == zero_rows(n_tokens, n_embd)
            &&& #[trigger] additions_follow(accumulate, d, results, states, d.plan@.len() as int)
            &&& out == states.last()
        };
    assert forall|i: int| 0 <= i < d.plan@.len() implies addition_done(
        accumulate,
        d,
        results,
        #[trigger] d.plan@[i],
        sums[i],
        sums[i + 1],
    ) by {
        let s = d.plan@[i];
        let k = batch_of(batch_experts(d.batches@), s.expert);
        assert(d.batches@[k].expert == s.expert);
        law_batch_of_an_expert(batch_experts(d.batches@), s.expert);
        assert forall|j: int| 0 <= j < k implies (#[trigger] d.batches@[j]).expert != s.expert by {
            assert(batch_experts(d.batches@)[j] == d.batches@[j].expert);
        }
        assert(sum_given(
            accumulate,
            s.weight,
            results[k]@[s.row as int],
            sums[i][s.token as int],
            sums[i + 1][s.token as int],
        ));
    }
    assert(sums.len() == d.plan@.len() + 1);
}

/// One addition: the row that the first batch of its expert gave for it, by its
/// weight, went to its token's sum, and no other sum changed.
pub open spec fn addition_done<A: Fn(u32, &Vec<u32>, &Vec<u32>) -> Vec<u32>>(
    accumulate: A,
    d: Dispatch,
    results: Seq<Matrix>,
    s: Scatter,
    before: Seq<Seq<u32>>,
    after: Seq<Seq<u32>>,
) -> bool {
    let t = s.token as int;
    exists|k: int|
        {
            &&& 0 <= k < d.batches@.len()
            &&& (#[trigger] d.batches@[k]).expert == s.expert
            &&& forall|j: int| 0 <= j < k ==> (#[trigger] d.batches@[j]).expert != s.expert
            &&& sum_given(accumulate, s.weight, results[k]@[s.row as int], before[t], after[t])
            &&& after == before.update(t, after[t])
        }
}

} // verus!
