//! The picked experts of one token: which they are, with which weights, and their
//! weighted sum. The floating-point work is the caller's.
use vstd::prelude::*;
use crate::attention::dsv4_moe_dispatch::sum_given;
use crate::attention::top_k::{is_top, top_k_experts};

verus! {

/// The scores of some experts.
pub open spec fn scores_of(scores: Seq<u32>, top: Seq<usize>) -> Seq<u32> {
    top.map_values(|e: usize| scores[e as int])
}

/// What the weights of some picked scores, with a scale where there is one, may be.
/// The weights are whatever the caller brings.
pub open spec fn weights_given<W: Fn(&Vec<u32>, Option<u32>) -> Vec<u32>>(
    weigh: W,
    picked: Seq<u32>,
    scale: Option<u32>,
    weights: Seq<u32>,
) -> bool {
    exists|p: Vec<u32>, w: Vec<u32>|
        #[trigger] call_ensures(weigh, (&p, scale), w) && p@ == picked && w@ == weights
}

/// What an expert may make of a row. The expert is whatever the caller brings.
pub open spec fn expert_given<E: Fn(usize, &Vec<u32>) -> Vec<u32>>(
    expert: E,
    e: usize,
    x: Seq<u32>,
    out: Seq<u32>,
) -> bool {
    exists|v: Vec<u32>, o: Vec<u32>|
        #[trigger] call_ensures(expert, (e, &v), o) && v@ == x && o@ == out
}

/// An expert's weighted result was added to a row.
pub open spec fn result_added<
    E: Fn(usize, &Vec<u32>) -> Vec<u32>,
    A: Fn(u32, &Vec<u32>, &Vec<u32>) -> Vec<u32>,
>(expert: E, accumulate: A, e: usize, weight: u32, x: Seq<u32>, acc: Seq<u32>, out: Seq<u32>) -> bool {
    exists|r: Seq<u32>| #[trigger]
        expert_given(expert, e, x, r) && sum_given(accumulate, weight, r, acc, out)
}

/// The picks of a token, their weights, and the running sums.
pub struct RoutedRun {
    pub top: Seq<usize>,
    pub weights: Seq<u32>,
    pub sums: Seq<Seq<u32>>,
}

/// A run of a token's best experts: the best by score in their order, weighted, and
/// added up one after the other from zeros.
pub open spec fn routed_follows<
    W: Fn(&Vec<u32>, Option<u32>) -> Vec<u32>,
    E: Fn(usize, &Vec<u32>) -> Vec<u32>,
    A: Fn(u32, &Vec<u32>, &Vec<u32>) -> Vec<u32>,
>(
    weigh: W,
    expert: E,
    accumulate: A,
    x: Seq<u32>,
    scores: Seq<u32>,
    k: nat,
    scale: Option<u32>,
    width: nat,
    r: RoutedRun,
) -> bool {
    &&& is_top(scores, k, r.top)
    &&& weights_given(weigh, scores_of(scores, r.top), scale, r.weights)
    &&& r.weights.len() == r.top.len()
    &&& r.sums.len() == r.top.len() + 1
    &&& r.sums[0] == Seq::new(width, |i: int| 0u32)
    &&& forall|i: int|
        0 <= i < r.top.len() ==> result_added(
            expert,
            accumulate,
            #[trigger] r.top[i],
            r.weights[i],
            x,
            r.sums[i],
            r.sums[i + 1],
        )
}

/// The best experts of a token ran and gave `out`.
pub open spec fn routed_ran<
    W: Fn(&Vec<u32>, Option<u32>) -> Vec<u32>,
    E: Fn(usize, &Vec<u32>) -> Vec<u32>,
    A: Fn(u32, &Vec<u32>, &Vec<u32>) -> Vec<u32>,
>(
    weigh: W,
    expert: E,
    accumulate: A,
    x: Seq<u32>,
    scores: Seq<u32>,
    k: nat,
    scale: Option<u32>,
    width: nat,
    out: Seq<u32>,
) -> bool {
    exists|r: RoutedRun| #[trigger]
        routed_follows(weigh, expert, accumulate, x, scores, k, scale, width, r) && out
            == r.sums.last()
}

/// The weights, the experts and the addition can be called, and there is a weight
/// for every pick.
pub open spec fn routed_callable<
    W: Fn(&Vec<u32>, Option<u32>) -> Vec<u32>,
    E: Fn(usize, &Vec<u32>) -> Vec<u32>,
    A: Fn(u32, &Vec<u32>, &Vec<u32>) -> Vec<u32>,
>(weigh: W, expert: E, accumulate: A, n_expert: nat) -> bool {
    &&& forall|p: &Vec<u32>, s: Option<u32>| call_requires(weigh, (p, s))
    &&& forall|p: &Vec<u32>, s: Option<u32>, w: Vec<u32>| #[trigger]
        call_ensures(weigh, (p, s), w) ==> w@.len() == p@.len()
    &&& forall|e: usize, x: &Vec<u32>| e < n_expert ==> call_requires(expert, (e, x))
    &&& forall|w: u32, r: &Vec<u32>, a: &Vec<u32>| call_requires(accumulate, (w, r, a))
}

/// The weighted sum of a token's best experts by score.
pub fn run_routed<
    W: Fn(&Vec<u32>, Option<u32>) -> Vec<u32>,
    E: Fn(usize, &Vec<u32>) -> Vec<u32>,
    A: Fn(u32, &Vec<u32>, &Vec<u32>) -> Vec<u32>,
>(
    x: &Vec<u32>,
    scores: &Vec<u32>,
    k: usize,
    scale: Option<u32>,
    width: usize,
    weigh: &W,
    expert: &E,
    accumulate: &A,
) -> (out: Vec<u32>)
    requires
        routed_callable(*weigh, *expert, *accumulate, scores@.len()),
    ensures
        routed_ran(
            *weigh,
            *expert,
            *accumulate,
            x@,
            scores@,
            k as nat,
            scale,
            width as nat,
            out@,
        ),
{
    let top: Vec<usize> = top_k_experts(scores.as_slice(), k);
    let mut picked: Vec<u32> = Vec::new();
    let mut i: usize = 0;
    while i < top.len()
        invariant
            i <= top@.len(),
            is_top(scores@, k as nat, top@),
            picked@ == scores_of(scores@, top@).take(i as int),
        decreases top@.len() - i,
    {
        assert(top@[i as int] < scores@.len());
        picked.push(scores[top[i]]);
        i += 1;
        assert(picked@ =~= scores_of(scores@, top@).take(i as int));
    }
    assert(picked@ =~= scores_of(scores@, top@));
    let weights: Vec<u32> = weigh(&picked, scale);
    assert(call_ensures(*weigh, (&picked, scale), weights));
    let mut out: Vec<u32> = Vec::new();
    let mut d: usize = 0;
    while d < width
        invariant
            d <= width,
            out@ == Seq::new(d as nat, |i: int| 0u32),
        decreases width - d,
    {
        out.push(0);
        d += 1;
        assert(out@ =~= Seq::new(d as nat, |i: int| 0u32));
    }
    let ghost mut sums: Seq<Seq<u32>> = seq![out@];
    let mut p: usize = 0;
    while p < top.len()
        invariant
            p <= top@.len(),
            is_top(scores@, k as nat, top@),
            weights@.len() == top@.len(),
            routed_callable(*weigh, *expert, *accumulate, scores@.len()),
            sums.len() == p + 1,
            sums[0] == Seq::new(width as nat, |i: int| 0u32),
            sums.last() == out@,
            forall|i: int|
                0 <= i < p ==> result_added(
                    *expert,
                    *accumulate,
                    #[trigger] top@[i],
                    weights@[i],
                    x@,
                    sums[i],
                    sums[i + 1],
                ),
        decreases top@.len() - p,
    {
        let e: usize = top[p];
        assert(top@[p as int] < scores@.len());
        let part: Vec<u32> = expert(e, x);
        let next: Vec<u32> = accumulate(weights[p], &part, &out);
        proof {
            assert(call_ensures(*expert, (e, x), part));
            assert(expert_given(*expert, e, x@, part@));
            assert(call_ensures(*accumulate, (weights@[p as int], &part, &out), next));
            assert(sum_given(*accumulate, weights@[p as int], part@, out@, next@));
            let before = sums;
            sums = sums.push(next@);
            assert forall|i: int| 0 <= i < p + 1 implies result_added(
                *expert,
                *accumulate,
                #[trigger] top@[i],
                weights@[i],
                x@,
                sums[i],
                sums[i + 1],
            ) by {
                assert(sums[i] == before[i]);
                if i < p {
                    assert(sums[i + 1] == before[i + 1]);
                }
            }
        }
        out = next;
        p += 1;
    }
    proof {
        let run = RoutedRun { top: top@, weights: weights@, sums };
        assert(routed_follows(
            *weigh,
            *expert,
            *accumulate,
            x@,
            scores@,
            k as nat,
            scale,
            width as nat,
            run,
        ));
    }
    out
}

/// The weighted sum of some experts' results, from a start.
pub open spec fn weighted_sum(
    top: Seq<usize>,
    weights: Seq<u32>,
    solo: spec_fn(usize, Seq<u32>) -> Seq<u32>,
    plus: spec_fn(u32, Seq<u32>, Seq<u32>) -> Seq<u32>,
    x: Seq<u32>,
    start: Seq<u32>,
    n: nat,
) -> Seq<u32>
    decreases n,
{
    if n == 0 {
        start
    } else {
        plus(
            weights[n - 1],
            solo(top[n - 1], x),
            weighted_sum(top, weights, solo, plus, x, start, (n - 1) as nat),
        )
    }
}

/// With experts that mean `solo` and an addition that means `plus`, a token's best
/// experts give the weighted sum of their results: the best by score, weighted by
/// what the scores call for.
pub proof fn law_routed_is_the_weighted_sum<
    W: Fn(&Vec<u32>, Option<u32>) -> Vec<u32>,
    E: Fn(usize, &Vec<u32>) -> Vec<u32>,
    A: Fn(u32, &Vec<u32>, &Vec<u32>) -> Vec<u32>,
>(
    weigh: W,
    expert: E,
    accumulate: A,
    solo: spec_fn(usize, Seq<u32>) -> Seq<u32>,
    plus: spec_fn(u32, Seq<u32>, Seq<u32>) -> Seq<u32>,
    x: Seq<u32>,
    scores: Seq<u32>,
    k: nat,
    scale: Option<u32>,
    width: nat,
    out: Seq<u32>,
)
    requires
        routed_ran(weigh, expert, accumulate, x, scores, k, scale, width, out),
        forall|e: usize, v: Seq<u32>, o: Seq<u32>| #[trigger]
            expert_given(expert, e, v, o) ==> o == solo(e, v),
        forall|w: u32, r: Seq<u32>, a: Seq<u32>, o: Seq<u32>| #[trigger]
            sum_given(accumulate, w, r, a, o) ==> o == plus(w, r, a),
    ensures
        exists|top: Seq<usize>, weights: Seq<u32>|
            {
                &&& #[trigger] is_top(scores, k, top)
                &&& #[trigger] weights_given(weigh, scores_of(scores, top), scale, weights)
                &&& out == weighted_sum(
                    top,
                    weights,
                    solo,
                    plus,
                    x,
                    Seq::new(width, |i: int| 0u32),
                    top.len(),
                )
            },
{
    let r = choose|r: RoutedRun| #[trigger]
        routed_follows(weigh, expert, accumulate, x, scores, k, scale, width, r) && out
            == r.sums.last();
    lemma_sums(weigh, expert, accumulate, solo, plus, x, scores, k, scale, width, r, r.top.len());
    assert(is_top(scores, k, r.top));
    assert(weights_given(weigh, scores_of(scores, r.top), scale, r.weights));
}

proof fn lemma_sums<
    W: Fn(&Vec<u32>, Option<u32>) -> Vec<u32>,
    E: Fn(usize, &Vec<u32>) -> Vec<u32>,
    A: Fn(u32, &Vec<u32>, &Vec<u32>) -> Vec<u32>,
>(
    weigh: W,
    expert: E,
    accumulate: A,
    solo: spec_fn(usize, Seq<u32>) -> Seq<u32>,
    plus: spec_fn(u32, Seq<u32>, Seq<u32>) -> Seq<u32>,
    x: Seq<u32>,
    scores: Seq<u32>,
    k: nat,
    scale: Option<u32>,
    width: nat,
    r: RoutedRun,
    n: nat,
)
    requires
        routed_follows(weigh, expert, accumulate, x, scores, k, scale, width, r),
        n <= r.top.len(),
        forall|e: usize, v: Seq<u32>, o: Seq<u32>| #[trigger]
            expert_given(expert, e, v, o) ==> o == solo(e, v),
        forall|w: u32, a: Seq<u32>, b: Seq<u32>, o: Seq<u32>| #[trigger]
            sum_given(accumulate, w, a, b, o) ==> o == plus(w, a, b),
    ensures
        r.sums[n as int] == weighted_sum(
            r.top,
            r.weights,
            solo,
            plus,
            x,
            Seq::new(width, |i: int| 0u32),
            n,
        ),
    decreases n,
{
    if n > 0 {
        let i = n - 1;
        lemma_sums(weigh, expert, accumulate, solo, plus, x, scores, k, scale, width, r, i as nat);
        assert(result_added(
            expert,
            accumulate,
            r.top[i],
            r.weights[i],
            x,
            r.sums[i],
            r.sums[i + 1],
        ));
    }
}

/// What a token's experts did, pick by pick: the picks are the best by their scores,
/// their weights are of the scores at the picks, and from zeros on the result of each
/// pick on the token's row, by its own weight, is added to the sum of those before it.
pub proof fn law_each_pick_is_added_once<
    W: Fn(&Vec<u32>, Option<u32>) -> Vec<u32>,
    E: Fn(usize, &Vec<u32>) -> Vec<u32>,
    A: Fn(u32, &Vec<u32>, &Vec<u32>) -> Vec<u32>,
>(
    weigh: W,
    expert: E,
    accumulate: A,
    x: Seq<u32>,
    scores: Seq<u32>,
    k: nat,
    scale: Option<u32>,
    width: nat,
    out: Seq<u32>,
)
    requires
        routed_ran(weigh, expert, accumulate, x, scores, k, scale, width, out),
    ensures
        exists|top: Seq<usize>, picked: Seq<u32>, weights: Seq<u32>, sums: Seq<Seq<u32>>|
            {
                &&& #[trigger] is_top(scores, k, top)
                &&& picked.len() == top.len()
                &&& forall|i: int|
                    0 <= i < top.len() ==> #[trigger] picked[i] == scores[top[i] as int]
                &&& #[trigger] weights_given(weigh, picked, scale, weights)
                &&& weights.len() == top.len()
                &&& (#[trigger] sums.len()) == top.len() + 1
                &&& sums[0].len() == width
                &&& forall|d: int| 0 <= d < width ==> (#[trigger] sums[0][d]) == 0
                &&& out == sums[top.len() as int]
                &&& forall|i: int|
                    0 <= i < top.len() ==> result_added(
                        expert,
                        accumulate,
                        #[trigger] top[i],
                        weights[i],
                        x,
                        sums[i],
                        sums[i + 1],
                    )
            },
{
    let r = choose|r: RoutedRun| #[trigger]
        routed_follows(weigh, expert, accumulate, x, scores, k, scale, width, r) && out
            == r.sums.last();
    let picked = scores_of(scores, r.top);
    assert(weights_given(weigh, picked, scale, r.weights));
    assert(r.sums.len() == r.top.len() + 1);
}

/// The weights come from a call with the picked scores and the scale, an expert's
/// result from a call with the expert and the row, and what is added to a sum is that
/// result, by its weight.
pub proof fn law_weights_and_results_come_from_calls<
    W: Fn(&Vec<u32>, Option<u32>) -> Vec<u32>,
    E: Fn(usize, &Vec<u32>) -> Vec<u32>,
    A: Fn(u32, &Vec<u32>, &Vec<u32>) -> Vec<u32>,
>(
    weigh: W,
    expert: E,
    accumulate: A,
    weight: u32,
    acc: Seq<u32>,
    picked: Seq<u32>,
    scale: Option<u32>,
    weights: Seq<u32>,
    e: usize,
    x: Seq<u32>,
    out: Seq<u32>,
)
    ensures
        weights_given(weigh, picked, scale, weights) ==> exists|p: Vec<u32>, w: Vec<u32>|
            #[trigger] call_ensures(weigh, (&p, scale), w) && p@ == picked && w@ == weights,
        expert_given(expert, e, x, out) ==> exists|v: Vec<u32>, o: Vec<u32>|
            #[trigger] call_ensures(expert, (e, &v), o) && v@ == x && o@ == out,
        result_added(expert, accumulate, e, weight, x, acc, out) ==> exists|r: Seq<u32>| #[trigger]
            expert_given(expert, e, x, r) && sum_given(accumulate, weight, r, acc, out),
{
}

} // verus!
