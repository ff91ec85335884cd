//! Picking the experts with the highest scores.
use vstd::prelude::*;
use crate::fbits::{below, is_nan, nan, rank, rank_of, INFINITY};

verus! {

/// Where a score stands among the others: a number as numbers compare, and
/// behind all of them what is no number.
pub open spec fn standing(b: u32) -> int {
    if is_nan(b) {
        -(INFINITY as int) - 1
    } else {
        rank(b)
    }
}

/// Where a score stands among the others.
fn standing_of(b: u32) -> (r: i64)
    ensures
        r == standing(b),
{
    if nan(b) {
        -(INFINITY as i64) - 1
    } else {
        rank_of(b)
    }
}

/// Expert `a` comes before expert `b`: its score is higher, or the scores are
/// equal and its index is lower.
pub open spec fn precedes(scores: Seq<u32>, a: int, b: int) -> bool {
    standing(scores[a]) > standing(scores[b]) || (standing(scores[a]) == standing(scores[b]) && a
        < b)
}

/// The list names the `k` first experts (all of them where there are fewer), in
/// order.
pub open spec fn is_top(scores: Seq<u32>, k: nat, top: Seq<usize>) -> bool {
    &&& top.len() == if k < scores.len() {
        k
    } else {
        scores.len()
    }
    &&& forall|i: int| 0 <= i < top.len() ==> (#[trigger] top[i]) < scores.len()
    &&& forall|i: int, j: int|
        0 <= i < j < top.len() ==> precedes(scores, #[trigger] top[i] as int, #[trigger] top[j] as int)
    &&& forall|i: int, e: int|
        0 <= i < top.len() && 0 <= e < scores.len() && !top.contains(e as usize) ==> #[trigger] precedes(
            scores,
            top[i] as int,
            e,
        )
}

/// The first expert that the list does not hold; `None` where it holds all.
fn best_left(scores: &[u32], taken: &Vec<bool>) -> (r: Option<usize>)
    requires
        taken@.len() == scores@.len(),
    ensures
        match r {
            Some(b) => b < scores@.len() && !taken@[b as int] && (forall|e: int|
                0 <= e < scores@.len() && !(#[trigger] taken@[e]) && e != b ==> precedes(
                    scores@,
                    b as int,
                    e,
                )),
            None => forall|e: int| 0 <= e < scores@.len() ==> #[trigger] taken@[e],
        },
{
    let mut best: Option<usize> = None;
    let mut i: usize = 0;
    while i < scores.len()
        invariant
            i <= scores@.len(),
            taken@.len() == scores@.len(),
            match best {
                Some(b) => b < i && !taken@[b as int] && (forall|e: int|
                    0 <= e < i && !(#[trigger] taken@[e]) && e != b ==> precedes(
                        scores@,
                        b as int,
                        e,
                    )),
                None => forall|e: int| 0 <= e < i ==> #[trigger] taken@[e],
            },
        decreases scores@.len() - i,
    {
        if !taken[i] {
            match best {
                None => {
                    best = Some(i);
                },
                Some(b) => {
                    if standing_of(scores[i]) > standing_of(scores[b]) {
                        best = Some(i);
                    }
                },
            }
        }
        i += 1;
    }
    best
}

/// The `k` experts with the highest scores, highest first; of equal scores the
/// lower index first. A score that is no number comes behind those that are.
pub fn top_k_experts(scores: &[u32], k: usize) -> (top: Vec<usize>)
    ensures
        is_top(scores@, k as nat, top@),
        top@.len() == (if k < scores@.len() {
            k as nat
        } else {
            scores@.len()
        }),
        forall|i: int, j: int|
            0 <= i < j < top@.len() ==> !below(
                scores@[#[trigger] top@[i] as int],
                scores@[#[trigger] top@[j] as int],
            ),
        forall|i: int, e: usize|
            0 <= i < top@.len() && e < scores@.len() && !(#[trigger] top@.contains(e)) ==> !below(
                scores@[#[trigger] top@[i] as int],
                scores@[e as int],
            ),
{
    let n: usize = scores.len();
    let mut taken: Vec<bool> = Vec::new();
    let mut i: usize = 0;
    while i < n
        invariant
            i <= n,
            taken@.len() == i,
            forall|e: int| 0 <= e < i ==> !(#[trigger] taken@[e]),
        decreases n - i,
    {
        taken.push(false);
        i += 1;
    }
    let mut top: Vec<usize> = Vec::new();
    let want: usize = if k < n {
        k
    } else {
        n
    };
    while top.len() < want
        invariant
            n == scores@.len(),
            want <= n,
            taken@.len() == n,
            top@.len() <= want,
            forall|e: int|
                0 <= e < n ==> (#[trigger] taken@[e] <==> top@.contains(e as usize)),
            forall|j: int| 0 <= j < top@.len() ==> (#[trigger] top@[j]) < n,
            forall|a: int, b: int|
                0 <= a < b < top@.len() ==> precedes(
                    scores@,
                    #[trigger] top@[a] as int,
                    #[trigger] top@[b] as int,
                ),
            forall|a: int, e: int|
                0 <= a < top@.len() && 0 <= e < n && !top@.contains(e as usize)
                    ==> #[trigger] precedes(scores@, top@[a] as int, e),
        decreases want - top@.len(),
    {
        let ghost before = top@;
        match best_left(scores, &taken) {
            Some(b) => {
                taken.set(b, true);
                top.push(b);
                proof {
                    assert(top@[before.len() as int] == b);
                    assert(!before.contains(b));
                    assert forall|e: int| 0 <= e < n implies (#[trigger] taken@[e]
                        <==> top@.contains(e as usize)) by {
                        if before.contains(e as usize) {
                            let j = choose|j: int| 0 <= j < before.len() && before[j] == e as usize;
                            assert(top@[j] == e as usize);
                        }
                        if top@.contains(e as usize) && e != b {
                            let j = choose|j: int| 0 <= j < top@.len() && top@[j] == e as usize;
                            assert(j < before.len());
                            assert(before[j] == e as usize);
                        }
                    }
                    assert forall|a: int, c: int| 0 <= a < c < top@.len() implies precedes(
                        scores@,
                        #[trigger] top@[a] as int,
                        #[trigger] top@[c] as int,
                    ) by {
                        if c == before.len() {
                            assert(precedes(scores@, before[a] as int, b as int));
                        }
                    }
                    assert forall|a: int, e: int|
                        0 <= a < top@.len() && 0 <= e < n && !top@.contains(
                            e as usize,
                        ) implies #[trigger] precedes(scores@, top@[a] as int, e) by {
                        assert(!taken@[e]);
                        assert(!before.contains(e as usize));
                        if a < before.len() {
                            assert(precedes(scores@, before[a] as int, e));
                        }
                    }
                }
            },
            None => {
                proof {
                    assert forall|e: int| 0 <= e < n implies top@.contains(#[trigger] (e as usize)) by {
                        assert(taken@[e]);
                    }
                    lemma_all_taken(top@, n as nat);
                }
            },
        }
    }
    proof {
        law_picks_are_the_highest(scores@, k as nat, top@);
    }
    top
}

/// A list without repetition that holds every index below `n` is at least `n`
/// long.
proof fn lemma_all_taken(top: Seq<usize>, n: nat)
    requires
        n <= usize::MAX,
        forall|e: int| 0 <= e < n ==> top.contains(#[trigger] (e as usize)),
    ensures
        top.len() >= n,
    decreases n,
{
    if n > 0 {
        let last = (n - 1) as usize;
        assert(top.contains((n - 1) as usize));
        let j = choose|j: int| 0 <= j < top.len() && top[j] == last;
        let rest = top.remove(j);
        assert forall|e: int| 0 <= e < n - 1 implies rest.contains(#[trigger] (e as usize)) by {
            assert(top.contains(e as usize));
            let i = choose|i: int| 0 <= i < top.len() && top[i] == e as usize;
            if i < j {
                assert(rest[i] == e as usize);
            } else {
                assert(rest[i - 1] == e as usize);
            }
        }
        lemma_all_taken(rest, (n - 1) as nat);
    }
}

/// The order is strict and total: of two experts exactly one comes first.
pub proof fn law_one_comes_first(scores: Seq<u32>, a: int, b: int)
    requires
        a != b,
    ensures
        precedes(scores, a, b) != precedes(scores, b, a),
{
}

/// Numbers come in the order of their values, and what is no number comes behind
/// them all.
pub proof fn law_numbers_come_first(scores: Seq<u32>, a: int, b: int)
    requires
        !is_nan(scores[a]),
    ensures
        is_nan(scores[b]) ==> precedes(scores, a, b),
        !is_nan(scores[b]) && rank(scores[a]) > rank(scores[b]) ==> precedes(scores, a, b),
{
}

/// No expert is picked twice.
pub proof fn law_picks_differ(scores: Seq<u32>, k: nat, top: Seq<usize>, i: int, j: int)
    requires
        is_top(scores, k, top),
        0 <= i < j < top.len(),
    ensures
        top[i] != top[j],
{
    assert(precedes(scores, top[i] as int, top[j] as int));
}

/// The scores decide the picks: two lists that both name the first `k` experts
/// are the same list.
pub proof fn law_picks_are_determined(scores: Seq<u32>, k: nat, a: Seq<usize>, b: Seq<usize>)
    requires
        scores.len() <= usize::MAX,
        is_top(scores, k, a),
        is_top(scores, k, b),
    ensures
        a == b,
{
    lemma_same_prefix(scores, k, a, b, a.len());
    assert(a.take(a.len() as int) =~= a);
    assert(b.take(a.len() as int) =~= b);
}

proof fn lemma_same_prefix(scores: Seq<u32>, k: nat, a: Seq<usize>, b: Seq<usize>, n: nat)
    requires
        scores.len() <= usize::MAX,
        is_top(scores, k, a),
        is_top(scores, k, b),
        n <= a.len(),
    ensures
        a.take(n as int) == b.take(n as int),
    decreases n,
{
    if n > 0 {
        let m = (n - 1) as nat;
        lemma_same_prefix(scores, k, a, b, m);
        let x = a[m as int];
        let y = b[m as int];
        if x != y {
            lemma_not_before(scores, k, a, b, m);
            lemma_not_before(scores, k, b, a, m);
        }
        assert(a.take(n as int) =~= a.take(m as int).push(x));
        assert(b.take(n as int) =~= b.take(m as int).push(y));
    }
}

/// Where two lists agree on their first `m` picks, the next pick of the one does
/// not come before that of the other.
proof fn lemma_not_before(scores: Seq<u32>, k: nat, a: Seq<usize>, b: Seq<usize>, m: nat)
    requires
        scores.len() <= usize::MAX,
        is_top(scores, k, a),
        is_top(scores, k, b),
        m < a.len(),
        a.take(m as int) == b.take(m as int),
        a[m as int] != b[m as int],
    ensures
        !precedes(scores, a[m as int] as int, b[m as int] as int),
{
    let x = a[m as int];
    let y = b[m as int];
    if b.contains(x) {
        let i = choose|i: int| 0 <= i < b.len() && b[i] == x;
        if i < m {
            assert(a.take(m as int)[i] == a[i] && b.take(m as int)[i] == b[i]);
            assert(a[i] == x);
            assert(precedes(scores, a[i] as int, a[m as int] as int));
        } else {
            assert(precedes(scores, b[m as int] as int, b[i] as int));
        }
    } else {
        assert(precedes(scores, b[m as int] as int, x as int));
    }
}

/// Of two numbers the higher comes first, and of two that are equal the one with
/// the smaller index; a number comes before what is no number.
pub proof fn law_order_of_two(scores: Seq<u32>, a: int, b: int)
    ensures
        !is_nan(scores[a]) && !is_nan(scores[b]) ==> precedes(scores, a, b) == (below(
            scores[b],
            scores[a],
        ) || (!below(scores[a], scores[b]) && a < b)),
        !is_nan(scores[a]) && is_nan(scores[b]) ==> precedes(scores, a, b) && !precedes(
            scores,
            b,
            a,
        ),
        is_nan(scores[a]) && is_nan(scores[b]) ==> precedes(scores, a, b) == (a < b),
{
}

/// The picks are as many as asked for, or all; each is an index of a score, none is
/// picked twice, no pick has a score below that of a later pick or of what is left
/// out, and of equal scores the one with the smaller index is picked, and first.
pub proof fn law_picks_are_the_highest(scores: Seq<u32>, k: nat, top: Seq<usize>)
    requires
        scores.len() <= usize::MAX,
        is_top(scores, k, top),
    ensures
        k <= scores.len() ==> top.len() == k,
        k > scores.len() ==> top.len() == scores.len(),
        forall|i: int| 0 <= i < top.len() ==> (#[trigger] top[i]) < scores.len(),
        forall|i: int, j: int|
            0 <= i < j < top.len() ==> {
                let a = #[trigger] top[i];
                let b = #[trigger] top[j];
                &&& a != b
                &&& !below(scores[a as int], scores[b as int])
                &&& is_nan(scores[a as int]) ==> is_nan(scores[b as int])
                &&& is_nan(scores[a as int]) == is_nan(scores[b as int]) && !below(
                    scores[b as int],
                    scores[a as int],
                ) ==> a < b
            },
        forall|i: int, e: usize|
            0 <= i < top.len() && e < scores.len() && !(#[trigger] top.contains(e)) ==> {
                let a = #[trigger] top[i];
                &&& !below(scores[a as int], scores[e as int])
                &&& is_nan(scores[a as int]) ==> is_nan(scores[e as int])
                &&& is_nan(scores[a as int]) == is_nan(scores[e as int]) && !below(
                    scores[e as int],
                    scores[a as int],
                ) ==> a < e
            },
{
    assert forall|i: int, e: usize|
        0 <= i < top.len() && e < scores.len() && !(#[trigger] top.contains(e)) implies {
        let a = #[trigger] top[i];
        &&& !below(scores[a as int], scores[e as int])
        &&& is_nan(scores[a as int]) ==> is_nan(scores[e as int])
        &&& is_nan(scores[a as int]) == is_nan(scores[e as int]) && !below(
                    scores[e as int],
                    scores[a as int],
                ) ==> a < e
    } by {
        assert(!top.contains(e as int as usize));
        assert(precedes(scores, top[i] as int, e as int));
    }
}

} // verus!
