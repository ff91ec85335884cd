//! Cutting a list of candidates to a nucleus, and drawing one of them.
//!
//! Probabilities and their running sums are bit patterns; the running sums are
//! formed outside, in order, and handed in.
use vstd::prelude::*;
use crate::fbits::{at_least, below, is_nan, less, rank, reaches, ONE};

verus! {

/// A candidate: its token, its score and its probability.
#[derive(Clone, Copy, Debug, PartialEq, Eq, Structural)]
pub struct TopKEntry {
    pub token_id: u32,
    pub logit: u32,
    pub probability: u32,
}

/// How many candidates the nucleus keeps: up to and with the first whose
/// running sum reaches `p`, or all.
pub open spec fn nucleus_len(cumulative: Seq<u32>, p: u32) -> nat
    decreases cumulative.len(),
{
    if cumulative.len() == 0 {
        0
    } else if reaches(cumulative[0], p) {
        1
    } else {
        1 + nucleus_len(cumulative.skip(1), p)
    }
}

/// `p` is above zero and at most one.
pub open spec fn is_share(p: u32) -> bool {
    !is_nan(p) && 0 < rank(p) <= rank(ONE)
}

/// The nucleus of the candidates: the shortest prefix whose running sum reaches
/// `p`, and at least one candidate.
pub fn dsv4_topp_filter(entries: &[TopKEntry], cumulative: &[u32], p: u32) -> (out: Vec<TopKEntry>)
    requires
        is_share(p),
        entries@.len() > 0,
        cumulative@.len() == entries@.len(),
    ensures
        out@ == entries@.take(nucleus_len(cumulative@, p) as int),
        1 <= out@.len() <= entries@.len(),
        out@ == entries@.take(out@.len() as int),
        out@.len() < entries@.len() ==> reaches(cumulative@[out@.len() - 1], p),
        forall|i: int| 0 <= i < out@.len() - 1 ==> !reaches(#[trigger] cumulative@[i], p),
{
    let mut out: Vec<TopKEntry> = Vec::new();
    let mut i: usize = 0;
    assert(cumulative@.skip(0) =~= cumulative@);
    proof {
        law_nucleus_bounds(cumulative@, p);
        law_nucleus_is_the_shortest_that_reaches(cumulative@, p);
    }
    while i < entries.len()
        invariant_except_break
            nucleus_len(cumulative@, p) == i + nucleus_len(cumulative@.skip(i as int), p),
        invariant
            i <= entries@.len(),
            cumulative@.len() == entries@.len(),
            out@ == entries@.take(i as int),
        ensures
            i == nucleus_len(cumulative@, p),
        decreases entries@.len() - i,
    {
        out.push(entries[i]);
        assert(out@ =~= entries@.take(i + 1));
        assert(cumulative@.skip(i as int).skip(1) =~= cumulative@.skip(i + 1));
        if at_least(cumulative[i], p) {
            i += 1;
            break;
        }
        i += 1;
    }
    out
}

/// Which candidate a draw picks: the first whose running sum is above the draw,
/// and the last where there is none.
pub open spec fn drawn_index(cumulative: Seq<u32>, draw: u32) -> int
    decreases cumulative.len(),
{
    if cumulative.len() <= 1 || below(draw, cumulative[0]) {
        0
    } else {
        1 + drawn_index(cumulative.skip(1), draw)
    }
}

/// The token that a draw picks.
pub fn dsv4_sample_token(entries: &[TopKEntry], cumulative: &[u32], draw: u32) -> (token: u32)
    requires
        entries@.len() > 0,
        cumulative@.len() == entries@.len(),
    ensures
        0 <= drawn_index(cumulative@, draw) < entries@.len(),
        token == entries@[drawn_index(cumulative@, draw)].token_id,
        below(draw, cumulative@[drawn_index(cumulative@, draw)]) || drawn_index(cumulative@, draw)
            == entries@.len() - 1,
        forall|j: int|
            0 <= j < drawn_index(cumulative@, draw) ==> !below(draw, #[trigger] cumulative@[j]),
{
    proof {
        lemma_drawn_in_range(cumulative@, draw);
        law_drawn_sum_is_above_the_draw(cumulative@, draw);
    }
    let mut i: usize = 0;
    let n: usize = entries.len();
    assert(cumulative@.skip(0) =~= cumulative@);
    while i + 1 < n
        invariant
            i < n,
            n == entries@.len(),
            n == cumulative@.len(),
            drawn_index(cumulative@, draw) == i + drawn_index(cumulative@.skip(i as int), draw),
        decreases n - i,
    {
        assert(cumulative@.skip(i as int).skip(1) =~= cumulative@.skip(i + 1));
        if less(draw, cumulative[i]) {
            proof {
                law_drawn_sum_is_above_the_draw(cumulative@, draw);
            }
            return entries[i].token_id;
        }
        i += 1;
    }
    entries[i].token_id
}

proof fn lemma_drawn_in_range(cumulative: Seq<u32>, draw: u32)
    requires
        cumulative.len() > 0,
    ensures
        0 <= drawn_index(cumulative, draw) < cumulative.len(),
    decreases cumulative.len(),
{
    if cumulative.len() > 1 {
        lemma_drawn_in_range(cumulative.skip(1), draw);
    }
}

/// The nucleus keeps at least one candidate and never more than there are.
pub proof fn law_nucleus_bounds(cumulative: Seq<u32>, p: u32)
    ensures
        nucleus_len(cumulative, p) <= cumulative.len(),
        cumulative.len() > 0 ==> nucleus_len(cumulative, p) >= 1,
    decreases cumulative.len(),
{
    if cumulative.len() > 0 {
        law_nucleus_bounds(cumulative.skip(1), p);
    }
}

/// The nucleus is the shortest: no shorter prefix's running sum reaches `p`.
pub proof fn law_nucleus_is_shortest(cumulative: Seq<u32>, p: u32, i: int)
    requires
        0 <= i < nucleus_len(cumulative, p) - 1,
    ensures
        i < cumulative.len(),
        !reaches(cumulative[i], p),
    decreases cumulative.len(),
{
    law_nucleus_bounds(cumulative, p);
    if i > 0 {
        law_nucleus_is_shortest(cumulative.skip(1), p, i - 1);
    }
}

/// Where the nucleus leaves candidates out, its running sum reaches `p`.
pub proof fn law_nucleus_reaches(cumulative: Seq<u32>, p: u32)
    requires
        nucleus_len(cumulative, p) < cumulative.len(),
    ensures
        reaches(cumulative[nucleus_len(cumulative, p) - 1], p),
    decreases cumulative.len(),
{
    law_nucleus_bounds(cumulative, p);
    if !reaches(cumulative[0], p) {
        law_nucleus_bounds(cumulative.skip(1), p);
        law_nucleus_reaches(cumulative.skip(1), p);
    }
}

/// Every candidate before the one that is drawn has a running sum that is not
/// above the draw.
pub proof fn law_draw_takes_the_first(cumulative: Seq<u32>, draw: u32, i: int)
    requires
        0 <= i < drawn_index(cumulative, draw),
    ensures
        i < cumulative.len(),
        !below(draw, cumulative[i]),
    decreases cumulative.len(),
{
    if i > 0 {
        law_draw_takes_the_first(cumulative.skip(1), draw, i - 1);
    }
}

/// The running sum of the candidate that is drawn is above the draw, unless it is
/// the last candidate and no running sum before it is; no candidate before it has a
/// running sum above the draw, so no other candidate is drawn.
pub proof fn law_drawn_sum_is_above_the_draw(cumulative: Seq<u32>, draw: u32)
    requires
        cumulative.len() > 0,
    ensures
        0 <= drawn_index(cumulative, draw) < cumulative.len(),
        below(draw, cumulative[drawn_index(cumulative, draw)]) || drawn_index(cumulative, draw)
            == cumulative.len() - 1,
        forall|j: int|
            0 <= j < drawn_index(cumulative, draw) ==> !below(draw, #[trigger] cumulative[j]),
        forall|i: int|
            0 <= i < cumulative.len() && below(draw, #[trigger] cumulative[i]) ==> drawn_index(
                cumulative,
                draw,
            ) <= i,
    decreases cumulative.len(),
{
    if cumulative.len() > 1 && !below(draw, cumulative[0]) {
        let rest = cumulative.skip(1);
        law_drawn_sum_is_above_the_draw(rest, draw);
        assert forall|j: int| 0 <= j < drawn_index(cumulative, draw) implies !below(
            draw,
            #[trigger] cumulative[j],
        ) by {
            if j > 0 {
                assert(rest[j - 1] == cumulative[j]);
            }
        }
        assert forall|i: int|
            0 <= i < cumulative.len() && below(draw, #[trigger] cumulative[i]) implies drawn_index(
            cumulative,
            draw,
        ) <= i by {
            if i > 0 {
                assert(rest[i - 1] == cumulative[i]);
            }
        }
    }
}

/// A higher draw picks no earlier candidate.
pub proof fn law_higher_draw_picks_no_earlier(cumulative: Seq<u32>, low: u32, high: u32)
    requires
        cumulative.len() > 0,
        below(low, high),
    ensures
        drawn_index(cumulative, low) <= drawn_index(cumulative, high),
{
    law_drawn_sum_is_above_the_draw(cumulative, low);
    law_drawn_sum_is_above_the_draw(cumulative, high);
    let h = drawn_index(cumulative, high);
    if below(high, cumulative[h]) {
        assert(below(low, cumulative[h]));
    }
}

/// The nucleus ends at the first candidate whose running sum reaches `p`, and holds
/// every candidate where none does.
pub proof fn law_nucleus_is_the_shortest_that_reaches(cumulative: Seq<u32>, p: u32)
    requires
        cumulative.len() > 0,
    ensures
        1 <= nucleus_len(cumulative, p) <= cumulative.len(),
        nucleus_len(cumulative, p) < cumulative.len() ==> reaches(
            cumulative[nucleus_len(cumulative, p) - 1],
            p,
        ),
        forall|i: int|
            0 <= i < nucleus_len(cumulative, p) - 1 ==> !reaches(#[trigger] cumulative[i], p),
{
    law_nucleus_bounds(cumulative, p);
    if nucleus_len(cumulative, p) < cumulative.len() {
        law_nucleus_reaches(cumulative, p);
    }
    assert forall|i: int| 0 <= i < nucleus_len(cumulative, p) - 1 implies !reaches(
        #[trigger] cumulative[i],
        p,
    ) by {
        law_nucleus_is_shortest(cumulative, p, i);
    }
}

/// A share is a pattern above zero and up to that of one.
pub proof fn law_share_bits(p: u32)
    ensures
        is_share(p) == (0 < p <= 0x3F80_0000),
{
}

} // verus!
