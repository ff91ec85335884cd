//! Masked attention: the shapes that it takes, when a row of scores has nothing to
//! attend to, and the attention itself, with floating-point kernels that the caller
//! brings.
use vstd::prelude::*;
use crate::fbits::{below, is_nan, less, magnitude, INFINITY, NEG_INFINITY, SIGN};
use crate::tensor::{matrix_fits, Matrix};
use crate::words::{contents, cut_row, row_parts};

verus! {

/// Shapes of the inputs, as `(rows, columns)`.
#[derive(Clone, Copy, Debug)]
pub struct MaskedAttnShapes {
    pub q: (usize, usize),
    pub k: (usize, usize),
    pub v: (usize, usize),
    pub mask: (usize, usize),
    pub sinks: Option<usize>,
}

/// The first thing that is wrong with the inputs.
#[derive(Clone, Copy, Debug, PartialEq, Eq, Structural)]
pub enum MaskedAttnFault {
    QShape,
    KColumns,
    KvShapes,
    MaskShape,
    SinksLength,
}

/// What is wrong with the inputs, if anything is.
pub open spec fn masked_attn_fault(s: MaskedAttnShapes, n_head: usize, head_dim: usize) -> Option<
    MaskedAttnFault,
> {
    if s.q.1 != n_head * head_dim {
        Some(MaskedAttnFault::QShape)
    } else if s.k.1 != head_dim {
        Some(MaskedAttnFault::KColumns)
    } else if s.k != s.v {
        Some(MaskedAttnFault::KvShapes)
    } else if s.mask.0 != s.q.0 || s.mask.1 != s.k.0 {
        Some(MaskedAttnFault::MaskShape)
    } else if s.sinks matches Some(n) && n != n_head {
        Some(MaskedAttnFault::SinksLength)
    } else {
        None
    }
}

/// Checks the inputs' shapes.
pub fn check_masked_attn(s: &MaskedAttnShapes, n_head: usize, head_dim: usize) -> (r: Result<
    (),
    MaskedAttnFault,
>)
    requires
        n_head * head_dim <= usize::MAX,
    ensures
        match masked_attn_fault(*s, n_head, head_dim) {
            Some(f) => r == Err::<(), MaskedAttnFault>(f),
            None => r is Ok,
        },
{
    if s.q.1 != n_head * head_dim {
        return Err(MaskedAttnFault::QShape);
    }
    if s.k.1 != head_dim {
        return Err(MaskedAttnFault::KColumns);
    }
    if s.k.0 != s.v.0 || s.k.1 != s.v.1 {
        return Err(MaskedAttnFault::KvShapes);
    }
    if s.mask.0 != s.q.0 || s.mask.1 != s.k.0 {
        return Err(MaskedAttnFault::MaskShape);
    }
    if let Some(n) = s.sinks {
        if n != n_head {
            return Err(MaskedAttnFault::SinksLength);
        }
    }
    Ok(())
}

/// The highest number among the scores, starting from negative infinity; what is
/// no number is passed over.
pub open spec fn peak(scores: Seq<u32>) -> u32
    decreases scores.len(),
{
    if scores.len() == 0 {
        NEG_INFINITY
    } else {
        let m = peak(scores.drop_last());
        if below(m, scores.last()) {
            scores.last()
        } else {
            m
        }
    }
}

/// The value is a number, and not an infinity.
pub open spec fn is_finite(b: u32) -> bool {
    magnitude(b) < INFINITY
}

/// The highest score, where it is finite; `None` means that the row attends to
/// nothing and its output stays zero.
pub fn softmax_peak(scores: &[u32]) -> (r: Option<u32>)
    ensures
        r == (if is_finite(peak(scores@)) {
            Some(peak(scores@))
        } else {
            None
        }),
        r is Some == (!scores@.contains(0x7F80_0000) && exists|i: int|
            0 <= i < scores@.len() && ((#[trigger] scores@[i]) < 0x7F80_0000 || 0x8000_0000
                <= scores@[i] < 0xFF80_0000)),
        r matches Some(m) ==> scores@.contains(m) && (m < 0x7F80_0000 || 0x8000_0000 <= m
            < 0xFF80_0000) && forall|i: int|
            0 <= i < scores@.len() ==> !below(m, #[trigger] scores@[i]),
{
    proof {
        law_scored_row_has_a_peak(scores@);
    }
    let mut m: u32 = NEG_INFINITY;
    let mut i: usize = 0;
    assert(scores@.take(0) =~= Seq::<u32>::empty());
    while i < scores.len()
        invariant
            i <= scores@.len(),
            m == peak(scores@.take(i as int)),
        decreases scores@.len() - i,
    {
        assert(scores@.take(i + 1).drop_last() =~= scores@.take(i as int));
        if less(m, scores[i]) {
            m = scores[i];
        }
        i += 1;
    }
    assert(scores@.take(i as int) =~= scores@);
    let size: u32 = if m >= SIGN {
        m - SIGN
    } else {
        m
    };
    if size < INFINITY {
        Some(m)
    } else {
        None
    }
}

/// The peak is a number, and no score is above it.
pub proof fn law_peak_is_highest(scores: Seq<u32>)
    ensures
        !is_nan(peak(scores)),
        forall|i: int| 0 <= i < scores.len() ==> !below(peak(scores), #[trigger] scores[i]),
        peak(scores) == NEG_INFINITY || scores.contains(peak(scores)),
    decreases scores.len(),
{
    if scores.len() > 0 {
        let head = scores.drop_last();
        law_peak_is_highest(head);
        assert forall|i: int| 0 <= i < scores.len() implies !below(
            peak(scores),
            #[trigger] scores[i],
        ) by {
            if i < head.len() {
                assert(!below(peak(head), head[i]));
            }
        }
        if peak(scores) != NEG_INFINITY {
            if below(peak(head), scores.last()) {
                assert(scores[scores.len() - 1] == peak(scores));
            } else {
                let j = choose|j: int| 0 <= j < head.len() && head[j] == peak(head);
                assert(scores[j] == peak(scores));
            }
        }
    }
}

/// A row whose every score is masked out attends to nothing.
pub proof fn law_masked_out_row_has_no_peak(scores: Seq<u32>)
    requires
        forall|i: int| 0 <= i < scores.len() ==> #[trigger] scores[i] == NEG_INFINITY,
    ensures
        !is_finite(peak(scores)),
    decreases scores.len(),
{
    if scores.len() > 0 {
        assert forall|i: int| 0 <= i < scores.drop_last().len() implies #[trigger] scores.drop_last()[i]
            == NEG_INFINITY by {
            assert(scores[i] == NEG_INFINITY);
        }
        law_masked_out_row_has_no_peak(scores.drop_last());
        assert(scores[scores.len() - 1] == NEG_INFINITY);
    }
}

// ---- attending ---------------------------------------------------------------

/// What the score of a head's query with a key and its mask may be. The score is
/// whatever the caller brings.
pub open spec fn score_given<S: Fn(&Vec<u32>, &Vec<u32>, u32) -> u32>(
    score: S,
    query: Seq<u32>,
    key: Seq<u32>,
    mask: u32,
    out: u32,
) -> bool {
    exists|q: Vec<u32>, k: Vec<u32>|
        #[trigger] call_ensures(score, (&q, &k, mask), out) && q@ == query && k@ == key
}

/// What the values, averaged by the softmax of some scores with a highest one, may
/// be. The average is whatever the caller brings.
pub open spec fn average_given<W: Fn(&Vec<u32>, u32, &Matrix) -> Vec<u32>>(
    average: W,
    scores: Seq<u32>,
    peak: u32,
    values: Matrix,
    out: Seq<u32>,
) -> bool {
    exists|s: Vec<u32>, o: Vec<u32>|
        #[trigger] call_ensures(average, (&s, peak, &values), o) && s@ == scores && o@ == out
}

/// The scores of a head's query: one for every key, with the mask, and behind them
/// the head's sink where there is one.
pub open spec fn scores_are<S: Fn(&Vec<u32>, &Vec<u32>, u32) -> u32>(
    score: S,
    query: Seq<u32>,
    keys: Seq<Seq<u32>>,
    mask: Seq<u32>,
    sink: Option<u32>,
    scores: Seq<u32>,
) -> bool {
    &&& scores.len() == keys.len() + (if sink is Some {
        1int
    } else {
        0
    })
    &&& forall|j: int|
        0 <= j < keys.len() ==> score_given(score, query, keys[j], mask[j], #[trigger] scores[j])
    &&& sink matches Some(s) ==> scores.last() == s
}

/// What a head makes of a query: the values, averaged by the softmax of its scores,
/// or zeros where the highest score is not finite.
pub open spec fn head_attended<
    S: Fn(&Vec<u32>, &Vec<u32>, u32) -> u32,
    W: Fn(&Vec<u32>, u32, &Matrix) -> Vec<u32>,
>(
    score: S,
    average: W,
    query: Seq<u32>,
    keys: Seq<Seq<u32>>,
    values: Matrix,
    mask: Seq<u32>,
    sink: Option<u32>,
    out: Seq<u32>,
) -> bool {
    exists|scores: Seq<u32>|
        {
            &&& #[trigger] scores_are(score, query, keys, mask, sink, scores)
            &&& if is_finite(peak(scores)) {
                average_given(average, scores, peak(scores), values, out)
            } else {
                out == Seq::new(values.width(), |d: int| 0u32)
            }
        }
}

/// A head's sink, where there are sinks.
pub open spec fn sink_of(sinks: Option<Seq<u32>>, h: int) -> Option<u32> {
    match sinks {
        Some(s) => Some(s[h]),
        None => None,
    }
}

/// What all heads make of a token's query.
pub open spec fn token_attended<
    S: Fn(&Vec<u32>, &Vec<u32>, u32) -> u32,
    W: Fn(&Vec<u32>, u32, &Matrix) -> Vec<u32>,
>(
    score: S,
    average: W,
    query: Seq<u32>,
    keys: Seq<Seq<u32>>,
    values: Matrix,
    mask: Seq<u32>,
    sinks: Option<Seq<u32>>,
    n_head: nat,
    head_dim: nat,
    out: Seq<u32>,
) -> bool {
    &&& out.len() == n_head * head_dim
    &&& forall|h: int|
        0 <= h < n_head ==> head_attended(
            score,
            average,
            row_parts(query, n_head, head_dim)[h],
            keys,
            values,
            mask,
            sink_of(sinks, h),
            #[trigger] row_parts(out, n_head, head_dim)[h],
        )
}

/// The shapes of the inputs.
pub open spec fn shapes_of(
    q: Matrix,
    k: Matrix,
    v: Matrix,
    mask: Matrix,
    sinks: Option<Seq<u32>>,
) -> MaskedAttnShapes {
    MaskedAttnShapes {
        q: (q@.len() as usize, q.width() as usize),
        k: (k@.len() as usize, k.width() as usize),
        v: (v@.len() as usize, v.width() as usize),
        mask: (mask@.len() as usize, mask.width() as usize),
        sinks: match sinks {
            Some(s) => Some(s.len() as usize),
            None => None,
        },
    }
}

/// The words of some sinks.
pub open spec fn sink_words(sinks: Option<&Vec<u32>>) -> Option<Seq<u32>> {
    match sinks {
        Some(s) => Some(s@),
        None => None,
    }
}

/// One head of one token.
fn attend_head<
    S: Fn(&Vec<u32>, &Vec<u32>, u32) -> u32,
    W: Fn(&Vec<u32>, u32, &Matrix) -> Vec<u32>,
>(
    query: &Vec<u32>,
    k: &Matrix,
    v: &Matrix,
    mask: &Vec<u32>,
    sink: Option<u32>,
    score: &S,
    average: &W,
) -> (out: Vec<u32>)
    requires
        mask@.len() == k@.len(),
        forall|a: &Vec<u32>, b: &Vec<u32>, m: u32| call_requires(*score, (a, b, m)),
        forall|s: &Vec<u32>, p: u32, m: &Matrix| call_requires(*average, (s, p, m)),
        forall|s: &Vec<u32>, p: u32, m: &Matrix, o: Vec<u32>| #[trigger]
            call_ensures(*average, (s, p, m), o) ==> o@.len() == m.width(),
    ensures
        out@.len() == v.width(),
        head_attended(*score, *average, query@, k@, *v, mask@, sink, out@),
{
    let n: usize = k.nrows();
    let mut scores: Vec<u32> = Vec::new();
    let mut j: usize = 0;
    while j < n
        invariant
            j <= n,
            n == k@.len(),
            mask@.len() == k@.len(),
            scores@.len() == j,
            forall|a: &Vec<u32>, b: &Vec<u32>, m: u32| call_requires(*score, (a, b, m)),
            forall|i: int|
                0 <= i < j ==> score_given(
                    *score,
                    query@,
                    k@[i],
                    mask@[i],
                    #[trigger] scores@[i],
                ),
        decreases n - j,
    {
        let key: Vec<u32> = k.row(j);
        let s: u32 = score(query, &key, mask[j]);
        assert(call_ensures(*score, (query, &key, mask@[j as int]), s));
        assert(score_given(*score, query@, k@[j as int], mask@[j as int], s));
        scores.push(s);
        j += 1;
    }
    if let Some(s) = sink {
        scores.push(s);
    }
    assert(scores_are(*score, query@, k@, mask@, sink, scores@));
    match softmax_peak(scores.as_slice()) {
        Some(peak) => {
            let out: Vec<u32> = average(&scores, peak, v);
            assert(call_ensures(*average, (&scores, peak, v), out));
            out
        },
        None => {
            let width: usize = v.ncols();
            let mut out: Vec<u32> = Vec::new();
            let mut d: usize = 0;
            while d < width
                invariant
                    d <= width,
                    out@ == Seq::new(d as nat, |i: int| 0u32),
                decreases width - d,
            {
                out.push(0);
                d += 1;
                assert(out@ =~= Seq::new(d as nat, |i: int| 0u32));
            }
            out
        },
    }
}

proof fn lemma_part_stays(a: Seq<u32>, b: Seq<u32>, n: nat, width: nat, h: int)
    requires
        a.len() == n * width,
        0 <= h < n,
    ensures
        row_parts(a + b, n + 1, width)[h] == row_parts(a, n, width)[h],
{
    assert(0 <= h * width <= (h + 1) * width <= n * width) by (nonlinear_arith)
        requires
            0 <= h < n,
            0 <= width,
    ;
    assert(row_parts(a + b, n + 1, width)[h] =~= row_parts(a, n, width)[h]);
}

proof fn lemma_last_part(a: Seq<u32>, b: Seq<u32>, n: nat, width: nat)
    requires
        a.len() == n * width,
        b.len() == width,
    ensures
        (a + b).len() == (n + 1) * width,
        row_parts(a + b, n + 1, width)[n as int] == b,
{
    assert((n + 1) * width == n * width + width) by (nonlinear_arith);
    assert(row_parts(a + b, n + 1, width)[n as int] =~= b);
}

/// All heads of one token.
fn attend_token<
    S: Fn(&Vec<u32>, &Vec<u32>, u32) -> u32,
    W: Fn(&Vec<u32>, u32, &Matrix) -> Vec<u32>,
>(
    query: &Vec<u32>,
    k: &Matrix,
    v: &Matrix,
    mask: &Vec<u32>,
    sinks: Option<&Vec<u32>>,
    n_head: usize,
    head_dim: usize,
    score: &S,
    average: &W,
) -> (out: Vec<u32>)
    requires
        query@.len() == n_head * head_dim,
        mask@.len() == k@.len(),
        v.width() == head_dim,
        sinks matches Some(s) ==> s@.len() == n_head,
        forall|a: &Vec<u32>, b: &Vec<u32>, m: u32| call_requires(*score, (a, b, m)),
        forall|s: &Vec<u32>, p: u32, m: &Matrix| call_requires(*average, (s, p, m)),
        forall|s: &Vec<u32>, p: u32, m: &Matrix, o: Vec<u32>| #[trigger]
            call_ensures(*average, (s, p, m), o) ==> o@.len() == m.width(),
    ensures
        token_attended(
            *score,
            *average,
            query@,
            k@,
            *v,
            mask@,
            sink_words(sinks),
            n_head as nat,
            head_dim as nat,
            out@,
        ),
{
    let ghost parts = row_parts(query@, n_head as nat, head_dim as nat);
    let queries: Vec<Vec<u32>> = cut_row(query, n_head, head_dim);
    let mut out: Vec<u32> = Vec::new();
    let mut h: usize = 0;
    while h < n_head
        invariant
            h <= n_head,
            contents(queries@) == parts,
            parts.len() == n_head,
            mask@.len() == k@.len(),
            v.width() == head_dim,
            sinks matches Some(s) ==> s@.len() == n_head,
            forall|a: &Vec<u32>, b: &Vec<u32>, m: u32| call_requires(*score, (a, b, m)),
            forall|s: &Vec<u32>, p: u32, m: &Matrix| call_requires(*average, (s, p, m)),
            forall|s: &Vec<u32>, p: u32, m: &Matrix, o: Vec<u32>| #[trigger]
                call_ensures(*average, (s, p, m), o) ==> o@.len() == m.width(),
            out@.len() == h * head_dim,
            forall|i: int|
                0 <= i < h ==> head_attended(
                    *score,
                    *average,
                    parts[i],
                    k@,
                    *v,
                    mask@,
                    sink_of(sink_words(sinks), i),
                    #[trigger] row_parts(out@, h as nat, head_dim as nat)[i],
                ),
        decreases n_head - h,
    {
        assert(contents(queries@).len() == queries@.len());
        assert(contents(queries@)[h as int] == queries@[h as int]@);
        let sink: Option<u32> = match sinks {
            Some(s) => Some(s[h]),
            None => None,
        };
        let mut part: Vec<u32> = attend_head(&queries[h], k, v, mask, sink, score, average);
        let ghost before = out@;
        let ghost new = part@;
        out.append(&mut part);
        proof {
            let hd = head_dim as nat;
            assert(out@ =~= before + new);
            lemma_last_part(before, new, h as nat, hd);
            assert forall|i: int| 0 <= i < h + 1 implies head_attended(
                *score,
                *average,
                parts[i],
                k@,
                *v,
                mask@,
                sink_of(sink_words(sinks), i),
                #[trigger] row_parts(out@, (h + 1) as nat, hd)[i],
            ) by {
                if i < h {
                    lemma_part_stays(before, new, h as nat, hd, i);
                    let was = row_parts(before, h as nat, hd)[i];
                }
            }
        }
        h += 1;
    }
    out
}

/// Masked attention of some tokens: of every head of every token what its scores
/// make of the values, or what is wrong with the inputs. The floating-point kernels
/// are the caller's: the score of a query with a key and its mask, and the average
/// of the values by the softmax of the scores.
pub fn dsv4_masked_attn<
    S: Fn(&Vec<u32>, &Vec<u32>, u32) -> u32,
    W: Fn(&Vec<u32>, u32, &Matrix) -> Vec<u32>,
>(
    q: &Matrix,
    k: &Matrix,
    v: &Matrix,
    mask: &Matrix,
    n_head: usize,
    head_dim: usize,
    sinks: Option<&Vec<u32>>,
    score: &S,
    average: &W,
) -> (r: Result<Matrix, MaskedAttnFault>)
    requires
        n_head * head_dim <= usize::MAX,
        masked_attn_fault(
            shapes_of(*q, *k, *v, *mask, sink_words(sinks)),
            n_head,
            head_dim,
        ) is None ==> matrix_fits(q@.len(), (n_head * head_dim) as nat),
        forall|a: &Vec<u32>, b: &Vec<u32>, m: u32| call_requires(*score, (a, b, m)),
        forall|s: &Vec<u32>, p: u32, m: &Matrix| call_requires(*average, (s, p, m)),
        forall|s: &Vec<u32>, p: u32, m: &Matrix, o: Vec<u32>| #[trigger]
            call_ensures(*average, (s, p, m), o) ==> o@.len() == m.width(),
    ensures
        match masked_attn_fault(
            shapes_of(*q, *k, *v, *mask, sink_words(sinks)),
            n_head,
            head_dim,
        ) {
            Some(f) => r matches Err(e) && e == f,
            None => r matches Ok(out) && out.wf() && out@.len() == q@.len() && out.width() == n_head
                * head_dim && (forall|t: int|
                0 <= t < q@.len() ==> token_attended(
                    *score,
                    *average,
                    q@[t],
                    k@,
                    *v,
                    mask@[t],
                    sink_words(sinks),
                    n_head as nat,
                    head_dim as nat,
                    #[trigger] out@[t],
                )),
        },
{
    let n_tokens: usize = q.nrows();
    let shapes: MaskedAttnShapes = MaskedAttnShapes {
        q: (n_tokens, q.ncols()),
        k: (k.nrows(), k.ncols()),
        v: (v.nrows(), v.ncols()),
        mask: (mask.nrows(), mask.ncols()),
        sinks: match sinks {
            Some(s) => Some(s.len()),
            None => None,
        },
    };
    if let Err(e) = check_masked_attn(&shapes, n_head, head_dim) {
        return Err(e);
    }
    let mut out: Matrix = Matrix::zeros(n_tokens, n_head * head_dim);
    let mut t: usize = 0;
    while t < n_tokens
        invariant
            t <= n_tokens,
            n_tokens == q@.len(),
            q.wf(),
            mask.wf(),
            q.width() == n_head * head_dim,
            mask@.len() == n_tokens,
            mask.width() == k@.len(),
            v.width() == head_dim,
            sinks matches Some(s) ==> s@.len() == n_head,
            forall|a: &Vec<u32>, b: &Vec<u32>, m: u32| call_requires(*score, (a, b, m)),
            forall|s: &Vec<u32>, p: u32, m: &Matrix| call_requires(*average, (s, p, m)),
            forall|s: &Vec<u32>, p: u32, m: &Matrix, o: Vec<u32>| #[trigger]
                call_ensures(*average, (s, p, m), o) ==> o@.len() == m.width(),
            out.wf(),
            out@.len() == n_tokens,
            out.width() == n_head * head_dim,
            forall|i: int|
                0 <= i < t ==> token_attended(
                    *score,
                    *average,
                    q@[i],
                    k@,
                    *v,
                    mask@[i],
                    sink_words(sinks),
                    n_head as nat,
                    head_dim as nat,
                    #[trigger] out@[i],
                ),
        decreases n_tokens - t,
    {
        let query: Vec<u32> = q.row(t);
        let mask_row: Vec<u32> = mask.row(t);
        let row: Vec<u32> = attend_token(
            &query,
            k,
            v,
            &mask_row,
            sinks,
            n_head,
            head_dim,
            score,
            average,
        );
        out.put_row(t, row.as_slice());
        t += 1;
    }
    Ok(out)
}

/// A head whose every score is masked out, and that has no sink, gives zeros.
pub proof fn law_masked_out_head_gives_zeros<
    S: Fn(&Vec<u32>, &Vec<u32>, u32) -> u32,
    W: Fn(&Vec<u32>, u32, &Matrix) -> Vec<u32>,
>(
    score: S,
    average: W,
    query: Seq<u32>,
    keys: Seq<Seq<u32>>,
    values: Matrix,
    mask: Seq<u32>,
    out: Seq<u32>,
)
    requires
        head_attended(score, average, query, keys, values, mask, None, out),
        forall|j: int, o: u32|
            0 <= j < keys.len() && #[trigger] score_given(score, query, keys[j], mask[j], o) ==> o
                == NEG_INFINITY,
    ensures
        out == Seq::new(values.width(), |d: int| 0u32),
{
    let scores = choose|scores: Seq<u32>|
        {
            &&& #[trigger] scores_are(score, query, keys, mask, None, scores)
            &&& if is_finite(peak(scores)) {
                average_given(average, scores, peak(scores), values, out)
            } else {
                out == Seq::new(values.width(), |d: int| 0u32)
            }
        };
    assert forall|i: int| 0 <= i < scores.len() implies #[trigger] scores[i] == NEG_INFINITY by {
        assert(score_given(score, query, keys[i], mask[i], scores[i]));
    }
    law_masked_out_row_has_no_peak(scores);
}

/// A row of scores has a highest one where some score is a number other than the
/// two infinities and none is positive infinity, and nowhere else: it is one of the
/// scores, it is no infinity, and no score is above it.
pub proof fn law_scored_row_has_a_peak(scores: Seq<u32>)
    ensures
        is_finite(peak(scores)) == (!scores.contains(0x7F80_0000) && exists|i: int|
            0 <= i < scores.len() && ((#[trigger] scores[i]) < 0x7F80_0000 || 0x8000_0000
                <= scores[i] < 0xFF80_0000)),
        is_finite(peak(scores)) ==> scores.contains(peak(scores)) && (peak(scores) < 0x7F80_0000
            || 0x8000_0000 <= peak(scores) < 0xFF80_0000),
        forall|i: int| 0 <= i < scores.len() ==> !below(peak(scores), #[trigger] scores[i]),
{
    law_peak_is_highest(scores);
    let m = peak(scores);
    if is_finite(m) {
        let i = choose|i: int| 0 <= i < scores.len() && scores[i] == m;
        assert(scores[i] == m);
        if scores.contains(0x7F80_0000) {
            let j = choose|j: int| 0 <= j < scores.len() && scores[j] == 0x7F80_0000u32;
            assert(!below(m, scores[j]));
        }
    } else if !scores.contains(0x7F80_0000) {
        assert forall|i: int| 0 <= i < scores.len() implies !((#[trigger] scores[i]) < 0x7F80_0000
            || 0x8000_0000 <= scores[i] < 0xFF80_0000) by {
            assert(!below(m, scores[i]));
        }
    }
}

/// A head one of whose scores is a number other than the two infinities, and none
/// positive infinity, averages the values by its scores and the highest of them: it
/// does not give zeros.
pub proof fn law_scored_head_averages<
    S: Fn(&Vec<u32>, &Vec<u32>, u32) -> u32,
    W: Fn(&Vec<u32>, u32, &Matrix) -> Vec<u32>,
>(
    score: S,
    average: W,
    query: Seq<u32>,
    keys: Seq<Seq<u32>>,
    values: Matrix,
    mask: Seq<u32>,
    sink: Option<u32>,
    out: Seq<u32>,
)
    requires
        head_attended(score, average, query, keys, values, mask, sink, out),
    ensures
        exists|scores: Seq<u32>|
            {
                let scored = !scores.contains(0x7F80_0000) && exists|i: int|
                    0 <= i < scores.len() && ((#[trigger] scores[i]) < 0x7F80_0000 || 0x8000_0000
                        <= scores[i] < 0xFF80_0000);
                &&& (#[trigger] scores.len()) == keys.len() + if sink is Some {
                    1int
                } else {
                    0int
                }
                &&& forall|j: int|
                    0 <= j < keys.len() ==> score_given(
                        score,
                        query,
                        keys[j],
                        mask[j],
                        #[trigger] scores[j],
                    )
                &&& sink matches Some(s) ==> scores[keys.len() as int] == s
                &&& scored ==> exists|m: u32|
                    scores.contains(m) && (forall|i: int|
                        0 <= i < scores.len() ==> !below(m, #[trigger] scores[i]))
                        && #[trigger] average_given(average, scores, m, values, out)
                &&& !scored ==> out.len() == values.width() && forall|d: int|
                    0 <= d < values.width() ==> (#[trigger] out[d]) == 0
            },
{
    let scores = choose|scores: Seq<u32>|
        {
            &&& #[trigger] scores_are(score, query, keys, mask, sink, scores)
            &&& if is_finite(peak(scores)) {
                average_given(average, scores, peak(scores), values, out)
            } else {
                out == Seq::new(values.width(), |d: int| 0u32)
            }
        };
    law_scored_row_has_a_peak(scores);
    assert(scores.len() >= 0);
}

/// When the inputs of masked attention pass: queries of all heads, keys and values of
/// one head and as many of each, a mask for every query and key, and a sink for every
/// head where there are sinks. What is reported is the first of these that fails.
pub proof fn law_masked_inputs_pass(s: MaskedAttnShapes, n_head: usize, head_dim: usize)
    ensures
        masked_attn_fault(s, n_head, head_dim) is None <==> {
            &&& s.q.1 == n_head * head_dim
            &&& s.k.1 == head_dim && s.v.1 == head_dim && s.v.0 == s.k.0
            &&& s.mask.0 == s.q.0 && s.mask.1 == s.k.0
            &&& s.sinks is None || s.sinks == Some(n_head)
        },
        masked_attn_fault(s, n_head, head_dim) == Some(MaskedAttnFault::QShape) <==> s.q.1 != n_head
            * head_dim,
        masked_attn_fault(s, n_head, head_dim) == Some(MaskedAttnFault::KColumns) <==> s.q.1
            == n_head * head_dim && s.k.1 != head_dim,
        masked_attn_fault(s, n_head, head_dim) == Some(MaskedAttnFault::KvShapes) <==> s.q.1
            == n_head * head_dim && s.k.1 == head_dim && (s.v.0 != s.k.0 || s.v.1 != s.k.1),
        masked_attn_fault(s, n_head, head_dim) == Some(MaskedAttnFault::SinksLength) ==> s.mask.0
            == s.q.0 && s.mask.1 == s.k.0,
{
}

/// Head `h` of a token's output is what attention makes of head `h` of its query, with
/// the token's mask and the sink of the same head where there are sinks: words
/// `h * head_dim` to `(h + 1) * head_dim` of both rows.
pub proof fn law_every_head_attends_for_itself<
    S: Fn(&Vec<u32>, &Vec<u32>, u32) -> u32,
    W: Fn(&Vec<u32>, u32, &Matrix) -> Vec<u32>,
>(
    score: S,
    average: W,
    query: Seq<u32>,
    keys: Seq<Seq<u32>>,
    values: Matrix,
    mask: Seq<u32>,
    sinks: Option<Seq<u32>>,
    n_head: nat,
    head_dim: nat,
    out: Seq<u32>,
    h: int,
)
    requires
        token_attended(
            score,
            average,
            query,
            keys,
            values,
            mask,
            sinks,
            n_head,
            head_dim,
            out,
        ),
        0 <= h < n_head,
    ensures
        out.len() == n_head * head_dim,
        sinks is None ==> head_attended(
            score,
            average,
            query.subrange(h * head_dim, (h + 1) * head_dim),
            keys,
            values,
            mask,
            None,
            out.subrange(h * head_dim, (h + 1) * head_dim),
        ),
        sinks matches Some(s) ==> head_attended(
            score,
            average,
            query.subrange(h * head_dim, (h + 1) * head_dim),
            keys,
            values,
            mask,
            Some(s[h]),
            out.subrange(h * head_dim, (h + 1) * head_dim),
        ),
{
    let part = row_parts(out, n_head, head_dim)[h];
}

/// A score is what a call with the query, the key and its mask gives, and an average
/// what a call with the scores, the highest of them and the values gives.
pub proof fn law_scores_and_averages_come_from_calls<
    S: Fn(&Vec<u32>, &Vec<u32>, u32) -> u32,
    W: Fn(&Vec<u32>, u32, &Matrix) -> Vec<u32>,
>(
    score: S,
    average: W,
    query: Seq<u32>,
    key: Seq<u32>,
    mask: u32,
    out: u32,
    scores: Seq<u32>,
    peak: u32,
    values: Matrix,
    row: Seq<u32>,
)
    ensures
        score_given(score, query, key, mask, out) ==> exists|q: Vec<u32>, k: Vec<u32>|
            #[trigger] call_ensures(score, (&q, &k, mask), out) && q@ == query && k@ == key,
        average_given(average, scores, peak, values, row) ==> exists|s: Vec<u32>, o: Vec<u32>|
            #[trigger] call_ensures(average, (&s, peak, &values), o) && s@ == scores && o@ == row,
{
}

} // verus!
