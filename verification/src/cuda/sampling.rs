//! What the device is handed to verify a drafted path, and what it gives back.
use vstd::prelude::*;
use vstd::string::*;
use crate::cuda::attn::LaunchShape;
use crate::cuda::error::CudaInitError;
use crate::text::{decimal, decimal_text};

verus! {

/// What the device says of a drafted path; `-1` stands for nothing.
#[derive(Clone, Debug, PartialEq)]
pub struct GpuAcceptedSpan {
    /// For every position the drafted token, where it was accepted.
    pub accepted: Vec<i32>,
    /// The token drawn in place of the first one that was rejected.
    pub corrected: i32,
    /// The token drawn after a path that was accepted whole.
    pub bonus: i32,
}

/// What is handed to the device; the probabilities are bit patterns.
#[derive(Clone, Debug)]
pub struct VerifyPlan {
    /// The rows of the target's probabilities, one behind the other.
    pub p_target: Vec<u32>,
    pub path_len: i32,
    pub vocab: i32,
    pub launch: LaunchShape,
}

/// Word `i` of row `r` in rows that stand one behind the other.
pub open spec fn flat_cell(flat: Seq<u32>, width: nat, r: int, i: int) -> u32 {
    flat[r * width + i]
}

/// Whether `flat` holds the first `n` rows, each `width` wide, one behind the
/// other.
pub open spec fn holds_rows(flat: Seq<u32>, rows: Seq<Vec<u32>>, width: nat, n: nat) -> bool {
    &&& flat.len() == n * width
    &&& forall|r: int, i: int|
        0 <= r < n && 0 <= i < width ==> #[trigger] flat_cell(flat, width, r, i) == rows[r]@[i]
}

/// The first row that is not as wide as the vocabulary, from `from` on.
pub open spec fn bad_row(rows: Seq<Vec<u32>>, vocab: nat, from: nat) -> Option<nat>
    decreases rows.len() - from,
{
    if from >= rows.len() {
        None
    } else if rows[from as int]@.len() != vocab {
        Some(from)
    } else {
        bad_row(rows, vocab, from + 1)
    }
}

/// What is wrong with a path, as the text of the refusal.
pub open spec fn path_fault(
    rows: Seq<Vec<u32>>,
    drafts: nat,
    pdraft: nat,
    vocab: nat,
) -> Option<Seq<char>> {
    if rows.len() == 0 || drafts != rows.len() || pdraft != rows.len() {
        Some(
            "verify_tree_gpu shape mismatch: path_len="@ + decimal(rows.len()) + " drafts="@
                + decimal(drafts) + " pdraft="@ + decimal(pdraft),
        )
    } else {
        match bad_row(rows, vocab, 0) {
            Some(i) => Some(
                "verify_tree_gpu row "@ + decimal(i) + ": got vocab="@ + decimal(
                    rows[i as int]@.len(),
                ) + ", expected "@ + decimal(vocab),
            ),
            None => None,
        }
    }
}

/// Checks a drafted path and lays out what the device is handed: one position
/// for every row, draft and draft probability, and one vocabulary for all rows.
pub fn verify_tree_plan(rows: &[Vec<u32>], drafts: &[i32], pdraft: &[u32], vocab: usize) -> (r:
    Result<VerifyPlan, CudaInitError>)
    ensures
        match path_fault(rows@, drafts@.len(), pdraft@.len(), vocab as nat) {
            Some(text) => r matches Err(CudaInitError::DriverMissing(t)) && t@ == text,
            None => r matches Ok(p) && holds_rows(p.p_target@, rows@, vocab as nat, rows@.len())
                && p.path_len == rows@.len() as i32 && p.vocab == vocab as i32 && p.launch == (
            LaunchShape {
                grid_dim: (1u32, 1u32, 1u32),
                block_dim: (1u32, 1u32, 1u32),
                shared_mem_bytes: 0,
            }),
        },
{
    let path_len: usize = rows.len();
    if path_len == 0 || drafts.len() != path_len || pdraft.len() != path_len {
        let mut t: String = String::from_str("verify_tree_gpu shape mismatch: path_len=");
        t.append(decimal_text(path_len as u64).as_str());
        t.append(" drafts=");
        t.append(decimal_text(drafts.len() as u64).as_str());
        t.append(" pdraft=");
        t.append(decimal_text(pdraft.len() as u64).as_str());
        return Err(CudaInitError::DriverMissing(t));
    }
    let mut i: usize = 0;
    while i < path_len
        invariant
            i <= path_len,
            path_len == rows@.len(),
            path_len > 0,
            drafts@.len() == path_len,
            pdraft@.len() == path_len,
            bad_row(rows@, vocab as nat, i as nat) == bad_row(rows@, vocab as nat, 0),
            forall|k: int| 0 <= k < i ==> (#[trigger] rows@[k])@.len() == vocab,
        decreases path_len - i,
    {
        if rows[i].len() != vocab {
            let mut t: String = String::from_str("verify_tree_gpu row ");
            t.append(decimal_text(i as u64).as_str());
            t.append(": got vocab=");
            t.append(decimal_text(rows[i].len() as u64).as_str());
            t.append(", expected ");
            t.append(decimal_text(vocab as u64).as_str());
            return Err(CudaInitError::DriverMissing(t));
        }
        i = i + 1;
    }
    let p_target: Vec<u32> = flatten_rows(rows, vocab);
    Ok(
        VerifyPlan {
            p_target,
            path_len: path_len as i32,
            vocab: vocab as i32,
            launch: LaunchShape {
                grid_dim: (1, 1, 1),
                block_dim: (1, 1, 1),
                shared_mem_bytes: 0,
            },
        },
    )
}

/// Rows of one width, one behind the other.
pub fn flatten_rows(rows: &[Vec<u32>], width: usize) -> (flat: Vec<u32>)
    requires
        forall|k: int| 0 <= k < rows@.len() ==> (#[trigger] rows@[k])@.len() == width,
    ensures
        holds_rows(flat@, rows@, width as nat, rows@.len()),
{
    let mut flat: Vec<u32> = Vec::new();
    let mut k: usize = 0;
    while k < rows.len()
        invariant
            k <= rows@.len(),
            forall|j: int| 0 <= j < rows@.len() ==> (#[trigger] rows@[j])@.len() == width,
            holds_rows(flat@, rows@, width as nat, k as nat),
        decreases rows@.len() - k,
    {
        let ghost before = flat@;
        let row: &Vec<u32> = &rows[k];
        let mut i: usize = 0;
        while i < width
            invariant
                i <= width,
                row@.len() == width,
                flat@ == before + row@.take(i as int),
            decreases width - i,
        {
            flat.push(row[i]);
            i = i + 1;
            assert(row@.take(i as int) =~= row@.take(i - 1).push(row@[i - 1]));
            assert(flat@ =~= before + row@.take(i as int));
        }
        proof {
            let w = width as nat;
            assert(row@.take(i as int) =~= row@);
            assert((k + 1) * w == k * w + w) by (nonlinear_arith);
            assert forall|r: int, c: int| 0 <= r < k + 1 && 0 <= c < w implies #[trigger] flat_cell(
                flat@,
                w,
                r,
                c,
            ) == rows@[r]@[c] by {
                if r < k {
                    assert(flat_cell(before, w, r, c) == rows@[r]@[c]);
                    assert(0 <= r * w + c < k * w) by (nonlinear_arith)
                        requires
                            0 <= r < k,
                            0 <= c < w,
                    ;
                } else {
                    assert(flat@[k * w + c] == row@[c]);
                }
            }
        }
        k = k + 1;
    }
    flat
}

/// The row that is reported is the first one of another length than the vocabulary.
pub proof fn law_first_bad_row(rows: Seq<Vec<u32>>, vocab: nat, from: nat)
    ensures
        match bad_row(rows, vocab, from) {
            Some(i) => from <= i < rows.len() && rows[i as int]@.len() != vocab && forall|j: int|
                from <= j < i ==> (#[trigger] rows[j])@.len() == vocab,
            None => forall|j: int| from <= j < rows.len() ==> (#[trigger] rows[j])@.len() == vocab,
        },
    decreases rows.len() - from,
{
    if from < rows.len() && rows[from as int]@.len() == vocab {
        law_first_bad_row(rows, vocab, from + 1);
    }
}

/// A path is taken where it has rows, one draft and one draft probability for every
/// row, and every row a score for every word of the vocabulary; and nowhere else.
pub proof fn law_path_is_taken(rows: Seq<Vec<u32>>, drafts: nat, pdraft: nat, vocab: nat)
    ensures
        path_fault(rows, drafts, pdraft, vocab) is None <==> {
            &&& rows.len() > 0 && drafts == rows.len() && pdraft == rows.len()
            &&& forall|j: int| 0 <= j < rows.len() ==> (#[trigger] rows[j])@.len() == vocab
        },
{
    law_first_bad_row(rows, vocab, 0);
}

/// Rows one behind the other: word `i` of row `r` stands at `r` times the width plus
/// `i`, and there are no other words.
pub proof fn law_rows_in_place(
    flat: Seq<u32>,
    rows: Seq<Vec<u32>>,
    width: nat,
    n: nat,
    r: int,
    i: int,
)
    requires
        holds_rows(flat, rows, width, n),
        0 <= r < n,
        0 <= i < width,
    ensures
        flat.len() == n * width,
        flat[r * width + i] == rows[r]@[i],
{
    assert(flat_cell(flat, width, r, i) == rows[r]@[i]);
}

} // verus!
