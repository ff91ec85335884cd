//! The host backend: which kernel a quantised product goes to, and how rows of
//! the four-bit format with half-precision scales are read.
use vstd::prelude::*;
use crate::backend::capability::Capability;
use crate::text::copy_text;
use crate::words::{le_value, lemma_le_bytes_of_value, lemma_pow256_values, value_le};

verus! {

/// Values in a super-block.
pub const BLOCK_ELEMS: usize = 256;

/// Bytes of a super-block: eight scales, eight minima and four bits for every
/// value.
pub const Q4_KF_BLOCK_BYTES: usize = 160;

/// The host backend.
#[derive(Clone, Copy, Debug)]
pub struct CpuBackend;

/// Where a quantised product goes.
#[derive(Clone, Copy, Debug, PartialEq, Eq, Structural)]
pub enum MatvecKernel {
    /// The input is quantised to eight bits once, and the rows are integer
    /// products.
    Q8k,
    /// The scalar kernel on the input as it is.
    Scalar,
}

/// Where a quantised product of some rows with an input goes: eight-bit inputs
/// take whole super-blocks.
pub open spec fn matvec_kernel_of(x_len: usize, num_rows: usize, hidden: usize) -> MatvecKernel {
    if hidden % BLOCK_ELEMS == 0 && x_len == hidden && num_rows > 0 {
        MatvecKernel::Q8k
    } else {
        MatvecKernel::Scalar
    }
}

/// One product of a row: a weight's four bits, its scale and minimum as
/// half-precision words, and the place of the input it goes with. The term adds
/// `(scale * quant - min) * x` to the row's sum.
#[derive(Clone, Copy, Debug, PartialEq, Eq, Structural)]
pub struct Q4kfTerm {
    pub scale: u16,
    pub min: u16,
    pub quant: u8,
    pub x: usize,
}

/// The sub-block of the term at place `t` of a super-block: low and high halves
/// of a byte belong to neighbouring sub-blocks.
pub open spec fn term_sub(t: int) -> int {
    2 * (t / 64) + t % 2
}

/// The lane of the term at place `t` of a super-block.
pub open spec fn term_lane(t: int) -> int {
    (t % 64) / 2
}

/// The place in the input of the term at place `t` of a row.
#[verifier::opaque]
pub open spec fn term_input(t: int) -> int {
    (t / 256) * 256 + term_sub(t % 256) * 32 + term_lane(t % 256)
}

/// The half-precision word at a byte of a row.
pub open spec fn half_at(row: Seq<u8>, at: int) -> u16 {
    le_value(row.subrange(at, at + 2)) as u16
}

/// The four bits of the term at place `t` of a super-block, out of the byte that
/// it shares.
pub open spec fn nibble(byte: u8, t: int) -> u8 {
    if t % 2 == 0 {
        (byte % 16) as u8
    } else {
        (byte / 16) as u8
    }
}

/// The term at place `t` of a row.
pub open spec fn term_of(row: Seq<u8>, t: int) -> Q4kfTerm {
    let block = (t / 256) * 160;
    let at = t % 256;
    Q4kfTerm {
        scale: half_at(row, block + 2 * term_sub(at)),
        min: half_at(row, block + 16 + 2 * term_sub(at)),
        quant: nibble(row[block + 32 + (at / 64) * 32 + term_lane(at)], at),
        x: term_input(t) as usize,
    }
}

/// The terms of a row of some width, in the order in which they are added up.
pub open spec fn terms_of(row: Seq<u8>, hidden: nat) -> Seq<Q4kfTerm> {
    Seq::new(hidden, |t: int| term_of(row, t))
}

/// Bytes of a row of some width.
pub open spec fn q4kf_row_bytes(hidden: nat) -> nat {
    (hidden / 256) * 160
}

/// Bytes of one row of the weights.
pub open spec fn row_of(data: Seq<u8>, row: int, hidden: nat) -> Seq<u8> {
    data.subrange(row * q4kf_row_bytes(hidden), (row + 1) * q4kf_row_bytes(hidden))
}

/// Whether a product's input and weights are of the right length.
pub open spec fn q4kf_fits(data_len: nat, x_len: nat, num_rows: nat, hidden: nat) -> bool {
    &&& x_len == hidden
    &&& hidden % 256 == 0
    &&& data_len >= num_rows * q4kf_row_bytes(hidden)
}

impl CpuBackend {
    /// The backend's name.
    pub fn name(&self) -> (t: String)
        ensures
            t@ == "cpu (BLAS + C Q4 kernel)"@,
    {
        copy_text("cpu (BLAS + C Q4 kernel)")
    }

    /// What the backend says of its device.
    pub fn device_info(&self, macos: bool) -> (t: String)
        ensures
            t@ == (if macos {
                "macOS Accelerate AMX"@
            } else {
                "CPU BLAS"@
            }),
    {
        if macos {
            copy_text("macOS Accelerate AMX")
        } else {
            copy_text("CPU BLAS")
        }
    }

    /// What the backend accelerates.
    pub fn supports(&self, cap: Capability) -> (r: bool)
        ensures
            r == (cap == Capability::QuantMatVec || cap == Capability::Q4VecMat),
    {
        match cap {
            Capability::QuantMatVec | Capability::Q4VecMat => true,
            _ => false,
        }
    }

    /// Four-bit products are there.
    pub fn has_q4(&self) -> (r: bool)
        ensures
            r,
    {
        true
    }

    /// Where a four-bit product goes.
    pub fn q4k_matvec_kernel(&self, x_len: usize, num_rows: usize, hidden: usize) -> (k:
        MatvecKernel)
        ensures
            k == matvec_kernel_of(x_len, num_rows, hidden),
    {
        if hidden % BLOCK_ELEMS == 0 && x_len == hidden && num_rows > 0 {
            MatvecKernel::Q8k
        } else {
            MatvecKernel::Scalar
        }
    }

    /// Where a six-bit product goes.
    pub fn q6k_matvec_kernel(&self, x_len: usize, num_rows: usize, hidden: usize) -> (k:
        MatvecKernel)
        ensures
            k == matvec_kernel_of(x_len, num_rows, hidden),
    {
        self.q4k_matvec_kernel(x_len, num_rows, hidden)
    }

    /// The terms of every row of a product, or nothing where the input or the
    /// weights are not of the right length. Rows whose bytes overflow the address
    /// space cannot all be there.
    pub fn q4kf_matvec_terms(
        &self,
        data: &[u8],
        x_len: usize,
        num_rows: usize,
        hidden: usize,
    ) -> (r: Option<Vec<Vec<Q4kfTerm>>>)
        ensures
            (r is Some) == q4kf_fits(data@.len(), x_len as nat, num_rows as nat, hidden as nat),
            r matches Some(rows) ==> rows@.len() == num_rows && forall|i: int|
                0 <= i < num_rows ==> (#[trigger] rows@[i])@ == terms_of(
                    row_of(data@, i, hidden as nat),
                    hidden as nat,
                ),
    {
        if x_len != hidden || hidden % BLOCK_ELEMS != 0 {
            return None;
        }
        let data_len: usize = data.len();
        let row_bytes: usize = (hidden / BLOCK_ELEMS) * Q4_KF_BLOCK_BYTES;
        let need: usize = match num_rows.checked_mul(row_bytes) {
            Some(n) => n,
            None => return None,
        };
        if data_len < need {
            return None;
        }
        let mut rows: Vec<Vec<Q4kfTerm>> = Vec::new();
        let mut i: usize = 0;
        while i < num_rows
            invariant
                i <= num_rows,
                hidden % BLOCK_ELEMS == 0,
                row_bytes == q4kf_row_bytes(hidden as nat),
                num_rows * row_bytes <= data_len,
                data_len == data@.len(),
                rows@.len() == i,
                forall|k: int|
                    0 <= k < i ==> (#[trigger] rows@[k])@ == terms_of(
                        row_of(data@, k, hidden as nat),
                        hidden as nat,
                    ),
            decreases num_rows - i,
        {
            assert(0 <= i * row_bytes <= (i + 1) * row_bytes <= num_rows * row_bytes)
                by (nonlinear_arith)
                requires
                    0 <= i < num_rows,
                    row_bytes >= 0,
            ;
            assert((i + 1) * row_bytes == i * row_bytes + row_bytes) by (nonlinear_arith);
            let from: usize = i * row_bytes;
            let row: &[u8] = vstd::slice::slice_subrange(data, from, from + row_bytes);
            assert(row@ =~= row_of(data@, i as int, hidden as nat));
            rows.push(q4kf_row_terms(row, hidden));
            i = i + 1;
        }
        Some(rows)
    }
}

/// The half-precision word at a byte of a row.
fn read_half(row: &[u8], at: usize) -> (h: u16)
    requires
        at + 2 <= row@.len(),
        at + 2 <= usize::MAX,
    ensures
        h == half_at(row@, at as int),
{
    let part: &[u8] = vstd::slice::slice_subrange(row, at, at + 2);
    let v: u64 = value_le(part);
    proof {
        lemma_le_bytes_of_value(part@);
        lemma_pow256_values();
    }
    v as u16
}

/// The terms of a row, in the order in which they are added up: super-block by
/// super-block, group by group, and in a group the low and the high half of each
/// byte in turn.
pub fn q4kf_row_terms(row: &[u8], hidden: usize) -> (terms: Vec<Q4kfTerm>)
    requires
        hidden % BLOCK_ELEMS == 0,
        row@.len() == q4kf_row_bytes(hidden as nat),
    ensures
        terms@ == terms_of(row@, hidden as nat),
{
    let mut terms: Vec<Q4kfTerm> = Vec::new();
    let superblocks: usize = hidden / BLOCK_ELEMS;
    let mut t: usize = 0;
    while t < hidden
        invariant
            t <= hidden,
            superblocks == hidden / BLOCK_ELEMS,
            hidden == superblocks * 256,
            row@.len() == superblocks * 160,
            terms@ == terms_of(row@, t as nat),
        decreases hidden - t,
    {
        let sb: usize = t / 256;
        let at: usize = t % 256;
        let group: usize = at / 64;
        let lane: usize = (at % 64) / 2;
        let sub: usize = 2 * group + at % 2;
        assert(sb < superblocks && group < 4 && lane < 32 && sub < 8);
        let block: usize = sb * 160;
        assert(block + 160 <= row@.len());
        let byte: u8 = row[block + 32 + group * 32 + lane];
        let quant: u8 = if at % 2 == 0 {
            byte % 16
        } else {
            byte / 16
        };
        terms.push(
            Q4kfTerm {
                scale: read_half(row, block + 2 * sub),
                min: read_half(row, block + 16 + 2 * sub),
                quant,
                x: sb * 256 + sub * 32 + lane,
            },
        );
        proof {
            reveal(term_input);
        }
        t = t + 1;
        assert(terms@ =~= terms_of(row@, t as nat));
    }
    terms
}

/// The terms of a row go with every input exactly once.
pub proof fn law_every_input_is_used_once(hidden: nat)
    requires
        hidden % 256 == 0,
    ensures
        forall|t: int| 0 <= t < hidden ==> 0 <= #[trigger] term_input(t) < hidden,
        forall|a: int, b: int|
            0 <= a < hidden && 0 <= b < hidden && #[trigger] term_input(a) == #[trigger] term_input(
                b,
            ) ==> a == b,
        forall|x: int|
            0 <= x < hidden ==> 0 <= #[trigger] input_term(x) < hidden && term_input(input_term(x))
                == x,
{
    assert forall|t: int| 0 <= t < hidden implies 0 <= #[trigger] term_input(t) < hidden by {
        lemma_input_of_term(t);
    }
    assert forall|a: int, b: int|
        0 <= a < hidden && 0 <= b < hidden && #[trigger] term_input(a) == #[trigger] term_input(
            b,
        ) implies a == b by {
        lemma_input_of_term(a);
        lemma_input_of_term(b);
    }
    assert forall|x: int| 0 <= x < hidden implies 0 <= #[trigger] input_term(x) < hidden
        && term_input(input_term(x)) == x by {
        lemma_term_of_input(x);
    }
}

/// The place in a row of the term that goes with place `x` of the input.
#[verifier::opaque]
pub open spec fn input_term(x: int) -> int {
    let at = x % 256;
    (x / 256) * 256 + (at / 64) * 64 + (at % 32) * 2 + (at / 32) % 2
}

proof fn lemma_input_of_term(t: int)
    requires
        0 <= t,
    ensures
        t / 256 == term_input(t) / 256,
        0 <= term_input(t),
        input_term(term_input(t)) == t,
{
    reveal(term_input);
    reveal(input_term);
    let at = t % 256;
    let r = term_sub(at) * 32 + term_lane(at);
    assert(0 <= r < 256);
    assert(term_input(t) % 256 == r);
}

proof fn lemma_term_of_input(x: int)
    requires
        0 <= x,
    ensures
        x / 256 == input_term(x) / 256,
        0 <= input_term(x),
        term_input(input_term(x)) == x,
{
    reveal(term_input);
    reveal(input_term);
    let at = x % 256;
    let r = (at / 64) * 64 + (at % 32) * 2 + (at / 32) % 2;
    assert(0 <= r < 256);
    assert(input_term(x) % 256 == r);
}

/// The four bits of a byte's two halves make the byte up again.
pub proof fn law_nibbles_make_the_byte(byte: u8)
    ensures
        nibble(byte, 0) + 16 * nibble(byte, 1) == byte,
        nibble(byte, 0) == byte & 0x0f,
        nibble(byte, 1) == (byte >> 4) & 0x0f,
{
    assert(byte % 16 == byte & 0x0f) by (bit_vector);
    assert(byte / 16 == (byte >> 4) & 0x0f) by (bit_vector);
}

/// Where the parts of input `x`'s term stand in a row: in the block of 160 bytes of
/// its 256 inputs the input's group of 32 has its scale at twice the group's number
/// and its minimum sixteen bytes behind that; two groups share 32 bytes of quants, the
/// even group in the low four bits and the odd one in the high four.
pub proof fn law_term_of_an_input(row: Seq<u8>, hidden: nat, x: int)
    requires
        hidden % 256 == 0,
        0 <= x < hidden,
        row.len() == (hidden / 256) * 160,
        hidden <= usize::MAX,
    ensures
        ({
            let t = terms_of(row, hidden)[input_term(x)];
            let block = (x / 256) * 160;
            let group = (x % 256) / 32;
            let byte = row[block + 32 + (group / 2) * 32 + x % 32];
            &&& terms_of(row, hidden).len() == hidden
            &&& 0 <= input_term(x) < hidden
            &&& t.x == x
            &&& t.scale == row[block + 2 * group] + 256 * row[block + 2 * group + 1]
            &&& t.min == row[block + 16 + 2 * group] + 256 * row[block + 16 + 2 * group + 1]
            &&& group % 2 == 0 ==> t.quant == byte % 16
            &&& group % 2 == 1 ==> t.quant == byte / 16
        }),
{
    law_every_input_is_used_once(hidden);
    let n = input_term(x);
    assert(0 <= input_term(x) < hidden && term_input(input_term(x)) == x);
    let block = (x / 256) * 160;
    let group = (x % 256) / 32;
    let p = x % 256;
    let quarter = p / 64;
    let lane = p % 32;
    let half = (p / 32) % 2;
    let inner = quarter * 64 + lane * 2 + half;
    reveal(input_term);
    assert(0 <= inner < 256);
    assert(n == (x / 256) * 256 + inner);
    let at = n % 256;
    assert(at == inner && n / 256 == x / 256);
    assert(at / 64 == quarter && at % 64 == lane * 2 + half);
    assert(group == 2 * quarter + half);
    assert(term_sub(at) == group);
    assert(term_lane(at) == x % 32);
    assert(at / 64 == group / 2);
    assert(at % 2 == group % 2);
    assert(block + 160 <= row.len());
    let a = row.subrange(block + 2 * group, block + 2 * group + 2);
    let b = row.subrange(block + 16 + 2 * group, block + 16 + 2 * group + 2);
    crate::words::law_worth_of_bytes(a);
    crate::words::law_worth_of_bytes(b);
    assert(a[0] == row[block + 2 * group] && a[1] == row[block + 2 * group + 1]);
    assert(b[0] == row[block + 16 + 2 * group] && b[1] == row[block + 16 + 2 * group + 1]);
}

/// Which kernel a product takes: the one of quantized inputs where there are rows, the
/// input is as wide as they are and the width is a multiple of 256; else the plain
/// one.
pub proof fn law_kernel_of_a_product(x_len: usize, num_rows: usize, hidden: usize)
    ensures
        matvec_kernel_of(x_len, num_rows, hidden) is Q8k <==> num_rows > 0 && x_len == hidden
            && hidden % 256 == 0,
        matvec_kernel_of(x_len, num_rows, hidden) is Scalar <==> !(num_rows > 0 && x_len == hidden
            && hidden % 256 == 0),
{
}

/// What a product of packed rows takes: an input as wide as the rows, of a multiple of
/// 256, and data for all rows, 160 bytes for every 256 values; row `i` then starts
/// behind `i` rows.
pub proof fn law_packed_rows(data: Seq<u8>, x_len: nat, num_rows: nat, hidden: nat, i: int, b: int)
    requires
        0 <= i < num_rows,
        0 <= b < (hidden / 256) * 160,
    ensures
        q4kf_row_bytes(hidden) == (hidden / 256) * 160,
        q4kf_fits(data.len(), x_len, num_rows, hidden) <==> x_len == hidden && hidden % 256 == 0
            && data.len() >= num_rows * ((hidden / 256) * 160),
        q4kf_fits(data.len(), x_len, num_rows, hidden) ==> row_of(data, i, hidden).len() == (hidden
            / 256) * 160 && row_of(data, i, hidden)[b] == data[i * ((hidden / 256) * 160) + b],
{
    let w = (hidden / 256) * 160;
    if data.len() >= num_rows * w {
        assert(0 <= i * w && (i + 1) * w == i * w + w && (i + 1) * w <= num_rows * w)
            by (nonlinear_arith)
            requires
                0 <= i < num_rows,
                w >= 0,
        ;
    }
}

} // verus!
