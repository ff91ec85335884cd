//! Row-major products from a column-major GEMM.
//!
//! The device's GEMM reads and writes its buffers column by column; the buffers
//! here are laid out row by row. A row-major matrix is its own transpose read
//! column by column, so the product of row-major `A` and `B` comes out of a GEMM
//! that takes `B` first and `A` second and whose output, read row by row, is the
//! product itself.
use vstd::prelude::*;
use vstd::string::*;
use crate::cuda::error::CudaInitError;
use crate::text::{decimal, decimal_text};

verus! {

/// How one column-major GEMM is called.
#[derive(Clone, Copy, Debug, PartialEq, Eq, Structural)]
pub struct GemmShape {
    /// Whether the first operand is transposed.
    pub transa: bool,
    /// Whether the second operand is transposed.
    pub transb: bool,
    pub m: i32,
    pub n: i32,
    pub k: i32,
    pub lda: i32,
    pub ldb: i32,
    pub ldc: i32,
}

impl GemmShape {
    /// Where row `i`, column `p` of the first operand stands in its buffer.
    pub open spec fn first_at(self, i: int, p: int) -> int {
        if self.transa {
            p + i * self.lda
        } else {
            i + p * self.lda
        }
    }

    /// Where row `p`, column `j` of the second operand stands in its buffer.
    pub open spec fn second_at(self, p: int, j: int) -> int {
        if self.transb {
            j + p * self.ldb
        } else {
            p + j * self.ldb
        }
    }

    /// Where row `i`, column `j` of the output stands in its buffer.
    pub open spec fn output_at(self, i: int, j: int) -> int {
        i + j * self.ldc
    }

    /// Row `i`, column `j` of the output over the first `terms` of the inner
    /// positions, on buffers of integers.
    pub open spec fn entry(
        self,
        first: Seq<int>,
        second: Seq<int>,
        i: int,
        j: int,
        terms: nat,
    ) -> int
        decreases terms,
    {
        if terms == 0 {
            0
        } else {
            self.entry(first, second, i, j, (terms - 1) as nat) + first[self.first_at(
                i,
                terms - 1,
            )] * second[self.second_at(terms - 1, j)]
        }
    }
}

/// Row `r`, column `c` of the product of row-major `a`, `k` wide, and row-major
/// `b`, `n` wide, over the first `terms` inner positions.
pub open spec fn product_entry(
    a: Seq<int>,
    b: Seq<int>,
    n: int,
    k: int,
    r: int,
    c: int,
    terms: nat,
) -> int
    decreases terms,
{
    if terms == 0 {
        0
    } else {
        product_entry(a, b, n, k, r, c, (terms - 1) as nat) + a[r * k + (terms - 1)] * b[(terms - 1)
            * n + c]
    }
}

/// Row `r`, column `c` of the product of row-major `a` and the transpose of
/// row-major `b`, both `k` wide, over the first `terms` inner positions.
pub open spec fn product_entry_transb(
    a: Seq<int>,
    b: Seq<int>,
    k: int,
    r: int,
    c: int,
    terms: nat,
) -> int
    decreases terms,
{
    if terms == 0 {
        0
    } else {
        product_entry_transb(a, b, k, r, c, (terms - 1) as nat) + a[r * k + (terms - 1)] * b[c * k
            + (terms - 1)]
    }
}

/// The call for row-major `C = A * B`, with `A` `m` by `k` and `B` `k` by `n`.
/// `B` is the first operand and `A` the second.
pub open spec fn row_major_shape(m: usize, n: usize, k: usize) -> GemmShape {
    GemmShape {
        transa: false,
        transb: false,
        m: n as i32,
        n: m as i32,
        k: k as i32,
        lda: n as i32,
        ldb: k as i32,
        ldc: n as i32,
    }
}

/// The call for row-major `C = A * B^T`, with `A` `m` by `k` and `B` `n` by `k`.
/// `B` is the first operand and `A` the second.
pub open spec fn row_major_transb_shape(m: usize, n: usize, k: usize) -> GemmShape {
    GemmShape {
        transa: true,
        transb: false,
        m: n as i32,
        n: m as i32,
        k: k as i32,
        lda: k as i32,
        ldb: k as i32,
        ldc: n as i32,
    }
}

/// The call for row-major `C = A * B`. A size over the largest `i32` is cut to
/// its low 32 bits.
pub fn matmul_shape(m: usize, n: usize, k: usize) -> (g: GemmShape)
    ensures
        g == row_major_shape(m, n, k),
{
    GemmShape {
        transa: false,
        transb: false,
        m: n as i32,
        n: m as i32,
        k: k as i32,
        lda: n as i32,
        ldb: k as i32,
        ldc: n as i32,
    }
}

/// The call for row-major `C = A * B^T`. A size over the largest `i32` is cut to
/// its low 32 bits.
pub fn matmul_transb_shape(m: usize, n: usize, k: usize) -> (g: GemmShape)
    ensures
        g == row_major_transb_shape(m, n, k),
{
    GemmShape {
        transa: true,
        transb: false,
        m: n as i32,
        n: m as i32,
        k: k as i32,
        lda: k as i32,
        ldb: k as i32,
        ldc: n as i32,
    }
}

/// The call for `y = W * x`, with `W` row-major `n` by `k`: the product of the
/// one row `x` and the transpose of `W`.
pub fn gemv_shape(n: usize, k: usize) -> (g: GemmShape)
    ensures
        g == row_major_transb_shape(1, n, k),
{
    matmul_transb_shape(1, n, k)
}

/// The text of the refusal of an output buffer that is too short.
pub open spec fn short_output_text(len: nat, need: nat) -> Seq<char> {
    "matmul_transb_device_inout_f16_into: c.len="@ + decimal(len) + " < m*n="@ + decimal(need)
}

/// Whether an output buffer of a length holds an `m` by `n` product.
pub fn check_output_len(c_len: usize, m: usize, n: usize) -> (r: Result<(), CudaInitError>)
    requires
        m * n <= usize::MAX,
    ensures
        if c_len < m * n {
            r matches Err(CudaInitError::DriverMissing(t)) && t@ == short_output_text(
                c_len as nat,
                (m * n) as nat,
            )
        } else {
            r is Ok
        },
{
    let need: usize = m * n;
    if c_len < need {
        let mut t: String = String::from_str("matmul_transb_device_inout_f16_into: c.len=");
        t.append(decimal_text(c_len as u64).as_str());
        t.append(" < m*n=");
        t.append(decimal_text(need as u64).as_str());
        return Err(CudaInitError::DriverMissing(t));
    }
    Ok(())
}

/// The GEMM that is called for `A * B` computes each entry of the row-major
/// product, and puts it where a row-major reader looks for it.
pub proof fn law_gemm_is_the_row_major_product(
    a: Seq<int>,
    b: Seq<int>,
    m: usize,
    n: usize,
    k: usize,
    r: int,
    c: int,
)
    requires
        m <= i32::MAX,
        n <= i32::MAX,
        k <= i32::MAX,
        0 <= r < m,
        0 <= c < n,
    ensures
        row_major_shape(m, n, k).entry(b, a, c, r, k as nat) == product_entry(
            a,
            b,
            n as int,
            k as int,
            r,
            c,
            k as nat,
        ),
        row_major_shape(m, n, k).output_at(c, r) == r * n + c,
        0 <= r * n + c < m * n,
{
    lemma_row_major(a, b, m, n, k, r, c, k as nat);
    lemma_cell_in_range(m as int, n as int, r, c);
}

/// The GEMM that is called for `A * B^T` computes each entry of the row-major
/// product, and puts it where a row-major reader looks for it.
pub proof fn law_gemm_is_the_row_major_transb_product(
    a: Seq<int>,
    b: Seq<int>,
    m: usize,
    n: usize,
    k: usize,
    r: int,
    c: int,
)
    requires
        m <= i32::MAX,
        n <= i32::MAX,
        k <= i32::MAX,
        0 <= r < m,
        0 <= c < n,
    ensures
        row_major_transb_shape(m, n, k).entry(b, a, c, r, k as nat) == product_entry_transb(
            a,
            b,
            k as int,
            r,
            c,
            k as nat,
        ),
        row_major_transb_shape(m, n, k).output_at(c, r) == r * n + c,
        0 <= r * n + c < m * n,
{
    lemma_row_major_transb(a, b, m, n, k, r, c, k as nat);
    lemma_cell_in_range(m as int, n as int, r, c);
}

/// A GEMM of these shapes reads only positions inside its operands' buffers.
pub proof fn law_gemm_reads_inside_its_buffers(
    m: usize,
    n: usize,
    k: usize,
    i: int,
    j: int,
    p: int,
)
    requires
        m <= i32::MAX,
        n <= i32::MAX,
        k <= i32::MAX,
        0 <= i < n,
        0 <= j < m,
        0 <= p < k,
    ensures
        0 <= row_major_shape(m, n, k).first_at(i, p) < k * n,
        0 <= row_major_shape(m, n, k).second_at(p, j) < m * k,
        0 <= row_major_transb_shape(m, n, k).first_at(i, p) < n * k,
        0 <= row_major_transb_shape(m, n, k).second_at(p, j) < m * k,
{
    lemma_cell_in_range(k as int, n as int, p, i);
    lemma_cell_in_range(m as int, k as int, j, p);
    lemma_cell_in_range(n as int, k as int, i, p);
}

proof fn lemma_cell_in_range(rows: int, cols: int, r: int, c: int)
    requires
        0 <= r < rows,
        0 <= c < cols,
    ensures
        0 <= r * cols + c < rows * cols,
{
    assert(0 <= r * cols + c < rows * cols) by (nonlinear_arith)
        requires
            0 <= r < rows,
            0 <= c < cols,
    ;
}

proof fn lemma_row_major(
    a: Seq<int>,
    b: Seq<int>,
    m: usize,
    n: usize,
    k: usize,
    r: int,
    c: int,
    terms: nat,
)
    requires
        n <= i32::MAX,
        k <= i32::MAX,
    ensures
        row_major_shape(m, n, k).entry(b, a, c, r, terms) == product_entry(
            a,
            b,
            n as int,
            k as int,
            r,
            c,
            terms,
        ),
    decreases terms,
{
    if terms > 0 {
        lemma_row_major(a, b, m, n, k, r, c, (terms - 1) as nat);
        vstd::arithmetic::mul::lemma_mul_is_commutative(
            a[r * k + (terms - 1)],
            b[(terms - 1) * n + c],
        );
    }
}

proof fn lemma_row_major_transb(
    a: Seq<int>,
    b: Seq<int>,
    m: usize,
    n: usize,
    k: usize,
    r: int,
    c: int,
    terms: nat,
)
    requires
        n <= i32::MAX,
        k <= i32::MAX,
    ensures
        row_major_transb_shape(m, n, k).entry(b, a, c, r, terms) == product_entry_transb(
            a,
            b,
            k as int,
            r,
            c,
            terms,
        ),
    decreases terms,
{
    if terms > 0 {
        lemma_row_major_transb(a, b, m, n, k, r, c, (terms - 1) as nat);
        vstd::arithmetic::mul::lemma_mul_is_commutative(
            a[r * k + (terms - 1)],
            b[c * k + (terms - 1)],
        );
    }
}

} // verus!
