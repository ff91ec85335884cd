//! A layer's key/value cache: rows appended up to a fixed capacity.
use vstd::prelude::*;
use crate::tensor::{matrix_fits, Matrix};

verus! {

/// Rows of one width in a buffer of fixed capacity. Its view is the rows that
/// were appended since the cache was made or cleared.
pub struct DsV4LayerKvCache {
    buf: Matrix,
    current_len: usize,
}

impl View for DsV4LayerKvCache {
    type V = Seq<Seq<u32>>;

    closed spec fn view(&self) -> Seq<Seq<u32>> {
        self.buf@.take(self.current_len as int)
    }
}

impl DsV4LayerKvCache {
    /// How many rows the buffer can hold.
    pub closed spec fn capacity(&self) -> nat {
        self.buf@.len()
    }

    /// How long a row is.
    pub closed spec fn row_len(&self) -> nat {
        self.buf.width()
    }

    /// The rows lie inside the buffer, and the buffer has a shape that an array
    /// can have.
    pub closed spec fn wf(&self) -> bool {
        &&& self.buf.wf()
        &&& self.current_len <= self.buf@.len()
        &&& matrix_fits(self.buf@.len(), self.buf.width())
    }

    /// An empty cache.
    pub fn with_capacity(max_seq_len: usize, head_dim: usize) -> (c: Self)
        requires
            max_seq_len > 0,
            head_dim > 0,
            matrix_fits(max_seq_len as nat, head_dim as nat),
        ensures
            c.wf(),
            c@ == Seq::<Seq<u32>>::empty(),
            c.capacity() == max_seq_len,
            c.row_len() == head_dim,
    {
        let c = DsV4LayerKvCache { buf: Matrix::zeros(max_seq_len, head_dim), current_len: 0 };
        assert(c@ =~= Seq::<Seq<u32>>::empty());
        c
    }

    /// How many rows the cache can hold.
    pub fn max_seq_len(&self) -> (n: usize)
        ensures
            n == self.capacity(),
    {
        self.buf.nrows()
    }

    /// How long a row is.
    pub fn head_dim(&self) -> (n: usize)
        ensures
            n == self.row_len(),
    {
        self.buf.ncols()
    }

    /// How many rows the cache holds.
    pub fn current_len(&self) -> (n: usize)
        requires
            self.wf(),
        ensures
            n == self@.len(),
    {
        self.current_len
    }

    /// A copy of the rows that the cache holds.
    pub fn view_current(&self) -> (m: Matrix)
        requires
            self.wf(),
        ensures
            m.wf(),
            m@ == self@,
            m.width() == self.row_len(),
    {
        let n: usize = self.current_len;
        let d: usize = self.buf.ncols();
        proof {
            lemma_fewer_rows_fit(n as nat, self.buf@.len(), d as nat);
        }
        let mut m: Matrix = Matrix::zeros(n, d);
        let mut r: usize = 0;
        while r < n
            invariant
                r <= n,
                n == self.current_len,
                self.wf(),
                m.wf(),
                m@.len() == n,
                m.width() == d,
                d == self.buf.width(),
                forall|i: int| 0 <= i < r ==> m@[i] == self.buf@[i],
            decreases n - r,
        {
            let row: Vec<u32> = self.buf.row(r);
            m.put_row(r, row.as_slice());
            r += 1;
        }
        assert(m@ =~= self@);
        m
    }

    /// Appends rows behind those that the cache holds.
    pub fn append(&mut self, new_rows: &Matrix)
        requires
            old(self).wf(),
            new_rows.width() == old(self).row_len(),
            old(self)@.len() + new_rows@.len() <= old(self).capacity(),
        ensures
            final(self).wf(),
            final(self)@ == old(self)@ + new_rows@,
            final(self).capacity() == old(self).capacity(),
            final(self).row_len() == old(self).row_len(),
    {
        let n: usize = new_rows.nrows();
        let start: usize = self.current_len;
        let ghost before = self@;
        let ghost cap = self.buf@.len();
        let mut r: usize = 0;
        while r < n
            invariant
                r <= n,
                n == new_rows@.len(),
                new_rows.wf(),
                new_rows.width() == self.buf.width(),
                self.buf.wf(),
                self.buf@.len() == cap,
                self.buf.width() == old(self).buf.width(),
                self.current_len == start,
                start + n <= cap,
                before.len() == start,
                forall|i: int| 0 <= i < start ==> self.buf@[i] == before[i],
                forall|i: int| start <= i < start + r ==> self.buf@[i] == new_rows@[i - start],
            decreases n - r,
        {
            let row: Vec<u32> = new_rows.row(r);
            self.buf.put_row(start + r, row.as_slice());
            r += 1;
        }
        self.current_len = start + n;
        assert(self@ =~= before + new_rows@);
    }

    /// Forgets every row.
    pub fn clear(&mut self)
        requires
            old(self).wf(),
        ensures
            final(self).wf(),
            final(self)@ == Seq::<Seq<u32>>::empty(),
            final(self).capacity() == old(self).capacity(),
            final(self).row_len() == old(self).row_len(),
    {
        self.current_len = 0;
        assert(self@ =~= Seq::<Seq<u32>>::empty());
    }
}

/// A matrix with fewer rows fits where one with more does.
pub proof fn lemma_fewer_rows_fit(few: nat, many: nat, cols: nat)
    requires
        few <= many,
        matrix_fits(many, cols),
    ensures
        matrix_fits(few, cols),
{
    let a = crate::tensor::axis(few);
    let b = crate::tensor::axis(many);
    let c = crate::tensor::axis(cols);
    assert(a * c <= b * c) by (nonlinear_arith)
        requires
            a <= b,
            c >= 0,
    ;
    assert(few * cols * 4 <= many * cols * 4) by (nonlinear_arith)
        requires
            few <= many,
            cols >= 0,
    ;
}

} // verus!
