//! Two- and three-dimensional arrays of 32-bit words.
//!
//! The arrays themselves are `ndarray`'s. What an array holds is named by
//! [`matrix_rows`] and [`cube_planes`], and each function of `ndarray` that the
//! library calls stands behind one function here.
use vstd::prelude::*;

verus! {

/// A matrix of 32-bit words.
#[verifier::external_body]
pub struct Matrix {
    inner: ndarray::Array2<u32>,
}

/// A three-dimensional array of 32-bit words.
#[verifier::external_body]
pub struct Cube {
    inner: ndarray::Array3<u32>,
}

/// The rows of a matrix, first row first.
pub uninterp spec fn matrix_rows(m: Matrix) -> Seq<Seq<u32>>;

/// How long the rows of a matrix are, also where it has none.
pub uninterp spec fn matrix_cols(m: Matrix) -> nat;

/// The planes of a three-dimensional array, each as its rows.
pub uninterp spec fn cube_planes(c: Cube) -> Seq<Seq<Seq<u32>>>;

/// How many rows a plane has and how long they are, also where there is no
/// plane.
pub uninterp spec fn cube_plane_shape(c: Cube) -> (nat, nat);

/// What a matrix is: its rows, and how long they are.
pub struct Grid {
    pub rows: Seq<Seq<u32>>,
    pub width: nat,
}

/// The row-major words `s` as a matrix of `rows` rows of `cols` words.
pub open spec fn grid_of(s: Seq<u32>, rows: nat, cols: nat) -> Grid {
    Grid { rows: as_rows(s, rows, cols), width: cols }
}

/// What a three-dimensional array is: its planes, and their shape.
pub struct Block {
    pub planes: Seq<Seq<Seq<u32>>>,
    pub height: nat,
    pub width: nat,
}

/// The row-major words `s` as planes of `rows` rows of `cols` words.
pub open spec fn block_of(s: Seq<u32>, planes: nat, rows: nat, cols: nat) -> Block {
    Block { planes: as_planes(s, planes, rows, cols), height: rows, width: cols }
}

impl View for Matrix {
    type V = Seq<Seq<u32>>;

    open spec fn view(&self) -> Seq<Seq<u32>> {
        matrix_rows(*self)
    }
}

impl View for Cube {
    type V = Seq<Seq<Seq<u32>>>;

    open spec fn view(&self) -> Seq<Seq<Seq<u32>>> {
        cube_planes(*self)
    }
}

/// An axis length as it counts toward the size limit: an empty axis counts as
/// one.
pub open spec fn axis(n: nat) -> nat {
    if n == 0 {
        1
    } else {
        n
    }
}

/// A matrix of this shape can be had: the product of its axes, empty ones left
/// out, is an index, and so is the byte size of its words.
pub open spec fn matrix_fits(rows: nat, cols: nat) -> bool {
    matrix_indexable(rows, cols) && rows * cols * 4 <= isize::MAX
}

/// The product of the axes, empty ones left out, is an index.
pub open spec fn matrix_indexable(rows: nat, cols: nat) -> bool {
    axis(rows) * axis(cols) <= isize::MAX
}

/// The product of the axes, empty ones left out, is an index.
pub open spec fn cube_indexable(planes: nat, rows: nat, cols: nat) -> bool {
    axis(planes) * axis(rows) * axis(cols) <= isize::MAX
}

/// A three-dimensional array of this shape can be had.
pub open spec fn cube_fits(planes: nat, rows: nat, cols: nat) -> bool {
    cube_indexable(planes, rows, cols) && planes * rows * cols * 4 <= isize::MAX
}

/// The row-major words `s` as rows of `cols` words.
pub open spec fn as_rows(s: Seq<u32>, rows: nat, cols: nat) -> Seq<Seq<u32>> {
    Seq::new(rows, |r: int| Seq::new(cols, |c: int| s[r * cols + c]))
}

/// The row-major words `s` as planes of `rows` rows of `cols` words.
pub open spec fn as_planes(s: Seq<u32>, planes: nat, rows: nat, cols: nat) -> Seq<Seq<Seq<u32>>> {
    Seq::new(
        planes,
        |p: int| Seq::new(rows, |r: int| Seq::new(cols, |c: int| s[(p * rows + r) * cols + c])),
    )
}

/// Rows one behind the other.
pub open spec fn flat_rows(rows: Seq<Seq<u32>>) -> Seq<u32>
    decreases rows.len(),
{
    if rows.len() == 0 {
        Seq::empty()
    } else {
        flat_rows(rows.drop_last()) + rows.last()
    }
}

/// The rows of planes one behind the other.
pub open spec fn flat_planes(planes: Seq<Seq<Seq<u32>>>) -> Seq<u32>
    decreases planes.len(),
{
    if planes.len() == 0 {
        Seq::empty()
    } else {
        flat_planes(planes.drop_last()) + flat_rows(planes.last())
    }
}

/// Rows of words that are all zero.
pub open spec fn zero_rows(rows: nat, cols: nat) -> Seq<Seq<u32>> {
    Seq::new(rows, |r: int| Seq::new(cols, |c: int| 0u32))
}

/// Planes of words that are all zero.
pub open spec fn zero_planes(planes: nat, rows: nat, cols: nat) -> Seq<Seq<Seq<u32>>> {
    Seq::new(planes, |p: int| zero_rows(rows, cols))
}

/// The rows of `s` as columns; a row is `cols` words long.
pub open spec fn transposed(s: Seq<Seq<u32>>, cols: nat) -> Seq<Seq<u32>> {
    Seq::new(cols, |c: int| Seq::new(s.len(), |r: int| s[r][c]))
}

/// Calls `ndarray`'s `Array2::zeros`: a matrix of the shape asked for, every
/// word zero. The call panics where the product of the non-empty axes is no
/// index, and the allocation where the byte size is none.
#[verifier::external_body]
fn array2_zeros(rows: usize, cols: usize) -> (m: Matrix)
    requires
        matrix_fits(rows as nat, cols as nat),
    ensures
        matrix_rows(m) == zero_rows(rows as nat, cols as nat),
        matrix_cols(m) == cols,
{
    Matrix { inner: ndarray::Array2::zeros((rows, cols)) }
}

/// Calls `ndarray`'s `Array2::from_shape_vec`: the words in row-major order. It
/// refuses words whose number is not that of the shape, and a shape whose
/// non-empty axes have a product that is no index.
#[verifier::external_body]
fn array2_from_vec(rows: usize, cols: usize, words: Vec<u32>) -> (r: Option<Matrix>)
    ensures
        (r is Some) == (words@.len() == rows * cols && matrix_indexable(rows as nat, cols as nat)),
        r matches Some(m) ==> matrix_rows(m) == as_rows(words@, rows as nat, cols as nat)
            && matrix_cols(m) == cols,
{
    ndarray::Array2::from_shape_vec((rows, cols), words).ok().map(|inner| Matrix { inner })
}

/// Calls `ndarray`'s `ArrayBase::dim` on a matrix: the number of rows and the
/// length that they all have.
#[verifier::external_body]
fn array2_dim(m: &Matrix) -> (d: (usize, usize))
    ensures
        d.0 == matrix_rows(*m).len(),
        d.1 == matrix_cols(*m),
        forall|r: int| 0 <= r < d.0 ==> (#[trigger] matrix_rows(*m)[r]).len() == d.1,
{
    m.inner.dim()
}

/// Indexes a matrix of `ndarray` at a row and a column. The call panics
/// outside the shape.
#[verifier::external_body]
fn array2_get(m: &Matrix, row: usize, col: usize) -> (v: u32)
    requires
        row < matrix_rows(*m).len(),
        col < matrix_cols(*m),
    ensures
        v == matrix_rows(*m)[row as int][col as int],
{
    m.inner[[row, col]]
}

/// Writes one word of a matrix of `ndarray`; the rest stays as it is. The call
/// panics outside the shape.
#[verifier::external_body]
fn array2_put(m: &mut Matrix, row: usize, col: usize, v: u32)
    requires
        row < matrix_rows(*old(m)).len(),
        col < matrix_cols(*old(m)),
    ensures
        matrix_rows(*final(m)) == matrix_rows(*old(m)).update(
            row as int,
            matrix_rows(*old(m))[row as int].update(col as int, v),
        ),
        matrix_cols(*final(m)) == matrix_cols(*old(m)),
{
    m.inner[[row, col]] = v;
}

/// Calls `ndarray`'s `ArrayBase::t` and copies the view: rows become columns.
#[verifier::external_body]
fn array2_transposed(m: &Matrix) -> (t: Matrix)
    ensures
        matrix_rows(t) == transposed(matrix_rows(*m), matrix_cols(*m)),
        matrix_cols(t) == matrix_rows(*m).len(),
{
    Matrix { inner: m.inner.t().to_owned() }
}

/// Calls `ndarray`'s `Array3::zeros`: an array of the shape asked for, every
/// word zero. The call panics where the product of the non-empty axes is no
/// index, and the allocation where the byte size is none.
#[verifier::external_body]
fn array3_zeros(planes: usize, rows: usize, cols: usize) -> (c: Cube)
    requires
        cube_fits(planes as nat, rows as nat, cols as nat),
    ensures
        cube_planes(c) == zero_planes(planes as nat, rows as nat, cols as nat),
        cube_plane_shape(c) == (rows as nat, cols as nat),
{
    Cube { inner: ndarray::Array3::zeros((planes, rows, cols)) }
}

/// Calls `ndarray`'s `Array3::from_shape_vec`: the words in row-major order. It
/// refuses words whose number is not that of the shape, and a shape whose
/// non-empty axes have a product that is no index.
#[verifier::external_body]
fn array3_from_vec(planes: usize, rows: usize, cols: usize, words: Vec<u32>) -> (r: Option<Cube>)
    ensures
        (r is Some) == (words@.len() == planes * rows * cols && cube_indexable(
            planes as nat,
            rows as nat,
            cols as nat,
        )),
        r matches Some(c) ==> cube_planes(c) == as_planes(
            words@,
            planes as nat,
            rows as nat,
            cols as nat,
        ) && cube_plane_shape(c) == (rows as nat, cols as nat),
{
    ndarray::Array3::from_shape_vec((planes, rows, cols), words).ok().map(|inner| Cube { inner })
}

/// Calls `ndarray`'s `ArrayBase::dim` on a three-dimensional array: the number
/// of planes, the number of rows in each and the length of each row.
#[verifier::external_body]
fn array3_dim(c: &Cube) -> (d: (usize, usize, usize))
    ensures
        d.0 == cube_planes(*c).len(),
        (d.1 as nat, d.2 as nat) == cube_plane_shape(*c),
        forall|p: int| 0 <= p < d.0 ==> (#[trigger] cube_planes(*c)[p]).len() == d.1,
        forall|p: int, r: int|
            0 <= p < d.0 && 0 <= r < d.1 ==> (#[trigger] cube_planes(*c)[p][r]).len() == d.2,
{
    c.inner.dim()
}

/// Indexes a three-dimensional array of `ndarray`. The call panics outside the
/// shape.
#[verifier::external_body]
fn array3_get(c: &Cube, plane: usize, row: usize, col: usize) -> (v: u32)
    requires
        plane < cube_planes(*c).len(),
        row < cube_plane_shape(*c).0,
        col < cube_plane_shape(*c).1,
    ensures
        v == cube_planes(*c)[plane as int][row as int][col as int],
{
    c.inner[[plane, row, col]]
}

/// Writes one word of a three-dimensional array of `ndarray`; the rest stays as
/// it is. The call panics outside the shape.
#[verifier::external_body]
fn array3_put(c: &mut Cube, plane: usize, row: usize, col: usize, v: u32)
    requires
        plane < cube_planes(*old(c)).len(),
        row < cube_plane_shape(*old(c)).0,
        col < cube_plane_shape(*old(c)).1,
    ensures
        cube_planes(*final(c)) == cube_planes(*old(c)).update(
            plane as int,
            cube_planes(*old(c))[plane as int].update(
                row as int,
                cube_planes(*old(c))[plane as int][row as int].update(col as int, v),
            ),
        ),
        cube_plane_shape(*final(c)) == cube_plane_shape(*old(c)),
{
    c.inner[[plane, row, col]] = v;
}

impl Matrix {
    /// How long the rows are.
    pub open spec fn width(&self) -> nat {
        matrix_cols(*self)
    }

    /// The rows, and how long they are.
    pub open spec fn grid(&self) -> Grid {
        Grid { rows: self@, width: self.width() }
    }

    /// Every row is as long as the others, and the shape is one of sizes.
    pub open spec fn wf(&self) -> bool {
        &&& self@.len() <= usize::MAX
        &&& self.width() <= usize::MAX
        &&& forall|r: int| 0 <= r < self@.len() ==> (#[trigger] self@[r]).len() == self.width()
    }

    /// A matrix of zero words.
    pub fn zeros(rows: usize, cols: usize) -> (m: Self)
        requires
            matrix_fits(rows as nat, cols as nat),
        ensures
            m.wf(),
            m@ == zero_rows(rows as nat, cols as nat),
            m.width() == cols,
    {
        array2_zeros(rows, cols)
    }

    /// A matrix of the words in row-major order; `None` where their number is
    /// not that of the shape, or the shape is too large for an index.
    pub fn from_flat(rows: usize, cols: usize, words: Vec<u32>) -> (r: Option<Self>)
        ensures
            (r is Some) == (words@.len() == rows * cols && matrix_indexable(rows as nat, cols as nat)),
            r matches Some(m) ==> m.wf() && m@ == as_rows(words@, rows as nat, cols as nat)
                && m.width() == cols,
    {
        array2_from_vec(rows, cols, words)
    }

    /// The number of rows.
    pub fn nrows(&self) -> (n: usize)
        ensures
            n == self@.len(),
            self.wf(),
    {
        array2_dim(self).0
    }

    /// The length of a row.
    pub fn ncols(&self) -> (n: usize)
        ensures
            n == self.width(),
            self.wf(),
    {
        array2_dim(self).1
    }

    /// The word at a row and a column.
    pub fn at(&self, row: usize, col: usize) -> (v: u32)
        requires
            row < self@.len(),
            col < self.width(),
        ensures
            v == self@[row as int][col as int],
    {
        array2_get(self, row, col)
    }

    /// Replaces the word at a row and a column.
    pub fn put(&mut self, row: usize, col: usize, v: u32)
        requires
            old(self).wf(),
            row < old(self)@.len(),
            col < old(self).width(),
        ensures
            final(self).wf(),
            final(self)@ == old(self)@.update(
                row as int,
                old(self)@[row as int].update(col as int, v),
            ),
            final(self).width() == old(self).width(),
    {
        array2_put(self, row, col, v);
    }

    /// Rows become columns.
    pub fn transpose(&self) -> (t: Self)
        ensures
            t.wf(),
            t@ == transposed(self@, self.width()),
            t.width() == self@.len(),
    {
        let d: (usize, usize) = array2_dim(self);
        array2_transposed(self)
    }

    /// The words of a row.
    pub fn row(&self, row: usize) -> (w: Vec<u32>)
        requires
            row < self@.len(),
        ensures
            w@ == self@[row as int],
    {
        let n: usize = self.ncols();
        let mut w: Vec<u32> = Vec::new();
        let mut c: usize = 0;
        while c < n
            invariant
                c <= n,
                n == self.width(),
                row < self@.len(),
                self.wf(),
                w@ == self@[row as int].take(c as int),
            decreases n - c,
        {
            w.push(self.at(row, c));
            c += 1;
            assert(w@ =~= self@[row as int].take(c as int));
        }
        assert(self@[row as int].take(n as int) =~= self@[row as int]);
        w
    }

    /// Replaces a row.
    pub fn put_row(&mut self, row: usize, words: &[u32])
        requires
            old(self).wf(),
            row < old(self)@.len(),
            words@.len() == old(self).width(),
        ensures
            final(self).wf(),
            final(self)@ == old(self)@.update(row as int, words@),
            final(self).width() == old(self).width(),
    {
        let n: usize = self.ncols();
        let ghost before = self@;
        let mut c: usize = 0;
        assert(self@ =~= before.update(row as int, words@.take(0) + before[row as int].skip(0))) by {
            assert(words@.take(0) + before[row as int].skip(0) =~= before[row as int]);
        }
        while c < n
            invariant
                c <= n,
                n == self.width(),
                n == words@.len(),
                row < before.len(),
                before[row as int].len() == n,
                self.wf(),
                self@ == before.update(
                    row as int,
                    words@.take(c as int) + before[row as int].skip(c as int),
                ),
                self.width() == old(self).width(),
            decreases n - c,
        {
            let ghost now = words@.take(c as int) + before[row as int].skip(c as int);
            let ghost next = words@.take(c + 1) + before[row as int].skip(c + 1);
            self.put(row, c, words[c]);
            assert(now.update(c as int, words@[c as int]) =~= next);
            assert(self@ =~= before.update(row as int, next));
            c += 1;
        }
        assert(words@.take(n as int) + before[row as int].skip(n as int) =~= words@);
    }

    /// The rows one behind the other.
    pub fn flat(&self) -> (w: Vec<u32>)
        ensures
            w@ == flat_rows(self@),
    {
        let n: usize = self.nrows();
        let mut w: Vec<u32> = Vec::new();
        let mut r: usize = 0;
        assert(self@.take(0) =~= Seq::empty());
        while r < n
            invariant
                r <= n,
                n == self@.len(),
                w@ == flat_rows(self@.take(r as int)),
            decreases n - r,
        {
            let mut row: Vec<u32> = self.row(r);
            w.append(&mut row);
            r += 1;
            assert(self@.take(r as int).drop_last() =~= self@.take(r - 1));
        }
        assert(self@.take(n as int) =~= self@);
        w
    }
}

impl Cube {
    /// How many rows a plane has.
    pub open spec fn height(&self) -> nat {
        cube_plane_shape(*self).0
    }

    /// How long a row is.
    pub open spec fn width(&self) -> nat {
        cube_plane_shape(*self).1
    }

    /// The planes, and their shape.
    pub open spec fn block(&self) -> Block {
        Block { planes: self@, height: self.height(), width: self.width() }
    }

    /// Every plane and every row is as long as the others, and the shape is one
    /// of sizes.
    pub open spec fn wf(&self) -> bool {
        &&& self@.len() <= usize::MAX
        &&& self.height() <= usize::MAX
        &&& self.width() <= usize::MAX
        &&& forall|p: int| 0 <= p < self@.len() ==> (#[trigger] self@[p]).len() == self.height()
        &&& forall|p: int, r: int|
            0 <= p < self@.len() && 0 <= r < self.height() ==> (#[trigger] self@[p][r]).len()
                == self.width()
    }

    /// An array of zero words.
    pub fn zeros(planes: usize, rows: usize, cols: usize) -> (c: Self)
        requires
            cube_fits(planes as nat, rows as nat, cols as nat),
        ensures
            c.wf(),
            c@ == zero_planes(planes as nat, rows as nat, cols as nat),
            c.height() == rows,
            c.width() == cols,
    {
        array3_zeros(planes, rows, cols)
    }

    /// An array of the words in row-major order; `None` where their number is
    /// not that of the shape, or the shape is too large for an index.
    pub fn from_flat(planes: usize, rows: usize, cols: usize, words: Vec<u32>) -> (r: Option<Self>)
        ensures
            (r is Some) == (words@.len() == planes * rows * cols && cube_indexable(
            planes as nat,
            rows as nat,
            cols as nat,
        )),
            r matches Some(c) ==> c.wf() && c@ == as_planes(
                words@,
                planes as nat,
                rows as nat,
                cols as nat,
            ) && c.height() == rows && c.width() == cols,
    {
        array3_from_vec(planes, rows, cols, words)
    }

    /// The number of planes, of rows in a plane and of words in a row.
    pub fn dims(&self) -> (d: (usize, usize, usize))
        ensures
            d.0 == self@.len(),
            d.1 == self.height(),
            d.2 == self.width(),
            self.wf(),
    {
        array3_dim(self)
    }

    /// The word at a plane, a row and a column.
    pub fn at(&self, plane: usize, row: usize, col: usize) -> (v: u32)
        requires
            plane < self@.len(),
            row < self.height(),
            col < self.width(),
        ensures
            v == self@[plane as int][row as int][col as int],
    {
        array3_get(self, plane, row, col)
    }

    /// Replaces the word at a plane, a row and a column.
    pub fn put(&mut self, plane: usize, row: usize, col: usize, v: u32)
        requires
            old(self).wf(),
            plane < old(self)@.len(),
            row < old(self).height(),
            col < old(self).width(),
        ensures
            final(self).wf(),
            final(self)@ == old(self)@.update(
                plane as int,
                old(self)@[plane as int].update(
                    row as int,
                    old(self)@[plane as int][row as int].update(col as int, v),
                ),
            ),
            final(self).height() == old(self).height(),
            final(self).width() == old(self).width(),
    {
        array3_put(self, plane, row, col, v);
        let ghost o = old(self)@;
        let ghost p = o[plane as int];
        assert forall|q: int, r: int|
            0 <= q < self@.len() && 0 <= r < self.height() implies (#[trigger] self@[q][r]).len()
            == self.width() by {
            assert(o[q][r].len() == old(self).width());
            assert(p[r].len() == old(self).width());
        }
    }

    /// The words of a row of a plane.
    pub fn row(&self, plane: usize, row: usize) -> (w: Vec<u32>)
        requires
            plane < self@.len(),
            row < self.height(),
        ensures
            w@ == self@[plane as int][row as int],
    {
        let n: usize = self.dims().2;
        let mut w: Vec<u32> = Vec::new();
        let mut c: usize = 0;
        while c < n
            invariant
                c <= n,
                n == self.width(),
                self.wf(),
                plane < self@.len(),
                row < self.height(),
                w@ == self@[plane as int][row as int].take(c as int),
            decreases n - c,
        {
            assert(self@[plane as int][row as int].len() == n);
            w.push(self.at(plane, row, c));
            c += 1;
            assert(w@ =~= self@[plane as int][row as int].take(c as int));
        }
        assert(self@[plane as int][row as int].len() == n);
        assert(w@ =~= self@[plane as int][row as int]);
        w
    }

    /// The rows of the planes one behind the other.
    pub fn flat(&self) -> (w: Vec<u32>)
        ensures
            w@ == flat_planes(self@),
    {
        let d: (usize, usize, usize) = self.dims();
        let mut w: Vec<u32> = Vec::new();
        let mut p: usize = 0;
        assert(self@.take(0) =~= Seq::empty());
        while p < d.0
            invariant
                p <= d.0,
                d.0 == self@.len(),
                d.1 == self.height(),
                self.wf(),
                w@ == flat_planes(self@.take(p as int)),
            decreases d.0 - p,
        {
            let ghost plane = self@[p as int];
            let ghost before = w@;
            let mut r: usize = 0;
            assert(plane.len() == d.1);
            assert(plane.take(0) =~= Seq::empty());
            assert(w@ =~= before + flat_rows(plane.take(0)));
            while r < d.1
                invariant
                    p < d.0,
                    r <= d.1,
                    d.0 == self@.len(),
                    d.1 == self.height(),
                    self.wf(),
                    plane == self@[p as int],
                    plane.len() == d.1,
                    w@ == before + flat_rows(plane.take(r as int)),
                decreases d.1 - r,
            {
                let mut row: Vec<u32> = self.row(p, r);
                w.append(&mut row);
                r += 1;
                assert(plane.take(r as int).drop_last() =~= plane.take(r - 1));
                assert(w@ =~= before + flat_rows(plane.take(r as int)));
            }
            assert(plane.take(r as int) =~= plane);
            p += 1;
            assert(self@.take(p as int).drop_last() =~= self@.take(p - 1));
        }
        assert(self@.take(d.0 as int) =~= self@);
        w
    }
}

/// Word `c` of row `r` is word `r * cols + c` of the flat words.
pub proof fn law_row_words(s: Seq<u32>, rows: nat, cols: nat, r: int, c: int)
    requires
        0 <= r < rows,
        0 <= c < cols,
    ensures
        as_rows(s, rows, cols).len() == rows,
        as_rows(s, rows, cols)[r].len() == cols,
        as_rows(s, rows, cols)[r][c] == s[r * cols + c],
        grid_of(s, rows, cols).rows[r][c] == s[r * cols + c],
        grid_of(s, rows, cols).width == cols,
{
}

/// Word `c` of row `r` of plane `p` is word `(p * rows + r) * cols + c` of the flat
/// words.
pub proof fn law_plane_words(s: Seq<u32>, planes: nat, rows: nat, cols: nat, p: int, r: int, c: int)
    requires
        0 <= p < planes,
        0 <= r < rows,
        0 <= c < cols,
    ensures
        as_planes(s, planes, rows, cols).len() == planes,
        as_planes(s, planes, rows, cols)[p].len() == rows,
        as_planes(s, planes, rows, cols)[p][r].len() == cols,
        as_planes(s, planes, rows, cols)[p][r][c] == s[(p * rows + r) * cols + c],
        block_of(s, planes, rows, cols).planes[p][r][c] == s[(p * rows + r) * cols + c],
        block_of(s, planes, rows, cols).height == rows,
        block_of(s, planes, rows, cols).width == cols,
{
}

/// Rows one behind the other: the words of row `r` of rows of one width start at `r`
/// times the width.
pub proof fn law_flat_words(rows: Seq<Seq<u32>>, width: nat, r: int, c: int)
    requires
        forall|i: int| 0 <= i < rows.len() ==> (#[trigger] rows[i]).len() == width,
        0 <= r < rows.len(),
        0 <= c < width,
    ensures
        flat_rows(rows).len() == rows.len() * width,
        0 <= r * width + c < flat_rows(rows).len(),
        flat_rows(rows)[r * width + c] == rows[r][c],
    decreases rows.len(),
{
    lemma_flat_len(rows, width);
    let front = rows.drop_last();
    let n = front.len() as int;
    lemma_flat_len(front, width);
    assert(0 <= r * width && r * width + width <= (n + 1) * width && (n + 1) * width == n * width
        + width) by (nonlinear_arith)
        requires
            0 <= r <= n,
            width >= 0,
    ;
    if r < n {
        law_flat_words(front, width, r, c);
        assert(front[r] == rows[r]);
    }
}

proof fn lemma_flat_len(rows: Seq<Seq<u32>>, width: nat)
    requires
        forall|i: int| 0 <= i < rows.len() ==> (#[trigger] rows[i]).len() == width,
    ensures
        flat_rows(rows).len() == rows.len() * width,
    decreases rows.len(),
{
    if rows.len() > 0 {
        let front = rows.drop_last();
        assert forall|i: int| 0 <= i < front.len() implies (#[trigger] front[i]).len() == width by {
            assert(front[i] == rows[i]);
        }
        lemma_flat_len(front, width);
        let n = front.len() as int;
        assert((n + 1) * width == n * width + width) by (nonlinear_arith);
    }
}

/// Flattening rows and cutting the words again gives the rows back.
pub proof fn law_rows_come_back(rows: Seq<Seq<u32>>, width: nat)
    requires
        forall|i: int| 0 <= i < rows.len() ==> (#[trigger] rows[i]).len() == width,
    ensures
        as_rows(flat_rows(rows), rows.len(), width) == rows,
{
    let back = as_rows(flat_rows(rows), rows.len(), width);
    assert forall|r: int| 0 <= r < rows.len() implies #[trigger] back[r] == rows[r] by {
        assert forall|c: int| 0 <= c < width implies back[r][c] == rows[r][c] by {
            law_flat_words(rows, width, r, c);
        }
        assert(back[r] =~= rows[r]);
    }
    assert(back =~= rows);
}

/// Planes one behind the other: each is its rows one behind the other.
pub proof fn law_flat_planes(planes: Seq<Seq<Seq<u32>>>, plane: Seq<Seq<u32>>)
    ensures
        flat_planes(Seq::<Seq<Seq<u32>>>::empty()) == Seq::<u32>::empty(),
        flat_planes(planes.push(plane)) == flat_planes(planes) + flat_rows(plane),
{
    assert(planes.push(plane).drop_last() =~= planes);
}

/// Rows and columns change places.
pub proof fn law_transposed_words(s: Seq<Seq<u32>>, cols: nat, r: int, c: int)
    requires
        0 <= r < s.len(),
        0 <= c < cols,
    ensures
        transposed(s, cols).len() == cols,
        transposed(s, cols)[c].len() == s.len(),
        transposed(s, cols)[c][r] == s[r][c],
{
}

/// Fresh rows and planes hold zeros.
pub proof fn law_fresh_words_are_zero(planes: nat, rows: nat, cols: nat, p: int, r: int, c: int)
    requires
        0 <= p < planes,
        0 <= r < rows,
        0 <= c < cols,
    ensures
        zero_rows(rows, cols).len() == rows,
        zero_rows(rows, cols)[r].len() == cols,
        zero_rows(rows, cols)[r][c] == 0,
        zero_planes(planes, rows, cols).len() == planes,
        zero_planes(planes, rows, cols)[p][r][c] == 0,
{
}

} // verus!
