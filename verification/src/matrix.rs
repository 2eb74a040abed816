//! Fixed-size matrices whose dimensions live in the type, with no heap allocation.
use vstd::prelude::*;

verus! {

broadcast use vstd::array::group_array_axioms;

/// Element types a matrix can be built from: plain copyable values with a
/// default (for numbers, zero) that fills freshly made matrices.
pub trait NumericType: Copy + Default {}

impl<T: Copy + Default> NumericType for T {}

/// True when `m` has exactly `rows` rows of `cols` entries each.
pub open spec fn is_shape<T>(m: Seq<Seq<T>>, rows: nat, cols: nat) -> bool {
    &&& m.len() == rows
    &&& forall|r: int| 0 <= r < rows ==> #[trigger] m[r].len() == cols
}

/// The transpose of a `rows` x `cols` matrix given by its rows.
pub open spec fn transpose_view<T>(m: Seq<Seq<T>>, rows: nat, cols: nat) -> Seq<Seq<T>> {
    Seq::new(cols, |c: int| Seq::new(rows, |r: int| m[r][c]))
}

/// Integer element types, whose arithmetic the matrix operations are built from.
/// Implemented for every primitive integer type, and only for those.
pub trait IntegerEntry: NumericType + crate::sealed::Sealed {
    /// The value as a mathematical integer.
    spec fn as_int(self) -> int;

    /// Whether `v` lies in the type's range.
    spec fn fits(v: int) -> bool;

    /// Different values are different integers.
    proof fn lemma_as_int_injective(a: Self, b: Self)
        requires
            a.as_int() == b.as_int(),
        ensures
            a == b,
    ;

    /// Every value lies in the type's range.
    proof fn lemma_in_range(a: Self)
        ensures
            Self::fits(a.as_int()),
    ;

    fn plus(self, other: Self) -> (r: Self)
        requires
            Self::fits(self.as_int() + other.as_int()),
        ensures
            r.as_int() == self.as_int() + other.as_int(),
    ;

    fn minus(self, other: Self) -> (r: Self)
        requires
            Self::fits(self.as_int() - other.as_int()),
        ensures
            r.as_int() == self.as_int() - other.as_int(),
    ;

    fn times(self, other: Self) -> (r: Self)
        requires
            Self::fits(self.as_int() * other.as_int()),
        ensures
            r.as_int() == self.as_int() * other.as_int(),
    ;

    fn zero_value() -> (r: Self)
        ensures
            r.as_int() == 0,
    ;
}

/// The entries of a matrix of integers, as mathematical integers.
pub open spec fn int_rows<T: IntegerEntry>(m: Seq<Seq<T>>) -> Seq<Seq<int>> {
    Seq::new(m.len(), |r: int| Seq::new(m[r].len(), |c: int| m[r][c].as_int()))
}

/// Entry-wise sums of two matrices of one shape are in the element type's range.
pub open spec fn add_fits<T: IntegerEntry>(a: Seq<Seq<T>>, b: Seq<Seq<T>>) -> bool {
    forall|r: int, c: int|
        0 <= r < a.len() && 0 <= c < a[r].len() ==> T::fits(
            #[trigger] a[r][c].as_int() + b[r][c].as_int(),
        )
}

/// Entry-wise differences of two matrices of one shape are in the element type's range.
pub open spec fn sub_fits<T: IntegerEntry>(a: Seq<Seq<T>>, b: Seq<Seq<T>>) -> bool {
    forall|r: int, c: int|
        0 <= r < a.len() && 0 <= c < a[r].len() ==> T::fits(
            #[trigger] a[r][c].as_int() - b[r][c].as_int(),
        )
}

/// Every entry times `s` is in the element type's range.
pub open spec fn scale_fits<T: IntegerEntry>(a: Seq<Seq<T>>, s: T) -> bool {
    forall|r: int, c: int|
        0 <= r < a.len() && 0 <= c < a[r].len() ==> T::fits(#[trigger] a[r][c].as_int() * s.as_int())
}

/// The entry-wise sum.
pub open spec fn sum_ints(a: Seq<Seq<int>>, b: Seq<Seq<int>>) -> Seq<Seq<int>> {
    Seq::new(a.len(), |r: int| Seq::new(a[r].len(), |c: int| a[r][c] + b[r][c]))
}

/// The entry-wise difference.
pub open spec fn difference_ints(a: Seq<Seq<int>>, b: Seq<Seq<int>>) -> Seq<Seq<int>> {
    Seq::new(a.len(), |r: int| Seq::new(a[r].len(), |c: int| a[r][c] - b[r][c]))
}

/// Every entry multiplied by `s`.
pub open spec fn scaled_ints(a: Seq<Seq<int>>, s: int) -> Seq<Seq<int>> {
    Seq::new(a.len(), |r: int| Seq::new(a[r].len(), |c: int| a[r][c] * s))
}

/// `sum_{t < k} a[i][t] * b[t][j]`, accumulated left to right.
pub open spec fn dot_prefix(a: Seq<Seq<int>>, b: Seq<Seq<int>>, i: int, j: int, k: nat) -> int
    decreases k,
{
    if k == 0 {
        0
    } else {
        dot_prefix(a, b, i, j, (k - 1) as nat) + a[i][k - 1] * b[k - 1][j]
    }
}

/// Each product and each running sum in the `m` x `n` times `n` x `p` product is in the element
/// type's range.
pub open spec fn mul_fits<T: IntegerEntry>(
    a: Seq<Seq<T>>,
    b: Seq<Seq<T>>,
    m: nat,
    n: nat,
    p: nat,
) -> bool {
    &&& forall|i: int, j: int, k: int|
        0 <= i < m && 0 <= j < p && 0 <= k < n ==> T::fits(
            #[trigger] (a[i][k].as_int() * b[k][j].as_int()),
        )
    &&& forall|i: int, j: int, k: nat|
        0 <= i < m && 0 <= j < p && k <= n ==> T::fits(
            #[trigger] dot_prefix(int_rows(a), int_rows(b), i, j, k),
        )
}

/// The `m` x `p` product of an `m` x `n` and an `n` x `p` matrix.
pub open spec fn product_ints(a: Seq<Seq<int>>, b: Seq<Seq<int>>, m: nat, n: nat, p: nat) -> Seq<
    Seq<int>,
> {
    Seq::new(m, |i: int| Seq::new(p, |j: int| dot_prefix(a, b, i, j, n)))
}

/// A matrix of `R` rows and `C` columns, stored row by row.
#[derive(Debug, Clone, PartialEq)]
pub struct Matrix<T, const R: usize, const C: usize> {
    inner: [[T; C]; R],
}

impl<T, const R: usize, const C: usize> Matrix<T, R, C> {
    /// The entries, as a sequence of `R` rows of `C` entries each.
    pub closed spec fn view(&self) -> Seq<Seq<T>> {
        Seq::new(R as nat, |r: int| self.inner[r]@)
    }

    /// Every matrix has `R` rows of `C` entries.
    pub broadcast proof fn lemma_shape(m: Self)
        ensures
            #[trigger] is_shape(m@, R as nat, C as nat),
    {
    }

    /// Two matrices with the same entries are the same matrix.
    pub proof fn lemma_view_injective(a: Self, b: Self)
        requires
            a@ == b@,
        ensures
            a == b,
    {
        assert forall|r: int| 0 <= r < R implies a.inner[r] == b.inner[r] by {
            assert(a@[r] == a.inner[r]@);
            assert(b@[r] == b.inner[r]@);
            assert(a.inner[r] =~= b.inner[r]);
        }
        assert(a.inner =~= b.inner);
    }

    /// Replaces row `r`.
    fn set_row(&mut self, r: usize, row: [T; C])
        requires
            r < R,
        ensures
            final(self)@ == old(self)@.update(r as int, row@),
    {
        let ghost before = self.inner;
        self.inner[r] = row;
        proof {
            assert(self.inner@ == before@.update(r as int, row));
            assert forall|i: int| 0 <= i < R implies #[trigger] self@[i] == old(self)@.update(
                r as int,
                row@,
            )[i] by {
                if i != r {
                    assert(self.inner[i] == before[i]);
                }
            }
            assert(self@ =~= old(self)@.update(r as int, row@));
        }
    }
}


impl<T: NumericType, const R: usize, const C: usize> Matrix<T, R, C> {
    /// The matrix whose every entry is the element type's default (zero for numbers).
    pub fn zero() -> (m: Self)
        ensures
            is_shape(m@, R as nat, C as nat),
            forall|r: int, c: int|
                0 <= r < R && 0 <= c < C ==> call_ensures(T::default, (), #[trigger] m@[r][c]),
    {
        let z = T::default();
        Self { inner: [[z; C]; R] }
    }

    /// The matrix with the given rows.
    pub fn new(inner: [[T; C]; R]) -> (m: Self)
        ensures
            is_shape(m@, R as nat, C as nat),
            forall|r: int, c: int| 0 <= r < R && 0 <= c < C ==> #[trigger] m@[r][c] == inner[r][c],
    {
        Self { inner }
    }

    /// The `C` x `R` matrix whose entry `[c][r]` is this matrix's entry `[r][c]`.
    pub fn transpose(&self) -> (t: Matrix<T, C, R>)
        ensures
            t@ == transpose_view(self@, R as nat, C as nat),
    {
        let z = T::default();
        let mut inner = [[z; R]; C];
        let mut r: usize = 0;
        while r < R
            invariant
                0 <= r <= R,
                forall|i: int, j: int| 0 <= i < r && 0 <= j < C ==> inner[j][i] == self@[i][j],
            decreases R - r,
        {
            let mut c: usize = 0;
            while c < C
                invariant
                    0 <= r < R,
                    0 <= c <= C,
                    forall|i: int, j: int| 0 <= i < r && 0 <= j < C ==> inner[j][i] == self@[i][j],
                    forall|j: int| 0 <= j < c ==> inner[j][r as int] == self@[r as int][j],
                decreases C - c,
            {
                inner[c][r] = self.inner[r][c];
                c += 1;
            }
            r += 1;
        }
        let t = Matrix { inner };
        assert forall|c: int| 0 <= c < C implies #[trigger] t@[c] == transpose_view(
            self@,
            R as nat,
            C as nat,
        )[c] by {
            assert(t@[c] =~= transpose_view(self@, R as nat, C as nat)[c]);
        }
        assert(t@ =~= transpose_view(self@, R as nat, C as nat));
        t
    }

    /// Column `i`, as an `R` x 1 matrix.
    pub fn col(&self, i: usize) -> (m: Matrix<T, R, 1>)
        requires
            i < C,
        ensures
            forall|r: int| 0 <= r < R ==> #[trigger] m@[r][0] == self@[r][i as int],
    {
        let z = T::default();
        let mut inner = [[z; 1]; R];
        let mut r: usize = 0;
        while r < R
            invariant
                0 <= r <= R,
                i < C,
                forall|j: int| 0 <= j < r ==> inner[j][0] == self@[j][i as int],
            decreases R - r,
        {
            inner[r][0] = self.inner[r][i];
            r += 1;
        }
        Matrix { inner }
    }

    /// Row `i`, as a 1 x `C` matrix.
    pub fn row(&self, i: usize) -> (m: Matrix<T, 1, C>)
        requires
            i < R,
        ensures
            m@[0] == self@[i as int],
    {
        let m = Matrix { inner: [self.inner[i]; 1] };
        assert(m@[0] =~= self@[i as int]);
        m
    }

    /// An iterator over the rows, first to last.
    pub fn rows<'a>(&'a self) -> (it: Rows<'a, T, R, C>)
        ensures
            it.source() == self@,
            it.next_row() == 0,
    {
        Rows { inner: self, row: 0 }
    }

    /// An iterator over the columns, first to last.
    pub fn cols<'a>(&'a self) -> (it: Cols<'a, T, R, C>)
        ensures
            it.source() == self@,
            it.next_col() == 0,
    {
        Cols { inner: self, col: 0 }
    }
}

/// Iterates through all rows of a matrix.
#[derive(Debug, Clone)]
pub struct Rows<'a, T, const R: usize, const C: usize> {
    inner: &'a Matrix<T, R, C>,
    row: usize,
}

/// Iterates through all columns of a matrix.
#[derive(Debug, Clone)]
pub struct Cols<'a, T, const R: usize, const C: usize> {
    inner: &'a Matrix<T, R, C>,
    col: usize,
}

/// Iterates through the entries of one row of a matrix.
#[derive(Debug, Clone)]
pub struct RowIterator<'a, T, const R: usize, const C: usize> {
    inner: &'a Matrix<T, R, C>,
    row: usize,
    col: usize,
}

/// Iterates through the entries of one column of a matrix.
#[derive(Debug, Clone)]
pub struct ColIterator<'a, T, const R: usize, const C: usize> {
    inner: &'a Matrix<T, R, C>,
    row: usize,
    col: usize,
}

impl<'a, T, const R: usize, const C: usize> Rows<'a, T, R, C> {
    /// The entries of the matrix being walked.
    pub closed spec fn source(&self) -> Seq<Seq<T>> {
        self.inner@
    }

    /// The row that the next call hands out.
    pub closed spec fn next_row(&self) -> nat {
        self.row as nat
    }

    /// The next row, or `None` once all `R` rows have been handed out.
    pub fn next(&mut self) -> (item: Option<RowIterator<'a, T, R, C>>)
        ensures
            final(self).source() == old(self).source(),
            old(self).next_row() < R ==> {
                &&& item matches Some(it) && it.source() == old(self).source() && it.row()
                    == old(self).next_row() && it.col() == 0
                &&& final(self).next_row() == old(self).next_row() + 1
            },
            old(self).next_row() >= R ==> item is None && final(self).next_row() == old(
                self,
            ).next_row(),
    {
        if self.row >= R {
            return None;
        }
        let next = RowIterator { inner: self.inner, row: self.row, col: 0 };
        self.row += 1;
        Some(next)
    }
}

impl<'a, T, const R: usize, const C: usize> Cols<'a, T, R, C> {
    /// The entries of the matrix being walked.
    pub closed spec fn source(&self) -> Seq<Seq<T>> {
        self.inner@
    }

    /// The column that the next call hands out.
    pub closed spec fn next_col(&self) -> nat {
        self.col as nat
    }

    /// The next column, or `None` once all `C` columns have been handed out.
    pub fn next(&mut self) -> (item: Option<ColIterator<'a, T, R, C>>)
        ensures
            final(self).source() == old(self).source(),
            old(self).next_col() < C ==> {
                &&& item matches Some(it) && it.source() == old(self).source() && it.row() == 0
                    && it.col() == old(self).next_col()
                &&& final(self).next_col() == old(self).next_col() + 1
            },
            old(self).next_col() >= C ==> item is None && final(self).next_col() == old(
                self,
            ).next_col(),
    {
        if self.col >= C {
            return None;
        }
        let next = ColIterator { inner: self.inner, row: 0, col: self.col };
        self.col += 1;
        Some(next)
    }
}

impl<'a, T, const R: usize, const C: usize> RowIterator<'a, T, R, C> {
    /// The entries of the matrix being walked.
    pub closed spec fn source(&self) -> Seq<Seq<T>> {
        self.inner@
    }

    /// The row being walked.
    pub closed spec fn row(&self) -> nat {
        self.row as nat
    }

    /// The column of the entry that the next call hands out.
    pub closed spec fn col(&self) -> nat {
        self.col as nat
    }

    /// The next entry of the row, or `None` past its end.
    pub fn next(&mut self) -> (item: Option<&'a T>)
        ensures
            final(self).source() == old(self).source(),
            final(self).row() == old(self).row(),
            old(self).row() < R && old(self).col() < C ==> {
                &&& item matches Some(x) && *x == old(self).source()[old(self).row() as int][old(
                    self,
                ).col() as int]
                &&& final(self).col() == old(self).col() + 1
            },
            !(old(self).row() < R && old(self).col() < C) ==> item is None && final(self).col()
                == old(self).col(),
    {
        if self.row >= R || self.col >= C {
            return None;
        }
        let m: &'a Matrix<T, R, C> = self.inner;
        let next = &m.inner[self.row][self.col];
        self.col += 1;
        Some(next)
    }
}

impl<'a, T, const R: usize, const C: usize> ColIterator<'a, T, R, C> {
    /// The entries of the matrix being walked.
    pub closed spec fn source(&self) -> Seq<Seq<T>> {
        self.inner@
    }

    /// The row of the entry that the next call hands out.
    pub closed spec fn row(&self) -> nat {
        self.row as nat
    }

    /// The column being walked.
    pub closed spec fn col(&self) -> nat {
        self.col as nat
    }

    /// The next entry of the column, or `None` past its end.
    pub fn next(&mut self) -> (item: Option<&'a T>)
        ensures
            final(self).source() == old(self).source(),
            final(self).col() == old(self).col(),
            old(self).row() < R && old(self).col() < C ==> {
                &&& item matches Some(x) && *x == old(self).source()[old(self).row() as int][old(
                    self,
                ).col() as int]
                &&& final(self).row() == old(self).row() + 1
            },
            !(old(self).row() < R && old(self).col() < C) ==> item is None && final(self).row()
                == old(self).row(),
    {
        if self.row >= R || self.col >= C {
            return None;
        }
        let m: &'a Matrix<T, R, C> = self.inner;
        let next = &m.inner[self.row][self.col];
        self.row += 1;
        Some(next)
    }
}

impl<T: IntegerEntry, const R: usize, const C: usize> Matrix<T, R, C> {
    /// The matrix whose entries, as integers, are `v` (when `v` is `R` x `C` and in range).
    pub closed spec fn from_ints(v: Seq<Seq<int>>) -> Self {
        choose|m: Self| int_rows(m@) == v
    }

    /// Two matrices with the same integer entries are the same matrix.
    pub proof fn lemma_int_rows_injective(a: Self, b: Self)
        requires
            int_rows(a@) == int_rows(b@),
        ensures
            a == b,
    {
        Self::lemma_shape(a);
        Self::lemma_shape(b);
        assert forall|r: int| 0 <= r < R implies #[trigger] a@[r] == b@[r] by {
            assert forall|c: int| 0 <= c < C implies a@[r][c] == b@[r][c] by {
                assert(int_rows(a@)[r][c] == int_rows(b@)[r][c]);
                assert(int_rows(a@)[r] == Seq::new(a@[r].len(), |c: int| a@[r][c].as_int()));
                assert(int_rows(b@)[r] == Seq::new(b@[r].len(), |c: int| b@[r][c].as_int()));
                assert(int_rows(a@)[r][c] == a@[r][c].as_int());
                assert(int_rows(b@)[r][c] == b@[r][c].as_int());
                T::lemma_as_int_injective(a@[r][c], b@[r][c]);
            }
            assert(a@[r] =~= b@[r]);
        }
        assert(a@ =~= b@);
        Self::lemma_view_injective(a, b);
    }

    proof fn lemma_from_ints(m: Self)
        ensures
            Self::from_ints(int_rows(m@)) == m,
    {
        let c = Self::from_ints(int_rows(m@));
        assert(int_rows(c@) == int_rows(m@));
        Self::lemma_int_rows_injective(c, m);
    }

    /// Multiplies every entry by `scalar`, in place.
    pub fn scalar_multiply(&mut self, scalar: T)
        requires
            scale_fits(old(self)@, scalar),
        ensures
            int_rows(final(self)@) == scaled_ints(int_rows(old(self)@), scalar.as_int()),
    {
        let ghost start = self@;
        let mut r: usize = 0;
        while r < R
            invariant
                0 <= r <= R,
                is_shape(start, R as nat, C as nat),
                scale_fits(start, scalar),
                forall|i: int, j: int|
                    0 <= i < r && 0 <= j < C ==> self@[i][j].as_int() == start[i][j].as_int()
                        * scalar.as_int(),
                forall|i: int| r <= i < R ==> self@[i] == start[i],
            decreases R - r,
        {
            let mut row = self.inner[r];
            let mut c: usize = 0;
            while c < C
                invariant
                    0 <= r < R,
                    0 <= c <= C,
                    is_shape(start, R as nat, C as nat),
                    scale_fits(start, scalar),
                    forall|j: int|
                        0 <= j < c ==> row[j].as_int() == start[r as int][j].as_int()
                            * scalar.as_int(),
                    forall|j: int| c <= j < C ==> row[j] == start[r as int][j],
                    forall|i: int, j: int|
                        0 <= i < r && 0 <= j < C ==> self@[i][j].as_int() == start[i][j].as_int()
                            * scalar.as_int(),
                decreases C - c,
            {
                assert(T::fits(start[r as int][c as int].as_int() * scalar.as_int()));
                row[c] = row[c].times(scalar);
                c += 1;
            }
            self.set_row(r, row);
            r += 1;
        }
        proof {
            let want = scaled_ints(int_rows(start), scalar.as_int());
            Self::lemma_shape(*self);
            assert forall|i: int| 0 <= i < R implies #[trigger] int_rows(self@)[i] == want[i] by {
                assert(int_rows(self@)[i] =~= want[i]);
            }
            assert(int_rows(self@) =~= want);
        }
    }
}

impl<T: IntegerEntry, const R: usize, const C: usize> std::ops::Add for Matrix<T, R, C> {
    type Output = Self;

    /// Entry-wise sum.
    fn add(self, other: Self) -> (sum: Self)
        ensures
            int_rows(sum@) == sum_ints(int_rows(self@), int_rows(other@)),
    {
        let mut out = self;
        let mut r: usize = 0;
        while r < R
            invariant
                0 <= r <= R,
                add_fits(self@, other@),
                forall|i: int, j: int|
                    0 <= i < r && 0 <= j < C ==> out@[i][j].as_int() == self@[i][j].as_int()
                        + other@[i][j].as_int(),
                forall|i: int| r <= i < R ==> out@[i] == self@[i],
            decreases R - r,
        {
            let mut row = out.inner[r];
            let mut c: usize = 0;
            while c < C
                invariant
                    0 <= r < R,
                    0 <= c <= C,
                    add_fits(self@, other@),
                    forall|j: int|
                        0 <= j < c ==> row[j].as_int() == self@[r as int][j].as_int()
                            + other@[r as int][j].as_int(),
                    forall|j: int| c <= j < C ==> row[j] == self@[r as int][j],
                    forall|i: int, j: int|
                        0 <= i < r && 0 <= j < C ==> out@[i][j].as_int() == self@[i][j].as_int()
                            + other@[i][j].as_int(),
                decreases C - c,
            {
                assert(T::fits(self@[r as int][c as int].as_int() + other@[r as int][c as int].as_int()));
                row[c] = row[c].plus(other.inner[r][c]);
                c += 1;
            }
            out.set_row(r, row);
            r += 1;
        }
        proof {
            let want = sum_ints(int_rows(self@), int_rows(other@));
            Self::lemma_shape(out);
            Self::lemma_shape(self);
            assert forall|i: int| 0 <= i < R implies #[trigger] int_rows(out@)[i] == want[i] by {
                assert(int_rows(out@)[i] =~= want[i]);
            }
            assert(int_rows(out@) =~= want);
            Self::lemma_from_ints(out);
        }
        out
    }
}

impl<T: IntegerEntry, const R: usize, const C: usize> vstd::std_specs::ops::AddSpecImpl for Matrix<T, R, C> {
    open spec fn obeys_add_spec() -> bool {
        true
    }

    open spec fn add_req(self, rhs: Self) -> bool {
        add_fits(self@, rhs@)
    }

    open spec fn add_spec(self, rhs: Self) -> Self {
        Self::from_ints(sum_ints(int_rows(self@), int_rows(rhs@)))
    }
}

impl<T: IntegerEntry, const R: usize, const C: usize> std::ops::Sub for Matrix<T, R, C> {
    type Output = Self;

    /// Entry-wise difference.
    fn sub(self, other: Self) -> (difference: Self)
        ensures
            int_rows(difference@) == difference_ints(int_rows(self@), int_rows(other@)),
    {
        let mut out = self;
        let mut r: usize = 0;
        while r < R
            invariant
                0 <= r <= R,
                sub_fits(self@, other@),
                forall|i: int, j: int|
                    0 <= i < r && 0 <= j < C ==> out@[i][j].as_int() == self@[i][j].as_int()
                        - other@[i][j].as_int(),
                forall|i: int| r <= i < R ==> out@[i] == self@[i],
            decreases R - r,
        {
            let mut row = out.inner[r];
            let mut c: usize = 0;
            while c < C
                invariant
                    0 <= r < R,
                    0 <= c <= C,
                    sub_fits(self@, other@),
                    forall|j: int|
                        0 <= j < c ==> row[j].as_int() == self@[r as int][j].as_int()
                            - other@[r as int][j].as_int(),
                    forall|j: int| c <= j < C ==> row[j] == self@[r as int][j],
                    forall|i: int, j: int|
                        0 <= i < r && 0 <= j < C ==> out@[i][j].as_int() == self@[i][j].as_int()
                            - other@[i][j].as_int(),
                decreases C - c,
            {
                assert(T::fits(self@[r as int][c as int].as_int() - other@[r as int][c as int].as_int()));
                row[c] = row[c].minus(other.inner[r][c]);
                c += 1;
            }
            out.set_row(r, row);
            r += 1;
        }
        proof {
            let want = difference_ints(int_rows(self@), int_rows(other@));
            Self::lemma_shape(out);
            Self::lemma_shape(self);
            assert forall|i: int| 0 <= i < R implies #[trigger] int_rows(out@)[i] == want[i] by {
                assert(int_rows(out@)[i] =~= want[i]);
            }
            assert(int_rows(out@) =~= want);
            Self::lemma_from_ints(out);
        }
        out
    }
}

impl<T: IntegerEntry, const R: usize, const C: usize> vstd::std_specs::ops::SubSpecImpl for Matrix<T, R, C> {
    open spec fn obeys_sub_spec() -> bool {
        true
    }

    open spec fn sub_req(self, rhs: Self) -> bool {
        sub_fits(self@, rhs@)
    }

    open spec fn sub_spec(self, rhs: Self) -> Self {
        Self::from_ints(difference_ints(int_rows(self@), int_rows(rhs@)))
    }
}

/// A `M` x `N` matrix can only be multiplied by a `N` x `P` matrix; the product is `M` x `P`.
impl<T: IntegerEntry, const M: usize, const N: usize, const P: usize> std::ops::Mul<Matrix<T, N, P>> for Matrix<T, M, N> {
    type Output = Matrix<T, M, P>;

    /// Row-by-column product; each entry is accumulated from the first column onward.
    fn mul(self, other: Matrix<T, N, P>) -> (product: Matrix<T, M, P>)
        ensures
            int_rows(product@) == product_ints(
                int_rows(self@),
                int_rows(other@),
                M as nat,
                N as nat,
                P as nat,
            ),
    {
        let ghost a = int_rows(self@);
        let ghost b = int_rows(other@);
        let z = T::zero_value();
        let mut out = Matrix::<T, M, P> { inner: [[z; P]; M] };
        let mut i: usize = 0;
        proof {
            Self::lemma_shape(self);
            Matrix::<T, N, P>::lemma_shape(other);
        }
        while i < M
            invariant
                0 <= i <= M,
                a == int_rows(self@),
                b == int_rows(other@),
                is_shape(self@, M as nat, N as nat),
                is_shape(other@, N as nat, P as nat),
                mul_fits(self@, other@, M as nat, N as nat, P as nat),
                forall|x: int, y: int|
                    0 <= x < i && 0 <= y < P ==> out@[x][y].as_int() == dot_prefix(a, b, x, y, N as nat),
            decreases M - i,
        {
            let mut row = [z; P];
            let mut j: usize = 0;
            while j < P
                invariant
                    0 <= i < M,
                    0 <= j <= P,
                    a == int_rows(self@),
                    b == int_rows(other@),
                    is_shape(self@, M as nat, N as nat),
                    is_shape(other@, N as nat, P as nat),
                    mul_fits(self@, other@, M as nat, N as nat, P as nat),
                    forall|y: int| 0 <= y < j ==> row[y].as_int() == dot_prefix(a, b, i as int, y, N as nat),
                    forall|x: int, y: int|
                        0 <= x < i && 0 <= y < P ==> out@[x][y].as_int() == dot_prefix(a, b, x, y, N as nat),
                decreases P - j,
            {
                let mut sum = T::zero_value();
                let mut k: usize = 0;
                while k < N
                    invariant
                        0 <= i < M,
                        0 <= j < P,
                        0 <= k <= N,
                        a == int_rows(self@),
                        b == int_rows(other@),
                        is_shape(self@, M as nat, N as nat),
                        is_shape(other@, N as nat, P as nat),
                        mul_fits(self@, other@, M as nat, N as nat, P as nat),
                        sum.as_int() == dot_prefix(a, b, i as int, j as int, k as nat),
                    decreases N - k,
                {
                    let x = self.inner[i][k];
                    let y = other.inner[k][j];
                    assert(x == self@[i as int][k as int]);
                    assert(y == other@[k as int][j as int]);
                    assert(a[i as int][k as int] == x.as_int());
                    assert(b[k as int][j as int] == y.as_int());
                    assert(T::fits(self@[i as int][k as int].as_int() * other@[k as int][j as int].as_int()));
                    assert(T::fits(dot_prefix(a, b, i as int, j as int, (k + 1) as nat)));
                    let xy = x.times(y);
                    sum = sum.plus(xy);
                    k += 1;
                }
                row[j] = sum;
                j += 1;
            }
            out.set_row(i, row);
            i += 1;
        }
        proof {
            let want = product_ints(a, b, M as nat, N as nat, P as nat);
            Matrix::<T, M, P>::lemma_shape(out);
            assert forall|x: int| 0 <= x < M implies #[trigger] int_rows(out@)[x] == want[x] by {
                assert(int_rows(out@)[x] =~= want[x]);
            }
            assert(int_rows(out@) =~= want);
            Matrix::<T, M, P>::lemma_from_ints(out);
        }
        out
    }
}

impl<T: IntegerEntry, const M: usize, const N: usize, const P: usize> vstd::std_specs::ops::MulSpecImpl<Matrix<T, N, P>> for Matrix<T, M, N> {
    open spec fn obeys_mul_spec() -> bool {
        true
    }

    open spec fn mul_req(self, rhs: Matrix<T, N, P>) -> bool {
        mul_fits(self@, rhs@, M as nat, N as nat, P as nat)
    }

    open spec fn mul_spec(self, rhs: Matrix<T, N, P>) -> Matrix<T, M, P> {
        Matrix::<T, M, P>::from_ints(
            product_ints(int_rows(self@), int_rows(rhs@), M as nat, N as nat, P as nat),
        )
    }
}

/// Transposing twice gives back the original matrix.
pub proof fn law_transpose_involution<T, const R: usize, const C: usize>(m: Matrix<T, R, C>)
    ensures
        transpose_view(transpose_view(m@, R as nat, C as nat), C as nat, R as nat) == m@,
{
    Matrix::<T, R, C>::lemma_shape(m);
    let t = transpose_view(transpose_view(m@, R as nat, C as nat), C as nat, R as nat);
    assert forall|r: int| 0 <= r < R implies #[trigger] t[r] == m@[r] by {
        assert(t[r] =~= m@[r]);
    }
    assert(t =~= m@);
}

/// Matrix addition is commutative, and in range in one order exactly when it is in the other.
pub proof fn law_add_commutes<T: IntegerEntry, const R: usize, const C: usize>(
    a: Matrix<T, R, C>,
    b: Matrix<T, R, C>,
)
    ensures
        add_fits(a@, b@) == add_fits(b@, a@),
        sum_ints(int_rows(a@), int_rows(b@)) == sum_ints(int_rows(b@), int_rows(a@)),
{
    Matrix::<T, R, C>::lemma_shape(a);
    Matrix::<T, R, C>::lemma_shape(b);
    let x = sum_ints(int_rows(a@), int_rows(b@));
    let y = sum_ints(int_rows(b@), int_rows(a@));
    assert forall|r: int| 0 <= r < R implies #[trigger] x[r] == y[r] by {
        assert(x[r] =~= y[r]);
    }
    assert(x =~= y);
    if add_fits(a@, b@) {
        assert forall|r: int, c: int| 0 <= r < b@.len() && 0 <= c < b@[r].len() implies T::fits(
            #[trigger] b@[r][c].as_int() + a@[r][c].as_int(),
        ) by {
            assert(T::fits(a@[r][c].as_int() + b@[r][c].as_int()));
        }
    }
    if add_fits(b@, a@) {
        assert forall|r: int, c: int| 0 <= r < a@.len() && 0 <= c < a@[r].len() implies T::fits(
            #[trigger] a@[r][c].as_int() + b@[r][c].as_int(),
        ) by {
            assert(T::fits(b@[r][c].as_int() + a@[r][c].as_int()));
        }
    }
}

/// Subtracting `b` from `s = a + b` is in range and gives back `a`.
pub proof fn law_sub_undoes_add<T: IntegerEntry, const R: usize, const C: usize>(
    a: Matrix<T, R, C>,
    b: Matrix<T, R, C>,
    s: Matrix<T, R, C>,
)
    requires
        int_rows(s@) == sum_ints(int_rows(a@), int_rows(b@)),
    ensures
        sub_fits(s@, b@),
        difference_ints(int_rows(s@), int_rows(b@)) == int_rows(a@),
{
    Matrix::<T, R, C>::lemma_shape(a);
    Matrix::<T, R, C>::lemma_shape(b);
    Matrix::<T, R, C>::lemma_shape(s);
    assert forall|r: int, c: int| 0 <= r < s@.len() && 0 <= c < s@[r].len() implies T::fits(
        #[trigger] s@[r][c].as_int() - b@[r][c].as_int(),
    ) by {
        assert(int_rows(s@)[r][c] == s@[r][c].as_int());
        assert(sum_ints(int_rows(a@), int_rows(b@))[r][c] == a@[r][c].as_int() + b@[r][c].as_int());
        T::lemma_in_range(a@[r][c]);
    }
    let d = difference_ints(int_rows(s@), int_rows(b@));
    assert forall|r: int| 0 <= r < R implies #[trigger] d[r] == int_rows(a@)[r] by {
        assert(d[r] =~= int_rows(a@)[r]);
    }
    assert(d =~= int_rows(a@));
}

proof fn lemma_dot_prefix_transposed(
    a: Seq<Seq<int>>,
    b: Seq<Seq<int>>,
    m: nat,
    n: nat,
    p: nat,
    i: int,
    j: int,
    k: nat,
)
    requires
        is_shape(a, m, n),
        is_shape(b, n, p),
        0 <= i < m,
        0 <= j < p,
        k <= n,
    ensures
        dot_prefix(transpose_view(b, n, p), transpose_view(a, m, n), j, i, k) == dot_prefix(
            a,
            b,
            i,
            j,
            k,
        ),
    decreases k,
{
    if k > 0 {
        lemma_dot_prefix_transposed(a, b, m, n, p, i, j, (k - 1) as nat);
        let x = a[i][k - 1];
        let y = b[k - 1][j];
        assert(y * x == x * y) by (nonlinear_arith);
    }
}

proof fn lemma_int_rows_transpose<T: IntegerEntry>(m: Seq<Seq<T>>, rows: nat, cols: nat)
    requires
        is_shape(m, rows, cols),
    ensures
        int_rows(transpose_view(m, rows, cols)) == transpose_view(int_rows(m), rows, cols),
        is_shape(int_rows(m), rows, cols),
{
    let l = int_rows(transpose_view(m, rows, cols));
    let r = transpose_view(int_rows(m), rows, cols);
    assert forall|c: int| 0 <= c < cols implies #[trigger] l[c] == r[c] by {
        assert(l[c] =~= r[c]);
    }
    assert(l =~= r);
}

/// The transpose of a product is the product of the transposes in the other order,
/// and the one is in range whenever the other is.
pub proof fn law_transpose_of_product<T: IntegerEntry, const M: usize, const N: usize, const P: usize>(
    a: Matrix<T, M, N>,
    b: Matrix<T, N, P>,
)
    requires
        mul_fits(a@, b@, M as nat, N as nat, P as nat),
    ensures
        mul_fits(
            transpose_view(b@, N as nat, P as nat),
            transpose_view(a@, M as nat, N as nat),
            P as nat,
            N as nat,
            M as nat,
        ),
        transpose_view(
            product_ints(int_rows(a@), int_rows(b@), M as nat, N as nat, P as nat),
            M as nat,
            P as nat,
        ) == product_ints(
            transpose_view(int_rows(b@), N as nat, P as nat),
            transpose_view(int_rows(a@), M as nat, N as nat),
            P as nat,
            N as nat,
            M as nat,
        ),
{
    Matrix::<T, M, N>::lemma_shape(a);
    Matrix::<T, N, P>::lemma_shape(b);
    lemma_int_rows_transpose(a@, M as nat, N as nat);
    lemma_int_rows_transpose(b@, N as nat, P as nat);
    let ai = int_rows(a@);
    let bi = int_rows(b@);
    let bt = transpose_view(bi, N as nat, P as nat);
    let at = transpose_view(ai, M as nat, N as nat);
    let btv = transpose_view(b@, N as nat, P as nat);
    let atv = transpose_view(a@, M as nat, N as nat);
    assert forall|j: int, i: int, k: nat| 0 <= j < P && 0 <= i < M && k <= N implies dot_prefix(
        bt,
        at,
        j,
        i,
        k,
    ) == dot_prefix(ai, bi, i, j, k) by {
        lemma_dot_prefix_transposed(ai, bi, M as nat, N as nat, P as nat, i, j, k);
    }
    assert forall|j: int, i: int, k: int| 0 <= j < P && 0 <= i < M && 0 <= k < N implies T::fits(
        #[trigger] (btv[j][k].as_int() * atv[k][i].as_int()),
    ) by {
        let x = a@[i][k].as_int();
        let y = b@[k][j].as_int();
        assert(T::fits(a@[i][k].as_int() * b@[k][j].as_int()));
        assert(y * x == x * y) by (nonlinear_arith);
    }
    assert forall|j: int, i: int, k: nat| 0 <= j < P && 0 <= i < M && k <= N implies T::fits(
        #[trigger] dot_prefix(int_rows(btv), int_rows(atv), j, i, k),
    ) by {
        assert(T::fits(dot_prefix(ai, bi, i, j, k)));
    }
    let lhs = transpose_view(product_ints(ai, bi, M as nat, N as nat, P as nat), M as nat, P as nat);
    let rhs = product_ints(bt, at, P as nat, N as nat, M as nat);
    assert forall|j: int| 0 <= j < P implies #[trigger] lhs[j] == rhs[j] by {
        assert forall|i: int| 0 <= i < M implies #[trigger] lhs[j][i] == rhs[j][i] by {
            assert(dot_prefix(bt, at, j, i, N as nat) == dot_prefix(ai, bi, i, j, N as nat));
        }
        assert(lhs[j] =~= rhs[j]);
    }
    assert(lhs =~= rhs);
}

} // verus!
