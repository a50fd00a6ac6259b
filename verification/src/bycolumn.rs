use vstd::prelude::*;

use crate::iter::ColumnIter;
use crate::matrix::Matrix;
use crate::number::Number;
use crate::vector::{le_fn, Vector};

verus! {

/// The entries of column `cx`, in row order.
pub open spec fn col_seq<T: Number>(m: Matrix<T>, cx: int) -> Seq<T> {
    Seq::new(m.spec_y() as nat, |i: int| m.at(cx, i))
}

/// The first `k` steps of the column sum: a left fold of addition from zero
/// over the rows below `k`.
pub open spec fn col_sum_prefix<T: Number>(m: Matrix<T>, cx: int, k: int) -> T
    decreases k,
{
    if k <= 0 {
        T::zero_spec()
    } else {
        T::add_spec(col_sum_prefix(m, cx, k - 1), m.at(cx, k - 1))
    }
}

/// Whether every running sum of the column sum stays in range.
pub open spec fn col_sum_ok<T: Number>(m: Matrix<T>, cx: int, k: int) -> bool
    decreases k,
{
    k <= 0 || (col_sum_ok(m, cx, k - 1) && T::can_add(col_sum_prefix(m, cx, k - 1), m.at(cx, k - 1)))
}

/// The first `k` steps of the column product: a left fold of multiplication
/// from one over the rows below `k`.
pub open spec fn col_prod_prefix<T: Number>(m: Matrix<T>, cx: int, k: int) -> T
    decreases k,
{
    if k <= 0 {
        T::one_spec()
    } else {
        T::mul_spec(col_prod_prefix(m, cx, k - 1), m.at(cx, k - 1))
    }
}

/// Whether every running product of the column product stays in range.
pub open spec fn col_prod_ok<T: Number>(m: Matrix<T>, cx: int, k: int) -> bool
    decreases k,
{
    k <= 0 || (col_prod_ok(m, cx, k - 1) && T::can_mul(col_prod_prefix(m, cx, k - 1), m.at(cx, k - 1)))
}

/// An in-range fold stays in range at every earlier step.
proof fn lemma_col_sum_ok_le<T: Number>(m: Matrix<T>, cx: int, j: int, k: int)
    requires
        col_sum_ok(m, cx, k),
        j <= k,
    ensures
        col_sum_ok(m, cx, j),
    decreases k - j,
{
    if j < k {
        lemma_col_sum_ok_le(m, cx, j, k - 1);
    }
}

/// An in-range fold stays in range at every earlier step.
proof fn lemma_col_prod_ok_le<T: Number>(m: Matrix<T>, cx: int, j: int, k: int)
    requires
        col_prod_ok(m, cx, k),
        j <= k,
    ensures
        col_prod_ok(m, cx, j),
    decreases k - j,
{
    if j < k {
        lemma_col_prod_ok_le(m, cx, j, k - 1);
    }
}

/// The median of a nonempty run of scalars under the scalar order: sort it;
/// with an odd count take the middle element, with an even count average the
/// two middle elements, dividing by one plus one.
pub open spec fn median_spec<T: Number>(s: Seq<T>) -> T {
    let sorted = s.sort_by(le_fn::<T>());
    if s.len() % 2 == 1 {
        sorted[s.len() as int / 2]
    } else {
        T::div_spec(
            T::add_spec(sorted[s.len() as int / 2 - 1], sorted[s.len() as int / 2]),
            T::add_spec(T::one_spec(), T::one_spec()),
        )
    }
}

/// Whether the even-count average of the two middle elements stays in range
/// and divides cleanly: there is something to take the median of, and, with
/// an even count, the middle sum, the two, and their quotient are all
/// defined.
pub open spec fn median_ok<T: Number>(s: Seq<T>) -> bool {
    let sorted = s.sort_by(le_fn::<T>());
    s.len() > 0 && (s.len() % 2 == 0 ==> {
        &&& T::can_add(sorted[s.len() as int / 2 - 1], sorted[s.len() as int / 2])
        &&& T::can_add(T::one_spec(), T::one_spec())
        &&& T::can_div(
            T::add_spec(sorted[s.len() as int / 2 - 1], sorted[s.len() as int / 2]),
            T::add_spec(T::one_spec(), T::one_spec()),
        )
    })
}

/// The column-wise median: entry `cx` of the result is the median of column
/// `cx`, under the odd/even rule of `median_spec`.
pub fn mean_by_column<T: Number>(m: &Matrix<T>) -> (r: Vector<T>)
    requires
        m.wf(),
        m.spec_y() >= 1,
        forall|cx: int| 0 <= cx < m.spec_x() ==> median_ok(#[trigger] col_seq(*m, cx)),
    ensures
        r@.len() == m.spec_x(),
        forall|cx: int| 0 <= cx < m.spec_x() ==> #[trigger] r@[cx] == median_spec(col_seq(*m, cx)),
{
    let x = m.x();
    let y = m.y();
    let mut data: Vec<T> = Vec::new();
    let mut cx: usize = 0;
    while cx < x
        invariant
            cx <= x,
            x == m.spec_x(),
            y == m.spec_y(),
            m.wf(),
            m.spec_y() >= 1,
            forall|a: int| 0 <= a < m.spec_x() ==> median_ok(#[trigger] col_seq(*m, a)),
            data@.len() == cx,
            forall|a: int| 0 <= a < cx ==> #[trigger] data@[a] == median_spec(col_seq(*m, a)),
        decreases x - cx,
    {
        let mut col = m.column(cx);
        proof {
            assert(col@ =~= col_seq(*m, cx as int));
        }
        col.sort();
        let v = if y % 2 == 1 {
            col.index(y / 2)
        } else {
            let a = col.index(y / 2 - 1);
            let b = col.index(y / 2);
            T::div(T::add(a, b), T::add(T::one(), T::one()))
        };
        data.push(v);
        cx += 1;
    }
    Vector::new(data)
}

/// Whether `out` can be the result of folding `f` over column `cx`, row by
/// row from `init`: some run of accumulator values starts at `init`, steps
/// through `f` on each row's entry in order, and ends at `out`.
pub open spec fn fold_chain<T: Number, B: Number, F: Fn(B, T) -> B>(
    f: F,
    init: B,
    m: Matrix<T>,
    cx: int,
    out: B,
) -> bool {
    exists|acc: Seq<B>|
        acc.len() == m.spec_y() + 1 && acc[0] == init && acc[m.spec_y() as int] == out && forall|
            j: int,
        |
            0 <= j < m.spec_y() ==> call_ensures(f, (#[trigger] acc[j], m.at(cx, j)), acc[j + 1])
}

/// Folds `f` over every column independently: entry `cx` of the result
/// closes a chain of `f`-steps through column `cx`, row by row from `init`.
pub fn fold_by_column<T: Number, B: Number, F: Fn(B, T) -> B>(m: &Matrix<T>, init: B, f: &F) -> (r:
    Vector<B>)
    requires
        m.wf(),
        forall|b: B, t: T| #[trigger] call_requires(*f, (b, t)),
    ensures
        r@.len() == m.spec_x(),
        forall|cx: int| 0 <= cx < m.spec_x() ==> fold_chain(*f, init, *m, cx, #[trigger] r@[cx]),
{
    let x = m.x();
    let y = m.y();
    let mut data: Vec<B> = Vec::new();
    let mut cx: usize = 0;
    while cx < x
        invariant
            cx <= x,
            x == m.spec_x(),
            y == m.spec_y(),
            m.wf(),
            forall|b: B, t: T| #[trigger] call_requires(*f, (b, t)),
            data@.len() == cx,
            forall|a: int| 0 <= a < cx ==> fold_chain(*f, init, *m, a, #[trigger] data@[a]),
        decreases x - cx,
    {
        let mut acc = init;
        let ghost mut tr: Seq<B> = seq![init];
        let mut cy: usize = 0;
        while cy < y
            invariant
                cy <= y,
                cx < x,
                x == m.spec_x(),
                y == m.spec_y(),
                m.wf(),
                forall|b: B, t: T| #[trigger] call_requires(*f, (b, t)),
                tr.len() == cy + 1,
                tr[0] == init,
                tr[cy as int] == acc,
                forall|j: int|
                    0 <= j < cy ==> call_ensures(*f, (#[trigger] tr[j], m.at(cx as int, j)), tr[j + 1]),
            decreases y - cy,
        {
            acc = f(acc, m.index(cx, cy));
            proof {
                tr = tr.push(acc);
            }
            cy += 1;
        }
        data.push(acc);
        proof {
            assert(fold_chain(*f, init, *m, cx as int, acc)) by {
                assert(tr.len() == m.spec_y() + 1 && tr[0] == init && tr[m.spec_y() as int] == acc
                    && forall|j: int|
                    0 <= j < m.spec_y() ==> call_ensures(
                        *f,
                        (#[trigger] tr[j], m.at(cx as int, j)),
                        tr[j + 1],
                    ));
            }
        }
        cx += 1;
    }
    Vector::new(data)
}

/// The column-wise sum: entry `cx` of the result is the sum of column `cx`,
/// folded row by row from zero.
pub fn sum_by_column<T: Number>(m: &Matrix<T>) -> (r: Vector<T>)
    requires
        m.wf(),
        forall|cx: int| 0 <= cx < m.spec_x() ==> col_sum_ok(*m, cx, m.spec_y() as int),
    ensures
        r@.len() == m.spec_x(),
        forall|cx: int|
            0 <= cx < m.spec_x() ==> #[trigger] r@[cx] == col_sum_prefix(*m, cx, m.spec_y() as int),
{
    let x = m.x();
    let y = m.y();
    let mut data: Vec<T> = Vec::new();
    let mut cx: usize = 0;
    while cx < x
        invariant
            cx <= x,
            x == m.spec_x(),
            y == m.spec_y(),
            m.wf(),
            forall|a: int| 0 <= a < m.spec_x() ==> col_sum_ok(*m, a, m.spec_y() as int),
            data@.len() == cx,
            forall|a: int| 0 <= a < cx ==> #[trigger] data@[a] == col_sum_prefix(*m, a, y as int),
        decreases x - cx,
    {
        let mut acc = T::zero();
        let mut cy: usize = 0;
        while cy < y
            invariant
                cy <= y,
                cx < x,
                x == m.spec_x(),
                y == m.spec_y(),
                m.wf(),
                col_sum_ok(*m, cx as int, y as int),
                acc == col_sum_prefix(*m, cx as int, cy as int),
            decreases y - cy,
        {
            proof {
                lemma_col_sum_ok_le(*m, cx as int, cy + 1, y as int);
            }
            acc = T::add(acc, m.index(cx, cy));
            cy += 1;
        }
        data.push(acc);
        cx += 1;
    }
    Vector::new(data)
}

/// The column-wise product: entry `cx` of the result is the product of
/// column `cx`, folded row by row from one.
pub fn product_by_column<T: Number>(m: &Matrix<T>) -> (r: Vector<T>)
    requires
        m.wf(),
        forall|cx: int| 0 <= cx < m.spec_x() ==> col_prod_ok(*m, cx, m.spec_y() as int),
    ensures
        r@.len() == m.spec_x(),
        forall|cx: int|
            0 <= cx < m.spec_x() ==> #[trigger] r@[cx] == col_prod_prefix(*m, cx, m.spec_y() as int),
{
    let x = m.x();
    let y = m.y();
    let mut data: Vec<T> = Vec::new();
    let mut cx: usize = 0;
    while cx < x
        invariant
            cx <= x,
            x == m.spec_x(),
            y == m.spec_y(),
            m.wf(),
            forall|a: int| 0 <= a < m.spec_x() ==> col_prod_ok(*m, a, m.spec_y() as int),
            data@.len() == cx,
            forall|a: int| 0 <= a < cx ==> #[trigger] data@[a] == col_prod_prefix(*m, a, y as int),
        decreases x - cx,
    {
        let mut acc = T::one();
        let mut cy: usize = 0;
        while cy < y
            invariant
                cy <= y,
                cx < x,
                x == m.spec_x(),
                y == m.spec_y(),
                m.wf(),
                col_prod_ok(*m, cx as int, y as int),
                acc == col_prod_prefix(*m, cx as int, cy as int),
            decreases y - cy,
        {
            proof {
                lemma_col_prod_ok_le(*m, cx as int, cy + 1, y as int);
            }
            acc = T::mul(acc, m.index(cx, cy));
            cy += 1;
        }
        data.push(acc);
        cx += 1;
    }
    Vector::new(data)
}

/// The column-wise arithmetic average: the column sum divided by the row
/// count.
pub fn avg_by_column<T: Number>(m: &Matrix<T>) -> (r: Vector<T>)
    requires
        m.wf(),
        forall|cx: int| 0 <= cx < m.spec_x() ==> col_sum_ok(*m, cx, m.spec_y() as int),
        T::can_from_usize(m.spec_y()),
        forall|cx: int|
            0 <= cx < m.spec_x() ==> T::can_div(
                #[trigger] col_sum_prefix(*m, cx, m.spec_y() as int),
                T::from_usize_spec(m.spec_y()),
            ),
    ensures
        r@.len() == m.spec_x(),
        forall|cx: int|
            0 <= cx < m.spec_x() ==> #[trigger] r@[cx] == T::div_spec(
                col_sum_prefix(*m, cx, m.spec_y() as int),
                T::from_usize_spec(m.spec_y()),
            ),
{
    let mut r = sum_by_column(m);
    let d = T::from_usize(m.y());
    r.div_assign_scalar(d);
    r
}

/// A matrix taken by value, its later arithmetic and aggregation read
/// column-wise.
pub struct IntoByColumn<T: Number> {
    pub matrix: Matrix<T>,
}

impl<T: Number> IntoByColumn<T> {
    /// Wraps a matrix for column-wise reading.
    pub fn new(matrix: Matrix<T>) -> (r: Self)
        ensures
            r.matrix == matrix,
    {
        IntoByColumn { matrix }
    }

    /// A walk over the columns.
    pub fn iter_vectors(&self) -> (r: ColumnIter<'_, T>)
        requires
            self.matrix.wf(),
        ensures
            r.wf(),
            r.src() == self.matrix,
            r.pos() == 0,
    {
        self.matrix.columns()
    }

    /// Maps every element while turning columns into rows: entry `(cy, cx)`
    /// of the result is an output of `f` on entry `(cx, cy)`.
    pub fn map<U: Number, F: Fn(T) -> U>(&self, f: &F) -> (r: Matrix<U>)
        requires
            self.matrix.wf(),
            forall|i: int| 0 <= i < self.matrix@.len() ==> call_requires(*f, (self.matrix@[i],)),
        ensures
            r.wf(),
            r.spec_x() == self.matrix.spec_y(),
            r.spec_y() == self.matrix.spec_x(),
            forall|cx: int, cy: int|
                self.matrix.in_bounds(cx, cy) ==> call_ensures(
                    *f,
                    (self.matrix.at(cx, cy),),
                    #[trigger] r.at(cy, cx),
                ),
    {
        self.matrix.transpose_map(f)
    }

    /// The columns laid out as rows: the transpose.
    pub fn to_matrix(&self) -> (r: Matrix<T>)
        requires
            self.matrix.wf(),
        ensures
            r.wf(),
            r.spec_x() == self.matrix.spec_y(),
            r.spec_y() == self.matrix.spec_x(),
            forall|cx: int, cy: int|
                self.matrix.in_bounds(cx, cy) ==> #[trigger] r.at(cy, cx) == self.matrix.at(cx, cy),
    {
        self.matrix.transpose()
    }

    /// Folds `f` over every column; see `fold_by_column`.
    pub fn fold<B: Number, F: Fn(B, T) -> B>(&self, init: B, f: &F) -> (r: Vector<B>)
        requires
            self.matrix.wf(),
            forall|b: B, t: T| #[trigger] call_requires(*f, (b, t)),
        ensures
            r@.len() == self.matrix.spec_x(),
            forall|cx: int|
                0 <= cx < self.matrix.spec_x() ==> fold_chain(
                    *f,
                    init,
                    self.matrix,
                    cx,
                    #[trigger] r@[cx],
                ),
    {
        fold_by_column(&self.matrix, init, f)
    }

    /// Sums every column; see `sum_by_column`.
    pub fn sum(&self) -> (r: Vector<T>)
        requires
            self.matrix.wf(),
            forall|cx: int|
                0 <= cx < self.matrix.spec_x() ==> col_sum_ok(
                    self.matrix,
                    cx,
                    self.matrix.spec_y() as int,
                ),
        ensures
            r@.len() == self.matrix.spec_x(),
            forall|cx: int|
                0 <= cx < self.matrix.spec_x() ==> #[trigger] r@[cx] == col_sum_prefix(
                    self.matrix,
                    cx,
                    self.matrix.spec_y() as int,
                ),
    {
        sum_by_column(&self.matrix)
    }

    /// Multiplies every column out; see `product_by_column`.
    pub fn product(&self) -> (r: Vector<T>)
        requires
            self.matrix.wf(),
            forall|cx: int|
                0 <= cx < self.matrix.spec_x() ==> col_prod_ok(
                    self.matrix,
                    cx,
                    self.matrix.spec_y() as int,
                ),
        ensures
            r@.len() == self.matrix.spec_x(),
            forall|cx: int|
                0 <= cx < self.matrix.spec_x() ==> #[trigger] r@[cx] == col_prod_prefix(
                    self.matrix,
                    cx,
                    self.matrix.spec_y() as int,
                ),
    {
        product_by_column(&self.matrix)
    }

    /// Averages every column; see `avg_by_column`.
    pub fn avg(&self) -> (r: Vector<T>)
        requires
            self.matrix.wf(),
            forall|cx: int|
                0 <= cx < self.matrix.spec_x() ==> col_sum_ok(
                    self.matrix,
                    cx,
                    self.matrix.spec_y() as int,
                ),
            T::can_from_usize(self.matrix.spec_y()),
            forall|cx: int|
                0 <= cx < self.matrix.spec_x() ==> T::can_div(
                    #[trigger] col_sum_prefix(self.matrix, cx, self.matrix.spec_y() as int),
                    T::from_usize_spec(self.matrix.spec_y()),
                ),
        ensures
            r@.len() == self.matrix.spec_x(),
            forall|cx: int|
                0 <= cx < self.matrix.spec_x() ==> #[trigger] r@[cx] == T::div_spec(
                    col_sum_prefix(self.matrix, cx, self.matrix.spec_y() as int),
                    T::from_usize_spec(self.matrix.spec_y()),
                ),
    {
        avg_by_column(&self.matrix)
    }

    /// Takes the median of every column; see `mean_by_column`.
    pub fn mean(&self) -> (r: Vector<T>)
        requires
            self.matrix.wf(),
            self.matrix.spec_y() >= 1,
            forall|cx: int|
                0 <= cx < self.matrix.spec_x() ==> median_ok(#[trigger] col_seq(self.matrix, cx)),
        ensures
            r@.len() == self.matrix.spec_x(),
            forall|cx: int|
                0 <= cx < self.matrix.spec_x() ==> #[trigger] r@[cx] == median_spec(
                    col_seq(self.matrix, cx),
                ),
    {
        mean_by_column(&self.matrix)
    }

    /// Bounds-checked element access with the coordinate roles swapped:
    /// `(a, b)` here reads entry `(b, a)` of the matrix.
    pub fn get(&self, a: usize, b: usize) -> (r: Option<&T>)
        requires
            self.matrix.wf(),
        ensures
            r.is_some() <==> self.matrix.in_bounds(b as int, a as int),
            r.is_some() ==> *r.unwrap() == self.matrix.at(b as int, a as int),
    {
        self.matrix.get(b, a)
    }
}

/// A borrowed matrix, its later arithmetic and aggregation read column-wise.
pub struct ByColumn<'a, T: Number> {
    pub matrix: &'a Matrix<T>,
}

impl<'a, T: Number> ByColumn<'a, T> {
    /// Wraps a borrowed matrix for column-wise reading.
    pub fn new(matrix: &'a Matrix<T>) -> (r: Self)
        ensures
            r.matrix == matrix,
    {
        ByColumn { matrix }
    }

    /// A walk over the columns.
    pub fn iter_vectors(&self) -> (r: ColumnIter<'_, T>)
        requires
            self.matrix.wf(),
        ensures
            r.wf(),
            r.src() == *self.matrix,
            r.pos() == 0,
    {
        self.matrix.columns()
    }

    /// Maps every element while turning columns into rows: entry `(cy, cx)`
    /// of the result is an output of `f` on entry `(cx, cy)`.
    pub fn map<U: Number, F: Fn(T) -> U>(&self, f: &F) -> (r: Matrix<U>)
        requires
            self.matrix.wf(),
            forall|i: int| 0 <= i < self.matrix@.len() ==> call_requires(*f, (self.matrix@[i],)),
        ensures
            r.wf(),
            r.spec_x() == self.matrix.spec_y(),
            r.spec_y() == self.matrix.spec_x(),
            forall|cx: int, cy: int|
                self.matrix.in_bounds(cx, cy) ==> call_ensures(
                    *f,
                    (self.matrix.at(cx, cy),),
                    #[trigger] r.at(cy, cx),
                ),
    {
        self.matrix.transpose_map(f)
    }

    /// The columns laid out as rows: the transpose.
    pub fn to_matrix(&self) -> (r: Matrix<T>)
        requires
            self.matrix.wf(),
        ensures
            r.wf(),
            r.spec_x() == self.matrix.spec_y(),
            r.spec_y() == self.matrix.spec_x(),
            forall|cx: int, cy: int|
                self.matrix.in_bounds(cx, cy) ==> #[trigger] r.at(cy, cx) == self.matrix.at(cx, cy),
    {
        self.matrix.transpose()
    }

    /// Folds `f` over every column; see `fold_by_column`.
    pub fn fold<B: Number, F: Fn(B, T) -> B>(&self, init: B, f: &F) -> (r: Vector<B>)
        requires
            self.matrix.wf(),
            forall|b: B, t: T| #[trigger] call_requires(*f, (b, t)),
        ensures
            r@.len() == self.matrix.spec_x(),
            forall|cx: int|
                0 <= cx < self.matrix.spec_x() ==> fold_chain(
                    *f,
                    init,
                    *self.matrix,
                    cx,
                    #[trigger] r@[cx],
                ),
    {
        fold_by_column(self.matrix, init, f)
    }

    /// Sums every column; see `sum_by_column`.
    pub fn sum(&self) -> (r: Vector<T>)
        requires
            self.matrix.wf(),
            forall|cx: int|
                0 <= cx < self.matrix.spec_x() ==> col_sum_ok(
                    *self.matrix,
                    cx,
                    self.matrix.spec_y() as int,
                ),
        ensures
            r@.len() == self.matrix.spec_x(),
            forall|cx: int|
                0 <= cx < self.matrix.spec_x() ==> #[trigger] r@[cx] == col_sum_prefix(
                    *self.matrix,
                    cx,
                    self.matrix.spec_y() as int,
                ),
    {
        sum_by_column(self.matrix)
    }

    /// Multiplies every column out; see `product_by_column`.
    pub fn product(&self) -> (r: Vector<T>)
        requires
            self.matrix.wf(),
            forall|cx: int|
                0 <= cx < self.matrix.spec_x() ==> col_prod_ok(
                    *self.matrix,
                    cx,
                    self.matrix.spec_y() as int,
                ),
        ensures
            r@.len() == self.matrix.spec_x(),
            forall|cx: int|
                0 <= cx < self.matrix.spec_x() ==> #[trigger] r@[cx] == col_prod_prefix(
                    *self.matrix,
                    cx,
                    self.matrix.spec_y() as int,
                ),
    {
        product_by_column(self.matrix)
    }

    /// Averages every column; see `avg_by_column`.
    pub fn avg(&self) -> (r: Vector<T>)
        requires
            self.matrix.wf(),
            forall|cx: int|
                0 <= cx < self.matrix.spec_x() ==> col_sum_ok(
                    *self.matrix,
                    cx,
                    self.matrix.spec_y() as int,
                ),
            T::can_from_usize(self.matrix.spec_y()),
            forall|cx: int|
                0 <= cx < self.matrix.spec_x() ==> T::can_div(
                    #[trigger] col_sum_prefix(*self.matrix, cx, self.matrix.spec_y() as int),
                    T::from_usize_spec(self.matrix.spec_y()),
                ),
        ensures
            r@.len() == self.matrix.spec_x(),
            forall|cx: int|
                0 <= cx < self.matrix.spec_x() ==> #[trigger] r@[cx] == T::div_spec(
                    col_sum_prefix(*self.matrix, cx, self.matrix.spec_y() as int),
                    T::from_usize_spec(self.matrix.spec_y()),
                ),
    {
        avg_by_column(self.matrix)
    }

    /// Takes the median of every column; see `mean_by_column`.
    pub fn mean(&self) -> (r: Vector<T>)
        requires
            self.matrix.wf(),
            self.matrix.spec_y() >= 1,
            forall|cx: int|
                0 <= cx < self.matrix.spec_x() ==> median_ok(#[trigger] col_seq(*self.matrix, cx)),
        ensures
            r@.len() == self.matrix.spec_x(),
            forall|cx: int|
                0 <= cx < self.matrix.spec_x() ==> #[trigger] r@[cx] == median_spec(
                    col_seq(*self.matrix, cx),
                ),
    {
        mean_by_column(self.matrix)
    }

    /// Bounds-checked element access with the coordinate roles swapped:
    /// `(a, b)` here reads entry `(b, a)` of the matrix.
    pub fn get(&self, a: usize, b: usize) -> (r: Option<&T>)
        requires
            self.matrix.wf(),
        ensures
            r.is_some() <==> self.matrix.in_bounds(b as int, a as int),
            r.is_some() ==> *r.unwrap() == self.matrix.at(b as int, a as int),
    {
        self.matrix.get(b, a)
    }
}

impl<T: Number> IntoByColumn<T> {
    /// Direct mutable element access with the coordinate roles swapped:
    /// `(a, b)` here reaches entry `(b, a)` of the matrix.
    pub fn get_mut(&mut self, a: usize, b: usize) -> (r: &mut T)
        requires
            old(self).matrix.wf(),
            old(self).matrix.in_bounds(b as int, a as int),
        ensures
            *r == old(self).matrix.at(b as int, a as int),
            final(self).matrix@ == old(self).matrix@.update(
                a * old(self).matrix.spec_x() + b,
                *final(r),
            ),
            final(self).matrix.spec_x() == old(self).matrix.spec_x(),
            final(self).matrix.spec_y() == old(self).matrix.spec_y(),
    {
        self.matrix.get_mut(b, a)
    }
}

impl<T: Number, RX: crate::range::RangeIter, RY: crate::range::RangeIter> crate::ops::Slice<
    (RY, RX),
> for IntoByColumn<T> {
    type Output = Matrix<T>;

    /// The ranges arrive column-range first and are handed to the matrix
    /// swapped back.
    open spec fn slice_req(&self, index: (RY, RX)) -> bool {
        self.matrix.slice_req((index.1, index.0))
    }

    open spec fn slice_post(&self, index: (RY, RX), r: Matrix<T>) -> bool {
        self.matrix.slice_post((index.1, index.0), r)
    }

    fn slice(&self, index: (RY, RX)) -> (r: Matrix<T>) {
        self.matrix.slice((index.1, index.0))
    }
}

impl<'a, T: Number, RX: crate::range::RangeIter, RY: crate::range::RangeIter> crate::ops::Slice<
    (RY, RX),
> for ByColumn<'a, T> {
    type Output = Matrix<T>;

    /// The ranges arrive column-range first and are handed to the matrix
    /// swapped back.
    open spec fn slice_req(&self, index: (RY, RX)) -> bool {
        self.matrix.slice_req((index.1, index.0))
    }

    open spec fn slice_post(&self, index: (RY, RX), r: Matrix<T>) -> bool {
        self.matrix.slice_post((index.1, index.0), r)
    }

    fn slice(&self, index: (RY, RX)) -> (r: Matrix<T>) {
        self.matrix.slice((index.1, index.0))
    }
}

/// Whether every coordinate of a view's list, read with the roles swapped,
/// lies inside the matrix shape.
pub open spec fn swapped_coords_req<T: Number>(m: Matrix<T>, index: Vec<(usize, usize)>) -> bool {
    &&& m.wf()
    &&& forall|i: int|
        0 <= i < index@.len() ==> m.in_bounds((#[trigger] index@[i]).1 as int, index@[i].0 as int)
}

/// What a view's coordinate-list gather holds: element `i` is the matrix
/// entry at the `i`-th listed coordinate, roles swapped.
pub open spec fn swapped_coords_post<T: Number>(
    m: Matrix<T>,
    index: Vec<(usize, usize)>,
    r: Vector<T>,
) -> bool {
    &&& r@.len() == index@.len()
    &&& forall|i: int|
        0 <= i < index@.len() ==> #[trigger] r@[i] == m.at(index@[i].1 as int, index@[i].0 as int)
}

/// Gathers the listed coordinates of a matrix with the roles swapped, in
/// list order.
fn slice_swapped_coords<T: Number>(m: &Matrix<T>, index: &Vec<(usize, usize)>) -> (r: Vector<T>)
    requires
        swapped_coords_req(*m, *index),
    ensures
        swapped_coords_post(*m, *index, r),
{
    let n = index.len();
    let mut data: Vec<T> = Vec::new();
    let mut k: usize = 0;
    while k < n
        invariant
            k <= n,
            n == index@.len(),
            swapped_coords_req(*m, *index),
            data@.len() == k,
            forall|i: int|
                0 <= i < k ==> #[trigger] data@[i] == m.at(index@[i].1 as int, index@[i].0 as int),
        decreases n - k,
    {
        let (a, b) = index[k];
        data.push(m.index(b, a));
        k += 1;
    }
    Vector::new(data)
}

impl<T: Number> crate::ops::Slice<Vec<(usize, usize)>> for IntoByColumn<T> {
    type Output = Vector<T>;

    /// Every listed coordinate, roles swapped, lies inside the shape.
    open spec fn slice_req(&self, index: Vec<(usize, usize)>) -> bool {
        swapped_coords_req(self.matrix, index)
    }

    /// Element `i` of the result is the matrix entry at the `i`-th listed
    /// coordinate, roles swapped, in list order.
    open spec fn slice_post(&self, index: Vec<(usize, usize)>, r: Vector<T>) -> bool {
        swapped_coords_post(self.matrix, index, r)
    }

    fn slice(&self, index: Vec<(usize, usize)>) -> (r: Vector<T>) {
        slice_swapped_coords(&self.matrix, &index)
    }
}

impl<'a, T: Number> crate::ops::Slice<Vec<(usize, usize)>> for ByColumn<'a, T> {
    type Output = Vector<T>;

    /// Every listed coordinate, roles swapped, lies inside the shape.
    open spec fn slice_req(&self, index: Vec<(usize, usize)>) -> bool {
        swapped_coords_req(*self.matrix, index)
    }

    /// Element `i` of the result is the matrix entry at the `i`-th listed
    /// coordinate, roles swapped, in list order.
    open spec fn slice_post(&self, index: Vec<(usize, usize)>, r: Vector<T>) -> bool {
        swapped_coords_post(*self.matrix, index, r)
    }

    fn slice(&self, index: Vec<(usize, usize)>) -> (r: Vector<T>) {
        slice_swapped_coords(self.matrix, &index)
    }
}

/// Whether every coordinate of a view's nested list, read with the roles
/// swapped, lies inside the matrix shape, the rows of the list all of one
/// length.
pub open spec fn swapped_nested_req<T: Number>(
    m: Matrix<T>,
    index: Vec<Vec<(usize, usize)>>,
) -> bool {
    &&& m.wf()
    &&& forall|i: int| 0 <= i < index@.len() ==> (#[trigger] index@[i])@.len() == index@[0]@.len()
    &&& forall|i: int, j: int|
        0 <= i < index@.len() && 0 <= j < index@[i]@.len() ==> m.in_bounds(
            (#[trigger] index@[i]@[j]).1 as int,
            index@[i]@[j].0 as int,
        )
}

/// What a view's nested gather holds: entry `(a, b)` is the matrix entry at
/// coordinate `b`, `a` of the nested list, roles swapped.
pub open spec fn swapped_nested_post<T: Number>(
    m: Matrix<T>,
    index: Vec<Vec<(usize, usize)>>,
    r: Matrix<T>,
) -> bool {
    &&& r.wf()
    &&& r.spec_y() == index@.len()
    &&& r.spec_x() == (if index@.len() == 0 { 0int } else { index@[0]@.len() as int })
    &&& forall|a: int, b: int|
        0 <= b < index@.len() && 0 <= a < index@[0]@.len() ==> #[trigger] r.at(a, b) == m.at(
            index@[b]@[a].1 as int,
            index@[b]@[a].0 as int,
        )
}

/// Gathers a nested coordinate list of a matrix with the roles swapped, row
/// by row in list order.
fn slice_swapped_nested<T: Number>(m: &Matrix<T>, index: &Vec<Vec<(usize, usize)>>) -> (r: Matrix<
    T,
>)
    requires
        swapped_nested_req(*m, *index),
    ensures
        swapped_nested_post(*m, *index, r),
{
    let ny = index.len();
    let mut rows: Vec<Vector<T>> = Vec::new();
    let mut b: usize = 0;
    while b < ny
        invariant
            b <= ny,
            ny == index@.len(),
            swapped_nested_req(*m, *index),
            rows@.len() == b,
            forall|pb: int|
                0 <= pb < b ==> {
                    let v = #[trigger] rows@[pb];
                    v@.len() == index@[0]@.len() && forall|pa: int|
                        0 <= pa < index@[0]@.len() ==> v@[pa] == m.at(
                            index@[pb]@[pa].1 as int,
                            index@[pb]@[pa].0 as int,
                        )
                },
        decreases ny - b,
    {
        let row = slice_swapped_coords(m, &index[b]);
        rows.push(row);
        b += 1;
    }
    let r = Matrix::from_vectors(&rows);
    proof {
        if ny > 0 {
            assert(rows@[0]@.len() == index@[0]@.len());
        }
    }
    r
}

impl<T: Number> crate::ops::Slice<Vec<Vec<(usize, usize)>>> for IntoByColumn<T> {
    type Output = Matrix<T>;

    /// The coordinate rows all have one length; every coordinate, roles
    /// swapped, lies inside the shape.
    open spec fn slice_req(&self, index: Vec<Vec<(usize, usize)>>) -> bool {
        swapped_nested_req(self.matrix, index)
    }

    /// Entry `(a, b)` of the result is the matrix entry at coordinate `b`,
    /// `a` of the nested list, roles swapped.
    open spec fn slice_post(&self, index: Vec<Vec<(usize, usize)>>, r: Matrix<T>) -> bool {
        swapped_nested_post(self.matrix, index, r)
    }

    fn slice(&self, index: Vec<Vec<(usize, usize)>>) -> (r: Matrix<T>) {
        slice_swapped_nested(&self.matrix, &index)
    }
}

impl<'a, T: Number> crate::ops::Slice<Vec<Vec<(usize, usize)>>> for ByColumn<'a, T> {
    type Output = Matrix<T>;

    /// The coordinate rows all have one length; every coordinate, roles
    /// swapped, lies inside the shape.
    open spec fn slice_req(&self, index: Vec<Vec<(usize, usize)>>) -> bool {
        swapped_nested_req(*self.matrix, index)
    }

    /// Entry `(a, b)` of the result is the matrix entry at coordinate `b`,
    /// `a` of the nested list, roles swapped.
    open spec fn slice_post(&self, index: Vec<Vec<(usize, usize)>>, r: Matrix<T>) -> bool {
        swapped_nested_post(*self.matrix, index, r)
    }

    fn slice(&self, index: Vec<Vec<(usize, usize)>>) -> (r: Matrix<T>) {
        slice_swapped_nested(self.matrix, &index)
    }
}

impl<T: Number> Matrix<T> {
    /// This matrix taken by value, read column-wise from here on.
    pub fn into_by_column(self) -> (r: IntoByColumn<T>)
        ensures
            r.matrix == self,
    {
        IntoByColumn::new(self)
    }

    /// This matrix borrowed, read column-wise from here on.
    pub fn by_column(&self) -> (r: ByColumn<'_, T>)
        ensures
            r.matrix == self,
    {
        ByColumn::new(self)
    }
}

} // verus!
