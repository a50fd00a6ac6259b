use vstd::prelude::*;

use crate::number::Number;
use crate::ops::Slice;
use crate::range::{Range, RangeIter};
use crate::vector::Vector;

verus! {

/// A matrix of `x` columns and `y` rows stored as one contiguous buffer in
/// row-major order: the element at column `cx` and row `cy` lives at flat
/// offset `cy * x + cx`. That addressing rule is stated once, in `at`, and
/// every contract of every operation goes through it. The view of a `Matrix`
/// is the flat sequence of its buffer.
#[derive(Debug)]
pub struct Matrix<T: Number> {
    x: usize,
    y: usize,
    data: Vec<T>,
}

impl<T: Number> View for Matrix<T> {
    type V = Seq<T>;

    closed spec fn view(&self) -> Seq<T> {
        self.data@
    }
}

/// A row-major offset stays below the buffer length.
pub proof fn lemma_offset_bound(x_dim: int, y_dim: int, cx: int, cy: int)
    requires
        0 <= cx < x_dim,
        0 <= cy < y_dim,
    ensures
        0 <= cy * x_dim + cx < x_dim * y_dim,
        cy * x_dim <= (y_dim - 1) * x_dim,
{
    assert(cy * x_dim + cx < x_dim * y_dim && cy * x_dim <= (y_dim - 1) * x_dim)
        by (nonlinear_arith)
        requires
            0 <= cx < x_dim,
            0 <= cy < y_dim,
    ;
}

impl<T: Number> Matrix<T> {
    /// The number of columns.
    pub closed spec fn spec_x(&self) -> usize {
        self.x
    }

    /// The number of rows.
    pub closed spec fn spec_y(&self) -> usize {
        self.y
    }

    #[verifier::when_used_as_spec(spec_x)]
    pub fn x(&self) -> (r: usize)
        ensures
            r == self.spec_x(),
    {
        self.x
    }

    #[verifier::when_used_as_spec(spec_y)]
    pub fn y(&self) -> (r: usize)
        ensures
            r == self.spec_y(),
    {
        self.y
    }

    /// The one invariant of the representation: the buffer holds exactly
    /// `x * y` elements.
    pub open spec fn wf(&self) -> bool {
        self@.len() == self.spec_x() * self.spec_y()
    }

    /// The element at column `cx` and row `cy`, read from the buffer through
    /// the row-major addressing rule.
    pub open spec fn at(&self, cx: int, cy: int) -> T {
        self@[cy * self.spec_x() + cx]
    }

    /// Whether `(cx, cy)` lies inside the shape.
    pub open spec fn in_bounds(&self, cx: int, cy: int) -> bool {
        0 <= cx < self.spec_x() && 0 <= cy < self.spec_y()
    }

    /// The flat offset of `(x, y)`; the executable face of the addressing
    /// rule.
    fn offset(&self, x: usize, y: usize) -> (r: usize)
        requires
            self.wf(),
            x < self.spec_x(),
            y < self.spec_y(),
        ensures
            r == y * self.spec_x() + x,
            r < self@.len(),
    {
        let _n = self.data.len();
        proof {
            lemma_offset_bound(self.spec_x() as int, self.spec_y() as int, x as int, y as int);
        }
        y * self.x + x
    }

    /// Wraps a buffer of exactly `x * y` elements, row-major.
    pub fn new(x: usize, y: usize, data: Vec<T>) -> (m: Self)
        requires
            data@.len() == x * y,
        ensures
            m.wf(),
            m.spec_x() == x,
            m.spec_y() == y,
            m@ == data@,
    {
        Matrix { x, y, data }
    }

    /// A matrix of shape `x` by `y` filled with one value (scalar broadcast).
    pub fn fill(x: usize, y: usize, value: T) -> (m: Self)
        ensures
            m.wf(),
            m.spec_x() == x,
            m.spec_y() == y,
            forall|i: int| 0 <= i < m@.len() ==> m@[i] == value,
    {
        let mut data: Vec<T> = Vec::new();
        let mut cy: usize = 0;
        while cy < y
            invariant
                cy <= y,
                data@.len() == cy * x,
                forall|i: int| 0 <= i < data@.len() ==> data@[i] == value,
            decreases y - cy,
        {
            let mut cx: usize = 0;
            while cx < x
                invariant
                    cx <= x,
                    cy < y,
                    data@.len() == cy * x + cx,
                    forall|i: int| 0 <= i < data@.len() ==> data@[i] == value,
                decreases x - cx,
            {
                data.push(value);
                cx += 1;
            }
            cy += 1;
            proof {
                assert((cy - 1) * x + x == cy * x) by (nonlinear_arith);
            }
        }
        proof {
            lemma_offset_bound_end(x as int, y as int);
        }
        Matrix { x, y, data }
    }

    /// Builds a matrix from rows given outermost-first; row `cy` of the
    /// result is `rows[cy]`. All rows must have one length.
    pub fn from_rows(rows: &Vec<Vec<T>>) -> (m: Self)
        requires
            forall|i: int| 0 <= i < rows@.len() ==> (#[trigger] rows@[i])@.len() == rows@[0]@.len(),
        ensures
            m.wf(),
            m.spec_y() == rows@.len(),
            m.spec_x() == (if rows@.len() == 0 { 0int } else { rows@[0]@.len() as int }),
            forall|cx: int, cy: int|
                0 <= cy < rows@.len() && 0 <= cx < rows@[0]@.len() ==> m.at(cx, cy) == rows@[cy]@[cx],
    {
        let y = rows.len();
        if y == 0 {
            let data: Vec<T> = Vec::new();
            return Matrix { x: 0, y: 0, data };
        }
        let x = rows[0].len();
        let mut data: Vec<T> = Vec::new();
        let mut cy: usize = 0;
        while cy < y
            invariant
                cy <= y,
                y == rows@.len(),
                0 < y,
                x == rows@[0]@.len(),
                forall|i: int| 0 <= i < rows@.len() ==> (#[trigger] rows@[i])@.len() == x,
                data@.len() == cy * x,
                forall|px: int, py: int|
                    0 <= py < cy && 0 <= px < x ==> data@[py * x + px] == rows@[py]@[px],
            decreases y - cy,
        {
            let row = &rows[cy];
            let mut cx: usize = 0;
            while cx < x
                invariant
                    cx <= x,
                    cy < y,
                    y == rows@.len(),
                    x == rows@[0]@.len(),
                    forall|i: int| 0 <= i < rows@.len() ==> (#[trigger] rows@[i])@.len() == x,
                    row == &rows@[cy as int],
                    data@.len() == cy * x + cx,
                    forall|px: int, py: int|
                        0 <= py < cy && 0 <= px < x ==> data@[py * x + px] == rows@[py]@[px],
                    forall|px: int| 0 <= px < cx ==> data@[cy * x + px] == rows@[cy as int]@[px],
                decreases x - cx,
            {
                data.push(row[cx]);
                cx += 1;
                proof {
                    assert forall|px: int, py: int|
                        0 <= py < cy && 0 <= px < x implies data@[py * x + px] == rows@[py]@[px] by {
                        vstd::arithmetic::mul::lemma_mul_inequality(py, cy - 1, x as int);
                        assert((cy - 1) * x + x == cy * x) by (nonlinear_arith);
                    }
                }
            }
            cy += 1;
            proof {
                assert(data@.len() == (cy - 1) * x + x);
                assert((cy - 1) * x + x == cy * x) by (nonlinear_arith);
                assert forall|px: int, py: int|
                    0 <= py < cy && 0 <= px < x implies data@[py * x + px] == rows@[py]@[px] by {
                    if py == cy - 1 {
                        assert(data@[(cy - 1) * x + px] == rows@[cy - 1]@[px]);
                    }
                }
            }
        }
        proof {
            lemma_offset_bound_end(x as int, y as int);
        }
        Matrix { x, y, data }
    }

    /// Builds a matrix from a list of row vectors; row `cy` of the result is
    /// `rows[cy]`. All rows must have one length.
    pub fn from_vectors(rows: &Vec<Vector<T>>) -> (m: Self)
        requires
            forall|i: int| 0 <= i < rows@.len() ==> (#[trigger] rows@[i])@.len() == rows@[0]@.len(),
        ensures
            m.wf(),
            m.spec_y() == rows@.len(),
            m.spec_x() == (if rows@.len() == 0 { 0int } else { rows@[0]@.len() as int }),
            forall|cx: int, cy: int|
                0 <= cy < rows@.len() && 0 <= cx < rows@[0]@.len() ==> m.at(cx, cy) == rows@[cy]@[cx],
    {
        let y = rows.len();
        if y == 0 {
            let data: Vec<T> = Vec::new();
            return Matrix { x: 0, y: 0, data };
        }
        let x = rows[0].len();
        let mut data: Vec<T> = Vec::new();
        let mut cy: usize = 0;
        while cy < y
            invariant
                cy <= y,
                y == rows@.len(),
                0 < y,
                x == rows@[0]@.len(),
                forall|i: int| 0 <= i < rows@.len() ==> (#[trigger] rows@[i])@.len() == x,
                data@.len() == cy * x,
                forall|px: int, py: int|
                    0 <= py < cy && 0 <= px < x ==> data@[py * x + px] == rows@[py]@[px],
            decreases y - cy,
        {
            let row = &rows[cy];
            let mut cx: usize = 0;
            while cx < x
                invariant
                    cx <= x,
                    cy < y,
                    y == rows@.len(),
                    x == rows@[0]@.len(),
                    forall|i: int| 0 <= i < rows@.len() ==> (#[trigger] rows@[i])@.len() == x,
                    row == &rows@[cy as int],
                    data@.len() == cy * x + cx,
                    forall|px: int, py: int|
                        0 <= py < cy && 0 <= px < x ==> data@[py * x + px] == rows@[py]@[px],
                    forall|px: int| 0 <= px < cx ==> data@[cy * x + px] == rows@[cy as int]@[px],
                decreases x - cx,
            {
                data.push(row.index(cx));
                cx += 1;
                proof {
                    assert forall|px: int, py: int|
                        0 <= py < cy && 0 <= px < x implies data@[py * x + px] == rows@[py]@[px] by {
                        vstd::arithmetic::mul::lemma_mul_inequality(py, cy - 1, x as int);
                        assert((cy - 1) * x + x == cy * x) by (nonlinear_arith);
                    }
                }
            }
            cy += 1;
            proof {
                assert(data@.len() == (cy - 1) * x + x);
                assert((cy - 1) * x + x == cy * x) by (nonlinear_arith);
                assert forall|px: int, py: int|
                    0 <= py < cy && 0 <= px < x implies data@[py * x + px] == rows@[py]@[px] by {
                    if py == cy - 1 {
                        assert(data@[(cy - 1) * x + px] == rows@[cy - 1]@[px]);
                    }
                }
            }
        }
        proof {
            lemma_offset_bound_end(x as int, y as int);
        }
        Matrix { x, y, data }
    }

    /// Read-only access to the underlying buffer.
    pub fn data(&self) -> (r: &Vec<T>)
        ensures
            r@ == self@,
    {
        &self.data
    }

    /// Mutable access to the underlying buffer; the matrix afterwards holds
    /// whatever the caller leaves behind the reference, and is well-formed
    /// again only if its length was kept.
    pub fn data_mut(&mut self) -> (r: &mut Vec<T>)
        ensures
            r@ == old(self)@,
            final(self)@ == final(r)@,
            final(self).spec_x() == old(self).spec_x(),
            final(self).spec_y() == old(self).spec_y(),
    {
        &mut self.data
    }

    /// Hands the underlying buffer out.
    pub fn into_data(self) -> (r: Vec<T>)
        ensures
            r@ == self@,
    {
        self.data
    }

    /// The buffer as a vector of length `x * y`, in flat row-major order.
    pub fn into_vector(self) -> (v: Vector<T>)
        ensures
            v@ == self@,
    {
        Vector::new(self.data)
    }

    /// Bounds-checked element access: `Some` exactly inside the shape, and
    /// then the element direct indexing gives.
    pub fn get(&self, x: usize, y: usize) -> (r: Option<&T>)
        requires
            self.wf(),
        ensures
            r.is_some() <==> self.in_bounds(x as int, y as int),
            r.is_some() ==> *r.unwrap() == self.at(x as int, y as int),
    {
        if x < self.x && y < self.y {
            let off = self.offset(x, y);
            Some(&self.data[off])
        } else {
            None
        }
    }

    /// Direct element access; the coordinate must be inside the shape.
    pub fn index(&self, x: usize, y: usize) -> (r: T)
        requires
            self.wf(),
            self.in_bounds(x as int, y as int),
        ensures
            r == self.at(x as int, y as int),
    {
        let off = self.offset(x, y);
        self.data[off]
    }

    /// Overwrites one element; the coordinate must be inside the shape.
    pub fn set(&mut self, x: usize, y: usize, value: T)
        requires
            old(self).wf(),
            old(self).in_bounds(x as int, y as int),
        ensures
            final(self).wf(),
            final(self).spec_x() == old(self).spec_x(),
            final(self).spec_y() == old(self).spec_y(),
            final(self)@ == old(self)@.update(y * old(self).spec_x() + x, value),
    {
        let off = self.offset(x, y);
        self.data[off] = value;
    }

    /// Bounds-checked overwrite: stores the value and answers `true` exactly
    /// when the coordinate lies inside the shape; out of bounds it leaves
    /// the matrix unchanged.
    pub fn try_set(&mut self, x: usize, y: usize, value: T) -> (r: bool)
        requires
            old(self).wf(),
        ensures
            final(self).wf(),
            final(self).spec_x() == old(self).spec_x(),
            final(self).spec_y() == old(self).spec_y(),
            r <==> old(self).in_bounds(x as int, y as int),
            r ==> final(self)@ == old(self)@.update(y * old(self).spec_x() + x, value),
            !r ==> final(self)@ == old(self)@,
    {
        if x < self.x && y < self.y {
            self.set(x, y, value);
            true
        } else {
            false
        }
    }

    /// Row `y` as a fresh vector: the contiguous run of `x` buffer elements
    /// starting at offset `y * x`.
    pub fn row(&self, y: usize) -> (r: Vector<T>)
        requires
            self.wf(),
            y < self.spec_y(),
        ensures
            r@.len() == self.spec_x(),
            forall|i: int| 0 <= i < self.spec_x() ==> r@[i] == self.at(i, y as int),
    {
        let x = self.x;
        let mut data: Vec<T> = Vec::new();
        let mut k: usize = 0;
        while k < x
            invariant
                k <= x,
                x == self.spec_x(),
                y < self.spec_y(),
                self.wf(),
                data@.len() == k,
                forall|i: int| 0 <= i < k ==> data@[i] == self.at(i, y as int),
            decreases x - k,
        {
            let off = self.offset(k, y);
            data.push(self.data[off]);
            k += 1;
        }
        Vector::new(data)
    }

    /// Like `row`, but `None` on a row index at or past the row count.
    pub fn try_row(&self, y: usize) -> (r: Option<Vector<T>>)
        requires
            self.wf(),
        ensures
            r.is_some() <==> y < self.spec_y(),
            r.is_some() ==> {
                let v = r.unwrap();
                v@.len() == self.spec_x() && forall|i: int|
                    0 <= i < self.spec_x() ==> v@[i] == self.at(i, y as int)
            },
    {
        if y < self.y {
            Some(self.row(y))
        } else {
            None
        }
    }

    /// Column `x` as a fresh vector, gathered at stride `x_dim` from offset
    /// `x` on.
    pub fn column(&self, x: usize) -> (r: Vector<T>)
        requires
            self.wf(),
            x < self.spec_x(),
        ensures
            r@.len() == self.spec_y(),
            forall|i: int| 0 <= i < self.spec_y() ==> r@[i] == self.at(x as int, i),
    {
        let y = self.y;
        let mut data: Vec<T> = Vec::new();
        let mut k: usize = 0;
        while k < y
            invariant
                k <= y,
                y == self.spec_y(),
                x < self.spec_x(),
                self.wf(),
                data@.len() == k,
                forall|i: int| 0 <= i < k ==> data@[i] == self.at(x as int, i),
            decreases y - k,
        {
            let off = self.offset(x, k);
            data.push(self.data[off]);
            k += 1;
        }
        Vector::new(data)
    }

    /// Like `column`, but `None` on a column index at or past the column
    /// count.
    pub fn try_column(&self, x: usize) -> (r: Option<Vector<T>>)
        requires
            self.wf(),
        ensures
            r.is_some() <==> x < self.spec_x(),
            r.is_some() ==> {
                let v = r.unwrap();
                v@.len() == self.spec_y() && forall|i: int|
                    0 <= i < self.spec_y() ==> v@[i] == self.at(x as int, i)
            },
    {
        if x < self.x {
            Some(self.column(x))
        } else {
            None
        }
    }

    /// Reinterprets the same flat buffer under a new shape of equal total
    /// size. Every element keeps its flat index; only the mapping between
    /// coordinates and flat indices changes. No element moves.
    pub fn reshape(&self, x2: usize, y2: usize) -> (m: Matrix<T>)
        requires
            self.wf(),
            x2 * y2 == self.spec_x() * self.spec_y(),
        ensures
            m.wf(),
            m.spec_x() == x2,
            m.spec_y() == y2,
            m@ == self@,
    {
        let c = self.clone();
        Matrix { x: x2, y: y2, data: c.data }
    }

    /// `reshape` without the copy: consumes the matrix and rewraps its
    /// buffer unchanged.
    pub fn into_reshape(self, x2: usize, y2: usize) -> (m: Matrix<T>)
        requires
            self.wf(),
            x2 * y2 == self.spec_x() * self.spec_y(),
        ensures
            m.wf(),
            m.spec_x() == x2,
            m.spec_y() == y2,
            m@ == self@,
    {
        Matrix { x: x2, y: y2, data: self.data }
    }
}

/// The transpose of a row-major buffer of `x_dim` columns and `y_dim` rows:
/// the buffer of the matrix with the row and column roles swapped. Entry
/// `(cx, cy)` of the source becomes entry `(cy, cx)` of the result.
pub open spec fn transpose_seq<T>(s: Seq<T>, x_dim: int, y_dim: int) -> Seq<T> {
    Seq::new((x_dim * y_dim) as nat, |i: int| s[(i % y_dim) * x_dim + (i / y_dim)])
}

/// Law: transposing is an involution. Transposing a buffer of `x_dim`
/// columns and `y_dim` rows and then transposing the result gives the
/// original buffer back. Since `transpose`, `transpose_map` and the in-place
/// `transpose_assign` all promise their result equals `transpose_seq` of
/// their input, this also says that the out-of-place and in-place transposes
/// of a square matrix have the same effect, and that either, applied twice,
/// restores the matrix.
pub proof fn lemma_transpose_involution<T>(s: Seq<T>, x_dim: int, y_dim: int)
    requires
        0 <= x_dim,
        0 <= y_dim,
        s.len() == x_dim * y_dim,
    ensures
        transpose_seq(transpose_seq(s, x_dim, y_dim), y_dim, x_dim) =~= s,
{
    let t = transpose_seq(s, x_dim, y_dim);
    let tt = transpose_seq(t, y_dim, x_dim);
    assert(y_dim * x_dim == x_dim * y_dim) by (nonlinear_arith);
    assert forall|i: int| 0 <= i < s.len() implies tt[i] == s[i] by {
        assert(x_dim > 0 && y_dim > 0) by (nonlinear_arith)
            requires
                0 <= i < x_dim * y_dim,
                0 <= x_dim,
                0 <= y_dim,
        ;
        vstd::arithmetic::div_mod::lemma_fundamental_div_mod(i, x_dim);
        vstd::arithmetic::div_mod::lemma_mod_division_less_than_divisor(i, x_dim);
        let cy = i / x_dim;
        let cx = i % x_dim;
        assert(cy >= 0 && cy < y_dim) by (nonlinear_arith)
            requires
                0 <= i < x_dim * y_dim,
                x_dim > 0,
                0 <= cx < x_dim,
                i == x_dim * cy + cx,
        ;
        let j = cx * y_dim + cy;
        assert(0 <= j < y_dim * x_dim) by (nonlinear_arith)
            requires
                0 <= cx < x_dim,
                0 <= cy < y_dim,
                j == cx * y_dim + cy,
        ;
        vstd::arithmetic::div_mod::lemma_fundamental_div_mod_converse(j, y_dim, cx, cy);
        assert(tt[i] == t[(i % x_dim) * y_dim + (i / x_dim)]);
        assert(t[j] == s[(j % y_dim) * x_dim + (j / y_dim)]);
        assert((j % y_dim) * x_dim + (j / y_dim) == cy * x_dim + cx);
        assert(cy * x_dim + cx == i) by (nonlinear_arith)
            requires
                i == x_dim * cy + cx,
        ;
    }
}

/// Law, at the matrix level: a transpose of a transpose restores the
/// matrix. Any two matrices meeting the shape and buffer promises of
/// `transpose` applied twice hold the original shape and buffer.
pub proof fn lemma_transpose_twice<T: Number>(m: Matrix<T>, t: Matrix<T>, tt: Matrix<T>)
    requires
        m.wf(),
        t.spec_x() == m.spec_y(),
        t.spec_y() == m.spec_x(),
        t@ == transpose_seq(m@, m.spec_x() as int, m.spec_y() as int),
        tt.spec_x() == t.spec_y(),
        tt.spec_y() == t.spec_x(),
        tt@ == transpose_seq(t@, t.spec_x() as int, t.spec_y() as int),
    ensures
        tt.spec_x() == m.spec_x(),
        tt.spec_y() == m.spec_y(),
        tt@ == m@,
{
    lemma_transpose_involution(m@, m.spec_x() as int, m.spec_y() as int);
}

/// Row-major offsets are injective: equal offsets mean equal coordinates.
pub proof fn lemma_offset_injective(x_dim: int, ax: int, ay: int, bx: int, by: int)
    requires
        0 <= ax < x_dim,
        0 <= bx < x_dim,
        0 <= ay,
        0 <= by,
        ay * x_dim + ax == by * x_dim + bx,
    ensures
        ax == bx,
        ay == by,
{
    assert(ax == bx && ay == by) by (nonlinear_arith)
        requires
            0 <= ax < x_dim,
            0 <= bx < x_dim,
            0 <= ay,
            0 <= by,
            ay * x_dim + ax == by * x_dim + bx,
    ;
}

/// A buffer whose entry `(a, b)` holds the source's entry `(b, a)` is
/// exactly the transpose of the source buffer.
proof fn lemma_transpose_fill<T>(s: Seq<T>, d: Seq<T>, x_dim: int, y_dim: int)
    requires
        0 <= x_dim,
        0 <= y_dim,
        s.len() == x_dim * y_dim,
        d.len() == y_dim * x_dim,
        forall|a: int, b: int|
            0 <= a < x_dim && 0 <= b < y_dim ==> #[trigger] d[a * y_dim + b] == s[b * x_dim + a],
    ensures
        d =~= transpose_seq(s, x_dim, y_dim),
{
    assert(y_dim * x_dim == x_dim * y_dim) by (nonlinear_arith);
    assert forall|i: int| 0 <= i < d.len() implies d[i] == transpose_seq(s, x_dim, y_dim)[i] by {
        vstd::arithmetic::div_mod::lemma_fundamental_div_mod(i, y_dim);
        vstd::arithmetic::div_mod::lemma_mod_division_less_than_divisor(i, y_dim);
        let a = i / y_dim;
        let b = i % y_dim;
        assert(i == y_dim * a + b);
        assert(a >= 0) by (nonlinear_arith)
            requires
                i >= 0,
                y_dim > 0,
                b < y_dim,
                i == y_dim * a + b,
        ;
        assert(a < x_dim) by (nonlinear_arith)
            requires
                i < x_dim * y_dim,
                y_dim > 0,
                0 <= b,
                i == y_dim * a + b,
        ;
        assert(y_dim * a == a * y_dim) by (nonlinear_arith);
        assert(d[i] == d[a * y_dim + b]);
        assert(d[a * y_dim + b] == s[b * x_dim + a]);
    }
}

impl<T: Number> Matrix<T> {
    /// Direct mutable element access; the coordinate must be inside the
    /// shape. The matrix afterwards holds, at that coordinate, whatever the
    /// caller leaves behind the returned reference.
    pub fn get_mut(&mut self, x: usize, y: usize) -> (r: &mut T)
        requires
            old(self).wf(),
            old(self).in_bounds(x as int, y as int),
        ensures
            *r == old(self).at(x as int, y as int),
            final(self)@ == old(self)@.update(y * old(self).spec_x() + x, *final(r)),
            final(self).spec_x() == old(self).spec_x(),
            final(self).spec_y() == old(self).spec_y(),
    {
        let off = self.offset(x, y);
        &mut self.data[off]
    }

    /// Applies `f` to every element in place, keeping the shape; flat element
    /// `i` afterwards is an output of `f` on flat element `i` before.
    pub fn map_assign<F: Fn(T) -> T>(&mut self, f: &F)
        requires
            forall|i: int| 0 <= i < old(self)@.len() ==> call_requires(*f, (old(self)@[i],)),
        ensures
            final(self).spec_x() == old(self).spec_x(),
            final(self).spec_y() == old(self).spec_y(),
            final(self)@.len() == old(self)@.len(),
            forall|i: int|
                0 <= i < old(self)@.len() ==> call_ensures(*f, (old(self)@[i],), #[trigger] final(self)@[i]),
    {
        let n = self.data.len();
        let mut k: usize = 0;
        while k < n
            invariant
                k <= n,
                n == self@.len(),
                self.spec_x() == old(self).spec_x(),
                self.spec_y() == old(self).spec_y(),
                self@.len() == old(self)@.len(),
                forall|i: int| k <= i < n ==> self@[i] == old(self)@[i],
                forall|i: int| 0 <= i < old(self)@.len() ==> call_requires(*f, (old(self)@[i],)),
                forall|i: int| 0 <= i < k ==> call_ensures(*f, (old(self)@[i],), #[trigger] self@[i]),
            decreases n - k,
        {
            let v = self.data[k];
            self.data[k] = f(v);
            k += 1;
        }
    }

    /// Applies `f` to every element, keeping the shape; flat element `i` of
    /// the result is an output of `f` on flat element `i` of `self`.
    pub fn map<U: Number, F: Fn(T) -> U>(&self, f: &F) -> (m: Matrix<U>)
        requires
            forall|i: int| 0 <= i < self@.len() ==> call_requires(*f, (self@[i],)),
        ensures
            m.spec_x() == self.spec_x(),
            m.spec_y() == self.spec_y(),
            m@.len() == self@.len(),
            forall|i: int|
                0 <= i < self@.len() ==> call_ensures(*f, (self@[i],), #[trigger] m@[i]),
    {
        let n = self.data.len();
        let mut data: Vec<U> = Vec::new();
        let mut k: usize = 0;
        while k < n
            invariant
                k <= n,
                n == self@.len(),
                data@.len() == k,
                forall|i: int| 0 <= i < self@.len() ==> call_requires(*f, (self@[i],)),
                forall|i: int| 0 <= i < k ==> call_ensures(*f, (self@[i],), #[trigger] data@[i]),
            decreases n - k,
        {
            data.push(f(self.data[k]));
            k += 1;
        }
        Matrix { x: self.x, y: self.y, data }
    }

    /// The transpose as a fresh matrix: entry `(cx, cy)` of `self` stands at
    /// `(cy, cx)` of the result, so rows become columns.
    pub fn transpose(&self) -> (m: Matrix<T>)
        requires
            self.wf(),
        ensures
            m.wf(),
            m.spec_x() == self.spec_y(),
            m.spec_y() == self.spec_x(),
            m@ == transpose_seq(self@, self.spec_x() as int, self.spec_y() as int),
            forall|cx: int, cy: int|
                self.in_bounds(cx, cy) ==> #[trigger] m.at(cy, cx) == self.at(cx, cy),
    {
        let x = self.x;
        let y = self.y;
        let mut data: Vec<T> = Vec::new();
        let mut a: usize = 0;
        // destination rows are source columns: row `a` of the result gathers
        // source column `a`
        while a < x
            invariant
                a <= x,
                x == self.spec_x(),
                y == self.spec_y(),
                self.wf(),
                data@.len() == a * y,
                forall|pa: int, pb: int|
                    0 <= pa < a && 0 <= pb < y ==> #[trigger] data@[pa * y + pb] == self@[pb * x + pa],
            decreases x - a,
        {
            let mut b: usize = 0;
            while b < y
                invariant
                    b <= y,
                    a < x,
                    x == self.spec_x(),
                    y == self.spec_y(),
                    self.wf(),
                    data@.len() == a * y + b,
                    forall|pa: int, pb: int|
                        0 <= pa < a && 0 <= pb < y ==> #[trigger] data@[pa * y + pb] == self@[pb * x + pa],
                    forall|pb: int| 0 <= pb < b ==> #[trigger] data@[a * y + pb] == self@[pb * x + a],
                decreases y - b,
            {
                let off = self.offset(a, b);
                data.push(self.data[off]);
                b += 1;
                proof {
                    assert forall|pa: int, pb: int|
                        0 <= pa < a && 0 <= pb < y implies #[trigger] data@[pa * y + pb] == self@[pb * x + pa] by {
                        vstd::arithmetic::mul::lemma_mul_inequality(pa, a - 1, y as int);
                        assert((a - 1) * y + y == a * y) by (nonlinear_arith);
                    }
                }
            }
            a += 1;
            proof {
                assert(data@.len() == (a - 1) * y + y);
                assert((a - 1) * y + y == a * y) by (nonlinear_arith);
                assert forall|pa: int, pb: int|
                    0 <= pa < a && 0 <= pb < y implies #[trigger] data@[pa * y + pb] == self@[pb * x + pa] by {
                    if pa == a - 1 {
                        assert(data@[(a - 1) * y + pb] == self@[pb * x + (a - 1)]);
                    }
                }
            }
        }
        proof {
            lemma_offset_bound_end(x as int, y as int);
            lemma_transpose_fill(self@, data@, x as int, y as int);
            let m = Matrix { x: y, y: x, data };
            assert forall|cx: int, cy: int|
                self.in_bounds(cx, cy) implies #[trigger] m.at(cy, cx) == self.at(cx, cy) by {
                assert(m@[cx * y + cy] == self@[cy * x + cx]);
            }
        }
        Matrix { x: y, y: x, data }
    }

    /// One pass that transposes and maps: entry `(cy, cx)` of the result is
    /// an output of `f` on entry `(cx, cy)` of `self`.
    pub fn transpose_map<U: Number, F: Fn(T) -> U>(&self, f: &F) -> (m: Matrix<U>)
        requires
            self.wf(),
            forall|i: int| 0 <= i < self@.len() ==> call_requires(*f, (self@[i],)),
        ensures
            m.wf(),
            m.spec_x() == self.spec_y(),
            m.spec_y() == self.spec_x(),
            forall|cx: int, cy: int|
                self.in_bounds(cx, cy) ==> call_ensures(*f, (self.at(cx, cy),), #[trigger] m.at(cy, cx)),
    {
        let x = self.x;
        let y = self.y;
        let mut data: Vec<U> = Vec::new();
        let mut a: usize = 0;
        while a < x
            invariant
                a <= x,
                x == self.spec_x(),
                y == self.spec_y(),
                self.wf(),
                data@.len() == a * y,
                forall|i: int| 0 <= i < self@.len() ==> call_requires(*f, (self@[i],)),
                forall|pa: int, pb: int|
                    0 <= pa < a && 0 <= pb < y ==> call_ensures(
                        *f,
                        (self@[pb * x + pa],),
                        #[trigger] data@[pa * y + pb],
                    ),
            decreases x - a,
        {
            let mut b: usize = 0;
            while b < y
                invariant
                    b <= y,
                    a < x,
                    x == self.spec_x(),
                    y == self.spec_y(),
                    self.wf(),
                    data@.len() == a * y + b,
                    forall|i: int| 0 <= i < self@.len() ==> call_requires(*f, (self@[i],)),
                    forall|pa: int, pb: int|
                        0 <= pa < a && 0 <= pb < y ==> call_ensures(
                            *f,
                            (self@[pb * x + pa],),
                            #[trigger] data@[pa * y + pb],
                        ),
                    forall|pb: int|
                        0 <= pb < b ==> call_ensures(*f, (self@[pb * x + a],), #[trigger] data@[a * y + pb]),
                decreases y - b,
            {
                let off = self.offset(a, b);
                data.push(f(self.data[off]));
                b += 1;
                proof {
                    assert forall|pa: int, pb: int|
                        0 <= pa < a && 0 <= pb < y implies call_ensures(
                        *f,
                        (self@[pb * x + pa],),
                        #[trigger] data@[pa * y + pb],
                    ) by {
                        vstd::arithmetic::mul::lemma_mul_inequality(pa, a - 1, y as int);
                        assert((a - 1) * y + y == a * y) by (nonlinear_arith);
                    }
                }
            }
            a += 1;
            proof {
                assert(data@.len() == (a - 1) * y + y);
                assert((a - 1) * y + y == a * y) by (nonlinear_arith);
                assert forall|pa: int, pb: int|
                    0 <= pa < a && 0 <= pb < y implies call_ensures(
                    *f,
                    (self@[pb * x + pa],),
                    #[trigger] data@[pa * y + pb],
                ) by {
                    if pa == a - 1 {
                        assert(call_ensures(*f, (self@[pb * x + (a - 1)],), data@[(a - 1) * y + pb]));
                    }
                }
            }
        }
        proof {
            lemma_offset_bound_end(x as int, y as int);
            let m = Matrix { x: y, y: x, data };
            assert forall|cx: int, cy: int|
                self.in_bounds(cx, cy) implies call_ensures(*f, (self.at(cx, cy),), #[trigger] m.at(cy, cx)) by {
                assert(call_ensures(*f, (self@[cy * x + cx],), data@[cx * y + cy]));
            }
        }
        Matrix { x: y, y: x, data }
    }

    /// Transposes a square matrix in place by swapping each pair `(cx, cy)`,
    /// `(cy, cx)` below and above the diagonal once.
    pub fn transpose_assign(&mut self)
        requires
            old(self).wf(),
            old(self).spec_x() == old(self).spec_y(),
        ensures
            final(self).wf(),
            final(self).spec_x() == old(self).spec_x(),
            final(self).spec_y() == old(self).spec_y(),
            final(self)@ == transpose_seq(old(self)@, old(self).spec_x() as int, old(self).spec_y() as int),
            forall|cx: int, cy: int|
                old(self).in_bounds(cx, cy) ==> #[trigger] final(self).at(cy, cx) == old(self).at(cx, cy),
    {
        let n = self.x;
        let mut cy: usize = 1;
        while cy < n
            invariant
                1 <= cy <= n || (n == 0 && cy == 1),
                n == self.spec_x(),
                n == self.spec_y(),
                self.wf(),
                self.spec_x() == old(self).spec_x(),
                self.spec_y() == old(self).spec_y(),
                self@.len() == old(self)@.len(),
                forall|a: int, b: int|
                    0 <= a < n && 0 <= b < n ==> #[trigger] self@[b * n + a] == (if swapped(
                        a,
                        b,
                        0,
                        cy as int,
                    ) {
                        old(self)@[a * n + b]
                    } else {
                        old(self)@[b * n + a]
                    }),
            decreases n - cy,
        {
            let mut cx: usize = 0;
            while cx < cy
                invariant
                    cx <= cy,
                    1 <= cy < n,
                    n == self.spec_x(),
                    n == self.spec_y(),
                    self.wf(),
                    self.spec_x() == old(self).spec_x(),
                    self.spec_y() == old(self).spec_y(),
                    self@.len() == old(self)@.len(),
                    forall|a: int, b: int|
                        0 <= a < n && 0 <= b < n ==> #[trigger] self@[b * n + a] == (if swapped(
                            a,
                            b,
                            cx as int,
                            cy as int,
                        ) {
                            old(self)@[a * n + b]
                        } else {
                            old(self)@[b * n + a]
                        }),
                decreases cy - cx,
            {
                let i = self.offset(cx, cy);
                let j = self.offset(cy, cx);
                proof {
                    assert(cy * n + cx != cx * n + cy) by (nonlinear_arith)
                        requires
                            cx < cy < n,
                    ;
                }
                let vi = self.data[i];
                let vj = self.data[j];
                self.data[i] = vj;
                self.data[j] = vi;
                cx += 1;
                proof {
                    assert forall|a: int, b: int|
                        0 <= a < n && 0 <= b < n implies #[trigger] self@[b * n + a] == (if swapped(
                        a,
                        b,
                        cx as int,
                        cy as int,
                    ) {
                        old(self)@[a * n + b]
                    } else {
                        old(self)@[b * n + a]
                    }) by {
                        lemma_offset_bound(n as int, n as int, a, b);
                        if b * n + a == cy * n + cx - 1 {
                            lemma_offset_injective(n as int, a, b, cx - 1, cy as int);
                        }
                        if b * n + a == (cx - 1) * n + cy {
                            lemma_offset_injective(n as int, a, b, cy as int, cx - 1);
                        }
                    }
                }
            }
            cy += 1;
        }
        proof {
            assert forall|a: int, b: int|
                0 <= a < n && 0 <= b < n implies #[trigger] self@[b * n + a] == old(self)@[a * n + b] by {
            }
            lemma_transpose_fill(old(self)@, self@, n as int, n as int);
        }
    }
}

impl<T: Number> Matrix<T> {
    /// The elementwise engine over two matrices of one shape: flat element
    /// `i` becomes `f(self[i], rhs[i])`.
    fn zip_assign<F: Fn(T, T) -> T>(&mut self, rhs: &Matrix<T>, f: &F)
        requires
            old(self).spec_x() == rhs.spec_x(),
            old(self).spec_y() == rhs.spec_y(),
            old(self)@.len() == rhs@.len(),
            forall|i: int|
                0 <= i < old(self)@.len() ==> call_requires(*f, (#[trigger] old(self)@[i], rhs@[i])),
        ensures
            final(self).spec_x() == old(self).spec_x(),
            final(self).spec_y() == old(self).spec_y(),
            final(self)@.len() == old(self)@.len(),
            forall|i: int|
                0 <= i < old(self)@.len() ==> call_ensures(
                    *f,
                    (old(self)@[i], rhs@[i]),
                    #[trigger] final(self)@[i],
                ),
    {
        let n = self.data.len();
        let mut k: usize = 0;
        while k < n
            invariant
                k <= n,
                n == self@.len(),
                self@.len() == old(self)@.len(),
                self@.len() == rhs@.len(),
                self.spec_x() == old(self).spec_x(),
                self.spec_y() == old(self).spec_y(),
                forall|i: int|
                    0 <= i < old(self)@.len() ==> call_requires(
                        *f,
                        (#[trigger] old(self)@[i], rhs@[i]),
                    ),
                forall|i: int| k <= i < n ==> self@[i] == old(self)@[i],
                forall|i: int|
                    0 <= i < k ==> call_ensures(*f, (old(self)@[i], rhs@[i]), #[trigger] self@[i]),
            decreases n - k,
        {
            let a = self.data[k];
            self.data[k] = f(a, rhs.data[k]);
            k += 1;
        }
    }

    /// Elementwise sum of two matrices of one shape.
    pub fn add_assign(&mut self, rhs: &Matrix<T>)
        requires
            old(self).spec_x() == rhs.spec_x(),
            old(self).spec_y() == rhs.spec_y(),
            old(self)@.len() == rhs@.len(),
            forall|i: int| 0 <= i < old(self)@.len() ==> T::can_add(#[trigger] old(self)@[i], rhs@[i]),
        ensures
            final(self).spec_x() == old(self).spec_x(),
            final(self).spec_y() == old(self).spec_y(),
            final(self)@.len() == old(self)@.len(),
            forall|i: int|
                0 <= i < old(self)@.len() ==> #[trigger] final(self)@[i] == T::add_spec(
                    old(self)@[i],
                    rhs@[i],
                ),
    {
        let f = |a: T, b: T| -> (r: T)
            requires
                T::can_add(a, b),
            ensures
                r == T::add_spec(a, b),
            { T::add(a, b) };
        self.zip_assign(rhs, &f);
    }

    /// Elementwise difference of two matrices of one shape.
    pub fn sub_assign(&mut self, rhs: &Matrix<T>)
        requires
            old(self).spec_x() == rhs.spec_x(),
            old(self).spec_y() == rhs.spec_y(),
            old(self)@.len() == rhs@.len(),
            forall|i: int| 0 <= i < old(self)@.len() ==> T::can_sub(#[trigger] old(self)@[i], rhs@[i]),
        ensures
            final(self).spec_x() == old(self).spec_x(),
            final(self).spec_y() == old(self).spec_y(),
            final(self)@.len() == old(self)@.len(),
            forall|i: int|
                0 <= i < old(self)@.len() ==> #[trigger] final(self)@[i] == T::sub_spec(
                    old(self)@[i],
                    rhs@[i],
                ),
    {
        let f = |a: T, b: T| -> (r: T)
            requires
                T::can_sub(a, b),
            ensures
                r == T::sub_spec(a, b),
            { T::sub(a, b) };
        self.zip_assign(rhs, &f);
    }

    /// Elementwise product of two matrices of one shape.
    pub fn mul_assign(&mut self, rhs: &Matrix<T>)
        requires
            old(self).spec_x() == rhs.spec_x(),
            old(self).spec_y() == rhs.spec_y(),
            old(self)@.len() == rhs@.len(),
            forall|i: int| 0 <= i < old(self)@.len() ==> T::can_mul(#[trigger] old(self)@[i], rhs@[i]),
        ensures
            final(self).spec_x() == old(self).spec_x(),
            final(self).spec_y() == old(self).spec_y(),
            final(self)@.len() == old(self)@.len(),
            forall|i: int|
                0 <= i < old(self)@.len() ==> #[trigger] final(self)@[i] == T::mul_spec(
                    old(self)@[i],
                    rhs@[i],
                ),
    {
        let f = |a: T, b: T| -> (r: T)
            requires
                T::can_mul(a, b),
            ensures
                r == T::mul_spec(a, b),
            { T::mul(a, b) };
        self.zip_assign(rhs, &f);
    }

    /// Elementwise quotient of two matrices of one shape.
    pub fn div_assign(&mut self, rhs: &Matrix<T>)
        requires
            old(self).spec_x() == rhs.spec_x(),
            old(self).spec_y() == rhs.spec_y(),
            old(self)@.len() == rhs@.len(),
            forall|i: int| 0 <= i < old(self)@.len() ==> T::can_div(#[trigger] old(self)@[i], rhs@[i]),
        ensures
            final(self).spec_x() == old(self).spec_x(),
            final(self).spec_y() == old(self).spec_y(),
            final(self)@.len() == old(self)@.len(),
            forall|i: int|
                0 <= i < old(self)@.len() ==> #[trigger] final(self)@[i] == T::div_spec(
                    old(self)@[i],
                    rhs@[i],
                ),
    {
        let f = |a: T, b: T| -> (r: T)
            requires
                T::can_div(a, b),
            ensures
                r == T::div_spec(a, b),
            { T::div(a, b) };
        self.zip_assign(rhs, &f);
    }

    /// Adds one scalar to every element.
    pub fn add_assign_scalar(&mut self, s: T)
        requires
            forall|i: int| 0 <= i < old(self)@.len() ==> T::can_add(#[trigger] old(self)@[i], s),
        ensures
            final(self).spec_x() == old(self).spec_x(),
            final(self).spec_y() == old(self).spec_y(),
            final(self)@.len() == old(self)@.len(),
            forall|i: int|
                0 <= i < old(self)@.len() ==> #[trigger] final(self)@[i] == T::add_spec(
                    old(self)@[i],
                    s,
                ),
    {
        let f = |a: T| -> (r: T)
            requires
                T::can_add(a, s),
            ensures
                r == T::add_spec(a, s),
            { T::add(a, s) };
        self.map_assign(&f);
    }

    /// Takes one scalar off every element.
    pub fn sub_assign_scalar(&mut self, s: T)
        requires
            forall|i: int| 0 <= i < old(self)@.len() ==> T::can_sub(#[trigger] old(self)@[i], s),
        ensures
            final(self).spec_x() == old(self).spec_x(),
            final(self).spec_y() == old(self).spec_y(),
            final(self)@.len() == old(self)@.len(),
            forall|i: int|
                0 <= i < old(self)@.len() ==> #[trigger] final(self)@[i] == T::sub_spec(
                    old(self)@[i],
                    s,
                ),
    {
        let f = |a: T| -> (r: T)
            requires
                T::can_sub(a, s),
            ensures
                r == T::sub_spec(a, s),
            { T::sub(a, s) };
        self.map_assign(&f);
    }

    /// Scales every element by one scalar.
    pub fn mul_assign_scalar(&mut self, s: T)
        requires
            forall|i: int| 0 <= i < old(self)@.len() ==> T::can_mul(#[trigger] old(self)@[i], s),
        ensures
            final(self).spec_x() == old(self).spec_x(),
            final(self).spec_y() == old(self).spec_y(),
            final(self)@.len() == old(self)@.len(),
            forall|i: int|
                0 <= i < old(self)@.len() ==> #[trigger] final(self)@[i] == T::mul_spec(
                    old(self)@[i],
                    s,
                ),
    {
        let f = |a: T| -> (r: T)
            requires
                T::can_mul(a, s),
            ensures
                r == T::mul_spec(a, s),
            { T::mul(a, s) };
        self.map_assign(&f);
    }

    /// Divides every element by one scalar.
    pub fn div_assign_scalar(&mut self, s: T)
        requires
            forall|i: int| 0 <= i < old(self)@.len() ==> T::can_div(#[trigger] old(self)@[i], s),
        ensures
            final(self).spec_x() == old(self).spec_x(),
            final(self).spec_y() == old(self).spec_y(),
            final(self)@.len() == old(self)@.len(),
            forall|i: int|
                0 <= i < old(self)@.len() ==> #[trigger] final(self)@[i] == T::div_spec(
                    old(self)@[i],
                    s,
                ),
    {
        let f = |a: T| -> (r: T)
            requires
                T::can_div(a, s),
            ensures
                r == T::div_spec(a, s),
            { T::div(a, s) };
        self.map_assign(&f);
    }

    /// Subtracts every element from one scalar, the scalar standing on the
    /// left: each element becomes `s - element`.
    pub fn rsub_assign_scalar(&mut self, s: T)
        requires
            forall|i: int| 0 <= i < old(self)@.len() ==> T::can_sub(s, #[trigger] old(self)@[i]),
        ensures
            final(self).spec_x() == old(self).spec_x(),
            final(self).spec_y() == old(self).spec_y(),
            final(self)@.len() == old(self)@.len(),
            forall|i: int|
                0 <= i < old(self)@.len() ==> #[trigger] final(self)@[i] == T::sub_spec(
                    s,
                    old(self)@[i],
                ),
    {
        let f = |a: T| -> (r: T)
            requires
                T::can_sub(s, a),
            ensures
                r == T::sub_spec(s, a),
            { T::sub(s, a) };
        self.map_assign(&f);
    }

    /// Divides one scalar by every element, the scalar standing on the left:
    /// each element becomes `s / element`.
    pub fn rdiv_assign_scalar(&mut self, s: T)
        requires
            forall|i: int| 0 <= i < old(self)@.len() ==> T::can_div(s, #[trigger] old(self)@[i]),
        ensures
            final(self).spec_x() == old(self).spec_x(),
            final(self).spec_y() == old(self).spec_y(),
            final(self)@.len() == old(self)@.len(),
            forall|i: int|
                0 <= i < old(self)@.len() ==> #[trigger] final(self)@[i] == T::div_spec(
                    s,
                    old(self)@[i],
                ),
    {
        let f = |a: T| -> (r: T)
            requires
                T::can_div(s, a),
            ensures
                r == T::div_spec(s, a),
            { T::div(s, a) };
        self.map_assign(&f);
    }

    /// Negates every element.
    pub fn neg_assign(&mut self)
        requires
            forall|i: int| 0 <= i < old(self)@.len() ==> T::can_neg(#[trigger] old(self)@[i]),
        ensures
            final(self).spec_x() == old(self).spec_x(),
            final(self).spec_y() == old(self).spec_y(),
            final(self)@.len() == old(self)@.len(),
            forall|i: int|
                0 <= i < old(self)@.len() ==> #[trigger] final(self)@[i] == T::neg_spec(
                    old(self)@[i],
                ),
    {
        let f = |a: T| -> (r: T)
            requires
                T::can_neg(a),
            ensures
                r == T::neg_spec(a),
            { T::neg(a) };
        self.map_assign(&f);
    }

    /// The elementwise negation as a fresh matrix.
    pub fn neg(&self) -> (m: Matrix<T>)
        requires
            forall|i: int| 0 <= i < self@.len() ==> T::can_neg(#[trigger] self@[i]),
        ensures
            m.spec_x() == self.spec_x(),
            m.spec_y() == self.spec_y(),
            m@.len() == self@.len(),
            forall|i: int| 0 <= i < self@.len() ==> #[trigger] m@[i] == T::neg_spec(self@[i]),
    {
        let mut m = self.clone();
        m.neg_assign();
        m
    }
}

/// The first `k` steps of the inner product behind entry `(cx, cy)` of a
/// matrix product: a left fold, starting from zero, of the products
/// `lhs[(z, cy)] * rhs[(cx, z)]` for `z` below `k`.
pub open spec fn dot_prefix<T: Number>(
    lhs: Matrix<T>,
    rhs: Matrix<T>,
    cx: int,
    cy: int,
    k: int,
) -> T
    decreases k,
{
    if k <= 0 {
        T::zero_spec()
    } else {
        T::add_spec(
            dot_prefix(lhs, rhs, cx, cy, k - 1),
            T::mul_spec(lhs.at(k - 1, cy), rhs.at(cx, k - 1)),
        )
    }
}

/// Whether every product and every running sum of that fold stays in range.
pub open spec fn dot_prefix_ok<T: Number>(
    lhs: Matrix<T>,
    rhs: Matrix<T>,
    cx: int,
    cy: int,
    k: int,
) -> bool
    decreases k,
{
    k <= 0 || (dot_prefix_ok(lhs, rhs, cx, cy, k - 1) && T::can_mul(lhs.at(k - 1, cy), rhs.at(cx, k - 1))
        && T::can_add(
        dot_prefix(lhs, rhs, cx, cy, k - 1),
        T::mul_spec(lhs.at(k - 1, cy), rhs.at(cx, k - 1)),
    ))
}

/// An in-range fold stays in range at every earlier step.
proof fn lemma_dot_prefix_ok_le<T: Number>(lhs: Matrix<T>, rhs: Matrix<T>, cx: int, cy: int, j: int, k: int)
    requires
        dot_prefix_ok(lhs, rhs, cx, cy, k),
        j <= k,
    ensures
        dot_prefix_ok(lhs, rhs, cx, cy, j),
    decreases k - j,
{
    if j < k {
        lemma_dot_prefix_ok_le(lhs, rhs, cx, cy, j, k - 1);
    }
}

impl<T: Number> Matrix<T> {
    /// The matrix product. `self` supplies the rows, `rhs` the columns: entry
    /// `(cx, cy)` of the result is the inner product of row `cy` of `self`
    /// with column `cx` of `rhs`, summed in column order starting from zero.
    /// The column count of `self` must equal the row count of `rhs`.
    pub fn dot(&self, rhs: &Matrix<T>) -> (r: Matrix<T>)
        requires
            self.wf(),
            rhs.wf(),
            rhs.spec_y() == self.spec_x(),
            forall|cx: int, cy: int|
                0 <= cx < rhs.spec_x() && 0 <= cy < self.spec_y() ==> dot_prefix_ok(
                    *self,
                    *rhs,
                    cx,
                    cy,
                    self.spec_x() as int,
                ),
        ensures
            r.wf(),
            r.spec_x() == rhs.spec_x(),
            r.spec_y() == self.spec_y(),
            forall|cx: int, cy: int|
                0 <= cx < rhs.spec_x() && 0 <= cy < self.spec_y() ==> #[trigger] r.at(cx, cy)
                    == dot_prefix(*self, *rhs, cx, cy, self.spec_x() as int),
    {
        let inner = self.x;
        let rx = rhs.x();
        let ry = self.y;
        let mut data: Vec<T> = Vec::new();
        let mut cy: usize = 0;
        while cy < ry
            invariant
                cy <= ry,
                inner == self.spec_x(),
                rx == rhs.spec_x(),
                ry == self.spec_y(),
                self.wf(),
                rhs.wf(),
                rhs.spec_y() == self.spec_x(),
                forall|a: int, b: int|
                    0 <= a < rhs.spec_x() && 0 <= b < self.spec_y() ==> dot_prefix_ok(
                        *self,
                        *rhs,
                        a,
                        b,
                        self.spec_x() as int,
                    ),
                data@.len() == cy * rx,
                forall|a: int, b: int|
                    0 <= a < rx && 0 <= b < cy ==> #[trigger] data@[b * rx + a] == dot_prefix(
                        *self,
                        *rhs,
                        a,
                        b,
                        inner as int,
                    ),
            decreases ry - cy,
        {
            let mut cx: usize = 0;
            while cx < rx
                invariant
                    cx <= rx,
                    cy < ry,
                    inner == self.spec_x(),
                    rx == rhs.spec_x(),
                    ry == self.spec_y(),
                    self.wf(),
                    rhs.wf(),
                    rhs.spec_y() == self.spec_x(),
                    forall|a: int, b: int|
                        0 <= a < rhs.spec_x() && 0 <= b < self.spec_y() ==> dot_prefix_ok(
                            *self,
                            *rhs,
                            a,
                            b,
                            self.spec_x() as int,
                        ),
                    data@.len() == cy * rx + cx,
                    forall|a: int, b: int|
                        0 <= a < rx && 0 <= b < cy ==> #[trigger] data@[b * rx + a] == dot_prefix(
                            *self,
                            *rhs,
                            a,
                            b,
                            inner as int,
                        ),
                    forall|a: int|
                        0 <= a < cx ==> #[trigger] data@[cy * rx + a] == dot_prefix(
                            *self,
                            *rhs,
                            a,
                            cy as int,
                            inner as int,
                        ),
                decreases rx - cx,
            {
                let mut acc = T::zero();
                let mut z: usize = 0;
                while z < inner
                    invariant
                        z <= inner,
                        cx < rx,
                        cy < ry,
                        inner == self.spec_x(),
                        rx == rhs.spec_x(),
                        ry == self.spec_y(),
                        self.wf(),
                        rhs.wf(),
                        rhs.spec_y() == self.spec_x(),
                        dot_prefix_ok(*self, *rhs, cx as int, cy as int, inner as int),
                        acc == dot_prefix(*self, *rhs, cx as int, cy as int, z as int),
                    decreases inner - z,
                {
                    proof {
                        lemma_dot_prefix_ok_le(
                            *self,
                            *rhs,
                            cx as int,
                            cy as int,
                            z + 1,
                            inner as int,
                        );
                    }
                    let p = T::mul(self.index(z, cy), rhs.index(cx, z));
                    acc = T::add(acc, p);
                    z += 1;
                }
                data.push(acc);
                cx += 1;
                proof {
                    assert forall|a: int, b: int|
                        0 <= a < rx && 0 <= b < cy implies #[trigger] data@[b * rx + a] == dot_prefix(
                        *self,
                        *rhs,
                        a,
                        b,
                        inner as int,
                    ) by {
                        vstd::arithmetic::mul::lemma_mul_inequality(b, cy - 1, rx as int);
                        assert((cy - 1) * rx + rx == cy * rx) by (nonlinear_arith);
                    }
                }
            }
            cy += 1;
            proof {
                assert((cy - 1) * rx + rx == cy * rx) by (nonlinear_arith);
                assert forall|a: int, b: int|
                    0 <= a < rx && 0 <= b < cy implies #[trigger] data@[b * rx + a] == dot_prefix(
                    *self,
                    *rhs,
                    a,
                    b,
                    inner as int,
                ) by {
                    if b == cy - 1 {
                        assert(data@[(cy - 1) * rx + a] == dot_prefix(
                            *self,
                            *rhs,
                            a,
                            cy - 1,
                            inner as int,
                        ));
                    }
                }
            }
        }
        proof {
            lemma_offset_bound_end(rx as int, ry as int);
        }
        let r = Matrix::new(rx, ry, data);
        proof {
            assert forall|cx: int, cy: int|
                0 <= cx < rhs.spec_x() && 0 <= cy < self.spec_y() implies #[trigger] r.at(cx, cy)
                == dot_prefix(*self, *rhs, cx, cy, self.spec_x() as int) by {
                lemma_offset_bound(rx as int, ry as int, cx, cy);
            }
        }
        r
    }

    /// The matrix product of two square matrices of one size, stored back
    /// into `self`.
    pub fn dot_assign(&mut self, rhs: &Matrix<T>)
        requires
            old(self).wf(),
            rhs.wf(),
            old(self).spec_x() == old(self).spec_y(),
            rhs.spec_x() == old(self).spec_x(),
            rhs.spec_y() == old(self).spec_x(),
            forall|cx: int, cy: int|
                0 <= cx < rhs.spec_x() && 0 <= cy < old(self).spec_y() ==> dot_prefix_ok(
                    *old(self),
                    *rhs,
                    cx,
                    cy,
                    old(self).spec_x() as int,
                ),
        ensures
            final(self).wf(),
            final(self).spec_x() == old(self).spec_x(),
            final(self).spec_y() == old(self).spec_y(),
            forall|cx: int, cy: int|
                0 <= cx < rhs.spec_x() && 0 <= cy < old(self).spec_y() ==> #[trigger] final(self).at(
                    cx,
                    cy,
                ) == dot_prefix(*old(self), *rhs, cx, cy, old(self).spec_x() as int),
    {
        let r = self.dot(rhs);
        *self = r;
    }
}

impl<T: Number> Matrix<T> {
    /// The full run of column indices.
    pub fn range_x(&self) -> (r: Range)
        ensures
            r.start == 0,
            r.end == self.spec_x(),
    {
        Range::new(0, self.x)
    }

    /// The full run of row indices.
    pub fn range_y(&self) -> (r: Range)
        ensures
            r.start == 0,
            r.end == self.spec_y(),
    {
        Range::new(0, self.y)
    }

    /// The full runs of column and row indices, in the order `slice` takes
    /// them.
    pub fn range_xy(&self) -> (r: (Range, Range))
        ensures
            r.0.start == 0,
            r.0.end == self.spec_x(),
            r.1.start == 0,
            r.1.end == self.spec_y(),
    {
        (self.range_x(), self.range_y())
    }
}

impl<T: Number, RX: RangeIter, RY: RangeIter> Slice<(RX, RY)> for Matrix<T> {
    type Output = Matrix<T>;

    /// Every selected column index lies below the column count, every
    /// selected row index below the row count.
    open spec fn slice_req(&self, index: (RX, RY)) -> bool {
        &&& self.wf()
        &&& forall|i: int|
            0 <= i < index.0.indices().len() ==> #[trigger] index.0.indices()[i] < self.spec_x()
        &&& forall|i: int|
            0 <= i < index.1.indices().len() ==> #[trigger] index.1.indices()[i] < self.spec_y()
    }

    /// Entry `(a, b)` of the slice is the source entry at the `a`-th
    /// selected column and the `b`-th selected row.
    open spec fn slice_post(&self, index: (RX, RY), r: Matrix<T>) -> bool {
        &&& r.wf()
        &&& r.spec_x() == index.0.indices().len()
        &&& r.spec_y() == index.1.indices().len()
        &&& forall|a: int, b: int|
            0 <= a < index.0.indices().len() && 0 <= b < index.1.indices().len()
                ==> #[trigger] r.at(a, b) == self.at(
                index.0.indices()[a] as int,
                index.1.indices()[b] as int,
            )
    }

    fn slice(&self, index: (RX, RY)) -> (r: Matrix<T>) {
        let (xr, yr) = index;
        let nx = xr.length();
        let ny = yr.length();
        let mut data: Vec<T> = Vec::new();
        let mut b: usize = 0;
        while b < ny
            invariant
                b <= ny,
                nx == xr.indices().len(),
                ny == yr.indices().len(),
                self.wf(),
                forall|i: int| 0 <= i < xr.indices().len() ==> #[trigger] xr.indices()[i] < self.spec_x(),
                forall|i: int| 0 <= i < yr.indices().len() ==> #[trigger] yr.indices()[i] < self.spec_y(),
                data@.len() == b * nx,
                forall|pa: int, pb: int|
                    0 <= pa < nx && 0 <= pb < b ==> #[trigger] data@[pb * nx + pa] == self.at(
                        xr.indices()[pa] as int,
                        yr.indices()[pb] as int,
                    ),
            decreases ny - b,
        {
            let yi = yr.index_at(b);
            let mut a: usize = 0;
            while a < nx
                invariant
                    a <= nx,
                    b < ny,
                    nx == xr.indices().len(),
                    ny == yr.indices().len(),
                    self.wf(),
                    yi == yr.indices()[b as int],
                    forall|i: int|
                        0 <= i < xr.indices().len() ==> #[trigger] xr.indices()[i] < self.spec_x(),
                    forall|i: int|
                        0 <= i < yr.indices().len() ==> #[trigger] yr.indices()[i] < self.spec_y(),
                    data@.len() == b * nx + a,
                    forall|pa: int, pb: int|
                        0 <= pa < nx && 0 <= pb < b ==> #[trigger] data@[pb * nx + pa] == self.at(
                            xr.indices()[pa] as int,
                            yr.indices()[pb] as int,
                        ),
                    forall|pa: int|
                        0 <= pa < a ==> #[trigger] data@[b * nx + pa] == self.at(
                            xr.indices()[pa] as int,
                            yr.indices()[b as int] as int,
                        ),
                decreases nx - a,
            {
                let xi = xr.index_at(a);
                data.push(self.index(xi, yi));
                a += 1;
                proof {
                    assert forall|pa: int, pb: int|
                        0 <= pa < nx && 0 <= pb < b implies #[trigger] data@[pb * nx + pa] == self.at(
                        xr.indices()[pa] as int,
                        yr.indices()[pb] as int,
                    ) by {
                        vstd::arithmetic::mul::lemma_mul_inequality(pb, b - 1, nx as int);
                        assert((b - 1) * nx + nx == b * nx) by (nonlinear_arith);
                    }
                }
            }
            b += 1;
            proof {
                assert((b - 1) * nx + nx == b * nx) by (nonlinear_arith);
                assert forall|pa: int, pb: int|
                    0 <= pa < nx && 0 <= pb < b implies #[trigger] data@[pb * nx + pa] == self.at(
                    xr.indices()[pa] as int,
                    yr.indices()[pb] as int,
                ) by {
                    if pb == b - 1 {
                        assert(data@[(b - 1) * nx + pa] == self.at(
                            xr.indices()[pa] as int,
                            yr.indices()[b - 1] as int,
                        ));
                    }
                }
            }
        }
        proof {
            lemma_offset_bound_end(nx as int, ny as int);
        }
        let r = Matrix::new(nx, ny, data);
        proof {
            assert forall|a: int, b: int|
                0 <= a < nx && 0 <= b < ny implies #[trigger] r.at(a, b) == self.at(
                xr.indices()[a] as int,
                yr.indices()[b] as int,
            ) by {
                lemma_offset_bound(nx as int, ny as int, a, b);
            }
        }
        r
    }
}

impl<T: Number> Slice<Vec<(usize, usize)>> for Matrix<T> {
    type Output = Vector<T>;

    /// Every listed coordinate lies inside the shape.
    open spec fn slice_req(&self, index: Vec<(usize, usize)>) -> bool {
        &&& self.wf()
        &&& forall|i: int|
            0 <= i < index@.len() ==> self.in_bounds(
                (#[trigger] index@[i]).0 as int,
                index@[i].1 as int,
            )
    }

    /// Element `i` of the result is the source entry at the `i`-th listed
    /// coordinate, in list order.
    open spec fn slice_post(&self, index: Vec<(usize, usize)>, r: Vector<T>) -> bool {
        &&& r@.len() == index@.len()
        &&& forall|i: int|
            0 <= i < index@.len() ==> #[trigger] r@[i] == self.at(
                index@[i].0 as int,
                index@[i].1 as int,
            )
    }

    fn slice(&self, index: Vec<(usize, usize)>) -> (r: Vector<T>) {
        let n = index.len();
        let mut data: Vec<T> = Vec::new();
        let mut k: usize = 0;
        while k < n
            invariant
                k <= n,
                n == index@.len(),
                self.wf(),
                forall|i: int|
                    0 <= i < index@.len() ==> self.in_bounds(
                        (#[trigger] index@[i]).0 as int,
                        index@[i].1 as int,
                    ),
                data@.len() == k,
                forall|i: int|
                    0 <= i < k ==> #[trigger] data@[i] == self.at(
                        index@[i].0 as int,
                        index@[i].1 as int,
                    ),
            decreases n - k,
        {
            let (cx, cy) = index[k];
            data.push(self.index(cx, cy));
            k += 1;
        }
        Vector::new(data)
    }
}

impl<T: Number> Slice<Vec<Vec<(usize, usize)>>> for Matrix<T> {
    type Output = Matrix<T>;

    /// The coordinate rows all have one length, and every listed coordinate
    /// lies inside the shape.
    open spec fn slice_req(&self, index: Vec<Vec<(usize, usize)>>) -> bool {
        &&& self.wf()
        &&& forall|i: int|
            0 <= i < index@.len() ==> (#[trigger] index@[i])@.len() == index@[0]@.len()
        &&& forall|i: int, j: int|
            0 <= i < index@.len() && 0 <= j < index@[i]@.len() ==> self.in_bounds(
                (#[trigger] index@[i]@[j]).0 as int,
                index@[i]@[j].1 as int,
            )
    }

    /// Entry `(a, b)` of the result is the source entry at coordinate `b`,
    /// `a` of the nested list.
    open spec fn slice_post(&self, index: Vec<Vec<(usize, usize)>>, r: Matrix<T>) -> bool {
        &&& r.wf()
        &&& r.spec_y() == index@.len()
        &&& r.spec_x() == (if index@.len() == 0 { 0int } else { index@[0]@.len() as int })
        &&& forall|a: int, b: int|
            0 <= b < index@.len() && 0 <= a < index@[0]@.len() ==> #[trigger] r.at(a, b) == self.at(
                index@[b]@[a].0 as int,
                index@[b]@[a].1 as int,
            )
    }

    fn slice(&self, index: Vec<Vec<(usize, usize)>>) -> (r: Matrix<T>) {
        let ny = index.len();
        if ny == 0 {
            let data: Vec<T> = Vec::new();
            return Matrix::new(0, 0, data);
        }
        let nx = index[0].len();
        let mut data: Vec<T> = Vec::new();
        let mut b: usize = 0;
        while b < ny
            invariant
                b <= ny,
                0 < ny,
                ny == index@.len(),
                nx == index@[0]@.len(),
                self.wf(),
                forall|i: int| 0 <= i < index@.len() ==> (#[trigger] index@[i])@.len() == nx,
                forall|i: int, j: int|
                    0 <= i < index@.len() && 0 <= j < index@[i]@.len() ==> self.in_bounds(
                        (#[trigger] index@[i]@[j]).0 as int,
                        index@[i]@[j].1 as int,
                    ),
                data@.len() == b * nx,
                forall|pa: int, pb: int|
                    0 <= pa < nx && 0 <= pb < b ==> #[trigger] data@[pb * nx + pa] == self.at(
                        index@[pb]@[pa].0 as int,
                        index@[pb]@[pa].1 as int,
                    ),
            decreases ny - b,
        {
            let row = &index[b];
            let mut a: usize = 0;
            while a < nx
                invariant
                    a <= nx,
                    b < ny,
                    ny == index@.len(),
                    nx == index@[0]@.len(),
                    self.wf(),
                    row == &index@[b as int],
                    forall|i: int| 0 <= i < index@.len() ==> (#[trigger] index@[i])@.len() == nx,
                    forall|i: int, j: int|
                        0 <= i < index@.len() && 0 <= j < index@[i]@.len() ==> self.in_bounds(
                            (#[trigger] index@[i]@[j]).0 as int,
                            index@[i]@[j].1 as int,
                        ),
                    data@.len() == b * nx + a,
                    forall|pa: int, pb: int|
                        0 <= pa < nx && 0 <= pb < b ==> #[trigger] data@[pb * nx + pa] == self.at(
                            index@[pb]@[pa].0 as int,
                            index@[pb]@[pa].1 as int,
                        ),
                    forall|pa: int|
                        0 <= pa < a ==> #[trigger] data@[b * nx + pa] == self.at(
                            index@[b as int]@[pa].0 as int,
                            index@[b as int]@[pa].1 as int,
                        ),
                decreases nx - a,
            {
                let (cx, cy) = row[a];
                data.push(self.index(cx, cy));
                a += 1;
                proof {
                    assert forall|pa: int, pb: int|
                        0 <= pa < nx && 0 <= pb < b implies #[trigger] data@[pb * nx + pa] == self.at(
                        index@[pb]@[pa].0 as int,
                        index@[pb]@[pa].1 as int,
                    ) by {
                        vstd::arithmetic::mul::lemma_mul_inequality(pb, b - 1, nx as int);
                        assert((b - 1) * nx + nx == b * nx) by (nonlinear_arith);
                    }
                }
            }
            b += 1;
            proof {
                assert((b - 1) * nx + nx == b * nx) by (nonlinear_arith);
                assert forall|pa: int, pb: int|
                    0 <= pa < nx && 0 <= pb < b implies #[trigger] data@[pb * nx + pa] == self.at(
                    index@[pb]@[pa].0 as int,
                    index@[pb]@[pa].1 as int,
                ) by {
                    if pb == b - 1 {
                        assert(data@[(b - 1) * nx + pa] == self.at(
                            index@[b - 1]@[pa].0 as int,
                            index@[b - 1]@[pa].1 as int,
                        ));
                    }
                }
            }
        }
        proof {
            lemma_offset_bound_end(nx as int, ny as int);
        }
        let r = Matrix::new(nx, ny, data);
        proof {
            assert forall|a: int, b: int|
                0 <= b < ny && 0 <= a < nx implies #[trigger] r.at(a, b) == self.at(
                index@[b]@[a].0 as int,
                index@[b]@[a].1 as int,
            ) by {
                lemma_offset_bound(nx as int, ny as int, a, b);
            }
        }
        r
    }
}

impl<T: Number> crate::ops::Get<(usize, usize)> for Matrix<T> {
    type Output = T;

    open spec fn get_req(&self, index: (usize, usize)) -> bool {
        self.wf()
    }

    /// Present exactly inside the shape, and then the element itself.
    open spec fn get_post(&self, index: (usize, usize), r: Option<T>) -> bool {
        &&& r.is_some() <==> self.in_bounds(index.0 as int, index.1 as int)
        &&& r.is_some() ==> r.unwrap() == self.at(index.0 as int, index.1 as int)
    }

    fn get(&self, index: (usize, usize)) -> (r: Option<T>) {
        match Matrix::get(self, index.0, index.1) {
            Some(v) => Some(*v),
            None => None,
        }
    }
}

impl<T: Number> crate::ops::Get<usize> for Matrix<T> {
    type Output = Vector<T>;

    open spec fn get_req(&self, index: usize) -> bool {
        self.wf()
    }

    /// Present exactly below the row count, and then the row itself.
    open spec fn get_post(&self, index: usize, r: Option<Vector<T>>) -> bool {
        &&& r.is_some() <==> index < self.spec_y()
        &&& r.is_some() ==> {
            let v = r.unwrap();
            v@.len() == self.spec_x() && forall|i: int|
                0 <= i < self.spec_x() ==> v@[i] == self.at(i, index as int)
        }
    }

    fn get(&self, index: usize) -> (r: Option<Vector<T>>) {
        self.try_row(index)
    }
}

impl<T: Number> crate::ops::GetMut<(usize, usize)> for Matrix<T> {
    open spec fn get_mut_req(&self, index: (usize, usize)) -> bool {
        self.wf() && self.in_bounds(index.0 as int, index.1 as int)
    }

    /// The element first seen is the one at the coordinate; afterwards the
    /// matrix holds, there, whatever the caller left behind the reference.
    open spec fn get_mut_post(
        pre: Self,
        index: (usize, usize),
        post: Self,
        elem_pre: T,
        elem_post: T,
    ) -> bool {
        &&& elem_pre == pre.at(index.0 as int, index.1 as int)
        &&& post.spec_x() == pre.spec_x()
        &&& post.spec_y() == pre.spec_y()
        &&& post@ == pre@.update(index.1 * pre.spec_x() + index.0, elem_post)
    }

    fn get_mut(&mut self, index: (usize, usize)) -> (r: &mut T) {
        Matrix::get_mut(self, index.0, index.1)
    }
}

/// Flat entry `i` of the elementwise sum of the first `j` matrices of a
/// list, folded from the first.
pub open spec fn list_sum_at<T: Number>(items: Seq<Matrix<T>>, j: int, i: int) -> T
    decreases j,
{
    if j <= 1 {
        items[0]@[i]
    } else {
        T::add_spec(list_sum_at(items, j - 1, i), items[j - 1]@[i])
    }
}

/// Whether every running sum of that fold stays in range.
pub open spec fn list_sum_ok<T: Number>(items: Seq<Matrix<T>>, j: int, i: int) -> bool
    decreases j,
{
    j <= 1 || (list_sum_ok(items, j - 1, i) && T::can_add(list_sum_at(items, j - 1, i), items[j - 1]@[i]))
}

/// Flat entry `i` of the elementwise product of the first `j` matrices of a
/// list, folded from the first.
pub open spec fn list_prod_at<T: Number>(items: Seq<Matrix<T>>, j: int, i: int) -> T
    decreases j,
{
    if j <= 1 {
        items[0]@[i]
    } else {
        T::mul_spec(list_prod_at(items, j - 1, i), items[j - 1]@[i])
    }
}

/// Whether every running product of that fold stays in range.
pub open spec fn list_prod_ok<T: Number>(items: Seq<Matrix<T>>, j: int, i: int) -> bool
    decreases j,
{
    j <= 1 || (list_prod_ok(items, j - 1, i) && T::can_mul(list_prod_at(items, j - 1, i), items[j - 1]@[i]))
}

/// All matrices of a list share the shape of the first.
pub open spec fn same_shape<T: Number>(items: Seq<Matrix<T>>) -> bool {
    forall|j: int|
        0 <= j < items.len() ==> (#[trigger] items[j]).wf() && items[j].spec_x() == items[0].spec_x()
            && items[j].spec_y() == items[0].spec_y()
}

impl<T: Number> Matrix<T> {
    /// The elementwise sum of a list of matrices of one shape, folded from
    /// the first. An empty list carries no shape to fill with zeroes, so it
    /// sums to the empty matrix.
    pub fn sum_of(items: &Vec<Matrix<T>>) -> (r: Matrix<T>)
        requires
            same_shape(items@),
            forall|i: int|
                0 <= i < items@[0]@.len() ==> list_sum_ok(items@, items@.len() as int, i),
        ensures
            r.wf(),
            items@.len() == 0 ==> r.spec_x() == 0 && r.spec_y() == 0,
            items@.len() > 0 ==> r.spec_x() == items@[0].spec_x() && r.spec_y()
                == items@[0].spec_y(),
            items@.len() > 0 ==> r@.len() == items@[0]@.len() && forall|i: int|
                0 <= i < items@[0]@.len() ==> #[trigger] r@[i] == list_sum_at(
                    items@,
                    items@.len() as int,
                    i,
                ),
    {
        let n = items.len();
        if n == 0 {
            let data: Vec<T> = Vec::new();
            return Matrix::new(0, 0, data);
        }
        let mut r = items[0].clone();
        let mut j: usize = 1;
        while j < n
            invariant
                1 <= j <= n,
                n == items@.len(),
                same_shape(items@),
                forall|i: int| 0 <= i < items@[0]@.len() ==> list_sum_ok(items@, n as int, i),
                r.wf(),
                r.spec_x() == items@[0].spec_x(),
                r.spec_y() == items@[0].spec_y(),
                r@.len() == items@[0]@.len(),
                forall|i: int|
                    0 <= i < items@[0]@.len() ==> #[trigger] r@[i] == list_sum_at(items@, j as int, i),
            decreases n - j,
        {
            proof {
                assert forall|i: int|
                    0 <= i < items@[0]@.len() implies T::can_add(#[trigger] r@[i], items@[j as int]@[i]) by {
                    lemma_list_sum_ok_le(items@, j + 1, n as int, i);
                }
            }
            r.add_assign(&items[j]);
            j += 1;
        }
        r
    }

    /// The elementwise product of a list of matrices of one shape, folded
    /// from the first. An empty list carries no shape to fill with ones, so
    /// it multiplies out to the empty matrix.
    pub fn product_of(items: &Vec<Matrix<T>>) -> (r: Matrix<T>)
        requires
            same_shape(items@),
            forall|i: int|
                0 <= i < items@[0]@.len() ==> list_prod_ok(items@, items@.len() as int, i),
        ensures
            r.wf(),
            items@.len() == 0 ==> r.spec_x() == 0 && r.spec_y() == 0,
            items@.len() > 0 ==> r.spec_x() == items@[0].spec_x() && r.spec_y()
                == items@[0].spec_y(),
            items@.len() > 0 ==> r@.len() == items@[0]@.len() && forall|i: int|
                0 <= i < items@[0]@.len() ==> #[trigger] r@[i] == list_prod_at(
                    items@,
                    items@.len() as int,
                    i,
                ),
    {
        let n = items.len();
        if n == 0 {
            let data: Vec<T> = Vec::new();
            return Matrix::new(0, 0, data);
        }
        let mut r = items[0].clone();
        let mut j: usize = 1;
        while j < n
            invariant
                1 <= j <= n,
                n == items@.len(),
                same_shape(items@),
                forall|i: int| 0 <= i < items@[0]@.len() ==> list_prod_ok(items@, n as int, i),
                r.wf(),
                r.spec_x() == items@[0].spec_x(),
                r.spec_y() == items@[0].spec_y(),
                r@.len() == items@[0]@.len(),
                forall|i: int|
                    0 <= i < items@[0]@.len() ==> #[trigger] r@[i] == list_prod_at(items@, j as int, i),
            decreases n - j,
        {
            proof {
                assert forall|i: int|
                    0 <= i < items@[0]@.len() implies T::can_mul(#[trigger] r@[i], items@[j as int]@[i]) by {
                    lemma_list_prod_ok_le(items@, j + 1, n as int, i);
                }
            }
            r.mul_assign(&items[j]);
            j += 1;
        }
        r
    }
}

/// An in-range fold stays in range at every earlier step.
proof fn lemma_list_sum_ok_le<T: Number>(items: Seq<Matrix<T>>, j: int, k: int, i: int)
    requires
        list_sum_ok(items, k, i),
        j <= k,
    ensures
        list_sum_ok(items, j, i),
    decreases k - j,
{
    if j < k {
        lemma_list_sum_ok_le(items, j, k - 1, i);
    }
}

/// An in-range fold stays in range at every earlier step.
proof fn lemma_list_prod_ok_le<T: Number>(items: Seq<Matrix<T>>, j: int, k: int, i: int)
    requires
        list_prod_ok(items, k, i),
        j <= k,
    ensures
        list_prod_ok(items, j, i),
    decreases k - j,
{
    if j < k {
        lemma_list_prod_ok_le(items, j, k - 1, i);
    }
}

/// Law: slicing a matrix by its own full ranges gives the matrix back. Any
/// result that meets the contract of `slice` applied to `range_xy` has the
/// same shape and the same buffer as the source.
pub proof fn lemma_full_slice_identity<T: Number>(m: Matrix<T>, xr: Range, yr: Range, r: Matrix<T>)
    requires
        m.wf(),
        xr.start == 0,
        xr.end == m.spec_x(),
        yr.start == 0,
        yr.end == m.spec_y(),
        m.slice_post((xr, yr), r),
    ensures
        r.spec_x() == m.spec_x(),
        r.spec_y() == m.spec_y(),
        r@ == m@,
{
    let x = m.spec_x() as int;
    let y = m.spec_y() as int;
    assert(xr.indices().len() == x);
    assert(yr.indices().len() == y);
    assert forall|i: int| 0 <= i < m@.len() implies r@[i] == m@[i] by {
        assert(x > 0 && y > 0) by (nonlinear_arith)
            requires
                0 <= i < x * y,
                0 <= x,
                0 <= y,
        ;
        vstd::arithmetic::div_mod::lemma_fundamental_div_mod(i, x);
        vstd::arithmetic::div_mod::lemma_mod_division_less_than_divisor(i, x);
        let b = i / x;
        let a = i % x;
        assert(0 <= b < y) by (nonlinear_arith)
            requires
                0 <= i < x * y,
                x > 0,
                0 <= a < x,
                i == x * b + a,
        ;
        assert(xr.indices()[a] == a);
        assert(yr.indices()[b] == b);
        assert(r.at(a, b) == m.at(a, b));
        assert(b * x + a == i) by (nonlinear_arith)
            requires
                i == x * b + a,
        ;
    }
    assert(r@ =~= m@);
}

/// Whether the in-place transpose has already exchanged the pair holding
/// `(a, b)` when its sweep stands at column `cx` of row `cy`: pairs are
/// visited in row order over the strictly-lower triangle.
pub open spec fn swapped(a: int, b: int, cx: int, cy: int) -> bool {
    let lo = if a <= b { a } else { b };
    let hi = if a <= b { b } else { a };
    lo != hi && (hi < cy || (hi == cy && lo < cx))
}

/// With every row full, the buffer length is the full product.
proof fn lemma_offset_bound_end(x_dim: int, y_dim: int)
    requires
        0 <= x_dim,
        0 <= y_dim,
    ensures
        y_dim * x_dim == x_dim * y_dim,
{
    assert(y_dim * x_dim == x_dim * y_dim) by (nonlinear_arith);
}

impl<T: Number> Vector<T> {
    /// Wraps the vector's elements as a matrix of shape `x` by `y` in
    /// row-major order; the flat element order is kept unchanged.
    pub fn into_matrix(self, x: usize, y: usize) -> (m: Matrix<T>)
        requires
            x * y == self@.len(),
        ensures
            m.wf(),
            m.spec_x() == x,
            m.spec_y() == y,
            m@ == self@,
    {
        Matrix::new(x, y, self.into_data())
    }

    /// Like `into_matrix`, from a borrow: copies the elements.
    pub fn to_matrix(&self, x: usize, y: usize) -> (m: Matrix<T>)
        requires
            x * y == self@.len(),
        ensures
            m.wf(),
            m.spec_x() == x,
            m.spec_y() == y,
            m@ == self@,
    {
        self.clone().into_matrix(x, y)
    }
}

impl<T: Number> Clone for Matrix<T> {
    fn clone(&self) -> (r: Self)
        ensures
            r.spec_x() == self.spec_x(),
            r.spec_y() == self.spec_y(),
            r@ == self@,
    {
        let n = self.data.len();
        let mut data: Vec<T> = Vec::new();
        let mut k: usize = 0;
        while k < n
            invariant
                k <= n,
                n == self@.len(),
                data@ == self@.take(k as int),
            decreases n - k,
        {
            data.push(self.data[k]);
            proof {
                assert(data@ =~= self@.take(k + 1));
            }
            k += 1;
        }
        proof {
            assert(self@.take(n as int) =~= self@);
        }
        Matrix { x: self.x, y: self.y, data }
    }
}

impl<T: Number> PartialEq for Matrix<T> {
    /// Two matrices are equal when they have the same shape and the same
    /// buffer contents.
    fn eq(&self, other: &Self) -> (r: bool) {
        if self.x != other.x || self.y != other.y || self.data.len() != other.data.len() {
            return false;
        }
        let n = self.data.len();
        let mut k: usize = 0;
        while k < n
            invariant
                k <= n,
                n == self@.len(),
                self@.len() == other@.len(),
                forall|i: int| 0 <= i < k ==> self@[i] == other@[i],
            decreases n - k,
        {
            if !T::eq_val(self.data[k], other.data[k]) {
                return false;
            }
            k += 1;
        }
        proof {
            assert(self@ =~= other@);
        }
        true
    }
}

impl<T: Number> vstd::std_specs::cmp::PartialEqSpecImpl for Matrix<T> {
    open spec fn obeys_eq_spec() -> bool {
        true
    }

    open spec fn eq_spec(&self, other: &Self) -> bool {
        self.spec_x() == other.spec_x() && self.spec_y() == other.spec_y() && self@ == other@
    }
}

impl<T: Number> Eq for Matrix<T> {
}

} // verus!
