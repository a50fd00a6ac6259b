use vstd::prelude::*;

use crate::matrix::Matrix;
use crate::number::Number;
use crate::vector::Vector;

verus! {

/// Walks the rows of a borrowed matrix from top to bottom, handing each row
/// out as a fresh vector.
pub struct RowIter<'a, T: Number> {
    matrix: &'a Matrix<T>,
    index: usize,
}

impl<'a, T: Number> RowIter<'a, T> {
    /// The matrix being walked.
    pub closed spec fn src(&self) -> Matrix<T> {
        *self.matrix
    }

    /// The row the next step hands out.
    pub closed spec fn pos(&self) -> usize {
        self.index
    }

    /// The walk stands on a row index no further than one past the last row
    /// of a well-formed matrix.
    pub open spec fn wf(&self) -> bool {
        self.src().wf() && self.pos() <= self.src().spec_y()
    }

    /// A walk over the rows of `matrix`, starting at the first.
    pub fn new(matrix: &'a Matrix<T>) -> (r: Self)
        requires
            matrix.wf(),
        ensures
            r.wf(),
            r.src() == *matrix,
            r.pos() == 0,
    {
        RowIter { matrix, index: 0 }
    }

    /// The next row, advancing the walk; `None` once every row was handed
    /// out.
    pub fn next(&mut self) -> (r: Option<Vector<T>>)
        requires
            old(self).wf(),
        ensures
            final(self).wf(),
            final(self).src() == old(self).src(),
            r.is_some() <==> old(self).pos() < old(self).src().spec_y(),
            r.is_some() ==> final(self).pos() == old(self).pos() + 1,
            r.is_none() ==> final(self).pos() == old(self).pos(),
            r.is_some() ==> {
                let v = r.unwrap();
                v@.len() == old(self).src().spec_x() && forall|i: int|
                    0 <= i < old(self).src().spec_x() ==> v@[i] == old(self).src().at(
                        i,
                        old(self).pos() as int,
                    )
            },
    {
        if self.index >= self.matrix.y() {
            return None;
        }
        let row = self.matrix.row(self.index);
        self.index += 1;
        Some(row)
    }

    /// What is still to come: no promise below, and the count of rows left
    /// above.
    pub fn size_hint(&self) -> (r: (usize, Option<usize>))
        requires
            self.wf(),
        ensures
            r.0 == 0,
            r.1 == Some((self.src().spec_y() - self.pos()) as usize),
    {
        (0, Some(self.matrix.y() - self.index))
    }

    /// The last row, without stepping through the ones between; `None` when
    /// the walk is already done.
    pub fn last(self) -> (r: Option<Vector<T>>)
        requires
            self.wf(),
        ensures
            r.is_some() <==> self.pos() < self.src().spec_y(),
            r.is_some() ==> {
                let v = r.unwrap();
                v@.len() == self.src().spec_x() && forall|i: int|
                    0 <= i < self.src().spec_x() ==> v@[i] == self.src().at(
                        i,
                        self.src().spec_y() - 1,
                    )
            },
    {
        if self.index >= self.matrix.y() {
            return None;
        }
        Some(self.matrix.row(self.matrix.y() - 1))
    }

    /// How many rows are left.
    pub fn count(self) -> (r: usize)
        requires
            self.wf(),
        ensures
            r == self.src().spec_y() - self.pos(),
    {
        self.matrix.y() - self.index
    }

    /// Skips `n` rows by one offset jump and hands out the row it lands on,
    /// consuming it: the following step yields the row after it. Past the
    /// end it leaves the walk exhausted.
    pub fn nth(&mut self, n: usize) -> (r: Option<Vector<T>>)
        requires
            old(self).wf(),
        ensures
            final(self).wf(),
            final(self).src() == old(self).src(),
            r.is_some() <==> old(self).pos() + n < old(self).src().spec_y(),
            r.is_some() ==> final(self).pos() == old(self).pos() + n + 1,
            r.is_none() ==> final(self).pos() == old(self).src().spec_y(),
            r.is_some() ==> {
                let v = r.unwrap();
                v@.len() == old(self).src().spec_x() && forall|i: int|
                    0 <= i < old(self).src().spec_x() ==> v@[i] == old(self).src().at(
                        i,
                        old(self).pos() + n,
                    )
            },
    {
        let rem = self.matrix.y() - self.index;
        if n >= rem {
            self.index = self.matrix.y();
            return None;
        }
        let row = self.matrix.row(self.index + n);
        self.index = self.index + n + 1;
        Some(row)
    }

    /// How many rows are left, as an exact length.
    pub fn len(&self) -> (r: usize)
        requires
            self.wf(),
        ensures
            r == self.src().spec_y() - self.pos(),
    {
        self.matrix.y() - self.index
    }
}

/// Walks the columns of a borrowed matrix from left to right, gathering each
/// column into a fresh vector.
pub struct ColumnIter<'a, T: Number> {
    matrix: &'a Matrix<T>,
    index: usize,
}

impl<'a, T: Number> ColumnIter<'a, T> {
    /// The matrix being walked.
    pub closed spec fn src(&self) -> Matrix<T> {
        *self.matrix
    }

    /// The column the next step hands out.
    pub closed spec fn pos(&self) -> usize {
        self.index
    }

    /// The walk stands on a column index no further than one past the last
    /// column of a well-formed matrix.
    pub open spec fn wf(&self) -> bool {
        self.src().wf() && self.pos() <= self.src().spec_x()
    }

    /// A walk over the columns of `matrix`, starting at the first.
    pub fn new(matrix: &'a Matrix<T>) -> (r: Self)
        requires
            matrix.wf(),
        ensures
            r.wf(),
            r.src() == *matrix,
            r.pos() == 0,
    {
        ColumnIter { matrix, index: 0 }
    }

    /// The next column, advancing the walk; `None` once every column was
    /// handed out.
    pub fn next(&mut self) -> (r: Option<Vector<T>>)
        requires
            old(self).wf(),
        ensures
            final(self).wf(),
            final(self).src() == old(self).src(),
            r.is_some() <==> old(self).pos() < old(self).src().spec_x(),
            r.is_some() ==> final(self).pos() == old(self).pos() + 1,
            r.is_none() ==> final(self).pos() == old(self).pos(),
            r.is_some() ==> {
                let v = r.unwrap();
                v@.len() == old(self).src().spec_y() && forall|i: int|
                    0 <= i < old(self).src().spec_y() ==> v@[i] == old(self).src().at(
                        old(self).pos() as int,
                        i,
                    )
            },
    {
        let r = self.matrix.try_column(self.index);
        if r.is_some() {
            self.index += 1;
        }
        r
    }

    /// What is still to come: no promise below, and the count of columns
    /// left above.
    pub fn size_hint(&self) -> (r: (usize, Option<usize>))
        requires
            self.wf(),
        ensures
            r.0 == 0,
            r.1 == Some((self.src().spec_x() - self.pos()) as usize),
    {
        (0, Some(self.matrix.x() - self.index))
    }

    /// The last column, without stepping through the ones between; `None`
    /// when the walk is already done.
    pub fn last(self) -> (r: Option<Vector<T>>)
        requires
            self.wf(),
        ensures
            r.is_some() <==> self.pos() < self.src().spec_x(),
            r.is_some() ==> {
                let v = r.unwrap();
                v@.len() == self.src().spec_y() && forall|i: int|
                    0 <= i < self.src().spec_y() ==> v@[i] == self.src().at(
                        self.src().spec_x() - 1,
                        i,
                    )
            },
    {
        if self.index >= self.matrix.x() {
            return None;
        }
        self.matrix.try_column(self.matrix.x() - 1)
    }

    /// How many columns are left.
    pub fn count(self) -> (r: usize)
        requires
            self.wf(),
        ensures
            r == self.src().spec_x() - self.pos(),
    {
        self.matrix.x() - self.index
    }

    /// Skips `n` columns by one index jump and hands out the column it lands
    /// on, consuming it: the following step yields the column after it. Past
    /// the end it leaves the walk exhausted.
    pub fn nth(&mut self, n: usize) -> (r: Option<Vector<T>>)
        requires
            old(self).wf(),
        ensures
            final(self).wf(),
            final(self).src() == old(self).src(),
            r.is_some() <==> old(self).pos() + n < old(self).src().spec_x(),
            r.is_some() ==> final(self).pos() == old(self).pos() + n + 1,
            r.is_none() ==> final(self).pos() == old(self).src().spec_x(),
            r.is_some() ==> {
                let v = r.unwrap();
                v@.len() == old(self).src().spec_y() && forall|i: int|
                    0 <= i < old(self).src().spec_y() ==> v@[i] == old(self).src().at(
                        old(self).pos() + n,
                        i,
                    )
            },
    {
        let rem = self.matrix.x() - self.index;
        if n >= rem {
            self.index = self.matrix.x();
            return None;
        }
        let column = self.matrix.column(self.index + n);
        self.index = self.index + n + 1;
        Some(column)
    }

    /// How many columns are left, as an exact length.
    pub fn len(&self) -> (r: usize)
        requires
            self.wf(),
        ensures
            r == self.src().spec_x() - self.pos(),
    {
        self.matrix.x() - self.index
    }
}

impl<T: Number> Matrix<T> {
    /// A walk over this matrix's rows.
    pub fn rows(&self) -> (r: RowIter<'_, T>)
        requires
            self.wf(),
        ensures
            r.wf(),
            r.src() == *self,
            r.pos() == 0,
    {
        RowIter::new(self)
    }

    /// A walk over this matrix's columns.
    pub fn columns(&self) -> (r: ColumnIter<'_, T>)
        requires
            self.wf(),
        ensures
            r.wf(),
            r.src() == *self,
            r.pos() == 0,
    {
        ColumnIter::new(self)
    }

    /// The rows as a list of fresh vectors, in order.
    pub fn iter_vectors(&self) -> (r: Vec<Vector<T>>)
        requires
            self.wf(),
        ensures
            r@.len() == self.spec_y(),
            forall|cy: int|
                0 <= cy < self.spec_y() ==> {
                    let v = #[trigger] r@[cy];
                    v@.len() == self.spec_x() && forall|i: int|
                        0 <= i < self.spec_x() ==> v@[i] == self.at(i, cy)
                },
    {
        let y = self.y();
        let mut out: Vec<Vector<T>> = Vec::new();
        let mut k: usize = 0;
        while k < y
            invariant
                k <= y,
                y == self.spec_y(),
                self.wf(),
                out@.len() == k,
                forall|cy: int|
                    0 <= cy < k ==> {
                        let v = #[trigger] out@[cy];
                        v@.len() == self.spec_x() && forall|i: int|
                            0 <= i < self.spec_x() ==> v@[i] == self.at(i, cy)
                    },
            decreases y - k,
        {
            out.push(self.row(k));
            k += 1;
        }
        out
    }
}

} // verus!
