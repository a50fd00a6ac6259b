use vstd::prelude::*;

use crate::matrix::Matrix;
use crate::number::Number;

verus! {

/// A matrix taken by value, marked for row-wise reading. Row order is the
/// default everywhere, so the wrapper only records the choice.
pub struct IntoByRow<T: Number> {
    pub matrix: Matrix<T>,
}

/// A borrowed matrix, marked for row-wise reading.
pub struct ByRow<'a, T: Number> {
    pub matrix: &'a Matrix<T>,
}

impl<T: Number> IntoByRow<T> {
    /// Wraps a matrix for row-wise reading.
    pub fn new(matrix: Matrix<T>) -> (r: Self)
        ensures
            r.matrix == matrix,
    {
        IntoByRow { matrix }
    }
}

impl<'a, T: Number> ByRow<'a, T> {
    /// Wraps a borrowed matrix for row-wise reading.
    pub fn new(matrix: &'a Matrix<T>) -> (r: Self)
        ensures
            r.matrix == matrix,
    {
        ByRow { matrix }
    }
}

} // verus!
