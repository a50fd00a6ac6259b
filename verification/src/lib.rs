//! Fixed-shape linear algebra over verified scalar arithmetic: vectors,
//! row-major matrices, row/column views, slicing and column aggregation.

pub mod number;
pub mod vector;
pub mod matrix;
pub mod ops;
pub mod by_row;
pub mod by_column;
pub mod range;
pub mod iter;
pub mod bycolumn;
pub mod byrow;
pub mod asserts;

pub use number::Number;
pub use vector::Vector;
pub use matrix::Matrix;
