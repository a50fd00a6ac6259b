use matrix::bycolumn::{fold_by_column, mean_by_column};
use matrix::ops::{Get, GetMut, Pipe, Tap};
use matrix::by_column;
use matrix::by_row;
use matrix::ops::{Pow, PowAssign, Slice, Unit};
use matrix::range::{Range, RangeIter};
use matrix::{Matrix, Vector};

fn m_i64(rows: Vec<Vec<i64>>) -> Matrix<i64> {
    Matrix::from_rows(&rows)
}

#[test]
fn unit() {
    let m: Matrix<i64> = Unit::unit(3);

    let expected = m_i64(vec![vec![1, 0, 0], vec![0, 1, 0], vec![0, 0, 1]]);
    assert_eq!(m, expected);
    assert_eq!(&m, &expected);

    let v: Vector<i64> = Unit::unit(3);
    assert_eq!(v, Vector::new(vec![1, 1, 1]));
    assert_eq!(&v, &Vector::new(vec![1, 1, 1]));
}

#[test]
fn transpose() {
    let m = m_i64(vec![vec![1, 2, 3], vec![4, 5, 6]]);

    assert_eq!(m.transpose(), m_i64(vec![vec![1, 4], vec![2, 5], vec![3, 6]]));

    let mut m = m_i64(vec![vec![1, 2, 3], vec![4, 5, 6], vec![7, 8, 9]]);

    let expected = m_i64(vec![vec![1, 4, 7], vec![2, 5, 8], vec![3, 6, 9]]);
    assert_eq!(m.transpose(), expected);

    m.transpose_assign();
    assert_eq!(m, expected);

    let rows: Vec<Vec<usize>> = Vec::new();
    let m = Matrix::<usize>::from_rows(&rows);
    let mut m2 = m.clone();
    m2.transpose_assign();
    assert_eq!(m2, m.transpose());

    let m = Matrix::<usize>::from_rows(&vec![vec![0]]);
    let mut m2 = m.clone();
    m2.transpose_assign();
    assert_eq!(m2, m.transpose());

    for n in 1..=5usize {
        let v = Range::new(0, n * n).to_vector();
        let m = v.into_matrix(n, n);
        let mut m2 = m.clone();
        m2.transpose_assign();
        assert_eq!(m2, m.transpose());
    }
}

#[test]
fn transpose_involution() {
    let m = m_i64(vec![vec![1, 2, 3], vec![4, 5, 6]]);
    assert_eq!(m.transpose().transpose(), m);

    let mut sq = m_i64(vec![vec![1, 2], vec![3, 4]]);
    sq.transpose_assign();
    sq.transpose_assign();
    assert_eq!(sq, m_i64(vec![vec![1, 2], vec![3, 4]]));
}

#[test]
fn reshape() {
    let m = m_i64(vec![vec![1, 2, 3], vec![4, 5, 6]]);

    assert_eq!(m.reshape(2, 3), m_i64(vec![vec![1, 2], vec![3, 4], vec![5, 6]]));

    assert_eq!(
        m.reshape(1, 6),
        m_i64(vec![vec![1], vec![2], vec![3], vec![4], vec![5], vec![6]])
    );

    assert_eq!(m.into_reshape(6, 1), m_i64(vec![vec![1, 2, 3, 4, 5, 6]]));
}

#[test]
fn pow() {
    let mut m: Matrix<i64> = Matrix::fill(3, 4, 2);

    m.pow_assign(2u32);

    assert_eq!(&m, &Matrix::fill(3, 4, 4));
    assert_eq!(
        &m,
        &m_i64(vec![vec![4, 4, 4], vec![4, 4, 4], vec![4, 4, 4], vec![4, 4, 4]])
    );
    assert_eq!((&m).pow(2u32), Matrix::fill(3, 4, 16));
    assert_eq!(matrix::ops::pow(&m, 2u32), Matrix::fill(3, 4, 16));
    assert_eq!(Pow::pow(3i64, &m), Matrix::fill(3, 4, 81));
    assert_eq!(matrix::ops::pow(m, 2u32), Matrix::fill(3, 4, 16));
}

#[test]
fn matrix_x_vector() {
    let m3x2 = m_i64(vec![vec![1, 2, 3], vec![4, 5, 6]]);

    let v2 = Vector::new(vec![7i64, 8]);
    let v3 = Vector::new(vec![7i64, 8, 9]);

    let mut a = m3x2.clone();
    by_row::mul_assign(&mut a, &v3);
    assert_eq!(a, m_i64(vec![vec![7, 16, 27], vec![28, 40, 54]]));

    let mut b = m3x2.transpose();
    by_row::mul_assign(&mut b, &v2);
    assert_eq!(b, m_i64(vec![vec![7, 32], vec![14, 40], vec![21, 48]]));

    let mut c = m3x2.clone();
    by_column::mul_assign(&mut c, &v2);
    assert_eq!(c, m_i64(vec![vec![7, 14, 21], vec![32, 40, 48]]));

    c.sub_assign_scalar(3);
    assert_eq!(c, m_i64(vec![vec![4, 11, 18], vec![29, 37, 45]]));

    let mut m3x2b = m3x2.clone();
    by_row::mul_assign(&mut m3x2b, &v3);
    assert_eq!(m3x2b, m_i64(vec![vec![7, 16, 27], vec![28, 40, 54]]));

    let mut m3x2b = m3x2.clone();
    by_column::mul_assign(&mut m3x2b, &v2);
    assert_eq!(m3x2b, m_i64(vec![vec![7, 14, 21], vec![32, 40, 48]]));

    let ibc = m3x2.clone().into_by_column();
    let mut m3x2b = ibc.matrix;
    by_column::mul_assign(&mut m3x2b, &v2);
    assert_eq!(m3x2b, m_i64(vec![vec![7, 14, 21], vec![32, 40, 48]]));
}

#[test]
fn broadcast_directions_differ() {
    let m = m_i64(vec![vec![1, 2, 3], vec![4, 5, 6]]);
    let v3 = Vector::new(vec![7i64, 8, 9]);
    let v2 = Vector::new(vec![7i64, 8]);

    let mut by_rows = m.clone();
    by_row::mul_assign(&mut by_rows, &v3);
    let mut by_cols = m.clone();
    by_column::mul_assign(&mut by_cols, &v2);

    assert_eq!(by_rows, m_i64(vec![vec![7, 16, 27], vec![28, 40, 54]]));
    assert_eq!(by_cols, m_i64(vec![vec![7, 14, 21], vec![32, 40, 48]]));
    assert_ne!(by_rows, by_cols);
}

#[test]
fn broadcast_sub_div_directions() {
    let m = m_i64(vec![vec![10, 20], vec![30, 40]]);
    let v = Vector::new(vec![1i64, 2]);

    let mut a = m.clone();
    by_row::sub_assign(&mut a, &v);
    assert_eq!(a, m_i64(vec![vec![9, 18], vec![29, 38]]));

    let mut b = m.clone();
    by_row::rsub_assign(&mut b, &v);
    assert_eq!(b, m_i64(vec![vec![-9, -18], vec![-29, -38]]));

    let mut c = m.clone();
    by_column::div_assign(&mut c, &v);
    assert_eq!(c, m_i64(vec![vec![10, 20], vec![15, 20]]));

    let mut d = m.clone();
    by_row::add_assign(&mut d, &v);
    assert_eq!(d, m_i64(vec![vec![11, 22], vec![31, 42]]));

    let mut e = m_i64(vec![vec![2, 3], vec![4, 5]]);
    by_column::rdiv_assign(&mut e, &Vector::new(vec![12i64, 20]));
    assert_eq!(e, m_i64(vec![vec![6, 4], vec![5, 4]]));

    let mut g = m.clone();
    by_column::radd_assign(&mut g, &v);
    assert_eq!(g, m_i64(vec![vec![11, 21], vec![32, 42]]));

    let mut h = m.clone();
    by_row::rmul_assign(&mut h, &v);
    assert_eq!(h, m_i64(vec![vec![10, 40], vec![30, 80]]));
}

#[test]
fn scalar_ops() {
    let m = m_i64(vec![vec![1, 2], vec![3, 4]]);

    let mut a = m.clone();
    a.add_assign_scalar(10);
    assert_eq!(a, m_i64(vec![vec![11, 12], vec![13, 14]]));

    let mut b = m.clone();
    b.mul_assign_scalar(3);
    assert_eq!(b, m_i64(vec![vec![3, 6], vec![9, 12]]));

    let mut c = m.clone();
    c.rsub_assign_scalar(10);
    assert_eq!(c, m_i64(vec![vec![9, 8], vec![7, 6]]));

    let mut d = m_i64(vec![vec![1, 2], vec![3, 4]]);
    d.rdiv_assign_scalar(12);
    assert_eq!(d, m_i64(vec![vec![12, 6], vec![4, 3]]));

    let mut e = m.clone();
    e.div_assign_scalar(2);
    assert_eq!(e, m_i64(vec![vec![0, 1], vec![1, 2]]));

    let mut g = m.clone();
    g.sub_assign_scalar(1);
    assert_eq!(g, m_i64(vec![vec![0, 1], vec![2, 3]]));

    assert_eq!(m.neg(), m_i64(vec![vec![-1, -2], vec![-3, -4]]));
}

#[test]
fn elementwise_matrix_ops() {
    let a = m_i64(vec![vec![1, 2], vec![3, 4]]);
    let b = m_i64(vec![vec![10, 20], vec![30, 40]]);

    let mut s = a.clone();
    s.add_assign(&b);
    assert_eq!(s, m_i64(vec![vec![11, 22], vec![33, 44]]));

    let mut d = b.clone();
    d.sub_assign(&a);
    assert_eq!(d, m_i64(vec![vec![9, 18], vec![27, 36]]));

    let mut p = a.clone();
    p.mul_assign(&b);
    assert_eq!(p, m_i64(vec![vec![10, 40], vec![90, 160]]));

    let mut q = b.clone();
    q.div_assign(&a);
    assert_eq!(q, m_i64(vec![vec![10, 10], vec![10, 10]]));
}

#[test]
fn vector_ops() {
    let a = Vector::new(vec![1i64, 2, 3]);
    let b = Vector::new(vec![10i64, 20, 30]);

    let mut s = a.clone();
    s.add_assign(&b);
    assert_eq!(s, Vector::new(vec![11, 22, 33]));

    let mut d = b.clone();
    d.sub_assign(&a);
    assert_eq!(d, Vector::new(vec![9, 18, 27]));

    let mut p = a.clone();
    p.mul_assign_scalar(4);
    assert_eq!(p, Vector::new(vec![4, 8, 12]));

    let mut q = b.clone();
    q.div_assign(&a);
    assert_eq!(q, Vector::new(vec![10, 10, 10]));

    let mut r = a.clone();
    r.rsub_assign_scalar(5);
    assert_eq!(r, Vector::new(vec![4, 3, 2]));

    assert_eq!(a.neg(), Vector::new(vec![-1, -2, -3]));
}

#[test]
fn matrix_slice() {
    let m = m_i64(vec![
        vec![1, 2, 3, 4, 5],
        vec![6, 7, 8, 9, 10],
        vec![11, 12, 13, 14, 15],
        vec![16, 17, 18, 19, 20],
    ]);

    assert_eq!(
        m.slice((vec![0usize], vec![1usize, 3])),
        m_i64(vec![vec![6], vec![16]])
    );
    assert_eq!(m.slice((vec![0usize, 2], 1usize)), m_i64(vec![vec![6, 8]]));
    assert_eq!(m.slice((0usize, vec![1usize])), m_i64(vec![vec![6]]));
    assert_eq!(m.slice((1usize, 3usize)), m_i64(vec![vec![17]]));
    assert_eq!(
        m.slice(vec![(0usize, 1usize), (2, 3)]),
        Vector::new(vec![6, 18])
    );
    assert_eq!(
        m.slice(vec![vec![(1usize, 3usize), (2, 3)], vec![(0, 1), (1, 3)]]),
        m_i64(vec![vec![17, 18], vec![6, 17]])
    );

    assert_eq!(
        m.slice((vec![1usize, 3], m.range_y())),
        m_i64(vec![vec![2, 4], vec![7, 9], vec![12, 14], vec![17, 19]])
    );

    assert_eq!(
        m.slice((Range::new(2, 5), Range::new(1, 3))),
        m_i64(vec![vec![8, 9, 10], vec![13, 14, 15]])
    );

    assert_eq!(m.slice(m.range_xy()), m.clone());

    assert_eq!(
        m.slice((m.range_x(), 1usize)),
        m_i64(vec![vec![6, 7, 8, 9, 10]])
    );
}

#[test]
fn vector_slice() {
    let v = Vector::new(vec![1i64, 2, 3, 4, 5, 6, 7, 8, 9, 10]);

    assert_eq!(v.slice(1usize), Vector::new(vec![2]));
    assert_eq!(v.slice(vec![0usize, 3]), Vector::new(vec![1, 4]));
    assert_eq!(v.slice(vec![1usize, 2, 3]), Vector::new(vec![2, 3, 4]));
    assert_eq!(v.slice(v.range()), v.clone());
    assert_eq!(v.slice(Range::new(3, 6)), Vector::new(vec![4, 5, 6]));
}

#[test]
fn stepped_range() {
    let r = Range::new(0, 10).step_by(3);
    assert_eq!(r.to_vector(), Vector::new(vec![0usize, 3, 6, 9]));
    assert_eq!(r.length(), 4);
    assert_eq!(r.index_at(2), 6);

    let r = Range::new(1, 7).step_by(2);
    assert_eq!(r.to_vector(), Vector::new(vec![1usize, 3, 5]));

    let v = Vector::new(vec![10i64, 11, 12, 13, 14, 15, 16, 17]);
    assert_eq!(
        v.slice(Range::new(0, 8).step_by(2)),
        Vector::new(vec![10, 12, 14, 16])
    );

    let plain = Range::new(2, 5);
    assert_eq!(plain.to_range(), 2..5);
    assert_eq!(plain.to_vector(), Vector::new(vec![2usize, 3, 4]));
}

#[test]
fn median_odd_rule() {
    // columns [3,1,2], [9,7,8]: odd count takes the middle of the sorted run
    let m = m_i64(vec![vec![3, 9], vec![1, 7], vec![2, 8]]);
    assert_eq!(mean_by_column(&m), Vector::new(vec![2, 8]));

    assert_eq!(m.by_column().mean(), Vector::new(vec![2, 8]));
}

#[test]
fn median_even_rule() {
    // column [4,1,3,2] sorted is [1,2,3,4]: even count averages 2 and 3
    let m = m_i64(vec![vec![4], vec![1], vec![3], vec![2]]);
    assert_eq!(mean_by_column(&m), Vector::new(vec![2]));

    // negative middles divide toward zero: (-4 + -3) / 2 == -3
    let m = m_i64(vec![vec![-4], vec![-3]]);
    assert_eq!(mean_by_column(&m), Vector::new(vec![-3]));

    let m = m_i64(vec![vec![1, 10], vec![3, 20]]);
    assert_eq!(m.into_by_column().mean(), Vector::new(vec![2, 15]));
}

#[test]
fn column_aggregates() {
    let m = m_i64(vec![vec![1, 2, 3], vec![4, 5, 6]]);

    assert_eq!(m.by_column().sum(), Vector::new(vec![5, 7, 9]));
    assert_eq!(m.by_column().product(), Vector::new(vec![4, 10, 18]));
    assert_eq!(m.by_column().avg(), Vector::new(vec![2, 3, 4]));

    let folded = fold_by_column(&m, 0i64, &|acc: i64, v: i64| acc + v);
    assert_eq!(folded, Vector::new(vec![5, 7, 9]));

    let counted = m.by_column().fold(0i64, &|acc: i64, _v: i64| acc + 1);
    assert_eq!(counted, Vector::new(vec![2, 2, 2]));

    // the average truncates toward zero
    let m = m_i64(vec![vec![-3], vec![-4]]);
    assert_eq!(m.by_column().avg(), Vector::new(vec![-3]));
}

#[test]
fn dot_product() {
    let a = m_i64(vec![vec![1, 2], vec![3, 4]]);
    let b = m_i64(vec![vec![5, 6], vec![7, 8]]);

    assert_eq!(a.dot(&b), m_i64(vec![vec![19, 22], vec![43, 50]]));
    assert_eq!(
        matrix::ops::dot(&a, &b),
        m_i64(vec![vec![19, 22], vec![43, 50]])
    );

    let mut c = a.clone();
    c.dot_assign(&b);
    assert_eq!(c, m_i64(vec![vec![19, 22], vec![43, 50]]));

    // rectangular: (2 rows x 3 cols) times (3 rows x 2 cols)
    let a = m_i64(vec![vec![1, 2, 3], vec![4, 5, 6]]);
    let b = m_i64(vec![vec![7, 8], vec![9, 10], vec![11, 12]]);
    assert_eq!(a.dot(&b), m_i64(vec![vec![58, 64], vec![139, 154]]));
}

#[test]
fn get_in_and_out_of_range() {
    let m = m_i64(vec![vec![1, 2, 3], vec![4, 5, 6]]);

    assert_eq!(m.get(0, 0), Some(&1));
    assert_eq!(m.get(2, 1), Some(&6));
    assert_eq!(m.get(1, 1), Some(&m.index(1, 1)));
    assert_eq!(m.get(3, 0), None);
    assert_eq!(m.get(0, 2), None);

    let v = Vector::new(vec![7i64, 8]);
    assert_eq!(v.get(1), Some(&8));
    assert_eq!(v.get(2), None);
}

#[test]
fn try_row_and_try_column() {
    let m = m_i64(vec![vec![1, 2, 3], vec![4, 5, 6]]);

    assert_eq!(m.try_row(0), Some(Vector::new(vec![1, 2, 3])));
    assert_eq!(m.try_row(1), Some(m.row(1)));
    assert_eq!(m.try_row(2), None);

    assert_eq!(m.try_column(0), Some(Vector::new(vec![1, 4])));
    assert_eq!(m.try_column(2), Some(m.column(2)));
    assert_eq!(m.try_column(3), None);

    assert_eq!(m.row(1), Vector::new(vec![4, 5, 6]));
    assert_eq!(m.column(1), Vector::new(vec![2, 5]));
}

#[test]
fn get_mut_and_set() {
    let mut m = m_i64(vec![vec![1, 2], vec![3, 4]]);
    *m.get_mut(0, 1) = 30;
    assert_eq!(m, m_i64(vec![vec![1, 2], vec![30, 4]]));

    m.set(1, 0, 20);
    assert_eq!(m, m_i64(vec![vec![1, 20], vec![30, 4]]));

    let mut v = Vector::new(vec![1i64, 2, 3]);
    *v.get_mut(2) = 33;
    v.set(0, 11);
    assert_eq!(v, Vector::new(vec![11, 2, 33]));
}

#[test]
fn row_iterator() {
    let m = m_i64(vec![vec![1, 2], vec![3, 4], vec![5, 6]]);

    let mut it = m.rows();
    assert_eq!(it.len(), 3);
    assert_eq!(it.next(), Some(Vector::new(vec![1, 2])));
    assert_eq!(it.next(), Some(Vector::new(vec![3, 4])));
    assert_eq!(it.size_hint(), (0, Some(1)));
    assert_eq!(it.next(), Some(Vector::new(vec![5, 6])));
    assert_eq!(it.next(), None);

    let it = m.rows();
    assert_eq!(it.last(), Some(Vector::new(vec![5, 6])));

    let mut it = m.rows();
    assert_eq!(it.nth(2), Some(Vector::new(vec![5, 6])));
    assert_eq!(it.next(), None);
    let mut it = m.rows();
    assert_eq!(it.nth(3), None);
    assert_eq!(it.next(), None);

    // nth consumes the row it hands out
    let mut it = m.rows();
    assert_eq!(it.nth(0), Some(Vector::new(vec![1, 2])));
    assert_eq!(it.next(), Some(Vector::new(vec![3, 4])));
    assert_eq!(it.nth(0), Some(Vector::new(vec![5, 6])));
    assert_eq!(it.next(), None);
    let mut it = m.rows();
    assert_eq!(it.nth(1), Some(Vector::new(vec![3, 4])));
    assert_eq!(it.next(), Some(Vector::new(vec![5, 6])));

    assert_eq!(m.rows().count(), 3);

    let rows = m.iter_vectors();
    assert_eq!(rows.len(), 3);
    assert_eq!(rows[1], Vector::new(vec![3, 4]));
}

#[test]
fn column_iterator() {
    let m = m_i64(vec![vec![1, 2, 3], vec![4, 5, 6]]);

    let mut it = m.columns();
    assert_eq!(it.len(), 3);
    assert_eq!(it.next(), Some(Vector::new(vec![1, 4])));
    assert_eq!(it.next(), Some(Vector::new(vec![2, 5])));
    assert_eq!(it.next(), Some(Vector::new(vec![3, 6])));
    assert_eq!(it.next(), None);

    let it = m.columns();
    assert_eq!(it.last(), Some(Vector::new(vec![3, 6])));

    let mut it = m.columns();
    assert_eq!(it.nth(2), Some(Vector::new(vec![3, 6])));
    assert_eq!(it.next(), None);

    // nth consumes the column it hands out
    let mut it = m.columns();
    assert_eq!(it.nth(0), Some(Vector::new(vec![1, 4])));
    assert_eq!(it.next(), Some(Vector::new(vec![2, 5])));
    let mut it = m.columns();
    assert_eq!(it.nth(1), Some(Vector::new(vec![2, 5])));
    assert_eq!(it.next(), Some(Vector::new(vec![3, 6])));
    assert_eq!(it.nth(0), None);
    assert_eq!(it.next(), None);

    assert_eq!(m.columns().count(), 3);

    let views = m.by_column();
    let mut it = views.iter_vectors();
    assert_eq!(it.next(), Some(Vector::new(vec![1, 4])));
}

#[test]
fn map_and_transpose_map() {
    let m = m_i64(vec![vec![1, 2], vec![3, 4]]);

    let doubled = m.map(&|v: i64| v * 2);
    assert_eq!(doubled, m_i64(vec![vec![2, 4], vec![6, 8]]));

    let mut m2 = m.clone();
    m2.map_assign(&|v: i64| v + 1);
    assert_eq!(m2, m_i64(vec![vec![2, 3], vec![4, 5]]));

    let t = m.transpose_map(&|v: i64| v * 10);
    assert_eq!(t, m_i64(vec![vec![10, 30], vec![20, 40]]));

    let mapped = m.by_column().map(&|v: i64| v - 1);
    assert_eq!(mapped, m_i64(vec![vec![0, 2], vec![1, 3]]));
    assert_eq!(m.by_column().to_matrix(), m.transpose());

    let v = Vector::new(vec![1i64, 2, 3]);
    assert_eq!(v.map(&|x: i64| x * x), Vector::new(vec![1, 4, 9]));
}

#[test]
fn sort_vector() {
    let mut v = Vector::new(vec![5i64, -1, 4, 4, 0]);
    v.sort();
    assert_eq!(v, Vector::new(vec![-1, 0, 4, 4, 5]));

    let mut v: Vector<i64> = Vector::new(vec![]);
    v.sort();
    assert_eq!(v, Vector::new(vec![]));

    let mut v = Vector::new(vec![3usize, 1, 2]);
    v.sort();
    assert_eq!(v, Vector::new(vec![1, 2, 3]));
}

#[test]
fn conversions() {
    let m = m_i64(vec![vec![1, 2, 3], vec![4, 5, 6]]);
    assert_eq!(m.x(), 3);
    assert_eq!(m.y(), 2);

    let flat = m.clone().into_vector();
    assert_eq!(flat, Vector::new(vec![1, 2, 3, 4, 5, 6]));

    let back = flat.into_matrix(3, 2);
    assert_eq!(back, m);

    let v = Vector::new(vec![1i64, 2, 3, 4]);
    assert_eq!(
        v.to_matrix(2, 2),
        m_i64(vec![vec![1, 2], vec![3, 4]])
    );
    assert_eq!(v.len(), 4);

    assert_eq!(m.data().clone(), vec![1, 2, 3, 4, 5, 6]);
    assert_eq!(m.clone().into_data(), vec![1, 2, 3, 4, 5, 6]);
    assert_eq!(v.into_data(), vec![1, 2, 3, 4]);

    let filled: Matrix<i64> = Matrix::fill(2, 2, 7);
    assert_eq!(filled, m_i64(vec![vec![7, 7], vec![7, 7]]));
    let vfilled: Vector<i64> = Vector::fill(3, 9);
    assert_eq!(vfilled, Vector::new(vec![9, 9, 9]));

    let d: Matrix<i64> = Default::default();
    assert_eq!(d.x(), 0);
    assert_eq!(d.y(), 0);
    let dv: Vector<i64> = Default::default();
    assert_eq!(dv.len(), 0);
}

#[test]
fn pow_scalars() {
    assert_eq!(Pow::pow(2i64, 10u32), 1024);
    assert_eq!(matrix::ops::pow(3i32, 0u32), 1);
    assert_eq!(Pow::pow(-2i64, 3u32), -8);
    let mut x = 5i64;
    x.pow_assign(2u32);
    assert_eq!(x, 25);
    assert_eq!(matrix::ops::pow_scalar(10i64, 4u32), 10000);
}

#[test]
fn get_trait_forms() {
    let m = m_i64(vec![vec![1, 2], vec![3, 4]]);
    assert_eq!(Get::get(&m, (1usize, 1usize)), Some(4));
    assert_eq!(Get::get(&m, (2usize, 0usize)), None);
    assert_eq!(Get::get(&m, 0usize), Some(Vector::new(vec![1, 2])));
    assert_eq!(Get::<usize>::get(&m, 2usize), None);

    let mut m = m;
    *GetMut::get_mut(&mut m, (0usize, 0usize)) = 9;
    assert_eq!(m, m_i64(vec![vec![9, 2], vec![3, 4]]));

    let v = Vector::new(vec![5i64, 6]);
    assert_eq!(Get::get(&v, 0usize), Some(5));
    assert_eq!(Get::get(&v, 9usize), None);
}

#[test]
fn tap_and_pipe() {
    let m = m_i64(vec![vec![1, 2], vec![3, 4]]);
    m.tap(|inner: &Matrix<i64>| {
        assert_eq!(inner.x(), 2);
    });
    let doubled = m.pipe(|inner: &Matrix<i64>| inner.map(&|v: i64| v * 2));
    assert_eq!(doubled, m_i64(vec![vec![2, 4], vec![6, 8]]));
    let total_cols = m.into_pipe(|inner: Matrix<i64>| inner.x());
    assert_eq!(total_cols, 2);
}

#[test]
fn by_row_wrappers() {
    let m = m_i64(vec![vec![1, 2], vec![3, 4]]);
    let wrapped = matrix::byrow::ByRow::new(&m);
    assert_eq!(wrapped.matrix, &m);
    let owned = matrix::byrow::IntoByRow::new(m.clone());
    assert_eq!(owned.matrix, m);
    let by_col = matrix::bycolumn::ByColumn::new(&m);
    assert_eq!(by_col.get(0, 1), Some(&2));
    assert_eq!(by_col.get(2, 0), None);
}

#[test]
fn matrix_list_sum_product() {
    let a = m_i64(vec![vec![1, 2], vec![3, 4]]);
    let b = m_i64(vec![vec![10, 20], vec![30, 40]]);
    let c = m_i64(vec![vec![100, 200], vec![300, 400]]);

    assert_eq!(
        Matrix::sum_of(&vec![a.clone(), b.clone(), c.clone()]),
        m_i64(vec![vec![111, 222], vec![333, 444]])
    );
    assert_eq!(Matrix::sum_of(&vec![a.clone()]), a.clone());

    let none: Vec<Matrix<i64>> = Vec::new();
    let empty = Matrix::sum_of(&none);
    assert_eq!(empty.x(), 0);
    assert_eq!(empty.y(), 0);

    assert_eq!(
        Matrix::product_of(&vec![a.clone(), b.clone()]),
        m_i64(vec![vec![10, 40], vec![90, 160]])
    );
    assert_eq!(Matrix::product_of(&none), Matrix::product_of(&none));
}

#[test]
fn from_vectors() {
    let rows = vec![Vector::new(vec![1i64, 2, 3]), Vector::new(vec![4, 5, 6])];
    let m = Matrix::from_vectors(&rows);
    assert_eq!(m, m_i64(vec![vec![1, 2, 3], vec![4, 5, 6]]));

    let none: Vec<Vector<i64>> = Vec::new();
    let empty = Matrix::from_vectors(&none);
    assert_eq!(empty.x(), 0);
    assert_eq!(empty.y(), 0);
}

#[test]
fn vector_list_sum_product() {
    let a = Vector::new(vec![1i64, 2]);
    let b = Vector::new(vec![10i64, 20]);

    assert_eq!(
        Vector::sum_of(&vec![a.clone(), b.clone()]),
        Vector::new(vec![11, 22])
    );
    assert_eq!(
        Vector::product_of(&vec![a.clone(), b.clone()]),
        Vector::new(vec![10, 40])
    );

    let none: Vec<Vector<i64>> = Vec::new();
    assert_eq!(Vector::sum_of(&none).len(), 0);
    assert_eq!(Vector::product_of(&none).len(), 0);
}

#[test]
fn view_slice_swaps_ranges() {
    let m = m_i64(vec![vec![1, 2, 3], vec![4, 5, 6]]);

    // the column view takes the row range first
    let sliced = m.by_column().slice((Range::new(0, 2), Range::new(1, 3)));
    assert_eq!(sliced, m.slice((Range::new(1, 3), Range::new(0, 2))));
    assert_eq!(sliced, m_i64(vec![vec![2, 3], vec![5, 6]]));

    let owned = m.clone().into_by_column();
    let sliced = owned.slice((Range::new(0, 2), Range::new(1, 3)));
    assert_eq!(sliced, m_i64(vec![vec![2, 3], vec![5, 6]]));
}

#[test]
fn by_column_get_mut() {
    let m = m_i64(vec![vec![1, 2, 3], vec![4, 5, 6]]);
    let mut owned = m.into_by_column();
    // view coordinates are (row, column)
    *owned.get_mut(1, 2) = 60;
    assert_eq!(owned.matrix, m_i64(vec![vec![1, 2, 3], vec![4, 5, 60]]));
}

#[test]
fn try_set_in_and_out_of_range() {
    let mut m = m_i64(vec![vec![1, 2], vec![3, 4]]);
    assert!(m.try_set(1, 0, 20));
    assert_eq!(m, m_i64(vec![vec![1, 20], vec![3, 4]]));
    assert!(!m.try_set(2, 0, 99));
    assert!(!m.try_set(0, 2, 99));
    assert_eq!(m, m_i64(vec![vec![1, 20], vec![3, 4]]));

    let mut v = Vector::new(vec![5i64, 6]);
    assert!(v.try_set(1, 60));
    assert_eq!(v, Vector::new(vec![5, 60]));
    assert!(!v.try_set(2, 99));
    assert_eq!(v, Vector::new(vec![5, 60]));
}

#[test]
fn view_coordinate_slices() {
    let m = m_i64(vec![vec![1, 2, 3], vec![4, 5, 6]]);

    // view coordinates read (row, column): (a, b) reaches entry (b, a)
    let gathered = m.by_column().slice(vec![(0usize, 0usize), (1, 2), (0, 1)]);
    assert_eq!(gathered, Vector::new(vec![1, 6, 2]));

    let owned = m.clone().into_by_column();
    let gathered = owned.slice(vec![(1usize, 1usize), (0, 2)]);
    assert_eq!(gathered, Vector::new(vec![5, 3]));

    let nested = m
        .by_column()
        .slice(vec![vec![(0usize, 0usize), (1, 0)], vec![(0, 1), (1, 1)]]);
    assert_eq!(nested, m_i64(vec![vec![1, 4], vec![2, 5]]));

    let nested = owned.slice(vec![vec![(1usize, 2usize)], vec![(0, 0)]]);
    assert_eq!(nested, m_i64(vec![vec![6], vec![1]]));
}
