use vstd::prelude::*;

use crate::matrix::Matrix;
use crate::number::Number;
use crate::vector::Vector;

verus! {

/// A distinguished value of a given size: the identity matrix, or the
/// all-ones vector.
pub trait Unit: Sized {
    /// What the unit of size `n` looks like.
    spec fn unit_post(n: usize, r: Self) -> bool;

    fn unit(n: usize) -> (r: Self)
        ensures
            Self::unit_post(n, r),
    ;
}

/// Bounds-checked access by some index shape, returning the element (or row,
/// or column) as an owned value: `None` exactly out of bounds.
pub trait Get<Idx> {
    type Output;

    /// What the container asks of itself before answering.
    spec fn get_req(&self, index: Idx) -> bool;

    /// What the answer means: when it is present and what it holds.
    spec fn get_post(&self, index: Idx, r: Option<Self::Output>) -> bool;

    fn get(&self, index: Idx) -> (r: Option<Self::Output>)
        requires
            self.get_req(index),
        ensures
            self.get_post(index, r),
    ;
}

/// Mutable access by index; the index must be in range. The container
/// afterwards holds, at that index, whatever the caller leaves behind the
/// returned reference.
pub trait GetMut<Idx>: Get<Idx> + Sized {
    /// When the index may be handed to `get_mut`.
    spec fn get_mut_req(&self, index: Idx) -> bool;

    /// How the container after the borrow relates to the one before, the
    /// element first seen and the element left behind.
    spec fn get_mut_post(
        pre: Self,
        index: Idx,
        post: Self,
        elem_pre: Self::Output,
        elem_post: Self::Output,
    ) -> bool;

    fn get_mut(&mut self, index: Idx) -> (r: &mut Self::Output)
        requires
            old(self).get_mut_req(index),
        ensures
            Self::get_mut_post(*old(self), index, *final(self), *r, *final(r)),
    ;
}

/// Raising to a power, written as its own operation since Rust's `^` means
/// something else.
pub trait Pow<Rhs>: Sized {
    type Output;

    /// When the power stays in range.
    spec fn pow_req(self, rhs: Rhs) -> bool;

    /// What the power is.
    spec fn pow_post(self, rhs: Rhs, r: Self::Output) -> bool;

    fn pow(self, rhs: Rhs) -> (r: Self::Output)
        requires
            self.pow_req(rhs),
        ensures
            self.pow_post(rhs, r),
    ;
}

/// In-place raising to a power.
pub trait PowAssign<Rhs>: Sized {
    /// When the power stays in range.
    spec fn pow_assign_req(self, rhs: Rhs) -> bool;

    /// How the value after relates to the value before.
    spec fn pow_assign_post(pre: Self, rhs: Rhs, post: Self) -> bool;

    fn pow_assign(&mut self, rhs: Rhs)
        requires
            old(self).pow_assign_req(rhs),
        ensures
            Self::pow_assign_post(*old(self), rhs, *final(self)),
    ;
}

/// The matrix (or inner) product.
pub trait Dot<Rhs>: Sized {
    type Output;

    /// When the shapes agree and no partial sum leaves the scalar range.
    spec fn dot_req(self, rhs: Rhs) -> bool;

    /// What the product is.
    spec fn dot_post(self, rhs: Rhs, r: Self::Output) -> bool;

    fn dot(self, rhs: Rhs) -> (r: Self::Output)
        requires
            self.dot_req(rhs),
        ensures
            self.dot_post(rhs, r),
    ;
}

/// The matrix product, stored back into the left operand.
pub trait DotAssign<Rhs>: Sized {
    /// When the shapes agree and no partial sum leaves the scalar range.
    spec fn dot_assign_req(self, rhs: Rhs) -> bool;

    /// How the value after relates to the value before.
    spec fn dot_assign_post(pre: Self, rhs: Rhs, post: Self) -> bool;

    fn dot_assign(&mut self, rhs: Rhs)
        requires
            old(self).dot_assign_req(rhs),
        ensures
            Self::dot_assign_post(*old(self), rhs, *final(self)),
    ;
}

/// The cross product. The library declares the operation for its users to
/// implement: an implementor says through the two spec functions when the
/// product is defined and what it is, and proves its `cross` against them.
/// No type here carries the operation yet.
pub trait Cross<Rhs>: Sized {
    type Output;

    /// When the product is defined.
    spec fn cross_req(self, rhs: Rhs) -> bool;

    /// What the product is.
    spec fn cross_post(self, rhs: Rhs, r: Self::Output) -> bool;

    fn cross(self, rhs: Rhs) -> (r: Self::Output)
        requires
            self.cross_req(rhs),
        ensures
            self.cross_post(rhs, r),
    ;
}

/// The cross product, stored back into the left operand; declared for users
/// to implement, like `Cross`.
pub trait CrossAssign<Rhs>: Sized {
    /// When the product is defined.
    spec fn cross_assign_req(self, rhs: Rhs) -> bool;

    /// How the value after relates to the value before.
    spec fn cross_assign_post(pre: Self, rhs: Rhs, post: Self) -> bool;

    fn cross_assign(&mut self, rhs: Rhs)
        requires
            old(self).cross_assign_req(rhs),
        ensures
            Self::cross_assign_post(*old(self), rhs, *final(self)),
    ;
}

/// Extracting a sub-matrix or sub-vector described by an index shape: ranges,
/// index lists, or coordinate lists.
pub trait Slice<Idx> {
    type Output;

    /// When the description fits inside the shape.
    spec fn slice_req(&self, index: Idx) -> bool;

    /// What the extracted value holds.
    spec fn slice_post(&self, index: Idx, r: Self::Output) -> bool;

    fn slice(&self, index: Idx) -> (r: Self::Output)
        requires
            self.slice_req(index),
        ensures
            self.slice_post(index, r),
    ;
}

/// Runs a side inspection over a borrow of the value, keeping the value as
/// it is.
pub trait Tap: Sized {
    fn tap<F: FnOnce(&Self) -> ()>(&self, f: F)
        requires
            call_requires(f, (&*self,)),
    {
        f(self);
    }

    fn tap_mut<F: FnOnce(&Self) -> ()>(&mut self, f: F)
        requires
            call_requires(f, (&*old(self),)),
        ensures
            *final(self) == *old(self),
    {
        f(self);
    }
}

/// Feeds the value to a function and hands its answer back.
pub trait Pipe: Sized {
    fn pipe<U, F: FnOnce(&Self) -> U>(&self, f: F) -> (r: U)
        requires
            call_requires(f, (&*self,)),
        ensures
            call_ensures(f, (&*self,), r),
    {
        f(self)
    }

    fn pipe_mut<U, F: FnOnce(&Self) -> U>(&mut self, f: F) -> (r: U)
        requires
            call_requires(f, (&*old(self),)),
        ensures
            *final(self) == *old(self),
            call_ensures(f, (&*old(self),), r),
    {
        f(self)
    }

    fn into_pipe<U, F: FnOnce(Self) -> U>(self, f: F) -> (r: U)
        requires
            call_requires(f, (self,)),
        ensures
            call_ensures(f, (self,), r),
    {
        f(self)
    }
}

impl<T: Number> Tap for Matrix<T> {

}

impl<T: Number> Tap for Vector<T> {

}

impl<T: Number> Pipe for Matrix<T> {

}

impl<T: Number> Pipe for Vector<T> {

}

/// Raises `lhs` to `rhs` through whatever `Pow` implementation fits.
pub fn pow<Lhs: Pow<Rhs>, Rhs>(lhs: Lhs, rhs: Rhs) -> (r: Lhs::Output)
    requires
        lhs.pow_req(rhs),
    ensures
        lhs.pow_post(rhs, r),
{
    lhs.pow(rhs)
}

/// Multiplies `lhs` by `rhs` through whatever `Dot` implementation fits.
pub fn dot<Lhs: Dot<Rhs>, Rhs>(lhs: Lhs, rhs: Rhs) -> (r: Lhs::Output)
    requires
        lhs.dot_req(rhs),
    ensures
        lhs.dot_post(rhs, r),
{
    lhs.dot(rhs)
}

/// Crosses `lhs` with `rhs` through whatever `Cross` implementation fits:
/// one call, its answer handed back unchanged.
pub fn cross<Lhs: Cross<Rhs>, Rhs>(lhs: Lhs, rhs: Rhs) -> (r: Lhs::Output)
    requires
        lhs.cross_req(rhs),
    ensures
        lhs.cross_post(rhs, r),
{
    lhs.cross(rhs)
}

/// The identity pattern: one on the diagonal, zero elsewhere.
pub open spec fn ident_entry<T: Number>(pa: int, pb: int) -> T {
    if pa == pb {
        T::one_spec()
    } else {
        T::zero_spec()
    }
}

impl<T: Number> Unit for Matrix<T> {
    /// The identity: ones on the diagonal, zeroes elsewhere.
    open spec fn unit_post(n: usize, r: Self) -> bool {
        &&& r.wf()
        &&& r.spec_x() == n
        &&& r.spec_y() == n
        &&& forall|cx: int, cy: int|
            0 <= cx < n && 0 <= cy < n ==> #[trigger] r.at(cx, cy) == (if cx == cy {
                T::one_spec()
            } else {
                T::zero_spec()
            })
    }

    fn unit(n: usize) -> (r: Self)
        ensures
            Self::unit_post(n, r),
    {
        let zero = T::zero();
        let one = T::one();
        let mut data: Vec<T> = Vec::new();
        let mut cy: usize = 0;
        while cy < n
            invariant
                cy <= n,
                one == T::one_spec(),
                zero == T::zero_spec(),
                data@.len() == cy * n,
                forall|pa: int, pb: int|
                    0 <= pa < n && 0 <= pb < cy ==> #[trigger] data@[pb * n + pa] == ident_entry::<
                        T,
                    >(pa, pb),
            decreases n - cy,
        {
            let mut cx: usize = 0;
            while cx < n
                invariant
                    cx <= n,
                    cy < n,
                    one == T::one_spec(),
                    zero == T::zero_spec(),
                    data@.len() == cy * n + cx,
                    forall|pa: int, pb: int|
                        0 <= pa < n && 0 <= pb < cy ==> #[trigger] data@[pb * n + pa]
                            == ident_entry::<T>(pa, pb),
                    forall|pa: int|
                        0 <= pa < cx ==> #[trigger] data@[cy * n + pa] == ident_entry::<T>(
                            pa,
                            cy as int,
                        ),
                decreases n - cx,
            {
                let v = if cx == cy { one } else { zero };
                data.push(v);
                cx += 1;
                proof {
                    assert forall|pa: int, pb: int|
                        0 <= pa < n && 0 <= pb < cy implies #[trigger] data@[pb * n + pa]
                        == ident_entry::<T>(pa, pb) by {
                        vstd::arithmetic::mul::lemma_mul_inequality(pb, cy - 1, n as int);
                        assert((cy - 1) * n + n == cy * n) by (nonlinear_arith);
                    }
                }
            }
            cy += 1;
            proof {
                assert((cy - 1) * n + n == cy * n) by (nonlinear_arith);
                assert forall|pa: int, pb: int|
                    0 <= pa < n && 0 <= pb < cy implies #[trigger] data@[pb * n + pa]
                    == ident_entry::<T>(pa, pb) by {
                    if pb == cy - 1 {
                        assert(data@[(cy - 1) * n + pa] == ident_entry::<T>(pa, cy - 1));
                    }
                }
            }
        }
        let m = Matrix::new(n, n, data);
        proof {
            assert forall|cx: int, cy: int|
                0 <= cx < n && 0 <= cy < n implies #[trigger] m.at(cx, cy) == ident_entry::<T>(
                cx,
                cy,
            ) by {
                crate::matrix::lemma_offset_bound(n as int, n as int, cx, cy);
            }
        }
        m
    }
}

impl<T: Number> Unit for Vector<T> {
    /// The all-ones vector.
    open spec fn unit_post(n: usize, r: Self) -> bool {
        r@.len() == n && forall|i: int| 0 <= i < n ==> r@[i] == T::one_spec()
    }

    fn unit(n: usize) -> (r: Self)
        ensures
            Self::unit_post(n, r),
    {
        Vector::fill(n, T::one())
    }
}

/// Repeated multiplication, folded from the left: `e` factors of `b` onto
/// one.
pub open spec fn pow_spec<T: Number>(b: T, e: nat) -> T
    decreases e,
{
    if e == 0 {
        T::one_spec()
    } else {
        T::mul_spec(pow_spec(b, (e - 1) as nat), b)
    }
}

/// Whether every step of that fold stays in range.
pub open spec fn pow_ok<T: Number>(b: T, e: nat) -> bool
    decreases e,
{
    e == 0 || (pow_ok(b, (e - 1) as nat) && T::can_mul(pow_spec(b, (e - 1) as nat), b))
}

/// An in-range power stays in range at every smaller exponent.
proof fn lemma_pow_ok_le<T: Number>(b: T, j: nat, k: nat)
    requires
        pow_ok(b, k),
        j <= k,
    ensures
        pow_ok(b, j),
    decreases k - j,
{
    if j < k {
        lemma_pow_ok_le(b, j, (k - 1) as nat);
    }
}

/// Raises a scalar to a small natural power by repeated multiplication.
pub fn pow_scalar<T: Number>(b: T, e: u32) -> (r: T)
    requires
        pow_ok(b, e as nat),
    ensures
        r == pow_spec(b, e as nat),
{
    let mut acc = T::one();
    let mut k: u32 = 0;
    while k < e
        invariant
            k <= e,
            pow_ok(b, e as nat),
            acc == pow_spec(b, k as nat),
        decreases e - k,
    {
        proof {
            lemma_pow_ok_le(b, (k + 1) as nat, e as nat);
        }
        acc = T::mul(acc, b);
        k += 1;
    }
    acc
}

impl Pow<u32> for i8 {
    type Output = i8;

    open spec fn pow_req(self, rhs: u32) -> bool {
        pow_ok(self, rhs as nat)
    }

    open spec fn pow_post(self, rhs: u32, r: i8) -> bool {
        r == pow_spec(self, rhs as nat)
    }

    fn pow(self, rhs: u32) -> i8 {
        pow_scalar(self, rhs)
    }
}

impl Pow<u32> for i16 {
    type Output = i16;

    open spec fn pow_req(self, rhs: u32) -> bool {
        pow_ok(self, rhs as nat)
    }

    open spec fn pow_post(self, rhs: u32, r: i16) -> bool {
        r == pow_spec(self, rhs as nat)
    }

    fn pow(self, rhs: u32) -> i16 {
        pow_scalar(self, rhs)
    }
}

impl Pow<u32> for i32 {
    type Output = i32;

    open spec fn pow_req(self, rhs: u32) -> bool {
        pow_ok(self, rhs as nat)
    }

    open spec fn pow_post(self, rhs: u32, r: i32) -> bool {
        r == pow_spec(self, rhs as nat)
    }

    fn pow(self, rhs: u32) -> i32 {
        pow_scalar(self, rhs)
    }
}

impl Pow<u32> for i64 {
    type Output = i64;

    open spec fn pow_req(self, rhs: u32) -> bool {
        pow_ok(self, rhs as nat)
    }

    open spec fn pow_post(self, rhs: u32, r: i64) -> bool {
        r == pow_spec(self, rhs as nat)
    }

    fn pow(self, rhs: u32) -> i64 {
        pow_scalar(self, rhs)
    }
}

impl Pow<u32> for i128 {
    type Output = i128;

    open spec fn pow_req(self, rhs: u32) -> bool {
        pow_ok(self, rhs as nat)
    }

    open spec fn pow_post(self, rhs: u32, r: i128) -> bool {
        r == pow_spec(self, rhs as nat)
    }

    fn pow(self, rhs: u32) -> i128 {
        pow_scalar(self, rhs)
    }
}

impl Pow<u32> for isize {
    type Output = isize;

    open spec fn pow_req(self, rhs: u32) -> bool {
        pow_ok(self, rhs as nat)
    }

    open spec fn pow_post(self, rhs: u32, r: isize) -> bool {
        r == pow_spec(self, rhs as nat)
    }

    fn pow(self, rhs: u32) -> isize {
        pow_scalar(self, rhs)
    }
}

impl PowAssign<u32> for i8 {
    open spec fn pow_assign_req(self, rhs: u32) -> bool {
        pow_ok(self, rhs as nat)
    }

    open spec fn pow_assign_post(pre: Self, rhs: u32, post: Self) -> bool {
        post == pow_spec(pre, rhs as nat)
    }

    fn pow_assign(&mut self, rhs: u32) {
        *self = pow_scalar(*self, rhs);
    }
}

impl PowAssign<u32> for i16 {
    open spec fn pow_assign_req(self, rhs: u32) -> bool {
        pow_ok(self, rhs as nat)
    }

    open spec fn pow_assign_post(pre: Self, rhs: u32, post: Self) -> bool {
        post == pow_spec(pre, rhs as nat)
    }

    fn pow_assign(&mut self, rhs: u32) {
        *self = pow_scalar(*self, rhs);
    }
}

impl PowAssign<u32> for i32 {
    open spec fn pow_assign_req(self, rhs: u32) -> bool {
        pow_ok(self, rhs as nat)
    }

    open spec fn pow_assign_post(pre: Self, rhs: u32, post: Self) -> bool {
        post == pow_spec(pre, rhs as nat)
    }

    fn pow_assign(&mut self, rhs: u32) {
        *self = pow_scalar(*self, rhs);
    }
}

impl PowAssign<u32> for i64 {
    open spec fn pow_assign_req(self, rhs: u32) -> bool {
        pow_ok(self, rhs as nat)
    }

    open spec fn pow_assign_post(pre: Self, rhs: u32, post: Self) -> bool {
        post == pow_spec(pre, rhs as nat)
    }

    fn pow_assign(&mut self, rhs: u32) {
        *self = pow_scalar(*self, rhs);
    }
}

impl PowAssign<u32> for i128 {
    open spec fn pow_assign_req(self, rhs: u32) -> bool {
        pow_ok(self, rhs as nat)
    }

    open spec fn pow_assign_post(pre: Self, rhs: u32, post: Self) -> bool {
        post == pow_spec(pre, rhs as nat)
    }

    fn pow_assign(&mut self, rhs: u32) {
        *self = pow_scalar(*self, rhs);
    }
}

impl PowAssign<u32> for isize {
    open spec fn pow_assign_req(self, rhs: u32) -> bool {
        pow_ok(self, rhs as nat)
    }

    open spec fn pow_assign_post(pre: Self, rhs: u32, post: Self) -> bool {
        post == pow_spec(pre, rhs as nat)
    }

    fn pow_assign(&mut self, rhs: u32) {
        *self = pow_scalar(*self, rhs);
    }
}

impl<T: Number> PowAssign<u32> for Matrix<T> {
    /// Every element must stay in range through its whole power.
    open spec fn pow_assign_req(self, rhs: u32) -> bool {
        forall|i: int| 0 <= i < self@.len() ==> pow_ok(#[trigger] self@[i], rhs as nat)
    }

    /// Every element is raised to the same power, in place.
    open spec fn pow_assign_post(pre: Self, rhs: u32, post: Self) -> bool {
        &&& post.spec_x() == pre.spec_x()
        &&& post.spec_y() == pre.spec_y()
        &&& post@.len() == pre@.len()
        &&& forall|i: int| 0 <= i < pre@.len() ==> #[trigger] post@[i] == pow_spec(pre@[i], rhs as nat)
    }

    fn pow_assign(&mut self, rhs: u32) {
        let f = |a: T| -> (r: T)
            requires
                pow_ok(a, rhs as nat),
            ensures
                r == pow_spec(a, rhs as nat),
            { pow_scalar(a, rhs) };
        self.map_assign(&f);
    }
}

impl<T: Number> Pow<u32> for Matrix<T> {
    type Output = Matrix<T>;

    open spec fn pow_req(self, rhs: u32) -> bool {
        forall|i: int| 0 <= i < self@.len() ==> pow_ok(#[trigger] self@[i], rhs as nat)
    }

    /// Every element is raised to the same power.
    open spec fn pow_post(self, rhs: u32, r: Matrix<T>) -> bool {
        &&& r.spec_x() == self.spec_x()
        &&& r.spec_y() == self.spec_y()
        &&& r@.len() == self@.len()
        &&& forall|i: int| 0 <= i < self@.len() ==> #[trigger] r@[i] == pow_spec(self@[i], rhs as nat)
    }

    fn pow(self, rhs: u32) -> Matrix<T> {
        let mut m = self;
        m.pow_assign(rhs);
        m
    }
}

impl<T: Number> Pow<u32> for &Matrix<T> {
    type Output = Matrix<T>;

    open spec fn pow_req(self, rhs: u32) -> bool {
        forall|i: int| 0 <= i < self@.len() ==> pow_ok(#[trigger] self@[i], rhs as nat)
    }

    /// Every element is raised to the same power; the matrix itself stays as
    /// it was.
    open spec fn pow_post(self, rhs: u32, r: Matrix<T>) -> bool {
        &&& r.spec_x() == self.spec_x()
        &&& r.spec_y() == self.spec_y()
        &&& r@.len() == self@.len()
        &&& forall|i: int| 0 <= i < self@.len() ==> #[trigger] r@[i] == pow_spec(self@[i], rhs as nat)
    }

    fn pow(self, rhs: u32) -> Matrix<T> {
        let mut m = self.clone();
        m.pow_assign(rhs);
        m
    }
}

impl Pow<&Matrix<i64>> for i64 {
    type Output = Matrix<i64>;

    /// Each exponent must be a small nonnegative value, and each power must
    /// stay in range.
    open spec fn pow_req(self, rhs: &Matrix<i64>) -> bool {
        forall|i: int|
            0 <= i < rhs@.len() ==> 0 <= #[trigger] rhs@[i] <= u32::MAX && pow_ok(
                self,
                rhs@[i] as nat,
            )
    }

    /// The base is raised to each element of the exponent matrix in turn.
    open spec fn pow_post(self, rhs: &Matrix<i64>, r: Matrix<i64>) -> bool {
        &&& r.spec_x() == rhs.spec_x()
        &&& r.spec_y() == rhs.spec_y()
        &&& r@.len() == rhs@.len()
        &&& forall|i: int| 0 <= i < rhs@.len() ==> #[trigger] r@[i] == pow_spec(self, rhs@[i] as nat)
    }

    fn pow(self, rhs: &Matrix<i64>) -> Matrix<i64> {
        let f = |e: i64| -> (r: i64)
            requires
                0 <= e <= u32::MAX,
                pow_ok(self, e as nat),
            ensures
                r == pow_spec(self, e as nat),
            { pow_scalar(self, e as u32) };
        rhs.map(&f)
    }
}

impl<T: Number> Dot<&Matrix<T>> for &Matrix<T> {
    type Output = Matrix<T>;

    open spec fn dot_req(self, rhs: &Matrix<T>) -> bool {
        &&& self.wf()
        &&& rhs.wf()
        &&& rhs.spec_y() == self.spec_x()
        &&& forall|cx: int, cy: int|
            0 <= cx < rhs.spec_x() && 0 <= cy < self.spec_y() ==> crate::matrix::dot_prefix_ok(
                *self,
                *rhs,
                cx,
                cy,
                self.spec_x() as int,
            )
    }

    /// Entry `(cx, cy)` of the product is the inner product of row `cy` of
    /// the left operand with column `cx` of the right one.
    open spec fn dot_post(self, rhs: &Matrix<T>, r: Matrix<T>) -> bool {
        &&& r.wf()
        &&& r.spec_x() == rhs.spec_x()
        &&& r.spec_y() == self.spec_y()
        &&& forall|cx: int, cy: int|
            0 <= cx < rhs.spec_x() && 0 <= cy < self.spec_y() ==> #[trigger] r.at(cx, cy)
                == crate::matrix::dot_prefix(*self, *rhs, cx, cy, self.spec_x() as int)
    }

    fn dot(self, rhs: &Matrix<T>) -> Matrix<T> {
        Matrix::dot(self, rhs)
    }
}

impl<T: Number> DotAssign<&Matrix<T>> for Matrix<T> {
    open spec fn dot_assign_req(self, rhs: &Matrix<T>) -> bool {
        &&& self.wf()
        &&& rhs.wf()
        &&& self.spec_x() == self.spec_y()
        &&& rhs.spec_x() == self.spec_x()
        &&& rhs.spec_y() == self.spec_x()
        &&& forall|cx: int, cy: int|
            0 <= cx < rhs.spec_x() && 0 <= cy < self.spec_y() ==> crate::matrix::dot_prefix_ok(
                self,
                *rhs,
                cx,
                cy,
                self.spec_x() as int,
            )
    }

    /// The square product replaces the left operand.
    open spec fn dot_assign_post(pre: Self, rhs: &Matrix<T>, post: Self) -> bool {
        &&& post.wf()
        &&& post.spec_x() == pre.spec_x()
        &&& post.spec_y() == pre.spec_y()
        &&& forall|cx: int, cy: int|
            0 <= cx < rhs.spec_x() && 0 <= cy < pre.spec_y() ==> #[trigger] post.at(cx, cy)
                == crate::matrix::dot_prefix(pre, *rhs, cx, cy, pre.spec_x() as int)
    }

    fn dot_assign(&mut self, rhs: &Matrix<T>) {
        Matrix::dot_assign(self, rhs);
    }
}

impl<T: Number> Default for Matrix<T> {
    /// The empty matrix of shape zero by zero.
    fn default() -> (r: Self)
        ensures
            r.wf(),
            r.spec_x() == 0,
            r.spec_y() == 0,
            r@.len() == 0,
    {
        let data: Vec<T> = Vec::new();
        Matrix::new(0, 0, data)
    }
}

impl<T: Number> Default for Vector<T> {
    /// The empty vector.
    fn default() -> (r: Self)
        ensures
            r@.len() == 0,
    {
        let data: Vec<T> = Vec::new();
        Vector::new(data)
    }
}

} // verus!
