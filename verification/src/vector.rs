use vstd::prelude::*;

use crate::number::Number;

verus! {

/// A fixed-length vector of scalars. The length is set at construction and
/// every operation states in its contract how it relates the lengths and
/// elements of its operands; the view of a `Vector` is the sequence of its
/// elements.
#[derive(Debug)]
pub struct Vector<T: Number> {
    data: Vec<T>,
}

impl<T: Number> View for Vector<T> {
    type V = Seq<T>;

    closed spec fn view(&self) -> Seq<T> {
        self.data@
    }
}

impl<T: Number> Vector<T> {
    /// Wraps the given elements unchanged.
    pub fn new(data: Vec<T>) -> (v: Self)
        ensures
            v@ == data@,
    {
        Vector { data }
    }

    /// A vector of `n` copies of `value` (broadcast fill).
    pub fn fill(n: usize, value: T) -> (v: Self)
        ensures
            v@.len() == n,
            forall|i: int| 0 <= i < n ==> v@[i] == value,
    {
        let mut data: Vec<T> = Vec::new();
        let mut k: usize = 0;
        while k < n
            invariant
                k <= n,
                data@.len() == k,
                forall|i: int| 0 <= i < k ==> data@[i] == value,
            decreases n - k,
        {
            data.push(value);
            k += 1;
        }
        Vector { data }
    }

    pub fn len(&self) -> (n: usize)
        ensures
            n == self@.len(),
    {
        self.data.len()
    }

    /// Read-only access to the underlying elements.
    pub fn data(&self) -> (r: &Vec<T>)
        ensures
            r@ == self@,
    {
        &self.data
    }

    /// Mutable access to the underlying elements; the vector afterwards
    /// holds whatever the caller leaves behind the reference.
    pub fn data_mut(&mut self) -> (r: &mut Vec<T>)
        ensures
            r@ == old(self)@,
            final(self)@ == final(r)@,
    {
        &mut self.data
    }

    /// Hands the underlying elements out.
    pub fn into_data(self) -> (r: Vec<T>)
        ensures
            r@ == self@,
    {
        self.data
    }

    /// Bounds-checked element access: `Some` exactly on indices below the
    /// length, and then the element direct indexing gives.
    pub fn get(&self, index: usize) -> (r: Option<&T>)
        ensures
            r.is_some() <==> index < self@.len(),
            r.is_some() ==> *r.unwrap() == self@[index as int],
    {
        if index < self.data.len() {
            Some(&self.data[index])
        } else {
            None
        }
    }

    /// Direct element access; the index must be in range.
    pub fn index(&self, index: usize) -> (r: T)
        requires
            index < self@.len(),
        ensures
            r == self@[index as int],
    {
        self.data[index]
    }

    /// Overwrites one element; the index must be in range.
    pub fn set(&mut self, index: usize, value: T)
        requires
            index < old(self)@.len(),
        ensures
            final(self)@ == old(self)@.update(index as int, value),
    {
        self.data[index] = value;
    }

    /// Bounds-checked overwrite: stores the value and answers `true` exactly
    /// when the index lies below the length; out of range it leaves the
    /// vector unchanged.
    pub fn try_set(&mut self, index: usize, value: T) -> (r: bool)
        ensures
            r <==> index < old(self)@.len(),
            r ==> final(self)@ == old(self)@.update(index as int, value),
            !r ==> final(self)@ == old(self)@,
    {
        if index < self.data.len() {
            self.data[index] = value;
            true
        } else {
            false
        }
    }

    /// Applies `f` to every element in order; element `i` of the result is an
    /// output of `f` on element `i` of `self`.
    pub fn map<U: Number, F: Fn(T) -> U>(&self, f: &F) -> (r: Vector<U>)
        requires
            forall|i: int| 0 <= i < self@.len() ==> call_requires(*f, (self@[i],)),
        ensures
            r@.len() == self@.len(),
            forall|i: int|
                0 <= i < self@.len() ==> call_ensures(*f, (self@[i],), #[trigger] r@[i]),
    {
        let n = self.data.len();
        let mut data: Vec<U> = Vec::new();
        let mut k: usize = 0;
        while k < n
            invariant
                k <= n,
                n == self@.len(),
                data@.len() == k,
                forall|i: int| 0 <= i < self@.len() ==> call_requires(*f, (self@[i],)),
                forall|i: int| 0 <= i < k ==> call_ensures(*f, (self@[i],), #[trigger] data@[i]),
            decreases n - k,
        {
            data.push(f(self.data[k]));
            k += 1;
        }
        Vector { data }
    }
}

impl<T: Number> Vector<T> {
    /// Applies `f` to every element in place; element `i` afterwards is an
    /// output of `f` on element `i` before.
    pub fn map_assign<F: Fn(T) -> T>(&mut self, f: &F)
        requires
            forall|i: int| 0 <= i < old(self)@.len() ==> call_requires(*f, (old(self)@[i],)),
        ensures
            final(self)@.len() == old(self)@.len(),
            forall|i: int|
                0 <= i < old(self)@.len() ==> call_ensures(
                    *f,
                    (old(self)@[i],),
                    #[trigger] final(self)@[i],
                ),
    {
        let n = self.data.len();
        let mut k: usize = 0;
        while k < n
            invariant
                k <= n,
                n == self@.len(),
                self@.len() == old(self)@.len(),
                forall|i: int| k <= i < n ==> self@[i] == old(self)@[i],
                forall|i: int| 0 <= i < old(self)@.len() ==> call_requires(*f, (old(self)@[i],)),
                forall|i: int| 0 <= i < k ==> call_ensures(*f, (old(self)@[i],), #[trigger] self@[i]),
            decreases n - k,
        {
            let v = self.data[k];
            self.data[k] = f(v);
            k += 1;
        }
    }

    /// The elementwise engine over two vectors of one length: element `i`
    /// becomes `f(self[i], rhs[i])`.
    fn zip_assign<F: Fn(T, T) -> T>(&mut self, rhs: &Vector<T>, f: &F)
        requires
            old(self)@.len() == rhs@.len(),
            forall|i: int|
                0 <= i < old(self)@.len() ==> call_requires(*f, (#[trigger] old(self)@[i], rhs@[i])),
        ensures
            final(self)@.len() == old(self)@.len(),
            forall|i: int|
                0 <= i < old(self)@.len() ==> call_ensures(
                    *f,
                    (old(self)@[i], rhs@[i]),
                    #[trigger] final(self)@[i],
                ),
    {
        let n = self.data.len();
        let mut k: usize = 0;
        while k < n
            invariant
                k <= n,
                n == self@.len(),
                self@.len() == old(self)@.len(),
                self@.len() == rhs@.len(),
                forall|i: int|
                    0 <= i < old(self)@.len() ==> call_requires(
                        *f,
                        (#[trigger] old(self)@[i], rhs@[i]),
                    ),
                forall|i: int| k <= i < n ==> self@[i] == old(self)@[i],
                forall|i: int|
                    0 <= i < k ==> call_ensures(*f, (old(self)@[i], rhs@[i]), #[trigger] self@[i]),
            decreases n - k,
        {
            let a = self.data[k];
            self.data[k] = f(a, rhs.data[k]);
            k += 1;
        }
    }

    /// Elementwise sum of two vectors of one length.
    pub fn add_assign(&mut self, rhs: &Vector<T>)
        requires
            old(self)@.len() == rhs@.len(),
            forall|i: int| 0 <= i < old(self)@.len() ==> T::can_add(#[trigger] old(self)@[i], rhs@[i]),
        ensures
            final(self)@.len() == old(self)@.len(),
            forall|i: int|
                0 <= i < old(self)@.len() ==> #[trigger] final(self)@[i] == T::add_spec(
                    old(self)@[i],
                    rhs@[i],
                ),
    {
        let f = |a: T, b: T| -> (r: T)
            requires
                T::can_add(a, b),
            ensures
                r == T::add_spec(a, b),
            { T::add(a, b) };
        self.zip_assign(rhs, &f);
    }

    /// Elementwise difference of two vectors of one length.
    pub fn sub_assign(&mut self, rhs: &Vector<T>)
        requires
            old(self)@.len() == rhs@.len(),
            forall|i: int| 0 <= i < old(self)@.len() ==> T::can_sub(#[trigger] old(self)@[i], rhs@[i]),
        ensures
            final(self)@.len() == old(self)@.len(),
            forall|i: int|
                0 <= i < old(self)@.len() ==> #[trigger] final(self)@[i] == T::sub_spec(
                    old(self)@[i],
                    rhs@[i],
                ),
    {
        let f = |a: T, b: T| -> (r: T)
            requires
                T::can_sub(a, b),
            ensures
                r == T::sub_spec(a, b),
            { T::sub(a, b) };
        self.zip_assign(rhs, &f);
    }

    /// Elementwise product of two vectors of one length.
    pub fn mul_assign(&mut self, rhs: &Vector<T>)
        requires
            old(self)@.len() == rhs@.len(),
            forall|i: int| 0 <= i < old(self)@.len() ==> T::can_mul(#[trigger] old(self)@[i], rhs@[i]),
        ensures
            final(self)@.len() == old(self)@.len(),
            forall|i: int|
                0 <= i < old(self)@.len() ==> #[trigger] final(self)@[i] == T::mul_spec(
                    old(self)@[i],
                    rhs@[i],
                ),
    {
        let f = |a: T, b: T| -> (r: T)
            requires
                T::can_mul(a, b),
            ensures
                r == T::mul_spec(a, b),
            { T::mul(a, b) };
        self.zip_assign(rhs, &f);
    }

    /// Elementwise quotient of two vectors of one length.
    pub fn div_assign(&mut self, rhs: &Vector<T>)
        requires
            old(self)@.len() == rhs@.len(),
            forall|i: int| 0 <= i < old(self)@.len() ==> T::can_div(#[trigger] old(self)@[i], rhs@[i]),
        ensures
            final(self)@.len() == old(self)@.len(),
            forall|i: int|
                0 <= i < old(self)@.len() ==> #[trigger] final(self)@[i] == T::div_spec(
                    old(self)@[i],
                    rhs@[i],
                ),
    {
        let f = |a: T, b: T| -> (r: T)
            requires
                T::can_div(a, b),
            ensures
                r == T::div_spec(a, b),
            { T::div(a, b) };
        self.zip_assign(rhs, &f);
    }

    /// Adds one scalar to every element.
    pub fn add_assign_scalar(&mut self, s: T)
        requires
            forall|i: int| 0 <= i < old(self)@.len() ==> T::can_add(#[trigger] old(self)@[i], s),
        ensures
            final(self)@.len() == old(self)@.len(),
            forall|i: int|
                0 <= i < old(self)@.len() ==> #[trigger] final(self)@[i] == T::add_spec(
                    old(self)@[i],
                    s,
                ),
    {
        let f = |a: T| -> (r: T)
            requires
                T::can_add(a, s),
            ensures
                r == T::add_spec(a, s),
            { T::add(a, s) };
        self.map_assign(&f);
    }

    /// Takes one scalar off every element.
    pub fn sub_assign_scalar(&mut self, s: T)
        requires
            forall|i: int| 0 <= i < old(self)@.len() ==> T::can_sub(#[trigger] old(self)@[i], s),
        ensures
            final(self)@.len() == old(self)@.len(),
            forall|i: int|
                0 <= i < old(self)@.len() ==> #[trigger] final(self)@[i] == T::sub_spec(
                    old(self)@[i],
                    s,
                ),
    {
        let f = |a: T| -> (r: T)
            requires
                T::can_sub(a, s),
            ensures
                r == T::sub_spec(a, s),
            { T::sub(a, s) };
        self.map_assign(&f);
    }

    /// Scales every element by one scalar.
    pub fn mul_assign_scalar(&mut self, s: T)
        requires
            forall|i: int| 0 <= i < old(self)@.len() ==> T::can_mul(#[trigger] old(self)@[i], s),
        ensures
            final(self)@.len() == old(self)@.len(),
            forall|i: int|
                0 <= i < old(self)@.len() ==> #[trigger] final(self)@[i] == T::mul_spec(
                    old(self)@[i],
                    s,
                ),
    {
        let f = |a: T| -> (r: T)
            requires
                T::can_mul(a, s),
            ensures
                r == T::mul_spec(a, s),
            { T::mul(a, s) };
        self.map_assign(&f);
    }

    /// Divides every element by one scalar.
    pub fn div_assign_scalar(&mut self, s: T)
        requires
            forall|i: int| 0 <= i < old(self)@.len() ==> T::can_div(#[trigger] old(self)@[i], s),
        ensures
            final(self)@.len() == old(self)@.len(),
            forall|i: int|
                0 <= i < old(self)@.len() ==> #[trigger] final(self)@[i] == T::div_spec(
                    old(self)@[i],
                    s,
                ),
    {
        let f = |a: T| -> (r: T)
            requires
                T::can_div(a, s),
            ensures
                r == T::div_spec(a, s),
            { T::div(a, s) };
        self.map_assign(&f);
    }

    /// Subtracts every element from one scalar, the scalar standing on the
    /// left: each element becomes `s - element`.
    pub fn rsub_assign_scalar(&mut self, s: T)
        requires
            forall|i: int| 0 <= i < old(self)@.len() ==> T::can_sub(s, #[trigger] old(self)@[i]),
        ensures
            final(self)@.len() == old(self)@.len(),
            forall|i: int|
                0 <= i < old(self)@.len() ==> #[trigger] final(self)@[i] == T::sub_spec(
                    s,
                    old(self)@[i],
                ),
    {
        let f = |a: T| -> (r: T)
            requires
                T::can_sub(s, a),
            ensures
                r == T::sub_spec(s, a),
            { T::sub(s, a) };
        self.map_assign(&f);
    }

    /// Divides one scalar by every element, the scalar standing on the left:
    /// each element becomes `s / element`.
    pub fn rdiv_assign_scalar(&mut self, s: T)
        requires
            forall|i: int| 0 <= i < old(self)@.len() ==> T::can_div(s, #[trigger] old(self)@[i]),
        ensures
            final(self)@.len() == old(self)@.len(),
            forall|i: int|
                0 <= i < old(self)@.len() ==> #[trigger] final(self)@[i] == T::div_spec(
                    s,
                    old(self)@[i],
                ),
    {
        let f = |a: T| -> (r: T)
            requires
                T::can_div(s, a),
            ensures
                r == T::div_spec(s, a),
            { T::div(s, a) };
        self.map_assign(&f);
    }

    /// Negates every element.
    pub fn neg_assign(&mut self)
        requires
            forall|i: int| 0 <= i < old(self)@.len() ==> T::can_neg(#[trigger] old(self)@[i]),
        ensures
            final(self)@.len() == old(self)@.len(),
            forall|i: int|
                0 <= i < old(self)@.len() ==> #[trigger] final(self)@[i] == T::neg_spec(
                    old(self)@[i],
                ),
    {
        let f = |a: T| -> (r: T)
            requires
                T::can_neg(a),
            ensures
                r == T::neg_spec(a),
            { T::neg(a) };
        self.map_assign(&f);
    }

    /// The elementwise negation as a fresh vector.
    pub fn neg(&self) -> (v: Vector<T>)
        requires
            forall|i: int| 0 <= i < self@.len() ==> T::can_neg(#[trigger] self@[i]),
        ensures
            v@.len() == self@.len(),
            forall|i: int| 0 <= i < self@.len() ==> #[trigger] v@[i] == T::neg_spec(self@[i]),
    {
        let mut v = self.clone();
        v.neg_assign();
        v
    }
}

impl<T: Number> Vector<T> {
    /// Direct mutable element access; the index must be in range. The vector
    /// afterwards holds, at that index, whatever the caller leaves behind
    /// the returned reference.
    pub fn get_mut(&mut self, index: usize) -> (r: &mut T)
        requires
            index < old(self)@.len(),
        ensures
            *r == old(self)@[index as int],
            final(self)@ == old(self)@.update(index as int, *final(r)),
    {
        &mut self.data[index]
    }

    /// The full run of this vector's indices.
    pub fn range(&self) -> (r: crate::range::Range)
        ensures
            r.start == 0,
            r.end == self@.len(),
    {
        crate::range::Range::new(0, self.data.len())
    }
}

impl<T: Number, R: crate::range::RangeIter> crate::ops::Slice<R> for Vector<T> {
    type Output = Vector<T>;

    /// Every selected index lies below the length.
    open spec fn slice_req(&self, index: R) -> bool {
        forall|i: int| 0 <= i < index.indices().len() ==> #[trigger] index.indices()[i] < self@.len()
    }

    /// Element `i` of the slice is the source element at the `i`-th selected
    /// index.
    open spec fn slice_post(&self, index: R, r: Vector<T>) -> bool {
        &&& r@.len() == index.indices().len()
        &&& forall|i: int|
            0 <= i < index.indices().len() ==> #[trigger] r@[i] == self@[index.indices()[i] as int]
    }

    fn slice(&self, index: R) -> (r: Vector<T>) {
        let n = index.length();
        let mut data: Vec<T> = Vec::new();
        let mut k: usize = 0;
        while k < n
            invariant
                k <= n,
                n == index.indices().len(),
                forall|i: int|
                    0 <= i < index.indices().len() ==> #[trigger] index.indices()[i] < self@.len(),
                data@.len() == k,
                forall|i: int| 0 <= i < k ==> #[trigger] data@[i] == self@[index.indices()[i] as int],
            decreases n - k,
        {
            let j = index.index_at(k);
            data.push(self.index(j));
            k += 1;
        }
        Vector::new(data)
    }
}

impl<T: Number> crate::ops::Get<usize> for Vector<T> {
    type Output = T;

    open spec fn get_req(&self, index: usize) -> bool {
        true
    }

    /// Present exactly below the length, and then the element itself.
    open spec fn get_post(&self, index: usize, r: Option<T>) -> bool {
        &&& r.is_some() <==> index < self@.len()
        &&& r.is_some() ==> r.unwrap() == self@[index as int]
    }

    fn get(&self, index: usize) -> (r: Option<T>) {
        if index < self.data.len() {
            Some(self.data[index])
        } else {
            None
        }
    }
}

impl<T: Number> crate::ops::GetMut<usize> for Vector<T> {
    open spec fn get_mut_req(&self, index: usize) -> bool {
        index < self@.len()
    }

    /// The element first seen is the one at the index; afterwards the vector
    /// holds, there, whatever the caller left behind the reference.
    open spec fn get_mut_post(
        pre: Self,
        index: usize,
        post: Self,
        elem_pre: T,
        elem_post: T,
    ) -> bool {
        &&& elem_pre == pre@[index as int]
        &&& post@ == pre@.update(index as int, elem_post)
    }

    fn get_mut(&mut self, index: usize) -> (r: &mut T) {
        Vector::get_mut(self, index)
    }
}

/// Element `i` of the elementwise sum of the first `j` vectors of a list,
/// folded from the first.
pub open spec fn vec_list_sum_at<T: Number>(items: Seq<Vector<T>>, j: int, i: int) -> T
    decreases j,
{
    if j <= 1 {
        items[0]@[i]
    } else {
        T::add_spec(vec_list_sum_at(items, j - 1, i), items[j - 1]@[i])
    }
}

/// Whether every running sum of that fold stays in range.
pub open spec fn vec_list_sum_ok<T: Number>(items: Seq<Vector<T>>, j: int, i: int) -> bool
    decreases j,
{
    j <= 1 || (vec_list_sum_ok(items, j - 1, i) && T::can_add(
        vec_list_sum_at(items, j - 1, i),
        items[j - 1]@[i],
    ))
}

/// Element `i` of the elementwise product of the first `j` vectors of a
/// list, folded from the first.
pub open spec fn vec_list_prod_at<T: Number>(items: Seq<Vector<T>>, j: int, i: int) -> T
    decreases j,
{
    if j <= 1 {
        items[0]@[i]
    } else {
        T::mul_spec(vec_list_prod_at(items, j - 1, i), items[j - 1]@[i])
    }
}

/// Whether every running product of that fold stays in range.
pub open spec fn vec_list_prod_ok<T: Number>(items: Seq<Vector<T>>, j: int, i: int) -> bool
    decreases j,
{
    j <= 1 || (vec_list_prod_ok(items, j - 1, i) && T::can_mul(
        vec_list_prod_at(items, j - 1, i),
        items[j - 1]@[i],
    ))
}

/// All vectors of a list share the length of the first.
pub open spec fn same_length<T: Number>(items: Seq<Vector<T>>) -> bool {
    forall|j: int| 0 <= j < items.len() ==> (#[trigger] items[j])@.len() == items[0]@.len()
}

/// An in-range fold stays in range at every earlier step.
proof fn lemma_vec_list_sum_ok_le<T: Number>(items: Seq<Vector<T>>, j: int, k: int, i: int)
    requires
        vec_list_sum_ok(items, k, i),
        j <= k,
    ensures
        vec_list_sum_ok(items, j, i),
    decreases k - j,
{
    if j < k {
        lemma_vec_list_sum_ok_le(items, j, k - 1, i);
    }
}

/// An in-range fold stays in range at every earlier step.
proof fn lemma_vec_list_prod_ok_le<T: Number>(items: Seq<Vector<T>>, j: int, k: int, i: int)
    requires
        vec_list_prod_ok(items, k, i),
        j <= k,
    ensures
        vec_list_prod_ok(items, j, i),
    decreases k - j,
{
    if j < k {
        lemma_vec_list_prod_ok_le(items, j, k - 1, i);
    }
}

impl<T: Number> Vector<T> {
    /// The elementwise sum of a list of vectors of one length, folded from
    /// the first. An empty list carries no length to fill with zeroes, so it
    /// sums to the empty vector.
    pub fn sum_of(items: &Vec<Vector<T>>) -> (r: Vector<T>)
        requires
            same_length(items@),
            forall|i: int|
                0 <= i < items@[0]@.len() ==> vec_list_sum_ok(items@, items@.len() as int, i),
        ensures
            items@.len() == 0 ==> r@.len() == 0,
            items@.len() > 0 ==> r@.len() == items@[0]@.len() && forall|i: int|
                0 <= i < items@[0]@.len() ==> #[trigger] r@[i] == vec_list_sum_at(
                    items@,
                    items@.len() as int,
                    i,
                ),
    {
        let n = items.len();
        if n == 0 {
            let data: Vec<T> = Vec::new();
            return Vector::new(data);
        }
        let mut r = items[0].clone();
        let mut j: usize = 1;
        while j < n
            invariant
                1 <= j <= n,
                n == items@.len(),
                same_length(items@),
                forall|i: int| 0 <= i < items@[0]@.len() ==> vec_list_sum_ok(items@, n as int, i),
                r@.len() == items@[0]@.len(),
                forall|i: int|
                    0 <= i < items@[0]@.len() ==> #[trigger] r@[i] == vec_list_sum_at(
                        items@,
                        j as int,
                        i,
                    ),
            decreases n - j,
        {
            proof {
                assert forall|i: int|
                    0 <= i < items@[0]@.len() implies T::can_add(
                    #[trigger] r@[i],
                    items@[j as int]@[i],
                ) by {
                    lemma_vec_list_sum_ok_le(items@, j + 1, n as int, i);
                }
            }
            r.add_assign(&items[j]);
            j += 1;
        }
        r
    }

    /// The elementwise product of a list of vectors of one length, folded
    /// from the first. An empty list carries no length to fill with ones, so
    /// it multiplies out to the empty vector.
    pub fn product_of(items: &Vec<Vector<T>>) -> (r: Vector<T>)
        requires
            same_length(items@),
            forall|i: int|
                0 <= i < items@[0]@.len() ==> vec_list_prod_ok(items@, items@.len() as int, i),
        ensures
            items@.len() == 0 ==> r@.len() == 0,
            items@.len() > 0 ==> r@.len() == items@[0]@.len() && forall|i: int|
                0 <= i < items@[0]@.len() ==> #[trigger] r@[i] == vec_list_prod_at(
                    items@,
                    items@.len() as int,
                    i,
                ),
    {
        let n = items.len();
        if n == 0 {
            let data: Vec<T> = Vec::new();
            return Vector::new(data);
        }
        let mut r = items[0].clone();
        let mut j: usize = 1;
        while j < n
            invariant
                1 <= j <= n,
                n == items@.len(),
                same_length(items@),
                forall|i: int| 0 <= i < items@[0]@.len() ==> vec_list_prod_ok(items@, n as int, i),
                r@.len() == items@[0]@.len(),
                forall|i: int|
                    0 <= i < items@[0]@.len() ==> #[trigger] r@[i] == vec_list_prod_at(
                        items@,
                        j as int,
                        i,
                    ),
            decreases n - j,
        {
            proof {
                assert forall|i: int|
                    0 <= i < items@[0]@.len() implies T::can_mul(
                    #[trigger] r@[i],
                    items@[j as int]@[i],
                ) by {
                    lemma_vec_list_prod_ok_le(items@, j + 1, n as int, i);
                }
            }
            r.mul_assign(&items[j]);
            j += 1;
        }
        r
    }
}

/// The scalar order of `Number`, as a relation spec code can pass around.
pub open spec fn le_fn<T: Number>() -> spec_fn(T, T) -> bool {
    |a: T, b: T| T::le_spec(a, b)
}

/// Law: the scalar order is a total ordering, so a sequence has exactly one
/// sorted arrangement.
pub proof fn lemma_le_fn_total_ordering<T: Number>()
    ensures
        vstd::relations::total_ordering(le_fn::<T>()),
{
    let leq = le_fn::<T>();
    assert forall|x: T| #[trigger] leq(x, x) by {
        T::le_order_laws(x, x, x);
    }
    assert forall|x: T, y: T| #[trigger] leq(x, y) && #[trigger] leq(y, x) implies x == y by {
        T::le_order_laws(x, y, x);
    }
    assert forall|x: T, y: T| #[trigger] leq(x, y) || #[trigger] leq(y, x) by {
        T::le_order_laws(x, y, x);
    }
    assert forall|x: T, y: T, z: T| #[trigger] leq(x, y) && #[trigger] leq(y, z) implies leq(
        x,
        z,
    ) by {
        T::le_order_laws(x, y, z);
    }
}

impl<T: Number> Vector<T> {
    /// Sorts the elements in place into ascending order under the scalar
    /// order: the result is the one sorted arrangement of the old elements.
    pub fn sort(&mut self)
        ensures
            final(self)@ == old(self)@.sort_by(le_fn::<T>()),
            final(self)@.len() == old(self)@.len(),
    {
        broadcast use vstd::multiset::group_multiset_axioms;
        broadcast use vstd::seq_lib::group_to_multiset_ensures;

        let ghost orig = self.data@;
        let mut rest: Vec<T> = Vec::new();
        core::mem::swap(&mut self.data, &mut rest);
        let mut out: Vec<T> = Vec::new();
        proof {
            assert(out@.to_multiset().add(rest@.to_multiset()) =~= orig.to_multiset());
        }
        while rest.len() > 0
            invariant
                out@.to_multiset().add(rest@.to_multiset()) == orig.to_multiset(),
                vstd::relations::sorted_by(out@, le_fn::<T>()),
                forall|a: int, b: int|
                    0 <= a < out@.len() && 0 <= b < rest@.len() ==> T::le_spec(
                        #[trigger] out@[a],
                        #[trigger] rest@[b],
                    ),
            decreases rest@.len(),
        {
            let mut mi: usize = 0;
            let mut j: usize = 1;
            proof {
                T::le_order_laws(rest@[0], rest@[0], rest@[0]);
            }
            while j < rest.len()
                invariant
                    mi < j,
                    j <= rest@.len(),
                    rest@.len() > 0,
                    forall|q: int| 0 <= q < j ==> T::le_spec(rest@[mi as int], #[trigger] rest@[q]),
                decreases rest@.len() - j,
            {
                if !T::le(rest[mi], rest[j]) {
                    proof {
                        assert forall|q: int|
                            0 <= q < j + 1 implies T::le_spec(rest@[j as int], #[trigger] rest@[q]) by {
                            T::le_order_laws(rest@[mi as int], rest@[j as int], rest@[q]);
                            T::le_order_laws(rest@[j as int], rest@[mi as int], rest@[q]);
                        }
                    }
                    mi = j;
                } else {
                    proof {
                        assert forall|q: int|
                            0 <= q < j + 1 implies T::le_spec(rest@[mi as int], #[trigger] rest@[q]) by {
                        }
                    }
                }
                j += 1;
            }
            let ghost rest0 = rest@;
            let ghost out0 = out@;
            let x = rest.remove(mi);
            out.push(x);
            proof {
                let leq = le_fn::<T>();
                vstd::seq_lib::to_multiset_remove::<T>(rest0, mi as int);
                vstd::seq_lib::to_multiset_build::<T>(out0, x);
                assert(rest@.to_multiset() =~= rest0.to_multiset().remove(x));
                assert(out@.to_multiset() =~= out0.to_multiset().insert(x));
                assert(rest0.contains(x)) by {
                    assert(rest0[mi as int] == x);
                }
                vstd::seq_lib::to_multiset_contains::<T>(rest0, x);
                assert(rest0.to_multiset().count(x) > 0);
                assert(out@.to_multiset().add(rest@.to_multiset()) =~= orig.to_multiset());
                assert forall|a: int, b: int|
                    0 <= a < b < out@.len() implies #[trigger] leq(out@[a], out@[b]) by {
                    if b == out@.len() - 1 {
                        assert(T::le_spec(out0[a], rest0[mi as int]));
                    }
                }
                assert forall|a: int, b: int|
                    0 <= a < out@.len() && 0 <= b < rest@.len() implies T::le_spec(
                    #[trigger] out@[a],
                    #[trigger] rest@[b],
                ) by {
                    let pre_b: int = if b < mi { b } else { b + 1 };
                    assert(rest@[b] == rest0[pre_b]);
                    if a < out@.len() - 1 {
                        assert(T::le_spec(out0[a], rest0[pre_b]));
                    } else {
                        assert(T::le_spec(rest0[mi as int], rest0[pre_b]));
                    }
                }
            }
        }
        proof {
            let leq = le_fn::<T>();
            assert(rest@.to_multiset() =~= vstd::multiset::Multiset::empty());
            assert(out@.to_multiset() =~= orig.to_multiset());
            lemma_le_fn_total_ordering::<T>();
            orig.lemma_sort_by_ensures(leq);
            vstd::seq_lib::lemma_sorted_unique(out@, orig.sort_by(leq), leq);
            assert(out@ =~= orig.sort_by(leq));
            vstd::seq_lib::to_multiset_len::<T>(out@);
            vstd::seq_lib::to_multiset_len::<T>(orig);
            assert(out@.len() == orig.len());
        }
        self.data = out;
    }
}

impl<T: Number> Clone for Vector<T> {
    fn clone(&self) -> (r: Self)
        ensures
            r@ == self@,
    {
        let n = self.data.len();
        let mut data: Vec<T> = Vec::new();
        let mut k: usize = 0;
        while k < n
            invariant
                k <= n,
                n == self@.len(),
                data@ == self@.take(k as int),
            decreases n - k,
        {
            data.push(self.data[k]);
            proof {
                assert(data@ =~= self@.take(k + 1));
            }
            k += 1;
        }
        proof {
            assert(self@.take(n as int) =~= self@);
        }
        Vector { data }
    }
}

impl<T: Number> PartialEq for Vector<T> {
    /// Two vectors are equal when they have the same length and the same
    /// element at every index.
    fn eq(&self, other: &Self) -> (r: bool) {
        if self.data.len() != other.data.len() {
            return false;
        }
        let n = self.data.len();
        let mut k: usize = 0;
        while k < n
            invariant
                k <= n,
                n == self@.len(),
                self@.len() == other@.len(),
                forall|i: int| 0 <= i < k ==> self@[i] == other@[i],
            decreases n - k,
        {
            if !T::eq_val(self.data[k], other.data[k]) {
                return false;
            }
            k += 1;
        }
        proof {
            assert(self@ =~= other@);
        }
        true
    }
}

impl<T: Number> vstd::std_specs::cmp::PartialEqSpecImpl for Vector<T> {
    open spec fn obeys_eq_spec() -> bool {
        true
    }

    open spec fn eq_spec(&self, other: &Self) -> bool {
        self@ == other@
    }
}

impl<T: Number> Eq for Vector<T> {
}

} // verus!
