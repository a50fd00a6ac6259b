use vstd::prelude::*;

use crate::vector::Vector;

verus! {

/// A selection of indices for slicing: anything that can say which indices
/// it holds, in order, and hand them out one by one or as a vector.
pub trait RangeIter {
    /// The selected indices, in the order a slice visits them.
    spec fn indices(&self) -> Seq<usize>;

    /// How many indices the selection holds.
    fn length(&self) -> (n: usize)
        ensures
            n == self.indices().len(),
    ;

    /// The `i`-th selected index.
    fn index_at(&self, i: usize) -> (r: usize)
        requires
            i < self.indices().len(),
        ensures
            r == self.indices()[i as int],
    ;

    /// All selected indices as a vector.
    fn to_vector(&self) -> (v: Vector<usize>)
        ensures
            v@ == self.indices(),
    {
        let n = self.length();
        let mut data: Vec<usize> = Vec::new();
        let mut k: usize = 0;
        while k < n
            invariant
                k <= n,
                n == self.indices().len(),
                data@.len() == k,
                forall|i: int| 0 <= i < k ==> data@[i] == self.indices()[i],
            decreases n - k,
        {
            data.push(self.index_at(k));
            k += 1;
        }
        proof {
            assert(data@ =~= self.indices());
        }
        Vector::new(data)
    }
}

/// A half-open run of indices from `start` up to, not including, `end`.
#[derive(Clone, Copy, Debug, PartialEq, Eq, Structural)]
pub struct Range {
    pub start: usize,
    pub end: usize,
}

impl Range {
    /// The run from `start` up to `end`; empty when `start >= end`.
    pub fn new(start: usize, end: usize) -> (r: Self)
        ensures
            r.start == start,
            r.end == end,
    {
        Range { start, end }
    }

    /// The same run as a standard library range.
    pub fn to_range(&self) -> (r: core::ops::Range<usize>)
        ensures
            r.start == self.start,
            r.end == self.end,
    {
        self.start..self.end
    }

    /// The same run visited only every `step`-th index.
    pub fn step_by(&self, step: usize) -> (r: RangeWithStep)
        requires
            step >= 1,
        ensures
            r.start == self.start,
            r.end == self.end,
            r.step == step,
    {
        RangeWithStep { start: self.start, end: self.end, step }
    }
}

impl RangeIter for Range {
    /// `start, start + 1, ...` up to `end`.
    open spec fn indices(&self) -> Seq<usize> {
        if self.start <= self.end {
            Seq::new((self.end - self.start) as nat, |i: int| (self.start + i) as usize)
        } else {
            Seq::empty()
        }
    }

    fn length(&self) -> (n: usize) {
        if self.start <= self.end {
            self.end - self.start
        } else {
            0
        }
    }

    fn index_at(&self, i: usize) -> (r: usize) {
        self.start + i
    }
}

/// A strided run of indices: every `step`-th index from `start` below `end`.
#[derive(Clone, Copy, Debug, PartialEq, Eq, Structural)]
pub struct RangeWithStep {
    pub start: usize,
    pub end: usize,
    pub step: usize,
}

impl RangeIter for RangeWithStep {
    /// `start, start + step, ...` below `end`; empty when the stride is
    /// zero.
    open spec fn indices(&self) -> Seq<usize> {
        if self.step >= 1 && self.start < self.end {
            Seq::new(
                (((self.end - self.start) + (self.step - 1)) / self.step as int) as nat,
                |i: int| (self.start + i * self.step) as usize,
            )
        } else {
            Seq::empty()
        }
    }

    fn length(&self) -> (n: usize) {
        if self.step >= 1 && self.start < self.end {
            let d = self.end - self.start;
            let q = (d - 1) / self.step;
            proof {
                lemma_stride_count(self.start as int, self.end as int, self.step as int);
            }
            q + 1
        } else {
            0
        }
    }

    fn index_at(&self, i: usize) -> (r: usize) {
        proof {
            lemma_stride_in_run(self.start as int, self.end as int, self.step as int, i as int);
        }
        self.start + i * self.step
    }
}

/// The ceiling count of a strided run, written with a floor division that
/// cannot overflow: one more than the floor quotient of `d - 1`.
proof fn lemma_stride_count(start: int, end: int, step: int)
    requires
        step >= 1,
        start < end,
    ensures
        ((end - start) - 1) / step + 1 == ((end - start) + (step - 1)) / step,
        ((end - start) - 1) / step <= (end - start) - 1,
{
    let d = end - start;
    let q = (d - 1) / step;
    let r = (d - 1) % step;
    vstd::arithmetic::div_mod::lemma_fundamental_div_mod(d - 1, step);
    vstd::arithmetic::div_mod::lemma_mod_division_less_than_divisor(d - 1, step);
    vstd::arithmetic::div_mod::lemma_div_nonincreasing(d - 1, step);
    vstd::arithmetic::div_mod::lemma_div_pos_is_pos(d - 1, step);
    assert(step * (q + 1) == step * q + step) by (nonlinear_arith);
    assert(d + step - 1 == (q + 1) * step + r) by (nonlinear_arith)
        requires
            d - 1 == step * q + r,
    ;
    vstd::arithmetic::div_mod::lemma_fundamental_div_mod_converse(d + step - 1, step, q + 1, r);
}

/// A strided index below the stride count stays inside the run.
proof fn lemma_stride_in_run(start: int, end: int, step: int, i: int)
    requires
        step >= 1,
        start < end,
        0 <= i < ((end - start) + (step - 1)) / step,
    ensures
        start + i * step < end,
{
    let d = end - start;
    let q = (d - 1) / step;
    let r = (d - 1) % step;
    lemma_stride_count(start, end, step);
    vstd::arithmetic::div_mod::lemma_fundamental_div_mod(d - 1, step);
    vstd::arithmetic::div_mod::lemma_mod_division_less_than_divisor(d - 1, step);
    assert(i <= q);
    vstd::arithmetic::mul::lemma_mul_inequality(i, q, step);
    assert(q * step == step * q) by (nonlinear_arith);
    assert(i * step <= d - 1 - r);
}

impl RangeIter for Vec<usize> {
    /// An explicit list of indices, taken as given.
    open spec fn indices(&self) -> Seq<usize> {
        self@
    }

    fn length(&self) -> (n: usize) {
        self.len()
    }

    fn index_at(&self, i: usize) -> (r: usize) {
        self[i]
    }
}

impl RangeIter for usize {
    /// A single index.
    open spec fn indices(&self) -> Seq<usize> {
        seq![*self]
    }

    fn length(&self) -> (n: usize) {
        1
    }

    fn index_at(&self, i: usize) -> (r: usize) {
        *self
    }
}

} // verus!
