use vstd::prelude::*;

use crate::by_row::visited;
use crate::matrix::{lemma_offset_bound, lemma_offset_injective, Matrix};
use crate::number::Number;
use crate::vector::Vector;

verus! {

/// The column-broadcast engine: combines every element with the vector entry
/// of its own row, `m[(cx, cy)] := f(m[(cx, cy)], v[cy])`, sweeping in row
/// order. The vector's length is the row count.
fn zip_assign<T: Number, F: Fn(T, T) -> T>(m: &mut Matrix<T>, v: &Vector<T>, f: &F)
    requires
        old(m).wf(),
        v@.len() == old(m).spec_y(),
        forall|cx: int, cy: int|
            old(m).in_bounds(cx, cy) ==> call_requires(*f, (#[trigger] old(m).at(cx, cy), v@[cy])),
    ensures
        final(m).wf(),
        final(m).spec_x() == old(m).spec_x(),
        final(m).spec_y() == old(m).spec_y(),
        forall|cx: int, cy: int|
            old(m).in_bounds(cx, cy) ==> call_ensures(
                *f,
                (old(m).at(cx, cy), v@[cy]),
                #[trigger] final(m).at(cx, cy),
            ),
{
    let x = m.x();
    let y = m.y();
    let mut cy: usize = 0;
    while cy < y
        invariant
            cy <= y,
            x == old(m).spec_x(),
            y == old(m).spec_y(),
            m.wf(),
            m.spec_x() == old(m).spec_x(),
            m.spec_y() == old(m).spec_y(),
            v@.len() == old(m).spec_y(),
            forall|a: int, b: int|
                old(m).in_bounds(a, b) ==> call_requires(*f, (#[trigger] old(m).at(a, b), v@[b])),
            forall|a: int, b: int|
                old(m).in_bounds(a, b) && visited(a, b, 0, cy as int) ==> call_ensures(
                    *f,
                    (old(m).at(a, b), v@[b]),
                    #[trigger] m.at(a, b),
                ),
            forall|a: int, b: int|
                old(m).in_bounds(a, b) && !visited(a, b, 0, cy as int) ==> #[trigger] m.at(a, b)
                    == old(m).at(a, b),
        decreases y - cy,
    {
        let mut cx: usize = 0;
        while cx < x
            invariant
                cx <= x,
                cy < y,
                x == old(m).spec_x(),
                y == old(m).spec_y(),
                m.wf(),
                m.spec_x() == old(m).spec_x(),
                m.spec_y() == old(m).spec_y(),
                v@.len() == old(m).spec_y(),
                forall|a: int, b: int|
                    old(m).in_bounds(a, b) ==> call_requires(*f, (#[trigger] old(m).at(a, b), v@[b])),
                forall|a: int, b: int|
                    old(m).in_bounds(a, b) && visited(a, b, cx as int, cy as int) ==> call_ensures(
                        *f,
                        (old(m).at(a, b), v@[b]),
                        #[trigger] m.at(a, b),
                    ),
                forall|a: int, b: int|
                    old(m).in_bounds(a, b) && !visited(a, b, cx as int, cy as int) ==> #[trigger] m.at(
                        a,
                        b,
                    ) == old(m).at(a, b),
            decreases x - cx,
        {
            let ghost m0 = *m;
            let cur = m.index(cx, cy);
            let nv = f(cur, v.index(cy));
            m.set(cx, cy, nv);
            cx += 1;
            proof {
                lemma_offset_bound(x as int, y as int, cx - 1, cy as int);
                assert forall|a: int, b: int|
                    old(m).in_bounds(a, b) && visited(a, b, cx as int, cy as int) implies call_ensures(
                    *f,
                    (old(m).at(a, b), v@[b]),
                    #[trigger] m.at(a, b),
                ) by {
                    lemma_offset_bound(x as int, y as int, a, b);
                    if b * x + a == cy * x + (cx - 1) {
                        lemma_offset_injective(x as int, a, b, cx - 1, cy as int);
                    } else {
                        assert(m.at(a, b) == m0.at(a, b));
                    }
                }
                assert forall|a: int, b: int|
                    old(m).in_bounds(a, b) && !visited(a, b, cx as int, cy as int) implies #[trigger] m.at(
                    a,
                    b,
                ) == old(m).at(a, b) by {
                    lemma_offset_bound(x as int, y as int, a, b);
                    if b * x + a == cy * x + (cx - 1) {
                        lemma_offset_injective(x as int, a, b, cx - 1, cy as int);
                    } else {
                        assert(m.at(a, b) == m0.at(a, b));
                    }
                }
            }
        }
        cy += 1;
    }
}

/// Column-broadcast addition: adds `v[cy]` onto every element of row `cy`.
pub fn add_assign<T: Number>(m: &mut Matrix<T>, v: &Vector<T>)
    requires
        old(m).wf(),
        v@.len() == old(m).spec_y(),
        forall|cx: int, cy: int|
            old(m).in_bounds(cx, cy) ==> T::can_add(#[trigger] old(m).at(cx, cy), v@[cy]),
    ensures
        final(m).wf(),
        final(m).spec_x() == old(m).spec_x(),
        final(m).spec_y() == old(m).spec_y(),
        forall|cx: int, cy: int|
            old(m).in_bounds(cx, cy) ==> #[trigger] final(m).at(cx, cy) == T::add_spec(
                old(m).at(cx, cy),
                v@[cy],
            ),
{
    let f = |a: T, b: T| -> (r: T)
        requires
            T::can_add(a, b),
        ensures
            r == T::add_spec(a, b),
        { T::add(a, b) };
    zip_assign(m, v, &f);
}

/// Column-broadcast subtraction: takes `v[cy]` off every element of row `cy`.
pub fn sub_assign<T: Number>(m: &mut Matrix<T>, v: &Vector<T>)
    requires
        old(m).wf(),
        v@.len() == old(m).spec_y(),
        forall|cx: int, cy: int|
            old(m).in_bounds(cx, cy) ==> T::can_sub(#[trigger] old(m).at(cx, cy), v@[cy]),
    ensures
        final(m).wf(),
        final(m).spec_x() == old(m).spec_x(),
        final(m).spec_y() == old(m).spec_y(),
        forall|cx: int, cy: int|
            old(m).in_bounds(cx, cy) ==> #[trigger] final(m).at(cx, cy) == T::sub_spec(
                old(m).at(cx, cy),
                v@[cy],
            ),
{
    let f = |a: T, b: T| -> (r: T)
        requires
            T::can_sub(a, b),
        ensures
            r == T::sub_spec(a, b),
        { T::sub(a, b) };
    zip_assign(m, v, &f);
}

/// Column-broadcast multiplication: scales every element of row `cy` by
/// `v[cy]`.
pub fn mul_assign<T: Number>(m: &mut Matrix<T>, v: &Vector<T>)
    requires
        old(m).wf(),
        v@.len() == old(m).spec_y(),
        forall|cx: int, cy: int|
            old(m).in_bounds(cx, cy) ==> T::can_mul(#[trigger] old(m).at(cx, cy), v@[cy]),
    ensures
        final(m).wf(),
        final(m).spec_x() == old(m).spec_x(),
        final(m).spec_y() == old(m).spec_y(),
        forall|cx: int, cy: int|
            old(m).in_bounds(cx, cy) ==> #[trigger] final(m).at(cx, cy) == T::mul_spec(
                old(m).at(cx, cy),
                v@[cy],
            ),
{
    let f = |a: T, b: T| -> (r: T)
        requires
            T::can_mul(a, b),
        ensures
            r == T::mul_spec(a, b),
        { T::mul(a, b) };
    zip_assign(m, v, &f);
}

/// Column-broadcast division: divides every element of row `cy` by `v[cy]`.
pub fn div_assign<T: Number>(m: &mut Matrix<T>, v: &Vector<T>)
    requires
        old(m).wf(),
        v@.len() == old(m).spec_y(),
        forall|cx: int, cy: int|
            old(m).in_bounds(cx, cy) ==> T::can_div(#[trigger] old(m).at(cx, cy), v@[cy]),
    ensures
        final(m).wf(),
        final(m).spec_x() == old(m).spec_x(),
        final(m).spec_y() == old(m).spec_y(),
        forall|cx: int, cy: int|
            old(m).in_bounds(cx, cy) ==> #[trigger] final(m).at(cx, cy) == T::div_spec(
                old(m).at(cx, cy),
                v@[cy],
            ),
{
    let f = |a: T, b: T| -> (r: T)
        requires
            T::can_div(a, b),
        ensures
            r == T::div_spec(a, b),
        { T::div(a, b) };
    zip_assign(m, v, &f);
}

/// Column-broadcast reversed addition, the vector standing on the left:
/// `m[(cx, cy)] := v[cy] + m[(cx, cy)]`.
pub fn radd_assign<T: Number>(m: &mut Matrix<T>, v: &Vector<T>)
    requires
        old(m).wf(),
        v@.len() == old(m).spec_y(),
        forall|cx: int, cy: int|
            old(m).in_bounds(cx, cy) ==> T::can_add(v@[cy], #[trigger] old(m).at(cx, cy)),
    ensures
        final(m).wf(),
        final(m).spec_x() == old(m).spec_x(),
        final(m).spec_y() == old(m).spec_y(),
        forall|cx: int, cy: int|
            old(m).in_bounds(cx, cy) ==> #[trigger] final(m).at(cx, cy) == T::add_spec(
                v@[cy],
                old(m).at(cx, cy),
            ),
{
    let f = |a: T, b: T| -> (r: T)
        requires
            T::can_add(b, a),
        ensures
            r == T::add_spec(b, a),
        { T::add(b, a) };
    zip_assign(m, v, &f);
}

/// Column-broadcast reversed subtraction, the vector standing on the left:
/// `m[(cx, cy)] := v[cy] - m[(cx, cy)]`.
pub fn rsub_assign<T: Number>(m: &mut Matrix<T>, v: &Vector<T>)
    requires
        old(m).wf(),
        v@.len() == old(m).spec_y(),
        forall|cx: int, cy: int|
            old(m).in_bounds(cx, cy) ==> T::can_sub(v@[cy], #[trigger] old(m).at(cx, cy)),
    ensures
        final(m).wf(),
        final(m).spec_x() == old(m).spec_x(),
        final(m).spec_y() == old(m).spec_y(),
        forall|cx: int, cy: int|
            old(m).in_bounds(cx, cy) ==> #[trigger] final(m).at(cx, cy) == T::sub_spec(
                v@[cy],
                old(m).at(cx, cy),
            ),
{
    let f = |a: T, b: T| -> (r: T)
        requires
            T::can_sub(b, a),
        ensures
            r == T::sub_spec(b, a),
        { T::sub(b, a) };
    zip_assign(m, v, &f);
}

/// Column-broadcast reversed multiplication, the vector standing on the left:
/// `m[(cx, cy)] := v[cy] * m[(cx, cy)]`.
pub fn rmul_assign<T: Number>(m: &mut Matrix<T>, v: &Vector<T>)
    requires
        old(m).wf(),
        v@.len() == old(m).spec_y(),
        forall|cx: int, cy: int|
            old(m).in_bounds(cx, cy) ==> T::can_mul(v@[cy], #[trigger] old(m).at(cx, cy)),
    ensures
        final(m).wf(),
        final(m).spec_x() == old(m).spec_x(),
        final(m).spec_y() == old(m).spec_y(),
        forall|cx: int, cy: int|
            old(m).in_bounds(cx, cy) ==> #[trigger] final(m).at(cx, cy) == T::mul_spec(
                v@[cy],
                old(m).at(cx, cy),
            ),
{
    let f = |a: T, b: T| -> (r: T)
        requires
            T::can_mul(b, a),
        ensures
            r == T::mul_spec(b, a),
        { T::mul(b, a) };
    zip_assign(m, v, &f);
}

/// Column-broadcast reversed division, the vector standing on the left:
/// `m[(cx, cy)] := v[cy] / m[(cx, cy)]`.
pub fn rdiv_assign<T: Number>(m: &mut Matrix<T>, v: &Vector<T>)
    requires
        old(m).wf(),
        v@.len() == old(m).spec_y(),
        forall|cx: int, cy: int|
            old(m).in_bounds(cx, cy) ==> T::can_div(v@[cy], #[trigger] old(m).at(cx, cy)),
    ensures
        final(m).wf(),
        final(m).spec_x() == old(m).spec_x(),
        final(m).spec_y() == old(m).spec_y(),
        forall|cx: int, cy: int|
            old(m).in_bounds(cx, cy) ==> #[trigger] final(m).at(cx, cy) == T::div_spec(
                v@[cy],
                old(m).at(cx, cy),
            ),
{
    let f = |a: T, b: T| -> (r: T)
        requires
            T::can_div(b, a),
        ensures
            r == T::div_spec(b, a),
        { T::div(b, a) };
    zip_assign(m, v, &f);
}

} // verus!
