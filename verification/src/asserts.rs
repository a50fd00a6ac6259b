use vstd::prelude::*;

verus! {

/// A type-level truth value: `Assert<true>` carries the marker trait below,
/// `Assert<false>` does not, so a bound on it rejects a wrong instantiation
/// before anything runs.
pub enum Assert<const CHECK: bool> {
    Holds,
}

/// The marker that only satisfied type-level checks carry.
pub trait IsTrue {

}

impl IsTrue for Assert<true> {

}

/// A type-level equality check: carries the marker exactly when both type
/// arguments are one type.
pub struct TypeEq<A, B> {
    phantom_data: core::marker::PhantomData<(A, B)>,
}

impl<T> IsTrue for TypeEq<T, T> {

}

} // verus!
