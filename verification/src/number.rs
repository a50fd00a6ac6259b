use vstd::prelude::*;
use vstd::arithmetic::div_mod::{lemma_div_nonincreasing, lemma_div_pos_is_pos, lemma_div_is_ordered_by_denominator};

verus! {

/// Result of Rust's truncating division (rounding toward zero) on
/// mathematical integers, for a nonzero divisor.
pub open spec fn round_to_zero_div(a: int, b: int) -> int {
    if a == 0 {
        0
    } else if a > 0 && b > 0 {
        a / b
    } else if a < 0 && b < 0 {
        (a * -1) / (b * -1)
    } else if a < 0 {
        ((a * -1) / b) * -1
    } else {
        (a / (b * -1)) * -1
    }
}

/// The scalar interface every element type of `Vector` and `Matrix` provides:
/// the four basic operations with their exact results, predicates saying when
/// each stays in range, a total order, and the distinguished values zero and
/// one. All higher-level contracts are stated through the `*_spec` functions.
pub trait Number: Sized + Copy {
    spec fn zero_spec() -> Self;

    spec fn one_spec() -> Self;

    /// Whether `a + b` stays in range.
    spec fn can_add(a: Self, b: Self) -> bool;

    spec fn add_spec(a: Self, b: Self) -> Self;

    /// Whether `a - b` stays in range.
    spec fn can_sub(a: Self, b: Self) -> bool;

    spec fn sub_spec(a: Self, b: Self) -> Self;

    /// Whether `a * b` stays in range.
    spec fn can_mul(a: Self, b: Self) -> bool;

    spec fn mul_spec(a: Self, b: Self) -> Self;

    /// Whether `a / b` is defined and stays in range.
    spec fn can_div(a: Self, b: Self) -> bool;

    spec fn div_spec(a: Self, b: Self) -> Self;

    /// Whether `-a` stays in range.
    spec fn can_neg(a: Self) -> bool;

    spec fn neg_spec(a: Self) -> Self;

    /// The total order used by comparisons and by the column median.
    spec fn le_spec(a: Self, b: Self) -> bool;

    /// Whether the count `n` is representable in this type.
    spec fn can_from_usize(n: usize) -> bool;

    spec fn from_usize_spec(n: usize) -> Self;

    fn zero() -> (r: Self)
        ensures
            r == Self::zero_spec(),
    ;

    fn one() -> (r: Self)
        ensures
            r == Self::one_spec(),
    ;

    fn add(a: Self, b: Self) -> (r: Self)
        requires
            Self::can_add(a, b),
        ensures
            r == Self::add_spec(a, b),
    ;

    fn sub(a: Self, b: Self) -> (r: Self)
        requires
            Self::can_sub(a, b),
        ensures
            r == Self::sub_spec(a, b),
    ;

    fn mul(a: Self, b: Self) -> (r: Self)
        requires
            Self::can_mul(a, b),
        ensures
            r == Self::mul_spec(a, b),
    ;

    fn div(a: Self, b: Self) -> (r: Self)
        requires
            Self::can_div(a, b),
        ensures
            r == Self::div_spec(a, b),
    ;

    fn neg(a: Self) -> (r: Self)
        requires
            Self::can_neg(a),
        ensures
            r == Self::neg_spec(a),
    ;

    fn le(a: Self, b: Self) -> (r: bool)
        ensures
            r == Self::le_spec(a, b),
    ;

    fn eq_val(a: Self, b: Self) -> (r: bool)
        ensures
            r == (a == b),
    ;

    fn from_usize(n: usize) -> (r: Self)
        requires
            Self::can_from_usize(n),
        ensures
            r == Self::from_usize_spec(n),
    ;

    /// `le_spec` is a total order: reflexive, antisymmetric, transitive and
    /// total. The column median rests on these laws.
    proof fn le_order_laws(a: Self, b: Self, c: Self)
        ensures
            Self::le_spec(a, a),
            Self::le_spec(a, b) || Self::le_spec(b, a),
            Self::le_spec(a, b) && Self::le_spec(b, a) ==> a == b,
            Self::le_spec(a, b) && Self::le_spec(b, c) ==> Self::le_spec(a, c),
    ;
}

impl Number for i64 {
    open spec fn zero_spec() -> i64 {
        0i64
    }

    open spec fn one_spec() -> i64 {
        1i64
    }

    open spec fn can_add(a: i64, b: i64) -> bool {
        i64::MIN <= a + b <= i64::MAX
    }

    open spec fn add_spec(a: i64, b: i64) -> i64 {
        (a + b) as i64
    }

    open spec fn can_sub(a: i64, b: i64) -> bool {
        i64::MIN <= a - b <= i64::MAX
    }

    open spec fn sub_spec(a: i64, b: i64) -> i64 {
        (a - b) as i64
    }

    open spec fn can_mul(a: i64, b: i64) -> bool {
        i64::MIN <= a * b <= i64::MAX
    }

    open spec fn mul_spec(a: i64, b: i64) -> i64 {
        (a * b) as i64
    }

    open spec fn can_div(a: i64, b: i64) -> bool {
        b != 0 && !(a == i64::MIN && b == -1)
    }

    open spec fn div_spec(a: i64, b: i64) -> i64 {
        round_to_zero_div(a as int, b as int) as i64
    }

    open spec fn can_neg(a: i64) -> bool {
        a != i64::MIN
    }

    open spec fn neg_spec(a: i64) -> i64 {
        (-a) as i64
    }

    open spec fn le_spec(a: i64, b: i64) -> bool {
        a <= b
    }

    open spec fn can_from_usize(n: usize) -> bool {
        n <= i64::MAX
    }

    open spec fn from_usize_spec(n: usize) -> i64 {
        n as i64
    }

    fn zero() -> i64 {
        0
    }

    fn one() -> i64 {
        1
    }

    fn add(a: i64, b: i64) -> i64 {
        a + b
    }

    fn sub(a: i64, b: i64) -> i64 {
        a - b
    }

    fn mul(a: i64, b: i64) -> i64 {
        a * b
    }

    fn div(a: i64, b: i64) -> (r: i64) {
        proof {
            lemma_round_to_zero_div_in_range(a as int, b as int, i64::MIN as int, i64::MAX as int);
        }
        a.checked_div(b).unwrap()
    }

    fn neg(a: i64) -> i64 {
        -a
    }

    fn le(a: i64, b: i64) -> bool {
        a <= b
    }

    fn eq_val(a: i64, b: i64) -> bool {
        a == b
    }

    fn from_usize(n: usize) -> i64 {
        n as i64
    }

    proof fn le_order_laws(a: i64, b: i64, c: i64) {
    }
}

impl Number for i8 {
    open spec fn zero_spec() -> i8 {
        0i8
    }

    open spec fn one_spec() -> i8 {
        1i8
    }

    open spec fn can_add(a: i8, b: i8) -> bool {
        i8::MIN <= a + b <= i8::MAX
    }

    open spec fn add_spec(a: i8, b: i8) -> i8 {
        (a + b) as i8
    }

    open spec fn can_sub(a: i8, b: i8) -> bool {
        i8::MIN <= a - b <= i8::MAX
    }

    open spec fn sub_spec(a: i8, b: i8) -> i8 {
        (a - b) as i8
    }

    open spec fn can_mul(a: i8, b: i8) -> bool {
        i8::MIN <= a * b <= i8::MAX
    }

    open spec fn mul_spec(a: i8, b: i8) -> i8 {
        (a * b) as i8
    }

    open spec fn can_div(a: i8, b: i8) -> bool {
        b != 0 && !(a == i8::MIN && b == -1)
    }

    open spec fn div_spec(a: i8, b: i8) -> i8 {
        round_to_zero_div(a as int, b as int) as i8
    }

    open spec fn can_neg(a: i8) -> bool {
        a != i8::MIN
    }

    open spec fn neg_spec(a: i8) -> i8 {
        (-a) as i8
    }

    open spec fn le_spec(a: i8, b: i8) -> bool {
        a <= b
    }

    open spec fn can_from_usize(n: usize) -> bool {
        n <= i8::MAX
    }

    open spec fn from_usize_spec(n: usize) -> i8 {
        n as i8
    }

    fn zero() -> i8 {
        0
    }

    fn one() -> i8 {
        1
    }

    fn add(a: i8, b: i8) -> i8 {
        a + b
    }

    fn sub(a: i8, b: i8) -> i8 {
        a - b
    }

    fn mul(a: i8, b: i8) -> i8 {
        a * b
    }

    fn div(a: i8, b: i8) -> (r: i8) {
        proof {
            lemma_round_to_zero_div_in_range(a as int, b as int, i8::MIN as int, i8::MAX as int);
        }
        a.checked_div(b).unwrap()
    }

    fn neg(a: i8) -> i8 {
        -a
    }

    fn le(a: i8, b: i8) -> bool {
        a <= b
    }

    fn eq_val(a: i8, b: i8) -> bool {
        a == b
    }

    fn from_usize(n: usize) -> i8 {
        n as i8
    }

    proof fn le_order_laws(a: i8, b: i8, c: i8) {
    }
}

impl Number for i16 {
    open spec fn zero_spec() -> i16 {
        0i16
    }

    open spec fn one_spec() -> i16 {
        1i16
    }

    open spec fn can_add(a: i16, b: i16) -> bool {
        i16::MIN <= a + b <= i16::MAX
    }

    open spec fn add_spec(a: i16, b: i16) -> i16 {
        (a + b) as i16
    }

    open spec fn can_sub(a: i16, b: i16) -> bool {
        i16::MIN <= a - b <= i16::MAX
    }

    open spec fn sub_spec(a: i16, b: i16) -> i16 {
        (a - b) as i16
    }

    open spec fn can_mul(a: i16, b: i16) -> bool {
        i16::MIN <= a * b <= i16::MAX
    }

    open spec fn mul_spec(a: i16, b: i16) -> i16 {
        (a * b) as i16
    }

    open spec fn can_div(a: i16, b: i16) -> bool {
        b != 0 && !(a == i16::MIN && b == -1)
    }

    open spec fn div_spec(a: i16, b: i16) -> i16 {
        round_to_zero_div(a as int, b as int) as i16
    }

    open spec fn can_neg(a: i16) -> bool {
        a != i16::MIN
    }

    open spec fn neg_spec(a: i16) -> i16 {
        (-a) as i16
    }

    open spec fn le_spec(a: i16, b: i16) -> bool {
        a <= b
    }

    open spec fn can_from_usize(n: usize) -> bool {
        n <= i16::MAX
    }

    open spec fn from_usize_spec(n: usize) -> i16 {
        n as i16
    }

    fn zero() -> i16 {
        0
    }

    fn one() -> i16 {
        1
    }

    fn add(a: i16, b: i16) -> i16 {
        a + b
    }

    fn sub(a: i16, b: i16) -> i16 {
        a - b
    }

    fn mul(a: i16, b: i16) -> i16 {
        a * b
    }

    fn div(a: i16, b: i16) -> (r: i16) {
        proof {
            lemma_round_to_zero_div_in_range(a as int, b as int, i16::MIN as int, i16::MAX as int);
        }
        a.checked_div(b).unwrap()
    }

    fn neg(a: i16) -> i16 {
        -a
    }

    fn le(a: i16, b: i16) -> bool {
        a <= b
    }

    fn eq_val(a: i16, b: i16) -> bool {
        a == b
    }

    fn from_usize(n: usize) -> i16 {
        n as i16
    }

    proof fn le_order_laws(a: i16, b: i16, c: i16) {
    }
}

impl Number for i32 {
    open spec fn zero_spec() -> i32 {
        0i32
    }

    open spec fn one_spec() -> i32 {
        1i32
    }

    open spec fn can_add(a: i32, b: i32) -> bool {
        i32::MIN <= a + b <= i32::MAX
    }

    open spec fn add_spec(a: i32, b: i32) -> i32 {
        (a + b) as i32
    }

    open spec fn can_sub(a: i32, b: i32) -> bool {
        i32::MIN <= a - b <= i32::MAX
    }

    open spec fn sub_spec(a: i32, b: i32) -> i32 {
        (a - b) as i32
    }

    open spec fn can_mul(a: i32, b: i32) -> bool {
        i32::MIN <= a * b <= i32::MAX
    }

    open spec fn mul_spec(a: i32, b: i32) -> i32 {
        (a * b) as i32
    }

    open spec fn can_div(a: i32, b: i32) -> bool {
        b != 0 && !(a == i32::MIN && b == -1)
    }

    open spec fn div_spec(a: i32, b: i32) -> i32 {
        round_to_zero_div(a as int, b as int) as i32
    }

    open spec fn can_neg(a: i32) -> bool {
        a != i32::MIN
    }

    open spec fn neg_spec(a: i32) -> i32 {
        (-a) as i32
    }

    open spec fn le_spec(a: i32, b: i32) -> bool {
        a <= b
    }

    open spec fn can_from_usize(n: usize) -> bool {
        n <= i32::MAX
    }

    open spec fn from_usize_spec(n: usize) -> i32 {
        n as i32
    }

    fn zero() -> i32 {
        0
    }

    fn one() -> i32 {
        1
    }

    fn add(a: i32, b: i32) -> i32 {
        a + b
    }

    fn sub(a: i32, b: i32) -> i32 {
        a - b
    }

    fn mul(a: i32, b: i32) -> i32 {
        a * b
    }

    fn div(a: i32, b: i32) -> (r: i32) {
        proof {
            lemma_round_to_zero_div_in_range(a as int, b as int, i32::MIN as int, i32::MAX as int);
        }
        a.checked_div(b).unwrap()
    }

    fn neg(a: i32) -> i32 {
        -a
    }

    fn le(a: i32, b: i32) -> bool {
        a <= b
    }

    fn eq_val(a: i32, b: i32) -> bool {
        a == b
    }

    fn from_usize(n: usize) -> i32 {
        n as i32
    }

    proof fn le_order_laws(a: i32, b: i32, c: i32) {
    }
}

impl Number for i128 {
    open spec fn zero_spec() -> i128 {
        0i128
    }

    open spec fn one_spec() -> i128 {
        1i128
    }

    open spec fn can_add(a: i128, b: i128) -> bool {
        i128::MIN <= a + b <= i128::MAX
    }

    open spec fn add_spec(a: i128, b: i128) -> i128 {
        (a + b) as i128
    }

    open spec fn can_sub(a: i128, b: i128) -> bool {
        i128::MIN <= a - b <= i128::MAX
    }

    open spec fn sub_spec(a: i128, b: i128) -> i128 {
        (a - b) as i128
    }

    open spec fn can_mul(a: i128, b: i128) -> bool {
        i128::MIN <= a * b <= i128::MAX
    }

    open spec fn mul_spec(a: i128, b: i128) -> i128 {
        (a * b) as i128
    }

    open spec fn can_div(a: i128, b: i128) -> bool {
        b != 0 && !(a == i128::MIN && b == -1)
    }

    open spec fn div_spec(a: i128, b: i128) -> i128 {
        round_to_zero_div(a as int, b as int) as i128
    }

    open spec fn can_neg(a: i128) -> bool {
        a != i128::MIN
    }

    open spec fn neg_spec(a: i128) -> i128 {
        (-a) as i128
    }

    open spec fn le_spec(a: i128, b: i128) -> bool {
        a <= b
    }

    open spec fn can_from_usize(n: usize) -> bool {
        n <= i128::MAX
    }

    open spec fn from_usize_spec(n: usize) -> i128 {
        n as i128
    }

    fn zero() -> i128 {
        0
    }

    fn one() -> i128 {
        1
    }

    fn add(a: i128, b: i128) -> i128 {
        a + b
    }

    fn sub(a: i128, b: i128) -> i128 {
        a - b
    }

    fn mul(a: i128, b: i128) -> i128 {
        a * b
    }

    fn div(a: i128, b: i128) -> (r: i128) {
        proof {
            lemma_round_to_zero_div_in_range(a as int, b as int, i128::MIN as int, i128::MAX as int);
        }
        a.checked_div(b).unwrap()
    }

    fn neg(a: i128) -> i128 {
        -a
    }

    fn le(a: i128, b: i128) -> bool {
        a <= b
    }

    fn eq_val(a: i128, b: i128) -> bool {
        a == b
    }

    fn from_usize(n: usize) -> i128 {
        n as i128
    }

    proof fn le_order_laws(a: i128, b: i128, c: i128) {
    }
}

impl Number for isize {
    open spec fn zero_spec() -> isize {
        0isize
    }

    open spec fn one_spec() -> isize {
        1isize
    }

    open spec fn can_add(a: isize, b: isize) -> bool {
        isize::MIN <= a + b <= isize::MAX
    }

    open spec fn add_spec(a: isize, b: isize) -> isize {
        (a + b) as isize
    }

    open spec fn can_sub(a: isize, b: isize) -> bool {
        isize::MIN <= a - b <= isize::MAX
    }

    open spec fn sub_spec(a: isize, b: isize) -> isize {
        (a - b) as isize
    }

    open spec fn can_mul(a: isize, b: isize) -> bool {
        isize::MIN <= a * b <= isize::MAX
    }

    open spec fn mul_spec(a: isize, b: isize) -> isize {
        (a * b) as isize
    }

    open spec fn can_div(a: isize, b: isize) -> bool {
        b != 0 && !(a == isize::MIN && b == -1)
    }

    open spec fn div_spec(a: isize, b: isize) -> isize {
        round_to_zero_div(a as int, b as int) as isize
    }

    open spec fn can_neg(a: isize) -> bool {
        a != isize::MIN
    }

    open spec fn neg_spec(a: isize) -> isize {
        (-a) as isize
    }

    open spec fn le_spec(a: isize, b: isize) -> bool {
        a <= b
    }

    open spec fn can_from_usize(n: usize) -> bool {
        n <= isize::MAX
    }

    open spec fn from_usize_spec(n: usize) -> isize {
        n as isize
    }

    fn zero() -> isize {
        0
    }

    fn one() -> isize {
        1
    }

    fn add(a: isize, b: isize) -> isize {
        a + b
    }

    fn sub(a: isize, b: isize) -> isize {
        a - b
    }

    fn mul(a: isize, b: isize) -> isize {
        a * b
    }

    fn div(a: isize, b: isize) -> (r: isize) {
        proof {
            lemma_round_to_zero_div_in_range(a as int, b as int, isize::MIN as int, isize::MAX as int);
        }
        a.checked_div(b).unwrap()
    }

    fn neg(a: isize) -> isize {
        -a
    }

    fn le(a: isize, b: isize) -> bool {
        a <= b
    }

    fn eq_val(a: isize, b: isize) -> bool {
        a == b
    }

    fn from_usize(n: usize) -> isize {
        n as isize
    }

    proof fn le_order_laws(a: isize, b: isize, c: isize) {
    }
}

impl Number for u8 {
    open spec fn zero_spec() -> u8 {
        0u8
    }

    open spec fn one_spec() -> u8 {
        1u8
    }

    open spec fn can_add(a: u8, b: u8) -> bool {
        a + b <= u8::MAX
    }

    open spec fn add_spec(a: u8, b: u8) -> u8 {
        (a + b) as u8
    }

    open spec fn can_sub(a: u8, b: u8) -> bool {
        a >= b
    }

    open spec fn sub_spec(a: u8, b: u8) -> u8 {
        (a - b) as u8
    }

    open spec fn can_mul(a: u8, b: u8) -> bool {
        a * b <= u8::MAX
    }

    open spec fn mul_spec(a: u8, b: u8) -> u8 {
        (a * b) as u8
    }

    open spec fn can_div(a: u8, b: u8) -> bool {
        b != 0
    }

    open spec fn div_spec(a: u8, b: u8) -> u8 {
        (a / b) as u8
    }

    open spec fn can_neg(a: u8) -> bool {
        a == 0
    }

    open spec fn neg_spec(a: u8) -> u8 {
        0u8
    }

    open spec fn le_spec(a: u8, b: u8) -> bool {
        a <= b
    }

    open spec fn can_from_usize(n: usize) -> bool {
        n <= u8::MAX
    }

    open spec fn from_usize_spec(n: usize) -> u8 {
        n as u8
    }

    fn zero() -> u8 {
        0
    }

    fn one() -> u8 {
        1
    }

    fn add(a: u8, b: u8) -> u8 {
        a + b
    }

    fn sub(a: u8, b: u8) -> u8 {
        a - b
    }

    fn mul(a: u8, b: u8) -> u8 {
        a * b
    }

    fn div(a: u8, b: u8) -> u8 {
        a / b
    }

    fn neg(_a: u8) -> u8 {
        0
    }

    fn le(a: u8, b: u8) -> bool {
        a <= b
    }

    fn eq_val(a: u8, b: u8) -> bool {
        a == b
    }

    fn from_usize(n: usize) -> u8 {
        n as u8
    }

    proof fn le_order_laws(a: u8, b: u8, c: u8) {
    }
}

impl Number for u16 {
    open spec fn zero_spec() -> u16 {
        0u16
    }

    open spec fn one_spec() -> u16 {
        1u16
    }

    open spec fn can_add(a: u16, b: u16) -> bool {
        a + b <= u16::MAX
    }

    open spec fn add_spec(a: u16, b: u16) -> u16 {
        (a + b) as u16
    }

    open spec fn can_sub(a: u16, b: u16) -> bool {
        a >= b
    }

    open spec fn sub_spec(a: u16, b: u16) -> u16 {
        (a - b) as u16
    }

    open spec fn can_mul(a: u16, b: u16) -> bool {
        a * b <= u16::MAX
    }

    open spec fn mul_spec(a: u16, b: u16) -> u16 {
        (a * b) as u16
    }

    open spec fn can_div(a: u16, b: u16) -> bool {
        b != 0
    }

    open spec fn div_spec(a: u16, b: u16) -> u16 {
        (a / b) as u16
    }

    open spec fn can_neg(a: u16) -> bool {
        a == 0
    }

    open spec fn neg_spec(a: u16) -> u16 {
        0u16
    }

    open spec fn le_spec(a: u16, b: u16) -> bool {
        a <= b
    }

    open spec fn can_from_usize(n: usize) -> bool {
        n <= u16::MAX
    }

    open spec fn from_usize_spec(n: usize) -> u16 {
        n as u16
    }

    fn zero() -> u16 {
        0
    }

    fn one() -> u16 {
        1
    }

    fn add(a: u16, b: u16) -> u16 {
        a + b
    }

    fn sub(a: u16, b: u16) -> u16 {
        a - b
    }

    fn mul(a: u16, b: u16) -> u16 {
        a * b
    }

    fn div(a: u16, b: u16) -> u16 {
        a / b
    }

    fn neg(_a: u16) -> u16 {
        0
    }

    fn le(a: u16, b: u16) -> bool {
        a <= b
    }

    fn eq_val(a: u16, b: u16) -> bool {
        a == b
    }

    fn from_usize(n: usize) -> u16 {
        n as u16
    }

    proof fn le_order_laws(a: u16, b: u16, c: u16) {
    }
}

impl Number for u32 {
    open spec fn zero_spec() -> u32 {
        0u32
    }

    open spec fn one_spec() -> u32 {
        1u32
    }

    open spec fn can_add(a: u32, b: u32) -> bool {
        a + b <= u32::MAX
    }

    open spec fn add_spec(a: u32, b: u32) -> u32 {
        (a + b) as u32
    }

    open spec fn can_sub(a: u32, b: u32) -> bool {
        a >= b
    }

    open spec fn sub_spec(a: u32, b: u32) -> u32 {
        (a - b) as u32
    }

    open spec fn can_mul(a: u32, b: u32) -> bool {
        a * b <= u32::MAX
    }

    open spec fn mul_spec(a: u32, b: u32) -> u32 {
        (a * b) as u32
    }

    open spec fn can_div(a: u32, b: u32) -> bool {
        b != 0
    }

    open spec fn div_spec(a: u32, b: u32) -> u32 {
        (a / b) as u32
    }

    open spec fn can_neg(a: u32) -> bool {
        a == 0
    }

    open spec fn neg_spec(a: u32) -> u32 {
        0u32
    }

    open spec fn le_spec(a: u32, b: u32) -> bool {
        a <= b
    }

    open spec fn can_from_usize(n: usize) -> bool {
        n <= u32::MAX
    }

    open spec fn from_usize_spec(n: usize) -> u32 {
        n as u32
    }

    fn zero() -> u32 {
        0
    }

    fn one() -> u32 {
        1
    }

    fn add(a: u32, b: u32) -> u32 {
        a + b
    }

    fn sub(a: u32, b: u32) -> u32 {
        a - b
    }

    fn mul(a: u32, b: u32) -> u32 {
        a * b
    }

    fn div(a: u32, b: u32) -> u32 {
        a / b
    }

    fn neg(_a: u32) -> u32 {
        0
    }

    fn le(a: u32, b: u32) -> bool {
        a <= b
    }

    fn eq_val(a: u32, b: u32) -> bool {
        a == b
    }

    fn from_usize(n: usize) -> u32 {
        n as u32
    }

    proof fn le_order_laws(a: u32, b: u32, c: u32) {
    }
}

impl Number for u64 {
    open spec fn zero_spec() -> u64 {
        0u64
    }

    open spec fn one_spec() -> u64 {
        1u64
    }

    open spec fn can_add(a: u64, b: u64) -> bool {
        a + b <= u64::MAX
    }

    open spec fn add_spec(a: u64, b: u64) -> u64 {
        (a + b) as u64
    }

    open spec fn can_sub(a: u64, b: u64) -> bool {
        a >= b
    }

    open spec fn sub_spec(a: u64, b: u64) -> u64 {
        (a - b) as u64
    }

    open spec fn can_mul(a: u64, b: u64) -> bool {
        a * b <= u64::MAX
    }

    open spec fn mul_spec(a: u64, b: u64) -> u64 {
        (a * b) as u64
    }

    open spec fn can_div(a: u64, b: u64) -> bool {
        b != 0
    }

    open spec fn div_spec(a: u64, b: u64) -> u64 {
        (a / b) as u64
    }

    open spec fn can_neg(a: u64) -> bool {
        a == 0
    }

    open spec fn neg_spec(a: u64) -> u64 {
        0u64
    }

    open spec fn le_spec(a: u64, b: u64) -> bool {
        a <= b
    }

    open spec fn can_from_usize(n: usize) -> bool {
        true
    }

    open spec fn from_usize_spec(n: usize) -> u64 {
        n as u64
    }

    fn zero() -> u64 {
        0
    }

    fn one() -> u64 {
        1
    }

    fn add(a: u64, b: u64) -> u64 {
        a + b
    }

    fn sub(a: u64, b: u64) -> u64 {
        a - b
    }

    fn mul(a: u64, b: u64) -> u64 {
        a * b
    }

    fn div(a: u64, b: u64) -> u64 {
        a / b
    }

    fn neg(_a: u64) -> u64 {
        0
    }

    fn le(a: u64, b: u64) -> bool {
        a <= b
    }

    fn eq_val(a: u64, b: u64) -> bool {
        a == b
    }

    fn from_usize(n: usize) -> u64 {
        n as u64
    }

    proof fn le_order_laws(a: u64, b: u64, c: u64) {
    }
}

impl Number for u128 {
    open spec fn zero_spec() -> u128 {
        0u128
    }

    open spec fn one_spec() -> u128 {
        1u128
    }

    open spec fn can_add(a: u128, b: u128) -> bool {
        a + b <= u128::MAX
    }

    open spec fn add_spec(a: u128, b: u128) -> u128 {
        (a + b) as u128
    }

    open spec fn can_sub(a: u128, b: u128) -> bool {
        a >= b
    }

    open spec fn sub_spec(a: u128, b: u128) -> u128 {
        (a - b) as u128
    }

    open spec fn can_mul(a: u128, b: u128) -> bool {
        a * b <= u128::MAX
    }

    open spec fn mul_spec(a: u128, b: u128) -> u128 {
        (a * b) as u128
    }

    open spec fn can_div(a: u128, b: u128) -> bool {
        b != 0
    }

    open spec fn div_spec(a: u128, b: u128) -> u128 {
        (a / b) as u128
    }

    open spec fn can_neg(a: u128) -> bool {
        a == 0
    }

    open spec fn neg_spec(a: u128) -> u128 {
        0u128
    }

    open spec fn le_spec(a: u128, b: u128) -> bool {
        a <= b
    }

    open spec fn can_from_usize(n: usize) -> bool {
        true
    }

    open spec fn from_usize_spec(n: usize) -> u128 {
        n as u128
    }

    fn zero() -> u128 {
        0
    }

    fn one() -> u128 {
        1
    }

    fn add(a: u128, b: u128) -> u128 {
        a + b
    }

    fn sub(a: u128, b: u128) -> u128 {
        a - b
    }

    fn mul(a: u128, b: u128) -> u128 {
        a * b
    }

    fn div(a: u128, b: u128) -> u128 {
        a / b
    }

    fn neg(_a: u128) -> u128 {
        0
    }

    fn le(a: u128, b: u128) -> bool {
        a <= b
    }

    fn eq_val(a: u128, b: u128) -> bool {
        a == b
    }

    fn from_usize(n: usize) -> u128 {
        n as u128
    }

    proof fn le_order_laws(a: u128, b: u128, c: u128) {
    }
}

impl Number for usize {
    open spec fn zero_spec() -> usize {
        0usize
    }

    open spec fn one_spec() -> usize {
        1usize
    }

    open spec fn can_add(a: usize, b: usize) -> bool {
        a + b <= usize::MAX
    }

    open spec fn add_spec(a: usize, b: usize) -> usize {
        (a + b) as usize
    }

    open spec fn can_sub(a: usize, b: usize) -> bool {
        a >= b
    }

    open spec fn sub_spec(a: usize, b: usize) -> usize {
        (a - b) as usize
    }

    open spec fn can_mul(a: usize, b: usize) -> bool {
        a * b <= usize::MAX
    }

    open spec fn mul_spec(a: usize, b: usize) -> usize {
        (a * b) as usize
    }

    open spec fn can_div(a: usize, b: usize) -> bool {
        b != 0
    }

    open spec fn div_spec(a: usize, b: usize) -> usize {
        (a / b) as usize
    }

    open spec fn can_neg(a: usize) -> bool {
        a == 0
    }

    open spec fn neg_spec(a: usize) -> usize {
        0usize
    }

    open spec fn le_spec(a: usize, b: usize) -> bool {
        a <= b
    }

    open spec fn can_from_usize(n: usize) -> bool {
        true
    }

    open spec fn from_usize_spec(n: usize) -> usize {
        n as usize
    }

    fn zero() -> usize {
        0
    }

    fn one() -> usize {
        1
    }

    fn add(a: usize, b: usize) -> usize {
        a + b
    }

    fn sub(a: usize, b: usize) -> usize {
        a - b
    }

    fn mul(a: usize, b: usize) -> usize {
        a * b
    }

    fn div(a: usize, b: usize) -> usize {
        a / b
    }

    fn neg(_a: usize) -> usize {
        0
    }

    fn le(a: usize, b: usize) -> bool {
        a <= b
    }

    fn eq_val(a: usize, b: usize) -> bool {
        a == b
    }

    fn from_usize(n: usize) -> usize {
        n as usize
    }

    proof fn le_order_laws(a: usize, b: usize, c: usize) {
    }
}

/// For a dividend and divisor of a two's-complement type with bounds
/// `lo..=hi`, outside the one overflowing pair, the truncating quotient stays
/// in range.
proof fn lemma_round_to_zero_div_in_range(ai: int, bi: int, lo: int, hi: int)
    requires
        lo < 0 < hi,
        lo + hi == -1,
        lo <= ai <= hi,
        lo <= bi <= hi,
        bi != 0,
        !(ai == lo && bi == -1),
    ensures
        lo <= round_to_zero_div(ai, bi) <= hi,
{
    if ai == 0 {
    } else if ai > 0 && bi > 0 {
        lemma_div_pos_is_pos(ai, bi);
        lemma_div_nonincreasing(ai, bi);
    } else if ai < 0 && bi < 0 {
        lemma_div_pos_is_pos(ai * -1, bi * -1);
        if ai == lo {
            // the divisor is at most -2, so the magnitude at least halves
            lemma_div_is_ordered_by_denominator(ai * -1, 2, bi * -1);
            assert((ai * -1) / 2 <= hi);
        } else {
            lemma_div_nonincreasing(ai * -1, bi * -1);
        }
    } else if ai < 0 {
        lemma_div_pos_is_pos(ai * -1, bi);
        if ai == lo {
            lemma_div_is_ordered_by_denominator(ai * -1, 1, bi);
            assert((ai * -1) / 1 == ai * -1);
        } else {
            lemma_div_nonincreasing(ai * -1, bi);
        }
    } else {
        lemma_div_pos_is_pos(ai, bi * -1);
        lemma_div_nonincreasing(ai, bi * -1);
    }
}

} // verus!
