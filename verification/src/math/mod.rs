//! Numbers: a common view of the primitive integers as mathematical values,
//! conversions between them, and their wrapping and checked operations.

use vstd::prelude::*;

pub mod mod_group;

pub use mod_group::WrappingValue;

verus! {

/// A utility trait for all number types.
///
/// Each number has a mathematical value (`to_int`) that lies between
/// `min_int()` and `max_int()`; the lowest, largest, zero and one values are
/// available as functions.
pub trait Number: Copy + Sized {
    /// The mathematical value of this number.
    spec fn to_int(self) -> int;

    /// The mathematical value of the lowest representable number.
    spec fn min_int() -> int;

    /// The mathematical value of the largest representable number.
    spec fn max_int() -> int;

    /// Every value lies within the representable range, and the range holds 0 and 1.
    proof fn lemma_in_range(x: Self)
        ensures
            Self::min_int() <= x.to_int() <= Self::max_int(),
            Self::min_int() <= 0,
            1 <= Self::max_int(),
    ;

    /// Two numbers with the same value are the same number.
    proof fn lemma_value_injective(x: Self, y: Self)
        ensures
            x.to_int() == y.to_int() ==> x == y,
    ;

    /// The lowest representable value.
    fn min_value() -> (r: Self)
        ensures
            r.to_int() == Self::min_int(),
    ;

    /// The largest representable value.
    fn max_value() -> (r: Self)
        ensures
            r.to_int() == Self::max_int(),
    ;

    /// The value zero.
    fn zero() -> (r: Self)
        ensures
            r.to_int() == 0,
    ;

    /// The value one.
    fn one() -> (r: Self)
        ensures
            r.to_int() == 1,
    ;

    /// Addition of two numbers whose sum is representable.
    fn add_num(self, rhs: Self) -> (r: Self)
        requires
            Self::min_int() <= self.to_int() + rhs.to_int() <= Self::max_int(),
        ensures
            r.to_int() == self.to_int() + rhs.to_int(),
    ;
}

/// A utility trait for all unsigned number types.
pub trait UnsingedNumber: Number {
    /// Unsigned numbers start at zero.
    proof fn lemma_unsigned()
        ensures
            Self::min_int() == 0,
    ;

    /// Addition that reports an overflow as `None`.
    fn checked_add_num(self, rhs: Self) -> (r: Option<Self>)
        ensures
            r is None <==> self.to_int() + rhs.to_int() > Self::max_int(),
            r matches Some(v) ==> v.to_int() == self.to_int() + rhs.to_int(),
    ;

    /// Subtraction that reports an underflow as `None`.
    fn checked_sub_num(self, rhs: Self) -> (r: Option<Self>)
        ensures
            r is None <==> self.to_int() < rhs.to_int(),
            r matches Some(v) ==> v.to_int() == self.to_int() - rhs.to_int(),
    ;

    /// The remainder of a division by a non-zero number.
    fn rem_num(self, rhs: Self) -> (r: Self)
        requires
            rhs.to_int() > 0,
        ensures
            r.to_int() == self.to_int() % rhs.to_int(),
    ;
}

/// A helper trait to generate constants for [Number]s.
pub trait NumberConstants: Number {
    /// Creates a number of `value`, which must be representable.
    ///
    /// This can be used instead of literals.
    fn constant(value: usize) -> (res: Self)
        requires
            value <= Self::max_int(),
        ensures
            res.to_int() == value,
    ;
}

/// The value `value` as a number, built by adding one `value` times.
impl<T: Number> NumberConstants for T {
    fn constant(value: usize) -> (res: T) {
        let mut res = T::zero();
        proof {
            T::lemma_in_range(res);
        }
        let mut count: usize = 0;
        while count < value
            invariant
                count <= value,
                value <= T::max_int(),
                T::min_int() <= 0,
                res.to_int() == count,
            decreases value - count,
        {
            res = res.add_num(T::one());
            count += 1;
        }
        res
    }
}

/// Types that implement this can be converted into a u64.
pub trait IntoU64 {
    /// Converts `self` into u64
    fn into(self) -> (r: u64)
        ensures
            r == self.cast_u64(),
    ;

    /// The value of `self` cast to `u64`, truncating or sign-converting as `as` does.
    spec fn cast_u64(self) -> u64;
}

/// Types that implement this can be converted into a i64.
pub trait IntoI64 {
    /// Converts `self` into i64
    fn into(self) -> (r: i64)
        ensures
            r == self.cast_i64(),
    ;

    /// The value of `self` cast to `i64`, truncating or sign-converting as `as` does.
    spec fn cast_i64(self) -> i64;
}

/// Types that implement this can be converted into a usize.
pub trait IntoUSize {
    /// Converts `self` into usize
    fn into(self) -> (r: usize)
        ensures
            r == self.cast_usize(),
    ;

    /// The value of `self` cast to `usize`, truncating or sign-converting as `as` does.
    spec fn cast_usize(self) -> usize;
}

/// Types that implement this can be converted into a isize.
pub trait IntoISize {
    /// Converts `self` into isize
    fn into(self) -> (r: isize)
        ensures
            r == self.cast_isize(),
    ;

    /// The value of `self` cast to `isize`, truncating or sign-converting as `as` does.
    spec fn cast_isize(self) -> isize;
}

/// Wrapping additon
pub trait WrappingAdd<T>: Sized {
    /// The result of the wrapping operation
    type Output;

    /// Performs the add opertion, wrapping around on an overflow
    fn wrapping_add(self, rhs: T) -> Self::Output;
}

/// Wrapping subtraction
pub trait WrappingSub<T>: Sized {
    /// The result of the wrapping operation
    type Output;

    /// Performs the sub opertion, wrapping around on an overflow
    fn wrapping_sub(self, rhs: T) -> Self::Output;
}

/// Wrapping division
pub trait WrappingDiv<T>: Sized {
    /// The result of the wrapping operation
    type Output;

    /// Whether the division is defined: the divisor is not zero.
    spec fn wrapping_div_req(self, rhs: T) -> bool;

    /// Performs the div opertion, wrapping around on an overflow
    fn wrapping_div(self, rhs: T) -> Self::Output
        requires
            self.wrapping_div_req(rhs),
    ;
}

/// Wrapping multiplication
pub trait WrappingMul<T>: Sized {
    /// The result of the wrapping operation
    type Output;

    /// Performs the mul opertion, wrapping around on an overflow
    fn wrapping_mul(self, rhs: T) -> Self::Output;
}

/// Checked additon
pub trait CheckedAdd<T>: Sized {
    /// The result of the checked operation
    type Output;

    /// Performs the add opertion or returns None on an overflow
    fn checked_add(self, rhs: T) -> Option<Self::Output>;
}

/// Checked subtraction
pub trait CheckedSub<T>: Sized {
    /// The result of the checked operation
    type Output;

    /// Performs the sub opertion or returns None on an overflow
    fn checked_sub(self, rhs: T) -> Option<Self::Output>;
}

/// Checked division
pub trait CheckedDiv<T>: Sized {
    /// The result of the checked operation
    type Output;

    /// Performs the div opertion or returns None on an overflow
    fn checked_div(self, rhs: T) -> Option<Self::Output>;
}

/// Checked multiplication
pub trait CheckedMul<T>: Sized {
    /// The result of the checked operation
    type Output;

    /// Performs the mul opertion or returns None on an overflow
    fn checked_mul(self, rhs: T) -> Option<Self::Output>;
}

impl Number for u8 {
    open spec fn to_int(self) -> int {
        self as int
    }

    open spec fn min_int() -> int {
        u8::MIN as int
    }

    open spec fn max_int() -> int {
        u8::MAX as int
    }

    proof fn lemma_in_range(x: Self) {
    }

    proof fn lemma_value_injective(x: Self, y: Self) {
    }

    fn min_value() -> (r: Self) {
        u8::MIN
    }

    fn max_value() -> (r: Self) {
        u8::MAX
    }

    fn zero() -> (r: Self) {
        0
    }

    fn one() -> (r: Self) {
        1
    }

    fn add_num(self, rhs: Self) -> (r: Self) {
        self + rhs
    }
}

impl Number for u16 {
    open spec fn to_int(self) -> int {
        self as int
    }

    open spec fn min_int() -> int {
        u16::MIN as int
    }

    open spec fn max_int() -> int {
        u16::MAX as int
    }

    proof fn lemma_in_range(x: Self) {
    }

    proof fn lemma_value_injective(x: Self, y: Self) {
    }

    fn min_value() -> (r: Self) {
        u16::MIN
    }

    fn max_value() -> (r: Self) {
        u16::MAX
    }

    fn zero() -> (r: Self) {
        0
    }

    fn one() -> (r: Self) {
        1
    }

    fn add_num(self, rhs: Self) -> (r: Self) {
        self + rhs
    }
}

impl Number for u32 {
    open spec fn to_int(self) -> int {
        self as int
    }

    open spec fn min_int() -> int {
        u32::MIN as int
    }

    open spec fn max_int() -> int {
        u32::MAX as int
    }

    proof fn lemma_in_range(x: Self) {
    }

    proof fn lemma_value_injective(x: Self, y: Self) {
    }

    fn min_value() -> (r: Self) {
        u32::MIN
    }

    fn max_value() -> (r: Self) {
        u32::MAX
    }

    fn zero() -> (r: Self) {
        0
    }

    fn one() -> (r: Self) {
        1
    }

    fn add_num(self, rhs: Self) -> (r: Self) {
        self + rhs
    }
}

impl Number for u64 {
    open spec fn to_int(self) -> int {
        self as int
    }

    open spec fn min_int() -> int {
        u64::MIN as int
    }

    open spec fn max_int() -> int {
        u64::MAX as int
    }

    proof fn lemma_in_range(x: Self) {
    }

    proof fn lemma_value_injective(x: Self, y: Self) {
    }

    fn min_value() -> (r: Self) {
        u64::MIN
    }

    fn max_value() -> (r: Self) {
        u64::MAX
    }

    fn zero() -> (r: Self) {
        0
    }

    fn one() -> (r: Self) {
        1
    }

    fn add_num(self, rhs: Self) -> (r: Self) {
        self + rhs
    }
}

impl Number for u128 {
    open spec fn to_int(self) -> int {
        self as int
    }

    open spec fn min_int() -> int {
        u128::MIN as int
    }

    open spec fn max_int() -> int {
        u128::MAX as int
    }

    proof fn lemma_in_range(x: Self) {
    }

    proof fn lemma_value_injective(x: Self, y: Self) {
    }

    fn min_value() -> (r: Self) {
        u128::MIN
    }

    fn max_value() -> (r: Self) {
        u128::MAX
    }

    fn zero() -> (r: Self) {
        0
    }

    fn one() -> (r: Self) {
        1
    }

    fn add_num(self, rhs: Self) -> (r: Self) {
        self + rhs
    }
}

impl Number for usize {
    open spec fn to_int(self) -> int {
        self as int
    }

    open spec fn min_int() -> int {
        usize::MIN as int
    }

    open spec fn max_int() -> int {
        usize::MAX as int
    }

    proof fn lemma_in_range(x: Self) {
    }

    proof fn lemma_value_injective(x: Self, y: Self) {
    }

    fn min_value() -> (r: Self) {
        usize::MIN
    }

    fn max_value() -> (r: Self) {
        usize::MAX
    }

    fn zero() -> (r: Self) {
        0
    }

    fn one() -> (r: Self) {
        1
    }

    fn add_num(self, rhs: Self) -> (r: Self) {
        self + rhs
    }
}

impl Number for i8 {
    open spec fn to_int(self) -> int {
        self as int
    }

    open spec fn min_int() -> int {
        i8::MIN as int
    }

    open spec fn max_int() -> int {
        i8::MAX as int
    }

    proof fn lemma_in_range(x: Self) {
    }

    proof fn lemma_value_injective(x: Self, y: Self) {
    }

    fn min_value() -> (r: Self) {
        i8::MIN
    }

    fn max_value() -> (r: Self) {
        i8::MAX
    }

    fn zero() -> (r: Self) {
        0
    }

    fn one() -> (r: Self) {
        1
    }

    fn add_num(self, rhs: Self) -> (r: Self) {
        self + rhs
    }
}

impl Number for i16 {
    open spec fn to_int(self) -> int {
        self as int
    }

    open spec fn min_int() -> int {
        i16::MIN as int
    }

    open spec fn max_int() -> int {
        i16::MAX as int
    }

    proof fn lemma_in_range(x: Self) {
    }

    proof fn lemma_value_injective(x: Self, y: Self) {
    }

    fn min_value() -> (r: Self) {
        i16::MIN
    }

    fn max_value() -> (r: Self) {
        i16::MAX
    }

    fn zero() -> (r: Self) {
        0
    }

    fn one() -> (r: Self) {
        1
    }

    fn add_num(self, rhs: Self) -> (r: Self) {
        self + rhs
    }
}

impl Number for i32 {
    open spec fn to_int(self) -> int {
        self as int
    }

    open spec fn min_int() -> int {
        i32::MIN as int
    }

    open spec fn max_int() -> int {
        i32::MAX as int
    }

    proof fn lemma_in_range(x: Self) {
    }

    proof fn lemma_value_injective(x: Self, y: Self) {
    }

    fn min_value() -> (r: Self) {
        i32::MIN
    }

    fn max_value() -> (r: Self) {
        i32::MAX
    }

    fn zero() -> (r: Self) {
        0
    }

    fn one() -> (r: Self) {
        1
    }

    fn add_num(self, rhs: Self) -> (r: Self) {
        self + rhs
    }
}

impl Number for i64 {
    open spec fn to_int(self) -> int {
        self as int
    }

    open spec fn min_int() -> int {
        i64::MIN as int
    }

    open spec fn max_int() -> int {
        i64::MAX as int
    }

    proof fn lemma_in_range(x: Self) {
    }

    proof fn lemma_value_injective(x: Self, y: Self) {
    }

    fn min_value() -> (r: Self) {
        i64::MIN
    }

    fn max_value() -> (r: Self) {
        i64::MAX
    }

    fn zero() -> (r: Self) {
        0
    }

    fn one() -> (r: Self) {
        1
    }

    fn add_num(self, rhs: Self) -> (r: Self) {
        self + rhs
    }
}

impl Number for i128 {
    open spec fn to_int(self) -> int {
        self as int
    }

    open spec fn min_int() -> int {
        i128::MIN as int
    }

    open spec fn max_int() -> int {
        i128::MAX as int
    }

    proof fn lemma_in_range(x: Self) {
    }

    proof fn lemma_value_injective(x: Self, y: Self) {
    }

    fn min_value() -> (r: Self) {
        i128::MIN
    }

    fn max_value() -> (r: Self) {
        i128::MAX
    }

    fn zero() -> (r: Self) {
        0
    }

    fn one() -> (r: Self) {
        1
    }

    fn add_num(self, rhs: Self) -> (r: Self) {
        self + rhs
    }
}

impl Number for isize {
    open spec fn to_int(self) -> int {
        self as int
    }

    open spec fn min_int() -> int {
        isize::MIN as int
    }

    open spec fn max_int() -> int {
        isize::MAX as int
    }

    proof fn lemma_in_range(x: Self) {
    }

    proof fn lemma_value_injective(x: Self, y: Self) {
    }

    fn min_value() -> (r: Self) {
        isize::MIN
    }

    fn max_value() -> (r: Self) {
        isize::MAX
    }

    fn zero() -> (r: Self) {
        0
    }

    fn one() -> (r: Self) {
        1
    }

    fn add_num(self, rhs: Self) -> (r: Self) {
        self + rhs
    }
}

impl UnsingedNumber for u8 {
    proof fn lemma_unsigned() {
    }

    fn checked_add_num(self, rhs: Self) -> (r: Option<Self>) {
        self.checked_add(rhs)
    }

    fn checked_sub_num(self, rhs: Self) -> (r: Option<Self>) {
        self.checked_sub(rhs)
    }

    fn rem_num(self, rhs: Self) -> (r: Self) {
        self % rhs
    }
}

impl UnsingedNumber for u16 {
    proof fn lemma_unsigned() {
    }

    fn checked_add_num(self, rhs: Self) -> (r: Option<Self>) {
        self.checked_add(rhs)
    }

    fn checked_sub_num(self, rhs: Self) -> (r: Option<Self>) {
        self.checked_sub(rhs)
    }

    fn rem_num(self, rhs: Self) -> (r: Self) {
        self % rhs
    }
}

impl UnsingedNumber for u32 {
    proof fn lemma_unsigned() {
    }

    fn checked_add_num(self, rhs: Self) -> (r: Option<Self>) {
        self.checked_add(rhs)
    }

    fn checked_sub_num(self, rhs: Self) -> (r: Option<Self>) {
        self.checked_sub(rhs)
    }

    fn rem_num(self, rhs: Self) -> (r: Self) {
        self % rhs
    }
}

impl UnsingedNumber for u64 {
    proof fn lemma_unsigned() {
    }

    fn checked_add_num(self, rhs: Self) -> (r: Option<Self>) {
        self.checked_add(rhs)
    }

    fn checked_sub_num(self, rhs: Self) -> (r: Option<Self>) {
        self.checked_sub(rhs)
    }

    fn rem_num(self, rhs: Self) -> (r: Self) {
        self % rhs
    }
}

impl UnsingedNumber for u128 {
    proof fn lemma_unsigned() {
    }

    fn checked_add_num(self, rhs: Self) -> (r: Option<Self>) {
        self.checked_add(rhs)
    }

    fn checked_sub_num(self, rhs: Self) -> (r: Option<Self>) {
        self.checked_sub(rhs)
    }

    fn rem_num(self, rhs: Self) -> (r: Self) {
        self % rhs
    }
}

impl UnsingedNumber for usize {
    proof fn lemma_unsigned() {
    }

    fn checked_add_num(self, rhs: Self) -> (r: Option<Self>) {
        self.checked_add(rhs)
    }

    fn checked_sub_num(self, rhs: Self) -> (r: Option<Self>) {
        self.checked_sub(rhs)
    }

    fn rem_num(self, rhs: Self) -> (r: Self) {
        self % rhs
    }
}

impl IntoU64 for u8 {
    fn into(self) -> (r: u64) {
        self as u64
    }

    open spec fn cast_u64(self) -> u64 {
        self as u64
    }
}

impl IntoI64 for u8 {
    fn into(self) -> (r: i64) {
        self as i64
    }

    open spec fn cast_i64(self) -> i64 {
        self as i64
    }
}

impl IntoUSize for u8 {
    fn into(self) -> (r: usize) {
        self as usize
    }

    open spec fn cast_usize(self) -> usize {
        self as usize
    }
}

impl IntoISize for u8 {
    fn into(self) -> (r: isize) {
        self as isize
    }

    open spec fn cast_isize(self) -> isize {
        self as isize
    }
}

impl IntoU64 for u16 {
    fn into(self) -> (r: u64) {
        self as u64
    }

    open spec fn cast_u64(self) -> u64 {
        self as u64
    }
}

impl IntoI64 for u16 {
    fn into(self) -> (r: i64) {
        self as i64
    }

    open spec fn cast_i64(self) -> i64 {
        self as i64
    }
}

impl IntoUSize for u16 {
    fn into(self) -> (r: usize) {
        self as usize
    }

    open spec fn cast_usize(self) -> usize {
        self as usize
    }
}

impl IntoISize for u16 {
    fn into(self) -> (r: isize) {
        self as isize
    }

    open spec fn cast_isize(self) -> isize {
        self as isize
    }
}

impl IntoU64 for u32 {
    fn into(self) -> (r: u64) {
        self as u64
    }

    open spec fn cast_u64(self) -> u64 {
        self as u64
    }
}

impl IntoI64 for u32 {
    fn into(self) -> (r: i64) {
        self as i64
    }

    open spec fn cast_i64(self) -> i64 {
        self as i64
    }
}

impl IntoUSize for u32 {
    fn into(self) -> (r: usize) {
        self as usize
    }

    open spec fn cast_usize(self) -> usize {
        self as usize
    }
}

impl IntoISize for u32 {
    fn into(self) -> (r: isize) {
        self as isize
    }

    open spec fn cast_isize(self) -> isize {
        self as isize
    }
}

impl IntoU64 for u64 {
    fn into(self) -> (r: u64) {
        self as u64
    }

    open spec fn cast_u64(self) -> u64 {
        self as u64
    }
}

impl IntoI64 for u64 {
    fn into(self) -> (r: i64) {
        self as i64
    }

    open spec fn cast_i64(self) -> i64 {
        self as i64
    }
}

impl IntoUSize for u64 {
    fn into(self) -> (r: usize) {
        self as usize
    }

    open spec fn cast_usize(self) -> usize {
        self as usize
    }
}

impl IntoISize for u64 {
    fn into(self) -> (r: isize) {
        self as isize
    }

    open spec fn cast_isize(self) -> isize {
        self as isize
    }
}

impl IntoU64 for u128 {
    fn into(self) -> (r: u64) {
        self as u64
    }

    open spec fn cast_u64(self) -> u64 {
        self as u64
    }
}

impl IntoI64 for u128 {
    fn into(self) -> (r: i64) {
        self as i64
    }

    open spec fn cast_i64(self) -> i64 {
        self as i64
    }
}

impl IntoUSize for u128 {
    fn into(self) -> (r: usize) {
        self as usize
    }

    open spec fn cast_usize(self) -> usize {
        self as usize
    }
}

impl IntoISize for u128 {
    fn into(self) -> (r: isize) {
        self as isize
    }

    open spec fn cast_isize(self) -> isize {
        self as isize
    }
}

impl IntoU64 for usize {
    fn into(self) -> (r: u64) {
        self as u64
    }

    open spec fn cast_u64(self) -> u64 {
        self as u64
    }
}

impl IntoI64 for usize {
    fn into(self) -> (r: i64) {
        self as i64
    }

    open spec fn cast_i64(self) -> i64 {
        self as i64
    }
}

impl IntoUSize for usize {
    fn into(self) -> (r: usize) {
        self as usize
    }

    open spec fn cast_usize(self) -> usize {
        self as usize
    }
}

impl IntoISize for usize {
    fn into(self) -> (r: isize) {
        self as isize
    }

    open spec fn cast_isize(self) -> isize {
        self as isize
    }
}

impl IntoU64 for i8 {
    fn into(self) -> (r: u64) {
        self as u64
    }

    open spec fn cast_u64(self) -> u64 {
        self as u64
    }
}

impl IntoI64 for i8 {
    fn into(self) -> (r: i64) {
        self as i64
    }

    open spec fn cast_i64(self) -> i64 {
        self as i64
    }
}

impl IntoUSize for i8 {
    fn into(self) -> (r: usize) {
        self as usize
    }

    open spec fn cast_usize(self) -> usize {
        self as usize
    }
}

impl IntoISize for i8 {
    fn into(self) -> (r: isize) {
        self as isize
    }

    open spec fn cast_isize(self) -> isize {
        self as isize
    }
}

impl IntoU64 for i16 {
    fn into(self) -> (r: u64) {
        self as u64
    }

    open spec fn cast_u64(self) -> u64 {
        self as u64
    }
}

impl IntoI64 for i16 {
    fn into(self) -> (r: i64) {
        self as i64
    }

    open spec fn cast_i64(self) -> i64 {
        self as i64
    }
}

impl IntoUSize for i16 {
    fn into(self) -> (r: usize) {
        self as usize
    }

    open spec fn cast_usize(self) -> usize {
        self as usize
    }
}

impl IntoISize for i16 {
    fn into(self) -> (r: isize) {
        self as isize
    }

    open spec fn cast_isize(self) -> isize {
        self as isize
    }
}

impl IntoU64 for i32 {
    fn into(self) -> (r: u64) {
        self as u64
    }

    open spec fn cast_u64(self) -> u64 {
        self as u64
    }
}

impl IntoI64 for i32 {
    fn into(self) -> (r: i64) {
        self as i64
    }

    open spec fn cast_i64(self) -> i64 {
        self as i64
    }
}

impl IntoUSize for i32 {
    fn into(self) -> (r: usize) {
        self as usize
    }

    open spec fn cast_usize(self) -> usize {
        self as usize
    }
}

impl IntoISize for i32 {
    fn into(self) -> (r: isize) {
        self as isize
    }

    open spec fn cast_isize(self) -> isize {
        self as isize
    }
}

impl IntoU64 for i64 {
    fn into(self) -> (r: u64) {
        self as u64
    }

    open spec fn cast_u64(self) -> u64 {
        self as u64
    }
}

impl IntoI64 for i64 {
    fn into(self) -> (r: i64) {
        self as i64
    }

    open spec fn cast_i64(self) -> i64 {
        self as i64
    }
}

impl IntoUSize for i64 {
    fn into(self) -> (r: usize) {
        self as usize
    }

    open spec fn cast_usize(self) -> usize {
        self as usize
    }
}

impl IntoISize for i64 {
    fn into(self) -> (r: isize) {
        self as isize
    }

    open spec fn cast_isize(self) -> isize {
        self as isize
    }
}

impl IntoU64 for i128 {
    fn into(self) -> (r: u64) {
        self as u64
    }

    open spec fn cast_u64(self) -> u64 {
        self as u64
    }
}

impl IntoI64 for i128 {
    fn into(self) -> (r: i64) {
        self as i64
    }

    open spec fn cast_i64(self) -> i64 {
        self as i64
    }
}

impl IntoUSize for i128 {
    fn into(self) -> (r: usize) {
        self as usize
    }

    open spec fn cast_usize(self) -> usize {
        self as usize
    }
}

impl IntoISize for i128 {
    fn into(self) -> (r: isize) {
        self as isize
    }

    open spec fn cast_isize(self) -> isize {
        self as isize
    }
}

impl IntoU64 for isize {
    fn into(self) -> (r: u64) {
        self as u64
    }

    open spec fn cast_u64(self) -> u64 {
        self as u64
    }
}

impl IntoI64 for isize {
    fn into(self) -> (r: i64) {
        self as i64
    }

    open spec fn cast_i64(self) -> i64 {
        self as i64
    }
}

impl IntoUSize for isize {
    fn into(self) -> (r: usize) {
        self as usize
    }

    open spec fn cast_usize(self) -> usize {
        self as usize
    }
}

impl IntoISize for isize {
    fn into(self) -> (r: isize) {
        self as isize
    }

    open spec fn cast_isize(self) -> isize {
        self as isize
    }
}

impl WrappingAdd<u8> for u8 {
    type Output = u8;

    fn wrapping_add(self, rhs: Self) -> (r: Self::Output)
        ensures
            r == u8::wrapping_add(self, rhs),
    {
        u8::wrapping_add(self, rhs)
    }
}

impl WrappingSub<u8> for u8 {
    type Output = u8;

    fn wrapping_sub(self, rhs: Self) -> (r: Self::Output)
        ensures
            r == u8::wrapping_sub(self, rhs),
    {
        u8::wrapping_sub(self, rhs)
    }
}

impl WrappingDiv<u8> for u8 {
    type Output = u8;

    /// The quotient rounded towards zero; the one overflowing quotient wraps around.
    open spec fn wrapping_div_req(self, rhs: Self) -> bool {
        rhs != 0
    }

    fn wrapping_div(self, rhs: Self) -> (r: Self::Output)
        ensures
            r == (self / rhs),
    {
        self / rhs
    }
}

impl WrappingMul<u8> for u8 {
    type Output = u8;

    fn wrapping_mul(self, rhs: Self) -> (r: Self::Output)
        ensures
            r == u8::wrapping_mul(self, rhs),
    {
        u8::wrapping_mul(self, rhs)
    }
}

impl CheckedAdd<u8> for u8 {
    type Output = u8;

    fn checked_add(self, rhs: Self) -> (r: Option<Self::Output>)
        ensures
            r == u8::checked_add(self, rhs),
    {
        u8::checked_add(self, rhs)
    }
}

impl CheckedSub<u8> for u8 {
    type Output = u8;

    fn checked_sub(self, rhs: Self) -> (r: Option<Self::Output>)
        ensures
            r == u8::checked_sub(self, rhs),
    {
        u8::checked_sub(self, rhs)
    }
}

impl CheckedDiv<u8> for u8 {
    type Output = u8;

    fn checked_div(self, rhs: Self) -> (r: Option<Self::Output>)
        ensures
            r == u8::checked_div(self, rhs),
    {
        u8::checked_div(self, rhs)
    }
}

impl CheckedMul<u8> for u8 {
    type Output = u8;

    fn checked_mul(self, rhs: Self) -> (r: Option<Self::Output>)
        ensures
            r == u8::checked_mul(self, rhs),
    {
        u8::checked_mul(self, rhs)
    }
}

impl WrappingAdd<u16> for u16 {
    type Output = u16;

    fn wrapping_add(self, rhs: Self) -> (r: Self::Output)
        ensures
            r == u16::wrapping_add(self, rhs),
    {
        u16::wrapping_add(self, rhs)
    }
}

impl WrappingSub<u16> for u16 {
    type Output = u16;

    fn wrapping_sub(self, rhs: Self) -> (r: Self::Output)
        ensures
            r == u16::wrapping_sub(self, rhs),
    {
        u16::wrapping_sub(self, rhs)
    }
}

impl WrappingDiv<u16> for u16 {
    type Output = u16;

    /// The quotient rounded towards zero; the one overflowing quotient wraps around.
    open spec fn wrapping_div_req(self, rhs: Self) -> bool {
        rhs != 0
    }

    fn wrapping_div(self, rhs: Self) -> (r: Self::Output)
        ensures
            r == (self / rhs),
    {
        self / rhs
    }
}

impl WrappingMul<u16> for u16 {
    type Output = u16;

    fn wrapping_mul(self, rhs: Self) -> (r: Self::Output)
        ensures
            r == u16::wrapping_mul(self, rhs),
    {
        u16::wrapping_mul(self, rhs)
    }
}

impl CheckedAdd<u16> for u16 {
    type Output = u16;

    fn checked_add(self, rhs: Self) -> (r: Option<Self::Output>)
        ensures
            r == u16::checked_add(self, rhs),
    {
        u16::checked_add(self, rhs)
    }
}

impl CheckedSub<u16> for u16 {
    type Output = u16;

    fn checked_sub(self, rhs: Self) -> (r: Option<Self::Output>)
        ensures
            r == u16::checked_sub(self, rhs),
    {
        u16::checked_sub(self, rhs)
    }
}

impl CheckedDiv<u16> for u16 {
    type Output = u16;

    fn checked_div(self, rhs: Self) -> (r: Option<Self::Output>)
        ensures
            r == u16::checked_div(self, rhs),
    {
        u16::checked_div(self, rhs)
    }
}

impl CheckedMul<u16> for u16 {
    type Output = u16;

    fn checked_mul(self, rhs: Self) -> (r: Option<Self::Output>)
        ensures
            r == u16::checked_mul(self, rhs),
    {
        u16::checked_mul(self, rhs)
    }
}

impl WrappingAdd<u32> for u32 {
    type Output = u32;

    fn wrapping_add(self, rhs: Self) -> (r: Self::Output)
        ensures
            r == u32::wrapping_add(self, rhs),
    {
        u32::wrapping_add(self, rhs)
    }
}

impl WrappingSub<u32> for u32 {
    type Output = u32;

    fn wrapping_sub(self, rhs: Self) -> (r: Self::Output)
        ensures
            r == u32::wrapping_sub(self, rhs),
    {
        u32::wrapping_sub(self, rhs)
    }
}

impl WrappingDiv<u32> for u32 {
    type Output = u32;

    /// The quotient rounded towards zero; the one overflowing quotient wraps around.
    open spec fn wrapping_div_req(self, rhs: Self) -> bool {
        rhs != 0
    }

    fn wrapping_div(self, rhs: Self) -> (r: Self::Output)
        ensures
            r == (self / rhs),
    {
        self / rhs
    }
}

impl WrappingMul<u32> for u32 {
    type Output = u32;

    fn wrapping_mul(self, rhs: Self) -> (r: Self::Output)
        ensures
            r == u32::wrapping_mul(self, rhs),
    {
        u32::wrapping_mul(self, rhs)
    }
}

impl CheckedAdd<u32> for u32 {
    type Output = u32;

    fn checked_add(self, rhs: Self) -> (r: Option<Self::Output>)
        ensures
            r == u32::checked_add(self, rhs),
    {
        u32::checked_add(self, rhs)
    }
}

impl CheckedSub<u32> for u32 {
    type Output = u32;

    fn checked_sub(self, rhs: Self) -> (r: Option<Self::Output>)
        ensures
            r == u32::checked_sub(self, rhs),
    {
        u32::checked_sub(self, rhs)
    }
}

impl CheckedDiv<u32> for u32 {
    type Output = u32;

    fn checked_div(self, rhs: Self) -> (r: Option<Self::Output>)
        ensures
            r == u32::checked_div(self, rhs),
    {
        u32::checked_div(self, rhs)
    }
}

impl CheckedMul<u32> for u32 {
    type Output = u32;

    fn checked_mul(self, rhs: Self) -> (r: Option<Self::Output>)
        ensures
            r == u32::checked_mul(self, rhs),
    {
        u32::checked_mul(self, rhs)
    }
}

impl WrappingAdd<u64> for u64 {
    type Output = u64;

    fn wrapping_add(self, rhs: Self) -> (r: Self::Output)
        ensures
            r == u64::wrapping_add(self, rhs),
    {
        u64::wrapping_add(self, rhs)
    }
}

impl WrappingSub<u64> for u64 {
    type Output = u64;

    fn wrapping_sub(self, rhs: Self) -> (r: Self::Output)
        ensures
            r == u64::wrapping_sub(self, rhs),
    {
        u64::wrapping_sub(self, rhs)
    }
}

impl WrappingDiv<u64> for u64 {
    type Output = u64;

    /// The quotient rounded towards zero; the one overflowing quotient wraps around.
    open spec fn wrapping_div_req(self, rhs: Self) -> bool {
        rhs != 0
    }

    fn wrapping_div(self, rhs: Self) -> (r: Self::Output)
        ensures
            r == (self / rhs),
    {
        self / rhs
    }
}

impl WrappingMul<u64> for u64 {
    type Output = u64;

    fn wrapping_mul(self, rhs: Self) -> (r: Self::Output)
        ensures
            r == u64::wrapping_mul(self, rhs),
    {
        u64::wrapping_mul(self, rhs)
    }
}

impl CheckedAdd<u64> for u64 {
    type Output = u64;

    fn checked_add(self, rhs: Self) -> (r: Option<Self::Output>)
        ensures
            r == u64::checked_add(self, rhs),
    {
        u64::checked_add(self, rhs)
    }
}

impl CheckedSub<u64> for u64 {
    type Output = u64;

    fn checked_sub(self, rhs: Self) -> (r: Option<Self::Output>)
        ensures
            r == u64::checked_sub(self, rhs),
    {
        u64::checked_sub(self, rhs)
    }
}

impl CheckedDiv<u64> for u64 {
    type Output = u64;

    fn checked_div(self, rhs: Self) -> (r: Option<Self::Output>)
        ensures
            r == u64::checked_div(self, rhs),
    {
        u64::checked_div(self, rhs)
    }
}

impl CheckedMul<u64> for u64 {
    type Output = u64;

    fn checked_mul(self, rhs: Self) -> (r: Option<Self::Output>)
        ensures
            r == u64::checked_mul(self, rhs),
    {
        u64::checked_mul(self, rhs)
    }
}

impl WrappingAdd<u128> for u128 {
    type Output = u128;

    fn wrapping_add(self, rhs: Self) -> (r: Self::Output)
        ensures
            r == u128::wrapping_add(self, rhs),
    {
        u128::wrapping_add(self, rhs)
    }
}

impl WrappingSub<u128> for u128 {
    type Output = u128;

    fn wrapping_sub(self, rhs: Self) -> (r: Self::Output)
        ensures
            r == u128::wrapping_sub(self, rhs),
    {
        u128::wrapping_sub(self, rhs)
    }
}

impl WrappingDiv<u128> for u128 {
    type Output = u128;

    /// The quotient rounded towards zero; the one overflowing quotient wraps around.
    open spec fn wrapping_div_req(self, rhs: Self) -> bool {
        rhs != 0
    }

    fn wrapping_div(self, rhs: Self) -> (r: Self::Output)
        ensures
            r == (self / rhs),
    {
        self / rhs
    }
}

impl WrappingMul<u128> for u128 {
    type Output = u128;

    fn wrapping_mul(self, rhs: Self) -> (r: Self::Output)
        ensures
            r == u128::wrapping_mul(self, rhs),
    {
        u128::wrapping_mul(self, rhs)
    }
}

impl CheckedAdd<u128> for u128 {
    type Output = u128;

    fn checked_add(self, rhs: Self) -> (r: Option<Self::Output>)
        ensures
            r == u128::checked_add(self, rhs),
    {
        u128::checked_add(self, rhs)
    }
}

impl CheckedSub<u128> for u128 {
    type Output = u128;

    fn checked_sub(self, rhs: Self) -> (r: Option<Self::Output>)
        ensures
            r == u128::checked_sub(self, rhs),
    {
        u128::checked_sub(self, rhs)
    }
}

impl CheckedDiv<u128> for u128 {
    type Output = u128;

    fn checked_div(self, rhs: Self) -> (r: Option<Self::Output>)
        ensures
            r == u128::checked_div(self, rhs),
    {
        u128::checked_div(self, rhs)
    }
}

impl CheckedMul<u128> for u128 {
    type Output = u128;

    fn checked_mul(self, rhs: Self) -> (r: Option<Self::Output>)
        ensures
            r == u128::checked_mul(self, rhs),
    {
        u128::checked_mul(self, rhs)
    }
}

impl WrappingAdd<usize> for usize {
    type Output = usize;

    fn wrapping_add(self, rhs: Self) -> (r: Self::Output)
        ensures
            r == usize::wrapping_add(self, rhs),
    {
        usize::wrapping_add(self, rhs)
    }
}

impl WrappingSub<usize> for usize {
    type Output = usize;

    fn wrapping_sub(self, rhs: Self) -> (r: Self::Output)
        ensures
            r == usize::wrapping_sub(self, rhs),
    {
        usize::wrapping_sub(self, rhs)
    }
}

impl WrappingDiv<usize> for usize {
    type Output = usize;

    /// The quotient rounded towards zero; the one overflowing quotient wraps around.
    open spec fn wrapping_div_req(self, rhs: Self) -> bool {
        rhs != 0
    }

    fn wrapping_div(self, rhs: Self) -> (r: Self::Output)
        ensures
            r == (self / rhs),
    {
        self / rhs
    }
}

impl WrappingMul<usize> for usize {
    type Output = usize;

    fn wrapping_mul(self, rhs: Self) -> (r: Self::Output)
        ensures
            r == usize::wrapping_mul(self, rhs),
    {
        usize::wrapping_mul(self, rhs)
    }
}

impl CheckedAdd<usize> for usize {
    type Output = usize;

    fn checked_add(self, rhs: Self) -> (r: Option<Self::Output>)
        ensures
            r == usize::checked_add(self, rhs),
    {
        usize::checked_add(self, rhs)
    }
}

impl CheckedSub<usize> for usize {
    type Output = usize;

    fn checked_sub(self, rhs: Self) -> (r: Option<Self::Output>)
        ensures
            r == usize::checked_sub(self, rhs),
    {
        usize::checked_sub(self, rhs)
    }
}

impl CheckedDiv<usize> for usize {
    type Output = usize;

    fn checked_div(self, rhs: Self) -> (r: Option<Self::Output>)
        ensures
            r == usize::checked_div(self, rhs),
    {
        usize::checked_div(self, rhs)
    }
}

impl CheckedMul<usize> for usize {
    type Output = usize;

    fn checked_mul(self, rhs: Self) -> (r: Option<Self::Output>)
        ensures
            r == usize::checked_mul(self, rhs),
    {
        usize::checked_mul(self, rhs)
    }
}

impl WrappingAdd<i8> for i8 {
    type Output = i8;

    fn wrapping_add(self, rhs: Self) -> (r: Self::Output)
        ensures
            r == i8::wrapping_add(self, rhs),
    {
        i8::wrapping_add(self, rhs)
    }
}

impl WrappingSub<i8> for i8 {
    type Output = i8;

    fn wrapping_sub(self, rhs: Self) -> (r: Self::Output)
        ensures
            r == i8::wrapping_sub(self, rhs),
    {
        i8::wrapping_sub(self, rhs)
    }
}

impl WrappingDiv<i8> for i8 {
    type Output = i8;

    /// The quotient rounded towards zero; the one overflowing quotient wraps around.
    open spec fn wrapping_div_req(self, rhs: Self) -> bool {
        rhs != 0
    }

    fn wrapping_div(self, rhs: Self) -> (r: Self::Output)
        ensures
            r == (match self.checked_div(rhs) { Some(q) => q, None => i8::MIN }),
    {
        match self.checked_div(rhs) { Some(q) => q, None => i8::MIN }
    }
}

impl WrappingMul<i8> for i8 {
    type Output = i8;

    fn wrapping_mul(self, rhs: Self) -> (r: Self::Output)
        ensures
            r == i8::wrapping_mul(self, rhs),
    {
        i8::wrapping_mul(self, rhs)
    }
}

impl CheckedAdd<i8> for i8 {
    type Output = i8;

    fn checked_add(self, rhs: Self) -> (r: Option<Self::Output>)
        ensures
            r == i8::checked_add(self, rhs),
    {
        i8::checked_add(self, rhs)
    }
}

impl CheckedSub<i8> for i8 {
    type Output = i8;

    fn checked_sub(self, rhs: Self) -> (r: Option<Self::Output>)
        ensures
            r == i8::checked_sub(self, rhs),
    {
        i8::checked_sub(self, rhs)
    }
}

impl CheckedDiv<i8> for i8 {
    type Output = i8;

    fn checked_div(self, rhs: Self) -> (r: Option<Self::Output>)
        ensures
            r == i8::checked_div(self, rhs),
    {
        i8::checked_div(self, rhs)
    }
}

impl CheckedMul<i8> for i8 {
    type Output = i8;

    fn checked_mul(self, rhs: Self) -> (r: Option<Self::Output>)
        ensures
            r == i8::checked_mul(self, rhs),
    {
        i8::checked_mul(self, rhs)
    }
}

impl WrappingAdd<i16> for i16 {
    type Output = i16;

    fn wrapping_add(self, rhs: Self) -> (r: Self::Output)
        ensures
            r == i16::wrapping_add(self, rhs),
    {
        i16::wrapping_add(self, rhs)
    }
}

impl WrappingSub<i16> for i16 {
    type Output = i16;

    fn wrapping_sub(self, rhs: Self) -> (r: Self::Output)
        ensures
            r == i16::wrapping_sub(self, rhs),
    {
        i16::wrapping_sub(self, rhs)
    }
}

impl WrappingDiv<i16> for i16 {
    type Output = i16;

    /// The quotient rounded towards zero; the one overflowing quotient wraps around.
    open spec fn wrapping_div_req(self, rhs: Self) -> bool {
        rhs != 0
    }

    fn wrapping_div(self, rhs: Self) -> (r: Self::Output)
        ensures
            r == (match self.checked_div(rhs) { Some(q) => q, None => i16::MIN }),
    {
        match self.checked_div(rhs) { Some(q) => q, None => i16::MIN }
    }
}

impl WrappingMul<i16> for i16 {
    type Output = i16;

    fn wrapping_mul(self, rhs: Self) -> (r: Self::Output)
        ensures
            r == i16::wrapping_mul(self, rhs),
    {
        i16::wrapping_mul(self, rhs)
    }
}

impl CheckedAdd<i16> for i16 {
    type Output = i16;

    fn checked_add(self, rhs: Self) -> (r: Option<Self::Output>)
        ensures
            r == i16::checked_add(self, rhs),
    {
        i16::checked_add(self, rhs)
    }
}

impl CheckedSub<i16> for i16 {
    type Output = i16;

    fn checked_sub(self, rhs: Self) -> (r: Option<Self::Output>)
        ensures
            r == i16::checked_sub(self, rhs),
    {
        i16::checked_sub(self, rhs)
    }
}

impl CheckedDiv<i16> for i16 {
    type Output = i16;

    fn checked_div(self, rhs: Self) -> (r: Option<Self::Output>)
        ensures
            r == i16::checked_div(self, rhs),
    {
        i16::checked_div(self, rhs)
    }
}

impl CheckedMul<i16> for i16 {
    type Output = i16;

    fn checked_mul(self, rhs: Self) -> (r: Option<Self::Output>)
        ensures
            r == i16::checked_mul(self, rhs),
    {
        i16::checked_mul(self, rhs)
    }
}

impl WrappingAdd<i32> for i32 {
    type Output = i32;

    fn wrapping_add(self, rhs: Self) -> (r: Self::Output)
        ensures
            r == i32::wrapping_add(self, rhs),
    {
        i32::wrapping_add(self, rhs)
    }
}

impl WrappingSub<i32> for i32 {
    type Output = i32;

    fn wrapping_sub(self, rhs: Self) -> (r: Self::Output)
        ensures
            r == i32::wrapping_sub(self, rhs),
    {
        i32::wrapping_sub(self, rhs)
    }
}

impl WrappingDiv<i32> for i32 {
    type Output = i32;

    /// The quotient rounded towards zero; the one overflowing quotient wraps around.
    open spec fn wrapping_div_req(self, rhs: Self) -> bool {
        rhs != 0
    }

    fn wrapping_div(self, rhs: Self) -> (r: Self::Output)
        ensures
            r == (match self.checked_div(rhs) { Some(q) => q, None => i32::MIN }),
    {
        match self.checked_div(rhs) { Some(q) => q, None => i32::MIN }
    }
}

impl WrappingMul<i32> for i32 {
    type Output = i32;

    fn wrapping_mul(self, rhs: Self) -> (r: Self::Output)
        ensures
            r == i32::wrapping_mul(self, rhs),
    {
        i32::wrapping_mul(self, rhs)
    }
}

impl CheckedAdd<i32> for i32 {
    type Output = i32;

    fn checked_add(self, rhs: Self) -> (r: Option<Self::Output>)
        ensures
            r == i32::checked_add(self, rhs),
    {
        i32::checked_add(self, rhs)
    }
}

impl CheckedSub<i32> for i32 {
    type Output = i32;

    fn checked_sub(self, rhs: Self) -> (r: Option<Self::Output>)
        ensures
            r == i32::checked_sub(self, rhs),
    {
        i32::checked_sub(self, rhs)
    }
}

impl CheckedDiv<i32> for i32 {
    type Output = i32;

    fn checked_div(self, rhs: Self) -> (r: Option<Self::Output>)
        ensures
            r == i32::checked_div(self, rhs),
    {
        i32::checked_div(self, rhs)
    }
}

impl CheckedMul<i32> for i32 {
    type Output = i32;

    fn checked_mul(self, rhs: Self) -> (r: Option<Self::Output>)
        ensures
            r == i32::checked_mul(self, rhs),
    {
        i32::checked_mul(self, rhs)
    }
}

impl WrappingAdd<i64> for i64 {
    type Output = i64;

    fn wrapping_add(self, rhs: Self) -> (r: Self::Output)
        ensures
            r == i64::wrapping_add(self, rhs),
    {
        i64::wrapping_add(self, rhs)
    }
}

impl WrappingSub<i64> for i64 {
    type Output = i64;

    fn wrapping_sub(self, rhs: Self) -> (r: Self::Output)
        ensures
            r == i64::wrapping_sub(self, rhs),
    {
        i64::wrapping_sub(self, rhs)
    }
}

impl WrappingDiv<i64> for i64 {
    type Output = i64;

    /// The quotient rounded towards zero; the one overflowing quotient wraps around.
    open spec fn wrapping_div_req(self, rhs: Self) -> bool {
        rhs != 0
    }

    fn wrapping_div(self, rhs: Self) -> (r: Self::Output)
        ensures
            r == (match self.checked_div(rhs) { Some(q) => q, None => i64::MIN }),
    {
        match self.checked_div(rhs) { Some(q) => q, None => i64::MIN }
    }
}

impl WrappingMul<i64> for i64 {
    type Output = i64;

    fn wrapping_mul(self, rhs: Self) -> (r: Self::Output)
        ensures
            r == i64::wrapping_mul(self, rhs),
    {
        i64::wrapping_mul(self, rhs)
    }
}

impl CheckedAdd<i64> for i64 {
    type Output = i64;

    fn checked_add(self, rhs: Self) -> (r: Option<Self::Output>)
        ensures
            r == i64::checked_add(self, rhs),
    {
        i64::checked_add(self, rhs)
    }
}

impl CheckedSub<i64> for i64 {
    type Output = i64;

    fn checked_sub(self, rhs: Self) -> (r: Option<Self::Output>)
        ensures
            r == i64::checked_sub(self, rhs),
    {
        i64::checked_sub(self, rhs)
    }
}

impl CheckedDiv<i64> for i64 {
    type Output = i64;

    fn checked_div(self, rhs: Self) -> (r: Option<Self::Output>)
        ensures
            r == i64::checked_div(self, rhs),
    {
        i64::checked_div(self, rhs)
    }
}

impl CheckedMul<i64> for i64 {
    type Output = i64;

    fn checked_mul(self, rhs: Self) -> (r: Option<Self::Output>)
        ensures
            r == i64::checked_mul(self, rhs),
    {
        i64::checked_mul(self, rhs)
    }
}

impl WrappingAdd<i128> for i128 {
    type Output = i128;

    fn wrapping_add(self, rhs: Self) -> (r: Self::Output)
        ensures
            r == i128::wrapping_add(self, rhs),
    {
        i128::wrapping_add(self, rhs)
    }
}

impl WrappingSub<i128> for i128 {
    type Output = i128;

    fn wrapping_sub(self, rhs: Self) -> (r: Self::Output)
        ensures
            r == i128::wrapping_sub(self, rhs),
    {
        i128::wrapping_sub(self, rhs)
    }
}

impl WrappingDiv<i128> for i128 {
    type Output = i128;

    /// The quotient rounded towards zero; the one overflowing quotient wraps around.
    open spec fn wrapping_div_req(self, rhs: Self) -> bool {
        rhs != 0
    }

    fn wrapping_div(self, rhs: Self) -> (r: Self::Output)
        ensures
            r == (match self.checked_div(rhs) { Some(q) => q, None => i128::MIN }),
    {
        match self.checked_div(rhs) { Some(q) => q, None => i128::MIN }
    }
}

impl WrappingMul<i128> for i128 {
    type Output = i128;

    fn wrapping_mul(self, rhs: Self) -> (r: Self::Output)
        ensures
            r == i128::wrapping_mul(self, rhs),
    {
        i128::wrapping_mul(self, rhs)
    }
}

impl CheckedAdd<i128> for i128 {
    type Output = i128;

    fn checked_add(self, rhs: Self) -> (r: Option<Self::Output>)
        ensures
            r == i128::checked_add(self, rhs),
    {
        i128::checked_add(self, rhs)
    }
}

impl CheckedSub<i128> for i128 {
    type Output = i128;

    fn checked_sub(self, rhs: Self) -> (r: Option<Self::Output>)
        ensures
            r == i128::checked_sub(self, rhs),
    {
        i128::checked_sub(self, rhs)
    }
}

impl CheckedDiv<i128> for i128 {
    type Output = i128;

    fn checked_div(self, rhs: Self) -> (r: Option<Self::Output>)
        ensures
            r == i128::checked_div(self, rhs),
    {
        i128::checked_div(self, rhs)
    }
}

impl CheckedMul<i128> for i128 {
    type Output = i128;

    fn checked_mul(self, rhs: Self) -> (r: Option<Self::Output>)
        ensures
            r == i128::checked_mul(self, rhs),
    {
        i128::checked_mul(self, rhs)
    }
}

impl WrappingAdd<isize> for isize {
    type Output = isize;

    fn wrapping_add(self, rhs: Self) -> (r: Self::Output)
        ensures
            r == isize::wrapping_add(self, rhs),
    {
        isize::wrapping_add(self, rhs)
    }
}

impl WrappingSub<isize> for isize {
    type Output = isize;

    fn wrapping_sub(self, rhs: Self) -> (r: Self::Output)
        ensures
            r == isize::wrapping_sub(self, rhs),
    {
        isize::wrapping_sub(self, rhs)
    }
}

impl WrappingDiv<isize> for isize {
    type Output = isize;

    /// The quotient rounded towards zero; the one overflowing quotient wraps around.
    open spec fn wrapping_div_req(self, rhs: Self) -> bool {
        rhs != 0
    }

    fn wrapping_div(self, rhs: Self) -> (r: Self::Output)
        ensures
            r == (match self.checked_div(rhs) { Some(q) => q, None => isize::MIN }),
    {
        match self.checked_div(rhs) { Some(q) => q, None => isize::MIN }
    }
}

impl WrappingMul<isize> for isize {
    type Output = isize;

    fn wrapping_mul(self, rhs: Self) -> (r: Self::Output)
        ensures
            r == isize::wrapping_mul(self, rhs),
    {
        isize::wrapping_mul(self, rhs)
    }
}

impl CheckedAdd<isize> for isize {
    type Output = isize;

    fn checked_add(self, rhs: Self) -> (r: Option<Self::Output>)
        ensures
            r == isize::checked_add(self, rhs),
    {
        isize::checked_add(self, rhs)
    }
}

impl CheckedSub<isize> for isize {
    type Output = isize;

    fn checked_sub(self, rhs: Self) -> (r: Option<Self::Output>)
        ensures
            r == isize::checked_sub(self, rhs),
    {
        isize::checked_sub(self, rhs)
    }
}

impl CheckedDiv<isize> for isize {
    type Output = isize;

    fn checked_div(self, rhs: Self) -> (r: Option<Self::Output>)
        ensures
            r == isize::checked_div(self, rhs),
    {
        isize::checked_div(self, rhs)
    }
}

impl CheckedMul<isize> for isize {
    type Output = isize;

    fn checked_mul(self, rhs: Self) -> (r: Option<Self::Output>)
        ensures
            r == isize::checked_mul(self, rhs),
    {
        isize::checked_mul(self, rhs)
    }
}

} // verus!
