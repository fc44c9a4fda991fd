//! The block numbers that the schedule is computed over.

use vstd::prelude::*;

verus! {

/// An unsigned block number of at least 32 bits.
///
/// The contracts of the schedule speak of a number only through
/// [`value`](BlockNumber::value), the integer it stands for. The operations
/// are the ones the schedule needs: ordering, a test for zero, conversion from
/// a `u32`, and the five arithmetic operations. Addition and multiplication
/// report a result above the limit as `None`; the other three are only called
/// where the result exists.
///
/// `u32` and `u64` are block numbers.
pub trait BlockNumber: Copy + Sized {
    /// The integer that this number stands for.
    spec fn value(self) -> int;

    /// The largest integer that the type can hold.
    spec fn limit() -> int;

    /// Every number lies between zero and the limit.
    proof fn value_in_range(self)
        ensures
            0 <= self.value() <= Self::limit(),
    ;

    /// The block number that stands for `n`.
    fn from_u32(n: u32) -> (r: Self)
        ensures
            r.value() == n,
    ;

    /// Whether this is the number zero.
    fn is_zero(&self) -> (r: bool)
        ensures
            r == (self.value() == 0),
    ;

    /// Whether this number is less than `other`.
    fn less_than(&self, other: &Self) -> (r: bool)
        ensures
            r == (self.value() < other.value()),
    ;

    /// Whether this number and `other` stand for the same integer.
    fn equals(&self, other: &Self) -> (r: bool)
        ensures
            r == (self.value() == other.value()),
    ;

    /// The sum, or `None` where it is above the limit.
    fn checked_plus(self, rhs: Self) -> (r: Option<Self>)
        ensures
            match r {
                Some(sum) => sum.value() == self.value() + rhs.value() && sum.value()
                    <= Self::limit(),
                None => self.value() + rhs.value() > Self::limit(),
            },
    ;

    /// The difference, where `rhs` is not the greater.
    fn minus(self, rhs: Self) -> (r: Self)
        requires
            rhs.value() <= self.value(),
        ensures
            r.value() == self.value() - rhs.value(),
    ;

    /// The product, or `None` where it is above the limit.
    fn checked_times(self, rhs: Self) -> (r: Option<Self>)
        ensures
            match r {
                Some(product) => product.value() == self.value() * rhs.value()
                    && product.value() <= Self::limit(),
                None => self.value() * rhs.value() > Self::limit(),
            },
    ;

    /// The quotient, rounded down, where `rhs` is not zero.
    fn quotient(self, rhs: Self) -> (r: Self)
        requires
            rhs.value() != 0,
        ensures
            r.value() == self.value() / rhs.value(),
    ;

    /// The remainder of the division, where `rhs` is not zero.
    fn remainder(self, rhs: Self) -> (r: Self)
        requires
            rhs.value() != 0,
        ensures
            r.value() == self.value() % rhs.value(),
    ;
}

/// `num_traits::Zero::is_zero` on a `u32`: whether the number is 0.
#[verifier::external_body]
fn u32_is_zero(n: &u32) -> (r: bool)
    ensures
        r == (*n == 0),
{
    num_traits::Zero::is_zero(n)
}

/// `num_traits::Zero::is_zero` on a `u64`: whether the number is 0.
#[verifier::external_body]
fn u64_is_zero(n: &u64) -> (r: bool)
    ensures
        r == (*n == 0),
{
    num_traits::Zero::is_zero(n)
}

impl BlockNumber for u32 {
    open spec fn value(self) -> int {
        self as int
    }

    open spec fn limit() -> int {
        u32::MAX as int
    }

    proof fn value_in_range(self) {
    }

    fn from_u32(n: u32) -> (r: Self) {
        n
    }

    fn is_zero(&self) -> (r: bool) {
        u32_is_zero(self)
    }

    fn less_than(&self, other: &Self) -> (r: bool) {
        *self < *other
    }

    fn equals(&self, other: &Self) -> (r: bool) {
        *self == *other
    }

    fn checked_plus(self, rhs: Self) -> (r: Option<Self>) {
        self.checked_add(rhs)
    }

    fn minus(self, rhs: Self) -> (r: Self) {
        self - rhs
    }

    fn checked_times(self, rhs: Self) -> (r: Option<Self>) {
        self.checked_mul(rhs)
    }

    fn quotient(self, rhs: Self) -> (r: Self) {
        self / rhs
    }

    fn remainder(self, rhs: Self) -> (r: Self) {
        self % rhs
    }
}

impl BlockNumber for u64 {
    open spec fn value(self) -> int {
        self as int
    }

    open spec fn limit() -> int {
        u64::MAX as int
    }

    proof fn value_in_range(self) {
    }

    fn from_u32(n: u32) -> (r: Self) {
        n as u64
    }

    fn is_zero(&self) -> (r: bool) {
        u64_is_zero(self)
    }

    fn less_than(&self, other: &Self) -> (r: bool) {
        *self < *other
    }

    fn equals(&self, other: &Self) -> (r: bool) {
        *self == *other
    }

    fn checked_plus(self, rhs: Self) -> (r: Option<Self>) {
        self.checked_add(rhs)
    }

    fn minus(self, rhs: Self) -> (r: Self) {
        self - rhs
    }

    fn checked_times(self, rhs: Self) -> (r: Option<Self>) {
        self.checked_mul(rhs)
    }

    fn quotient(self, rhs: Self) -> (r: Self) {
        self / rhs
    }

    fn remainder(self, rhs: Self) -> (r: Self) {
        self % rhs
    }
}

} // verus!
