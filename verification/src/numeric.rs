//! A minimal numeric capability interface for filter coefficients and samples.
//!
//! The transform core is generic over its sample type. A sample type supplies
//! the handful of arithmetic operations the filter bank needs (addition,
//! multiplication, negation, an additive identity, and a few operations for
//! image statistics). Every executable operation is paired with a
//! specification-level twin, so that the contracts of the transform can state
//! results exactly, whatever the sample type computes.

use vstd::prelude::*;

verus! {

/// The arithmetic capabilities a sample type must offer to run through the
/// filter bank. The `spec_*` members give each operation a meaning that
/// contracts can use; each executable operation promises to return exactly
/// what its twin denotes.
pub trait Numeric: Sized + Copy {
    /// Meaning of the additive identity in specifications.
    spec fn spec_zero() -> Self;

    /// Meaning of addition in specifications.
    spec fn spec_add(self, other: Self) -> Self;

    /// Meaning of multiplication in specifications.
    spec fn spec_mul(self, other: Self) -> Self;

    /// Meaning of negation in specifications.
    spec fn spec_neg(self) -> Self;

    /// Meaning of subtraction in specifications.
    spec fn spec_sub(self, other: Self) -> Self;

    /// Meaning of division in specifications.
    spec fn spec_div(self, other: Self) -> Self;

    /// Meaning of the two-sample minimum in specifications.
    spec fn spec_min(self, other: Self) -> Self;

    /// Meaning of the two-sample maximum in specifications.
    spec fn spec_max(self, other: Self) -> Self;

    /// Meaning of conversion from an unsigned count in specifications.
    spec fn spec_from_u64(v: u64) -> Self;

    /// Meaning of the smallest representable sample in specifications.
    spec fn spec_min_bound() -> Self;

    /// Meaning of the largest representable sample in specifications.
    spec fn spec_max_bound() -> Self;

    /// The additive identity.
    fn zero() -> (r: Self)
        ensures
            r == Self::spec_zero(),
    ;

    /// Addition.
    fn add(self, other: Self) -> (r: Self)
        ensures
            r == self.spec_add(other),
    ;

    /// Multiplication.
    fn mul(self, other: Self) -> (r: Self)
        ensures
            r == self.spec_mul(other),
    ;

    /// Negation.
    fn neg(self) -> (r: Self)
        ensures
            r == self.spec_neg(),
    ;

    /// Subtraction.
    fn sub(self, other: Self) -> (r: Self)
        ensures
            r == self.spec_sub(other),
    ;

    /// Division. Implementations must be total: a division by the
    /// implementation's zero may return any value, but must return.
    fn div(self, other: Self) -> (r: Self)
        ensures
            r == self.spec_div(other),
    ;

    /// The smaller of two samples.
    fn min(self, other: Self) -> (r: Self)
        ensures
            r == self.spec_min(other),
    ;

    /// The larger of two samples.
    fn max(self, other: Self) -> (r: Self)
        ensures
            r == self.spec_max(other),
    ;

    /// The sample standing for an unsigned count (a length, a pixel value,
    /// a fixed scale constant).
    fn from_u64(v: u64) -> (r: Self)
        ensures
            r == Self::spec_from_u64(v),
    ;

    /// The smallest representable sample, the seed of a running maximum.
    fn min_bound() -> (r: Self)
        ensures
            r == Self::spec_min_bound(),
    ;

    /// The largest representable sample, the seed of a running minimum.
    fn max_bound() -> (r: Self)
        ensures
            r == Self::spec_max_bound(),
    ;
}

/// Integer samples with wraparound arithmetic and truncating division.
/// Division by zero yields zero rather than failing, so that every
/// operation of the trait is total.
impl Numeric for i64 {
    open spec fn spec_zero() -> i64 {
        0i64
    }

    open spec fn spec_add(self, other: i64) -> i64 {
        self.wrapping_add(other)
    }

    open spec fn spec_mul(self, other: i64) -> i64 {
        self.wrapping_mul(other)
    }

    open spec fn spec_neg(self) -> i64 {
        0i64.wrapping_sub(self)
    }

    open spec fn spec_sub(self, other: i64) -> i64 {
        self.wrapping_sub(other)
    }

    open spec fn spec_div(self, other: i64) -> i64 {
        if other == 0i64 {
            0i64
        } else if self == i64::MIN && other == -1i64 {
            i64::MIN
        } else if let Some(q) = self.checked_div(other) {
            q
        } else {
            0i64
        }
    }

    open spec fn spec_min(self, other: i64) -> i64 {
        if self < other {
            self
        } else {
            other
        }
    }

    open spec fn spec_max(self, other: i64) -> i64 {
        if self > other {
            self
        } else {
            other
        }
    }

    open spec fn spec_from_u64(v: u64) -> i64 {
        v as i64
    }

    open spec fn spec_min_bound() -> i64 {
        i64::MIN
    }

    open spec fn spec_max_bound() -> i64 {
        i64::MAX
    }

    fn zero() -> (r: i64) {
        0i64
    }

    fn add(self, other: i64) -> (r: i64) {
        self.wrapping_add(other)
    }

    fn mul(self, other: i64) -> (r: i64) {
        self.wrapping_mul(other)
    }

    fn neg(self) -> (r: i64) {
        0i64.wrapping_sub(self)
    }

    fn sub(self, other: i64) -> (r: i64) {
        self.wrapping_sub(other)
    }

    fn div(self, other: i64) -> (r: i64) {
        if other == 0i64 {
            0i64
        } else if self == i64::MIN && other == -1i64 {
            i64::MIN
        } else {
            match self.checked_div(other) {
                Some(q) => q,
                None => 0i64,
            }
        }
    }

    fn min(self, other: i64) -> (r: i64) {
        if self < other {
            self
        } else {
            other
        }
    }

    fn max(self, other: i64) -> (r: i64) {
        if self > other {
            self
        } else {
            other
        }
    }

    fn from_u64(v: u64) -> (r: i64) {
        #[verifier::truncate] (v as i64)
    }

    fn min_bound() -> (r: i64) {
        i64::MIN
    }

    fn max_bound() -> (r: i64) {
        i64::MAX
    }
}

} // verus!
