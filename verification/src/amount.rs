//! The numbers that quotes carry: prices, open interest, volumes.
use vstd::prelude::*;

verus! {

/// A quoted number.
///
/// The analytics never look inside a number: they add and subtract them, take a
/// magnitude, ask whether one is positive, and order them by their `rank`. Every
/// operation is total, and each executable operation returns exactly what its
/// specification twin says; nothing else (no associativity, no cancellation) is
/// taken for granted, so rounding arithmetic qualifies as well as exact arithmetic.
pub trait Amount: Copy {
    /// The neutral starting value of a sum.
    spec fn spec_zero() -> Self;

    /// What `plus` returns.
    spec fn spec_plus(self, other: Self) -> Self;

    /// What `minus` returns.
    spec fn spec_minus(self, other: Self) -> Self;

    /// What `magnitude` returns.
    spec fn spec_magnitude(self) -> Self;

    /// What `rank` returns.
    spec fn spec_rank(self) -> i64;

    /// What `is_positive` returns.
    spec fn spec_is_positive(self) -> bool;

    fn zero() -> (r: Self)
        ensures
            r == Self::spec_zero(),
    ;

    fn plus(self, other: Self) -> (r: Self)
        ensures
            r == self.spec_plus(other),
    ;

    fn minus(self, other: Self) -> (r: Self)
        ensures
            r == self.spec_minus(other),
    ;

    /// The number without its sign.
    fn magnitude(self) -> (r: Self)
        ensures
            r == self.spec_magnitude(),
    ;

    /// The number's place in the total order of its type: one number sorts before
    /// another exactly when its rank is smaller.
    fn rank(self) -> (r: i64)
        ensures
            r == self.spec_rank(),
    ;

    fn is_positive(self) -> (r: bool)
        ensures
            r == self.spec_is_positive(),
    ;
}

/// `x`, or the end of the `i64` range it lies beyond.
pub open spec fn clamp_i64(x: int) -> i64 {
    if x > i64::MAX {
        i64::MAX
    } else if x < i64::MIN {
        i64::MIN
    } else {
        x as i64
    }
}

/// Whole numbers, with sums and differences that stop at the ends of the range.
impl Amount for i64 {
    open spec fn spec_zero() -> i64 {
        0i64
    }

    open spec fn spec_plus(self, other: i64) -> i64 {
        clamp_i64(self + other)
    }

    open spec fn spec_minus(self, other: i64) -> i64 {
        clamp_i64(self - other)
    }

    open spec fn spec_magnitude(self) -> i64 {
        if self < 0 {
            clamp_i64(-self)
        } else {
            self
        }
    }

    open spec fn spec_rank(self) -> i64 {
        self
    }

    open spec fn spec_is_positive(self) -> bool {
        self > 0
    }

    fn zero() -> (r: i64) {
        0
    }

    fn plus(self, other: i64) -> (r: i64) {
        match self.checked_add(other) {
            Some(s) => s,
            None => if other > 0 {
                i64::MAX
            } else {
                i64::MIN
            },
        }
    }

    fn minus(self, other: i64) -> (r: i64) {
        match self.checked_sub(other) {
            Some(s) => s,
            None => if other < 0 {
                i64::MAX
            } else {
                i64::MIN
            },
        }
    }

    fn magnitude(self) -> (r: i64) {
        if self == i64::MIN {
            i64::MAX
        } else if self < 0 {
            -self
        } else {
            self
        }
    }

    fn rank(self) -> (r: i64) {
        self
    }

    fn is_positive(self) -> (r: bool) {
        self > 0
    }
}

/// Whole numbers are added and subtracted exactly as long as the outcome fits in 64 bits
/// and stop at the end of the range beyond; a magnitude is the distance from zero; ranks
/// order numbers as they are ordered; and the positive numbers are those above zero.
pub proof fn whole_numbers_count_exactly(a: i64, b: i64)
    ensures
        i64::spec_zero() == 0,
        i64::MIN <= a + b <= i64::MAX ==> a.spec_plus(b) == a + b,
        a + b > i64::MAX ==> a.spec_plus(b) == i64::MAX,
        a + b < i64::MIN ==> a.spec_plus(b) == i64::MIN,
        i64::MIN <= a - b <= i64::MAX ==> a.spec_minus(b) == a - b,
        a - b > i64::MAX ==> a.spec_minus(b) == i64::MAX,
        a - b < i64::MIN ==> a.spec_minus(b) == i64::MIN,
        a >= 0 ==> a.spec_magnitude() == a,
        i64::MIN < a < 0 ==> a.spec_magnitude() == -a,
        a == i64::MIN ==> a.spec_magnitude() == i64::MAX,
        a.spec_rank() <= b.spec_rank() <==> a <= b,
        a.spec_is_positive() <==> a > 0,
{
}

} // verus!
