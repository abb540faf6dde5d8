//! Exact arithmetic.
//!
//! [`Real`] gives the operations of [`Arith`] their ideal meaning on the real
//! numbers. The laws of the models (water balance, bounded stores, weights
//! that sum to one) are theorems about the very formulas the contracts use,
//! taken at this number type; rounding number types meet them up to rounding.
use vstd::prelude::*;
use crate::number::Arith;

verus! {

/// The functions on the reals that are not rational: a supply of `tanh`,
/// powers, square roots and logarithms.
pub trait Elementary: Sized {
    /// Hyperbolic tangent.
    spec fn tanh(x: real) -> real;

    /// `x` to the power `e`.
    spec fn pow(x: real, e: real) -> real;

    /// Square root.
    spec fn sqrt(x: real) -> real;

    /// Natural logarithm.
    spec fn ln(x: real) -> real;
}

/// The textbook facts about the elementary functions that the laws rest on.
pub open spec fn lawful<T: Elementary>() -> bool {
    &&& lawful_tanh::<T>()
    &&& lawful_pow::<T>()
    &&& lawful_sqrt::<T>()
}

/// `tanh` maps the non-negative reals into `[0, 1]` and lies below the diagonal.
pub open spec fn lawful_tanh<T: Elementary>() -> bool {
    forall|x: real|
        x >= 0real ==> {
            &&& 0real <= #[trigger] T::tanh(x) <= 1real
            &&& T::tanh(x) <= x
        }
}

/// Powers of non-negative bases are non-negative, grow with the base for a
/// positive exponent, and are one at base one; the power `-1/4` is the inverse
/// of the fourth root.
pub open spec fn lawful_pow<T: Elementary>() -> bool {
    &&& forall|x: real, e: real| x >= 0real ==> 0real <= #[trigger] T::pow(x, e)
    &&& forall|x: real, y: real, e: real|
        0real <= x <= y && e > 0real ==> #[trigger] T::pow(x, e) <= #[trigger] T::pow(y, e)
    &&& forall|e: real| #[trigger] T::pow(1real, e) == 1real
    &&& forall|x: real|
        x >= 1real ==> {
            let z = #[trigger] T::pow(x, -1real / 4real);
            z * z * z * z * x == 1real
        }
}

/// The power one is the number itself, and powers of numbers up to one fall with
/// the exponent.
pub open spec fn lawful_exponents<T: Elementary>() -> bool {
    &&& forall|x: real| x >= 0real ==> #[trigger] T::pow(x, 1real) == x
    &&& forall|x: real, e: real, f: real|
        0real <= x <= 1real && 0real < e <= f ==> #[trigger] T::pow(x, f) <= #[trigger] T::pow(
            x,
            e,
        )
}

/// The square root of a non-negative number is its non-negative root.
pub open spec fn lawful_sqrt<T: Elementary>() -> bool {
    forall|x: real|
        x >= 0real ==> {
            &&& 0real <= #[trigger] T::sqrt(x)
            &&& T::sqrt(x) * T::sqrt(x) == x
        }
}

/// The logarithm of positive numbers turns products into sums, and is larger for
/// larger numbers.
pub open spec fn lawful_ln<T: Elementary>() -> bool {
    &&& forall|x: real, y: real|
        x > 0real && y > 0real ==> #[trigger] T::ln(x * y) == T::ln(x) + T::ln(y)
    &&& forall|x: real, y: real|
        0real < x < y ==> #[trigger] T::ln(x) < #[trigger] T::ln(y)
}

/// A real number, with elementary functions taken from `T`.
#[verifier::reject_recursive_types(T)]
pub struct Real<T: Elementary> {
    /// The value.
    pub v: real,
    /// The supply of elementary functions.
    pub functions: core::marker::PhantomData<T>,
}

/// The real number `v`.
pub open spec fn re<T: Elementary>(v: real) -> Real<T> {
    Real { v, functions: core::marker::PhantomData }
}

/// `x` multiplied with itself `n` times.
pub open spec fn real_power(x: real, n: nat) -> real
    decreases n,
{
    if n == 0 {
        1real
    } else {
        real_power(x, (n - 1) as nat) * x
    }
}

/// The least integer that is not below `x`.
pub open spec fn real_ceiling(x: real) -> int {
    -((-x).floor())
}

impl<T: Elementary> Arith for Real<T> {
    open spec fn literal(num: int, den: int) -> Self {
        if den == 1 {
            re(num as real)
        } else {
            re(num as real / den as real)
        }
    }

    open spec fn natural(n: nat) -> Self {
        re(n as real)
    }

    open spec fn plus(self, other: Self) -> Self {
        re(self.v + other.v)
    }

    open spec fn minus(self, other: Self) -> Self {
        re(self.v - other.v)
    }

    open spec fn times(self, other: Self) -> Self {
        re(self.v * other.v)
    }

    open spec fn over(self, other: Self) -> Self {
        re(self.v / other.v)
    }

    open spec fn lesser(self, other: Self) -> Self {
        if self.v <= other.v {
            self
        } else {
            other
        }
    }

    open spec fn greater(self, other: Self) -> Self {
        if self.v <= other.v {
            other
        } else {
            self
        }
    }

    open spec fn magnitude(self) -> Self {
        if self.v < 0real {
            re(-self.v)
        } else {
            self
        }
    }

    open spec fn raised(self, exponent: Self) -> Self {
        re(T::pow(self.v, exponent.v))
    }

    open spec fn int_raised(self, exponent: int) -> Self {
        if exponent >= 0 {
            re(real_power(self.v, exponent as nat))
        } else {
            re(1real / real_power(self.v, (-exponent) as nat))
        }
    }

    open spec fn root(self) -> Self {
        re(T::sqrt(self.v))
    }

    open spec fn log(self) -> Self {
        re(T::ln(self.v))
    }

    open spec fn hyp_tan(self) -> Self {
        re(T::tanh(self.v))
    }

    open spec fn below(self, other: Self) -> bool {
        self.v < other.v
    }

    open spec fn within(self, other: Self) -> bool {
        self.v <= other.v
    }

    open spec fn same(self, other: Self) -> bool {
        self.v == other.v
    }

    open spec fn undefined(self) -> bool {
        false
    }

    open spec fn finite(self) -> bool {
        true
    }

    open spec fn ceiling(self) -> Option<usize> {
        if 0 <= real_ceiling(self.v) <= usize::MAX {
            Some(real_ceiling(self.v) as usize)
        } else {
            None
        }
    }

    open spec fn rendered(self) -> Seq<char> {
        Seq::empty()
    }
}

} // verus!
