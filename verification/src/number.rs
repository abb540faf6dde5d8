//! The numbers the models compute with.
//!
//! Every model and metric is generic over its number type, so that plain
//! machine numbers, dual numbers and tape-based numbers all flow through the
//! same code. [`Arith`] says what the operations of such a type mean and
//! [`Scalar`] is the executable interface a number type offers. No algebra is
//! demanded: a type may round, overflow or produce undefined values, and every
//! contract in this crate is written in terms of the operations as that type
//! performs them.
use vstd::prelude::*;

verus! {

/// What the operation of this name gives on these operands, of which nothing is
/// known.
pub open spec fn left_open<A, R>(operation: Seq<char>, operands: A) -> R {
    arbitrary::<spec_fn(Seq<char>, A) -> R>()(operation, operands)
}

/// Meaning of the arithmetic of a number type.
///
/// Each function names the outcome of one operation on given operands. The
/// contracts of the models are formulas over these functions, so they hold for
/// every number type whose operations give one result for the same operands,
/// whatever its rounding. An outcome that a number type does not spell out is
/// left open.
pub trait Arith: Sized {
    /// The number that stands for the fraction `num / den`.
    open spec fn literal(num: int, den: int) -> Self {
        left_open::<(int, int), Self>("literal"@, (num, den))
    }

    /// The number that stands for the count `n`.
    open spec fn natural(n: nat) -> Self {
        left_open::<(nat,), Self>("natural"@, (n,))
    }

    /// The undefined number.
    open spec fn nothing() -> Self {
        left_open::<(), Self>("nothing"@, ())
    }

    /// Sum.
    open spec fn plus(self, other: Self) -> Self {
        left_open::<(Self, Self), Self>("plus"@, (self, other))
    }

    /// Difference.
    open spec fn minus(self, other: Self) -> Self {
        left_open::<(Self, Self), Self>("minus"@, (self, other))
    }

    /// Product.
    open spec fn times(self, other: Self) -> Self {
        left_open::<(Self, Self), Self>("times"@, (self, other))
    }

    /// Quotient.
    open spec fn over(self, other: Self) -> Self {
        left_open::<(Self, Self), Self>("over"@, (self, other))
    }

    /// The smaller of two numbers.
    open spec fn lesser(self, other: Self) -> Self {
        left_open::<(Self, Self), Self>("lesser"@, (self, other))
    }

    /// The larger of two numbers.
    open spec fn greater(self, other: Self) -> Self {
        left_open::<(Self, Self), Self>("greater"@, (self, other))
    }

    /// Absolute value.
    open spec fn magnitude(self) -> Self {
        left_open::<(Self,), Self>("magnitude"@, (self,))
    }

    /// Power with an exponent of the same type.
    open spec fn raised(self, exponent: Self) -> Self {
        left_open::<(Self, Self), Self>("raised"@, (self, exponent))
    }

    /// Power with an integer exponent.
    open spec fn int_raised(self, exponent: int) -> Self {
        left_open::<(Self, int), Self>("int_raised"@, (self, exponent))
    }

    /// Square root.
    open spec fn root(self) -> Self {
        left_open::<(Self,), Self>("root"@, (self,))
    }

    /// Natural logarithm.
    open spec fn log(self) -> Self {
        left_open::<(Self,), Self>("log"@, (self,))
    }

    /// Hyperbolic tangent.
    open spec fn hyp_tan(self) -> Self {
        left_open::<(Self,), Self>("hyp_tan"@, (self,))
    }

    /// Whether this number is strictly less than `other`.
    open spec fn below(self, other: Self) -> bool {
        left_open::<(Self, Self), bool>("below"@, (self, other))
    }

    /// Whether this number is less than or equal to `other`.
    open spec fn within(self, other: Self) -> bool {
        left_open::<(Self, Self), bool>("within"@, (self, other))
    }

    /// Whether both numbers compare as equal.
    open spec fn same(self, other: Self) -> bool {
        left_open::<(Self, Self), bool>("same"@, (self, other))
    }

    /// Whether this is not a number at all.
    open spec fn undefined(self) -> bool {
        left_open::<(Self,), bool>("undefined"@, (self,))
    }

    /// Whether this is neither infinite nor undefined.
    open spec fn finite(self) -> bool {
        left_open::<(Self,), bool>("finite"@, (self,))
    }

    /// The number rounded up to a whole count, where there is such a count.
    open spec fn ceiling(self) -> Option<usize> {
        left_open::<(Self,), Option<usize>>("ceiling"@, (self,))
    }

    /// The number as it is written in a message.
    open spec fn rendered(self) -> Seq<char> {
        left_open::<(Self,), Seq<char>>("rendered"@, (self,))
    }

    /// The number that a text denotes, where it denotes one.
    open spec fn parsed(text: Seq<char>) -> Option<Self> {
        left_open::<(Seq<char>,), Option<Self>>("parsed"@, (text,))
    }
}

/// Zero.
pub open spec fn zero<F: Arith>() -> F {
    F::literal(0, 1)
}

/// One.
pub open spec fn one<F: Arith>() -> F {
    F::literal(1, 1)
}

/// One half.
pub open spec fn half<F: Arith>() -> F {
    F::literal(1, 2)
}

/// Two.
pub open spec fn two<F: Arith>() -> F {
    F::literal(2, 1)
}

/// Sum of a series, added up from the front.
pub open spec fn sum<F: Arith>(s: Seq<F>) -> F
    decreases s.len(),
{
    if s.len() == 0 {
        zero()
    } else {
        sum(s.drop_last()).plus(s.last())
    }
}

/// The sum of one more term.
pub proof fn lemma_sum_step<F: Arith>(s: Seq<F>, i: int)
    requires
        0 <= i < s.len(),
    ensures
        sum(s.take(i + 1)) == sum(s.take(i)).plus(s[i]),
{
    assert(s.take(i + 1).drop_last() =~= s.take(i));
}

/// Executable interface of a number type.
///
/// Implemented by whoever brings a number type to the models. Each method
/// computes the operation of the same meaning in [`Arith`].
pub trait Scalar: Arith + Copy {
    /// The number closest to the fraction `num / den`.
    fn ratio(num: i64, den: i64) -> (r: Self)
        requires
            den > 0,
        ensures
            r == Self::literal(num as int, den as int),
    ;

    /// The number closest to the count `n`.
    fn from_usize(n: usize) -> (r: Self)
        ensures
            r == Self::natural(n as nat),
    ;

    /// The undefined number.
    fn nan() -> (r: Self)
        ensures
            r == Self::nothing(),
    ;

    /// `self + other`.
    fn add(self, other: Self) -> (r: Self)
        ensures
            r == self.plus(other),
    ;

    /// `self - other`.
    fn sub(self, other: Self) -> (r: Self)
        ensures
            r == self.minus(other),
    ;

    /// `self * other`.
    fn mul(self, other: Self) -> (r: Self)
        ensures
            r == self.times(other),
    ;

    /// `self / other`.
    fn div(self, other: Self) -> (r: Self)
        ensures
            r == self.over(other),
    ;

    /// The smaller of two numbers.
    fn min(self, other: Self) -> (r: Self)
        ensures
            r == self.lesser(other),
    ;

    /// The larger of two numbers.
    fn max(self, other: Self) -> (r: Self)
        ensures
            r == self.greater(other),
    ;

    /// Absolute value.
    fn abs(self) -> (r: Self)
        ensures
            r == self.magnitude(),
    ;

    /// `self` raised to `exponent`.
    fn powf(self, exponent: Self) -> (r: Self)
        ensures
            r == self.raised(exponent),
    ;

    /// `self` raised to the integer `exponent`.
    fn powi(self, exponent: i32) -> (r: Self)
        ensures
            r == self.int_raised(exponent as int),
    ;

    /// Square root.
    fn sqrt(self) -> (r: Self)
        ensures
            r == self.root(),
    ;

    /// Natural logarithm.
    fn ln(self) -> (r: Self)
        ensures
            r == self.log(),
    ;

    /// Hyperbolic tangent.
    fn tanh(self) -> (r: Self)
        ensures
            r == self.hyp_tan(),
    ;

    /// `self < other`.
    fn less_than(self, other: Self) -> (r: bool)
        ensures
            r == self.below(other),
    ;

    /// `self <= other`.
    fn at_most(self, other: Self) -> (r: bool)
        ensures
            r == self.within(other),
    ;

    /// `self == other`.
    fn equal_to(self, other: Self) -> (r: bool)
        ensures
            r == self.same(other),
    ;

    /// Whether this is not a number.
    fn is_nan(self) -> (r: bool)
        ensures
            r == self.undefined(),
    ;

    /// Whether this is neither infinite nor undefined.
    fn is_finite(self) -> (r: bool)
        ensures
            r == self.finite(),
    ;

    /// Rounds up to a whole count; `None` where the result is no `usize`.
    fn ceil_to_usize(self) -> (r: Option<usize>)
        ensures
            r == self.ceiling(),
    ;

    /// The text of this number for use in a message.
    fn render(self) -> (r: String)
        ensures
            r@ == self.rendered(),
    ;
}

/// A number type that can be read from text.
pub trait Readable: Scalar {
    /// Reads the number that `text` denotes; `None` where it denotes none.
    fn parse(text: &str) -> (r: Option<Self>)
        ensures
            r == Self::parsed(text@),
    ;
}

/// Adds up a series.
pub(crate) fn total<F: Scalar>(s: &[F]) -> (r: F)
    ensures
        r == sum(s@),
{
    let mut acc = F::ratio(0, 1);
    let mut i: usize = 0;
    while i < s.len()
        invariant
            i <= s@.len(),
            acc == sum(s@.take(i as int)),
        decreases s@.len() - i,
    {
        proof {
            lemma_sum_step(s@, i as int);
        }
        acc = acc.add(s[i]);
        i = i + 1;
    }
    assert(s@.take(i as int) =~= s@);
    acc
}

/// Copies a series.
pub(crate) fn copied<F: Scalar>(s: &[F]) -> (r: Vec<F>)
    ensures
        r@ == s@,
{
    let mut r: Vec<F> = Vec::new();
    let mut i: usize = 0;
    while i < s.len()
        invariant
            i <= s@.len(),
            r@ == s@.take(i as int),
        decreases s@.len() - i,
    {
        r.push(s[i]);
        assert(s@.take(i + 1) =~= s@.take(i as int).push(s@[i as int]));
        i = i + 1;
    }
    assert(s@.take(i as int) =~= s@);
    r
}

} // verus!
