//! Arithmetic on reals and sums of series.
use vstd::prelude::*;

verus! {

/// Multiplying a quotient by its divisor gives back the dividend.
pub(crate) proof fn lemma_quotient(a: real, d: real)
    by (nonlinear_arith)
    requires
        d != 0real,
    ensures
        (a / d) * d == a,
{
}

/// A quotient is determined by what it multiplies to.
pub(crate) proof fn lemma_quotient_is(a: real, d: real, q: real)
    by (nonlinear_arith)
    requires
        d != 0real,
        q * d == a,
    ensures
        a / d == q,
{
}

/// A quotient of non-negative by positive is non-negative.
pub(crate) proof fn lemma_quotient_sign(a: real, d: real)
    by (nonlinear_arith)
    requires
        d > 0real,
        a >= 0real,
    ensures
        a / d >= 0real,
{
}

/// Dividing by a positive number keeps the order.
pub(crate) proof fn lemma_quotient_mono(a: real, b: real, d: real)
    by (nonlinear_arith)
    requires
        d > 0real,
        a <= b,
    ensures
        a / d <= b / d,
{
}

/// A quotient is at most what its dividend is at most a multiple of.
pub(crate) proof fn lemma_quotient_at_most(n: real, d: real, a: real)
    requires
        d > 0real,
        n <= d * a,
    ensures
        n / d <= a,
{
    lemma_quotient(n, d);
    if n / d > a {
        lemma_strict(a, n / d, d);
        lemma_commute(n / d, d);
    }
}

/// Factors commute.
pub(crate) proof fn lemma_commute(a: real, b: real)
    by (nonlinear_arith)
    ensures
        a * b == b * a,
{
}

/// Multiplying by a positive number keeps a strict order.
pub(crate) proof fn lemma_strict(a: real, b: real, c: real)
    by (nonlinear_arith)
    requires
        a < b,
        c > 0real,
    ensures
        c * a < c * b,
{
}

/// Products of positive numbers are positive.
pub(crate) proof fn lemma_positive_product(a: real, b: real)
    by (nonlinear_arith)
    requires
        a > 0real,
        b > 0real,
    ensures
        a * b > 0real,
{
}

/// A share of a non-negative number lies between zero and the number.
pub(crate) proof fn lemma_share(k: real, a: real)
    requires
        0real <= k <= 1real,
        a >= 0real,
    ensures
        0real <= k * a <= a,
        0real <= a * k <= a,
{
    lemma_product_sign(k, a);
    lemma_product_mono(k, 1real, a);
    lemma_unit(a);
    lemma_commute(a, k);
}

/// Half of a number.
pub(crate) proof fn lemma_half(a: real)
    by (nonlinear_arith)
    ensures
        (1real / 2real) * a == a / 2real,
        2real * (a / 2real) == a,
{
}

/// Products of non-negative numbers are non-negative.
pub(crate) proof fn lemma_product_sign(a: real, b: real)
    by (nonlinear_arith)
    requires
        a >= 0real,
        b >= 0real,
    ensures
        a * b >= 0real,
{
}

/// Multiplying by a non-negative number keeps the order.
pub(crate) proof fn lemma_product_mono(a: real, b: real, c: real)
    by (nonlinear_arith)
    requires
        a <= b,
        c >= 0real,
    ensures
        c * a <= c * b,
{
}

/// One and zero in products.
pub(crate) proof fn lemma_unit(a: real)
    by (nonlinear_arith)
    ensures
        1real * a == a,
        a * 1real == a,
        0real * a == 0real,
        a * 0real == 0real,
{
}

/// Factors can be regrouped.
pub(crate) proof fn lemma_assoc(a: real, b: real, c: real)
    by (nonlinear_arith)
    ensures
        a * (b * c) == (a * b) * c,
{
}

/// Factors can be reordered.
pub(crate) proof fn lemma_swap(a: real, b: real, c: real)
    by (nonlinear_arith)
    ensures
        (a * b) * c == (a * c) * b,
{
}

/// Multiplication distributes over a sum.
pub(crate) proof fn lemma_distribute(a: real, b: real, c: real)
    by (nonlinear_arith)
    ensures
        (a + b) * c == a * c + b * c,
        (a - b) * c == a * c - b * c,
        c * (a + b) == c * a + c * b,
        c * (a - b) == c * a - c * b,
        c * a == a * c,
        c * b == b * c,
{
}

} // verus!
