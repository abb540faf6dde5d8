//! Laws of the triangular (MAXBAS) routing weights.
use vstd::prelude::*;

verus! {

use crate::exact::{real_ceiling, Elementary, Real};
use crate::hbv::{triangle, triangle_weights};
use crate::laws::algebra::{
    lemma_distribute, lemma_half, lemma_positive_product, lemma_product_mono, lemma_product_sign,
    lemma_quotient, lemma_quotient_mono, lemma_quotient_sign, lemma_strict, lemma_unit,
};
use crate::laws::sums::{lemma_sum_telescopes, non_negative};
use crate::laws::unit_hydrograph::{countable, lemma_buffer_len};
use crate::number::{one, sum, Arith};

/// Twice the square of a number.
spec fn doubled_square(a: real) -> real {
    2real * a * a
}

/// Twice the square grows with a non-negative number and is at most half of
/// `m * m` up to half of `m`.
proof fn lemma_doubled_square(a: real, b: real, m: real)
    requires
        0real <= a <= b,
        2real * b <= m,
    ensures
        0real <= doubled_square(a) <= doubled_square(b),
        2real * doubled_square(b) <= m * m,
{
    lemma_product_sign(2real * a, a);
    lemma_product_mono(a, b, 2real * a);
    lemma_product_mono(2real * a, 2real * b, b);
    lemma_distribute(2real * a, 2real * b, b);
    lemma_product_mono(2real * b, m, 2real * b);
    lemma_product_mono(2real * b, m, m);
    lemma_distribute(2real * b, m, 2real * b);
    lemma_distribute(2real * b, m, m);
    lemma_distribute(b, b, 2real * b);
    assert(2real * b == b + b);
}

/// The share of `m * m` that twice the square of `a` makes up.
proof fn lemma_limb(a: real, m: real)
    requires
        m > 0real,
        0real <= a,
        2real * a <= m,
    ensures
        0real <= doubled_square(a) / (m * m) <= 1real / 2real,
{
    lemma_doubled_square(a, a, m);
    lemma_positive_product(m, m);
    lemma_quotient_sign(doubled_square(a), m * m);
    lemma_quotient(doubled_square(a), m * m);
    let q = doubled_square(a) / (m * m);
    lemma_half(1real);
    if q > 1real / 2real {
        lemma_product_mono(1real, 2real * q, m * m);
        lemma_distribute(1real, 2real * q, m * m);
        lemma_distribute(q, q, m * m);
        lemma_unit(m * m);
        assert(2real * q == q + q);
        assert(2real * (q * (m * m)) >= m * m);
        lemma_strict(1real, 2real * q, m * m);
    }
}

/// The triangular response lies in `[0, 1]` and never falls.
proof fn lemma_triangle<T: Elementary>(maxbas: Real<T>, t: Real<T>, u: Real<T>)
    requires
        maxbas.v > 0real,
        t.v <= u.v,
    ensures
        0real <= triangle(maxbas, t).v <= triangle(maxbas, u).v <= 1real,
{
    let m = maxbas.v;
    lemma_positive_product(m, m);
    lemma_half(1real);
    if t.v > 0real {
        if 2real * t.v <= m {
            lemma_limb(t.v, m);
        } else if t.v < m {
            lemma_limb(m - t.v, m);
        }
    }
    if u.v > 0real {
        if 2real * u.v <= m {
            lemma_limb(u.v, m);
            if t.v > 0real {
                lemma_doubled_square(t.v, u.v, m);
                lemma_quotient_mono(doubled_square(t.v), doubled_square(u.v), m * m);
            }
        } else if u.v < m {
            lemma_limb(m - u.v, m);
            if 2real * t.v > m {
                lemma_doubled_square(m - u.v, m - t.v, m);
                lemma_quotient_mono(doubled_square(m - u.v), doubled_square(m - t.v), m * m);
            }
        }
    }
}

/// The triangular weights are non-negative, sum to one and last `ceil(maxbas)`
/// steps.
pub proof fn triangle_weights_sum_to_one<T: Elementary>(maxbas: Real<T>)
    requires
        maxbas.v >= 1real,
        countable(maxbas),
    ensures
        triangle_weights(maxbas).len() == real_ceiling(maxbas.v),
        non_negative(triangle_weights(maxbas)),
        sum(triangle_weights(maxbas)) == one::<Real<T>>(),
{
    lemma_buffer_len(maxbas);
    let s = triangle_weights(maxbas);
    let g = |i: int| triangle(maxbas, Real::<T>::natural(i as nat)).v;
    assert forall|i: int| 0 <= i < s.len() implies (#[trigger] s[i]).v >= 0real by {
        lemma_triangle(
            maxbas,
            Real::<T>::natural(i as nat),
            Real::<T>::natural((i + 1) as nat),
        );
    }
    assert forall|i: int| 0 <= i < s.len() implies (#[trigger] s[i]).v == g(i + 1) - g(i) by {}
    lemma_sum_telescopes(s, g);
    let end = Real::<T>::natural(s.len());
    assert(end.v >= maxbas.v);
    assert(triangle(maxbas, end).v == 1real);
    assert(g(0) == 0real);
}

/// The first `j` days of the triangular response release the share
/// `2 j^2 / maxbas^2` of the runoff up to its middle, and all but
/// `2 (maxbas - j)^2 / maxbas^2` of it from there to its end.
pub proof fn release_follows_the_triangle<T: Elementary>(maxbas: Real<T>, j: nat)
    requires
        maxbas.v >= 1real,
        countable(maxbas),
        j <= triangle_weights(maxbas).len(),
    ensures
        ({
            let m = maxbas.v;
            let t = j as real;
            let released = sum(triangle_weights(maxbas).take(j as int)).v;
            &&& 2real * t <= m ==> released * (m * m) == 2real * t * t
            &&& m <= 2real * t && t <= m ==> (1real - released) * (m * m) == 2real * (m - t) * (m
                - t)
            &&& t >= m ==> released == 1real
        }),
{
    lemma_buffer_len(maxbas);
    let m = maxbas.v;
    let t = j as real;
    lemma_positive_product(m, m);
    let s = triangle_weights(maxbas).take(j as int);
    let g = |i: int| triangle(maxbas, Real::<T>::natural(i as nat)).v;
    assert forall|i: int| 0 <= i < s.len() implies (#[trigger] s[i]).v == g(i + 1) - g(i) by {}
    lemma_sum_telescopes(s, g);
    assert(g(0) == 0real);
    lemma_quotient(2real * t * t, m * m);
    lemma_quotient(2real * (m - t) * (m - t), m * m);
    lemma_unit(m * m);
    lemma_unit(m - t);
    lemma_unit(t);
    lemma_unit(2real * t);
    if 2real * t == m {
        assert(m - t == t);
        lemma_half_square(t);
        lemma_distribute(1real, g(j as int), m * m);
    }
}

/// The square of a double.
proof fn lemma_half_square(t: real)
    by (nonlinear_arith)
    ensures
        (2real * t) * (2real * t) == 2real * (2real * t * t),
{
}

} // verus!
