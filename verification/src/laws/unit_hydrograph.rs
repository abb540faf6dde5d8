//! Laws of the GR4J unit hydrographs.
use vstd::prelude::*;

verus! {

use crate::exact::{lawful_pow, real_ceiling, Elementary, Real};
use crate::gr4j::{ordinates1, ordinates2, s_curve1, s_curve2};
use crate::laws::algebra::{
    lemma_half, lemma_product_mono, lemma_product_sign, lemma_quotient, lemma_quotient_is,
    lemma_quotient_mono, lemma_quotient_sign, lemma_unit,
};
use crate::laws::sums::{lemma_sum_telescopes, non_negative};
use crate::number::{one, sum, two, Arith};
use crate::uh::buffer_len;

/// Whether the steps of a response lasting `x` can be counted.
pub open spec fn countable<T: Elementary>(x: Real<T>) -> bool {
    real_ceiling(x.v) <= usize::MAX
}

/// A response ends within its buffer.
pub(crate) proof fn lemma_buffer_len<T: Elementary>(x: Real<T>)
    requires
        x.v > 0real,
        countable(x),
    ensures
        buffer_len(x) == real_ceiling(x.v),
        buffer_len(x) >= 1,
        buffer_len(x) as real >= x.v,
        (buffer_len(x) - 1) as real <= x.v,
{
    let c = real_ceiling(x.v);
    assert(c as real >= x.v);
    assert(c >= 1);
}

/// The slow S-curve lies in `[0, 1]` and never falls.
proof fn lemma_s_curve1<T: Elementary>(t: Real<T>, u: Real<T>, x4: Real<T>)
    requires
        lawful_pow::<T>(),
        x4.v > 0real,
        t.v <= u.v,
    ensures
        0real <= s_curve1(t, x4).v <= s_curve1(u, x4).v <= 1real,
{
    let e = Real::<T>::literal(5, 2).v;
    lemma_quotient(5real, 2real);
    assert(e > 0real);
    lemma_quotient_is(x4.v, x4.v, 1real);
    lemma_unit(x4.v);
    if 0real < t.v && t.v < x4.v {
        lemma_quotient_sign(t.v, x4.v);
        lemma_quotient_mono(t.v, u.v, x4.v);
        lemma_quotient_mono(t.v, x4.v, x4.v);
        assert(T::pow(t.v / x4.v, e) <= T::pow(1real, e));
    }
    if 0real < u.v && u.v < x4.v {
        lemma_quotient_sign(u.v, x4.v);
        lemma_quotient_mono(u.v, x4.v, x4.v);
        assert(T::pow(u.v / x4.v, e) <= T::pow(1real, e));
        if 0real < t.v {
            assert(T::pow(t.v / x4.v, e) <= T::pow(u.v / x4.v, e));
        }
    }
}

/// The rising limb of the fast S-curve.
proof fn lemma_rising<T: Elementary>(t: Real<T>, x4: Real<T>)
    requires
        lawful_pow::<T>(),
        x4.v > 0real,
        0real < t.v <= x4.v,
    ensures
        0real <= s_curve2(t, x4).v <= 1real / 2real,
{
    let e = Real::<T>::literal(5, 2).v;
    lemma_quotient(5real, 2real);
    lemma_quotient_is(x4.v, x4.v, 1real);
    lemma_unit(x4.v);
    lemma_half(1real);
    lemma_quotient_sign(t.v, x4.v);
    lemma_quotient_mono(t.v, x4.v, x4.v);
    assert(T::pow(t.v / x4.v, e) <= T::pow(1real, e));
    lemma_product_sign(1real / 2real, T::pow(t.v / x4.v, e));
    lemma_product_mono(T::pow(t.v / x4.v, e), 1real, 1real / 2real);
    lemma_unit(1real / 2real);
}

/// The falling-off limb of the fast S-curve.
proof fn lemma_levelling<T: Elementary>(t: Real<T>, x4: Real<T>)
    requires
        lawful_pow::<T>(),
        x4.v > 0real,
        x4.v < t.v < 2real * x4.v,
    ensures
        1real / 2real <= s_curve2(t, x4).v <= 1real,
        0real <= 2real - t.v / x4.v <= 1real,
{
    let e = Real::<T>::literal(5, 2).v;
    lemma_quotient(5real, 2real);
    lemma_quotient_is(x4.v, x4.v, 1real);
    lemma_quotient_is(2real * x4.v, x4.v, 2real);
    lemma_unit(x4.v);
    lemma_half(1real);
    lemma_quotient_mono(x4.v, t.v, x4.v);
    lemma_quotient_mono(t.v, 2real * x4.v, x4.v);
    let rest = 2real - t.v / x4.v;
    assert(T::pow(rest, e) <= T::pow(1real, e));
    lemma_product_sign(1real / 2real, T::pow(rest, e));
    lemma_product_mono(T::pow(rest, e), 1real, 1real / 2real);
    lemma_unit(1real / 2real);
}

/// The fast S-curve lies in `[0, 1]` and never falls.
proof fn lemma_s_curve2<T: Elementary>(t: Real<T>, u: Real<T>, x4: Real<T>)
    requires
        lawful_pow::<T>(),
        x4.v > 0real,
        t.v <= u.v,
    ensures
        0real <= s_curve2(t, x4).v <= s_curve2(u, x4).v <= 1real,
{
    let e = Real::<T>::literal(5, 2).v;
    lemma_quotient(5real, 2real);
    assert(e > 0real);
    lemma_half(1real);
    if 0real < t.v <= x4.v {
        lemma_rising(t, x4);
    } else if x4.v < t.v && t.v < 2real * x4.v {
        lemma_levelling(t, x4);
    }
    if 0real < u.v <= x4.v {
        lemma_rising(u, x4);
        if 0real < t.v {
            lemma_quotient_sign(t.v, x4.v);
            lemma_quotient_mono(t.v, u.v, x4.v);
            lemma_product_mono(
                T::pow(t.v / x4.v, e),
                T::pow(u.v / x4.v, e),
                1real / 2real,
            );
        }
    } else if x4.v < u.v && u.v < 2real * x4.v {
        lemma_levelling(u, x4);
        if x4.v < t.v {
            lemma_quotient_mono(t.v, u.v, x4.v);
            let (rt, ru) = (2real - t.v / x4.v, 2real - u.v / x4.v);
            assert(T::pow(ru, e) <= T::pow(rt, e));
            lemma_product_mono(T::pow(ru, e), T::pow(rt, e), 1real / 2real);
        }
    }
}

/// The ordinates of the slow unit hydrograph are non-negative and sum to one.
pub proof fn slow_ordinates_sum_to_one<T: Elementary>(x4: Real<T>)
    requires
        lawful_pow::<T>(),
        x4.v >= 1real / 2real,
        countable(x4),
    ensures
        non_negative(ordinates1(x4)),
        sum(ordinates1(x4)) == one::<Real<T>>(),
{
    lemma_half(1real);
    lemma_buffer_len(x4);
    let s = ordinates1(x4);
    let g = |i: int| s_curve1(Real::<T>::natural(i as nat), x4).v;
    assert forall|i: int| 0 <= i < s.len() implies (#[trigger] s[i]).v >= 0real by {
        lemma_s_curve1(
            Real::<T>::natural(i as nat),
            Real::<T>::natural((i + 1) as nat),
            x4,
        );
    }
    assert forall|i: int| 0 <= i < s.len() implies (#[trigger] s[i]).v == g(i + 1) - g(i) by {}
    lemma_sum_telescopes(s, g);
}

/// The ordinates of the fast unit hydrograph are non-negative and sum to one.
pub proof fn fast_ordinates_sum_to_one<T: Elementary>(x4: Real<T>)
    requires
        lawful_pow::<T>(),
        x4.v >= 1real / 2real,
        countable(two::<Real<T>>().times(x4)),
    ensures
        non_negative(ordinates2(x4)),
        sum(ordinates2(x4)) == one::<Real<T>>(),
{
    lemma_half(1real);
    lemma_buffer_len(two::<Real<T>>().times(x4));
    let s = ordinates2(x4);
    let g = |i: int| s_curve2(Real::<T>::natural(i as nat), x4).v;
    assert forall|i: int| 0 <= i < s.len() implies (#[trigger] s[i]).v >= 0real by {
        lemma_s_curve2(
            Real::<T>::natural(i as nat),
            Real::<T>::natural((i + 1) as nat),
            x4,
        );
    }
    assert forall|i: int| 0 <= i < s.len() implies (#[trigger] s[i]).v == g(i + 1) - g(i) by {}
    lemma_sum_telescopes(s, g);
    let end = Real::<T>::natural(s.len());
    assert(end.v >= 2real * x4.v);
    assert(s_curve2(end, x4).v == 1real);
    assert(g(0) == 0real);
}

/// The slow unit hydrograph lasts `ceil(x4)` days, and its first `j` days release
/// the share `(j / x4)^(5/2)` of a pulse, or all of it from day `x4` on.
pub proof fn slow_release_follows_the_power_curve<T: Elementary>(x4: Real<T>, j: nat)
    requires
        x4.v > 0real,
        countable(x4),
        j <= ordinates1(x4).len(),
    ensures
        ordinates1(x4).len() == real_ceiling(x4.v),
        sum(ordinates1(x4).take(j as int)).v == if j == 0 {
            0real
        } else if (j as real) < x4.v {
            T::pow(j as real / x4.v, 5real / 2real)
        } else {
            1real
        },
{
    lemma_buffer_len(x4);
    let s = ordinates1(x4).take(j as int);
    let g = |i: int| s_curve1(Real::<T>::natural(i as nat), x4).v;
    assert forall|i: int| 0 <= i < s.len() implies (#[trigger] s[i]).v == g(i + 1) - g(i) by {}
    lemma_sum_telescopes(s, g);
    assert(g(0) == 0real);
}

/// The fast unit hydrograph lasts `ceil(2 x4)` days, and its first `j` days
/// release the share `(j / x4)^(5/2) / 2` of a pulse up to day `x4`, and all but
/// `(2 - j / x4)^(5/2) / 2` of it from there to day `2 x4`, where it ends.
pub proof fn fast_release_follows_the_power_curve<T: Elementary>(x4: Real<T>, j: nat)
    requires
        x4.v > 0real,
        countable(two::<Real<T>>().times(x4)),
        j <= ordinates2(x4).len(),
    ensures
        ordinates2(x4).len() == real_ceiling(2real * x4.v),
        sum(ordinates2(x4).take(j as int)).v == if j == 0 {
            0real
        } else if j as real <= x4.v {
            1real / 2real * T::pow(j as real / x4.v, 5real / 2real)
        } else if (j as real) < 2real * x4.v {
            1real - 1real / 2real * T::pow(2real - j as real / x4.v, 5real / 2real)
        } else {
            1real
        },
{
    assert(two::<Real<T>>().times(x4).v == 2real * x4.v);
    lemma_buffer_len(two::<Real<T>>().times(x4));
    let s = ordinates2(x4).take(j as int);
    let g = |i: int| s_curve2(Real::<T>::natural(i as nat), x4).v;
    assert forall|i: int| 0 <= i < s.len() implies (#[trigger] s[i]).v == g(i + 1) - g(i) by {}
    lemma_sum_telescopes(s, g);
    assert(g(0) == 0real);
}

} // verus!
