//! Laws of a routing step in a reach.
use vstd::prelude::*;

verus! {

use crate::exact::{Elementary, Real};
use crate::laws::algebra::{
    lemma_assoc, lemma_distribute, lemma_half, lemma_product_sign, lemma_quotient,
    lemma_quotient_is, lemma_quotient_sign, lemma_strict, lemma_swap, lemma_unit,
};
use crate::number::{one, Arith};
use crate::routing::{reach_coefficients, reach_fault, reach_step};

/// Denominator of the coefficients of a reach: `K - K x + dt / 2`.
pub open spec fn denominator(k: real, x: real, dt: real) -> real {
    k - k * x + dt / 2real
}

/// A sound reach, and a time step for which its coefficients are defined. That
/// is the case for every time step that is not negative.
pub open spec fn routable<T: Elementary>(k: Real<T>, x: Real<T>, dt: Real<T>) -> bool {
    reach_fault(k, x) is None && denominator(k.v, x.v, dt.v) != 0real
}

/// A sound reach can route with every time step that is not negative.
pub proof fn reaches_route_forward<T: Elementary>(k: Real<T>, x: Real<T>, dt: Real<T>)
    requires
        reach_fault(k, x) is None,
        dt.v >= 0real,
    ensures
        routable(k, x, dt),
        denominator(k.v, x.v, dt.v) > 0real,
        k.v > 0real,
        0real <= x.v <= 1real / 2real,
{
    lemma_half(1real);
    lemma_half(dt.v);
    lemma_strict(x.v, 1real, k.v);
    lemma_unit(k.v);
}

/// Facts about the coefficients of a sound reach.
pub(crate) proof fn lemma_coefficients<T: Elementary>(k: Real<T>, x: Real<T>, dt: Real<T>)
    requires
        routable(k, x, dt),
    ensures
        ({
            let c = reach_coefficients(k, x, dt);
            let d = denominator(k.v, x.v, dt.v);
            &&& c.0.v * d == dt.v / 2real - k.v * x.v
            &&& c.1.v * d == dt.v / 2real + k.v * x.v
            &&& c.2.v * d == k.v - k.v * x.v - dt.v / 2real
        }),
{
    let d = denominator(k.v, x.v, dt.v);
    let kk = k.v;
    let xx = x.v;
    lemma_half(dt.v);
    lemma_quotient(dt.v / 2real - kk * xx, d);
    lemma_quotient(dt.v / 2real + kk * xx, d);
    lemma_quotient(kk - kk * xx - dt.v / 2real, d);
}

/// The routing coefficients of a reach sum to one, in the stable window and out
/// of it.
pub proof fn coefficients_sum_to_one<T: Elementary>(k: Real<T>, x: Real<T>, dt: Real<T>)
    requires
        routable(k, x, dt),
    ensures
        ({
            let c = reach_coefficients(k, x, dt);
            c.0.plus(c.1).plus(c.2) == one::<Real<T>>()
        }),
{
    lemma_coefficients(k, x, dt);
    let c = reach_coefficients(k, x, dt);
    let d = denominator(k.v, x.v, dt.v);
    let (a, b, e) = (c.0.v, c.1.v, c.2.v);
    lemma_distribute(a, b, d);
    lemma_distribute(a + b, e, d);
    lemma_quotient_is((a + b + e) * d, d, a + b + e);
    lemma_quotient_is(d, d, 1real);
}

/// Whether the time step lies in the window `2Kx <= dt <= 2K(1 - x)` in which
/// routing is stable.
pub open spec fn stable<T: Elementary>(k: Real<T>, x: Real<T>, dt: Real<T>) -> bool {
    2real * (k.v * x.v) <= dt.v <= 2real * (k.v - k.v * x.v)
}

/// In the stable window no routing coefficient is negative.
pub proof fn stable_coefficients_are_non_negative<T: Elementary>(
    k: Real<T>,
    x: Real<T>,
    dt: Real<T>,
)
    requires
        reach_fault(k, x) is None,
        stable(k, x, dt),
    ensures
        ({
            let c = reach_coefficients(k, x, dt);
            c.0.v >= 0real && c.1.v >= 0real && c.2.v >= 0real
        }),
        routable(k, x, dt),
{
    let d = denominator(k.v, x.v, dt.v);
    let kx = k.v * x.v;
    lemma_half(1real);
    lemma_product_sign(k.v, x.v);
    reaches_route_forward(k, x, dt);
    lemma_half(dt.v);
    lemma_quotient_sign(dt.v / 2real - kx, d);
    lemma_quotient_sign(dt.v / 2real + kx, d);
    lemma_quotient_sign(k.v - kx - dt.v / 2real, d);
}

/// Water held in a reach with inflow `i` and outflow `q`: `K (x I + (1 - x) Q)`.
pub open spec fn reach_storage<T: Elementary>(
    k: Real<T>,
    x: Real<T>,
    i: Real<T>,
    q: Real<T>,
) -> real {
    k.v * (x.v * i.v + (1real - x.v) * q.v)
}

/// Storage of a reach, multiplied out.
proof fn lemma_reach_storage(k: real, x: real, i: real, q: real)
    ensures
        k * (x * i + (1real - x) * q) == (k * x) * i + (k - k * x) * q,
{
    lemma_distribute(x * i, (1real - x) * q, k);
    lemma_assoc(k, x, i);
    lemma_assoc(k, 1real - x, q);
    lemma_distribute(1real, x, k);
    lemma_unit(k);
}

/// In a routing step the reach gains what flows in less what flows out, in the
/// stable window and out of it.
pub proof fn reach_step_conserves_water<T: Elementary>(
    k: Real<T>,
    x: Real<T>,
    dt: Real<T>,
    now: Real<T>,
    before: Real<T>,
    out: Real<T>,
)
    requires
        routable(k, x, dt),
    ensures
        ({
            let next = reach_step(reach_coefficients(k, x, dt), now, before, out);
            reach_storage(k, x, now, next) - reach_storage(k, x, before, out) == dt.v / 2real * (
            before.v + now.v) - dt.v / 2real * (out.v + next.v)
        }),
{
    lemma_coefficients(k, x, dt);
    let c = reach_coefficients(k, x, dt);
    let next = reach_step(c, now, before, out);
    let d = denominator(k.v, x.v, dt.v);
    let (kk, xx, h) = (k.v, x.v, dt.v / 2real);
    let (c0, c1, c2) = (c.0.v, c.1.v, c.2.v);
    let (n, b, o, q) = (now.v, before.v, out.v, next.v);
    assert(q == c0 * n + c1 * b + c2 * o);
    let kx = kk * xx;
    lemma_distribute(c0 * n, c1 * b, d);
    lemma_distribute(c0 * n + c1 * b, c2 * o, d);
    lemma_swap(c0, n, d);
    lemma_swap(c1, b, d);
    lemma_swap(c2, o, d);
    assert(q * d == (h - kx) * n + (h + kx) * b + (kk - kx - h) * o);
    lemma_distribute(h, kx, n);
    lemma_distribute(h, kx, b);
    lemma_distribute(kk - kx, h, o);
    lemma_distribute(kk, kx, o);
    lemma_distribute(kk - kx, h, q);
    lemma_distribute(kk, kx, q);
    lemma_reach_storage(kk, xx, n, q);
    lemma_reach_storage(kk, xx, b, o);
    lemma_distribute(b, n, h);
    lemma_distribute(o, q, h);
}

} // verus!
