//! Laws of hydrographs routed through a reach.
use vstd::prelude::*;

verus! {

use crate::exact::{Elementary, Real};
use crate::laws::algebra::{
    lemma_distribute, lemma_half, lemma_product_mono, lemma_product_sign, lemma_quotient_is,
    lemma_unit,
};
use crate::laws::reach::{
    coefficients_sum_to_one, lemma_coefficients, reach_step_conserves_water, reach_storage,
    reaches_route_forward, routable, stable, stable_coefficients_are_non_negative,
};
use crate::laws::sums::non_negative;
use crate::number::{half, Arith};
use crate::routing::{lemma_routed_len, reach_coefficients, reach_fault, reach_step, routed};

/// Volume that passes during a series with time step `dt`, by trapezoids.
pub open spec fn passed<T: Elementary>(s: Seq<Real<T>>, dt: Real<T>) -> real
    decreases s.len(),
{
    if s.len() <= 1 {
        0real
    } else {
        passed(s.drop_last(), dt) + dt.v / 2real * (s[s.len() - 2].v + s.last().v)
    }
}

/// Whether every value of a series lies between `low` and `high`.
pub open spec fn between<T: Elementary>(s: Seq<Real<T>>, low: real, high: real) -> bool {
    forall|i: int| 0 <= i < s.len() ==> low <= (#[trigger] s[i]).v <= high
}

/// Routing the first steps gives the first steps of the routed series.
pub(crate) proof fn lemma_routed_prefix<T: Elementary>(
    c: (Real<T>, Real<T>, Real<T>),
    inflow: Seq<Real<T>>,
    n: int,
)
    requires
        0 <= n <= inflow.len(),
    ensures
        routed(c, inflow).take(n) == routed(c, inflow.take(n)),
        routed(c, inflow).len() == inflow.len(),
    decreases inflow.len() - n,
{
    lemma_routed_len(c, inflow);
    if n == inflow.len() {
        assert(inflow.take(n) =~= inflow);
        assert(routed(c, inflow).take(n) =~= routed(c, inflow));
    } else if n == 0 {
        assert(routed(c, inflow).take(0) =~= routed(c, inflow.take(0)));
    } else {
        lemma_routed_prefix(c, inflow, n + 1);
        let more = inflow.take(n + 1);
        lemma_routed_len(c, more);
        lemma_routed_len(c, inflow.take(n));
        assert(more.drop_last() =~= inflow.take(n));
        assert(routed(c, more).drop_last() =~= routed(c, more.drop_last()));
        assert(routed(c, inflow).take(n) =~= routed(c, inflow).take(n + 1).drop_last());
    }
}

/// One step of [`lemma_attenuates`].
proof fn lemma_stable_step<T: Elementary>(
    k: Real<T>,
    x: Real<T>,
    dt: Real<T>,
    now: Real<T>,
    before: Real<T>,
    out: Real<T>,
    low: real,
    high: real,
)
    requires
        reach_fault(k, x) is None,
        stable(k, x, dt),
        low <= now.v <= high,
        low <= before.v <= high,
        low <= out.v <= high,
    ensures
        low <= reach_step(reach_coefficients(k, x, dt), now, before, out).v <= high,
{
    let c = reach_coefficients(k, x, dt);
    stable_coefficients_are_non_negative(k, x, dt);
    coefficients_sum_to_one(k, x, dt);
    let (c0, c1, c2) = (c.0.v, c.1.v, c.2.v);
    let (n, b, o) = (now.v, before.v, out.v);
    lemma_product_mono(n, high, c0);
    lemma_product_mono(b, high, c1);
    lemma_product_mono(o, high, c2);
    lemma_distribute(c0, c1, high);
    lemma_distribute(c0 + c1, c2, high);
    lemma_unit(high);
    lemma_product_mono(low, n, c0);
    lemma_product_mono(low, b, c1);
    lemma_product_mono(low, o, c2);
    lemma_distribute(c0, c1, low);
    lemma_distribute(c0 + c1, c2, low);
    lemma_unit(low);
}

/// In the stable window outflow stays between bounds of the inflow.
proof fn lemma_attenuates<T: Elementary>(
    k: Real<T>,
    x: Real<T>,
    dt: Real<T>,
    inflow: Seq<Real<T>>,
    low: real,
    high: real,
)
    requires
        reach_fault(k, x) is None,
        stable(k, x, dt),
        between(inflow, low, high),
    ensures
        between(routed(reach_coefficients(k, x, dt), inflow), low, high),
    decreases inflow.len(),
{
    let c = reach_coefficients(k, x, dt);
    if inflow.len() > 1 {
        let n = inflow.len() as int;
        let less = inflow.drop_last();
        assert forall|i: int| 0 <= i < less.len() implies low <= (#[trigger] less[i]).v
            <= high by {
            assert(less[i] == inflow[i]);
        }
        lemma_attenuates(k, x, dt, less, low, high);
        lemma_routed_len(c, less);
        let upto = routed(c, less);
        assert(low <= upto[n - 2].v <= high);
        lemma_stable_step(k, x, dt, inflow[n - 1], inflow[n - 2], upto.last(), low, high);
    }
}

/// In the stable window the outflow of a reach is at no time above the highest
/// or below the lowest inflow so far.
pub proof fn routing_attenuates<T: Elementary>(
    k: Real<T>,
    x: Real<T>,
    dt: Real<T>,
    inflow: Seq<Real<T>>,
    t: int,
    low: real,
    high: real,
)
    requires
        reach_fault(k, x) is None,
        stable(k, x, dt),
        0 <= t < inflow.len(),
        between(inflow.take(t + 1), low, high),
    ensures
        low <= routed(reach_coefficients(k, x, dt), inflow)[t].v <= high,
{
    let c = reach_coefficients(k, x, dt);
    lemma_attenuates(k, x, dt, inflow.take(t + 1), low, high);
    lemma_routed_prefix(c, inflow, t + 1);
    assert(routed(c, inflow).take(t + 1)[t] == routed(c, inflow)[t]);
}

/// In the stable window a non-negative hydrograph stays non-negative.
pub proof fn stable_routing_stays_non_negative<T: Elementary>(
    k: Real<T>,
    x: Real<T>,
    dt: Real<T>,
    inflow: Seq<Real<T>>,
)
    requires
        reach_fault(k, x) is None,
        stable(k, x, dt),
        non_negative(inflow),
    ensures
        non_negative(routed(reach_coefficients(k, x, dt), inflow)),
    decreases inflow.len(),
{
    let c = reach_coefficients(k, x, dt);
    lemma_routed_len(c, inflow);
    if inflow.len() > 1 {
        let n = inflow.len() as int;
        let less = inflow.drop_last();
        assert forall|i: int| 0 <= i < less.len() implies (#[trigger] less[i]).v >= 0real by {
            assert(less[i] == inflow[i]);
        }
        stable_routing_stays_non_negative(k, x, dt, less);
        lemma_routed_len(c, less);
        let upto = routed(c, less);
        stable_coefficients_are_non_negative(k, x, dt);
        assert(upto[n - 2].v >= 0real);
        assert(inflow[n - 1].v >= 0real && inflow[n - 2].v >= 0real);
        lemma_product_sign(c.0.v, inflow[n - 1].v);
        lemma_product_sign(c.1.v, inflow[n - 2].v);
        lemma_product_sign(c.2.v, upto[n - 2].v);
    }
}

/// Over a whole series a reach gains exactly what flows in less what flows out,
/// in the stable window and out of it. A hydrograph that begins and ends with
/// an empty reach thus comes out with its full volume.
pub proof fn routing_conserves_water<T: Elementary>(
    k: Real<T>,
    x: Real<T>,
    dt: Real<T>,
    inflow: Seq<Real<T>>,
)
    requires
        routable(k, x, dt),
        inflow.len() > 0,
    ensures
        ({
            let out = routed(reach_coefficients(k, x, dt), inflow);
            &&& out.len() == inflow.len()
            &&& reach_storage(k, x, inflow.last(), out.last()) - reach_storage(
                k,
                x,
                inflow[0],
                out[0],
            ) == passed(inflow, dt) - passed(out, dt)
        }),
    decreases inflow.len(),
{
    let c = reach_coefficients(k, x, dt);
    lemma_routed_len(c, inflow);
    if inflow.len() > 1 {
        let n = inflow.len() as int;
        let less = inflow.drop_last();
        routing_conserves_water(k, x, dt, less);
        let upto = routed(c, less);
        let out = routed(c, inflow);
        assert(out.drop_last() =~= upto);
        assert(out[n - 2] == upto.last());
        assert(out[0] == upto[0]);
        reach_step_conserves_water(k, x, dt, inflow[n - 1], inflow[n - 2], upto.last());
        assert(passed(inflow, dt) == passed(less, dt) + dt.v / 2real * (inflow[n - 2].v + inflow[n
            - 1].v));
        assert(passed(out, dt) == passed(upto, dt) + dt.v / 2real * (out[n - 2].v + out[n - 1].v));
    }
}

/// A steady flow passes a reach unchanged.
pub proof fn steady_flow_passes_unchanged<T: Elementary>(
    k: Real<T>,
    x: Real<T>,
    dt: Real<T>,
    inflow: Seq<Real<T>>,
    flow: Real<T>,
)
    requires
        routable(k, x, dt),
        forall|i: int| 0 <= i < inflow.len() ==> #[trigger] inflow[i] == flow,
    ensures
        routed(reach_coefficients(k, x, dt), inflow) =~= inflow,
    decreases inflow.len(),
{
    let c = reach_coefficients(k, x, dt);
    if inflow.len() > 1 {
        let less = inflow.drop_last();
        steady_flow_passes_unchanged(k, x, dt, less, flow);
        coefficients_sum_to_one(k, x, dt);
        let (c0, c1, c2, f) = (c.0.v, c.1.v, c.2.v, flow.v);
        lemma_distribute(c0, c1, f);
        lemma_distribute(c0 + c1, c2, f);
        lemma_unit(f);
        assert(less.last() == inflow[inflow.len() - 2]);
        assert(reach_step(c, flow, flow, flow).v == f);
    }
}

/// With `K = dt` and `x = 1/2` a reach delays a hydrograph by one step and leaves
/// it otherwise as it is.
pub proof fn unit_reach_is_a_pure_delay<T: Elementary>(dt: Real<T>, inflow: Seq<Real<T>>)
    requires
        dt.v > 0real,
    ensures
        ({
            let out = routed(reach_coefficients(dt, half(), dt), inflow);
            &&& out.len() == inflow.len()
            &&& inflow.len() > 0 ==> out[0] == inflow[0]
            &&& forall|t: int| 1 <= t < out.len() ==> #[trigger] out[t] == inflow[t - 1]
        }),
    decreases inflow.len(),
{
    let c = reach_coefficients(dt, half(), dt);
    if inflow.len() > 1 {
        let less = inflow.drop_last();
        unit_reach_is_a_pure_delay(dt, less);
        assert(reach_fault(dt, half()) is None);
        reaches_route_forward(dt, half(), dt);
        lemma_coefficients(dt, half(), dt);
        lemma_half(dt.v);
        let (d, kx) = (dt.v, dt.v * (1real / 2real));
        lemma_distribute(1real / 2real, 0real, d);
        let (c0, c1, c2) = (c.0.v, c.1.v, c.2.v);
        lemma_quotient_is(0real, d, c0);
        lemma_quotient_is(d, d, c1);
        lemma_quotient_is(0real, d, c2);
        lemma_quotient_is(d, d, 1real);
        lemma_unit(d);
        lemma_quotient_is(0real, d, 0real);
        let upto = routed(c, less);
        let (now, before, out) = (inflow.last(), inflow[inflow.len() - 2], upto.last());
        let (n, b, o) = (now.v, before.v, out.v);
        lemma_unit(n);
        lemma_unit(b);
        lemma_unit(o);
        assert(reach_step(c, now, before, out).v == b);
        assert forall|t: int| 1 <= t < inflow.len() implies #[trigger] upto.push(
            reach_step(c, now, before, out),
        )[t] == inflow[t - 1] by {
            if t < upto.len() {
                assert(upto[t] == less[t - 1]);
            }
        }
    }
}

} // verus!
